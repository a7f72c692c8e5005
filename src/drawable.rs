//! A reference to any drawable, resolved against the arenas by a match on
//! its kind.
use vstd::prelude::*;
use crate::arenas::Arenas;
use crate::viewport::{Viewport, ViewportData};
use crate::window::{Window, WindowData};

verus! {

/// A handle to a drawable of any kind.
#[derive(Clone, Copy, Debug, PartialEq, Eq)]
pub enum DrawableRef {
    Viewport(Viewport),
    Window(Window),
}

/// A resolved drawable: a borrow of its record.
pub enum Drawable<'res> {
    Viewport(&'res ViewportData),
    Window(&'res WindowData),
}

/// A resolved drawable: a mutable borrow of its record.
pub enum DrawableMut<'res> {
    Viewport(&'res mut ViewportData),
    Window(&'res mut WindowData),
}

/// Whether `d` finds a live record in `arenas`.
pub open spec fn resolves(d: DrawableRef, arenas: &Arenas) -> bool {
    match d {
        DrawableRef::Viewport(v) => arenas.viewports().contains_key(v.key),
        DrawableRef::Window(w) => arenas.windows().contains_key(w.key),
    }
}

impl DrawableRef {
    /// The record behind this handle, of the matching kind; `None` when the
    /// handle no longer finds one.
    pub fn fetch(self, arenas: &Arenas) -> (r: Option<Drawable<'_>>)
        ensures
            r.is_some() == resolves(self, arenas),
            match (self, r) {
                (DrawableRef::Viewport(v), Some(Drawable::Viewport(d))) => *d == arenas.viewports()[v.key],
                (DrawableRef::Window(w), Some(Drawable::Window(d))) => *d == arenas.windows()[w.key],
                (_, None) => true,
                _ => false,
            },
    {
        match self {
            DrawableRef::Viewport(v) => match arenas.viewport(v.key) {
                Ok(d) => Some(Drawable::Viewport(d)),
                Err(_) => None,
            },
            DrawableRef::Window(w) => match arenas.window(w.key) {
                Ok(d) => Some(Drawable::Window(d)),
                Err(_) => None,
            },
        }
    }

    /// A mutable borrow of the record behind this handle, of the matching
    /// kind; `None` and no change when the handle no longer finds one.
    pub fn fetch_mut(self, arenas: &mut Arenas) -> (r: Option<DrawableMut<'_>>)
        ensures
            r.is_some() == resolves(self, old(arenas)),
            final(arenas).bitmaps() == old(arenas).bitmaps(),
            final(arenas).ticks() == old(arenas).ticks(),
            r.is_none() ==> final(arenas).viewports() == old(arenas).viewports()
                && final(arenas).windows() == old(arenas).windows(),
            match (self, r) {
                (DrawableRef::Viewport(v), Some(DrawableMut::Viewport(d))) => *d == old(arenas).viewports()[v.key]
                    && final(arenas).viewports() == old(arenas).viewports().insert(v.key, *final(d))
                    && final(arenas).windows() == old(arenas).windows(),
                (DrawableRef::Window(w), Some(DrawableMut::Window(d))) => *d == old(arenas).windows()[w.key]
                    && final(arenas).windows() == old(arenas).windows().insert(w.key, *final(d))
                    && final(arenas).viewports() == old(arenas).viewports(),
                (_, None) => true,
                _ => false,
            },
    {
        match self {
            DrawableRef::Viewport(v) => match arenas.viewport_mut(v.key) {
                Ok(d) => Some(DrawableMut::Viewport(d)),
                Err(_) => None,
            },
            DrawableRef::Window(w) => match arenas.window_mut(w.key) {
                Ok(d) => Some(DrawableMut::Window(d)),
                Err(_) => None,
            },
        }
    }
}

} // verus!
