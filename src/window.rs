//! Windows: framed rectangles drawn from a windowskin bitmap.
use vstd::prelude::*;
use slotmap::DefaultKey;
use crate::arenas::{ArenaError, Arenas};
use crate::bitmap::Bitmap;
use crate::data::Rect;
use crate::drawable::DrawableRef;
use crate::graphics::Graphics;
use crate::render::{Quad, TexQuad};
use crate::slots::same_key;
use crate::viewport::{moved_child, rekeyed_child, Viewport, ViewportData};
use crate::z::{has_key, inserted_at, removed_at, sorted_by_z, Z};

verus! {

/// Width of the windowskin region a window draws from, in pixels.
pub const SKIN_WIDTH: u32 = 192;

/// Height of the windowskin region a window draws from, in pixels.
pub const SKIN_HEIGHT: u32 = 128;

/// A handle to a window in the arenas.
#[derive(Clone, Copy, Debug, PartialEq, Eq)]
pub struct Window {
    pub key: DefaultKey,
}

/// The windowskin a window draws: its bitmap, and the quad built from it.
#[derive(Clone, Copy, Debug, PartialEq, Eq)]
pub struct Windowskin {
    pub bitmap: Bitmap,
    pub quad: TexQuad,
}

/// What the arenas hold of a window.
pub struct WindowData {
    pub rect: Rect,
    pub cursor_rect: Rect,
    pub active: bool,
    pub contents_opacity: u8,
    pub viewport: Viewport,
    pub z: Z,
    pub windowskin: Option<Windowskin>,
}

/// The windowskin quad for a bitmap of `width` by `height` pixels: the skin
/// region at the origin, its texture coordinates taken relative to the bitmap.
pub open spec fn skin_quad(width: u32, height: u32) -> TexQuad {
    TexQuad {
        rect: Rect { x: 0, y: 0, width: SKIN_WIDTH, height: SKIN_HEIGHT },
        tex_coords: Rect { x: 0, y: 0, width: SKIN_WIDTH, height: SKIN_HEIGHT },
        tex_width: width,
        tex_height: height,
    }
}

/// The viewport a window asks for: the given one, or the root.
pub open spec fn target_viewport(graphics: &Graphics, viewport: Option<Viewport>) -> Viewport {
    match viewport {
        Some(v) => v,
        None => graphics.root(),
    }
}

/// Once a window is disposed of, its handle finds nothing: every lookup of
/// it gives `None` or `NotFound`, and never the record it had.
pub proof fn lemma_disposed_not_found(before: Arenas, after: Arenas, w: Window)
    requires
        after.windows() == before.windows().remove(w.key),
    ensures
        !after.windows().contains_key(w.key),
{
}

impl Window {
    /// A window in `viewport` (the root one when `None`) at priority 0 with
    /// a fresh creation tick. `NotFound` when that viewport is gone; nothing
    /// changes then but the clock.
    pub fn new(graphics: &Graphics, arenas: &mut Arenas, viewport: Option<Viewport>) -> (r: Result<Window, ArenaError>)
        requires
            old(arenas).ticks() < u64::MAX,
            old(arenas).windows().len() + 1 < u32::MAX,
        ensures
            final(arenas).ticks() == old(arenas).ticks() + 1,
            final(arenas).bitmaps() == old(arenas).bitmaps(),
            ({
                let vp = target_viewport(graphics, viewport).key;
                let z = Z { z: 0, creation_time: old(arenas).ticks() };
                &&& !old(arenas).viewports().contains_key(vp) ==> r == Err::<Window, ArenaError>(ArenaError::NotFound)
                &&& old(arenas).viewports().contains_key(vp) && has_key(old(arenas).viewports()[vp].z_list@, z)
                    ==> r == Err::<Window, ArenaError>(ArenaError::DuplicateZ)
                &&& r.is_err() ==> final(arenas).viewports() == old(arenas).viewports()
                    && final(arenas).windows() == old(arenas).windows()
                &&& old(arenas).viewports().contains_key(vp) && !has_key(old(arenas).viewports()[vp].z_list@, z) ==> r.is_ok()
                &&& r.is_ok() ==> {
                    let k = r.unwrap().key;
                    &&& !old(arenas).windows().contains_key(k)
                    &&& final(arenas).windows() == old(arenas).windows().insert(k, WindowData {
                        rect: Rect { x: 0, y: 0, width: 0, height: 0 },
                        cursor_rect: Rect { x: 0, y: 0, width: 0, height: 0 },
                        active: false,
                        contents_opacity: 255,
                        viewport: target_viewport(graphics, viewport),
                        z,
                        windowskin: None,
                    })
                    &&& final(arenas).viewports().dom() == old(arenas).viewports().dom()
                    &&& final(arenas).viewports()[vp].rect == old(arenas).viewports()[vp].rect
                    &&& final(arenas).viewports()[vp].z == old(arenas).viewports()[vp].z
                    &&& inserted_at(old(arenas).viewports()[vp].z_list@, (z, DrawableRef::Window(r.unwrap())), final(arenas).viewports()[vp].z_list@)
                    &&& final(arenas).viewports() == old(arenas).viewports().insert(vp, final(arenas).viewports()[vp])
                }
            }),
    {
        let vp = match viewport {
            Some(v) => v,
            None => graphics.global_viewport(),
        };
        let tick = arenas.next_tick();
        let z = Z::new(0, tick);
        match arenas.viewport(vp.key) {
            Ok(data) => {
                if data.z_list.get(z).is_some() {
                    return Err(ArenaError::DuplicateZ);
                }
            },
            Err(e) => {
                return Err(e);
            },
        }
        let zero = Rect::new(0, 0, 0, 0);
        let key = arenas.insert_window(WindowData {
            rect: zero,
            cursor_rect: zero,
            active: false,
            contents_opacity: 255,
            viewport: vp,
            z,
            windowskin: None,
        });
        let window = Window { key };
        let ghost before = arenas.viewports();
        match arenas.viewport_mut(vp.key) {
            Ok(data) => {
                let res = data.insert(z, DrawableRef::Window(window));
                assert(res.is_ok());
            },
            Err(_) => {
                assert(false);
            },
        }
        assert(arenas.viewports().dom() =~= before.dom());
        Ok(window)
    }

    /// The window's record; `None` for a handle that finds nothing.
    pub fn get_data<'g>(&self, arenas: &'g Arenas) -> (r: Option<&'g WindowData>)
        ensures
            r.is_some() == arenas.windows().contains_key(self.key),
            r.is_some() ==> *r.unwrap() == arenas.windows()[self.key],
    {
        match arenas.window(self.key) {
            Ok(data) => Some(data),
            Err(_) => None,
        }
    }

    /// A borrow of the window's record; `None` for a handle that finds nothing.
    pub fn get_data_mut<'g>(&self, arenas: &'g mut Arenas) -> (r: Option<&'g mut WindowData>)
        ensures
            r.is_some() == old(arenas).windows().contains_key(self.key),
            r.is_some() ==> *r.unwrap() == old(arenas).windows()[self.key]
                && final(arenas).windows() == old(arenas).windows().insert(self.key, *final(r.unwrap())),
            r.is_none() ==> final(arenas).windows() == old(arenas).windows(),
            final(arenas).viewports() == old(arenas).viewports(),
            final(arenas).bitmaps() == old(arenas).bitmaps(),
            final(arenas).ticks() == old(arenas).ticks(),
    {
        match arenas.window_mut(self.key) {
            Ok(data) => Some(data),
            Err(_) => None,
        }
    }

    /// The viewport holding the window, `None` when that is the root one.
    pub fn viewport(&self, graphics: &Graphics, arenas: &Arenas) -> (r: Result<Option<Viewport>, ArenaError>)
        ensures
            !arenas.windows().contains_key(self.key) ==> r == Err::<Option<Viewport>, ArenaError>(ArenaError::NotFound),
            arenas.windows().contains_key(self.key) ==> r == Ok::<Option<Viewport>, ArenaError>(
                if arenas.windows()[self.key].viewport == graphics.root() {
                    None
                } else {
                    Some(arenas.windows()[self.key].viewport)
                },
            ),
    {
        match arenas.window(self.key) {
            Ok(data) => {
                let root = graphics.global_viewport();
                if same_key(data.viewport.key, root.key) {
                    Ok(None)
                } else {
                    Ok(Some(data.viewport))
                }
            },
            Err(e) => Err(e),
        }
    }

    /// The window's priority.
    pub fn z(&self, arenas: &Arenas) -> (r: Result<i32, ArenaError>)
        ensures
            !arenas.windows().contains_key(self.key) ==> r == Err::<i32, ArenaError>(ArenaError::NotFound),
            arenas.windows().contains_key(self.key) ==> r == Ok::<i32, ArenaError>(arenas.windows()[self.key].z.z),
    {
        match arenas.window(self.key) {
            Ok(data) => Ok(data.z.value()),
            Err(e) => Err(e),
        }
    }

    /// Moves the window into `viewport` (the root one when `None`), keeping
    /// its paint-order key, so its priority and its place among siblings of
    /// equal priority stay as they were. No change when it is there already.
    /// `NotFound` when the window or either viewport is gone; `DuplicateZ`
    /// when the new viewport already has an entry at the window's key.
    pub fn set_viewport(&self, graphics: &Graphics, arenas: &mut Arenas, viewport: Option<Viewport>) -> (r: Result<(), ArenaError>)
        ensures
            final(arenas).bitmaps() == old(arenas).bitmaps(),
            final(arenas).ticks() == old(arenas).ticks(),
            r.is_err() ==> final(arenas).viewports() == old(arenas).viewports()
                && final(arenas).windows() == old(arenas).windows(),
            !old(arenas).windows().contains_key(self.key) ==> r == Err::<(), ArenaError>(ArenaError::NotFound),
            old(arenas).windows().contains_key(self.key) ==> ({
                let w = old(arenas).windows()[self.key];
                let from = w.viewport.key;
                let to = target_viewport(graphics, viewport).key;
                let vps = old(arenas).viewports();
                &&& from == to ==> r == Ok::<(), ArenaError>(()) && final(arenas).viewports() == vps
                    && final(arenas).windows() == old(arenas).windows()
                &&& from != to && !(vps.contains_key(from) && vps.contains_key(to))
                    ==> r == Err::<(), ArenaError>(ArenaError::NotFound)
                &&& from != to && vps.contains_key(from) && vps.contains_key(to) && has_key(vps[to].z_list@, w.z)
                    ==> r == Err::<(), ArenaError>(ArenaError::DuplicateZ)
                &&& from != to && vps.contains_key(from) && vps.contains_key(to) && !has_key(vps[to].z_list@, w.z)
                    ==> r == Ok::<(), ArenaError>(())
                    && final(arenas).windows() == old(arenas).windows().insert(
                        self.key,
                        WindowData { viewport: target_viewport(graphics, viewport), ..w },
                    )
                    && final(arenas).viewports() == vps.insert(from, final(arenas).viewports()[from]).insert(
                        to,
                        final(arenas).viewports()[to],
                    )
                    && moved_child(w.z, vps[from], vps[to], final(arenas).viewports()[from], final(arenas).viewports()[to])
                    && sorted_by_z(final(arenas).viewports()[from].z_list@)
                    && sorted_by_z(final(arenas).viewports()[to].z_list@)
            }),
    {
        let (from, z) = match arenas.window(self.key) {
            Ok(data) => (data.viewport, data.z),
            Err(e) => {
                return Err(e);
            },
        };
        let to = match viewport {
            Some(v) => v,
            None => graphics.global_viewport(),
        };
        if same_key(from.key, to.key) {
            return Ok(());
        }
        let ghost vps = arenas.viewports();
        match arenas.viewport_pair_mut(from.key, to.key) {
            Ok((a, b)) => {
                let res = a.swap(b, z);
                match res {
                    Ok(()) => {},
                    Err(e) => {
                        proof {
                            assert(arenas.viewports() =~= vps);
                        }
                        return Err(e);
                    },
                }
            },
            Err(e) => {
                return Err(e);
            },
        }
        match arenas.window_mut(self.key) {
            Ok(data) => {
                data.viewport = to;
            },
            Err(_) => {
                assert(false);
            },
        }
        Ok(())
    }

    /// Gives the window priority `value`, keeping its creation tick, and
    /// moves its entry in its viewport to the new key. No change when the
    /// priority is `value` already. `NotFound` when the window or its
    /// viewport is gone; `DuplicateZ` when the viewport already has an entry
    /// at the new key.
    pub fn set_z(&self, arenas: &mut Arenas, value: i32) -> (r: Result<(), ArenaError>)
        ensures
            final(arenas).bitmaps() == old(arenas).bitmaps(),
            final(arenas).ticks() == old(arenas).ticks(),
            r.is_err() ==> final(arenas).viewports() == old(arenas).viewports()
                && final(arenas).windows() == old(arenas).windows(),
            !old(arenas).windows().contains_key(self.key) ==> r == Err::<(), ArenaError>(ArenaError::NotFound),
            old(arenas).windows().contains_key(self.key) ==> ({
                let w = old(arenas).windows()[self.key];
                let vp = w.viewport.key;
                let new_z = Z { z: value, creation_time: w.z.creation_time };
                let vps = old(arenas).viewports();
                &&& w.z.z == value ==> r == Ok::<(), ArenaError>(()) && final(arenas).viewports() == vps
                    && final(arenas).windows() == old(arenas).windows()
                &&& w.z.z != value && !vps.contains_key(vp) ==> r == Err::<(), ArenaError>(ArenaError::NotFound)
                &&& w.z.z != value && vps.contains_key(vp) && has_key(vps[vp].z_list@, new_z)
                    ==> r == Err::<(), ArenaError>(ArenaError::DuplicateZ)
                &&& w.z.z != value && vps.contains_key(vp) && !has_key(vps[vp].z_list@, new_z)
                    ==> r == Ok::<(), ArenaError>(())
                    && final(arenas).windows() == old(arenas).windows().insert(self.key, WindowData { z: new_z, ..w })
                    && final(arenas).viewports() == vps.insert(vp, final(arenas).viewports()[vp])
                    && rekeyed_child(w.z, new_z, vps[vp], final(arenas).viewports()[vp])
            }),
    {
        let (vp, z) = match arenas.window(self.key) {
            Ok(data) => (data.viewport, data.z),
            Err(e) => {
                return Err(e);
            },
        };
        if z.value() == value {
            return Ok(());
        }
        let new_z = z.update_value(value);
        let ghost vps = arenas.viewports();
        match arenas.viewport_mut(vp.key) {
            Ok(data) => {
                match data.update_z(z, new_z) {
                    Ok(()) => {},
                    Err(e) => {
                        proof {
                            assert(arenas.viewports() =~= vps);
                        }
                        return Err(e);
                    },
                }
            },
            Err(e) => {
                return Err(e);
            },
        }
        match arenas.window_mut(self.key) {
            Ok(data) => {
                data.z = new_z;
            },
            Err(_) => {
                assert(false);
            },
        }
        Ok(())
    }

    /// Sets the windowskin: `None` clears it; `Some(bitmap)` builds the skin
    /// quad from the bitmap's size, afresh on every call. `NotFound` when the
    /// window or the bitmap is gone, and no change then.
    pub fn set_windowskin(&self, arenas: &mut Arenas, bitmap: Option<Bitmap>) -> (r: Result<(), ArenaError>)
        ensures
            final(arenas).bitmaps() == old(arenas).bitmaps(),
            final(arenas).viewports() == old(arenas).viewports(),
            final(arenas).ticks() == old(arenas).ticks(),
            r.is_err() ==> final(arenas).windows() == old(arenas).windows(),
            !old(arenas).windows().contains_key(self.key) ==> r == Err::<(), ArenaError>(ArenaError::NotFound),
            old(arenas).windows().contains_key(self.key) ==> ({
                let w = old(arenas).windows()[self.key];
                let bms = old(arenas).bitmaps();
                match bitmap {
                    None => r == Ok::<(), ArenaError>(())
                        && final(arenas).windows() == old(arenas).windows().insert(self.key, WindowData { windowskin: None, ..w }),
                    Some(b) => if bms.contains_key(b.key) {
                        r == Ok::<(), ArenaError>(()) && final(arenas).windows() == old(arenas).windows().insert(
                            self.key,
                            WindowData {
                                windowskin: Some(Windowskin {
                                    bitmap: b,
                                    quad: skin_quad(bms[b.key].spec_width(), bms[b.key].spec_height()),
                                }),
                                ..w
                            },
                        )
                    } else {
                        r == Err::<(), ArenaError>(ArenaError::NotFound)
                    },
                }
            }),
    {
        let skin = match bitmap {
            None => None,
            Some(b) => {
                let data = match arenas.bitmap(b.key) {
                    Ok(data) => data,
                    Err(e) => {
                        return match arenas.window(self.key) {
                            Ok(_) => Err(e),
                            Err(e2) => Err(e2),
                        };
                    },
                };
                let region = Rect::new(0, 0, SKIN_WIDTH, SKIN_HEIGHT);
                let quad = Quad { rect: region, tex_coords: region };
                Some(Windowskin { bitmap: b, quad: quad.norm_tex_coords(data.width(), data.height()) })
            },
        };
        match arenas.window_mut(self.key) {
            Ok(data) => {
                data.windowskin = skin;
                Ok(())
            },
            Err(e) => Err(e),
        }
    }

    /// Disposes of the window: its entry leaves its viewport and its record
    /// leaves the arena, so the handle finds nothing afterwards. `NotFound`
    /// when the window is gone already.
    pub fn dispose(&self, arenas: &mut Arenas) -> (r: Result<(), ArenaError>)
        ensures
            final(arenas).bitmaps() == old(arenas).bitmaps(),
            final(arenas).ticks() == old(arenas).ticks(),
            !final(arenas).windows().contains_key(self.key),
            final(arenas).windows() == old(arenas).windows().remove(self.key),
            !old(arenas).windows().contains_key(self.key) ==> r == Err::<(), ArenaError>(ArenaError::NotFound)
                && final(arenas).viewports() == old(arenas).viewports(),
            old(arenas).windows().contains_key(self.key) ==> r == Ok::<(), ArenaError>(()) && ({
                let w = old(arenas).windows()[self.key];
                let vp = w.viewport.key;
                let vps = old(arenas).viewports();
                &&& !vps.contains_key(vp) || !has_key(vps[vp].z_list@, w.z) ==> final(arenas).viewports() == vps
                &&& vps.contains_key(vp) && has_key(vps[vp].z_list@, w.z) ==> final(arenas).viewports() == vps.insert(
                    vp,
                    final(arenas).viewports()[vp],
                ) && removed_at(vps[vp].z_list@, w.z, final(arenas).viewports()[vp].z_list@)
                    && final(arenas).viewports()[vp].rect == vps[vp].rect && final(arenas).viewports()[vp].z == vps[vp].z
            }),
    {
        let data = match arenas.remove_window(self.key) {
            Ok(data) => data,
            Err(e) => {
                return Err(e);
            },
        };
        let ghost vps = arenas.viewports();
        match arenas.viewport_mut(data.viewport.key) {
            Ok(vd) => {
                let _ = vd.remove(data.z);
            },
            Err(_) => {},
        }
        proof {
            if vps.contains_key(data.viewport.key) && !has_key(vps[data.viewport.key].z_list@, data.z) {
                assert(arenas.viewports() =~= vps);
            }
        }
        Ok(())
    }
}

} // verus!
