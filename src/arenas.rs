//! The arenas: one generational slot map per resource kind, and the clock
//! that stamps creation order.
use vstd::prelude::*;
use slotmap::DefaultKey;
use crate::bitmap::BitmapData;
use crate::slots::{
    bitmap_slots, bitmaps_get, bitmaps_insert, bitmaps_new, same_key, viewport_slots, viewports_get,
    viewports_get_mut, viewports_insert, viewports_len, viewports_new, viewports_pair_mut, window_slots,
    windows_get, windows_get_mut, windows_insert, windows_new, windows_remove, BitmapSlots, ViewportSlots,
    WindowSlots,
};
use crate::viewport::ViewportData;
use crate::window::WindowData;

verus! {

/// Why an arena operation did not take place.
#[derive(Clone, Copy, Debug, PartialEq, Eq, Structural)]
pub enum ArenaError {
    /// The handle finds no live resource: never made, or disposed of.
    NotFound,
    /// Two borrows that must be disjoint were asked of one resource.
    Aliased,
    /// A draw list already holds an entry at the paint-order key.
    DuplicateZ,
}

/// Every drawable resource, addressed by generational handles.
pub struct Arenas {
    viewport: ViewportSlots,
    window: WindowSlots,
    bitmap: BitmapSlots,
    ticks: u64,
}

impl Default for Arenas {
    fn default() -> (r: Arenas)
        ensures
            r.viewports().dom() == Set::<DefaultKey>::empty(),
            r.windows().dom() == Set::<DefaultKey>::empty(),
            r.bitmaps().dom() == Set::<DefaultKey>::empty(),
            r.ticks() == 0,
    {
        Arenas::new()
    }
}

impl Arenas {
    pub closed spec fn viewports(&self) -> Map<DefaultKey, ViewportData> {
        viewport_slots(self.viewport)
    }

    pub closed spec fn windows(&self) -> Map<DefaultKey, WindowData> {
        window_slots(self.window)
    }

    pub closed spec fn bitmaps(&self) -> Map<DefaultKey, BitmapData> {
        bitmap_slots(self.bitmap)
    }

    /// The creation tick that the next resource will carry.
    pub closed spec fn ticks(&self) -> u64 {
        self.ticks
    }

    pub fn new() -> (r: Arenas)
        ensures
            r.viewports() == Map::<DefaultKey, ViewportData>::empty(),
            r.windows() == Map::<DefaultKey, WindowData>::empty(),
            r.bitmaps() == Map::<DefaultKey, BitmapData>::empty(),
            r.ticks() == 0,
    {
        let r = Arenas { viewport: viewports_new(), window: windows_new(), bitmap: bitmaps_new(), ticks: 0 };
        assert(r.viewports() =~= Map::<DefaultKey, ViewportData>::empty());
        assert(r.windows() =~= Map::<DefaultKey, WindowData>::empty());
        assert(r.bitmaps() =~= Map::<DefaultKey, BitmapData>::empty());
        r
    }

    /// Takes the next creation tick; ticks are handed out strictly increasing.
    pub fn next_tick(&mut self) -> (t: u64)
        requires
            old(self).ticks() < u64::MAX,
        ensures
            t == old(self).ticks(),
            final(self).ticks() == t + 1,
            final(self).viewports() == old(self).viewports(),
            final(self).windows() == old(self).windows(),
            final(self).bitmaps() == old(self).bitmaps(),
    {
        let t = self.ticks;
        self.ticks = t + 1;
        t
    }

    pub fn viewport_count(&self) -> (r: usize)
        ensures
            r == self.viewports().len(),
    {
        viewports_len(&self.viewport)
    }

    pub fn insert_viewport(&mut self, data: ViewportData) -> (k: DefaultKey)
        requires
            old(self).viewports().len() + 1 < u32::MAX,
        ensures
            !old(self).viewports().contains_key(k),
            final(self).viewports() == old(self).viewports().insert(k, data),
            final(self).windows() == old(self).windows(),
            final(self).bitmaps() == old(self).bitmaps(),
            final(self).ticks() == old(self).ticks(),
    {
        viewports_insert(&mut self.viewport, data)
    }

    /// The viewport under `k`, or `NotFound`.
    pub fn viewport(&self, k: DefaultKey) -> (r: Result<&ViewportData, ArenaError>)
        ensures
            r.is_ok() == self.viewports().contains_key(k),
            r.is_ok() ==> *r.unwrap() == self.viewports()[k],
            r.is_err() ==> r == Err::<&ViewportData, ArenaError>(ArenaError::NotFound),
    {
        match viewports_get(&self.viewport, k) {
            Some(v) => Ok(v),
            None => Err(ArenaError::NotFound),
        }
    }

    /// A borrow of the viewport under `k`, or `NotFound` and no change.
    pub fn viewport_mut(&mut self, k: DefaultKey) -> (r: Result<&mut ViewportData, ArenaError>)
        ensures
            r.is_ok() == old(self).viewports().contains_key(k),
            r.is_ok() ==> *r.unwrap() == old(self).viewports()[k]
                && final(self).viewports() == old(self).viewports().insert(k, *final(r.unwrap())),
            r.is_err() ==> r == Err::<&mut ViewportData, ArenaError>(ArenaError::NotFound)
                && final(self).viewports() == old(self).viewports(),
            final(self).windows() == old(self).windows(),
            final(self).bitmaps() == old(self).bitmaps(),
            final(self).ticks() == old(self).ticks(),
    {
        match viewports_get_mut(&mut self.viewport, k) {
            Some(v) => Ok(v),
            None => Err(ArenaError::NotFound),
        }
    }

    /// Borrows of two distinct viewports at once: `Aliased` when `a` and `b`
    /// are one handle, `NotFound` when either finds nothing, and no change then.
    pub fn viewport_pair_mut(&mut self, a: DefaultKey, b: DefaultKey) -> (r: Result<(&mut ViewportData, &mut ViewportData), ArenaError>)
        ensures
            r.is_ok() == (a != b && old(self).viewports().contains_key(a) && old(self).viewports().contains_key(b)),
            r.is_ok() ==> *r.unwrap().0 == old(self).viewports()[a] && *r.unwrap().1 == old(self).viewports()[b]
                && final(self).viewports() == old(self).viewports().insert(a, *final(r.unwrap().0)).insert(b, *final(r.unwrap().1)),
            a == b ==> r == Err::<(&mut ViewportData, &mut ViewportData), ArenaError>(ArenaError::Aliased),
            a != b && r.is_err() ==> r == Err::<(&mut ViewportData, &mut ViewportData), ArenaError>(ArenaError::NotFound),
            r.is_err() ==> final(self).viewports() == old(self).viewports(),
            final(self).windows() == old(self).windows(),
            final(self).bitmaps() == old(self).bitmaps(),
            final(self).ticks() == old(self).ticks(),
    {
        if same_key(a, b) {
            return Err(ArenaError::Aliased);
        }
        match viewports_pair_mut(&mut self.viewport, a, b) {
            Some(pair) => Ok(pair),
            None => Err(ArenaError::NotFound),
        }
    }

    pub fn insert_window(&mut self, data: WindowData) -> (k: DefaultKey)
        requires
            old(self).windows().len() + 1 < u32::MAX,
        ensures
            !old(self).windows().contains_key(k),
            final(self).windows() == old(self).windows().insert(k, data),
            final(self).viewports() == old(self).viewports(),
            final(self).bitmaps() == old(self).bitmaps(),
            final(self).ticks() == old(self).ticks(),
    {
        windows_insert(&mut self.window, data)
    }

    /// The window under `k`, or `NotFound`.
    pub fn window(&self, k: DefaultKey) -> (r: Result<&WindowData, ArenaError>)
        ensures
            r.is_ok() == self.windows().contains_key(k),
            r.is_ok() ==> *r.unwrap() == self.windows()[k],
            r.is_err() ==> r == Err::<&WindowData, ArenaError>(ArenaError::NotFound),
    {
        match windows_get(&self.window, k) {
            Some(w) => Ok(w),
            None => Err(ArenaError::NotFound),
        }
    }

    /// A borrow of the window under `k`, or `NotFound` and no change.
    pub fn window_mut(&mut self, k: DefaultKey) -> (r: Result<&mut WindowData, ArenaError>)
        ensures
            r.is_ok() == old(self).windows().contains_key(k),
            r.is_ok() ==> *r.unwrap() == old(self).windows()[k]
                && final(self).windows() == old(self).windows().insert(k, *final(r.unwrap())),
            r.is_err() ==> r == Err::<&mut WindowData, ArenaError>(ArenaError::NotFound)
                && final(self).windows() == old(self).windows(),
            final(self).viewports() == old(self).viewports(),
            final(self).bitmaps() == old(self).bitmaps(),
            final(self).ticks() == old(self).ticks(),
    {
        match windows_get_mut(&mut self.window, k) {
            Some(w) => Ok(w),
            None => Err(ArenaError::NotFound),
        }
    }

    /// Takes the window under `k` out of its arena; afterwards `k` finds nothing.
    pub fn remove_window(&mut self, k: DefaultKey) -> (r: Result<WindowData, ArenaError>)
        ensures
            r.is_ok() == old(self).windows().contains_key(k),
            r.is_ok() ==> r.unwrap() == old(self).windows()[k],
            r.is_err() ==> r == Err::<WindowData, ArenaError>(ArenaError::NotFound),
            final(self).windows() == old(self).windows().remove(k),
            final(self).viewports() == old(self).viewports(),
            final(self).bitmaps() == old(self).bitmaps(),
            final(self).ticks() == old(self).ticks(),
    {
        match windows_remove(&mut self.window, k) {
            Some(w) => Ok(w),
            None => Err(ArenaError::NotFound),
        }
    }

    pub fn insert_bitmap(&mut self, data: BitmapData) -> (k: DefaultKey)
        requires
            old(self).bitmaps().len() + 1 < u32::MAX,
        ensures
            !old(self).bitmaps().contains_key(k),
            final(self).bitmaps() == old(self).bitmaps().insert(k, data),
            final(self).viewports() == old(self).viewports(),
            final(self).windows() == old(self).windows(),
            final(self).ticks() == old(self).ticks(),
    {
        bitmaps_insert(&mut self.bitmap, data)
    }

    /// The bitmap under `k`, or `NotFound`.
    pub fn bitmap(&self, k: DefaultKey) -> (r: Result<&BitmapData, ArenaError>)
        ensures
            r.is_ok() == self.bitmaps().contains_key(k),
            r.is_ok() ==> *r.unwrap() == self.bitmaps()[k],
            r.is_err() ==> r == Err::<&BitmapData, ArenaError>(ArenaError::NotFound),
    {
        match bitmaps_get(&self.bitmap, k) {
            Some(b) => Ok(b),
            None => Err(ArenaError::NotFound),
        }
    }
}

} // verus!
