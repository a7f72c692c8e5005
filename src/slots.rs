//! The generational slot maps of slotmap, as the arenas use them.
//!
//! A slot map hands out keys made of a slot index and a version; a key whose
//! slot was vacated no longer finds anything. Its contents are named per record
//! kind (`viewport_slots`, `window_slots`, `bitmap_slots`), and every call the
//! arenas make is stated over those names.
use vstd::prelude::*;
use slotmap::{DefaultKey, SlotMap};
use crate::bitmap::BitmapData;
use crate::viewport::ViewportData;
use crate::window::WindowData;

verus! {

#[verifier::external_type_specification]
#[verifier::external_body]
pub struct ExDefaultKey(slotmap::DefaultKey);

/// A slotmap `SlotMap` keyed by `DefaultKey`, held whole: Verus does not
/// take a declaration of the map type itself, whose key parameter is bound by
/// slotmap's `Key` trait.
#[verifier::external_body]
#[verifier::reject_recursive_types(V)]
pub struct Slots<V> {
    map: SlotMap<DefaultKey, V>,
}

/// The slot map of viewport records.
pub type ViewportSlots = Slots<ViewportData>;

/// The slot map of window records.
pub type WindowSlots = Slots<WindowData>;

/// The slot map of bitmap records.
pub type BitmapSlots = Slots<BitmapData>;

/// The live entries of a slot map of viewports, by key.
pub uninterp spec fn viewport_slots(m: ViewportSlots) -> Map<DefaultKey, ViewportData>;

/// The live entries of a slot map of windows, by key.
pub uninterp spec fn window_slots(m: WindowSlots) -> Map<DefaultKey, WindowData>;

/// The live entries of a slot map of bitmaps, by key.
pub uninterp spec fn bitmap_slots(m: BitmapSlots) -> Map<DefaultKey, BitmapData>;

/// Relies on the `PartialEq` that slotmap derives for `DefaultKey`: two keys
/// are equal exactly when slot index and version are.
#[verifier::external_body]
pub(crate) fn same_key(a: DefaultKey, b: DefaultKey) -> (r: bool)
    ensures
        r == (a == b),
{
    a == b
}

/// Relies on `SlotMap::new`: a new map holds nothing.
#[verifier::external_body]
pub(crate) fn viewports_new() -> (r: ViewportSlots)
    ensures
        viewport_slots(r).dom() == Set::<DefaultKey>::empty(),
{
    Slots { map: SlotMap::new() }
}

/// Relies on `SlotMap::len`: the number of live entries.
#[verifier::external_body]
pub(crate) fn viewports_len(m: &ViewportSlots) -> (r: usize)
    ensures
        r == viewport_slots(*m).len(),
{
    m.map.len()
}

/// Relies on `SlotMap::insert`: the value is stored under a key that was not
/// live, and nothing else changes. It panics only when every one of
/// `u32::MAX - 1` slots is taken, which `requires` rules out.
#[verifier::external_body]
pub(crate) fn viewports_insert(m: &mut ViewportSlots, v: ViewportData) -> (k: DefaultKey)
    requires
        viewport_slots(*old(m)).len() + 1 < u32::MAX,
    ensures
        !viewport_slots(*old(m)).contains_key(k),
        viewport_slots(*final(m)) == viewport_slots(*old(m)).insert(k, v),
{
    m.map.insert(v)
}

/// Relies on `SlotMap::get`: the entry under a live key, `None` for any other.
#[verifier::external_body]
pub(crate) fn viewports_get(m: &ViewportSlots, k: DefaultKey) -> (r: Option<&ViewportData>)
    ensures
        r.is_some() == viewport_slots(*m).contains_key(k),
        r.is_some() ==> *r.unwrap() == viewport_slots(*m)[k],
{
    m.map.get(k)
}

/// Relies on `SlotMap::get_mut`: a borrow of the entry under a live key, whose
/// final value becomes the entry; `None` and no change for any other key.
#[verifier::external_body]
pub(crate) fn viewports_get_mut(m: &mut ViewportSlots, k: DefaultKey) -> (r: Option<&mut ViewportData>)
    ensures
        r.is_some() == viewport_slots(*old(m)).contains_key(k),
        r.is_some() ==> *r.unwrap() == viewport_slots(*old(m))[k]
            && viewport_slots(*final(m)) == viewport_slots(*old(m)).insert(k, *final(r.unwrap())),
        r.is_none() ==> viewport_slots(*final(m)) == viewport_slots(*old(m)),
{
    m.map.get_mut(k)
}

/// Relies on `SlotMap::get_disjoint_mut` with two keys: borrows of both
/// entries when both keys are live and differ, `None` and no change otherwise.
#[verifier::external_body]
pub(crate) fn viewports_pair_mut(
    m: &mut ViewportSlots,
    a: DefaultKey,
    b: DefaultKey,
) -> (r: Option<(&mut ViewportData, &mut ViewportData)>)
    ensures
        r.is_some() == (viewport_slots(*old(m)).contains_key(a) && viewport_slots(*old(m)).contains_key(b) && a != b),
        r.is_some() ==> *r.unwrap().0 == viewport_slots(*old(m))[a] && *r.unwrap().1 == viewport_slots(*old(m))[b]
            && viewport_slots(*final(m)) == viewport_slots(*old(m)).insert(a, *final(r.unwrap().0)).insert(b, *final(r.unwrap().1)),
        r.is_none() ==> viewport_slots(*final(m)) == viewport_slots(*old(m)),
{
    m.map.get_disjoint_mut([a, b]).map(|[x, y]| (x, y))
}

/// Relies on `SlotMap::new`: a new map holds nothing.
#[verifier::external_body]
pub(crate) fn windows_new() -> (r: WindowSlots)
    ensures
        window_slots(r).dom() == Set::<DefaultKey>::empty(),
{
    Slots { map: SlotMap::new() }
}

/// Relies on `SlotMap::insert`: the value is stored under a key that was not
/// live, and nothing else changes. It panics only when every one of
/// `u32::MAX - 1` slots is taken, which `requires` rules out.
#[verifier::external_body]
pub(crate) fn windows_insert(m: &mut WindowSlots, v: WindowData) -> (k: DefaultKey)
    requires
        window_slots(*old(m)).len() + 1 < u32::MAX,
    ensures
        !window_slots(*old(m)).contains_key(k),
        window_slots(*final(m)) == window_slots(*old(m)).insert(k, v),
{
    m.map.insert(v)
}

/// Relies on `SlotMap::get`: the entry under a live key, `None` for any other.
#[verifier::external_body]
pub(crate) fn windows_get(m: &WindowSlots, k: DefaultKey) -> (r: Option<&WindowData>)
    ensures
        r.is_some() == window_slots(*m).contains_key(k),
        r.is_some() ==> *r.unwrap() == window_slots(*m)[k],
{
    m.map.get(k)
}

/// Relies on `SlotMap::get_mut`: a borrow of the entry under a live key, whose
/// final value becomes the entry; `None` and no change for any other key.
#[verifier::external_body]
pub(crate) fn windows_get_mut(m: &mut WindowSlots, k: DefaultKey) -> (r: Option<&mut WindowData>)
    ensures
        r.is_some() == window_slots(*old(m)).contains_key(k),
        r.is_some() ==> *r.unwrap() == window_slots(*old(m))[k]
            && window_slots(*final(m)) == window_slots(*old(m)).insert(k, *final(r.unwrap())),
        r.is_none() ==> window_slots(*final(m)) == window_slots(*old(m)),
{
    m.map.get_mut(k)
}

/// Relies on `SlotMap::remove`: the entry under a live key is taken out and
/// its slot's version moves on, so the key finds nothing afterwards.
#[verifier::external_body]
pub(crate) fn windows_remove(m: &mut WindowSlots, k: DefaultKey) -> (r: Option<WindowData>)
    ensures
        r.is_some() == window_slots(*old(m)).contains_key(k),
        r.is_some() ==> r.unwrap() == window_slots(*old(m))[k],
        window_slots(*final(m)) == window_slots(*old(m)).remove(k),
{
    m.map.remove(k)
}

/// Relies on `SlotMap::new`: a new map holds nothing.
#[verifier::external_body]
pub(crate) fn bitmaps_new() -> (r: BitmapSlots)
    ensures
        bitmap_slots(r).dom() == Set::<DefaultKey>::empty(),
{
    Slots { map: SlotMap::new() }
}

/// Relies on `SlotMap::insert`: the value is stored under a key that was not
/// live, and nothing else changes. It panics only when every one of
/// `u32::MAX - 1` slots is taken, which `requires` rules out.
#[verifier::external_body]
pub(crate) fn bitmaps_insert(m: &mut BitmapSlots, v: BitmapData) -> (k: DefaultKey)
    requires
        bitmap_slots(*old(m)).len() + 1 < u32::MAX,
    ensures
        !bitmap_slots(*old(m)).contains_key(k),
        bitmap_slots(*final(m)) == bitmap_slots(*old(m)).insert(k, v),
{
    m.map.insert(v)
}

/// Relies on `SlotMap::get`: the entry under a live key, `None` for any other.
#[verifier::external_body]
pub(crate) fn bitmaps_get(m: &BitmapSlots, k: DefaultKey) -> (r: Option<&BitmapData>)
    ensures
        r.is_some() == bitmap_slots(*m).contains_key(k),
        r.is_some() ==> *r.unwrap() == bitmap_slots(*m)[k],
{
    m.map.get(k)
}

} // verus!
