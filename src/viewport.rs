//! Viewports: clipping rectangles that own an ordered list of child drawables.
use vstd::prelude::*;
use slotmap::DefaultKey;
use crate::arenas::{ArenaError, Arenas};
use crate::data::Rect;
use crate::drawable::DrawableRef;
use crate::graphics::Graphics;
use crate::z::{
    has_key, inserted_at, lemma_reinsert_restores, lemma_sorted_keys_unique, removed_at, sorted_by_z, Z, ZList,
};

verus! {

/// A handle to a viewport in the arenas.
#[derive(Clone, Copy, Debug, PartialEq, Eq)]
pub struct Viewport {
    pub key: DefaultKey,
}

/// What the arenas hold of a viewport.
pub struct ViewportData {
    pub rect: Rect,
    pub z: Z,
    pub z_list: ZList<DrawableRef>,
}

/// `from1` and `to1` are `from0` and `to0` after the child at key `z` moved
/// from the first to the second: rectangles and keys kept, the entry taken
/// out of the first list and put into the second at the same key; both
/// lists unchanged when the first has nothing at `z`.
pub open spec fn moved_child(z: Z, from0: ViewportData, to0: ViewportData, from1: ViewportData, to1: ViewportData) -> bool {
    &&& from1.rect == from0.rect
    &&& from1.z == from0.z
    &&& to1.rect == to0.rect
    &&& to1.z == to0.z
    &&& !has_key(from0.z_list@, z) ==> from1.z_list@ == from0.z_list@ && to1.z_list@ == to0.z_list@
    &&& has_key(from0.z_list@, z) ==> exists|item: DrawableRef|
        (exists|i: int| 0 <= i < from0.z_list@.len() && from0.z_list@[i] == (z, item))
        && removed_at(from0.z_list@, z, from1.z_list@)
        && inserted_at(to0.z_list@, (z, item), to1.z_list@)
}

/// `v1` is `v0` with the child at `old_z` moved to `new_z`: rectangle and
/// key kept; the list unchanged when nothing is at `old_z`.
pub open spec fn rekeyed_child(old_z: Z, new_z: Z, v0: ViewportData, v1: ViewportData) -> bool {
    &&& v1.rect == v0.rect
    &&& v1.z == v0.z
    &&& !has_key(v0.z_list@, old_z) ==> v1.z_list@ == v0.z_list@
    &&& has_key(v0.z_list@, old_z) ==> exists|item: DrawableRef, mid: Seq<(Z, DrawableRef)>|
        (exists|i: int| 0 <= i < v0.z_list@.len() && v0.z_list@[i] == (old_z, item))
        && removed_at(v0.z_list@, old_z, mid)
        && inserted_at(mid, (new_z, item), v1.z_list@)
}

/// Moving the child at key `z` from viewport A to viewport B and then back
/// to A gives A the very list it started with: the entry is back at the same
/// key, in the same place among its siblings.
pub proof fn lemma_move_round_trip(
    z: Z,
    a0: ViewportData,
    b0: ViewportData,
    a1: ViewportData,
    b1: ViewportData,
    b2: ViewportData,
    a2: ViewportData,
)
    requires
        has_key(a0.z_list@, z),
        sorted_by_z(a0.z_list@),
        sorted_by_z(b1.z_list@),
        sorted_by_z(a2.z_list@),
        moved_child(z, a0, b0, a1, b1),
        moved_child(z, b1, a1, b2, a2),
    ensures
        a2.z_list@ == a0.z_list@,
        a2.rect == a0.rect,
        a2.z == a0.z,
{
    let item = choose|item: DrawableRef|
        (exists|i: int| 0 <= i < a0.z_list@.len() && a0.z_list@[i] == (z, item))
        && removed_at(a0.z_list@, z, a1.z_list@)
        && inserted_at(b0.z_list@, (z, item), b1.z_list@);
    let i = choose|i: int| 0 <= i < a0.z_list@.len() && a0.z_list@[i] == (z, item);
    let i1 = choose|i1: int| 0 <= i1 < a0.z_list@.len() && #[trigger] a0.z_list@[i1].0 == z && a1.z_list@ == a0.z_list@.remove(i1);
    lemma_sorted_keys_unique(a0.z_list@, i, i1);
    let k = choose|k: int| 0 <= k <= b0.z_list@.len() && b1.z_list@ == #[trigger] b0.z_list@.insert(k, (z, item));
    assert(b1.z_list@[k] == (z, item));
    assert(has_key(b1.z_list@, z));
    let item2 = choose|item2: DrawableRef|
        (exists|j: int| 0 <= j < b1.z_list@.len() && b1.z_list@[j] == (z, item2))
        && removed_at(b1.z_list@, z, b2.z_list@)
        && inserted_at(a1.z_list@, (z, item2), a2.z_list@);
    let j = choose|j: int| 0 <= j < b1.z_list@.len() && b1.z_list@[j] == (z, item2);
    lemma_sorted_keys_unique(b1.z_list@, j, k);
    let m = choose|m: int| 0 <= m <= a1.z_list@.len() && a2.z_list@ == #[trigger] a1.z_list@.insert(m, (z, item2));
    lemma_reinsert_restores(a0.z_list@, i, m);
}

impl ViewportData {
    /// A viewport over `rect` with no children.
    pub fn new(rect: Rect, z: Z) -> (r: ViewportData)
        ensures
            r.rect == rect,
            r.z == z,
            r.z_list@ == Seq::<(Z, DrawableRef)>::empty(),
    {
        ViewportData { rect, z, z_list: ZList::new() }
    }

    /// Adds `item` at key `z`; `DuplicateZ` and no change when `z` is taken.
    pub fn insert(&mut self, z: Z, item: DrawableRef) -> (r: Result<(), ArenaError>)
        ensures
            final(self).rect == old(self).rect,
            final(self).z == old(self).z,
            has_key(old(self).z_list@, z) ==> r == Err::<(), ArenaError>(ArenaError::DuplicateZ)
                && final(self).z_list@ == old(self).z_list@,
            !has_key(old(self).z_list@, z) ==> r == Ok::<(), ArenaError>(())
                && inserted_at(old(self).z_list@, (z, item), final(self).z_list@),
            sorted_by_z(final(self).z_list@),
    {
        if self.z_list.get(z).is_some() {
            return Err(ArenaError::DuplicateZ);
        }
        self.z_list.insert(z, item);
        Ok(())
    }

    /// Takes out the child at key `z`.
    pub fn remove(&mut self, z: Z) -> (r: Option<DrawableRef>)
        ensures
            final(self).rect == old(self).rect,
            final(self).z == old(self).z,
            r.is_some() == has_key(old(self).z_list@, z),
            r.is_some() ==> removed_at(old(self).z_list@, z, final(self).z_list@)
                && exists|i: int| 0 <= i < old(self).z_list@.len() && old(self).z_list@[i] == (z, r.unwrap()),
            r.is_none() ==> *final(self) == *old(self),
            sorted_by_z(final(self).z_list@),
    {
        self.z_list.remove(z)
    }

    /// Moves the child at `old_z` to `new_z`. `DuplicateZ` and no change when
    /// `new_z` is taken; no change either when nothing is at `old_z`.
    pub fn update_z(&mut self, old_z: Z, new_z: Z) -> (r: Result<(), ArenaError>)
        ensures
            has_key(old(self).z_list@, new_z) ==> r == Err::<(), ArenaError>(ArenaError::DuplicateZ)
                && *final(self) == *old(self),
            !has_key(old(self).z_list@, new_z) ==> r == Ok::<(), ArenaError>(())
                && rekeyed_child(old_z, new_z, *old(self), *final(self)),
            sorted_by_z(final(self).z_list@),
    {
        if self.z_list.get(new_z).is_some() {
            return Err(ArenaError::DuplicateZ);
        }
        let ghost before = self.z_list@;
        match self.z_list.remove(old_z) {
            Some(item) => {
                let ghost mid = self.z_list@;
                proof {
                    if has_key(mid, new_z) {
                        let i = choose|i: int| 0 <= i < before.len() && #[trigger] before[i].0 == old_z && mid == before.remove(i);
                        let k = choose|k: int| 0 <= k < mid.len() && #[trigger] mid[k].0 == new_z;
                        if k < i {
                            assert(before[k] == mid[k]);
                        } else {
                            assert(before[k + 1] == mid[k]);
                        }
                    }
                }
                self.z_list.insert(new_z, item);
                proof {
                    let i = choose|i: int| 0 <= i < before.len() && before[i] == (old_z, item);
                    assert(0 <= i < before.len() && before[i] == (old_z, item));
                    assert(removed_at(before, old_z, mid));
                    assert(inserted_at(mid, (new_z, item), self.z_list@));
                }
            },
            None => {},
        }
        Ok(())
    }

    /// Moves the child at key `z` from `self` into `other`, at the same key.
    /// `DuplicateZ` and no change when `other` already has `z`; no change
    /// either when `self` has nothing at `z`.
    pub fn swap(&mut self, other: &mut ViewportData, z: Z) -> (r: Result<(), ArenaError>)
        ensures
            has_key(old(other).z_list@, z) ==> r == Err::<(), ArenaError>(ArenaError::DuplicateZ)
                && *final(self) == *old(self) && *final(other) == *old(other),
            !has_key(old(other).z_list@, z) ==> r == Ok::<(), ArenaError>(())
                && moved_child(z, *old(self), *old(other), *final(self), *final(other)),
            r.is_ok() ==> sorted_by_z(final(self).z_list@) && sorted_by_z(final(other).z_list@),
    {
        if other.z_list.get(z).is_some() {
            return Err(ArenaError::DuplicateZ);
        }
        let ghost before = self.z_list@;
        match self.z_list.remove(z) {
            Some(item) => {
                let ghost other_before = other.z_list@;
                other.z_list.insert(z, item);
                proof {
                    let i = choose|i: int| 0 <= i < before.len() && before[i] == (z, item);
                    assert(0 <= i < before.len() && before[i] == (z, item));
                    assert(removed_at(before, z, self.z_list@));
                    assert(inserted_at(other_before, (z, item), other.z_list@));
                }
            },
            None => {},
        }
        Ok(())
    }

    /// The children in ascending paint order.
    pub fn children(&self) -> (r: Vec<(Z, DrawableRef)>)
        ensures
            r@ == self.z_list@,
            sorted_by_z(r@),
    {
        self.z_list.iter()
    }
}

impl Viewport {
    /// A viewport over `(x, y, width, height)`, made a child of the root
    /// viewport at priority 0 with a fresh creation tick. `NotFound` when the
    /// root viewport is gone; nothing changes then but the clock.
    pub fn new(
        graphics: &Graphics,
        arenas: &mut Arenas,
        x: i32,
        y: i32,
        width: u32,
        height: u32,
    ) -> (r: Result<Viewport, ArenaError>)
        requires
            old(arenas).ticks() < u64::MAX,
            old(arenas).viewports().len() + 1 < u32::MAX,
        ensures
            final(arenas).ticks() == old(arenas).ticks() + 1,
            final(arenas).windows() == old(arenas).windows(),
            final(arenas).bitmaps() == old(arenas).bitmaps(),
            !old(arenas).viewports().contains_key(graphics.root().key)
                ==> r == Err::<Viewport, ArenaError>(ArenaError::NotFound) && final(arenas).viewports() == old(arenas).viewports(),
            old(arenas).viewports().contains_key(graphics.root().key) && has_key(
                old(arenas).viewports()[graphics.root().key].z_list@,
                Z { z: 0, creation_time: old(arenas).ticks() },
            ) ==> r == Err::<Viewport, ArenaError>(ArenaError::DuplicateZ) && final(arenas).viewports() == old(arenas).viewports(),
            r.is_ok() ==> ({
                let k = r.unwrap().key;
                let root = graphics.root().key;
                let z = Z { z: 0, creation_time: old(arenas).ticks() };
                &&& !old(arenas).viewports().contains_key(k)
                &&& old(arenas).viewports().contains_key(root)
                &&& final(arenas).viewports().dom() == old(arenas).viewports().dom().insert(k)
                &&& final(arenas).viewports()[k].rect == Rect { x, y, width, height }
                &&& final(arenas).viewports()[k].z == z
                &&& final(arenas).viewports()[k].z_list@ == Seq::<(Z, DrawableRef)>::empty()
                &&& final(arenas).viewports()[root].rect == old(arenas).viewports()[root].rect
                &&& final(arenas).viewports()[root].z == old(arenas).viewports()[root].z
                &&& inserted_at(
                    old(arenas).viewports()[root].z_list@,
                    (z, DrawableRef::Viewport(r.unwrap())),
                    final(arenas).viewports()[root].z_list@,
                )
                &&& forall|j: DefaultKey| j != k && j != root && #[trigger] old(arenas).viewports().contains_key(j)
                    ==> final(arenas).viewports()[j] == old(arenas).viewports()[j]
            }),
            r.is_err() ==> final(arenas).viewports() == old(arenas).viewports(),
            old(arenas).viewports().contains_key(graphics.root().key) && !has_key(
                old(arenas).viewports()[graphics.root().key].z_list@,
                Z { z: 0, creation_time: old(arenas).ticks() },
            ) ==> r.is_ok(),
    {
        let root = graphics.global_viewport();
        let tick = arenas.next_tick();
        let z = Z::new(0, tick);
        match arenas.viewport(root.key) {
            Ok(data) => {
                if data.z_list.get(z).is_some() {
                    return Err(ArenaError::DuplicateZ);
                }
            },
            Err(e) => {
                return Err(e);
            },
        }
        let ghost before = arenas.viewports();
        let key = arenas.insert_viewport(ViewportData::new(Rect::new(x, y, width, height), z));
        let viewport = Viewport { key };
        match arenas.viewport_mut(root.key) {
            Ok(data) => {
                let res = data.insert(z, DrawableRef::Viewport(viewport));
                proof {
                    assert(res.is_ok());
                }
            },
            Err(_) => {
                proof {
                    assert(false);
                }
            },
        }
        proof {
            assert(final(arenas).viewports().dom() =~= before.dom().insert(key));
        }
        Ok(viewport)
    }

    /// The viewport's rectangle; `NotFound` for a handle that finds nothing.
    pub fn rect(&self, arenas: &Arenas) -> (r: Result<Rect, ArenaError>)
        ensures
            arenas.viewports().contains_key(self.key) ==> r == Ok::<Rect, ArenaError>(arenas.viewports()[self.key].rect),
            !arenas.viewports().contains_key(self.key) ==> r == Err::<Rect, ArenaError>(ArenaError::NotFound),
    {
        match arenas.viewport(self.key) {
            Ok(data) => Ok(data.rect),
            Err(e) => Err(e),
        }
    }

    /// The viewport's children in ascending paint order; `NotFound` for a
    /// handle that finds nothing.
    pub fn children(&self, arenas: &Arenas) -> (r: Result<Vec<(Z, DrawableRef)>, ArenaError>)
        ensures
            arenas.viewports().contains_key(self.key) ==> r.is_ok() && r.unwrap()@ == arenas.viewports()[self.key].z_list@
                && sorted_by_z(r.unwrap()@),
            !arenas.viewports().contains_key(self.key) ==> r == Err::<Vec<(Z, DrawableRef)>, ArenaError>(ArenaError::NotFound),
    {
        match arenas.viewport(self.key) {
            Ok(data) => Ok(data.children()),
            Err(e) => Err(e),
        }
    }
}

} // verus!
