//! Paint-order keys and the ordered list of drawables that each viewport owns.
use vstd::prelude::*;

verus! {

/// A paint-order key: a priority, then the creation tick that breaks ties.
#[derive(Clone, Copy, Debug, PartialEq, Eq, Structural, PartialOrd, Ord, Hash)]
pub struct Z {
    pub z: i32,
    pub creation_time: u64,
}

/// Strict paint order: priority ascending, then creation tick ascending.
pub open spec fn z_lt(a: Z, b: Z) -> bool {
    a.z < b.z || (a.z == b.z && a.creation_time < b.creation_time)
}

impl Z {
    pub fn new(z: i32, creation_time: u64) -> (r: Z)
        ensures
            r.z == z,
            r.creation_time == creation_time,
    {
        Z { z, creation_time }
    }

    pub fn value(&self) -> (r: i32)
        ensures
            r == self.z,
    {
        self.z
    }

    pub fn creation_time(&self) -> (r: u64)
        ensures
            r == self.creation_time,
    {
        self.creation_time
    }

    /// The same key with another priority; the creation tick is kept, so the
    /// tie-break against siblings survives a change of priority.
    pub fn update_value(&self, z: i32) -> (r: Z)
        ensures
            r.z == z,
            r.creation_time == self.creation_time,
    {
        Z { z, creation_time: self.creation_time }
    }

    /// Whether `self` paints strictly before `other`.
    pub fn precedes(&self, other: &Z) -> (r: bool)
        ensures
            r == z_lt(*self, *other),
    {
        self.z < other.z || (self.z == other.z && self.creation_time < other.creation_time)
    }
}

/// Paint order is a strict total order on keys.
pub proof fn lemma_z_total(a: Z, b: Z)
    ensures
        !z_lt(a, a),
        z_lt(a, b) ==> !z_lt(b, a),
        a != b ==> z_lt(a, b) || z_lt(b, a),
{
}

/// Paint order is transitive.
pub proof fn lemma_z_trans(a: Z, b: Z, c: Z)
    requires
        z_lt(a, b),
        z_lt(b, c),
    ensures
        z_lt(a, c),
{
}

/// Two keys of one priority, both moved to priority `p` with their creation
/// ticks kept, keep their order: reprioritising never reorders siblings that
/// shared a priority.
pub proof fn lemma_reprioritise_keeps_sibling_order(a: Z, b: Z, p: i32)
    requires
        a.z == b.z,
    ensures
        z_lt(Z { z: p, creation_time: a.creation_time }, Z { z: p, creation_time: b.creation_time }) == z_lt(a, b),
{
}

/// Entries strictly ascending in paint order.
pub open spec fn sorted_by_z<T>(s: Seq<(Z, T)>) -> bool {
    forall|i: int, j: int| 0 <= i < j < s.len() ==> z_lt(#[trigger] s[i].0, #[trigger] s[j].0)
}

/// Whether some entry carries key `z`.
pub open spec fn has_key<T>(s: Seq<(Z, T)>, z: Z) -> bool {
    exists|i: int| 0 <= i < s.len() && #[trigger] s[i].0 == z
}

/// `after` is `before` with the entry at key `z` taken out.
pub open spec fn removed_at<T>(before: Seq<(Z, T)>, z: Z, after: Seq<(Z, T)>) -> bool {
    exists|i: int| 0 <= i < before.len() && #[trigger] before[i].0 == z && after == before.remove(i)
}

/// `after` is `before` with entry `e` put in at some position.
pub open spec fn inserted_at<T>(before: Seq<(Z, T)>, e: (Z, T), after: Seq<(Z, T)>) -> bool {
    exists|i: int| 0 <= i <= before.len() && after == #[trigger] before.insert(i, e)
}

/// In a list in paint order no two entries share a key.
pub proof fn lemma_sorted_keys_unique<T>(s: Seq<(Z, T)>, i: int, j: int)
    requires
        sorted_by_z(s),
        0 <= i < s.len(),
        0 <= j < s.len(),
        s[i].0 == s[j].0,
    ensures
        i == j,
{
    if i < j {
        assert(z_lt(s[i].0, s[j].0));
    } else if j < i {
        assert(z_lt(s[j].0, s[i].0));
    }
}

/// Taking an entry out of a list in paint order and putting it back, where
/// the result is again in paint order, gives the list it started as.
pub proof fn lemma_reinsert_restores<T>(s: Seq<(Z, T)>, i: int, m: int)
    requires
        sorted_by_z(s),
        0 <= i < s.len(),
        0 <= m <= s.len() - 1,
        sorted_by_z(s.remove(i).insert(m, s[i])),
    ensures
        s.remove(i).insert(m, s[i]) == s,
{
    let t = s.remove(i).insert(m, s[i]);
    if m < i {
        assert(t[m] == s[i]);
        assert(t[m + 1] == s[m]);
        assert(z_lt(t[m].0, t[m + 1].0));
        assert(z_lt(s[m].0, s[i].0));
        lemma_z_total(s[m].0, s[i].0);
    } else if m > i {
        assert(t[m] == s[i]);
        assert(t[m - 1] == s[m]);
        assert(z_lt(t[m - 1].0, t[m].0));
        assert(z_lt(s[i].0, s[m].0));
        lemma_z_total(s[m].0, s[i].0);
    } else {
        assert(t =~= s);
    }
}

/// The entries of `s` whose flag in `kept` is set, in their order.
pub open spec fn select<T>(s: Seq<T>, kept: Seq<bool>) -> Seq<T>
    decreases s.len(),
{
    if s.len() == 0 || kept.len() == 0 {
        Seq::empty()
    } else if kept.last() {
        select(s.drop_last(), kept.drop_last()).push(s.last())
    } else {
        select(s.drop_last(), kept.drop_last())
    }
}

/// An ordered map from paint-order key to item, walked in ascending order.
pub struct ZList<T> {
    keys: Vec<Z>,
    items: Vec<T>,
}

impl<T> Default for ZList<T> {
    fn default() -> (r: ZList<T>)
        ensures
            r@ == Seq::<(Z, T)>::empty(),
    {
        ZList::new()
    }
}

impl<T> View for ZList<T> {
    type V = Seq<(Z, T)>;

    closed spec fn view(&self) -> Seq<(Z, T)> {
        Seq::new(self.keys@.len(), |i: int| (self.keys@[i], self.items@[i]))
    }
}

/// Keys strictly ascending in paint order.
pub open spec fn keys_sorted(s: Seq<Z>) -> bool {
    forall|i: int, j: int| 0 <= i < j < s.len() ==> z_lt(#[trigger] s[i], #[trigger] s[j])
}

impl<T> ZList<T> {
    #[verifier::type_invariant]
    spec fn inv(self) -> bool {
        &&& self.keys@.len() == self.items@.len()
        &&& keys_sorted(self.keys@)
    }

    proof fn lemma_view(&self)
        requires
            self.inv(),
        ensures
            self@.len() == self.keys@.len(),
            forall|i: int| 0 <= i < self.keys@.len() ==> #[trigger] self@[i] == (self.keys@[i], self.items@[i]),
            sorted_by_z(self@),
    {
    }

    pub fn new() -> (r: ZList<T>)
        ensures
            r@ == Seq::<(Z, T)>::empty(),
    {
        let r = ZList { keys: Vec::new(), items: Vec::new() };
        assert(r@ =~= Seq::<(Z, T)>::empty());
        r
    }

    pub fn len(&self) -> (r: usize)
        ensures
            r == self@.len(),
    {
        self.keys.len()
    }

    /// The first index whose key does not paint before `z`.
    fn lower_bound(&self, z: &Z) -> (i: usize)
        ensures
            i <= self@.len(),
            forall|k: int| 0 <= k < i ==> z_lt(#[trigger] self@[k].0, *z),
            i < self@.len() ==> !z_lt(self@[i as int].0, *z),
    {
        proof {
            use_type_invariant(self);
            self.lemma_view();
        }
        let mut lo: usize = 0;
        let mut hi: usize = self.keys.len();
        while lo < hi
            invariant
                0 <= lo <= hi <= self.keys@.len(),
                keys_sorted(self.keys@),
                forall|k: int| 0 <= k < lo ==> z_lt(#[trigger] self.keys@[k], *z),
                forall|k: int| hi <= k < self.keys@.len() ==> !z_lt(#[trigger] self.keys@[k], *z),
            decreases hi - lo,
        {
            let mid = lo + (hi - lo) / 2;
            if self.keys[mid].precedes(z) {
                assert forall|k: int| 0 <= k < mid + 1 implies z_lt(#[trigger] self.keys@[k], *z) by {
                    if k < mid {
                        lemma_z_trans(self.keys@[k], self.keys@[mid as int], *z);
                    }
                }
                lo = mid + 1;
            } else {
                assert forall|k: int| mid <= k < self.keys@.len() implies !z_lt(#[trigger] self.keys@[k], *z) by {
                    if k > mid && z_lt(self.keys@[k], *z) {
                        lemma_z_trans(self.keys@[mid as int], self.keys@[k], *z);
                    }
                }
                hi = mid;
            }
        }
        lo
    }

    /// Position of the entry with key `z`, if any.
    fn position(&self, z: &Z) -> (r: Option<usize>)
        ensures
            match r {
                Some(i) => i < self@.len() && self@[i as int].0 == *z,
                None => !has_key(self@, *z),
            },
    {
        proof {
            use_type_invariant(self);
            self.lemma_view();
        }
        let i = self.lower_bound(z);
        if i < self.keys.len() && self.keys[i] == *z {
            Some(i)
        } else {
            proof {
                if has_key(self@, *z) {
                    let k = choose|k: int| 0 <= k < self@.len() && #[trigger] self@[k].0 == *z;
                    lemma_z_total(*z, *z);
                    if k > i {
                        lemma_z_total(self@[i as int].0, *z);
                    }
                }
            }
            None
        }
    }

    /// Inserts `value` at key `z`. Keys are unique: `z` must not be present.
    pub fn insert(&mut self, z: Z, value: T)
        requires
            !has_key(old(self)@, z),
        ensures
            inserted_at(old(self)@, (z, value), final(self)@),
            sorted_by_z(final(self)@),
    {
        proof {
            use_type_invariant(&*self);
            self.lemma_view();
        }
        let i = self.lower_bound(&z);
        let ghost old_view = self@;
        proof {
            let s = self.keys@;
            if i < s.len() {
                lemma_z_total(s[i as int], z);
                assert(self@[i as int].0 == s[i as int]);
                assert(s[i as int] != z);
            }
            let t = s.insert(i as int, z);
            assert forall|a: int, b: int| 0 <= a < b < t.len() implies z_lt(#[trigger] t[a], #[trigger] t[b]) by {
                assert(t[a] == if a < i { s[a] } else if a == i { z } else { s[a - 1] });
                assert(t[b] == if b < i { s[b] } else if b == i { z } else { s[b - 1] });
                if a < i && b == i {
                    assert(self@[a].0 == s[a]);
                } else if a == i {
                    assert(self@[i as int].0 == s[i as int]);
                    if b > i + 1 {
                        lemma_z_trans(z, s[i as int], s[b - 1]);
                    }
                }
            }
        }
        let mut taken = ZList { keys: Vec::new(), items: Vec::new() };
        std::mem::swap(self, &mut taken);
        let ZList { mut keys, mut items } = taken;
        keys.insert(i, z);
        items.insert(i, value);
        *self = ZList { keys, items };
        proof {
            self.lemma_view();
            assert(self@ =~= old_view.insert(i as int, (z, value)));
            use_type_invariant(&*self);
            self.lemma_view();
        }
    }

    /// Moves the entry at `old_z` to priority `priority`, keeping its
    /// creation tick, and returns the new key; `None` and no change when
    /// nothing is at `old_z`. The new key must be free, unless it is `old_z`.
    pub fn reinsert(&mut self, old_z: Z, priority: i32) -> (r: Option<Z>)
        requires
            priority == old_z.z || !has_key(old(self)@, Z { z: priority, creation_time: old_z.creation_time }),
        ensures
            !has_key(old(self)@, old_z) ==> r.is_none() && *final(self) == *old(self),
            has_key(old(self)@, old_z) ==> r == Some(Z { z: priority, creation_time: old_z.creation_time })
                && exists|item: T, mid: Seq<(Z, T)>|
                    (exists|i: int| 0 <= i < old(self)@.len() && old(self)@[i] == (old_z, item))
                    && removed_at(old(self)@, old_z, mid)
                    && inserted_at(mid, (r.unwrap(), item), final(self)@),
            sorted_by_z(final(self)@),
    {
        proof {
            use_type_invariant(&*self);
            self.lemma_view();
        }
        let new_z = old_z.update_value(priority);
        let ghost before = self@;
        match self.remove(old_z) {
            Some(item) => {
                let ghost mid = self@;
                proof {
                    let i = choose|i: int| 0 <= i < before.len() && #[trigger] before[i].0 == old_z && mid == before.remove(i);
                    if has_key(mid, new_z) {
                        let k = choose|k: int| 0 <= k < mid.len() && #[trigger] mid[k].0 == new_z;
                        if k < i {
                            assert(before[k] == mid[k]);
                        } else {
                            assert(before[k + 1] == mid[k]);
                        }
                        if priority == old_z.z {
                            lemma_sorted_keys_unique(before, i, if k < i { k } else { k + 1 });
                        }
                    }
                }
                self.insert(new_z, item);
                proof {
                    let j = choose|j: int| 0 <= j < before.len() && before[j] == (old_z, item);
                    assert(0 <= j < before.len() && before[j] == (old_z, item));
                    assert(removed_at(before, old_z, mid));
                    assert(inserted_at(mid, (new_z, item), self@));
                    assert(new_z == Z { z: priority, creation_time: old_z.creation_time });
                    assert(before == old(self)@);
                    assert(has_key(old(self)@, old_z));
                }
                let r = Some(new_z);
                assert(r == Some(Z { z: priority, creation_time: old_z.creation_time }));
                assert(inserted_at(mid, (r.unwrap(), item), self@));
                r
            },
            None => None,
        }
    }

    pub fn get(&self, z: Z) -> (r: Option<&T>)
        ensures
            match r {
                Some(v) => has_key(self@, z) && exists|i: int| 0 <= i < self@.len() && self@[i] == (z, *v),
                None => !has_key(self@, z),
            },
            sorted_by_z(self@),
    {
        proof {
            use_type_invariant(self);
            self.lemma_view();
        }
        match self.position(&z) {
            Some(i) => {
                assert(self@[i as int] == (z, self.items@[i as int]));
                Some(&self.items[i])
            },
            None => None,
        }
    }

    pub fn get_mut(&mut self, z: Z) -> (r: Option<&mut T>)
        ensures
            match r {
                Some(v) => exists|i: int|
                    0 <= i < old(self)@.len() && old(self)@[i] == (z, *v)
                        && final(self)@ == old(self)@.update(i, (z, *final(v))),
                None => !has_key(old(self)@, z) && final(self)@ == old(self)@,
            },
    {
        proof {
            use_type_invariant(&*self);
            self.lemma_view();
        }
        match self.position(&z) {
            Some(i) => {
                let ghost old_view = self@;
                let ghost keys = self.keys@;
                let ghost items = self.items@;
                let item = &mut self.items[i];
                proof {
                    let t = old_view.update(i as int, (z, *final(item)));
                    assert(t =~= Seq::new(keys.len(), |k: int| (keys[k], items.update(i as int, *final(item))[k])));
                }
                Some(item)
            },
            None => None,
        }
    }

    /// Removes the entry with key `z`, handing its item back.
    pub fn remove(&mut self, z: Z) -> (r: Option<T>)
        ensures
            match r {
                Some(v) => has_key(old(self)@, z) && removed_at(old(self)@, z, final(self)@)
                    && exists|i: int| 0 <= i < old(self)@.len() && old(self)@[i] == (z, v),
                None => !has_key(old(self)@, z) && *final(self) == *old(self),
            },
            sorted_by_z(final(self)@),
    {
        proof {
            use_type_invariant(&*self);
            self.lemma_view();
        }
        match self.position(&z) {
            Some(i) => {
                let ghost old_view = self@;
                proof {
                    let s = self.keys@;
                    let t = s.remove(i as int);
                    assert forall|a: int, b: int| 0 <= a < b < t.len() implies z_lt(#[trigger] t[a], #[trigger] t[b]) by {
                        assert(t[a] == if a < i { s[a] } else { s[a + 1] });
                        assert(t[b] == if b < i { s[b] } else { s[b + 1] });
                    }
                }
                let mut taken = ZList { keys: Vec::new(), items: Vec::new() };
                std::mem::swap(self, &mut taken);
                let ZList { mut keys, mut items } = taken;
                keys.remove(i);
                let v = items.remove(i);
                *self = ZList { keys, items };
                proof {
                    self.lemma_view();
                    assert(self@ =~= old_view.remove(i as int));
                    assert(old_view[i as int].0 == z);
                    use_type_invariant(&*self);
                    self.lemma_view();
                }
                Some(v)
            },
            None => None,
        }
    }

    /// The entries in ascending paint order.
    pub fn iter(&self) -> (r: Vec<(Z, T)>)
        where
            T: Copy,
        ensures
            r@ == self@,
            sorted_by_z(r@),
    {
        proof {
            use_type_invariant(self);
            self.lemma_view();
        }
        let mut r: Vec<(Z, T)> = Vec::new();
        let mut i: usize = 0;
        while i < self.keys.len()
            invariant
                self.keys@.len() == self.items@.len(),
                i <= self.keys@.len(),
                r@ == self@.take(i as int),
                self@.len() == self.keys@.len(),
                forall|k: int| 0 <= k < self.keys@.len() ==> #[trigger] self@[k] == (self.keys@[k], self.items@[k]),
            decreases self.keys@.len() - i,
        {
            r.push((self.keys[i], self.items[i]));
            i = i + 1;
            assert(r@ =~= self@.take(i as int));
        }
        assert(self@.take(i as int) =~= self@);
        r
    }

    /// Keeps the entries on which `f` returns true, in their order.
    pub fn retain<F: Fn(&Z, &T) -> bool>(&mut self, f: F)
        requires
            forall|z: &Z, t: &T| #[trigger] f.requires((z, t)),
        ensures
            exists|kept: Seq<bool>|
                kept.len() == old(self)@.len()
                    && (forall|i: int| 0 <= i < kept.len()
                        ==> f.ensures((&old(self)@[i].0, &old(self)@[i].1), #[trigger] kept[i]))
                    && final(self)@ == select(old(self)@, kept),
    {
        proof {
            use_type_invariant(&*self);
            self.lemma_view();
        }
        let ghost old_view = self@;
        let mut taken = ZList { keys: Vec::new(), items: Vec::new() };
        std::mem::swap(self, &mut taken);
        let ZList { mut keys, mut items } = taken;
        let mut new_keys: Vec<Z> = Vec::new();
        let mut new_items: Vec<T> = Vec::new();
        let ghost mut kept: Seq<bool> = Seq::empty();
        let ghost mut j: int = 0;
        while keys.len() > 0
            invariant
                keys@.len() == items@.len(),
                new_keys@.len() == new_items@.len(),
                0 <= j <= old_view.len(),
                keys@.len() == old_view.len() - j,
                kept.len() == j,
                forall|k: int| 0 <= k < keys@.len() ==> #[trigger] keys@[k] == old_view[j + k].0,
                forall|k: int| 0 <= k < items@.len() ==> #[trigger] items@[k] == old_view[j + k].1,
                forall|k: int| 0 <= k < j ==> f.ensures((&old_view[k].0, &old_view[k].1), #[trigger] kept[k]),
                Seq::new(new_keys@.len(), |k: int| (new_keys@[k], new_items@[k])) == select(old_view.take(j), kept),
                forall|z: &Z, t: &T| #[trigger] f.requires((z, t)),
                sorted_by_z(old_view),
                forall|a: int, b: int| 0 <= a < new_keys@.len() && 0 <= b < keys@.len()
                    ==> z_lt(#[trigger] new_keys@[a], #[trigger] keys@[b]),
                keys_sorted(new_keys@),
            decreases keys@.len(),
        {
            let z = keys.remove(0);
            let t = items.remove(0);
            let b = f(&z, &t);
            proof {
                assert(old_view.take(j + 1).drop_last() =~= old_view.take(j));
                assert(old_view.take(j + 1).last() == old_view[j]);
                assert((kept.push(b)).drop_last() =~= kept);
            }
            let ghost prev = Seq::new(new_keys@.len(), |k: int| (new_keys@[k], new_items@[k]));
            if b {
                proof {
                    assert forall|a: int, c: int| 0 <= a < c < new_keys@.len() + 1
                        implies z_lt(#[trigger] new_keys@.push(z)[a], #[trigger] new_keys@.push(z)[c]) by {
                        if c == new_keys@.len() {
                            assert(old_view[j].0 == z);
                        }
                    }
                }
                new_keys.push(z);
                new_items.push(t);
                proof {
                    assert(Seq::new(new_keys@.len(), |k: int| (new_keys@[k], new_items@[k])) =~= prev.push((z, t)));
                }
            }
            proof {
                assert forall|a: int, c: int| 0 <= a < new_keys@.len() && 0 <= c < keys@.len()
                    implies z_lt(#[trigger] new_keys@[a], #[trigger] keys@[c]) by {
                    assert(keys@[c] == old_view[j + 1 + c].0);
                    if b && a == new_keys@.len() - 1 {
                        assert(new_keys@[a] == old_view[j].0);
                    }
                }
                kept = kept.push(b);
                j = j + 1;
            }
        }
        proof {
            assert(old_view.take(j) =~= old_view);
        }
        *self = ZList { keys: new_keys, items: new_items };
    }
}

} // verus!
