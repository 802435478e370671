//! An ordered key-value store queried by neighborhood rather than by key.
//!
//! `RangedMap` keeps values sorted by the key each value derives for itself
//! (the `ToKey` trait), and answers "which stored values bracket this
//! point": the nearest value at or below it and the nearest one above it,
//! plus the next value outward on each side.

use vstd::prelude::*;

verus! {

/// A value that derives its own ordering key.
pub trait ToKey: Sized {
    /// The key, as seen by specifications.
    spec fn spec_key(&self) -> u64;

    /// Produce the key this value sorts under.
    fn to_key(&self) -> (k: u64)
        ensures
            k == self.spec_key(),
    ;
}

/// Keys strictly increase along the sequence (so each key occurs once).
pub open spec fn sorted_by_key<Val: ToKey>(s: Seq<Val>) -> bool {
    forall|i: int, j: int| 0 <= i < j < s.len() ==> s[i].spec_key() < s[j].spec_key()
}

/// A map from derived keys to values, held in key order.
pub struct RangedMap<Val: ToKey + Copy> {
    /// The stored values, sorted by strictly increasing key.
    pub entries: Vec<Val>,
}

impl<Val: ToKey + Copy> RangedMap<Val> {
    pub open spec fn wf(self) -> bool {
        sorted_by_key(self.entries@)
    }

    pub fn new() -> (m: RangedMap<Val>)
        ensures
            m.wf(),
            m.entries@ == Seq::<Val>::empty(),
    {
        let m = RangedMap { entries: Vec::new() };
        proof {
            assert(m.entries@ =~= Seq::<Val>::empty());
        }
        m
    }

    /// Store a value under its own key, replacing any value already stored
    /// under an equal key.
    pub fn insert(&mut self, val: Val)
        requires
            old(self).wf(),
        ensures
            final(self).wf(),
            exists|i: int|
                #![trigger old(self).entries@.update(i, val)]
                #![trigger old(self).entries@.insert(i, val)]
                {
                    &&& 0 <= i <= old(self).entries@.len()
                    &&& if i < old(self).entries@.len() && old(self).entries@[i].spec_key()
                        == val.spec_key() {
                        final(self).entries@ == old(self).entries@.update(i, val)
                    } else {
                        &&& final(self).entries@ == old(self).entries@.insert(i, val)
                        &&& (i == 0 || old(self).entries@[i - 1].spec_key() < val.spec_key())
                        &&& (i == old(self).entries@.len() || old(self).entries@[i].spec_key()
                            > val.spec_key())
                    }
                },
    {
        let key = val.to_key();
        let len = self.entries.len();
        let mut i: usize = 0;
        while i < len && self.entries[i].to_key() < key
            invariant
                len == self.entries@.len(),
                i <= len,
                forall|j: int| 0 <= j < i as int ==> self.entries@[j].spec_key() < key,
            decreases len - i,
        {
            i = i + 1;
        }
        let ghost old_entries = self.entries@;
        if i < len && self.entries[i].to_key() == key {
            self.entries.set(i, val);
            proof {
                assert(forall|a: int, b: int|
                    0 <= a < b < self.entries@.len() ==> self.entries@[a].spec_key()
                        < self.entries@[b].spec_key());
                assert(self.entries@ == old_entries.update(i as int, val));
            }
        } else {
            self.entries.insert(i, val);
            proof {
                let s = self.entries@;
                assert forall|a: int, b: int| 0 <= a < b < s.len() implies s[a].spec_key()
                    < s[b].spec_key() by {
                    if a < i as int {
                        assert(s[a] == old_entries[a]);
                    }
                    if b > i as int {
                        assert(s[b] == old_entries[b - 1]);
                    }
                }
                assert(i == 0 || old_entries[i as int - 1].spec_key() < val.spec_key());
            }
        }
    }

    /// The two stored values bracketing `point`: the one under the greatest
    /// key at or below it, and the one under the least key above it.
    pub fn get_neighbors_to(&self, point: u64) -> (r: (Val, Val))
        requires
            self.wf(),
            self.entries@.len() > 0,
            self.entries@[0].spec_key() <= point,
            self.entries@[self.entries@.len() - 1].spec_key() > point,
        ensures
            exists|j: int|
                #![trigger self.entries@[j]]
                {
                    &&& 1 <= j < self.entries@.len()
                    &&& r.0 == self.entries@[j - 1]
                    &&& r.1 == self.entries@[j]
                    &&& self.entries@[j - 1].spec_key() <= point
                    &&& self.entries@[j].spec_key() > point
                },
    {
        let len = self.entries.len();
        let mut i: usize = 1;
        while i < len - 1 && self.entries[i].to_key() <= point
            invariant
                self.wf(),
                len == self.entries@.len(),
                1 <= i <= len - 1,
                len >= 2,
                self.entries@[0].spec_key() <= point,
                self.entries@[len - 1].spec_key() > point,
                self.entries@[i - 1].spec_key() <= point,
            decreases len - i,
        {
            i = i + 1;
        }
        proof {
            assert(self.entries@[i as int].spec_key() > point);
        }
        (self.entries[i - 1], self.entries[i])
    }

    /// The bracketing pair around `point` together with the next stored
    /// value outward on each side.
    pub fn get_2nd_neighbors_to(&self, point: u64) -> (r: (Val, Val, Val, Val))
        requires
            self.wf(),
            self.entries@.len() >= 2,
            self.entries@[1].spec_key() <= point,
            self.entries@[self.entries@.len() - 2].spec_key() > point,
        ensures
            exists|j: int|
                #![trigger self.entries@[j]]
                {
                    &&& 2 <= j < self.entries@.len() - 1
                    &&& r.0 == self.entries@[j - 2]
                    &&& r.1 == self.entries@[j - 1]
                    &&& r.2 == self.entries@[j]
                    &&& r.3 == self.entries@[j + 1]
                    &&& self.entries@[j - 1].spec_key() <= point
                    &&& self.entries@[j].spec_key() > point
                },
    {
        let len = self.entries.len();
        let mut i: usize = 2;
        while i < len - 2 && self.entries[i].to_key() <= point
            invariant
                self.wf(),
                len == self.entries@.len(),
                2 <= i <= len - 2,
                len >= 4,
                self.entries@[1].spec_key() <= point,
                self.entries@[len - 2].spec_key() > point,
                self.entries@[i - 1].spec_key() <= point,
            decreases len - i,
        {
            i = i + 1;
        }
        proof {
            assert(self.entries@[i as int].spec_key() > point);
        }
        (self.entries[i - 2], self.entries[i - 1], self.entries[i], self.entries[i + 1])
    }
}

} // verus!
