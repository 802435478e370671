//! Fixed-capacity ring buffer giving "N steps into the past" lookup.
//!
//! The queue remembers the most recent `capacity` items pushed into it,
//! forgetting the oldest first. Position 0 always means the just-pushed
//! item. Its view `self@` is the sequence of live items, oldest first.

use vstd::prelude::*;

verus! {

/// A log that forgets: pushing past capacity evicts the oldest entry.
pub struct ForgetfulLogQueue<T> {
    /// Index in `data` of the most recently pushed item (meaningful only
    /// while the queue is non-empty).
    pub head: usize,
    /// Upper bound on the number of live items.
    pub capacity: usize,
    /// Backing store; holds exactly the live items, in ring order.
    pub data: Vec<T>,
}

/// Backing-store index of the item `i` places from the oldest live one.
pub open spec fn ring_index(head: int, len: int, i: int) -> int {
    if head + 1 + i < len {
        head + 1 + i
    } else {
        head + 1 + i - len
    }
}

/// The live contents after pushing `x` onto a queue holding `v`: the new
/// item enters at the back and, at capacity, the oldest item leaves.
pub open spec fn pushed_view<T>(v: Seq<T>, cap: int, x: T) -> Seq<T> {
    if v.len() < cap {
        v.push(x)
    } else {
        v.subrange(1, v.len() as int).push(x)
    }
}

impl<T> ForgetfulLogQueue<T> {
    /// Internal consistency: the head cursor addresses a live slot, and
    /// while the ring is still filling the newest item sits at the end.
    pub open spec fn wf(self) -> bool {
        &&& 1 <= self.capacity <= usize::MAX / 2
        &&& self.data@.len() <= self.capacity
        &&& self.data@.len() > 0 ==> (self.head as int) < self.data@.len()
        &&& (self.data@.len() > 0 && self.data@.len() < self.capacity) ==> self.head as int
            == self.data@.len() - 1
    }

    /// The live items, oldest first.
    pub open spec fn view(self) -> Seq<T> {
        Seq::new(
            self.data@.len(),
            |i: int| self.data@[ring_index(self.head as int, self.data@.len() as int, i)],
        )
    }

    pub fn new(capacity: usize) -> (q: ForgetfulLogQueue<T>)
        requires
            1 <= capacity <= usize::MAX / 2,
        ensures
            q.wf(),
            q.capacity == capacity,
            q@ == Seq::<T>::empty(),
    {
        let q = ForgetfulLogQueue { head: 0, capacity, data: Vec::with_capacity(capacity) };
        proof {
            assert(q@ =~= Seq::<T>::empty());
        }
        q
    }

    /// Get an item `position` places into the past: position 0 is the most
    /// recently pushed item. Returns `None` if no stored item backs that
    /// position.
    pub fn get(&self, position: usize) -> (r: Option<&T>)
        requires
            self.wf(),
        ensures
            (position as int) < self@.len() ==> (r matches Some(v) && *v == self@[self@.len() - 1
                - position as int]),
            (position as int) >= self@.len() ==> r is None,
    {
        let len = self.data.len();
        if position >= len {
            None
        } else {
            let index = if position <= self.head {
                self.head - position
            } else {
                self.head + len - position
            };
            Some(&self.data[index])
        }
    }

    /// Push an item, evicting the oldest one once the queue is at capacity.
    pub fn push(&mut self, object: T)
        requires
            old(self).wf(),
        ensures
            final(self).wf(),
            final(self).capacity == old(self).capacity,
            final(self)@ == pushed_view(old(self)@, old(self).capacity as int, object),
    {
        let len = self.data.len();
        if len < self.capacity {
            self.data.push(object);
            self.head = len;
            proof {
                assert(self@ =~= pushed_view(old(self)@, old(self).capacity as int, object));
            }
        } else {
            let new_head = if self.head + 1 == self.capacity {
                0
            } else {
                self.head + 1
            };
            self.head = new_head;
            self.data.set(new_head, object);
            proof {
                assert(self@ =~= pushed_view(old(self)@, old(self).capacity as int, object));
            }
        }
    }

    /// Overwrite the most recent item in place, without advancing.
    pub fn replace_cur(&mut self, object: T)
        requires
            old(self).wf(),
            old(self)@.len() > 0,
        ensures
            final(self).wf(),
            final(self).capacity == old(self).capacity,
            final(self)@ == old(self)@.update(old(self)@.len() - 1, object),
    {
        self.data.set(self.head, object);
        proof {
            assert(self@ =~= old(self)@.update(old(self)@.len() - 1, object));
        }
    }

    pub fn empty(&self) -> (r: bool)
        requires
            self.wf(),
        ensures
            r == (self@.len() == 0),
    {
        self.data.len() == 0
    }

    /// The backing store: exactly the live items, in ring order rather than
    /// in age order.
    pub fn all(&self) -> (r: &Vec<T>)
        ensures
            r@ == self.data@,
    {
        &self.data
    }

    /// Number of live items.
    pub fn size(&self) -> (r: usize)
        ensures
            r as int == self@.len(),
    {
        self.data.len()
    }

    /// Drop all stored items; the capacity is unchanged.
    pub fn clear(&mut self)
        requires
            old(self).wf(),
        ensures
            final(self).wf(),
            final(self).capacity == old(self).capacity,
            final(self)@ == Seq::<T>::empty(),
    {
        self.data.clear();
        self.head = 0;
        proof {
            assert(self@ =~= Seq::<T>::empty());
        }
    }
}

/// Sum of the values of a sequence of time-value pairs.
pub open spec fn pair_sum(s: Seq<(u64, i64)>) -> int
    decreases s.len(),
{
    if s.len() == 0 {
        0
    } else {
        pair_sum(s.drop_last()) + s.last().1
    }
}

/// Arithmetic mean of the values of a sequence of time-value pairs, with
/// the magnitude of the quotient rounded toward zero.
pub open spec fn pair_mean(s: Seq<(u64, i64)>) -> int {
    let t = pair_sum(s);
    if t < 0 {
        -((-t) / (s.len() as int))
    } else {
        t / (s.len() as int)
    }
}

impl ForgetfulLogQueue<(u64, i64)> {
    /// The exact entry if the position is backed by one; otherwise the mean
    /// of all stored values under a sentinel timestamp of zero — a fallback
    /// placed as far in the past as possible so that an unavailable entry
    /// has minimal influence on recency-weighted consumers.
    pub fn get_or_avg(&self, position: usize) -> (r: (u64, i64))
        requires
            self.wf(),
            self@.len() > 0,
        ensures
            (position as int) < self@.len() ==> r == self@[self@.len() - 1 - position as int],
            (position as int) >= self@.len() ==> (r.0 == 0 && r.1 as int == pair_mean(self@)),
    {
        let got = self.get(position);
        match got {
            Some(n) => *n,
            None => {
                let len = self.data.len();
                let mut i: usize = 0;
                let mut acc: i128 = 0;
                while i < len
                    invariant
                        self.wf(),
                        len == self@.len(),
                        i <= len,
                        acc == pair_sum(self@.take(i as int)),
                        acc <= (i as int) * (i64::MAX as int),
                        acc >= (i as int) * (i64::MIN as int),
                    decreases len - i,
                {
                    let index = if self.head + 1 + i < len {
                        self.head + 1 + i
                    } else {
                        self.head + 1 + i - len
                    };
                    let item = self.data[index];
                    proof {
                        assert(self@.take(i + 1).drop_last() =~= self@.take(i as int));
                        assert(self@.take(i + 1).last() == self@[i as int]);
                    }
                    acc = acc + item.1 as i128;
                    i = i + 1;
                }
                proof {
                    assert(self@.take(len as int) =~= self@);
                }
                let mean: i64 = if acc < 0 {
                    proof {
                        vstd::arithmetic::div_mod::lemma_multiply_divide_le(
                            -acc,
                            len as int,
                            0x8000_0000_0000_0000,
                        );
                    }
                    let mag = ((-acc) as u128) / (len as u128);
                    if mag >= 0x8000_0000_0000_0000u128 {
                        i64::MIN
                    } else {
                        -(mag as i64)
                    }
                } else {
                    proof {
                        vstd::arithmetic::div_mod::lemma_multiply_divide_le(
                            acc as int,
                            len as int,
                            i64::MAX as int,
                        );
                    }
                    ((acc as u128) / (len as u128)) as i64
                };
                (0, mean)
            },
        }
    }
}

/// Law: a queue never grows past its capacity, and right after a push the
/// newest position holds the pushed item.
pub proof fn lemma_push_bounded_and_fresh<T>(v: Seq<T>, cap: int, x: T)
    requires
        1 <= cap,
        v.len() <= cap,
    ensures
        pushed_view(v, cap, x).len() <= cap,
        pushed_view(v, cap, x).last() == x,
{
}

/// Law: a queue always presents the most recent items, oldest first — the
/// contents after a push are exactly the tail of the old contents followed
/// by the pushed item (first-in, first-out forgetting).
pub proof fn lemma_push_keeps_most_recent<T>(v: Seq<T>, cap: int, x: T)
    requires
        1 <= cap,
        v.len() <= cap,
    ensures
        pushed_view(v, cap, x) == (v + seq![x]).subrange(
            if v.len() < cap { 0 } else { 1 },
            v.len() as int + 1,
        ),
{
    if v.len() < cap {
        assert(pushed_view(v, cap, x) =~= (v + seq![x]).subrange(0, v.len() as int + 1));
    } else {
        assert(pushed_view(v, cap, x) =~= (v + seq![x]).subrange(1, v.len() as int + 1));
    }
}

} // verus!
