//! A queue of items that fall due at given times, each under a key by which it
//! can be taken out before it is due.
use crate::timestamp::Timestamp;
use vstd::prelude::*;

verus! {

broadcast use vstd::seq_lib::group_seq_properties;

/// The key under which an item was put into a [`SlottedTimeQueue`].
#[derive(Copy, Clone, Eq, PartialEq, Structural, Debug, Hash)]
pub struct TimeQueueSlotKey(pub u64);

/// No two entries share a key.
pub open spec fn keys_unique<T>(s: Seq<(u64, Timestamp, T)>) -> bool {
    forall|i: int, j: int| 0 <= i < s.len() && 0 <= j < s.len() && i != j ==> s[i].0 != s[j].0
}

/// Every key is below `next`.
pub open spec fn keys_below<T>(s: Seq<(u64, Timestamp, T)>, next: u64) -> bool {
    forall|i: int| 0 <= i < s.len() ==> s[i].0 < next
}

/// Entry `i` is the earliest due, and the first among those due as early.
pub open spec fn is_first_earliest<T>(s: Seq<(u64, Timestamp, T)>, i: int) -> bool {
    &&& 0 <= i < s.len()
    &&& forall|j: int| 0 <= j < s.len() ==> s[i].1.0 <= s[j].1.0
    &&& forall|j: int| 0 <= j < i ==> s[i].1.0 < s[j].1.0
}

/// Some entry is due at `now`.
pub open spec fn has_ready<T>(s: Seq<(u64, Timestamp, T)>, now: Timestamp) -> bool {
    exists|i: int| 0 <= i < s.len() && s[i].1.0 <= now.0
}

/// Whether an entry is not yet due at `now`.
pub open spec fn not_ready<T>(now: Timestamp) -> spec_fn((u64, Timestamp, T)) -> bool {
    |e: (u64, Timestamp, T)| e.1.0 > now.0
}

/// Items with the times at which they fall due, in the order they were put in.
pub struct SlottedTimeQueue<T> {
    entries: Vec<(u64, Timestamp, T)>,
    next_key: u64,
}

impl<T> View for SlottedTimeQueue<T> {
    type V = Seq<(u64, Timestamp, T)>;

    /// The entries (key, due time, item), oldest first.
    closed spec fn view(&self) -> Seq<(u64, Timestamp, T)> {
        self.entries@
    }
}

impl<T> SlottedTimeQueue<T> {
    /// The number of keys handed out so far; the next key is this number.
    pub closed spec fn keys_issued(&self) -> u64 {
        self.next_key
    }

    /// Keys are unique and each was handed out before.
    pub open spec fn wf(&self) -> bool {
        keys_unique(self@) && keys_below(self@, self.keys_issued())
    }

    /// An empty queue.
    pub fn new() -> (q: SlottedTimeQueue<T>)
        ensures
            q@ == Seq::<(u64, Timestamp, T)>::empty(),
            q.keys_issued() == 0,
            q.wf(),
    {
        SlottedTimeQueue { entries: Vec::new(), next_key: 0 }
    }

    /// The number of entries.
    pub fn len(&self) -> (n: usize)
        ensures
            n == self@.len(),
    {
        self.entries.len()
    }

    /// Puts `item` in, due at `due`, under a fresh key.
    pub fn push(&mut self, due: Timestamp, item: T) -> (k: TimeQueueSlotKey)
        requires
            old(self).wf(),
            old(self).keys_issued() < u64::MAX,
        ensures
            final(self).wf(),
            k.0 == old(self).keys_issued(),
            final(self).keys_issued() == old(self).keys_issued() + 1,
            final(self)@ == old(self)@.push((k.0, due, item)),
    {
        let k = self.next_key;
        self.entries.push((k, due, item));
        self.next_key = k + 1;
        TimeQueueSlotKey(k)
    }

    /// Takes out the item under `key`, if it is still in.
    pub fn remove(&mut self, key: TimeQueueSlotKey) -> (r: Option<T>)
        requires
            old(self).wf(),
        ensures
            final(self).wf(),
            final(self).keys_issued() == old(self).keys_issued(),
            r is None <==> forall|i: int| 0 <= i < old(self)@.len() ==> old(self)@[i].0 != key.0,
            r is None ==> final(self)@ == old(self)@,
            r matches Some(item) ==> exists|i: int|
                0 <= i < old(self)@.len() && old(self)@[i].0 == key.0 && old(self)@[i].2 == item
                    && final(self)@ == old(self)@.remove(i),
    {
        let n = self.entries.len();
        let mut i: usize = 0;
        while i < n
            invariant
                n == self.entries@.len(),
                self.entries@ == old(self).entries@,
                self.next_key == old(self).next_key,
                self.wf(),
                i <= n,
                forall|j: int| 0 <= j < i ==> self.entries@[j].0 != key.0,
            decreases n - i,
        {
            if self.entries[i].0 == key.0 {
                let ghost before = self.entries@;
                let (_, _, item) = self.entries.remove(i);
                assert(before == old(self)@);
                assert(before[i as int].0 == key.0 && before[i as int].2 == item && self@ == before.remove(i as int));
                assert(keys_unique(self@)) by {
                    assert forall|a: int, b: int|
                        0 <= a < self@.len() && 0 <= b < self@.len() && a != b implies self@[a].0
                        != self@[b].0 by {
                        let a2 = if a < i { a } else { a + 1 };
                        let b2 = if b < i { b } else { b + 1 };
                        assert(self@[a] == before[a2]);
                        assert(self@[b] == before[b2]);
                    }
                }
                assert(keys_below(self@, self.next_key)) by {
                    assert forall|a: int| 0 <= a < self@.len() implies self@[a].0 < self.next_key by {
                        let a2 = if a < i { a } else { a + 1 };
                        assert(self@[a] == before[a2]);
                    }
                }
                return Some(item);
            }
            i = i + 1;
        }
        None
    }

    /// Whether some entry is due at `now`.
    pub fn has_ready(&self, now: Timestamp) -> (r: bool)
        ensures
            r == has_ready(self@, now),
    {
        let n = self.entries.len();
        let mut i: usize = 0;
        while i < n
            invariant
                n == self@.len(),
                i <= n,
                forall|j: int| 0 <= j < i ==> self@[j].1.0 > now.0,
            decreases n - i,
        {
            if self.entries[i].1.0 <= now.0 {
                return true;
            }
            i = i + 1;
        }
        false
    }

    /// Takes out the entry that falls due first, the oldest among those due as
    /// early, if it is due at `now`.
    pub fn pop_ready(&mut self, now: Timestamp) -> (r: Option<(Timestamp, T)>)
        requires
            old(self).wf(),
        ensures
            final(self).wf(),
            final(self).keys_issued() == old(self).keys_issued(),
            r is None <==> !has_ready(old(self)@, now),
            r is None ==> final(self)@ == old(self)@,
            r matches Some(p) ==> exists|i: int|
                is_first_earliest(old(self)@, i) && old(self)@[i].1 == p.0 && old(self)@[i].2 == p.1
                    && final(self)@ == old(self)@.remove(i) && p.0.0 <= now.0,
    {
        let n = self.entries.len();
        if n == 0 {
            return None;
        }
        let mut best: usize = 0;
        let mut i: usize = 1;
        while i < n
            invariant
                n == self@.len(),
                n > 0,
                1 <= i <= n,
                best < i,
                forall|j: int| 0 <= j < i ==> self@[best as int].1.0 <= self@[j].1.0,
                forall|j: int| 0 <= j < best ==> self@[best as int].1.0 < self@[j].1.0,
            decreases n - i,
        {
            if self.entries[i].1.0 < self.entries[best].1.0 {
                best = i;
            }
            i = i + 1;
        }
        assert(is_first_earliest(self@, best as int));
        if self.entries[best].1.0 <= now.0 {
            let ghost before = self.entries@;
            let (_, due, item) = self.entries.remove(best);
            assert(keys_unique(self@)) by {
                assert forall|a: int, b: int|
                    0 <= a < self@.len() && 0 <= b < self@.len() && a != b implies self@[a].0
                    != self@[b].0 by {
                    let a2 = if a < best { a } else { a + 1 };
                    let b2 = if b < best { b } else { b + 1 };
                    assert(self@[a] == before[a2]);
                    assert(self@[b] == before[b2]);
                }
            }
            assert(keys_below(self@, self.next_key)) by {
                assert forall|a: int| 0 <= a < self@.len() implies self@[a].0 < self.next_key by {
                    let a2 = if a < best { a } else { a + 1 };
                    assert(self@[a] == before[a2]);
                }
            }
            Some((due, item))
        } else {
            assert forall|j: int| 0 <= j < self@.len() implies !(self@[j].1.0 <= now.0) by {}
            None
        }
    }
}

} // verus!
