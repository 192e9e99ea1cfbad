//! Outstanding pings, keyed by ping id, with the time each was sent.
//!
//! A guest keeps one of these for its pings to the host; the host
//! keeps one per guest for its pongs. Ids are unique, so the record is
//! a small map from id to send time in milliseconds.

use vstd::prelude::*;

verus! {

/// The time stored for `id` in an association list, first match.
pub open spec fn seq_get(s: Seq<(u32, u64)>, id: u32) -> Option<u64>
    decreases s.len(),
{
    if s.len() == 0 {
        None
    } else if s[0].0 == id {
        Some(s[0].1)
    } else {
        seq_get(s.drop_first(), id)
    }
}

/// When the first `i` entries miss `id` and entry `i` carries it, the
/// lookup returns entry `i`.
proof fn lemma_seq_get_at(s: Seq<(u32, u64)>, i: int, id: u32)
    requires
        0 <= i < s.len(),
        forall|j: int| 0 <= j < i ==> s[j].0 != id,
        s[i].0 == id,
    ensures
        seq_get(s, id) == Some(s[i].1),
    decreases i,
{
    if i > 0 {
        lemma_seq_get_at(s.drop_first(), i - 1, id);
    }
}

/// The lookup misses exactly when no entry carries `id`.
proof fn lemma_seq_get_none(s: Seq<(u32, u64)>, id: u32)
    ensures
        (seq_get(s, id) is None) == (forall|j: int| 0 <= j < s.len() ==> s[j].0 != id),
    decreases s.len(),
{
    if s.len() > 0 {
        lemma_seq_get_none(s.drop_first(), id);
        assert forall|j: int| 1 <= j < s.len() implies s.drop_first()[j - 1] == s[j] by {}
        if s[0].0 != id && seq_get(s, id) is None {
            assert forall|j: int| 0 <= j < s.len() implies s[j].0 != id by {
                if j >= 1 {
                    assert(s.drop_first()[j - 1].0 != id);
                }
            }
        }
    }
}

/// Removing an entry with a different id leaves the lookup unchanged.
proof fn lemma_seq_get_remove(s: Seq<(u32, u64)>, i: int, id: u32)
    requires
        0 <= i < s.len(),
        s[i].0 != id,
    ensures
        seq_get(s.remove(i), id) == seq_get(s, id),
    decreases i,
{
    if i == 0 {
        assert(s.remove(0) =~= s.drop_first());
    } else {
        lemma_seq_get_remove(s.drop_first(), i - 1, id);
        assert(s.remove(i).drop_first() =~= s.drop_first().remove(i - 1));
        assert(s.remove(i)[0] == s[0]);
    }
}

/// The send times of pings that have not been answered yet, plus the
/// id the next ping will use.
#[derive(Debug, Clone)]
pub struct PingSendTimes {
    next_ping_id: u32,
    pings: Vec<(u32, u64)>,
}

impl PingSendTimes {
    /// The send time recorded for `id`, if `id` is outstanding.
    pub closed spec fn spec_get(self, id: u32) -> Option<u64> {
        seq_get(self.pings@, id)
    }

    /// The id the next ping will carry.
    pub closed spec fn spec_next_ping_id(self) -> u32 {
        self.next_ping_id
    }

    /// Every outstanding id appears once.
    pub closed spec fn wf(self) -> bool {
        forall|i: int, j: int|
            0 <= i < j < self.pings@.len() ==> self.pings@[i].0 != self.pings@[j].0
    }

    pub fn new() -> (r: Self)
        ensures
            r.wf(),
            r.spec_next_ping_id() == 0,
            forall|id: u32| r.spec_get(id) is None,
    {
        PingSendTimes { next_ping_id: 0, pings: Vec::new() }
    }

    /// The index at which `id` is stored, if it is.
    fn find(&self, id: u32) -> (r: Option<usize>)
        ensures
            r matches Some(i) ==> i < self.pings@.len() && self.pings@[i as int].0 == id
                && (forall|j: int| 0 <= j < i ==> self.pings@[j].0 != id) && self.spec_get(id)
                == Some(self.pings@[i as int].1),
            r is None ==> self.spec_get(id) is None,
    {
        let mut i: usize = 0;
        while i < self.pings.len()
            invariant
                i <= self.pings@.len(),
                forall|j: int| 0 <= j < i ==> self.pings@[j].0 != id,
            decreases self.pings@.len() - i,
        {
            if self.pings[i].0 == id {
                proof {
                    lemma_seq_get_at(self.pings@, i as int, id);
                }
                return Some(i);
            }
            i = i + 1;
        }
        proof {
            lemma_seq_get_none(self.pings@, id);
        }
        None
    }

    /// Remove and return the send time for `id`, if it is outstanding.
    pub fn take(&mut self, id: u32) -> (r: Option<u64>)
        requires
            old(self).wf(),
        ensures
            final(self).wf(),
            final(self).spec_next_ping_id() == old(self).spec_next_ping_id(),
            r == old(self).spec_get(id),
            r is None ==> *final(self) == *old(self),
            final(self).spec_get(id) is None,
            forall|other: u32|
                other != id ==> final(self).spec_get(other) == old(self).spec_get(other),
    {
        let found = self.find(id);
        match found {
            Some(i) => {
                let ghost s0 = self.pings@;
                let (_, t) = self.pings.remove(i);
                proof {
                    assert(self.pings@ == s0.remove(i as int));
                    assert forall|a: int, b: int|
                        0 <= a < b < self.pings@.len() implies self.pings@[a].0
                        != self.pings@[b].0 by {
                        let a0 = if a < i {
                            a
                        } else {
                            a + 1
                        };
                        let b0 = if b < i {
                            b
                        } else {
                            b + 1
                        };
                        assert(self.pings@[a] == s0[a0]);
                        assert(self.pings@[b] == s0[b0]);
                    }
                    assert forall|j: int| 0 <= j < self.pings@.len() implies self.pings@[j].0
                        != id by {
                        let j0 = if j < i {
                            j
                        } else {
                            j + 1
                        };
                        assert(self.pings@[j] == s0[j0]);
                    }
                    lemma_seq_get_none(self.pings@, id);
                    assert forall|other: u32| other != id implies self.spec_get(other) == old(
                        self).spec_get(other) by {
                        lemma_seq_get_remove(s0, i as int, other);
                    }
                }
                Some(t)
            },
            None => None,
        }
    }

    /// Record that a ping with the given id was sent at `now_ms`,
    /// replacing any earlier record for the same id.
    pub fn record_send(&mut self, id: u32, now_ms: u64)
        requires
            old(self).wf(),
        ensures
            final(self).wf(),
            final(self).spec_next_ping_id() == old(self).spec_next_ping_id(),
            final(self).spec_get(id) == Some(now_ms),
            forall|other: u32|
                other != id ==> final(self).spec_get(other) == old(self).spec_get(other),
    {
        let _ = self.take(id);
        let ghost mid = *self;
        self.pings.insert(0, (id, now_ms));
        proof {
            assert(self.pings@.drop_first() =~= mid.pings@);
            lemma_seq_get_none(mid.pings@, id);
            assert forall|a: int, b: int|
                0 <= a < b < self.pings@.len() implies self.pings@[a].0 != self.pings@[b].0 by {
                if a > 0 {
                    assert(self.pings@[a] == mid.pings@[a - 1]);
                }
                assert(self.pings@[b] == mid.pings@[b - 1]);
            }
            assert(self.spec_get(id) == Some(now_ms));
            assert forall|other: u32| other != id implies self.spec_get(other) == mid.spec_get(
                other) by {
                assert(seq_get(self.pings@, other) == seq_get(self.pings@.drop_first(), other));
            }
        }
    }

    /// Record the next ping as sent at `now_ms` and hand out its id.
    pub fn send_next_ping(&mut self, now_ms: u64) -> (r: u32)
        requires
            old(self).wf(),
            old(self).spec_next_ping_id() < u32::MAX,
        ensures
            final(self).wf(),
            r == old(self).spec_next_ping_id(),
            final(self).spec_next_ping_id() == old(self).spec_next_ping_id() + 1,
            final(self).spec_get(r) == Some(now_ms),
            forall|other: u32|
                other != r ==> final(self).spec_get(other) == old(self).spec_get(other),
    {
        let id = self.next_ping_id;
        self.record_send(id, now_ms);
        self.next_ping_id = self.next_ping_id + 1;
        id
    }
}

} // verus!
