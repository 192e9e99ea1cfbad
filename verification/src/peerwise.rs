//! One viewpoint's record of how many finalized inputs it has seen for
//! every player.
//!
//! A guest sends this to the host as an acknowledgement; the host keeps
//! one per guest. Observations only ever grow, so combining two of them
//! takes the per-player maximum.

use vstd::prelude::*;

use crate::player_num::PlayerNum;
use crate::seq_min::lemma_seq_min_unique;
use crate::seq_min::seq_min;

verus! {

/// For each player, the number of that player's inputs which the
/// observing peer has seen finalized. Players are indexed densely by
/// player number; a player past the end of the table has count 0.
#[derive(Debug, Clone, PartialEq, Eq)]
pub struct PeerwiseFinalizedInputsSeen {
    counts: Vec<u32>,
}

impl PeerwiseFinalizedInputsSeen {
    /// The dense table of counts, player 0 first.
    pub closed spec fn spec_counts(self) -> Seq<u32> {
        self.counts@
    }

    /// The finalized count observed for player `id` (0 when the table
    /// does not reach `id`).
    pub open spec fn spec_count(self, id: int) -> int {
        if 0 <= id < self.spec_counts().len() {
            self.spec_counts()[id] as int
        } else {
            0
        }
    }

    /// How many players the table reaches.
    pub open spec fn spec_len(self) -> int {
        self.spec_counts().len() as int
    }

    /// The stored counts as a sequence of integers.
    pub open spec fn counts_seq(self) -> Seq<int> {
        Seq::new(self.spec_len() as nat, |i: int| self.spec_count(i))
    }

    /// An observation of zero finalized inputs for each of
    /// `num_players` players.
    pub fn new(num_players: u8) -> (r: Self)
        ensures
            r.spec_len() == num_players,
            forall|id: int| r.spec_count(id) == 0,
    {
        let mut counts: Vec<u32> = Vec::new();
        let mut i: u8 = 0;
        while i < num_players
            invariant
                i <= num_players,
                counts@.len() == i,
                forall|id: int| 0 <= id < i ==> counts@[id] == 0,
            decreases num_players - i,
        {
            counts.push(0);
            i = i + 1;
        }
        PeerwiseFinalizedInputsSeen { counts }
    }

    /// An observation carrying the given per-player counts, player 0
    /// first.
    pub fn new_from_observed(num_players: u8, observed: &Vec<u32>) -> (r: Self)
        requires
            observed@.len() == num_players,
        ensures
            r.spec_counts() == observed@,
            r.spec_len() == num_players,
            forall|id: int| 0 <= id < num_players ==> r.spec_count(id) == observed@[id],
            forall|id: int| id >= num_players ==> r.spec_count(id) == 0,
    {
        PeerwiseFinalizedInputsSeen { counts: observed.clone() }
    }

    /// An observation built from (player, count) pairs; players not
    /// named have count 0.
    pub fn new_test(pairs: &Vec<(u8, u32)>) -> (r: Self)
        requires
            forall|i: int, j: int|
                0 <= i < j < pairs@.len() ==> pairs@[i].0 != pairs@[j].0,
        ensures
            forall|i: int|
                0 <= i < pairs@.len() ==> r.spec_count(pairs@[i].0 as int) == pairs@[i].1,
            forall|id: int|
                (forall|i: int| 0 <= i < pairs@.len() ==> pairs@[i].0 != id) ==> r.spec_count(id)
                    == 0,
    {
        let mut width: usize = 0;
        let mut k: usize = 0;
        while k < pairs.len()
            invariant
                k <= pairs@.len(),
                width <= 256,
                forall|i: int| 0 <= i < k ==> pairs@[i].0 < width,
            decreases pairs@.len() - k,
        {
            if pairs[k].0 as usize >= width {
                width = pairs[k].0 as usize + 1;
            }
            k = k + 1;
        }
        let mut counts: Vec<u32> = Vec::new();
        let mut i: usize = 0;
        while i < width
            invariant
                i <= width,
                counts@.len() == i,
                forall|id: int| 0 <= id < i ==> counts@[id] == 0,
            decreases width - i,
        {
            counts.push(0);
            i = i + 1;
        }
        let mut k: usize = 0;
        while k < pairs.len()
            invariant
                k <= pairs@.len(),
                counts@.len() == width,
                width <= 256,
                forall|i: int| 0 <= i < pairs@.len() ==> pairs@[i].0 < width,
                forall|i: int, j: int|
                    0 <= i < j < pairs@.len() ==> pairs@[i].0 != pairs@[j].0,
                forall|i: int| 0 <= i < k ==> counts@[pairs@[i].0 as int] == pairs@[i].1,
                forall|id: int|
                    0 <= id < width && (forall|i: int|
                        0 <= i < pairs@.len() ==> pairs@[i].0 != id) ==> counts@[id] == 0,
            decreases pairs@.len() - k,
        {
            let (id, v) = pairs[k];
            counts.set(id as usize, v);
            k = k + 1;
        }
        PeerwiseFinalizedInputsSeen { counts }
    }

    /// An observation holding exactly the given dense counts.
    pub fn from_counts(counts: Vec<u32>) -> (r: Self)
        ensures
            r.spec_counts() == counts@,
    {
        PeerwiseFinalizedInputsSeen { counts }
    }

    /// A copy of the dense per-player counts, player 0 first.
    pub fn inner(&self) -> (r: Vec<u32>)
        ensures
            r@ == self.spec_counts(),
            r@.len() == self.spec_len(),
            forall|id: int| 0 <= id < r@.len() ==> r@[id] == self.spec_count(id),
    {
        self.counts.clone()
    }

    /// The number of finalized inputs seen for the given player.
    pub fn get(&self, player_num: PlayerNum) -> (r: u32)
        ensures
            r == self.spec_count(player_num.spec_as_u8() as int),
    {
        let id = player_num.as_u8() as usize;
        if id < self.counts.len() {
            self.counts[id]
        } else {
            0
        }
    }

    /// What the count for player `id` is after `other` is merged into
    /// `a`: the larger of the two observations.
    pub open spec fn spec_merged_count(
        a: PeerwiseFinalizedInputsSeen,
        b: PeerwiseFinalizedInputsSeen,
        id: int,
    ) -> int {
        vstd::math::max(a.spec_count(id), b.spec_count(id))
    }

    /// Fold another observation into this one, keeping for each player
    /// the larger of the two counts. Observations are monotone, so the
    /// larger count is always the newer knowledge.
    #[verifier::loop_isolation(false)]
    pub fn merge(&mut self, other: PeerwiseFinalizedInputsSeen)
        ensures
            forall|id: int|
                final(self).spec_count(id) == Self::spec_merged_count(*old(self), other, id),
            final(self).spec_len() == vstd::math::max(old(self).spec_len(), other.spec_len()),
    {
        let mut i: usize = 0;
        while i < other.counts.len()
            invariant
                i <= other.counts@.len(),
                self.counts@.len() == vstd::math::max(old(self).counts@.len() as int, i as int)
                    || (i <= old(self).counts@.len() && self.counts@.len() == old(
                    self,
                ).counts@.len()),
                forall|id: int|
                    0 <= id < i ==> self.counts@[id] == Self::spec_merged_count(
                        *old(self),
                        other,
                        id,
                    ),
                forall|id: int|
                    i <= id < self.counts@.len() ==> self.counts@[id] == old(self).counts@[id],
            decreases other.counts@.len() - i,
        {
            if i < self.counts.len() {
                if other.counts[i] > self.counts[i] {
                    self.counts.set(i, other.counts[i]);
                }
            } else {
                self.counts.push(other.counts[i]);
            }
            i = i + 1;
        }
    }

    /// The smallest finalized count observed across the players in the
    /// table (0 for an empty table).
    #[verifier::loop_isolation(false)]
    pub fn earliest_input_finalized_by_all(&self) -> (r: u32)
        ensures
            r == seq_min(self.counts_seq()),
            forall|id: int| 0 <= id < self.spec_len() ==> r <= self.spec_count(id),
    {
        if self.counts.len() == 0 {
            return 0;
        }
        let mut m: u32 = self.counts[0];
        let mut i: usize = 1;
        while i < self.counts.len()
            invariant
                1 <= i <= self.counts@.len(),
                forall|id: int| 0 <= id < i ==> m <= self.counts@[id],
                exists|id: int| 0 <= id < i && m == self.counts@[id],
            decreases self.counts@.len() - i,
        {
            if self.counts[i] < m {
                m = self.counts[i];
            }
            i = i + 1;
        }
        proof {
            assert(forall|id: int|
                0 <= id < self.counts@.len() ==> self.counts_seq()[id] == self.counts@[id]);
            let w = choose|id: int| 0 <= id < self.counts@.len() && m == self.counts@[id];
            assert(self.counts_seq()[w] == m);
            lemma_seq_min_unique(self.counts_seq(), m as int);
        }
        m
    }
}

/// Merging observations is commutative: for every player, the merged
/// count does not depend on the order of the two observations.
pub proof fn lemma_merge_commutative(
    a: PeerwiseFinalizedInputsSeen,
    b: PeerwiseFinalizedInputsSeen,
)
    ensures
        forall|id: int|
            PeerwiseFinalizedInputsSeen::spec_merged_count(a, b, id)
                == PeerwiseFinalizedInputsSeen::spec_merged_count(b, a, id),
{
}

/// Merging an observation into itself changes nothing: the per-player
/// maximum is idempotent.
pub proof fn lemma_merge_idempotent(a: PeerwiseFinalizedInputsSeen)
    ensures
        forall|id: int|
            PeerwiseFinalizedInputsSeen::spec_merged_count(a, a, id) == a.spec_count(id),
{
}

} // verus!
