//! The host's record of what every guest has acknowledged.
//!
//! For each guest the host keeps the observations that guest has sent:
//! how many finalized inputs the guest holds for every player. A guest
//! the host has never heard from has no entry yet. The minimum over
//! the guests heard from tells the host the earliest tick from which a
//! broadcast slice is guaranteed to meet every such guest's finalized
//! prefix without a gap.

use vstd::prelude::*;

use crate::peerwise::PeerwiseFinalizedInputsSeen;
use crate::player_num::PlayerNum;
use crate::seq_min::lemma_seq_min_unique;
use crate::seq_min::lemma_seq_min_witness;
use crate::seq_min::seq_min;

verus! {

/// What the guests heard from so far have acknowledged for player
/// `id`, one entry per such guest, in guest order.
pub open spec fn acked_counts(
    observations: Seq<Option<PeerwiseFinalizedInputsSeen>>,
    id: int,
    upto: int,
) -> Seq<int>
    decreases upto,
{
    if upto <= 0 {
        Seq::empty()
    } else {
        acked_counts(observations, id, upto - 1) + (match observations[upto - 1] {
            Some(o) => seq![o.spec_count(id)],
            None => Seq::empty(),
        })
    }
}

/// A lower bound on every heard-from guest's count is a lower bound on
/// every acked count.
proof fn lemma_acked_counts_bound(
    observations: Seq<Option<PeerwiseFinalizedInputsSeen>>,
    id: int,
    upto: int,
    v: int,
)
    requires
        upto <= observations.len(),
        forall|g: int|
            0 <= g < upto ==> ((#[trigger] observations[g]) matches Some(o) ==> v <= o.spec_count(
                id,
            )),
    ensures
        forall|k: int| 0 <= k < acked_counts(observations, id, upto).len() ==> v <= acked_counts(
            observations,
            id,
            upto,
        )[k],
    decreases upto,
{
    if upto > 0 {
        lemma_acked_counts_bound(observations, id, upto - 1, v);
        let s1 = acked_counts(observations, id, upto - 1);
        let s = acked_counts(observations, id, upto);
        assert forall|k: int| 0 <= k < s.len() implies v <= s[k] by {
            if k < s1.len() {
                assert(s[k] == s1[k]);
            } else {
                assert(observations[upto - 1] is Some);
                assert(s[k] == observations[upto - 1].unwrap().spec_count(id));
            }
        }
    }
}

/// A value attained at some heard-from guest appears among the acked
/// counts.
proof fn lemma_acked_counts_witness(
    observations: Seq<Option<PeerwiseFinalizedInputsSeen>>,
    id: int,
    upto: int,
    g: int,
)
    requires
        0 <= g < upto <= observations.len(),
        observations[g] is Some,
    ensures
        exists|k: int|
            0 <= k < acked_counts(observations, id, upto).len() && acked_counts(
                observations,
                id,
                upto,
            )[k] == observations[g].unwrap().spec_count(id),
    decreases upto,
{
    if g == upto - 1 {
        let s = acked_counts(observations, id, upto);
        assert(s[s.len() - 1] == observations[g].unwrap().spec_count(id));
    } else {
        lemma_acked_counts_witness(observations, id, upto - 1, g);
        let k = choose|k: int|
            0 <= k < acked_counts(observations, id, upto - 1).len() && #[trigger] acked_counts(
                observations,
                id,
                upto - 1,
            )[k] == observations[g].unwrap().spec_count(id);
        assert(acked_counts(observations, id, upto)[k] == acked_counts(observations, id, upto - 1)[
            k]);
    }
}

/// When no guest has been heard from, there are no acked counts.
proof fn lemma_acked_counts_empty(
    observations: Seq<Option<PeerwiseFinalizedInputsSeen>>,
    id: int,
    upto: int,
)
    requires
        upto <= observations.len(),
        forall|g: int| 0 <= g < upto ==> (#[trigger] observations[g]) is None,
    ensures
        acked_counts(observations, id, upto).len() == 0,
    decreases upto,
{
    if upto > 0 {
        lemma_acked_counts_empty(observations, id, upto - 1);
    }
}

/// One optional `PeerwiseFinalizedInputsSeen` per guest, indexed by
/// guest index (player number minus one); `None` until that guest is
/// first heard from. Owned by the host; guests keep no such table.
#[derive(Debug, Clone)]
pub struct FinalizedObservationsPerGuest {
    observations: Vec<Option<PeerwiseFinalizedInputsSeen>>,
}

impl FinalizedObservationsPerGuest {
    /// How many guests the table covers.
    pub closed spec fn spec_num_guests(self) -> int {
        self.observations@.len() as int
    }

    /// The observations received from the guest at `guest_idx`, if any
    /// were.
    pub closed spec fn spec_obs(self, guest_idx: int) -> Option<PeerwiseFinalizedInputsSeen> {
        self.observations@[guest_idx]
    }

    /// What the guest at `guest_idx` has acknowledged for player `id`:
    /// zero until the guest is first heard from.
    pub open spec fn slot_count(self, guest_idx: int, id: int) -> int {
        match self.spec_obs(guest_idx) {
            Some(o) => o.spec_count(id),
            None => 0,
        }
    }

    /// What the guests heard from have acknowledged for player `id`.
    pub open spec fn observed_counts_for(self, id: int) -> Seq<int> {
        acked_counts(
            Seq::new(self.spec_num_guests() as nat, |g: int| self.spec_obs(g)),
            id,
            self.spec_num_guests(),
        )
    }

    /// A table for `num_players` players with no guest heard from yet.
    pub fn new(num_players: u8) -> (r: Self)
        requires
            num_players >= 1,
        ensures
            r.spec_num_guests() == num_players - 1,
            forall|g: int| 0 <= g < num_players - 1 ==> r.spec_obs(g) is None,
    {
        let num_guests = num_players - 1;
        let mut observations: Vec<Option<PeerwiseFinalizedInputsSeen>> = Vec::new();
        let mut g: u8 = 0;
        while g < num_guests
            invariant
                g <= num_guests,
                observations@.len() == g,
                forall|gi: int| 0 <= gi < g ==> observations@[gi] is None,
            decreases num_guests - g,
        {
            observations.push(None);
            g = g + 1;
        }
        FinalizedObservationsPerGuest { observations }
    }

    /// Make sure the guest has an entry, so that from now on it counts
    /// among the guests heard from; a fresh entry acknowledges nothing.
    pub fn register_guest(&mut self, guest_player_num: PlayerNum)
        requires
            guest_player_num.spec_guest_index() matches Some(g) && g < old(
                self).spec_num_guests(),
        ensures
            final(self).spec_num_guests() == old(self).spec_num_guests(),
            forall|gi: int|
                0 <= gi < old(self).spec_num_guests() && Some(gi as usize)
                    != guest_player_num.spec_guest_index() ==> final(self).spec_obs(gi) == old(
                    self).spec_obs(gi),
            final(self).spec_obs(guest_player_num.spec_guest_index().unwrap() as int) is Some,
            forall|id: int|
                final(self).slot_count(guest_player_num.spec_guest_index().unwrap() as int, id)
                    == old(self).slot_count(
                    guest_player_num.spec_guest_index().unwrap() as int,
                    id,
                ),
    {
        let guest_idx = match guest_player_num.guest_index() {
            Some(idx) => idx,
            None => {
                proof {
                    assert(false);
                }
                0
            },
        };
        let slot = &mut self.observations[guest_idx];
        match slot {
            Some(_) => {},
            None => {
                *slot = Some(PeerwiseFinalizedInputsSeen::new(0));
            },
        }
    }

    /// The smallest count any guest heard from has acknowledged for
    /// the given player (0 when none has been heard from). A finalized
    /// slice for that player may safely start there: every guest heard
    /// from already holds at least that many finalized entries.
    pub fn get_earliest_num_observed_final_for_peer(&self, player_num: PlayerNum) -> (r: u32)
        ensures
            r == seq_min(self.observed_counts_for(player_num.spec_as_u8() as int)),
            forall|g: int|
                0 <= g < self.spec_num_guests() ==> ((#[trigger] self.spec_obs(g)) matches Some(o)
                    ==> r <= o.spec_count(player_num.spec_as_u8() as int)),
    {
        let ghost p = player_num.spec_as_u8() as int;
        let mut found = false;
        let mut m: u32 = 0;
        let mut g: usize = 0;
        while g < self.observations.len()
            invariant
                g <= self.observations@.len(),
                p == player_num.spec_as_u8() as int,
                !found ==> m == 0,
                !found ==> forall|gi: int| 0 <= gi < g ==> (#[trigger] self.observations@[gi])
                    is None,
                found ==> forall|gi: int|
                    0 <= gi < g ==> ((#[trigger] self.observations@[gi]) matches Some(o) ==> m
                        <= o.spec_count(p)),
                found ==> exists|gi: int|
                    0 <= gi < g && ((#[trigger] self.observations@[gi]) matches Some(o) && m
                        == o.spec_count(p)),
            decreases self.observations@.len() - g,
        {
            match &self.observations[g] {
                Some(o) => {
                    let c = o.get(player_num);
                    if !found || c < m {
                        m = c;
                        found = true;
                        proof {
                            assert(((self.observations@[g as int]) matches Some(ob) && m
                                == ob.spec_count(p)));
                        }
                    }
                },
                None => {},
            }
            g = g + 1;
        }
        proof {
            let obs = Seq::new(self.spec_num_guests() as nat, |gi: int| self.spec_obs(gi));
            assert(forall|gi: int|
                0 <= gi < obs.len() ==> obs[gi] == self.observations@[gi]);
            let s = self.observed_counts_for(p);
            if found {
                lemma_acked_counts_bound(obs, p, obs.len() as int, m as int);
                let w = choose|gi: int|
                    0 <= gi < self.observations@.len() && ((#[trigger] self.observations@[gi])
                        matches Some(o) && m == o.spec_count(p));
                lemma_acked_counts_witness(obs, p, obs.len() as int, w);
                lemma_seq_min_unique(s, m as int);
            } else {
                lemma_acked_counts_empty(obs, p, obs.len() as int);
            }
        }
        m
    }

    /// Fold a newly received observation from `guest_player_num` into
    /// that guest's slot, keeping for each player the larger count, so
    /// that observations arriving out of order never roll knowledge
    /// back. The guest counts as heard from afterwards.
    pub fn update_guest_observation(
        &mut self,
        guest_player_num: PlayerNum,
        observation: PeerwiseFinalizedInputsSeen,
    )
        requires
            guest_player_num.spec_guest_index() matches Some(g) && g < old(
                self).spec_num_guests(),
        ensures
            final(self).spec_num_guests() == old(self).spec_num_guests(),
            forall|gi: int|
                0 <= gi < old(self).spec_num_guests() && Some(gi as usize)
                    != guest_player_num.spec_guest_index() ==> final(self).spec_obs(gi) == old(
                    self).spec_obs(gi),
            final(self).spec_obs(guest_player_num.spec_guest_index().unwrap() as int) is Some,
            forall|id: int|
                final(self).slot_count(guest_player_num.spec_guest_index().unwrap() as int, id)
                    == vstd::math::max(
                    old(self).slot_count(guest_player_num.spec_guest_index().unwrap() as int, id),
                    observation.spec_count(id),
                ),
    {
        let guest_idx = match guest_player_num.guest_index() {
            Some(idx) => idx,
            None => {
                proof {
                    assert(false);
                }
                0
            },
        };
        let slot = &mut self.observations[guest_idx];
        match slot {
            Some(existing) => {
                existing.merge(observation);
            },
            None => {
                *slot = Some(observation);
            },
        }
    }
}

/// The safe broadcast start for a player never runs past any bound
/// that holds of every heard-from guest's acknowledged count for that
/// player. In particular, when every acknowledgement reports only
/// inputs the host itself finalized, the start is at most the host's
/// finalized count for that player.
pub proof fn lemma_earliest_observed_le_bound(
    table: FinalizedObservationsPerGuest,
    id: int,
    bound: int,
)
    requires
        bound >= 0,
        forall|g: int|
            0 <= g < table.spec_num_guests() ==> ((#[trigger] table.spec_obs(g)) matches Some(o)
                ==> o.spec_count(id) <= bound),
    ensures
        seq_min(table.observed_counts_for(id)) <= bound,
{
    let obs = Seq::new(table.spec_num_guests() as nat, |g: int| table.spec_obs(g));
    let s = table.observed_counts_for(id);
    if s.len() > 0 {
        lemma_seq_min_witness(s);
        let w = choose|i: int| 0 <= i < s.len() && seq_min(s) == s[i];
        lemma_acked_counts_le_bound(obs, id, table.spec_num_guests(), bound);
    }
}

/// Every acked count respects a bound that every heard-from guest
/// respects.
proof fn lemma_acked_counts_le_bound(
    observations: Seq<Option<PeerwiseFinalizedInputsSeen>>,
    id: int,
    upto: int,
    bound: int,
)
    requires
        upto <= observations.len(),
        forall|g: int|
            0 <= g < upto ==> ((#[trigger] observations[g]) matches Some(o) ==> o.spec_count(id)
                <= bound),
    ensures
        forall|k: int|
            0 <= k < acked_counts(observations, id, upto).len() ==> acked_counts(
                observations,
                id,
                upto,
            )[k] <= bound,
    decreases upto,
{
    if upto > 0 {
        lemma_acked_counts_le_bound(observations, id, upto - 1, bound);
        let s1 = acked_counts(observations, id, upto - 1);
        let s = acked_counts(observations, id, upto);
        assert forall|k: int| 0 <= k < s.len() implies s[k] <= bound by {
            if k < s1.len() {
                assert(s[k] == s1[k]);
            } else {
                assert(observations[upto - 1] is Some);
                assert(s[k] == observations[upto - 1].unwrap().spec_count(id));
            }
        }
    }
}

} // verus!
