//! The host coordinator: authoritative finalization, per-guest
//! broadcasts, catch-up synthesis, pong handling and disconnection.

use vstd::prelude::*;

use crate::ewma::Ewma;
use crate::host_observations::FinalizedObservationsPerGuest;
use crate::input_buffer::PlayerInputBuffer;
use crate::input_bytes::InputBytes;
use crate::manager::MultiplayerInputManager;
use crate::messages::HostFinalizedSlice;
use crate::messages::MsgPayload;
use crate::multi_buffer::MultiplayerInputBuffers;
use crate::multi_buffer::lemma_num_players_bound;
use crate::multi_buffer::lemma_wf_buffer;
use crate::peerwise::PeerwiseFinalizedInputsSeen;
use crate::ping_times::PingSendTimes;
use crate::player_num::PlayerNum;
use crate::seq_min::seq_min;

verus! {

/// Why the host could not use a guest's message.
#[derive(Debug, Clone, Copy, PartialEq, Eq, Structural)]
pub enum SyncError {
    /// A pong reply named a ping id that is not outstanding; no RTT
    /// sample is taken.
    UnknownPingId,
    /// The message was not of the variant this handler takes.
    UnexpectedMessage,
}

/// The host-only part of a peer: what each guest has acknowledged,
/// the catch-up threshold, pong bookkeeping and per-guest RTT,
/// disconnections, and accumulated simulation time.
pub struct HostInputMgr {
    /// For every guest, the finalized counts that guest last
    /// acknowledged for every player.
    pub guests_finalized_observations: FinalizedObservationsPerGuest,
    /// How many ticks a guest may lag before the host synthesizes
    /// catch-up inputs for it.
    pub max_guest_ticks_behind: u32,
    /// Per guest, the pongs sent and not yet answered, by ping id.
    pub pong_send_times: Vec<PingSendTimes>,
    /// Per guest, the smoothed round trip, once observed.
    pub rtts: Vec<Option<Ewma>>,
    /// Players whose catch-up target is the host's whole horizon.
    pub disconnected_players: Vec<PlayerNum>,
    /// Accumulated simulation time in microseconds.
    pub sim_time_us: u64,
    /// The simulation rate in ticks per second.
    pub ticks_per_sec: u32,
}

impl HostInputMgr {
    /// Whether `player_num` has been marked disconnected.
    pub open spec fn spec_is_disconnected(self, player_num: PlayerNum) -> bool {
        exists|i: int|
            0 <= i < self.disconnected_players@.len() && self.disconnected_players@[i]
                == player_num
    }
}

/// How many inputs the host owes after `sim_time_us` microseconds at
/// `ticks_per_sec`: enough that the owed count times the tick period
/// covers the elapsed time (the ceiling of their product in seconds).
pub open spec fn spec_ticks_expected(sim_time_us: int, ticks_per_sec: int) -> int {
    (sim_time_us * ticks_per_sec + 999_999) / 1_000_000
}

/// The RTT report: one entry per guest with an observed round trip,
/// in player order, carrying the player number and the smoothed
/// milliseconds.
pub open spec fn spec_rtt_list(rtts: Seq<Option<Ewma>>, upto: int) -> Seq<(u8, u32)>
    decreases upto,
{
    if upto <= 0 {
        Seq::empty()
    } else {
        spec_rtt_list(rtts, upto - 1) + (match rtts[upto - 1] {
            Some(e) => seq![(upto as u8, e.spec_value())],
            None => Seq::empty(),
        })
    }
}

impl MultiplayerInputManager<HostInputMgr> {
    /// The host's whole state is consistent: it is player 0, its own
    /// buffer is entirely finalized, and the per-guest tables all have
    /// one slot per guest.
    pub open spec fn wf(self) -> bool {
        &&& self.base_wf()
        &&& self.own_player_num.spec_as_u8() == 0
        &&& self.buffers.spec_num_players() >= 1
        &&& self.buffers.spec_buffer(0).spec_finalized() == self.buffers.spec_buffer(
            0,
        ).spec_inputs().len()
        &&& self.inner.guests_finalized_observations.spec_num_guests()
            == self.buffers.spec_num_players() - 1
        &&& self.inner.pong_send_times@.len() == self.buffers.spec_num_players() - 1
        &&& forall|g: int|
            0 <= g < self.inner.pong_send_times@.len() ==> self.inner.pong_send_times@[g].wf()
        &&& self.inner.rtts@.len() == self.buffers.spec_num_players() - 1
        &&& forall|g: int|
            0 <= g < self.inner.rtts@.len() ==> ((#[trigger] self.inner.rtts@[g]) matches Some(e)
                ==> e.wf())
    }

    pub fn new(
        num_players: u8,
        max_guest_ticks_behind: u32,
        max_ticks_to_predict_locf: u32,
        ticks_per_sec: u32,
    ) -> (r: Self)
        requires
            num_players >= 1,
        ensures
            r.wf(),
            r.buffers.spec_num_players() == num_players,
            r.buffers.spec_max_predict() == max_ticks_to_predict_locf,
            forall|id: int|
                0 <= id < num_players ==> r.buffers.spec_buffer(id).spec_inputs() == Seq::<
                    InputBytes,
                >::empty() && r.buffers.spec_buffer(id).spec_finalized() == 0,
            r.own_player_num.spec_as_u8() == 0,
            r.inner.max_guest_ticks_behind == max_guest_ticks_behind,
            r.inner.ticks_per_sec == ticks_per_sec,
            r.inner.sim_time_us == 0,
            forall|g: int|
                0 <= g < num_players - 1 ==> r.inner.guests_finalized_observations.spec_obs(g)
                    is None,
            forall|p: PlayerNum| !r.inner.spec_is_disconnected(p),
            forall|g: int, id: u32|
                0 <= g < num_players - 1 ==> r.inner.pong_send_times@[g].spec_get(id) is None,
            forall|g: int| 0 <= g < num_players - 1 ==> r.inner.rtts@[g] is None,
    {
        let num_guests = (num_players - 1) as usize;
        let mut pong_send_times: Vec<PingSendTimes> = Vec::new();
        let mut rtts: Vec<Option<Ewma>> = Vec::new();
        let mut g: usize = 0;
        while g < num_guests
            invariant
                g <= num_guests,
                pong_send_times@.len() == g,
                rtts@.len() == g,
                forall|i: int|
                    0 <= i < g ==> pong_send_times@[i].wf() && (forall|id: u32|
                        pong_send_times@[i].spec_get(id) is None),
                forall|i: int| 0 <= i < g ==> rtts@[i] is None,
            decreases num_guests - g,
        {
            pong_send_times.push(PingSendTimes::new());
            rtts.push(None);
            g = g + 1;
        }
        MultiplayerInputManager {
            buffers: MultiplayerInputBuffers::new(num_players, max_ticks_to_predict_locf),
            inner: HostInputMgr {
                guests_finalized_observations: FinalizedObservationsPerGuest::new(num_players),
                max_guest_ticks_behind,
                pong_send_times,
                rtts,
                disconnected_players: Vec::new(),
                sim_time_us: 0,
                ticks_per_sec,
            },
            own_player_num: PlayerNum::new_host(),
        }
    }

    /// Whether `player_num` has been marked disconnected.
    pub fn is_player_disconnected(&self, player_num: PlayerNum) -> (r: bool)
        ensures
            r == self.inner.spec_is_disconnected(player_num),
    {
        let mut i: usize = 0;
        while i < self.inner.disconnected_players.len()
            invariant
                i <= self.inner.disconnected_players@.len(),
                forall|j: int|
                    0 <= j < i ==> self.inner.disconnected_players@[j] != player_num,
            decreases self.inner.disconnected_players@.len() - i,
        {
            if self.inner.disconnected_players[i].as_u8() == player_num.as_u8() {
                proof {
                    crate::player_num::lemma_player_num_eq(
                        self.inner.disconnected_players@[i as int],
                        player_num,
                    );
                }
                return true;
            }
            proof {
                if self.inner.disconnected_players@[i as int] == player_num {
                    assert(false);
                }
            }
            i = i + 1;
        }
        false
    }

    /// Mark a player disconnected; from now on its catch-up target is
    /// the host's whole horizon.
    pub fn player_disconnected(&mut self, player_num: PlayerNum)
        requires
            old(self).wf(),
        ensures
            final(self).wf(),
            final(self).buffers == old(self).buffers,
            final(self).own_player_num == old(self).own_player_num,
            final(self).inner.guests_finalized_observations == old(
                self).inner.guests_finalized_observations,
            final(self).inner.max_guest_ticks_behind == old(self).inner.max_guest_ticks_behind,
            final(self).inner.pong_send_times == old(self).inner.pong_send_times,
            final(self).inner.rtts == old(self).inner.rtts,
            final(self).inner.sim_time_us == old(self).inner.sim_time_us,
            final(self).inner.ticks_per_sec == old(self).inner.ticks_per_sec,
            forall|q: PlayerNum|
                final(self).inner.spec_is_disconnected(q) == (q == player_num || old(
                    self).inner.spec_is_disconnected(q)),
    {
        self.inner.disconnected_players.push(player_num);
        proof {
            let ghost l0 = old(self).inner.disconnected_players@;
            assert forall|q: PlayerNum|
                final(self).inner.spec_is_disconnected(q) == (q == player_num
                    || old(self).inner.spec_is_disconnected(q)) by {
                let l1 = self.inner.disconnected_players@;
                if q == player_num {
                    assert(l1[l1.len() - 1] == q);
                } else {
                    if old(self).inner.spec_is_disconnected(q) {
                        let w = choose|i: int| 0 <= i < l0.len() && l0[i] == q;
                        assert(l1[w] == q);
                    }
                    if self.inner.spec_is_disconnected(q) {
                        let w = choose|i: int| 0 <= i < l1.len() && l1[i] == q;
                        assert(l0[w] == q);
                    }
                }
            }
        }
    }

    /// Advance the accumulated simulation time and say how many inputs
    /// the host still owes its own buffer to cover it.
    pub fn update_time_and_get_num_inputs_needed(&mut self, delta_us: u64) -> (r: u32)
        requires
            old(self).wf(),
            old(self).inner.sim_time_us + delta_us <= u64::MAX,
            spec_ticks_expected(
                old(self).inner.sim_time_us + delta_us,
                old(self).inner.ticks_per_sec as int,
            ) <= u32::MAX,
        ensures
            final(self).wf(),
            final(self).buffers == old(self).buffers,
            final(self).own_player_num == old(self).own_player_num,
            final(self).inner.sim_time_us == old(self).inner.sim_time_us + delta_us,
            final(self).inner.guests_finalized_observations == old(
                self).inner.guests_finalized_observations,
            final(self).inner.max_guest_ticks_behind == old(self).inner.max_guest_ticks_behind,
            final(self).inner.pong_send_times == old(self).inner.pong_send_times,
            final(self).inner.rtts == old(self).inner.rtts,
            final(self).inner.disconnected_players == old(self).inner.disconnected_players,
            final(self).inner.ticks_per_sec == old(self).inner.ticks_per_sec,
            r == vstd::math::max(
                0,
                spec_ticks_expected(
                    old(self).inner.sim_time_us + delta_us,
                    old(self).inner.ticks_per_sec as int,
                ) - old(self).buffers.spec_buffer(0).spec_inputs().len(),
            ),
    {
        self.inner.sim_time_us = self.inner.sim_time_us + delta_us;
        proof {
            assert((self.inner.sim_time_us as int) * (self.inner.ticks_per_sec as int) <= (
            u64::MAX as int) * (u32::MAX as int)) by (nonlinear_arith)
                requires
                    self.inner.sim_time_us <= u64::MAX,
                    self.inner.ticks_per_sec <= u32::MAX,
            ;
        }
        let expected_wide: u128 = ((self.inner.sim_time_us as u128)
            * (self.inner.ticks_per_sec as u128) + 999_999) / 1_000_000;
        let expected: u32 = expected_wide as u32;
        let current: u32 = self.buffers.get_num_inputs(self.own_player_num);
        if expected > current {
            expected - current
        } else {
            0
        }
    }

    /// Add one finalized input to the host's own buffer; the host's
    /// inputs are authoritative the moment they are collected.
    pub fn add_host_input_directly(&mut self, input: InputBytes)
        requires
            old(self).wf(),
            old(self).buffers.spec_buffer(0).spec_inputs().len() < u32::MAX,
        ensures
            final(self).wf(),
            final(self).own_player_num == old(self).own_player_num,
            final(self).inner == old(self).inner,
            final(self).buffers.spec_num_players() == old(self).buffers.spec_num_players(),
            final(self).buffers.spec_max_predict() == old(self).buffers.spec_max_predict(),
            forall|q: int|
                1 <= q < old(self).buffers.spec_num_players() ==> final(self).buffers.spec_buffer(
                    q) == old(self).buffers.spec_buffer(q),
            final(self).buffers.spec_buffer(0).spec_inputs() == old(self).buffers.spec_buffer(
                0).spec_inputs().push(input),
            final(self).buffers.spec_buffer(0).spec_finalized() == old(self).buffers.spec_buffer(
                0).spec_finalized() + 1,
    {
        let own = self.own_player_num;
        self.buffers.append_input_finalized(own, input);
    }

    /// Advance time by `delta_us` and finalize as many copies of the
    /// given input into the host's own buffer as the elapsed time
    /// demands.
    pub fn add_host_input_to_fill_needed(&mut self, input: InputBytes, delta_us: u64)
        requires
            old(self).wf(),
            old(self).inner.sim_time_us + delta_us <= u64::MAX,
            spec_ticks_expected(
                old(self).inner.sim_time_us + delta_us,
                old(self).inner.ticks_per_sec as int,
            ) <= u32::MAX,
        ensures
            final(self).wf(),
            final(self).own_player_num == old(self).own_player_num,
            final(self).inner.sim_time_us == old(self).inner.sim_time_us + delta_us,
            final(self).inner.guests_finalized_observations == old(
                self).inner.guests_finalized_observations,
            final(self).inner.max_guest_ticks_behind == old(self).inner.max_guest_ticks_behind,
            final(self).inner.pong_send_times == old(self).inner.pong_send_times,
            final(self).inner.rtts == old(self).inner.rtts,
            final(self).inner.disconnected_players == old(self).inner.disconnected_players,
            final(self).inner.ticks_per_sec == old(self).inner.ticks_per_sec,
            final(self).buffers.spec_num_players() == old(self).buffers.spec_num_players(),
            final(self).buffers.spec_max_predict() == old(self).buffers.spec_max_predict(),
            forall|q: int|
                1 <= q < old(self).buffers.spec_num_players() ==> final(self).buffers.spec_buffer(
                    q) == old(self).buffers.spec_buffer(q),
            final(self).buffers.spec_buffer(0).spec_inputs().len() == vstd::math::max(
                old(self).buffers.spec_buffer(0).spec_inputs().len() as int,
                spec_ticks_expected(
                    old(self).inner.sim_time_us + delta_us,
                    old(self).inner.ticks_per_sec as int,
                ),
            ),
            final(self).buffers.spec_buffer(0).spec_finalized() == final(
                self).buffers.spec_buffer(0).spec_inputs().len(),
            final(self).buffers.spec_buffer(0).spec_inputs().subrange(
                0,
                old(self).buffers.spec_buffer(0).spec_inputs().len() as int,
            ) == old(self).buffers.spec_buffer(0).spec_inputs(),
            forall|p: int|
                old(self).buffers.spec_buffer(0).spec_inputs().len() <= p < final(
                    self).buffers.spec_buffer(0).spec_inputs().len() ==> final(
                    self).buffers.spec_buffer(0).spec_inputs()[p] == input,
    {
        proof {
            lemma_wf_buffer(self.buffers, 0);
        }
        let num_inputs_needed = self.update_time_and_get_num_inputs_needed(delta_us);
        let own = self.own_player_num;
        self.buffers.append_finalized_copies(own, input, num_inputs_needed);
    }

    /// Store a slice of a guest's own inputs as finalized: the host is
    /// the finalizer, and once it has seen a guest input it never
    /// changes. Any other message is ignored.
    pub fn rx_guest_input_slice(&mut self, player_num: PlayerNum, msg: MsgPayload)
        requires
            old(self).wf(),
            player_num.spec_guest_index() matches Some(g) && g < old(
                self).inner.guests_finalized_observations.spec_num_guests(),
            msg matches MsgPayload::PeerInputs(s) ==> s.wf() && old(self).buffers.spec_buffer(
                player_num.spec_as_u8() as int,
            ).spec_inputs().len() + s.inputs@.len() <= u32::MAX,
        ensures
            final(self).wf(),
            final(self).own_player_num == old(self).own_player_num,
            final(self).inner.max_guest_ticks_behind == old(self).inner.max_guest_ticks_behind,
            final(self).inner.pong_send_times == old(self).inner.pong_send_times,
            final(self).inner.rtts == old(self).inner.rtts,
            final(self).inner.disconnected_players == old(self).inner.disconnected_players,
            final(self).inner.sim_time_us == old(self).inner.sim_time_us,
            final(self).inner.ticks_per_sec == old(self).inner.ticks_per_sec,
            final(self).buffers.spec_num_players() == old(self).buffers.spec_num_players(),
            final(self).buffers.spec_max_predict() == old(self).buffers.spec_max_predict(),
            forall|q: int|
                0 <= q < old(self).buffers.spec_num_players() && q != player_num.spec_as_u8()
                    ==> final(self).buffers.spec_buffer(q) == old(self).buffers.spec_buffer(q),
            final(self).inner.guests_finalized_observations.spec_num_guests() == old(
                self).inner.guests_finalized_observations.spec_num_guests(),
            forall|gi: int|
                0 <= gi < old(self).inner.guests_finalized_observations.spec_num_guests() && Some(
                    gi as usize,
                ) != player_num.spec_guest_index()
                    ==> final(self).inner.guests_finalized_observations.spec_obs(gi) == old(
                    self).inner.guests_finalized_observations.spec_obs(gi),
            forall|id: int|
                final(self).inner.guests_finalized_observations.slot_count(
                    player_num.spec_guest_index().unwrap() as int,
                    id,
                ) == old(self).inner.guests_finalized_observations.slot_count(
                    player_num.spec_guest_index().unwrap() as int,
                    id,
                ),
            msg matches MsgPayload::PeerInputs(s) ==> {
                &&& PlayerInputBuffer::receive_finalized_post(
                    old(self).buffers.spec_buffer(player_num.spec_as_u8() as int),
                    final(self).buffers.spec_buffer(player_num.spec_as_u8() as int),
                    s,
                )
                &&& final(self).inner.guests_finalized_observations.spec_obs(
                    player_num.spec_guest_index().unwrap() as int,
                ) is Some
            },
            !(msg is PeerInputs) ==> final(self).buffers == old(self).buffers && final(
                self).inner.guests_finalized_observations == old(
                self).inner.guests_finalized_observations,
    {
        match msg {
            MsgPayload::PeerInputs(input_slice) => {
                self.inner.guests_finalized_observations.register_guest(player_num);
                self.buffers.receive_finalized_input_slice_for_player(input_slice, player_num);
            },
            _ => {},
        }
    }

    /// Fold a guest's acknowledgement into its slot of the
    /// observations table, keeping per-player maxima. Any other
    /// message is ignored.
    pub fn rx_finalized_ticks_observations(&mut self, player_num: PlayerNum, msg: MsgPayload)
        requires
            old(self).wf(),
            player_num.spec_guest_index() matches Some(g) && g < old(
                self).inner.guests_finalized_observations.spec_num_guests(),
        ensures
            final(self).wf(),
            final(self).buffers == old(self).buffers,
            final(self).own_player_num == old(self).own_player_num,
            final(self).inner.max_guest_ticks_behind == old(self).inner.max_guest_ticks_behind,
            final(self).inner.pong_send_times == old(self).inner.pong_send_times,
            final(self).inner.rtts == old(self).inner.rtts,
            final(self).inner.disconnected_players == old(self).inner.disconnected_players,
            final(self).inner.sim_time_us == old(self).inner.sim_time_us,
            final(self).inner.ticks_per_sec == old(self).inner.ticks_per_sec,
            msg matches MsgPayload::AckFinalization(a) ==> {
                &&& final(self).inner.guests_finalized_observations.spec_num_guests() == old(
                    self).inner.guests_finalized_observations.spec_num_guests()
                &&& forall|gi: int|
                    0 <= gi < old(self).inner.guests_finalized_observations.spec_num_guests()
                        && Some(gi as usize) != player_num.spec_guest_index() ==> final(
                        self).inner.guests_finalized_observations.spec_obs(gi) == old(
                        self).inner.guests_finalized_observations.spec_obs(gi)
                &&& forall|id: int|
                    final(self).inner.guests_finalized_observations.slot_count(
                        player_num.spec_guest_index().unwrap() as int,
                        id,
                    ) == vstd::math::max(
                        old(self).inner.guests_finalized_observations.slot_count(
                            player_num.spec_guest_index().unwrap() as int,
                            id,
                        ),
                        a.spec_count(id),
                    )
            },
            !(msg is AckFinalization) ==> *final(self) == *old(self),
    {
        match msg {
            MsgPayload::AckFinalization(new_ack) => {
                proof {
                    lemma_num_players_bound(self.buffers);
                }
                self.inner.guests_finalized_observations.update_guest_observation(
                    player_num,
                    new_ack,
                );
            },
            _ => {},
        }
    }

    /// Answer a guest's ping: remember when the pong goes out, keyed
    /// by the ping id, and reply with a pong carrying the same id.
    pub fn rx_guest_ping_and_reply(&mut self, player_num: PlayerNum, msg: MsgPayload, now_ms: u64)
        -> (r: MsgPayload)
        requires
            old(self).wf(),
            player_num.spec_guest_index() matches Some(g) && g < old(
                self).inner.pong_send_times@.len(),
            msg is GuestPing,
        ensures
            final(self).wf(),
            final(self).buffers == old(self).buffers,
            final(self).own_player_num == old(self).own_player_num,
            final(self).inner.guests_finalized_observations == old(
                self).inner.guests_finalized_observations,
            final(self).inner.max_guest_ticks_behind == old(self).inner.max_guest_ticks_behind,
            final(self).inner.rtts == old(self).inner.rtts,
            final(self).inner.disconnected_players == old(self).inner.disconnected_players,
            final(self).inner.sim_time_us == old(self).inner.sim_time_us,
            final(self).inner.ticks_per_sec == old(self).inner.ticks_per_sec,
            msg matches MsgPayload::GuestPing(id) ==> {
                &&& r == MsgPayload::HostPong(id)
                &&& final(self).inner.pong_send_times@.len() == old(
                    self).inner.pong_send_times@.len()
                &&& forall|gi: int|
                    0 <= gi < old(self).inner.pong_send_times@.len() && Some(gi as usize)
                        != player_num.spec_guest_index() ==> final(
                        self).inner.pong_send_times@[gi] == old(self).inner.pong_send_times@[gi]
                &&& final(self).inner.pong_send_times@[player_num.spec_guest_index().unwrap() as int].spec_get(
                    id) == Some(now_ms)
                &&& forall|other: u32|
                    other != id ==> final(
                        self).inner.pong_send_times@[player_num.spec_guest_index().unwrap() as int].spec_get(
                        other,
                    ) == old(
                        self,
                    ).inner.pong_send_times@[player_num.spec_guest_index().unwrap() as int].spec_get(
                        other,
                    )
            },
    {
        let id = match msg {
            MsgPayload::GuestPing(id) => id,
            _ => {
                proof {
                    assert(false);
                }
                0
            },
        };
        let guest_idx = match player_num.guest_index() {
            Some(g) => g,
            None => {
                proof {
                    assert(false);
                }
                0
            },
        };
        let times = &mut self.inner.pong_send_times[guest_idx];
        times.record_send(id, now_ms);
        MsgPayload::HostPong(id)
    }

    /// Take a guest's pong-pong: the time since the matching pong was
    /// sent is one RTT sample for that guest. An id that is not
    /// outstanding is an error and no sample is taken; so is a message
    /// of any other variant.
    pub fn rx_guest_pong_pong(&mut self, player_num: PlayerNum, msg: MsgPayload, now_ms: u64)
        -> (r: Result<MsgPayload, SyncError>)
        requires
            old(self).wf(),
            player_num.spec_guest_index() matches Some(g) && g < old(
                self).inner.pong_send_times@.len(),
        ensures
            final(self).wf(),
            final(self).buffers == old(self).buffers,
            final(self).own_player_num == old(self).own_player_num,
            final(self).inner.guests_finalized_observations == old(
                self).inner.guests_finalized_observations,
            final(self).inner.max_guest_ticks_behind == old(self).inner.max_guest_ticks_behind,
            final(self).inner.disconnected_players == old(self).inner.disconnected_players,
            final(self).inner.sim_time_us == old(self).inner.sim_time_us,
            final(self).inner.ticks_per_sec == old(self).inner.ticks_per_sec,
            !(msg is GuestPongPong) ==> r == Err::<MsgPayload, SyncError>(
                SyncError::UnexpectedMessage,
            ) && *final(self) == *old(self),
            msg matches MsgPayload::GuestPongPong(id) ==> {
                let g = player_num.spec_guest_index().unwrap() as int;
                &&& (old(self).inner.pong_send_times@[g].spec_get(id) is None ==> r == Err::<
                    MsgPayload,
                    SyncError,
                >(SyncError::UnknownPingId) && final(self).inner.pong_send_times@ == old(
                    self).inner.pong_send_times@ && final(self).inner.rtts == old(self).inner.rtts)
                &&& (old(self).inner.pong_send_times@[g].spec_get(id) matches Some(sent) ==> {
                    let sample = if now_ms >= sent && now_ms - sent <= u32::MAX {
                        (now_ms - sent) as u32
                    } else if now_ms >= sent {
                        u32::MAX
                    } else {
                        0u32
                    };
                    &&& r == Ok::<MsgPayload, SyncError>(MsgPayload::Empty)
                    &&& final(self).inner.pong_send_times@.len() == old(
                        self).inner.pong_send_times@.len()
                    &&& forall|gi: int|
                        0 <= gi < old(self).inner.pong_send_times@.len() && gi != g ==> final(
                            self).inner.pong_send_times@[gi] == old(
                            self).inner.pong_send_times@[gi]
                    &&& final(self).inner.pong_send_times@[g].spec_get(id) is None
                    &&& forall|other: u32|
                        other != id ==> final(self).inner.pong_send_times@[g].spec_get(other)
                            == old(self).inner.pong_send_times@[g].spec_get(other)
                    &&& final(self).inner.rtts@.len() == old(self).inner.rtts@.len()
                    &&& forall|gi: int|
                        0 <= gi < old(self).inner.rtts@.len() && gi != g ==> final(
                            self).inner.rtts@[gi] == old(self).inner.rtts@[gi]
                    &&& (old(self).inner.rtts@[g] matches Some(e0) ==> (final(self).inner.rtts@[g]
                        matches Some(e) && e.spec_value() == e0.spec_observed(sample)))
                    &&& (old(self).inner.rtts@[g] is None ==> (final(self).inner.rtts@[g]
                        matches Some(e) && e.spec_value() == Ewma::spec_default_observed(sample)))
                })
            },
    {
        let id = match msg {
            MsgPayload::GuestPongPong(id) => id,
            _ => {
                return Err(SyncError::UnexpectedMessage);
            },
        };
        let guest_idx = match player_num.guest_index() {
            Some(g) => g,
            None => {
                proof {
                    assert(false);
                }
                0
            },
        };
        let ghost pst0 = self.inner.pong_send_times@;
        let times = &mut self.inner.pong_send_times[guest_idx];
        let sent_opt = times.take(id);
        let sent = match sent_opt {
            Some(t) => t,
            None => {
                proof {
                    assert(self.inner.pong_send_times@ =~= pst0);
                }
                return Err(SyncError::UnknownPingId);
            },
        };
        let sample: u32 = if now_ms >= sent {
            let d = now_ms - sent;
            if d <= u32::MAX as u64 {
                d as u32
            } else {
                u32::MAX
            }
        } else {
            0
        };
        let slot = &mut self.inner.rtts[guest_idx];
        match slot {
            Some(e) => {
                e.observe(sample);
            },
            None => {
                let mut e = Ewma::default();
                e.observe(sample);
                *slot = Some(e);
            },
        }
        Ok(MsgPayload::Empty)
    }

    /// The smallest count any guest has acknowledged for `player_num`;
    /// broadcasting a finalized slice from there can leave no guest
    /// with a gap.
    pub fn test_get_earliest_num_observed_final_for_peer(&self, player_num: PlayerNum) -> (r: u32)
        ensures
            r == seq_min(
                self.inner.guests_finalized_observations.observed_counts_for(
                    player_num.spec_as_u8() as int,
                ),
            ),
    {
        self.inner.guests_finalized_observations.get_earliest_num_observed_final_for_peer(
            player_num,
        )
    }

    /// The finalized slice for one player that the host broadcasts:
    /// it starts at the earliest count any guest has acknowledged for
    /// that player, runs to the end of what the host has, and carries
    /// the host's own tick.
    pub fn get_msg_finalized_slice(&self, player_num: PlayerNum) -> (r: MsgPayload)
        requires
            self.wf(),
            player_num.spec_as_u8() < self.buffers.spec_num_players(),
            forall|g: int|
                0 <= g < self.inner.guests_finalized_observations.spec_num_guests() ==> ((
                #[trigger] self.inner.guests_finalized_observations.spec_obs(g)) matches Some(o)
                    ==> o.spec_count(player_num.spec_as_u8() as int) <= self.buffers.spec_buffer(
                    player_num.spec_as_u8() as int,
                ).spec_inputs().len()),
        ensures
            r matches MsgPayload::HostFinalizedSlice(h) && h.player_num == player_num
                && h.host_tick == self.buffers.spec_buffer(0).spec_finalized() && h.inputs.start
                == seq_min(
                self.inner.guests_finalized_observations.observed_counts_for(
                    player_num.spec_as_u8() as int,
                ),
            ) && h.inputs.inputs@ == self.buffers.spec_buffer(
                player_num.spec_as_u8() as int,
            ).spec_inputs().subrange(
                seq_min(
                    self.inner.guests_finalized_observations.observed_counts_for(
                        player_num.spec_as_u8() as int,
                    ),
                ),
                self.buffers.spec_buffer(player_num.spec_as_u8() as int).spec_inputs().len() as int,
            ),
    {
        let start = self.inner.guests_finalized_observations.get_earliest_num_observed_final_for_peer(
            player_num,
        );
        proof {
            lemma_wf_buffer(self.buffers, player_num.spec_as_u8() as int);
            crate::host_observations::lemma_earliest_observed_le_bound(
                self.inner.guests_finalized_observations,
                player_num.spec_as_u8() as int,
                self.buffers.spec_buffer(player_num.spec_as_u8() as int).spec_inputs().len() as int,
            );
        }
        let slice = self.buffers.get_slice_to_end_for_peer(player_num, start);
        let host_tick = self.buffers.get_num_finalized_inputs(self.own_player_num);
        MsgPayload::HostFinalizedSlice(
            HostFinalizedSlice { player_num, host_tick, inputs: slice },
        )
    }

    /// The catch-up target for a guest: the host's whole horizon for a
    /// disconnected player, otherwise the horizon minus the allowed
    /// lag.
    pub open spec fn spec_catch_up_target(self, player_num: PlayerNum) -> int {
        if self.inner.spec_is_disconnected(player_num) {
            self.buffers.spec_buffer(0).spec_inputs().len() as int
        } else {
            vstd::math::max(
                0,
                self.buffers.spec_buffer(0).spec_inputs().len()
                    - self.inner.max_guest_ticks_behind,
            )
        }
    }

    /// When a guest has fallen behind the catch-up target, synthesize
    /// finalized default inputs for it through the target and emit the
    /// finalized slice to send; otherwise emit nothing.
    pub fn get_msg_finalized_late_inputs_for_guest(&mut self, player_num: PlayerNum) -> (r:
        MsgPayload)
        requires
            old(self).wf(),
            player_num.spec_as_u8() != 0,
            player_num.spec_as_u8() < old(self).buffers.spec_num_players(),
            old(self).buffers.spec_buffer(0).spec_inputs().len() < u32::MAX,
            forall|g: int|
                0 <= g < old(self).inner.guests_finalized_observations.spec_num_guests() ==> ((
                #[trigger] old(self).inner.guests_finalized_observations.spec_obs(g))
                    matches Some(o) ==> o.spec_count(player_num.spec_as_u8() as int) <= old(
                    self).buffers.spec_buffer(player_num.spec_as_u8() as int).spec_inputs().len()),
        ensures
            final(self).wf(),
            final(self).own_player_num == old(self).own_player_num,
            final(self).inner == old(self).inner,
            final(self).buffers.spec_num_players() == old(self).buffers.spec_num_players(),
            final(self).buffers.spec_max_predict() == old(self).buffers.spec_max_predict(),
            forall|q: int|
                0 <= q < old(self).buffers.spec_num_players() && q != player_num.spec_as_u8()
                    ==> final(self).buffers.spec_buffer(q) == old(self).buffers.spec_buffer(q),
            old(self).buffers.spec_buffer(player_num.spec_as_u8() as int).spec_finalized() >= old(
                self).spec_catch_up_target(player_num) ==> r == MsgPayload::Empty && *final(self)
                == *old(self),
            old(self).buffers.spec_buffer(player_num.spec_as_u8() as int).spec_finalized() < old(
                self).spec_catch_up_target(player_num) ==> {
                &&& PlayerInputBuffer::append_defaults_post(
                    old(self).buffers.spec_buffer(player_num.spec_as_u8() as int),
                    final(self).buffers.spec_buffer(player_num.spec_as_u8() as int),
                    old(self).spec_catch_up_target(player_num),
                )
                &&& r matches MsgPayload::HostFinalizedSlice(h) && h.player_num == player_num
                    && h.host_tick == old(self).buffers.spec_buffer(0).spec_inputs().len()
                    && h.inputs.start == seq_min(
                    old(self).inner.guests_finalized_observations.observed_counts_for(
                        player_num.spec_as_u8() as int,
                    ),
                ) && h.inputs.inputs@ == final(self).buffers.spec_buffer(
                    player_num.spec_as_u8() as int,
                ).spec_inputs().subrange(
                    seq_min(
                        old(self).inner.guests_finalized_observations.observed_counts_for(
                            player_num.spec_as_u8() as int,
                        ),
                    ),
                    final(self).buffers.spec_buffer(
                        player_num.spec_as_u8() as int,
                    ).spec_inputs().len() as int,
                )
            },
    {
        proof {
            lemma_wf_buffer(self.buffers, 0);
            lemma_wf_buffer(self.buffers, player_num.spec_as_u8() as int);
        }
        let own_len = self.buffers.get_num_inputs(self.own_player_num);
        let target_num_final_inputs: u32 = if self.is_player_disconnected(player_num) {
            own_len
        } else {
            if own_len > self.inner.max_guest_ticks_behind {
                own_len - self.inner.max_guest_ticks_behind
            } else {
                0
            }
        };
        let peer_num_final_inputs = self.buffers.get_num_finalized_inputs(player_num);
        if peer_num_final_inputs < target_num_final_inputs {
            self.buffers.append_final_default_inputs_to_target(
                player_num,
                target_num_final_inputs,
            );
            let start = self.inner.guests_finalized_observations.get_earliest_num_observed_final_for_peer(
                player_num,
            );
            proof {
                crate::host_observations::lemma_earliest_observed_le_bound(
                    self.inner.guests_finalized_observations,
                    player_num.spec_as_u8() as int,
                    old(self).buffers.spec_buffer(
                        player_num.spec_as_u8() as int,
                    ).spec_inputs().len() as int,
                );
            }
            let slice = self.buffers.get_slice_to_end_for_peer(player_num, start);
            MsgPayload::HostFinalizedSlice(
                HostFinalizedSlice { player_num, host_tick: own_len, inputs: slice },
            )
        } else {
            MsgPayload::Empty
        }
    }

    /// The smoothed round trip to every guest with an observed RTT, in
    /// player order, in milliseconds.
    pub fn rtts_by_player(&self) -> (r: Vec<(u8, u32)>)
        requires
            self.wf(),
        ensures
            r@ == spec_rtt_list(self.inner.rtts@, self.inner.rtts@.len() as int),
    {
        proof {
            lemma_num_players_bound(self.buffers);
        }
        let mut r: Vec<(u8, u32)> = Vec::new();
        let mut g: usize = 0;
        while g < self.inner.rtts.len()
            invariant
                self.wf(),
                g <= self.inner.rtts@.len(),
                self.inner.rtts@.len() <= 254,
                r@ == spec_rtt_list(self.inner.rtts@, g as int),
            decreases self.inner.rtts@.len() - g,
        {
            match &self.inner.rtts[g] {
                Some(e) => {
                    r.push(((g + 1) as u8, e.value()));
                    proof {
                        assert(r@ =~= spec_rtt_list(self.inner.rtts@, g + 1));
                    }
                },
                None => {
                    proof {
                        assert(r@ =~= spec_rtt_list(self.inner.rtts@, g + 1));
                    }
                },
            }
            g = g + 1;
        }
        r
    }
}

} // verus!
