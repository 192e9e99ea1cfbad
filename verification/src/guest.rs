//! The guest coordinator: local input collection, pacing against the
//! host's tick, pinging for RTT, and receipt of host-finalized slices.

use vstd::prelude::*;

use crate::ewma::Ewma;
use crate::input_buffer::PlayerInputBuffer;
use crate::input_bytes::InputBytes;
use crate::manager::MultiplayerInputManager;
use crate::messages::MsgPayload;
use crate::multi_buffer::MultiplayerInputBuffers;
use crate::ping_times::PingSendTimes;
use crate::player_num::PlayerNum;

verus! {

/// When lagging, collect at most this many inputs per step to catch
/// up.
pub const DEFAULT_MAX_CATCHUP_INPUTS: u32 = 5;

/// The guest-only part of a peer: the last host tick heard of, the
/// smoothed round trip to the host, outstanding pings, and the
/// simulation rate.
pub struct GuestInputMgr {
    /// The most recent host tick this guest has heard of; negative
    /// during the pre-simulation countdown, and the smallest
    /// representable value before any contact.
    pub host_tick: i32,
    /// The smoothed round trip to the host in milliseconds, once one
    /// has been observed.
    pub rtt_ms_to_host: Option<Ewma>,
    /// The pings sent and not yet answered.
    pub pings: PingSendTimes,
    /// The simulation rate in ticks per second.
    pub ticks_per_sec: u32,
}

impl GuestInputMgr {
    pub fn new(ticks_per_sec: u32) -> (r: Self)
        ensures
            r.host_tick == i32::MIN,
            r.rtt_ms_to_host is None,
            r.pings.wf(),
            r.pings.spec_next_ping_id() == 0,
            forall|id: u32| r.pings.spec_get(id) is None,
            r.ticks_per_sec == ticks_per_sec,
    {
        GuestInputMgr {
            host_tick: i32::MIN,
            rtt_ms_to_host: None,
            ticks_per_sec,
            pings: PingSendTimes::new(),
        }
    }
}

/// How many inputs the guest should collect this step. With no RTT
/// yet, exactly one. Otherwise the guest aims at the host's tick plus
/// half a round trip, measured in ticks scaled by 2000: within one
/// tick of the target it collects one; more than one tick ahead it
/// stalls; behind, it collects the whole-tick lag, capped at
/// `DEFAULT_MAX_CATCHUP_INPUTS`.
pub open spec fn spec_inputs_needed(
    rtt_known: bool,
    rtt_ms: int,
    ticks_per_sec: int,
    host_tick: int,
    own_len: int,
) -> int {
    if !rtt_known {
        1
    } else {
        let behind_x2000 = (host_tick - own_len) * 2000 + rtt_ms * ticks_per_sec;
        if -2000 < behind_x2000 < 2000 {
            1
        } else if behind_x2000 <= -2000 {
            0
        } else {
            vstd::math::min(behind_x2000 / 2000, DEFAULT_MAX_CATCHUP_INPUTS as int)
        }
    }
}

impl MultiplayerInputManager<GuestInputMgr> {
    /// The guest's whole state is consistent.
    pub open spec fn wf(self) -> bool {
        &&& self.base_wf()
        &&& self.inner.pings.wf()
        &&& (self.inner.rtt_ms_to_host matches Some(e) ==> e.wf())
    }

    pub fn new(num_players: u8, own_player_num: PlayerNum, ticks_per_sec: u32) -> (r: Self)
        requires
            own_player_num.spec_as_u8() < num_players,
        ensures
            r.wf(),
            r.buffers.spec_num_players() == num_players,
            r.buffers.spec_max_predict() == DEFAULT_MAX_CATCHUP_INPUTS,
            forall|id: int|
                0 <= id < num_players ==> r.buffers.spec_buffer(id).spec_inputs() == Seq::<
                    InputBytes,
                >::empty() && r.buffers.spec_buffer(id).spec_finalized() == 0,
            r.own_player_num == own_player_num,
            r.inner.host_tick == i32::MIN,
            r.inner.rtt_ms_to_host is None,
            r.inner.ticks_per_sec == ticks_per_sec,
            forall|id: u32| r.inner.pings.spec_get(id) is None,
    {
        MultiplayerInputManager {
            buffers: MultiplayerInputBuffers::new(num_players, DEFAULT_MAX_CATCHUP_INPUTS),
            inner: GuestInputMgr::new(ticks_per_sec),
            own_player_num,
        }
    }

    /// How many of this guest's own inputs the host has finalized and
    /// announced back; the guest's view of the host's acknowledgement.
    pub fn num_final_inputs_seen_by_host(&self) -> (r: u32)
        requires
            self.base_wf(),
        ensures
            r == self.buffers.spec_buffer(
                self.own_player_num.spec_as_u8() as int,
            ).spec_finalized(),
    {
        self.buffers.get_num_finalized_inputs(self.own_player_num)
    }

    /// Fold one round-trip sample (in milliseconds) into the average;
    /// the first sample starts the average at its own value.
    pub fn observe_rtt_ms_to_host(&mut self, rtt: u32)
        requires
            old(self).wf(),
        ensures
            final(self).wf(),
            final(self).buffers == old(self).buffers,
            final(self).own_player_num == old(self).own_player_num,
            final(self).inner.host_tick == old(self).inner.host_tick,
            final(self).inner.pings == old(self).inner.pings,
            final(self).inner.ticks_per_sec == old(self).inner.ticks_per_sec,
            old(self).inner.rtt_ms_to_host is None ==> (final(self).inner.rtt_ms_to_host
                matches Some(e) && e.spec_value() == rtt),
            old(self).inner.rtt_ms_to_host matches Some(e0) ==> (final(self).inner.rtt_ms_to_host
                matches Some(e) && e.spec_value() == e0.spec_observed(rtt)),
    {
        match &mut self.inner.rtt_ms_to_host {
            Some(e) => {
                e.observe(rtt);
            },
            None => {
                let e = Ewma::default();
                self.inner.rtt_ms_to_host = Some(e.with_value(rtt));
            },
        }
    }

    /// The smoothed round trip to the host in milliseconds, if one has
    /// been observed yet.
    pub fn get_rtt_ms_to_host(&self) -> (r: Option<u32>)
        ensures
            self.inner.rtt_ms_to_host is None ==> r is None,
            self.inner.rtt_ms_to_host matches Some(e) ==> r == Some(e.spec_value()),
    {
        match &self.inner.rtt_ms_to_host {
            Some(e) => Some(e.value()),
            None => None,
        }
    }

    /// How many inputs to collect this step, paced against the host.
    pub fn num_inputs_needed(&self) -> (r: u32)
        requires
            self.wf(),
        ensures
            r == spec_inputs_needed(
                self.inner.rtt_ms_to_host is Some,
                (if self.inner.rtt_ms_to_host is Some {
                    self.inner.rtt_ms_to_host.unwrap().spec_value() as int
                } else {
                    0
                }),
                self.inner.ticks_per_sec as int,
                self.inner.host_tick as int,
                self.buffers.spec_buffer(
                    self.own_player_num.spec_as_u8() as int,
                ).spec_inputs().len() as int,
            ),
    {
        let rtt_ms = match &self.inner.rtt_ms_to_host {
            Some(e) => e.value(),
            None => {
                return 1;
            },
        };
        let host_tick = self.inner.host_tick;
        let own_len = self.buffers.get_num_inputs(self.own_player_num);
        proof {
            assert((rtt_ms as int) * (self.inner.ticks_per_sec as int) <= 0xffff_ffff
                * 0xffff_ffff) by (nonlinear_arith)
                requires
                    rtt_ms <= 0xffff_ffff,
                    self.inner.ticks_per_sec <= 0xffff_ffff,
            ;
        }
        let behind_x2000: i128 = ((host_tick as i128) - (own_len as i128)) * 2000
            + (rtt_ms as i128) * (self.inner.ticks_per_sec as i128);
        if -2000 < behind_x2000 && behind_x2000 < 2000 {
            1
        } else if behind_x2000 <= -2000 {
            0
        } else {
            let whole = behind_x2000 / 2000;
            if whole >= DEFAULT_MAX_CATCHUP_INPUTS as i128 {
                DEFAULT_MAX_CATCHUP_INPUTS
            } else {
                whole as u32
            }
        }
    }

    /// Append one locally collected input to this guest's own buffer.
    pub fn add_own_input(&mut self, input: InputBytes)
        requires
            old(self).wf(),
            old(self).buffers.spec_buffer(
                old(self).own_player_num.spec_as_u8() as int,
            ).spec_inputs().len() < u32::MAX,
        ensures
            final(self).wf(),
            final(self).own_player_num == old(self).own_player_num,
            final(self).inner == old(self).inner,
            final(self).buffers.spec_num_players() == old(self).buffers.spec_num_players(),
            final(self).buffers.spec_max_predict() == old(self).buffers.spec_max_predict(),
            forall|q: int|
                0 <= q < old(self).buffers.spec_num_players() && q != old(
                    self).own_player_num.spec_as_u8() ==> final(self).buffers.spec_buffer(q) == old(
                    self).buffers.spec_buffer(q),
            final(self).buffers.spec_buffer(
                old(self).own_player_num.spec_as_u8() as int,
            ).spec_inputs() == old(self).buffers.spec_buffer(
                old(self).own_player_num.spec_as_u8() as int,
            ).spec_inputs().push(input),
            final(self).buffers.spec_buffer(
                old(self).own_player_num.spec_as_u8() as int,
            ).spec_finalized() == old(self).buffers.spec_buffer(
                old(self).own_player_num.spec_as_u8() as int,
            ).spec_finalized(),
    {
        let own = self.own_player_num;
        self.buffers.append_input(own, input);
    }

    /// The guest's unacknowledged inputs, ready to send to the host:
    /// everything from the host's last acknowledgement to the end of
    /// the guest's own buffer.
    pub fn get_msg_own_input_slice(&self) -> (r: MsgPayload)
        requires
            self.wf(),
        ensures
            r matches MsgPayload::PeerInputs(s) && s.start == self.buffers.spec_buffer(
                self.own_player_num.spec_as_u8() as int,
            ).spec_finalized() && s.inputs@ == self.buffers.spec_buffer(
                self.own_player_num.spec_as_u8() as int,
            ).spec_inputs().subrange(
                self.buffers.spec_buffer(
                    self.own_player_num.spec_as_u8() as int,
                ).spec_finalized(),
                self.buffers.spec_buffer(
                    self.own_player_num.spec_as_u8() as int,
                ).spec_inputs().len() as int,
            ),
    {
        proof {
            crate::multi_buffer::lemma_wf_buffer(
                self.buffers,
                self.own_player_num.spec_as_u8() as int,
            );
        }
        let slice_start = self.num_final_inputs_seen_by_host();
        let slice = self.buffers.get_slice_to_end_for_peer(self.own_player_num, slice_start);
        MsgPayload::PeerInputs(slice)
    }

    /// Store a slice of tentative inputs received directly from a
    /// peer; any other message is ignored.
    pub fn rx_peer_input_slice(&mut self, player_num: PlayerNum, msg: MsgPayload)
        requires
            old(self).wf(),
            player_num.spec_as_u8() < old(self).buffers.spec_num_players(),
            msg matches MsgPayload::PeerInputs(s) ==> s.wf() && old(self).buffers.spec_buffer(
                player_num.spec_as_u8() as int,
            ).spec_inputs().len() + s.inputs@.len() <= u32::MAX,
        ensures
            final(self).wf(),
            final(self).own_player_num == old(self).own_player_num,
            final(self).inner == old(self).inner,
            final(self).buffers.spec_num_players() == old(self).buffers.spec_num_players(),
            final(self).buffers.spec_max_predict() == old(self).buffers.spec_max_predict(),
            forall|q: int|
                0 <= q < old(self).buffers.spec_num_players() && q != player_num.spec_as_u8()
                    ==> final(self).buffers.spec_buffer(q) == old(self).buffers.spec_buffer(q),
            msg matches MsgPayload::PeerInputs(s) ==> PlayerInputBuffer::receive_peer_post(
                old(self).buffers.spec_buffer(player_num.spec_as_u8() as int),
                final(self).buffers.spec_buffer(player_num.spec_as_u8() as int),
                s,
            ),
            !(msg is PeerInputs) ==> *final(self) == *old(self),
    {
        match msg {
            MsgPayload::PeerInputs(slice) => {
                self.buffers.receive_peer_input_slice(slice, player_num);
            },
            _ => {},
        }
    }

    /// Apply a host-finalized slice: remember the newest host tick seen
    /// and extend the named player's finalized prefix. Any other
    /// message is ignored.
    pub fn rx_final_peer_input_slice_from_host(&mut self, msg: MsgPayload)
        requires
            old(self).wf(),
            msg matches MsgPayload::HostFinalizedSlice(h) ==> {
                &&& h.player_num.spec_as_u8() < old(self).buffers.spec_num_players()
                &&& h.inputs.wf()
                &&& h.host_tick <= i32::MAX
                &&& old(self).buffers.spec_buffer(
                    h.player_num.spec_as_u8() as int,
                ).spec_inputs().len() + h.inputs.inputs@.len() <= u32::MAX
            },
        ensures
            final(self).wf(),
            final(self).own_player_num == old(self).own_player_num,
            final(self).inner.rtt_ms_to_host == old(self).inner.rtt_ms_to_host,
            final(self).inner.pings == old(self).inner.pings,
            final(self).inner.ticks_per_sec == old(self).inner.ticks_per_sec,
            msg matches MsgPayload::HostFinalizedSlice(h) ==> {
                &&& final(self).inner.host_tick == vstd::math::max(
                    old(self).inner.host_tick as int,
                    h.host_tick as int,
                )
                &&& final(self).buffers.spec_num_players() == old(
                    self).buffers.spec_num_players()
                &&& final(self).buffers.spec_max_predict() == old(self).buffers.spec_max_predict()
                &&& forall|q: int|
                    0 <= q < old(self).buffers.spec_num_players() && q != h.player_num.spec_as_u8()
                        ==> final(self).buffers.spec_buffer(q) == old(self).buffers.spec_buffer(q)
                &&& PlayerInputBuffer::receive_finalized_post(
                    old(self).buffers.spec_buffer(h.player_num.spec_as_u8() as int),
                    final(self).buffers.spec_buffer(h.player_num.spec_as_u8() as int),
                    h.inputs,
                )
            },
            !(msg is HostFinalizedSlice) ==> *final(self) == *old(self),
    {
        match msg {
            MsgPayload::HostFinalizedSlice(h) => {
                if (h.host_tick as i32) > self.inner.host_tick {
                    self.inner.host_tick = h.host_tick as i32;
                }
                self.buffers.receive_finalized_input_slice_for_player(h.inputs, h.player_num);
            },
            _ => {},
        }
    }

    /// Start the pre-simulation countdown: the host tick becomes the
    /// negated countdown and climbs toward zero as it elapses. Any
    /// other message is ignored.
    pub fn rx_pre_sim_sync(&mut self, msg: MsgPayload)
        requires
            old(self).wf(),
        ensures
            final(self).wf(),
            final(self).buffers == old(self).buffers,
            final(self).own_player_num == old(self).own_player_num,
            final(self).inner.rtt_ms_to_host == old(self).inner.rtt_ms_to_host,
            final(self).inner.pings == old(self).inner.pings,
            final(self).inner.ticks_per_sec == old(self).inner.ticks_per_sec,
            msg matches MsgPayload::PreSimSync(p) ==> final(self).inner.host_tick == -(
            p.host_tick_countdown as int),
            !(msg is PreSimSync) ==> *final(self) == *old(self),
    {
        match msg {
            MsgPayload::PreSimSync(p) => {
                self.inner.host_tick = -(p.host_tick_countdown as i32);
            },
            _ => {},
        }
    }

    /// Handle the host's pong: observe the elapsed time since the
    /// matching ping as an RTT sample and answer with a pong-pong so
    /// the host can measure too.
    pub fn rx_host_pong_and_reply(&mut self, msg: MsgPayload, now_ms: u64) -> (r: MsgPayload)
        requires
            old(self).wf(),
            msg matches MsgPayload::HostPong(id) && old(self).inner.pings.spec_get(id) is Some,
        ensures
            final(self).wf(),
            final(self).buffers == old(self).buffers,
            final(self).own_player_num == old(self).own_player_num,
            final(self).inner.host_tick == old(self).inner.host_tick,
            final(self).inner.ticks_per_sec == old(self).inner.ticks_per_sec,
            msg matches MsgPayload::HostPong(id) ==> {
                &&& r == MsgPayload::GuestPongPong(id)
                &&& final(self).inner.pings.spec_get(id) is None
                &&& forall|other: u32|
                    other != id ==> final(self).inner.pings.spec_get(other) == old(
                        self).inner.pings.spec_get(other)
                &&& final(self).inner.pings.spec_next_ping_id() == old(
                    self).inner.pings.spec_next_ping_id()
                &&& {
                    let sent = old(self).inner.pings.spec_get(id).unwrap();
                    let sample = if now_ms >= sent && now_ms - sent <= u32::MAX {
                        (now_ms - sent) as u32
                    } else if now_ms >= sent {
                        u32::MAX
                    } else {
                        0u32
                    };
                    if old(self).inner.rtt_ms_to_host is None {
                        final(self).inner.rtt_ms_to_host matches Some(e) && e.spec_value()
                            == sample
                    } else {
                        final(self).inner.rtt_ms_to_host matches Some(e) && e.spec_value() == old(
                            self).inner.rtt_ms_to_host.unwrap().spec_observed(sample)
                    }
                }
            },
    {
        let id = match msg {
            MsgPayload::HostPong(id) => id,
            _ => {
                proof {
                    assert(false);
                }
                0
            },
        };
        let sent = match self.inner.pings.take(id) {
            Some(t) => t,
            None => {
                proof {
                    assert(false);
                }
                0
            },
        };
        let sample: u32 = if now_ms >= sent {
            let d = now_ms - sent;
            if d <= u32::MAX as u64 {
                d as u32
            } else {
                u32::MAX
            }
        } else {
            0
        };
        self.observe_rtt_ms_to_host(sample);
        MsgPayload::GuestPongPong(id)
    }

    /// The acknowledgement guests send after applying finalized
    /// slices: this guest's own finalized observations of every player.
    pub fn get_msg_ack_finalization(&self) -> (r: MsgPayload)
        requires
            self.wf(),
        ensures
            r matches MsgPayload::AckFinalization(a) && a.spec_len()
                == self.buffers.spec_num_players() && (forall|id: int|
                0 <= id < self.buffers.spec_num_players() ==> a.spec_count(id)
                    == self.buffers.spec_buffer(id).spec_finalized()) && (forall|id: int|
                id >= self.buffers.spec_num_players() ==> a.spec_count(id) == 0),
    {
        let finalized_ticks = self.buffers.get_peerwise_finalized_inputs();
        MsgPayload::AckFinalization(finalized_ticks)
    }

    /// A fresh ping to the host, carrying the next id; the send time
    /// is remembered so the pong can be matched.
    pub fn get_msg_guest_ping(&mut self, now_ms: u64) -> (r: MsgPayload)
        requires
            old(self).wf(),
            old(self).inner.pings.spec_next_ping_id() < u32::MAX,
        ensures
            final(self).wf(),
            final(self).buffers == old(self).buffers,
            final(self).own_player_num == old(self).own_player_num,
            final(self).inner.host_tick == old(self).inner.host_tick,
            final(self).inner.rtt_ms_to_host == old(self).inner.rtt_ms_to_host,
            final(self).inner.ticks_per_sec == old(self).inner.ticks_per_sec,
            r == MsgPayload::GuestPing(old(self).inner.pings.spec_next_ping_id()),
            final(self).inner.pings.spec_next_ping_id() == old(
                self).inner.pings.spec_next_ping_id() + 1,
            final(self).inner.pings.spec_get(old(self).inner.pings.spec_next_ping_id()) == Some(
                now_ms,
            ),
            forall|other: u32|
                other != old(self).inner.pings.spec_next_ping_id() ==> final(
                    self).inner.pings.spec_get(other) == old(self).inner.pings.spec_get(other),
    {
        let ping_id = self.inner.pings.send_next_ping(now_ms);
        MsgPayload::GuestPing(ping_id)
    }

    /// Move the remembered host tick forward to `host_tick` if that is
    /// newer.
    pub fn test_advance_host_tick(&mut self, host_tick: i32)
        requires
            old(self).wf(),
        ensures
            final(self).wf(),
            final(self).buffers == old(self).buffers,
            final(self).own_player_num == old(self).own_player_num,
            final(self).inner.host_tick == vstd::math::max(
                old(self).inner.host_tick as int,
                host_tick as int,
            ),
            final(self).inner.rtt_ms_to_host == old(self).inner.rtt_ms_to_host,
            final(self).inner.pings == old(self).inner.pings,
            final(self).inner.ticks_per_sec == old(self).inner.ticks_per_sec,
    {
        if host_tick > self.inner.host_tick {
            self.inner.host_tick = host_tick;
        }
    }
}

} // verus!
