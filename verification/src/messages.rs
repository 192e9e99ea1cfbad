//! The messages peers exchange.
//!
//! One tagged envelope, `MsgPayload`, covers everything on the wire:
//! guest acknowledgements, host-finalized slices, raw peer inputs, the
//! pre-simulation countdown, and the three-way ping used for RTT.

use vstd::prelude::*;

use crate::input_buffer::PlayerInputSlice;
use crate::input_bytes::InputBytes;
use crate::peerwise::PeerwiseFinalizedInputsSeen;
use crate::player_num::PlayerNum;

verus! {

/// A slice of inputs finalized by the host for one player, tagged with
/// the host's own tick so that peers can estimate their lag.
///
/// The slice starts at the earliest tick for this player that every
/// guest has already acknowledged, so applying it can never leave a gap
/// in any guest's buffer. It is the same for all peers and is meant to
/// be broadcast.
#[derive(Debug, Clone, PartialEq, Eq)]
pub struct HostFinalizedSlice {
    pub player_num: PlayerNum,
    /// The host-side tick on which the host sends the finalized inputs
    /// to the peer.
    pub host_tick: u32,
    pub inputs: PlayerInputSlice,
}

impl HostFinalizedSlice {
    /// A slice filled with the sample pattern, for exercising the
    /// engine.
    pub fn new_test(player_num: PlayerNum, host_tick: u32, start: u32, num_inputs: u32) -> (r: Self)
        requires
            start + num_inputs <= u32::MAX,
        ensures
            r.player_num == player_num,
            r.host_tick == host_tick,
            r.inputs.start == start,
            r.inputs.inputs@.len() == num_inputs,
            forall|i: int|
                0 <= i < num_inputs ==> r.inputs.inputs@[i] == InputBytes::spec_from_u32(
                    (start + i) as u32,
                ),
    {
        HostFinalizedSlice { player_num, host_tick, inputs: PlayerInputSlice::new_test(start, num_inputs) }
    }
}

/// The host's pre-simulation countdown, together with the list of
/// peers in the session.
#[derive(Debug, Clone, PartialEq, Eq)]
pub struct PreSimSync {
    /// How many ticks remain until the simulation starts.
    pub host_tick_countdown: u8,
    pub peers: Vec<u32>,
}

impl Default for PreSimSync {
    fn default() -> (r: Self)
        ensures
            r.host_tick_countdown == 60,
            r.peers@ == Seq::<u32>::empty(),
    {
        PreSimSync { host_tick_countdown: 60, peers: Vec::new() }
    }
}

/// Everything a peer can put on the wire, one variant per purpose.
#[derive(Debug, Clone, PartialEq, Eq)]
pub enum MsgPayload {
    Empty,
    Invalid,
    /// Guest to host: which finalized inputs the guest has seen, for
    /// every player.
    AckFinalization(PeerwiseFinalizedInputsSeen),
    /// Host to all peers: a finalized slice for one player.
    HostFinalizedSlice(HostFinalizedSlice),
    /// Guest to host: the guest's own not-yet-acknowledged inputs.
    PeerInputs(PlayerInputSlice),
    /// Host to guest: countdown to simulation start and the peer list.
    PreSimSync(PreSimSync),
    /// Guest to host: a ping, carrying an id so the reply can be
    /// matched to it.
    GuestPing(u32),
    /// Host to guest: the reply to a `GuestPing`, same id.
    HostPong(u32),
    /// Guest to host: the reply to a `HostPong`, same id; the time from
    /// the pong to this reply measures the round trip.
    GuestPongPong(u32),
}

impl MsgPayload {
    /// The tag byte that starts this message's wire form.
    pub open spec fn spec_variant_num(self) -> u8 {
        match self {
            MsgPayload::Empty => 0,
            MsgPayload::Invalid => 1,
            MsgPayload::AckFinalization(_) => 2,
            MsgPayload::HostFinalizedSlice(_) => 3,
            MsgPayload::PeerInputs(_) => 4,
            MsgPayload::PreSimSync(_) => 5,
            MsgPayload::GuestPing(_) => 6,
            MsgPayload::HostPong(_) => 7,
            MsgPayload::GuestPongPong(_) => 8,
        }
    }

    /// The tag byte that starts this message's wire form.
    pub fn variant_num(&self) -> (r: u8)
        ensures
            r == self.spec_variant_num(),
    {
        match self {
            MsgPayload::Empty => 0,
            MsgPayload::Invalid => 1,
            MsgPayload::AckFinalization(_) => 2,
            MsgPayload::HostFinalizedSlice(_) => 3,
            MsgPayload::PeerInputs(_) => 4,
            MsgPayload::PreSimSync(_) => 5,
            MsgPayload::GuestPing(_) => 6,
            MsgPayload::HostPong(_) => 7,
            MsgPayload::GuestPongPong(_) => 8,
        }
    }

    /// True exactly for the messages a guest sends to the host in
    /// reply to host traffic.
    pub fn is_guest_reply(&self) -> (r: bool)
        ensures
            r == (self is AckFinalization || self is GuestPing || self is GuestPongPong),
    {
        match self {
            MsgPayload::AckFinalization(_) => true,
            MsgPayload::GuestPing(_) => true,
            MsgPayload::GuestPongPong(_) => true,
            MsgPayload::HostPong(_) => false,
            MsgPayload::HostFinalizedSlice(_) => false,
            MsgPayload::Empty => false,
            MsgPayload::Invalid => false,
            MsgPayload::PeerInputs(_) => false,
            MsgPayload::PreSimSync(_) => false,
        }
    }

    /// True exactly for the host replies that must be broadcast to all
    /// guests.
    pub fn is_host_reply_for_all(&self) -> (r: bool)
        ensures
            r == (self is HostFinalizedSlice),
    {
        match self {
            MsgPayload::HostFinalizedSlice(_) => true,
            MsgPayload::GuestPing(_) => false,
            MsgPayload::GuestPongPong(_) => false,
            MsgPayload::AckFinalization(_) => false,
            MsgPayload::PreSimSync(_) => false,
            MsgPayload::Empty => false,
            MsgPayload::Invalid => false,
            MsgPayload::PeerInputs(_) => false,
            MsgPayload::HostPong(_) => false,
        }
    }

    /// True exactly for the host replies addressed to one guest alone.
    pub fn is_host_reply_for_one(&self) -> (r: bool)
        ensures
            r == (self is HostPong),
    {
        match self {
            MsgPayload::HostPong(_) => true,
            MsgPayload::GuestPing(_) => false,
            MsgPayload::GuestPongPong(_) => false,
            MsgPayload::HostFinalizedSlice(_) => false,
            MsgPayload::AckFinalization(_) => false,
            MsgPayload::PreSimSync(_) => false,
            MsgPayload::Empty => false,
            MsgPayload::Invalid => false,
            MsgPayload::PeerInputs(_) => false,
        }
    }

    /// The inner slice of a `PeerInputs` message, if that is what this
    /// is.
    pub fn into_peer_inputs(self) -> (r: Result<PlayerInputSlice, ()>)
        ensures
            self matches MsgPayload::PeerInputs(s) ==> r == Ok::<PlayerInputSlice, ()>(s),
            !(self is PeerInputs) ==> r is Err,
    {
        match self {
            MsgPayload::PeerInputs(slice) => Ok(slice),
            _ => Err(()),
        }
    }

    /// The inner slice of a `HostFinalizedSlice` message, if that is
    /// what this is.
    pub fn into_host_finalized_slice(self) -> (r: Result<HostFinalizedSlice, ()>)
        ensures
            self matches MsgPayload::HostFinalizedSlice(s) ==> r == Ok::<HostFinalizedSlice, ()>(
                s,
            ),
            !(self is HostFinalizedSlice) ==> r is Err,
    {
        match self {
            MsgPayload::HostFinalizedSlice(slice) => Ok(slice),
            _ => Err(()),
        }
    }

    /// The inner observations of an `AckFinalization` message, if that
    /// is what this is.
    pub fn into_ack_finalization(self) -> (r: Result<PeerwiseFinalizedInputsSeen, ()>)
        ensures
            self matches MsgPayload::AckFinalization(a) ==> r == Ok::<
                PeerwiseFinalizedInputsSeen,
                (),
            >(a),
            !(self is AckFinalization) ==> r is Err,
    {
        match self {
            MsgPayload::AckFinalization(ack) => Ok(ack),
            _ => Err(()),
        }
    }

    /// The inner countdown of a `PreSimSync` message, if that is what
    /// this is.
    pub fn into_pre_sim_sync(self) -> (r: Result<PreSimSync, ()>)
        ensures
            self matches MsgPayload::PreSimSync(s) ==> r == Ok::<PreSimSync, ()>(s),
            !(self is PreSimSync) ==> r is Err,
    {
        match self {
            MsgPayload::PreSimSync(sync) => Ok(sync),
            _ => Err(()),
        }
    }
}

} // verus!
