//! The per-peer input manager: the buffers every peer keeps plus a
//! role-specific part (`HostInputMgr` or `GuestInputMgr`).
//!
//! The queries here are common to both roles: reading inputs, counting
//! finalized ticks, and serializing one player's buffer.

use vstd::prelude::*;

use crate::input_buffer::InputStatus;
use crate::input_buffer::PlayerInputBuffer;
use crate::input_bytes::InputBytes;
use crate::multi_buffer::MultiplayerInputBuffers;
use crate::player_num::PlayerNum;
use crate::seq_min::seq_min;
use crate::wire::DecodeError;
use crate::wire::spec_buffer_bytes;

verus! {

/// A peer's input state: the shared buffers, this peer's own player
/// number, and the role-specific coordinator.
pub struct MultiplayerInputManager<Buf> {
    pub buffers: MultiplayerInputBuffers,
    pub own_player_num: PlayerNum,
    pub inner: Buf,
}

impl<Buf> MultiplayerInputManager<Buf> {
    /// The buffers are consistent and this peer is one of the players.
    pub open spec fn base_wf(self) -> bool {
        &&& self.buffers.wf()
        &&& self.own_player_num.spec_as_u8() < self.buffers.spec_num_players()
    }

    /// This peer's own player number.
    pub fn get_own_id(&self) -> (r: u32)
        ensures
            r == self.own_player_num.spec_as_u8(),
    {
        self.own_player_num.as_u8() as u32
    }

    /// The player numbers of all peers, as raw numbers.
    pub fn get_peer_player_nums(&self) -> (r: Vec<u8>)
        requires
            self.base_wf(),
        ensures
            r@.len() == self.buffers.spec_num_players(),
            forall|i: int| 0 <= i < r@.len() ==> r@[i] == i,
    {
        let nums = self.buffers.get_peer_player_nums();
        let mut r: Vec<u8> = Vec::new();
        let mut i: usize = 0;
        while i < nums.len()
            invariant
                i <= nums@.len(),
                r@.len() == i,
                forall|j: int| 0 <= j < nums@.len() ==> nums@[j].spec_as_u8() == j,
                forall|j: int| 0 <= j < i ==> r@[j] == j,
            decreases nums@.len() - i,
        {
            r.push(nums[i].as_u8());
            i = i + 1;
        }
        r
    }

    /// The number of ticks finalized for every player at once.
    pub fn get_num_finalized_inputs_across_peers(&self) -> (r: u32)
        requires
            self.base_wf(),
        ensures
            r == seq_min(self.buffers.finalized_counts()),
            forall|id: int|
                0 <= id < self.buffers.spec_num_players() ==> r <= self.buffers.spec_buffer(
                    id,
                ).spec_finalized(),
    {
        self.buffers.get_num_finalized_inputs_across_peers()
    }

    /// The tick up to which the simulation can be advanced and
    /// snapshotted: the minimum finalized count across players.
    pub fn get_snapshottable_sim_tick(&self) -> (r: u32)
        requires
            self.base_wf(),
        ensures
            r == seq_min(self.buffers.finalized_counts()),
            forall|id: int|
                0 <= id < self.buffers.spec_num_players() ==> r <= self.buffers.spec_buffer(
                    id,
                ).spec_finalized(),
    {
        self.buffers.get_num_finalized_inputs_across_peers()
    }

    /// For every fully finalized tick, every player's input at that
    /// tick.
    pub fn get_final_inputs_by_tick(&self) -> (r: Vec<(u32, Vec<(u32, InputBytes)>)>)
        requires
            self.base_wf(),
        ensures
            r@.len() == seq_min(self.buffers.finalized_counts()),
            forall|t: int|
                0 <= t < r@.len() ==> r@[t].0 == t && r@[t].1@.len()
                    == self.buffers.spec_num_players(),
            forall|t: int, i: int|
                0 <= t < r@.len() && 0 <= i < self.buffers.spec_num_players() ==> r@[t].1@[i] == (
                    i as u32,
                    PlayerInputBuffer::spec_input_or_prediction(
                        self.buffers.spec_buffer(i).spec_inputs(),
                        t,
                        self.buffers.spec_max_predict(),
                    ),
                ),
    {
        self.buffers.final_inputs_by_tick()
    }

    /// For every player, the input and finalization flag for `tick`.
    pub fn get_inputs_and_finalization_status(&self, tick: u32) -> (r: Vec<
        (u8, InputBytes, bool),
    >)
        requires
            self.base_wf(),
        ensures
            r@.len() == self.buffers.spec_num_players(),
            forall|i: int|
                0 <= i < r@.len() ==> r@[i] == (
                    i as u8,
                    PlayerInputBuffer::spec_input_or_prediction(
                        self.buffers.spec_buffer(i).spec_inputs(),
                        tick as int,
                        self.buffers.spec_max_predict(),
                    ),
                    tick < self.buffers.spec_buffer(i).spec_finalized(),
                ),
    {
        self.buffers.get_inputs_and_finalization_status(tick)
    }

    /// For every player, the input chosen for `tick`, keyed by player
    /// number.
    pub fn get_inputs_map_for_tick(&self, tick: u32) -> (r: Vec<(u8, InputBytes)>)
        requires
            self.base_wf(),
        ensures
            r@.len() == self.buffers.spec_num_players(),
            forall|i: int|
                0 <= i < r@.len() ==> r@[i] == (
                    i as u8,
                    PlayerInputBuffer::spec_input_or_prediction(
                        self.buffers.spec_buffer(i).spec_inputs(),
                        tick as int,
                        self.buffers.spec_max_predict(),
                    ),
                ),
    {
        self.buffers.get_inputs_map_for_tick(tick)
    }

    /// The input to use for one player at one tick, predicting when
    /// nothing is stored.
    pub fn get_peer_input_for_tick(&self, player_num: PlayerNum, tick: u32) -> (r: InputBytes)
        requires
            self.base_wf(),
            player_num.spec_as_u8() < self.buffers.spec_num_players(),
        ensures
            r == PlayerInputBuffer::spec_input_or_prediction(
                self.buffers.spec_buffer(player_num.spec_as_u8() as int).spec_inputs(),
                tick as int,
                self.buffers.spec_max_predict(),
            ),
    {
        self.buffers.get_input_or_prediction(player_num, tick)
    }

    /// How many inputs one player's buffer holds, finalized or not.
    pub fn get_peer_num_inputs(&self, player_num: PlayerNum) -> (r: u32)
        requires
            self.base_wf(),
            player_num.spec_as_u8() < self.buffers.spec_num_players(),
        ensures
            r == self.buffers.spec_buffer(player_num.spec_as_u8() as int).spec_inputs().len(),
    {
        self.buffers.get_num_inputs(player_num)
    }

    /// How many inputs of one player are finalized.
    pub fn get_peer_num_final_inputs(&self, player_num: PlayerNum) -> (r: u32)
        requires
            self.base_wf(),
            player_num.spec_as_u8() < self.buffers.spec_num_players(),
        ensures
            r == self.buffers.spec_buffer(player_num.spec_as_u8() as int).spec_finalized(),
    {
        self.buffers.get_num_finalized_inputs(player_num)
    }

    /// How many inputs this peer has collected for itself; the local
    /// tick is exactly this count.
    pub fn get_own_num_inputs(&self) -> (r: u32)
        requires
            self.base_wf(),
        ensures
            r == self.buffers.spec_buffer(
                self.own_player_num.spec_as_u8() as int,
            ).spec_inputs().len(),
    {
        self.buffers.get_num_inputs(self.own_player_num)
    }

    /// For every player, the status of the entry for `input_num`.
    pub fn get_input_statuses(&self, input_num: u32) -> (r: Vec<(PlayerNum, InputStatus)>)
        requires
            self.base_wf(),
        ensures
            r@.len() == self.buffers.spec_num_players(),
            forall|i: int|
                0 <= i < r@.len() ==> r@[i].0.spec_as_u8() == i && r@[i].1 == (if input_num
                    < self.buffers.spec_buffer(i).spec_finalized() {
                    InputStatus::Finalized
                } else if input_num < self.buffers.spec_buffer(i).spec_inputs().len() {
                    InputStatus::NonFinal
                } else {
                    InputStatus::NotReceived
                }),
    {
        self.buffers.get_input_statuses(input_num)
    }

    /// Serialize one player's buffer, optionally with its finalized
    /// count reset to zero (useful for replay recordings).
    pub fn serialize_player_buffer(&self, player_num: PlayerNum, reset_finalization: bool) -> (r:
        Vec<u8>)
        requires
            self.base_wf(),
            player_num.spec_as_u8() < self.buffers.spec_num_players(),
        ensures
            r@ == spec_buffer_bytes(
                if reset_finalization {
                    0u32
                } else {
                    self.buffers.spec_buffer(player_num.spec_as_u8() as int).spec_finalized() as u32
                },
                self.buffers.spec_buffer(player_num.spec_as_u8() as int).spec_inputs(),
            ),
    {
        self.buffers.serialize_player_buffer(player_num, reset_finalization)
    }

    /// Replace one player's buffer with a deserialized one; malformed
    /// bytes are rejected and change nothing.
    pub fn deserialize_player_buffer(&mut self, player_num: PlayerNum, data: &[u8]) -> (r: Result<
        (),
        DecodeError,
    >)
        requires
            old(self).base_wf(),
            player_num.spec_as_u8() < old(self).buffers.spec_num_players(),
        ensures
            final(self).base_wf(),
            final(self).own_player_num == old(self).own_player_num,
            final(self).inner == old(self).inner,
            final(self).buffers.spec_num_players() == old(self).buffers.spec_num_players(),
            final(self).buffers.spec_max_predict() == old(self).buffers.spec_max_predict(),
            forall|q: int|
                0 <= q < old(self).buffers.spec_num_players() && q != player_num.spec_as_u8()
                    ==> final(self).buffers.spec_buffer(q) == old(self).buffers.spec_buffer(q),
            r is Err ==> *final(self) == *old(self),
            forall|f: u32, v: Seq<InputBytes>|
                f <= v.len() <= u32::MAX && spec_buffer_bytes(f, v) == data@ ==> (r is Ok && final(
                    self).buffers.spec_buffer(player_num.spec_as_u8() as int).spec_finalized() == f
                    && final(self).buffers.spec_buffer(
                    player_num.spec_as_u8() as int,
                ).spec_inputs() == v),
    {
        self.buffers.deserialize_player_buffer(player_num, data)
    }
}

} // verus!
