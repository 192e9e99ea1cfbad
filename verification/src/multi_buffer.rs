//! One input buffer per player, with the cross-player queries a peer
//! needs: per-player reads and writes, the snapshottable tick, and the
//! peer's own finalized observations.

use vstd::prelude::*;

use crate::input_buffer::InputStatus;
use crate::input_buffer::PlayerInputBuffer;
use crate::input_buffer::PlayerInputSlice;
use crate::input_bytes::InputBytes;
use crate::peerwise::PeerwiseFinalizedInputsSeen;
use crate::player_num::PlayerNum;
use crate::seq_min::lemma_seq_min_le;
use crate::wire::DecodeError;
use crate::wire::decode_player_buffer;
use crate::wire::encode_player_buffer;
use crate::wire::spec_buffer_bytes;
use crate::seq_min::lemma_seq_min_unique;
use crate::seq_min::lemma_seq_min_witness;
use crate::seq_min::seq_min;

verus! {

/// `num_players` independent player input buffers plus the prediction
/// horizon used when a tick has no stored input.
#[derive(Debug, Clone)]
pub struct MultiplayerInputBuffers {
    max_inputs_to_predict: u32,
    num_players: u8,
    buffers: Vec<PlayerInputBuffer>,
}

impl MultiplayerInputBuffers {
    /// The fixed number of players.
    pub closed spec fn spec_num_players(self) -> int {
        self.num_players as int
    }

    /// The prediction horizon for ticks with no stored input.
    pub closed spec fn spec_max_predict(self) -> int {
        self.max_inputs_to_predict as int
    }

    /// The buffer of the player with number `id`.
    pub closed spec fn spec_buffer(self, id: int) -> PlayerInputBuffer {
        self.buffers@[id]
    }

    /// One buffer per player, each internally consistent.
    pub closed spec fn wf(self) -> bool {
        &&& self.buffers@.len() == self.num_players as int
        &&& forall|id: int| 0 <= id < self.num_players ==> self.buffers@[id].wf()
    }

    /// The per-player finalized counts, player 0 first.
    pub open spec fn finalized_counts(self) -> Seq<int> {
        Seq::new(
            self.spec_num_players() as nat,
            |id: int| self.spec_buffer(id).spec_finalized(),
        )
    }

    /// Buffers holding no inputs yet, one per player.
    pub fn new(num_players: u8, max_inputs_to_predict: u32) -> (r: Self)
        ensures
            r.wf(),
            r.spec_num_players() == num_players,
            r.spec_max_predict() == max_inputs_to_predict,
            forall|id: int|
                0 <= id < num_players ==> r.spec_buffer(id).spec_inputs() == Seq::<
                    InputBytes,
                >::empty() && r.spec_buffer(id).spec_finalized() == 0,
    {
        let mut buffers: Vec<PlayerInputBuffer> = Vec::new();
        let mut i: u8 = 0;
        while i < num_players
            invariant
                i <= num_players,
                buffers@.len() == i,
                forall|id: int|
                    0 <= id < i ==> buffers@[id].wf() && buffers@[id].spec_inputs() == Seq::<
                        InputBytes,
                    >::empty() && buffers@[id].spec_finalized() == 0,
            decreases num_players - i,
        {
            buffers.push(PlayerInputBuffer::new());
            i = i + 1;
        }
        MultiplayerInputBuffers { max_inputs_to_predict, num_players, buffers }
    }

    /// The player numbers of all peers, in order.
    pub fn get_peer_player_nums(&self) -> (r: Vec<PlayerNum>)
        ensures
            r@.len() == self.spec_num_players(),
            forall|i: int| 0 <= i < r@.len() ==> r@[i].spec_as_u8() == i,
    {
        let mut r: Vec<PlayerNum> = Vec::new();
        let mut i: u8 = 0;
        while i < self.num_players
            invariant
                i <= self.num_players,
                r@.len() == i,
                forall|j: int| 0 <= j < i ==> r@[j].spec_as_u8() == j,
            decreases self.num_players - i,
        {
            r.push(PlayerNum::from_u8(i));
            i = i + 1;
        }
        r
    }

    /// Append a tentative input to one player's buffer.
    pub fn append_input(&mut self, player_num: PlayerNum, input: InputBytes)
        requires
            old(self).wf(),
            player_num.spec_as_u8() < old(self).spec_num_players(),
            old(self).spec_buffer(player_num.spec_as_u8() as int).spec_inputs().len() < u32::MAX,
        ensures
            final(self).wf(),
            final(self).spec_num_players() == old(self).spec_num_players(),
            final(self).spec_max_predict() == old(self).spec_max_predict(),
            forall|q: int|
                0 <= q < old(self).spec_num_players() && q != player_num.spec_as_u8() ==> final(
                    self).spec_buffer(q) == old(self).spec_buffer(q),
            final(self).spec_buffer(player_num.spec_as_u8() as int).spec_inputs() == old(
                self,
            ).spec_buffer(player_num.spec_as_u8() as int).spec_inputs().push(input),
            final(self).spec_buffer(player_num.spec_as_u8() as int).spec_finalized() == old(
                self,
            ).spec_buffer(player_num.spec_as_u8() as int).spec_finalized(),
    {
        let idx = player_num.as_u8() as usize;
        let buf = &mut self.buffers[idx];
        buf.append_input(input);
    }

    /// Append a finalized input to one player's buffer; used by the
    /// host for its own inputs, which finalize in strict order.
    pub fn append_input_finalized(&mut self, player_num: PlayerNum, input: InputBytes)
        requires
            old(self).wf(),
            player_num.spec_as_u8() < old(self).spec_num_players(),
            old(self).spec_buffer(player_num.spec_as_u8() as int).spec_finalized() == old(
                self,
            ).spec_buffer(player_num.spec_as_u8() as int).spec_inputs().len(),
            old(self).spec_buffer(player_num.spec_as_u8() as int).spec_inputs().len() < u32::MAX,
        ensures
            final(self).wf(),
            final(self).spec_num_players() == old(self).spec_num_players(),
            final(self).spec_max_predict() == old(self).spec_max_predict(),
            forall|q: int|
                0 <= q < old(self).spec_num_players() && q != player_num.spec_as_u8() ==> final(
                    self).spec_buffer(q) == old(self).spec_buffer(q),
            final(self).spec_buffer(player_num.spec_as_u8() as int).spec_inputs() == old(
                self,
            ).spec_buffer(player_num.spec_as_u8() as int).spec_inputs().push(input),
            final(self).spec_buffer(player_num.spec_as_u8() as int).spec_finalized() == old(
                self,
            ).spec_buffer(player_num.spec_as_u8() as int).spec_finalized() + 1,
    {
        let idx = player_num.as_u8() as usize;
        let buf = &mut self.buffers[idx];
        buf.host_append_finalized(input);
    }

    /// Append `count` finalized copies of one input to one player's
    /// buffer; used by the host to fill its own slot.
    pub fn append_finalized_copies(&mut self, player_num: PlayerNum, input: InputBytes, count: u32)
        requires
            old(self).wf(),
            player_num.spec_as_u8() < old(self).spec_num_players(),
            old(self).spec_buffer(player_num.spec_as_u8() as int).spec_finalized() == old(
                self).spec_buffer(player_num.spec_as_u8() as int).spec_inputs().len(),
            old(self).spec_buffer(player_num.spec_as_u8() as int).spec_inputs().len() + count
                <= u32::MAX,
        ensures
            final(self).wf(),
            final(self).spec_num_players() == old(self).spec_num_players(),
            final(self).spec_max_predict() == old(self).spec_max_predict(),
            forall|q: int|
                0 <= q < old(self).spec_num_players() && q != player_num.spec_as_u8() ==> final(
                    self).spec_buffer(q) == old(self).spec_buffer(q),
            final(self).spec_buffer(player_num.spec_as_u8() as int).spec_inputs().len() == old(
                self).spec_buffer(player_num.spec_as_u8() as int).spec_inputs().len() + count,
            final(self).spec_buffer(player_num.spec_as_u8() as int).spec_finalized() == old(
                self).spec_buffer(player_num.spec_as_u8() as int).spec_finalized() + count,
            final(self).spec_buffer(player_num.spec_as_u8() as int).spec_inputs().subrange(
                0,
                old(self).spec_buffer(player_num.spec_as_u8() as int).spec_inputs().len() as int,
            ) == old(self).spec_buffer(player_num.spec_as_u8() as int).spec_inputs(),
            forall|p: int|
                old(self).spec_buffer(player_num.spec_as_u8() as int).spec_inputs().len() <= p
                    < final(self).spec_buffer(player_num.spec_as_u8() as int).spec_inputs().len()
                    ==> final(self).spec_buffer(player_num.spec_as_u8() as int).spec_inputs()[p]
                    == input,
    {
        let idx = player_num.as_u8() as usize;
        let buf = &mut self.buffers[idx];
        buf.append_finalized_copies(input, count);
    }

    /// A copy of one player's inputs from `start` to the end of that
    /// player's log.
    pub fn get_slice_to_end_for_peer(&self, player_num: PlayerNum, start: u32) -> (r:
        PlayerInputSlice)
        requires
            self.wf(),
            player_num.spec_as_u8() < self.spec_num_players(),
            start <= self.spec_buffer(player_num.spec_as_u8() as int).spec_inputs().len(),
        ensures
            r.start == start,
            r.inputs@ == self.spec_buffer(player_num.spec_as_u8() as int).spec_inputs().subrange(
                start as int,
                self.spec_buffer(player_num.spec_as_u8() as int).spec_inputs().len() as int,
            ),
            r.wf(),
    {
        self.buffers[player_num.as_u8() as usize].slice_from(start)
    }

    /// The input to use for one player at one tick, predicting when
    /// nothing is stored.
    pub fn get_input_or_prediction(&self, player_num: PlayerNum, tick: u32) -> (r: InputBytes)
        requires
            self.wf(),
            player_num.spec_as_u8() < self.spec_num_players(),
        ensures
            r == PlayerInputBuffer::spec_input_or_prediction(
                self.spec_buffer(player_num.spec_as_u8() as int).spec_inputs(),
                tick as int,
                self.spec_max_predict(),
            ),
    {
        self.buffers[player_num.as_u8() as usize].get_input_or_prediction(
            tick,
            self.max_inputs_to_predict,
        )
    }

    /// How many inputs one player's buffer holds, finalized or not.
    pub fn get_num_inputs(&self, player_num: PlayerNum) -> (r: u32)
        requires
            self.wf(),
            player_num.spec_as_u8() < self.spec_num_players(),
        ensures
            r == self.spec_buffer(player_num.spec_as_u8() as int).spec_inputs().len(),
    {
        self.buffers[player_num.as_u8() as usize].num_inputs_collected()
    }

    /// How many inputs of one player are finalized.
    pub fn get_num_finalized_inputs(&self, player_num: PlayerNum) -> (r: u32)
        requires
            self.wf(),
            player_num.spec_as_u8() < self.spec_num_players(),
        ensures
            r == self.spec_buffer(player_num.spec_as_u8() as int).spec_finalized(),
    {
        self.buffers[player_num.as_u8() as usize].finalized_inputs()
    }

    /// The finalized count of every player, player 0 first.
    pub fn get_num_finalized_inputs_per_peer(&self) -> (r: Vec<u32>)
        requires
            self.wf(),
        ensures
            r@.len() == self.spec_num_players(),
            forall|id: int|
                0 <= id < r@.len() ==> r@[id] == self.spec_buffer(id).spec_finalized(),
    {
        let mut r: Vec<u32> = Vec::new();
        let mut i: usize = 0;
        while i < self.buffers.len()
            invariant
                self.wf(),
                self.buffers@.len() == self.spec_num_players(),
                i <= self.buffers@.len(),
                r@.len() == i,
                forall|id: int| 0 <= id < i ==> r@[id] == self.spec_buffer(id).spec_finalized(),
            decreases self.buffers@.len() - i,
        {
            r.push(self.buffers[i].finalized_inputs());
            i = i + 1;
        }
        r
    }

    /// The stored length of every player's buffer, player 0 first.
    pub fn buffer_len_per_player(&self) -> (r: Vec<u32>)
        requires
            self.wf(),
        ensures
            r@.len() == self.spec_num_players(),
            forall|id: int|
                0 <= id < r@.len() ==> r@[id] == self.spec_buffer(id).spec_inputs().len(),
    {
        let mut r: Vec<u32> = Vec::new();
        let mut i: usize = 0;
        while i < self.buffers.len()
            invariant
                self.wf(),
                self.buffers@.len() == self.spec_num_players(),
                i <= self.buffers@.len(),
                r@.len() == i,
                forall|id: int|
                    0 <= id < i ==> r@[id] == self.spec_buffer(id).spec_inputs().len(),
            decreases self.buffers@.len() - i,
        {
            r.push(self.buffers[i].num_inputs_collected());
            i = i + 1;
        }
        r
    }

    /// Store a tentative peer slice in one player's buffer.
    pub fn receive_peer_input_slice(&mut self, slice: PlayerInputSlice, player_num: PlayerNum)
        requires
            old(self).wf(),
            slice.wf(),
            player_num.spec_as_u8() < old(self).spec_num_players(),
            old(self).spec_buffer(player_num.spec_as_u8() as int).spec_inputs().len()
                + slice.inputs@.len() <= u32::MAX,
        ensures
            final(self).wf(),
            final(self).spec_num_players() == old(self).spec_num_players(),
            final(self).spec_max_predict() == old(self).spec_max_predict(),
            forall|q: int|
                0 <= q < old(self).spec_num_players() && q != player_num.spec_as_u8() ==> final(
                    self).spec_buffer(q) == old(self).spec_buffer(q),
            PlayerInputBuffer::receive_peer_post(
                old(self).spec_buffer(player_num.spec_as_u8() as int),
                final(self).spec_buffer(player_num.spec_as_u8() as int),
                slice,
            ),
    {
        let idx = player_num.as_u8() as usize;
        let buf = &mut self.buffers[idx];
        buf.receive_peer_input_slice(slice);
    }

    /// Apply a finalized slice to one player's buffer.
    pub fn receive_finalized_input_slice_for_player(
        &mut self,
        slice: PlayerInputSlice,
        player_num: PlayerNum,
    )
        requires
            old(self).wf(),
            slice.wf(),
            player_num.spec_as_u8() < old(self).spec_num_players(),
            old(self).spec_buffer(player_num.spec_as_u8() as int).spec_inputs().len()
                + slice.inputs@.len() <= u32::MAX,
        ensures
            final(self).wf(),
            final(self).spec_num_players() == old(self).spec_num_players(),
            final(self).spec_max_predict() == old(self).spec_max_predict(),
            forall|q: int|
                0 <= q < old(self).spec_num_players() && q != player_num.spec_as_u8() ==> final(
                    self).spec_buffer(q) == old(self).spec_buffer(q),
            PlayerInputBuffer::receive_finalized_post(
                old(self).spec_buffer(player_num.spec_as_u8() as int),
                final(self).spec_buffer(player_num.spec_as_u8() as int),
                slice,
            ),
    {
        let idx = player_num.as_u8() as usize;
        let buf = &mut self.buffers[idx];
        buf.receive_finalized_input_slice(slice);
    }

    /// Finalize default inputs for one player through `target_num`.
    pub fn append_final_default_inputs_to_target(&mut self, player_num: PlayerNum, target_num: u32)
        requires
            old(self).wf(),
            player_num.spec_as_u8() < old(self).spec_num_players(),
            target_num < u32::MAX,
        ensures
            final(self).wf(),
            final(self).spec_num_players() == old(self).spec_num_players(),
            final(self).spec_max_predict() == old(self).spec_max_predict(),
            forall|q: int|
                0 <= q < old(self).spec_num_players() && q != player_num.spec_as_u8() ==> final(
                    self).spec_buffer(q) == old(self).spec_buffer(q),
            PlayerInputBuffer::append_defaults_post(
                old(self).spec_buffer(player_num.spec_as_u8() as int),
                final(self).spec_buffer(player_num.spec_as_u8() as int),
                target_num as int,
            ),
    {
        let idx = player_num.as_u8() as usize;
        let buf = &mut self.buffers[idx];
        buf.host_append_final_default_inputs_to_target(target_num);
    }

    /// This peer's own finalized observations: for every player, how
    /// many of that player's inputs are finalized here.
    pub fn get_peerwise_finalized_inputs(&self) -> (r: PeerwiseFinalizedInputsSeen)
        requires
            self.wf(),
        ensures
            r.spec_len() == self.spec_num_players(),
            forall|id: int|
                0 <= id < self.spec_num_players() ==> r.spec_count(id) == self.spec_buffer(
                    id,
                ).spec_finalized(),
            forall|id: int| id >= self.spec_num_players() ==> r.spec_count(id) == 0,
    {
        let counts = self.get_num_finalized_inputs_per_peer();
        PeerwiseFinalizedInputsSeen::new_from_observed(self.num_players, &counts)
    }

    /// The number of ticks finalized for every player at once: the
    /// minimum finalized count across players. The simulation can be
    /// advanced and snapshotted exactly this far.
    pub fn get_num_finalized_inputs_across_peers(&self) -> (r: u32)
        requires
            self.wf(),
        ensures
            r == seq_min(self.finalized_counts()),
            forall|id: int|
                0 <= id < self.spec_num_players() ==> r <= self.spec_buffer(id).spec_finalized(),
    {
        if self.buffers.len() == 0 {
            return 0;
        }
        let mut m: u32 = self.buffers[0].finalized_inputs();
        proof {
            assert(m == self.buffers@[0].spec_finalized());
        }
        let mut i: usize = 1;
        while i < self.buffers.len()
            invariant
                self.wf(),
                self.buffers@.len() == self.spec_num_players(),
                1 <= i <= self.buffers@.len(),
                forall|id: int| 0 <= id < i ==> m <= self.buffers@[id].spec_finalized(),
                exists|id: int| 0 <= id < i && m == self.buffers@[id].spec_finalized(),
            decreases self.buffers@.len() - i,
        {
            let c = self.buffers[i].finalized_inputs();
            proof {
                assert(c == self.buffers@[i as int].spec_finalized());
            }
            if c < m {
                m = c;
                proof {
                    assert(m == self.buffers@[i as int].spec_finalized());
                }
            }
            i = i + 1;
        }
        proof {
            let s = self.finalized_counts();
            assert(forall|id: int|
                0 <= id < s.len() ==> s[id] == self.buffers@[id].spec_finalized());
            let w = choose|id: int|
                0 <= id < self.spec_num_players() && m == self.buffers@[id].spec_finalized();
            assert(s[w] == m);
            lemma_seq_min_unique(s, m as int);
        }
        m
    }

    /// For every player, the input for `tick` (predicted when absent)
    /// and whether that player's entry for `tick` is finalized, player
    /// 0 first.
    pub fn get_inputs_and_finalization_status(&self, tick: u32) -> (r: Vec<(u8, InputBytes, bool)>)
        requires
            self.wf(),
        ensures
            r@.len() == self.spec_num_players(),
            forall|i: int|
                0 <= i < r@.len() ==> r@[i] == (
                    i as u8,
                    PlayerInputBuffer::spec_input_or_prediction(
                        self.spec_buffer(i).spec_inputs(),
                        tick as int,
                        self.spec_max_predict(),
                    ),
                    tick < self.spec_buffer(i).spec_finalized(),
                ),
    {
        let mut r: Vec<(u8, InputBytes, bool)> = Vec::new();
        let mut i: usize = 0;
        while i < self.buffers.len()
            invariant
                self.wf(),
                self.buffers@.len() == self.spec_num_players(),
                self.spec_num_players() <= u8::MAX + 1,
                i <= self.buffers@.len(),
                r@.len() == i,
                forall|j: int|
                    0 <= j < i ==> r@[j] == (
                        j as u8,
                        PlayerInputBuffer::spec_input_or_prediction(
                            self.spec_buffer(j).spec_inputs(),
                            tick as int,
                            self.spec_max_predict(),
                        ),
                        tick < self.spec_buffer(j).spec_finalized(),
                    ),
            decreases self.buffers@.len() - i,
        {
            let input = self.buffers[i].get_input_or_prediction(tick, self.max_inputs_to_predict);
            let is_final = self.buffers[i].is_finalized(tick);
            r.push((i as u8, input, is_final));
            i = i + 1;
        }
        r
    }

    /// For every player, the input chosen for `tick`, keyed by player
    /// number, player 0 first.
    pub fn get_inputs_map_for_tick(&self, tick: u32) -> (r: Vec<(u8, InputBytes)>)
        requires
            self.wf(),
        ensures
            r@.len() == self.spec_num_players(),
            forall|i: int|
                0 <= i < r@.len() ==> r@[i] == (
                    i as u8,
                    PlayerInputBuffer::spec_input_or_prediction(
                        self.spec_buffer(i).spec_inputs(),
                        tick as int,
                        self.spec_max_predict(),
                    ),
                ),
    {
        let mut r: Vec<(u8, InputBytes)> = Vec::new();
        let mut i: usize = 0;
        while i < self.buffers.len()
            invariant
                self.wf(),
                self.buffers@.len() == self.spec_num_players(),
                self.spec_num_players() <= u8::MAX + 1,
                i <= self.buffers@.len(),
                r@.len() == i,
                forall|j: int|
                    0 <= j < i ==> r@[j] == (
                        j as u8,
                        PlayerInputBuffer::spec_input_or_prediction(
                            self.spec_buffer(j).spec_inputs(),
                            tick as int,
                            self.spec_max_predict(),
                        ),
                    ),
            decreases self.buffers@.len() - i,
        {
            let input = self.buffers[i].get_input_or_prediction(tick, self.max_inputs_to_predict);
            r.push((i as u8, input));
            i = i + 1;
        }
        r
    }

    /// For every player, the status of the entry for `input_num`,
    /// player 0 first.
    pub fn get_input_statuses(&self, input_num: u32) -> (r: Vec<(PlayerNum, InputStatus)>)
        requires
            self.wf(),
        ensures
            r@.len() == self.spec_num_players(),
            forall|i: int|
                0 <= i < r@.len() ==> r@[i].0.spec_as_u8() == i && r@[i].1 == (if input_num
                    < self.spec_buffer(i).spec_finalized() {
                    InputStatus::Finalized
                } else if input_num < self.spec_buffer(i).spec_inputs().len() {
                    InputStatus::NonFinal
                } else {
                    InputStatus::NotReceived
                }),
    {
        let mut r: Vec<(PlayerNum, InputStatus)> = Vec::new();
        let mut i: usize = 0;
        while i < self.buffers.len()
            invariant
                self.wf(),
                self.buffers@.len() == self.spec_num_players(),
                self.spec_num_players() <= u8::MAX + 1,
                i <= self.buffers@.len(),
                r@.len() == i,
                forall|j: int|
                    0 <= j < i ==> r@[j].0.spec_as_u8() == j && r@[j].1 == (if input_num
                        < self.spec_buffer(j).spec_finalized() {
                        InputStatus::Finalized
                    } else if input_num < self.spec_buffer(j).spec_inputs().len() {
                        InputStatus::NonFinal
                    } else {
                        InputStatus::NotReceived
                    }),
            decreases self.buffers@.len() - i,
        {
            let status = self.buffers[i].get_input_status(input_num);
            r.push((PlayerNum::from_u8(i as u8), status));
            i = i + 1;
        }
        r
    }

    /// For every fully finalized tick, the inputs of all players at
    /// that tick, keyed by player number: one entry per tick from 0 up
    /// to (excluding) the snapshottable tick.
    pub fn final_inputs_by_tick(&self) -> (r: Vec<(u32, Vec<(u32, InputBytes)>)>)
        requires
            self.wf(),
        ensures
            r@.len() == seq_min(self.finalized_counts()),
            forall|t: int|
                0 <= t < r@.len() ==> r@[t].0 == t && r@[t].1@.len() == self.spec_num_players(),
            forall|t: int, i: int|
                0 <= t < r@.len() && 0 <= i < self.spec_num_players() ==> r@[t].1@[i] == (
                    i as u32,
                    PlayerInputBuffer::spec_input_or_prediction(
                        self.spec_buffer(i).spec_inputs(),
                        t,
                        self.spec_max_predict(),
                    ),
                ),
    {
        let n = self.get_num_finalized_inputs_across_peers();
        let mut r: Vec<(u32, Vec<(u32, InputBytes)>)> = Vec::new();
        let mut tick: u32 = 0;
        while tick < n
            invariant
                self.wf(),
                n == seq_min(self.finalized_counts()),
                tick <= n,
                r@.len() == tick,
                forall|t: int|
                    0 <= t < tick ==> r@[t].0 == t && r@[t].1@.len() == self.spec_num_players(),
                forall|t: int, i: int|
                    0 <= t < tick && 0 <= i < self.spec_num_players() ==> r@[t].1@[i] == (
                        i as u32,
                        PlayerInputBuffer::spec_input_or_prediction(
                            self.spec_buffer(i).spec_inputs(),
                            t,
                            self.spec_max_predict(),
                        ),
                    ),
            decreases n - tick,
        {
            let mut inputs: Vec<(u32, InputBytes)> = Vec::new();
            let mut i: usize = 0;
            while i < self.buffers.len()
                invariant
                    self.wf(),
                    self.buffers@.len() == self.spec_num_players(),
                    i <= self.buffers@.len(),
                    inputs@.len() == i,
                    forall|j: int|
                        0 <= j < i ==> inputs@[j] == (
                            j as u32,
                            PlayerInputBuffer::spec_input_or_prediction(
                                self.spec_buffer(j).spec_inputs(),
                                tick as int,
                                self.spec_max_predict(),
                            ),
                        ),
                decreases self.buffers@.len() - i,
            {
                let input = self.buffers[i].get_input_or_prediction(
                    tick,
                    self.max_inputs_to_predict,
                );
                inputs.push((i as u32, input));
                i = i + 1;
            }
            r.push((tick, inputs));
            tick = tick + 1;
        }
        r
    }
}

impl Default for MultiplayerInputBuffers {
    /// Four players with a prediction horizon of eight ticks.
    fn default() -> (r: Self)
        ensures
            r.wf(),
            r.spec_num_players() == 4,
            r.spec_max_predict() == 8,
            forall|id: int|
                0 <= id < 4 ==> r.spec_buffer(id).spec_inputs() == Seq::<InputBytes>::empty()
                    && r.spec_buffer(id).spec_finalized() == 0,
    {
        MultiplayerInputBuffers::new(4, 8)
    }
}

impl MultiplayerInputBuffers {
    /// Serialize one player's buffer. With `reset_finalization` the
    /// serialized copy reports zero finalized inputs, which keeps the
    /// inputs but drops the finalization state, as replay recordings
    /// want.
    pub fn serialize_player_buffer(&self, player_num: PlayerNum, reset_finalization: bool) -> (r:
        Vec<u8>)
        requires
            self.wf(),
            player_num.spec_as_u8() < self.spec_num_players(),
        ensures
            r@ == spec_buffer_bytes(
                if reset_finalization {
                    0u32
                } else {
                    self.spec_buffer(player_num.spec_as_u8() as int).spec_finalized() as u32
                },
                self.spec_buffer(player_num.spec_as_u8() as int).spec_inputs(),
            ),
    {
        let buf = &self.buffers[player_num.as_u8() as usize];
        let inputs = buf.inputs_cloned();
        let finalized = if reset_finalization {
            0
        } else {
            buf.finalized_inputs()
        };
        encode_player_buffer(finalized, &inputs)
    }

    /// Replace one player's buffer with a deserialized one. Malformed
    /// bytes, including a finalized count past the stored entries, are
    /// rejected and leave every buffer unchanged.
    pub fn deserialize_player_buffer(&mut self, player_num: PlayerNum, data: &[u8]) -> (r: Result<
        (),
        DecodeError,
    >)
        requires
            old(self).wf(),
            player_num.spec_as_u8() < old(self).spec_num_players(),
        ensures
            final(self).wf(),
            final(self).spec_num_players() == old(self).spec_num_players(),
            final(self).spec_max_predict() == old(self).spec_max_predict(),
            forall|q: int|
                0 <= q < old(self).spec_num_players() && q != player_num.spec_as_u8() ==> final(
                    self).spec_buffer(q) == old(self).spec_buffer(q),
            r is Err ==> *final(self) == *old(self),
            forall|f: u32, v: Seq<InputBytes>|
                f <= v.len() <= u32::MAX && spec_buffer_bytes(f, v) == data@ ==> (r is Ok && final(
                    self).spec_buffer(player_num.spec_as_u8() as int).spec_finalized() == f && final(
                    self).spec_buffer(player_num.spec_as_u8() as int).spec_inputs() == v),
            r is Ok ==> data@ == spec_buffer_bytes(
                final(self).spec_buffer(player_num.spec_as_u8() as int).spec_finalized() as u32,
                final(self).spec_buffer(player_num.spec_as_u8() as int).spec_inputs(),
            ),
    {
        match decode_player_buffer(data) {
            Ok((finalized, inputs)) => {
                match PlayerInputBuffer::from_parts(finalized, inputs) {
                    Ok(buf) => {
                        self.buffers.set(player_num.as_u8() as usize, buf);
                        Ok(())
                    },
                    Err(_) => Err(DecodeError),
                }
            },
            Err(e) => Err(e),
        }
    }
}

/// There are never more players than a player number can name.
pub proof fn lemma_num_players_bound(b: MultiplayerInputBuffers)
    ensures
        0 <= b.spec_num_players() <= 255,
{
}

/// A consistent set of buffers has a consistent buffer for every
/// player.
pub proof fn lemma_wf_buffer(b: MultiplayerInputBuffers, id: int)
    requires
        b.wf(),
        0 <= id < b.spec_num_players(),
    ensures
        b.spec_buffer(id).wf(),
{
}

/// The snapshottable tick never moves backwards: when no player's
/// finalized count shrinks between two states, the minimum across
/// players cannot shrink either.
pub proof fn lemma_snapshottable_monotone(b1: MultiplayerInputBuffers, b2: MultiplayerInputBuffers)
    requires
        b1.spec_num_players() == b2.spec_num_players(),
        forall|id: int|
            0 <= id < b1.spec_num_players() ==> b1.spec_buffer(id).spec_finalized() <= b2.spec_buffer(
                id,
            ).spec_finalized(),
        forall|id: int|
            0 <= id < b1.spec_num_players() ==> b1.spec_buffer(id).spec_finalized() >= 0,
    ensures
        seq_min(b1.finalized_counts()) <= seq_min(b2.finalized_counts()),
{
    let s1 = b1.finalized_counts();
    let s2 = b2.finalized_counts();
    if s2.len() > 0 {
        lemma_seq_min_witness(s2);
        let w = choose|i: int| 0 <= i < s2.len() && seq_min(s2) == s2[i];
        lemma_seq_min_le(s1, w);
    }
}

} // verus!
