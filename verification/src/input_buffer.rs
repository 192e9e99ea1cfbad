//! Per-player ordered input log with a monotonically advancing
//! finalized prefix.
//!
//! The buffer is an append-only sequence of `InputBytes` together with
//! a count `finalized_inputs` of leading entries that are authoritative.
//! Finalized entries are never overwritten, the finalized prefix never
//! shrinks, and finalization never leaves a gap.

use vstd::prelude::*;

use crate::input_bytes::InputBytes;

verus! {

/// The status of the inputs for a given tick.
#[derive(Debug, Clone, Copy, PartialEq, Eq, Structural)]
pub enum InputStatus {
    /// Received from a peer and finalized by the host.
    Finalized,
    /// Received from a peer, but not yet finalized.
    NonFinal,
    /// Not yet received from a peer.
    NotReceived,
}

/// A run of consecutive per-tick inputs for one player, covering ticks
/// `start`, `start + 1`, ... in order.
#[derive(Debug, Clone, PartialEq, Eq)]
pub struct PlayerInputSlice {
    pub start: u32,
    pub inputs: Vec<InputBytes>,
}

impl PlayerInputSlice {
    /// Every tick the slice covers fits in a `u32`.
    pub open spec fn wf(self) -> bool {
        self.start + self.inputs@.len() <= u32::MAX
    }

    pub fn len(&self) -> (r: u32)
        requires
            self.wf(),
        ensures
            r == self.inputs@.len(),
    {
        self.inputs.len() as u32
    }

    /// The last tick this slice covers.
    pub fn max_tick(&self) -> (r: u32)
        requires
            self.wf(),
            self.start + self.inputs@.len() >= 1,
        ensures
            r == self.start + self.inputs@.len() - 1,
    {
        self.start + self.inputs.len() as u32 - 1
    }

    /// A slice whose entry for tick `t` carries the sample pattern for `t`.
    pub fn new_test(start: u32, num_inputs: u32) -> (r: Self)
        requires
            start + num_inputs <= u32::MAX,
        ensures
            r.start == start,
            r.inputs@.len() == num_inputs,
            forall|i: int|
                0 <= i < num_inputs ==> r.inputs@[i] == InputBytes::spec_from_u32(
                    (start + i) as u32,
                ),
            r.wf(),
    {
        let mut inputs: Vec<InputBytes> = Vec::new();
        let mut k: u32 = 0;
        while k < num_inputs
            invariant
                k <= num_inputs,
                start + num_inputs <= u32::MAX,
                inputs@.len() == k,
                forall|i: int|
                    0 <= i < k ==> inputs@[i] == InputBytes::spec_from_u32((start + i) as u32),
            decreases num_inputs - k,
        {
            inputs.push(InputBytes::from_u32(start + k));
            k = k + 1;
        }
        PlayerInputSlice { start, inputs }
    }
}

/// One player's input log: `inputs` holds one entry per tick, and the
/// first `finalized_inputs` of them are authoritative.
#[derive(Debug, Clone)]
pub struct PlayerInputBuffer {
    finalized_inputs: u32,
    inputs: Vec<InputBytes>,
}

impl PlayerInputBuffer {
    /// The stored per-tick inputs, finalized prefix first.
    pub closed spec fn spec_inputs(self) -> Seq<InputBytes> {
        self.inputs@
    }

    /// How many leading entries are finalized.
    pub closed spec fn spec_finalized(self) -> int {
        self.finalized_inputs as int
    }

    /// The finalized prefix never runs past the stored entries, and the
    /// log stays countable in ticks.
    pub open spec fn wf(self) -> bool {
        0 <= self.spec_finalized() <= self.spec_inputs().len() <= u32::MAX
    }

    pub fn new() -> (r: Self)
        ensures
            r.wf(),
            r.spec_inputs() == Seq::<InputBytes>::empty(),
            r.spec_finalized() == 0,
    {
        PlayerInputBuffer { finalized_inputs: 0, inputs: Vec::new() }
    }

    pub fn is_finalized(&self, tick: u32) -> (r: bool)
        ensures
            r == (tick < self.spec_finalized()),
    {
        tick < self.finalized_inputs
    }

    pub fn num_inputs_collected(&self) -> (r: u32)
        requires
            self.wf(),
        ensures
            r == self.spec_inputs().len(),
    {
        self.inputs.len() as u32
    }

    pub fn finalized_inputs(&self) -> (r: u32)
        ensures
            r == self.spec_finalized(),
    {
        self.finalized_inputs
    }

    /// The stored entry for a tick, for inspection.
    pub fn input_at(&self, tick: u32) -> (r: InputBytes)
        requires
            self.wf(),
            tick < self.spec_inputs().len(),
        ensures
            r == self.spec_inputs()[tick as int],
    {
        self.inputs[tick as usize]
    }

    /// Rebuild a buffer from its two parts; the finalized count must
    /// not run past the entries.
    pub fn from_parts(finalized_inputs: u32, inputs: Vec<InputBytes>) -> (r: Result<Self, ()>)
        requires
            inputs@.len() <= u32::MAX,
        ensures
            finalized_inputs <= inputs@.len() ==> (r matches Ok(b) && b.wf() && b.spec_finalized()
                == finalized_inputs && b.spec_inputs() == inputs@),
            finalized_inputs > inputs@.len() ==> r is Err,
    {
        if (finalized_inputs as usize) <= inputs.len() {
            Ok(PlayerInputBuffer { finalized_inputs, inputs })
        } else {
            Err(())
        }
    }

    /// A copy of all stored entries, in tick order.
    pub fn inputs_cloned(&self) -> (r: Vec<InputBytes>)
        requires
            self.wf(),
        ensures
            r@ == self.spec_inputs(),
    {
        let mut r: Vec<InputBytes> = Vec::new();
        let mut i: usize = 0;
        while i < self.inputs.len()
            invariant
                i <= self.inputs@.len(),
                r@ == self.inputs@.subrange(0, i as int),
            decreases self.inputs@.len() - i,
        {
            r.push(self.inputs[i]);
            proof {
                assert(r@ =~= self.inputs@.subrange(0, i + 1));
            }
            i = i + 1;
        }
        proof {
            assert(self.inputs@.subrange(0, self.inputs@.len() as int) =~= self.inputs@);
        }
        r
    }

    /// Append a tentative input at the end; finalization is untouched.
    pub fn append_input(&mut self, input: InputBytes)
        requires
            old(self).wf(),
            old(self).spec_inputs().len() < u32::MAX,
        ensures
            final(self).wf(),
            final(self).spec_inputs() == old(self).spec_inputs().push(input),
            final(self).spec_finalized() == old(self).spec_finalized(),
    {
        self.inputs.push(input);
    }

    /// The host appends a finalized input to its own buffer. The host
    /// finalizes in strict order, so its own buffer holds no tentative
    /// tail: every entry is finalized.
    pub fn host_append_finalized(&mut self, input: InputBytes)
        requires
            old(self).wf(),
            old(self).spec_finalized() == old(self).spec_inputs().len(),
            old(self).spec_inputs().len() < u32::MAX,
        ensures
            final(self).wf(),
            final(self).spec_inputs() == old(self).spec_inputs().push(input),
            final(self).spec_finalized() == old(self).spec_finalized() + 1,
    {
        self.inputs.push(input);
        self.finalized_inputs = self.finalized_inputs + 1;
    }

    /// Append `count` finalized copies of one input; the host's own
    /// buffer is filled this way, one copy per tick owed.
    #[verifier::loop_isolation(false)]
    pub fn append_finalized_copies(&mut self, input: InputBytes, count: u32)
        requires
            old(self).wf(),
            old(self).spec_finalized() == old(self).spec_inputs().len(),
            old(self).spec_inputs().len() + count <= u32::MAX,
        ensures
            final(self).wf(),
            final(self).spec_inputs().len() == old(self).spec_inputs().len() + count,
            final(self).spec_finalized() == old(self).spec_finalized() + count,
            final(self).spec_inputs().subrange(0, old(self).spec_inputs().len() as int) == old(
                self).spec_inputs(),
            forall|p: int|
                old(self).spec_inputs().len() <= p < final(self).spec_inputs().len() ==> final(
                    self).spec_inputs()[p] == input,
    {
        let ghost a0 = self.spec_inputs();
        let mut k: u32 = 0;
        while k < count
            invariant
                k <= count,
                self.inputs@.len() == a0.len() + k,
                self.finalized_inputs == a0.len() + k,
                forall|p: int| 0 <= p < a0.len() ==> self.inputs@[p] == a0[p],
                forall|p: int| a0.len() <= p < self.inputs@.len() ==> self.inputs@[p] == input,
            decreases count - k,
        {
            self.inputs.push(input);
            self.finalized_inputs = self.finalized_inputs + 1;
            k = k + 1;
        }
        proof {
            assert(self.spec_inputs().subrange(0, a0.len() as int) =~= a0);
        }
    }

    /// How a buffer changes when default inputs are finalized through
    /// `target`: nothing if `target` is already finalized; otherwise
    /// every tick from the old finalized count through `target` becomes
    /// a finalized default input, and entries beyond `target` are
    /// untouched.
    pub open spec fn append_defaults_post(
        pre: PlayerInputBuffer,
        post: PlayerInputBuffer,
        target: int,
    ) -> bool {
        &&& post.spec_finalized() >= pre.spec_finalized()
        &&& post.spec_inputs().subrange(0, pre.spec_finalized()) == pre.spec_inputs().subrange(
            0,
            pre.spec_finalized(),
        )
        &&& (pre.spec_finalized() > target ==> post == pre)
        &&& (pre.spec_finalized() <= target ==> {
            &&& post.spec_finalized() == target + 1
            &&& post.spec_inputs().len() == vstd::math::max(
                pre.spec_inputs().len() as int,
                target + 1,
            )
            &&& forall|p: int|
                pre.spec_finalized() <= p <= target ==> post.spec_inputs()[p]
                    == InputBytes::spec_default()
            &&& forall|p: int|
                target < p < pre.spec_inputs().len() ==> post.spec_inputs()[p]
                    == pre.spec_inputs()[p]
        })
    }

    /// Append-or-finalize default inputs until `target` itself is
    /// finalized, so that afterwards at least `target + 1` entries are
    /// final. Entries already finalized are never touched; a tentative
    /// entry in the covered range is replaced by the default input.
    #[verifier::loop_isolation(false)]
    pub fn host_append_final_default_inputs_to_target(&mut self, target: u32)
        requires
            old(self).wf(),
            target < u32::MAX,
        ensures
            final(self).wf(),
            Self::append_defaults_post(*old(self), *final(self), target as int),
    {
        let ghost f0 = self.spec_finalized();
        let ghost a0 = self.spec_inputs();
        if self.finalized_inputs > target {
            return ;
        }
        let mut t = self.finalized_inputs;
        while t <= target
            invariant
                f0 <= t <= target + 1,
                self.finalized_inputs == t,
                t <= self.inputs@.len() <= u32::MAX,
                self.inputs@.len() == vstd::math::max(a0.len() as int, t as int),
                forall|p: int| 0 <= p < f0 ==> self.inputs@[p] == a0[p],
                forall|p: int| f0 <= p < t ==> self.inputs@[p] == InputBytes::spec_default(),
                forall|p: int| t <= p < a0.len() ==> self.inputs@[p] == a0[p],
            decreases target + 1 - t,
        {
            let d = InputBytes { b0: 0, b1: 0, b2: 0, b3: 0 };
            if t as usize == self.inputs.len() {
                self.inputs.push(d);
            } else {
                self.inputs.set(t as usize, d);
            }
            self.finalized_inputs = t + 1;
            t = t + 1;
        }
        proof {
            assert(self.spec_inputs().subrange(0, f0) =~= a0.subrange(0, f0));
        }
    }

    /// The input that prediction chooses for `tick` from the entries in
    /// `inputs`: the stored entry when one exists; otherwise, within
    /// the `max_predict` horizon, the last stored entry carried
    /// forward; otherwise the default input.
    pub open spec fn spec_input_or_prediction(
        inputs: Seq<InputBytes>,
        tick: int,
        max_predict: int,
    ) -> InputBytes {
        if tick < inputs.len() {
            inputs[tick]
        } else if inputs.len() > 0 && tick < inputs.len() + max_predict {
            inputs[inputs.len() - 1]
        } else {
            InputBytes::spec_default()
        }
    }

    /// The input to use for `tick`: the stored entry when one exists;
    /// otherwise, within the prediction horizon, the last observed
    /// entry carried forward; otherwise the default input.
    pub fn get_input_or_prediction(&self, tick: u32, max_ticks_to_predict_locf: u32) -> (r:
        InputBytes)
        requires
            self.wf(),
        ensures
            r == Self::spec_input_or_prediction(
                self.spec_inputs(),
                tick as int,
                max_ticks_to_predict_locf as int,
            ),
    {
        let len = self.inputs.len();
        if (tick as usize) < len {
            self.inputs[tick as usize]
        } else if len > 0 && (tick as u64) < (len as u64) + (max_ticks_to_predict_locf as u64) {
            self.inputs[len - 1]
        } else {
            InputBytes::default()
        }
    }

    /// Classify the entry for `input_num`: finalized strictly below the
    /// finalized count, tentative up to the stored length, unreceived
    /// beyond it.
    pub fn get_input_status(&self, input_num: u32) -> (r: InputStatus)
        requires
            self.wf(),
        ensures
            input_num < self.spec_finalized() ==> r == InputStatus::Finalized,
            self.spec_finalized() <= input_num < self.spec_inputs().len() ==> r
                == InputStatus::NonFinal,
            input_num >= self.spec_inputs().len() ==> r == InputStatus::NotReceived,
    {
        if input_num < self.finalized_inputs {
            InputStatus::Finalized
        } else if (input_num as usize) < self.inputs.len() {
            InputStatus::NonFinal
        } else {
            InputStatus::NotReceived
        }
    }

    /// A copy of the entries for ticks `start .. end` (exclusive).
    pub fn slice(&self, start: u32, end: u32) -> (r: PlayerInputSlice)
        requires
            self.wf(),
            start <= end <= self.spec_inputs().len(),
        ensures
            r.start == start,
            r.inputs@ == self.spec_inputs().subrange(start as int, end as int),
            r.wf(),
    {
        let mut inputs: Vec<InputBytes> = Vec::new();
        let mut k = start;
        while k < end
            invariant
                start <= k <= end <= self.spec_inputs().len(),
                self.wf(),
                inputs@ == self.spec_inputs().subrange(start as int, k as int),
            decreases end - k,
        {
            inputs.push(self.inputs[k as usize]);
            proof {
                assert(inputs@ =~= self.spec_inputs().subrange(start as int, k + 1));
            }
            k = k + 1;
        }
        PlayerInputSlice { start, inputs }
    }

    /// A copy of the entries from tick `start` to the end of the log.
    pub fn slice_from(&self, start: u32) -> (r: PlayerInputSlice)
        requires
            self.wf(),
            start <= self.spec_inputs().len(),
        ensures
            r.start == start,
            r.inputs@ == self.spec_inputs().subrange(start as int, self.spec_inputs().len() as int),
            r.wf(),
    {
        let end = self.inputs.len() as u32;
        self.slice(start, end)
    }

    /// How a buffer changes when a tentative peer slice is stored:
    /// finalization and the finalized prefix are untouched; writes in
    /// range land at their tick unless finalized; writes past the end
    /// are appended.
    pub open spec fn receive_peer_post(
        pre: PlayerInputBuffer,
        post: PlayerInputBuffer,
        slice: PlayerInputSlice,
    ) -> bool {
        &&& post.spec_finalized() == pre.spec_finalized()
        &&& post.spec_inputs().subrange(0, pre.spec_finalized()) == pre.spec_inputs().subrange(
            0,
            pre.spec_finalized(),
        )
        &&& (slice.start <= pre.spec_inputs().len() ==> {
            &&& post.spec_inputs().len() == vstd::math::max(
                pre.spec_inputs().len() as int,
                slice.start + slice.inputs@.len(),
            )
            &&& forall|p: int|
                0 <= p < post.spec_inputs().len() ==> post.spec_inputs()[p] == (if pre.spec_finalized()
                    <= p && slice.start <= p < slice.start + slice.inputs@.len() {
                    slice.inputs@[p - slice.start]
                } else {
                    pre.spec_inputs()[p]
                })
        })
        &&& (slice.start > pre.spec_inputs().len() ==> post.spec_inputs() == pre.spec_inputs()
            + slice.inputs@)
    }

    /// Store a peer's tentative inputs. A write that would land on a
    /// finalized entry is dropped; a write inside the tentative tail
    /// replaces it; a write past the end is appended. Finalization is
    /// untouched.
    pub fn receive_peer_input_slice(&mut self, slice: PlayerInputSlice)
        requires
            old(self).wf(),
            slice.wf(),
            old(self).spec_inputs().len() + slice.inputs@.len() <= u32::MAX,
        ensures
            final(self).wf(),
            Self::receive_peer_post(*old(self), *final(self), slice),
    {
        let ghost f = self.spec_finalized();
        let ghost a0 = self.spec_inputs();
        let ghost s = slice.start as int;
        let n = slice.inputs.len();
        let mut offset: usize = 0;
        while offset < n
            invariant
                slice.wf(),
                n == slice.inputs@.len(),
                a0.len() + n <= u32::MAX,
                offset <= n,
                self.finalized_inputs == f,
                0 <= f <= a0.len(),
                f <= self.inputs@.len() <= u32::MAX,
                s == slice.start as int,
                s <= a0.len() ==> {
                    &&& self.inputs@.len() == vstd::math::max(a0.len() as int, s + offset)
                    &&& forall|p: int|
                        0 <= p < self.inputs@.len() ==> self.inputs@[p] == (if f <= p && s <= p < s
                            + offset {
                            slice.inputs@[p - s]
                        } else {
                            a0[p]
                        })
                },
                s > a0.len() ==> self.inputs@ == a0 + slice.inputs@.subrange(0, offset as int),
            decreases n - offset,
        {
            let t = slice.start as usize + offset;
            if t + 1 > self.finalized_inputs as usize {
                if t < self.inputs.len() {
                    self.inputs.set(t, slice.inputs[offset]);
                } else {
                    self.inputs.push(slice.inputs[offset]);
                }
            }
            proof {
                if s > a0.len() {
                    assert(self.inputs@ =~= a0 + slice.inputs@.subrange(0, offset + 1));
                }
            }
            offset = offset + 1;
        }
        proof {
            if s > a0.len() {
                assert(slice.inputs@.subrange(0, n as int) =~= slice.inputs@);
            }
            assert(self.spec_inputs().subrange(0, f) =~= a0.subrange(0, f));
        }
    }

    /// How a buffer changes when a finalized slice is applied: a slice
    /// that starts past the finalized count is dropped whole; otherwise
    /// the finalized prefix grows contiguously to the end of the slice,
    /// already-finalized entries keep their first value, and the
    /// tentative tail beyond the slice is untouched.
    pub open spec fn receive_finalized_post(
        pre: PlayerInputBuffer,
        post: PlayerInputBuffer,
        slice: PlayerInputSlice,
    ) -> bool {
        &&& post.spec_finalized() >= pre.spec_finalized()
        &&& post.spec_inputs().subrange(0, pre.spec_finalized()) == pre.spec_inputs().subrange(
            0,
            pre.spec_finalized(),
        )
        &&& (slice.start > pre.spec_finalized() ==> post == pre)
        &&& (slice.start <= pre.spec_finalized() ==> {
            &&& post.spec_finalized() == vstd::math::max(
                pre.spec_finalized(),
                slice.start + slice.inputs@.len(),
            )
            &&& post.spec_inputs().len() == vstd::math::max(
                pre.spec_inputs().len() as int,
                slice.start + slice.inputs@.len(),
            )
            &&& forall|p: int|
                pre.spec_finalized() <= p < post.spec_finalized() ==> post.spec_inputs()[p]
                    == slice.inputs@[p - slice.start]
            &&& forall|p: int|
                post.spec_finalized() <= p < pre.spec_inputs().len() ==> post.spec_inputs()[p]
                    == pre.spec_inputs()[p]
        })
    }

    /// Extend the finalized prefix with a slice the host finalized. A
    /// slice that starts past the current finalized count would leave a
    /// gap and is dropped whole; otherwise the prefix grows contiguously
    /// to the end of the slice, and entries already finalized keep their
    /// first value.
    pub fn receive_finalized_input_slice(&mut self, slice: PlayerInputSlice)
        requires
            old(self).wf(),
            slice.wf(),
            old(self).spec_inputs().len() + slice.inputs@.len() <= u32::MAX,
        ensures
            final(self).wf(),
            Self::receive_finalized_post(*old(self), *final(self), slice),
    {
        if slice.start > self.finalized_inputs {
            return ;
        }
        let ghost f0 = self.spec_finalized();
        let ghost a0 = self.spec_inputs();
        let ghost s = slice.start as int;
        let n = slice.inputs.len();
        let mut offset: usize = 0;
        while offset < n
            invariant
                slice.wf(),
                n == slice.inputs@.len(),
                a0.len() + n <= u32::MAX,
                offset <= n,
                s == slice.start as int,
                0 <= s <= f0 <= a0.len(),
                self.finalized_inputs == vstd::math::max(f0, s + offset),
                self.finalized_inputs <= self.inputs@.len() <= u32::MAX,
                self.inputs@.len() == vstd::math::max(a0.len() as int, s + offset),
                forall|p: int| 0 <= p < f0 ==> self.inputs@[p] == a0[p],
                forall|p: int|
                    f0 <= p < self.finalized_inputs ==> self.inputs@[p] == slice.inputs@[p - s],
                forall|p: int|
                    self.finalized_inputs <= p < a0.len() ==> self.inputs@[p] == a0[p],
            decreases n - offset,
        {
            let t = slice.start + offset as u32;
            if t == self.finalized_inputs {
                if t as usize == self.inputs.len() {
                    self.inputs.push(slice.inputs[offset]);
                } else {
                    self.inputs.set(t as usize, slice.inputs[offset]);
                }
                self.finalized_inputs = t + 1;
            }
            offset = offset + 1;
        }
        proof {
            assert(self.spec_inputs().subrange(0, f0) =~= a0.subrange(0, f0));
        }
    }
}

impl Default for PlayerInputBuffer {
    fn default() -> (r: Self)
        ensures
            r.wf(),
            r.spec_inputs() == Seq::<InputBytes>::empty(),
            r.spec_finalized() == 0,
    {
        PlayerInputBuffer::new()
    }
}

} // verus!
