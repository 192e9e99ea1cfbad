//! The wire form of `MsgPayload`.
//!
//! One tag byte, then the variant's body in a fixed little-endian
//! layout: `u32` values as four bytes, sequences with a `u32` count
//! first. The encoding is canonical: the bytes determine the message,
//! and decoding an encoded message gives the message back.

use vstd::prelude::*;

use crate::input_buffer::PlayerInputSlice;
use crate::input_bytes::InputBytes;
use crate::messages::HostFinalizedSlice;
use crate::messages::MsgPayload;
use crate::messages::PreSimSync;

verus! {

/// The payload was not produced by the wire encoding: short, oversized,
/// an unknown tag, or an inconsistent count.
#[derive(Debug, Clone, Copy, PartialEq, Eq, Structural)]
pub struct DecodeError;

/// The four little-endian bytes of `x`.
pub open spec fn spec_u32_le(x: u32) -> Seq<u8> {
    seq![
        (x & 0xff) as u8,
        ((x >> 8) & 0xff) as u8,
        ((x >> 16) & 0xff) as u8,
        ((x >> 24) & 0xff) as u8,
    ]
}

/// The `u32` whose little-endian bytes are `b0 b1 b2 b3`.
pub open spec fn spec_u32_from_le(b0: u8, b1: u8, b2: u8, b3: u8) -> u32 {
    (b0 as u32) | ((b1 as u32) << 8) | ((b2 as u32) << 16) | ((b3 as u32) << 24)
}

/// Reading back the four bytes of `x` gives `x`.
pub proof fn lemma_u32_le_round_trip(x: u32)
    ensures
        spec_u32_from_le(
            spec_u32_le(x)[0],
            spec_u32_le(x)[1],
            spec_u32_le(x)[2],
            spec_u32_le(x)[3],
        ) == x,
{
    assert((((x & 0xff) as u8) as u32) | (((((x >> 8) & 0xff) as u8) as u32) << 8) | (((((x >> 16)
        & 0xff) as u8) as u32) << 16) | (((((x >> 24) & 0xff) as u8) as u32) << 24) == x)
        by (bit_vector);
}

/// Writing back the `u32` read from four bytes gives the same bytes.
pub proof fn lemma_u32_le_of_from(b0: u8, b1: u8, b2: u8, b3: u8)
    ensures
        spec_u32_le(spec_u32_from_le(b0, b1, b2, b3)) == seq![b0, b1, b2, b3],
{
    let v = spec_u32_from_le(b0, b1, b2, b3);
    assert((((b0 as u32) | ((b1 as u32) << 8) | ((b2 as u32) << 16) | ((b3 as u32) << 24)) & 0xff)
        as u8 == b0) by (bit_vector);
    assert(((((b0 as u32) | ((b1 as u32) << 8) | ((b2 as u32) << 16) | ((b3 as u32) << 24)) >> 8)
        & 0xff) as u8 == b1) by (bit_vector);
    assert(((((b0 as u32) | ((b1 as u32) << 8) | ((b2 as u32) << 16) | ((b3 as u32) << 24)) >> 16)
        & 0xff) as u8 == b2) by (bit_vector);
    assert(((((b0 as u32) | ((b1 as u32) << 8) | ((b2 as u32) << 16) | ((b3 as u32) << 24)) >> 24)
        & 0xff) as u8 == b3) by (bit_vector);
    assert(spec_u32_le(v) =~= seq![b0, b1, b2, b3]);
}

/// The four bytes of one input.
pub open spec fn spec_input_le(ib: InputBytes) -> Seq<u8> {
    seq![ib.b0, ib.b1, ib.b2, ib.b3]
}

/// A run of `u32` values, four bytes each, in order.
pub open spec fn spec_u32s_le(v: Seq<u32>) -> Seq<u8>
    decreases v.len(),
{
    if v.len() == 0 {
        Seq::empty()
    } else {
        spec_u32s_le(v.drop_last()) + spec_u32_le(v.last())
    }
}

/// A run of inputs, four bytes each, in order.
pub open spec fn spec_inputs_le(v: Seq<InputBytes>) -> Seq<u8>
    decreases v.len(),
{
    if v.len() == 0 {
        Seq::empty()
    } else {
        spec_inputs_le(v.drop_last()) + spec_input_le(v.last())
    }
}

/// Encoded `u32` runs take four bytes per element.
pub proof fn lemma_u32s_le_len(v: Seq<u32>)
    ensures
        spec_u32s_le(v).len() == 4 * v.len(),
    decreases v.len(),
{
    if v.len() > 0 {
        lemma_u32s_le_len(v.drop_last());
    }
}

/// Encoded input runs take four bytes per element.
pub proof fn lemma_inputs_le_len(v: Seq<InputBytes>)
    ensures
        spec_inputs_le(v).len() == 4 * v.len(),
    decreases v.len(),
{
    if v.len() > 0 {
        lemma_inputs_le_len(v.drop_last());
    }
}

/// The window of the `i`-th element inside an encoded `u32` run.
pub proof fn lemma_u32s_le_index(v: Seq<u32>, i: int)
    requires
        0 <= i < v.len(),
    ensures
        spec_u32s_le(v).subrange(4 * i, 4 * i + 4) == spec_u32_le(v[i]),
    decreases v.len(),
{
    lemma_u32s_le_len(v);
    lemma_u32s_le_len(v.drop_last());
    if i == v.len() - 1 {
        assert(spec_u32s_le(v).subrange(4 * i, 4 * i + 4) =~= spec_u32_le(v.last()));
    } else {
        lemma_u32s_le_index(v.drop_last(), i);
        assert(spec_u32s_le(v).subrange(4 * i, 4 * i + 4) =~= spec_u32s_le(
            v.drop_last(),
        ).subrange(4 * i, 4 * i + 4));
    }
}

/// The window of the `i`-th element inside an encoded input run.
pub proof fn lemma_inputs_le_index(v: Seq<InputBytes>, i: int)
    requires
        0 <= i < v.len(),
    ensures
        spec_inputs_le(v).subrange(4 * i, 4 * i + 4) == spec_input_le(v[i]),
    decreases v.len(),
{
    lemma_inputs_le_len(v);
    lemma_inputs_le_len(v.drop_last());
    if i == v.len() - 1 {
        assert(spec_inputs_le(v).subrange(4 * i, 4 * i + 4) =~= spec_input_le(v.last()));
    } else {
        lemma_inputs_le_index(v.drop_last(), i);
        assert(spec_inputs_le(v).subrange(4 * i, 4 * i + 4) =~= spec_inputs_le(
            v.drop_last(),
        ).subrange(4 * i, 4 * i + 4));
    }
}

/// The body of a slice on the wire: start, count, then the inputs.
pub open spec fn spec_slice_le(s: PlayerInputSlice) -> Seq<u8> {
    spec_u32_le(s.start) + spec_u32_le(s.inputs@.len() as u32) + spec_inputs_le(s.inputs@)
}

/// The full wire form of a message: the tag byte, then the body.
pub open spec fn spec_encode(m: MsgPayload) -> Seq<u8> {
    match m {
        MsgPayload::Empty => seq![0u8],
        MsgPayload::Invalid => seq![1u8],
        MsgPayload::AckFinalization(a) => seq![2u8] + spec_u32_le(a.spec_counts().len() as u32)
            + spec_u32s_le(a.spec_counts()),
        MsgPayload::HostFinalizedSlice(h) => seq![3u8, h.player_num.spec_as_u8()] + spec_u32_le(
            h.host_tick,
        ) + spec_slice_le(h.inputs),
        MsgPayload::PeerInputs(s) => seq![4u8] + spec_slice_le(s),
        MsgPayload::PreSimSync(p) => seq![5u8, p.host_tick_countdown] + spec_u32_le(
            p.peers@.len() as u32,
        ) + spec_u32s_le(p.peers@),
        MsgPayload::GuestPing(id) => seq![6u8] + spec_u32_le(id),
        MsgPayload::HostPong(id) => seq![7u8] + spec_u32_le(id),
        MsgPayload::GuestPongPong(id) => seq![8u8] + spec_u32_le(id),
    }
}

/// A message whose counts fit on the wire (every sequence shorter than
/// two to the thirty-two).
pub open spec fn wire_wf(m: MsgPayload) -> bool {
    match m {
        MsgPayload::AckFinalization(a) => a.spec_counts().len() <= u32::MAX,
        MsgPayload::HostFinalizedSlice(h) => h.inputs.inputs@.len() <= u32::MAX,
        MsgPayload::PeerInputs(s) => s.inputs@.len() <= u32::MAX,
        MsgPayload::PreSimSync(p) => p.peers@.len() <= u32::MAX,
        _ => true,
    }
}

/// Two messages that agree on the wire: the same variant with the same
/// contents. In-memory values may still differ in how their vectors
/// are allocated, which the wire cannot see.
pub open spec fn msg_eqv(a: MsgPayload, b: MsgPayload) -> bool {
    match (a, b) {
        (MsgPayload::Empty, MsgPayload::Empty) => true,
        (MsgPayload::Invalid, MsgPayload::Invalid) => true,
        (MsgPayload::AckFinalization(x), MsgPayload::AckFinalization(y)) => x.spec_counts()
            == y.spec_counts(),
        (MsgPayload::HostFinalizedSlice(x), MsgPayload::HostFinalizedSlice(y)) => {
            &&& x.player_num == y.player_num
            &&& x.host_tick == y.host_tick
            &&& x.inputs.start == y.inputs.start
            &&& x.inputs.inputs@ == y.inputs.inputs@
        },
        (MsgPayload::PeerInputs(x), MsgPayload::PeerInputs(y)) => x.start == y.start && x.inputs@
            == y.inputs@,
        (MsgPayload::PreSimSync(x), MsgPayload::PreSimSync(y)) => x.host_tick_countdown
            == y.host_tick_countdown && x.peers@ == y.peers@,
        (MsgPayload::GuestPing(x), MsgPayload::GuestPing(y)) => x == y,
        (MsgPayload::HostPong(x), MsgPayload::HostPong(y)) => x == y,
        (MsgPayload::GuestPongPong(x), MsgPayload::GuestPongPong(y)) => x == y,
        _ => false,
    }
}

/// How long each message is on the wire, by variant.
pub proof fn lemma_encode_len(m: MsgPayload)
    ensures
        spec_encode(m).len() == match m {
            MsgPayload::Empty => 1int,
            MsgPayload::Invalid => 1int,
            MsgPayload::AckFinalization(a) => 5int + 4 * a.spec_counts().len(),
            MsgPayload::HostFinalizedSlice(h) => 14int + 4 * h.inputs.inputs@.len(),
            MsgPayload::PeerInputs(s) => 9int + 4 * s.inputs@.len(),
            MsgPayload::PreSimSync(p) => 6int + 4 * p.peers@.len(),
            MsgPayload::GuestPing(_) => 5int,
            MsgPayload::HostPong(_) => 5int,
            MsgPayload::GuestPongPong(_) => 5int,
        },
{
    match m {
        MsgPayload::AckFinalization(a) => {
            lemma_u32s_le_len(a.spec_counts());
        },
        MsgPayload::HostFinalizedSlice(h) => {
            lemma_inputs_le_len(h.inputs.inputs@);
        },
        MsgPayload::PeerInputs(s) => {
            lemma_inputs_le_len(s.inputs@);
        },
        MsgPayload::PreSimSync(p) => {
            lemma_u32s_le_len(p.peers@);
        },
        _ => {},
    }
}

/// The first byte of every message is its tag.
pub proof fn lemma_encode_tag(m: MsgPayload)
    ensures
        spec_encode(m).len() >= 1,
        spec_encode(m)[0] == m.spec_variant_num(),
{
    lemma_encode_len(m);
}

} // verus!
verus! {

/// Where each field of a message sits inside its wire form.
pub proof fn lemma_encode_windows(m: MsgPayload)
    requires
        wire_wf(m),
    ensures
        m matches MsgPayload::AckFinalization(a) ==> spec_encode(m).subrange(1, 5) == spec_u32_le(
            a.spec_counts().len() as u32,
        ) && spec_encode(m).subrange(5, spec_encode(m).len() as int) == spec_u32s_le(
            a.spec_counts(),
        ),
        m matches MsgPayload::HostFinalizedSlice(h) ==> spec_encode(m)[1]
            == h.player_num.spec_as_u8() && spec_encode(m).subrange(2, 6) == spec_u32_le(
            h.host_tick,
        ) && spec_encode(m).subrange(6, 10) == spec_u32_le(h.inputs.start) && spec_encode(
            m,
        ).subrange(10, 14) == spec_u32_le(h.inputs.inputs@.len() as u32) && spec_encode(
            m,
        ).subrange(14, spec_encode(m).len() as int) == spec_inputs_le(h.inputs.inputs@),
        m matches MsgPayload::PeerInputs(s) ==> spec_encode(m).subrange(1, 5) == spec_u32_le(
            s.start,
        ) && spec_encode(m).subrange(5, 9) == spec_u32_le(s.inputs@.len() as u32) && spec_encode(
            m,
        ).subrange(9, spec_encode(m).len() as int) == spec_inputs_le(s.inputs@),
        m matches MsgPayload::PreSimSync(p) ==> spec_encode(m)[1] == p.host_tick_countdown
            && spec_encode(m).subrange(2, 6) == spec_u32_le(p.peers@.len() as u32) && spec_encode(
            m,
        ).subrange(6, spec_encode(m).len() as int) == spec_u32s_le(p.peers@),
        m matches MsgPayload::GuestPing(id) ==> spec_encode(m).subrange(1, 5) == spec_u32_le(id),
        m matches MsgPayload::HostPong(id) ==> spec_encode(m).subrange(1, 5) == spec_u32_le(id),
        m matches MsgPayload::GuestPongPong(id) ==> spec_encode(m).subrange(1, 5) == spec_u32_le(
            id,
        ),
{
    lemma_encode_len(m);
    match m {
        MsgPayload::AckFinalization(a) => {
            lemma_u32s_le_len(a.spec_counts());
            assert(spec_encode(m).subrange(1, 5) =~= spec_u32_le(a.spec_counts().len() as u32));
            assert(spec_encode(m).subrange(5, spec_encode(m).len() as int) =~= spec_u32s_le(
                a.spec_counts(),
            ));
        },
        MsgPayload::HostFinalizedSlice(h) => {
            lemma_inputs_le_len(h.inputs.inputs@);
            assert(spec_encode(m).subrange(2, 6) =~= spec_u32_le(h.host_tick));
            assert(spec_encode(m).subrange(6, 10) =~= spec_u32_le(h.inputs.start));
            assert(spec_encode(m).subrange(10, 14) =~= spec_u32_le(h.inputs.inputs@.len() as u32));
            assert(spec_encode(m).subrange(14, spec_encode(m).len() as int) =~= spec_inputs_le(
                h.inputs.inputs@,
            ));
        },
        MsgPayload::PeerInputs(s) => {
            lemma_inputs_le_len(s.inputs@);
            assert(spec_encode(m).subrange(1, 5) =~= spec_u32_le(s.start));
            assert(spec_encode(m).subrange(5, 9) =~= spec_u32_le(s.inputs@.len() as u32));
            assert(spec_encode(m).subrange(9, spec_encode(m).len() as int) =~= spec_inputs_le(
                s.inputs@,
            ));
        },
        MsgPayload::PreSimSync(p) => {
            lemma_u32s_le_len(p.peers@);
            assert(spec_encode(m).subrange(2, 6) =~= spec_u32_le(p.peers@.len() as u32));
            assert(spec_encode(m).subrange(6, spec_encode(m).len() as int) =~= spec_u32s_le(
                p.peers@,
            ));
        },
        MsgPayload::GuestPing(id) => {
            assert(spec_encode(m).subrange(1, 5) =~= spec_u32_le(id));
        },
        MsgPayload::HostPong(id) => {
            assert(spec_encode(m).subrange(1, 5) =~= spec_u32_le(id));
        },
        MsgPayload::GuestPongPong(id) => {
            assert(spec_encode(m).subrange(1, 5) =~= spec_u32_le(id));
        },
        _ => {},
    }
}

/// A `u32` is determined by its four little-endian bytes.
proof fn lemma_u32_le_injective(x: u32, y: u32)
    requires
        spec_u32_le(x) == spec_u32_le(y),
    ensures
        x == y,
{
    lemma_u32_le_round_trip(x);
    lemma_u32_le_round_trip(y);
}

/// The wire form determines the message: two well-formed messages with
/// the same encoding carry the same contents.
pub proof fn lemma_encode_determines(a: MsgPayload, b: MsgPayload)
    requires
        wire_wf(a),
        wire_wf(b),
        spec_encode(a) == spec_encode(b),
    ensures
        msg_eqv(a, b),
{
    lemma_encode_tag(a);
    lemma_encode_tag(b);
    lemma_encode_len(a);
    lemma_encode_len(b);
    lemma_encode_windows(a);
    lemma_encode_windows(b);
    assert(a.spec_variant_num() == b.spec_variant_num());
    match (a, b) {
        (MsgPayload::AckFinalization(x), MsgPayload::AckFinalization(y)) => {
            let va = x.spec_counts();
            let vb = y.spec_counts();
            assert(va.len() == vb.len());
            assert(spec_u32s_le(va) == spec_u32s_le(vb));
            assert forall|i: int| 0 <= i < va.len() implies va[i] == vb[i] by {
                lemma_u32s_le_index(va, i);
                lemma_u32s_le_index(vb, i);
                lemma_u32_le_injective(va[i], vb[i]);
            }
            assert(va =~= vb);
        },
        (MsgPayload::HostFinalizedSlice(x), MsgPayload::HostFinalizedSlice(y)) => {
            crate::player_num::lemma_player_num_eq(x.player_num, y.player_num);
            lemma_u32_le_injective(x.host_tick, y.host_tick);
            lemma_u32_le_injective(x.inputs.start, y.inputs.start);
            let va = x.inputs.inputs@;
            let vb = y.inputs.inputs@;
            assert(va.len() == vb.len());
            assert(spec_inputs_le(va) == spec_inputs_le(vb));
            assert forall|i: int| 0 <= i < va.len() implies va[i] == vb[i] by {
                lemma_inputs_le_index(va, i);
                lemma_inputs_le_index(vb, i);
                assert(spec_input_le(va[i]) == spec_input_le(vb[i]));
                assert(spec_input_le(va[i])[0] == spec_input_le(vb[i])[0]);
                assert(spec_input_le(va[i])[1] == spec_input_le(vb[i])[1]);
                assert(spec_input_le(va[i])[2] == spec_input_le(vb[i])[2]);
                assert(spec_input_le(va[i])[3] == spec_input_le(vb[i])[3]);
            }
            assert(va =~= vb);
        },
        (MsgPayload::PeerInputs(x), MsgPayload::PeerInputs(y)) => {
            lemma_u32_le_injective(x.start, y.start);
            let va = x.inputs@;
            let vb = y.inputs@;
            assert(va.len() == vb.len());
            assert(spec_inputs_le(va) == spec_inputs_le(vb));
            assert forall|i: int| 0 <= i < va.len() implies va[i] == vb[i] by {
                lemma_inputs_le_index(va, i);
                lemma_inputs_le_index(vb, i);
                assert(spec_input_le(va[i]) == spec_input_le(vb[i]));
                assert(spec_input_le(va[i])[0] == spec_input_le(vb[i])[0]);
                assert(spec_input_le(va[i])[1] == spec_input_le(vb[i])[1]);
                assert(spec_input_le(va[i])[2] == spec_input_le(vb[i])[2]);
                assert(spec_input_le(va[i])[3] == spec_input_le(vb[i])[3]);
            }
            assert(va =~= vb);
        },
        (MsgPayload::PreSimSync(x), MsgPayload::PreSimSync(y)) => {
            let va = x.peers@;
            let vb = y.peers@;
            assert(va.len() == vb.len());
            assert(spec_u32s_le(va) == spec_u32s_le(vb));
            assert forall|i: int| 0 <= i < va.len() implies va[i] == vb[i] by {
                lemma_u32s_le_index(va, i);
                lemma_u32s_le_index(vb, i);
                lemma_u32_le_injective(va[i], vb[i]);
            }
            assert(va =~= vb);
        },
        (MsgPayload::GuestPing(x), MsgPayload::GuestPing(y)) => {
            lemma_u32_le_injective(x, y);
        },
        (MsgPayload::HostPong(x), MsgPayload::HostPong(y)) => {
            lemma_u32_le_injective(x, y);
        },
        (MsgPayload::GuestPongPong(x), MsgPayload::GuestPongPong(y)) => {
            lemma_u32_le_injective(x, y);
        },
        _ => {},
    }
}

} // verus!
verus! {

/// Append the four little-endian bytes of `x`.
fn push_u32_le(out: &mut Vec<u8>, x: u32)
    ensures
        final(out)@ == old(out)@ + spec_u32_le(x),
{
    let ghost before = out@;
    out.push((x & 0xff) as u8);
    out.push(((x >> 8) & 0xff) as u8);
    out.push(((x >> 16) & 0xff) as u8);
    out.push(((x >> 24) & 0xff) as u8);
    proof {
        assert(out@ =~= before + spec_u32_le(x));
    }
}

/// Append the four bytes of one input.
fn push_input_le(out: &mut Vec<u8>, ib: InputBytes)
    ensures
        final(out)@ == old(out)@ + spec_input_le(ib),
{
    let ghost before = out@;
    out.push(ib.b0);
    out.push(ib.b1);
    out.push(ib.b2);
    out.push(ib.b3);
    proof {
        assert(out@ =~= before + spec_input_le(ib));
    }
}

/// Append a run of `u32` values, four bytes each.
#[verifier::loop_isolation(false)]
fn push_u32s_le(out: &mut Vec<u8>, v: &Vec<u32>)
    ensures
        final(out)@ == old(out)@ + spec_u32s_le(v@),
{
    let ghost before = out@;
    let mut i: usize = 0;
    while i < v.len()
        invariant
            i <= v@.len(),
            out@ == before + spec_u32s_le(v@.subrange(0, i as int)),
        decreases v@.len() - i,
    {
        let ghost taken = v@.subrange(0, i as int);
        push_u32_le(out, v[i]);
        proof {
            let taken1 = v@.subrange(0, i + 1);
            assert(taken1.drop_last() =~= taken);
            assert(taken1.last() == v@[i as int]);
            assert(spec_u32s_le(taken1) == spec_u32s_le(taken) + spec_u32_le(v@[i as int]));
            assert(out@ =~= before + spec_u32s_le(taken1));
        }
        i = i + 1;
    }
    proof {
        assert(v@.subrange(0, v@.len() as int) =~= v@);
    }
}

/// Append a run of inputs, four bytes each.
#[verifier::loop_isolation(false)]
fn push_inputs_le(out: &mut Vec<u8>, v: &Vec<InputBytes>)
    ensures
        final(out)@ == old(out)@ + spec_inputs_le(v@),
{
    let ghost before = out@;
    let mut i: usize = 0;
    while i < v.len()
        invariant
            i <= v@.len(),
            out@ == before + spec_inputs_le(v@.subrange(0, i as int)),
        decreases v@.len() - i,
    {
        let ghost taken = v@.subrange(0, i as int);
        push_input_le(out, v[i]);
        proof {
            let taken1 = v@.subrange(0, i + 1);
            assert(taken1.drop_last() =~= taken);
            assert(taken1.last() == v@[i as int]);
            assert(spec_inputs_le(taken1) == spec_inputs_le(taken) + spec_input_le(v@[i as int]));
            assert(out@ =~= before + spec_inputs_le(taken1));
        }
        i = i + 1;
    }
    proof {
        assert(v@.subrange(0, v@.len() as int) =~= v@);
    }
}

impl MsgPayload {
    /// The wire form of this message: the tag byte, then the body in
    /// the canonical little-endian layout.
    pub fn to_bytes(&self) -> (r: Vec<u8>)
        requires
            wire_wf(*self),
        ensures
            r@ == spec_encode(*self),
    {
        let mut out: Vec<u8> = Vec::new();
        match self {
            MsgPayload::Empty => {
                out.push(0);
                proof {
                    assert(out@ =~= spec_encode(*self));
                }
            },
            MsgPayload::Invalid => {
                out.push(1);
                proof {
                    assert(out@ =~= spec_encode(*self));
                }
            },
            MsgPayload::AckFinalization(a) => {
                let counts = a.inner();
                out.push(2);
                push_u32_le(&mut out, counts.len() as u32);
                push_u32s_le(&mut out, &counts);
                proof {
                    assert(out@ =~= spec_encode(*self));
                }
            },
            MsgPayload::HostFinalizedSlice(h) => {
                out.push(3);
                out.push(h.player_num.as_u8());
                push_u32_le(&mut out, h.host_tick);
                push_u32_le(&mut out, h.inputs.start);
                push_u32_le(&mut out, h.inputs.inputs.len() as u32);
                push_inputs_le(&mut out, &h.inputs.inputs);
                proof {
                    assert(out@ =~= spec_encode(*self));
                }
            },
            MsgPayload::PeerInputs(s) => {
                out.push(4);
                push_u32_le(&mut out, s.start);
                push_u32_le(&mut out, s.inputs.len() as u32);
                push_inputs_le(&mut out, &s.inputs);
                proof {
                    assert(out@ =~= spec_encode(*self));
                }
            },
            MsgPayload::PreSimSync(p) => {
                out.push(5);
                out.push(p.host_tick_countdown);
                push_u32_le(&mut out, p.peers.len() as u32);
                push_u32s_le(&mut out, &p.peers);
                proof {
                    assert(out@ =~= spec_encode(*self));
                }
            },
            MsgPayload::GuestPing(id) => {
                out.push(6);
                push_u32_le(&mut out, *id);
                proof {
                    assert(out@ =~= spec_encode(*self));
                }
            },
            MsgPayload::HostPong(id) => {
                out.push(7);
                push_u32_le(&mut out, *id);
                proof {
                    assert(out@ =~= spec_encode(*self));
                }
            },
            MsgPayload::GuestPongPong(id) => {
                out.push(8);
                push_u32_le(&mut out, *id);
                proof {
                    assert(out@ =~= spec_encode(*self));
                }
            },
        }
        out
    }
}

} // verus!
verus! {

/// Read the `u32` stored little-endian at `pos`.
fn read_u32_le(bytes: &[u8], pos: usize) -> (r: u32)
    requires
        pos + 4 <= bytes@.len(),
    ensures
        r == spec_u32_from_le(
            bytes@[pos as int],
            bytes@[pos + 1],
            bytes@[pos + 2],
            bytes@[pos + 3],
        ),
{
    (bytes[pos] as u32) | ((bytes[pos + 1] as u32) << 8u32) | ((bytes[pos + 2] as u32) << 16u32)
        | ((bytes[pos + 3] as u32) << 24u32)
}

/// Parse a run of `count` little-endian `u32` values starting at
/// `off`, which must run exactly to the end of `bytes`.
#[verifier::loop_isolation(false)]
fn read_u32s_le(bytes: &[u8], off: usize, count: usize) -> (r: Vec<u32>)
    requires
        off + 4 * count == bytes@.len(),
    ensures
        r@.len() == count,
        spec_u32s_le(r@) == bytes@.subrange(off as int, bytes@.len() as int),
{
    let n = bytes.len();
    let mut v: Vec<u32> = Vec::new();
    let mut i: usize = 0;
    while i < count
        invariant
            n == bytes@.len(),
            i <= count,
            v@.len() == i,
            spec_u32s_le(v@) == bytes@.subrange(off as int, off + 4 * i),
        decreases count - i,
    {
        let ghost prev = v@;
        let x = read_u32_le(bytes, off + 4 * i);
        v.push(x);
        proof {
            assert(v@.drop_last() =~= prev);
            assert(v@.last() == x);
            lemma_u32_le_of_from(
                bytes@[off + 4 * i],
                bytes@[off + 4 * i + 1],
                bytes@[off + 4 * i + 2],
                bytes@[off + 4 * i + 3],
            );
            assert(spec_u32s_le(v@) =~= bytes@.subrange(off as int, off + 4 * (i + 1)));
        }
        i = i + 1;
    }
    proof {
        assert(bytes@.subrange(off as int, off + 4 * count) =~= bytes@.subrange(
            off as int,
            bytes@.len() as int,
        ));
    }
    v
}

/// Parse a run of `count` four-byte inputs starting at `off`, which
/// must run exactly to the end of `bytes`.
#[verifier::loop_isolation(false)]
fn read_inputs_le(bytes: &[u8], off: usize, count: usize) -> (r: Vec<InputBytes>)
    requires
        off + 4 * count == bytes@.len(),
    ensures
        r@.len() == count,
        spec_inputs_le(r@) == bytes@.subrange(off as int, bytes@.len() as int),
{
    let n = bytes.len();
    let mut v: Vec<InputBytes> = Vec::new();
    let mut i: usize = 0;
    while i < count
        invariant
            n == bytes@.len(),
            i <= count,
            v@.len() == i,
            spec_inputs_le(v@) == bytes@.subrange(off as int, off + 4 * i),
        decreases count - i,
    {
        let ghost prev = v@;
        let p = off + 4 * i;
        let ib = InputBytes { b0: bytes[p], b1: bytes[p + 1], b2: bytes[p + 2], b3: bytes[p + 3] };
        v.push(ib);
        proof {
            assert(v@.drop_last() =~= prev);
            assert(v@.last() == ib);
            assert(spec_inputs_le(v@) =~= bytes@.subrange(off as int, off + 4 * (i + 1)));
        }
        i = i + 1;
    }
    proof {
        assert(bytes@.subrange(off as int, off + 4 * count) =~= bytes@.subrange(
            off as int,
            bytes@.len() as int,
        ));
    }
    v
}

impl MsgPayload {
    /// Rebuild a message from its wire form. No bytes decode to
    /// `Empty`; otherwise the bytes must be exactly the encoding of one
    /// message, whose contents are returned; anything else is a
    /// `DecodeError`.
    pub fn from_bytes(bytes: &[u8]) -> (r: Result<MsgPayload, DecodeError>)
        ensures
            bytes@.len() == 0 ==> r == Ok::<MsgPayload, DecodeError>(MsgPayload::Empty),
            r matches Ok(d) ==> wire_wf(d) && (bytes@.len() == 0 || spec_encode(d) == bytes@),
            forall|m: MsgPayload|
                wire_wf(m) && spec_encode(m) == bytes@ ==> (r matches Ok(d) && msg_eqv(d, m)),
            bytes@.len() > 0 && (forall|m: MsgPayload|
                wire_wf(m) ==> spec_encode(m) != bytes@) ==> r is Err,
    {
        let n = bytes.len();
        if n == 0 {
            proof {
                assert forall|m: MsgPayload|
                    wire_wf(m) && spec_encode(m) == bytes@ implies false by {
                    lemma_encode_tag(m);
                }
            }
            return Ok(MsgPayload::Empty);
        }
        let tag = bytes[0];
        if tag == 0 || tag == 1 {
            if n != 1 {
                proof {
                    assert forall|m: MsgPayload|
                        wire_wf(m) && spec_encode(m) == bytes@ implies false by {
                        lemma_encode_tag(m);
                        lemma_encode_len(m);
                    }
                }
                return Err(DecodeError);
            }
            let d = if tag == 0 {
                MsgPayload::Empty
            } else {
                MsgPayload::Invalid
            };
            proof {
                assert(spec_encode(d) =~= bytes@);
                assert forall|m: MsgPayload|
                    wire_wf(m) && spec_encode(m) == bytes@ implies msg_eqv(d, m) by {
                    lemma_encode_determines(d, m);
                }
            }
            return Ok(d);
        }
        if tag == 6 || tag == 7 || tag == 8 {
            if n != 5 {
                proof {
                    assert forall|m: MsgPayload|
                        wire_wf(m) && spec_encode(m) == bytes@ implies false by {
                        lemma_encode_tag(m);
                        lemma_encode_len(m);
                    }
                }
                return Err(DecodeError);
            }
            let id = read_u32_le(bytes, 1);
            let d = if tag == 6 {
                MsgPayload::GuestPing(id)
            } else if tag == 7 {
                MsgPayload::HostPong(id)
            } else {
                MsgPayload::GuestPongPong(id)
            };
            proof {
                lemma_u32_le_of_from(bytes@[1], bytes@[2], bytes@[3], bytes@[4]);
                assert(spec_encode(d) =~= bytes@);
                assert forall|m: MsgPayload|
                    wire_wf(m) && spec_encode(m) == bytes@ implies msg_eqv(d, m) by {
                    lemma_encode_determines(d, m);
                }
            }
            return Ok(d);
        }
        if tag == 2 {
            if n < 5 {
                proof {
                    assert forall|m: MsgPayload|
                        wire_wf(m) && spec_encode(m) == bytes@ implies false by {
                        lemma_encode_tag(m);
                        lemma_encode_len(m);
                    }
                }
                return Err(DecodeError);
            }
            let count = read_u32_le(bytes, 1);
            if (n as u64) != 5u64 + 4u64 * (count as u64) {
                proof {
                    assert forall|m: MsgPayload|
                        wire_wf(m) && spec_encode(m) == bytes@ implies false by {
                        lemma_encode_tag(m);
                        lemma_encode_len(m);
                        lemma_encode_windows(m);
                        if let MsgPayload::AckFinalization(a) = m {
                            lemma_u32_le_round_trip(a.spec_counts().len() as u32);
                        }
                    }
                }
                return Err(DecodeError);
            }
            let count_us = count as usize;
            let counts = read_u32s_le(bytes, 5, count_us);
            let d = MsgPayload::AckFinalization(
                crate::peerwise::PeerwiseFinalizedInputsSeen::from_counts(counts),
            );
            proof {
                lemma_u32_le_of_from(bytes@[1], bytes@[2], bytes@[3], bytes@[4]);
                assert(spec_encode(d) =~= bytes@);
                assert forall|m: MsgPayload|
                    wire_wf(m) && spec_encode(m) == bytes@ implies msg_eqv(d, m) by {
                    lemma_encode_determines(d, m);
                }
            }
            return Ok(d);
        }
        if tag == 5 {
            if n < 6 {
                proof {
                    assert forall|m: MsgPayload|
                        wire_wf(m) && spec_encode(m) == bytes@ implies false by {
                        lemma_encode_tag(m);
                        lemma_encode_len(m);
                    }
                }
                return Err(DecodeError);
            }
            let count = read_u32_le(bytes, 2);
            if (n as u64) != 6u64 + 4u64 * (count as u64) {
                proof {
                    assert forall|m: MsgPayload|
                        wire_wf(m) && spec_encode(m) == bytes@ implies false by {
                        lemma_encode_tag(m);
                        lemma_encode_len(m);
                        lemma_encode_windows(m);
                        if let MsgPayload::PreSimSync(p) = m {
                            lemma_u32_le_round_trip(p.peers@.len() as u32);
                        }
                    }
                }
                return Err(DecodeError);
            }
            let host_tick_countdown = bytes[1];
            let count_us = count as usize;
            let peers = read_u32s_le(bytes, 6, count_us);
            let d = MsgPayload::PreSimSync(PreSimSync { host_tick_countdown, peers });
            proof {
                lemma_u32_le_of_from(bytes@[2], bytes@[3], bytes@[4], bytes@[5]);
                assert(spec_encode(d) =~= bytes@);
                assert forall|m: MsgPayload|
                    wire_wf(m) && spec_encode(m) == bytes@ implies msg_eqv(d, m) by {
                    lemma_encode_determines(d, m);
                }
            }
            return Ok(d);
        }
        if tag == 4 {
            if n < 9 {
                proof {
                    assert forall|m: MsgPayload|
                        wire_wf(m) && spec_encode(m) == bytes@ implies false by {
                        lemma_encode_tag(m);
                        lemma_encode_len(m);
                    }
                }
                return Err(DecodeError);
            }
            let start = read_u32_le(bytes, 1);
            let count = read_u32_le(bytes, 5);
            if (n as u64) != 9u64 + 4u64 * (count as u64) {
                proof {
                    assert forall|m: MsgPayload|
                        wire_wf(m) && spec_encode(m) == bytes@ implies false by {
                        lemma_encode_tag(m);
                        lemma_encode_len(m);
                        lemma_encode_windows(m);
                        if let MsgPayload::PeerInputs(s) = m {
                            lemma_u32_le_round_trip(s.inputs@.len() as u32);
                        }
                    }
                }
                return Err(DecodeError);
            }
            let count_us = count as usize;
            let inputs = read_inputs_le(bytes, 9, count_us);
            let d = MsgPayload::PeerInputs(PlayerInputSlice { start, inputs });
            proof {
                lemma_u32_le_of_from(bytes@[1], bytes@[2], bytes@[3], bytes@[4]);
                lemma_u32_le_of_from(bytes@[5], bytes@[6], bytes@[7], bytes@[8]);
                assert(spec_encode(d) =~= bytes@);
                assert forall|m: MsgPayload|
                    wire_wf(m) && spec_encode(m) == bytes@ implies msg_eqv(d, m) by {
                    lemma_encode_determines(d, m);
                }
            }
            return Ok(d);
        }
        if tag == 3 {
            if n < 14 {
                proof {
                    assert forall|m: MsgPayload|
                        wire_wf(m) && spec_encode(m) == bytes@ implies false by {
                        lemma_encode_tag(m);
                        lemma_encode_len(m);
                    }
                }
                return Err(DecodeError);
            }
            let player_num = crate::player_num::PlayerNum::from_u8(bytes[1]);
            let host_tick = read_u32_le(bytes, 2);
            let start = read_u32_le(bytes, 6);
            let count = read_u32_le(bytes, 10);
            if (n as u64) != 14u64 + 4u64 * (count as u64) {
                proof {
                    assert forall|m: MsgPayload|
                        wire_wf(m) && spec_encode(m) == bytes@ implies false by {
                        lemma_encode_tag(m);
                        lemma_encode_len(m);
                        lemma_encode_windows(m);
                        if let MsgPayload::HostFinalizedSlice(h) = m {
                            lemma_u32_le_round_trip(h.inputs.inputs@.len() as u32);
                        }
                    }
                }
                return Err(DecodeError);
            }
            let count_us = count as usize;
            let inputs = read_inputs_le(bytes, 14, count_us);
            let d = MsgPayload::HostFinalizedSlice(
                HostFinalizedSlice {
                    player_num,
                    host_tick,
                    inputs: PlayerInputSlice { start, inputs },
                },
            );
            proof {
                lemma_u32_le_of_from(bytes@[2], bytes@[3], bytes@[4], bytes@[5]);
                lemma_u32_le_of_from(bytes@[6], bytes@[7], bytes@[8], bytes@[9]);
                lemma_u32_le_of_from(bytes@[10], bytes@[11], bytes@[12], bytes@[13]);
                assert(spec_encode(d) =~= bytes@);
                assert forall|m: MsgPayload|
                    wire_wf(m) && spec_encode(m) == bytes@ implies msg_eqv(d, m) by {
                    lemma_encode_determines(d, m);
                }
            }
            return Ok(d);
        }
        proof {
            assert forall|m: MsgPayload| wire_wf(m) && spec_encode(m) == bytes@ implies false by {
                lemma_encode_tag(m);
            }
        }
        Err(DecodeError)
    }
}

} // verus!
verus! {

/// The serialized form of one player's buffer: the finalized count,
/// the number of entries, then the entries, all little-endian.
pub open spec fn spec_buffer_bytes(finalized: u32, inputs: Seq<InputBytes>) -> Seq<u8> {
    spec_u32_le(finalized) + spec_u32_le(inputs.len() as u32) + spec_inputs_le(inputs)
}

/// Where the fields of a serialized buffer sit.
proof fn lemma_buffer_bytes_windows(finalized: u32, inputs: Seq<InputBytes>)
    requires
        inputs.len() <= u32::MAX,
    ensures
        spec_buffer_bytes(finalized, inputs).len() == 8 + 4 * inputs.len(),
        spec_buffer_bytes(finalized, inputs).subrange(0, 4) == spec_u32_le(finalized),
        spec_buffer_bytes(finalized, inputs).subrange(4, 8) == spec_u32_le(inputs.len() as u32),
        spec_buffer_bytes(finalized, inputs).subrange(8, 8 + 4 * inputs.len() as int) == spec_inputs_le(
            inputs,
        ),
{
    lemma_inputs_le_len(inputs);
    let b = spec_buffer_bytes(finalized, inputs);
    assert(b.subrange(0, 4) =~= spec_u32_le(finalized));
    assert(b.subrange(4, 8) =~= spec_u32_le(inputs.len() as u32));
    assert(b.subrange(8, 8 + 4 * inputs.len() as int) =~= spec_inputs_le(inputs));
}

/// Serialize one buffer's parts.
pub fn encode_player_buffer(finalized: u32, inputs: &Vec<InputBytes>) -> (r: Vec<u8>)
    requires
        inputs@.len() <= u32::MAX,
    ensures
        r@ == spec_buffer_bytes(finalized, inputs@),
{
    let mut out: Vec<u8> = Vec::new();
    push_u32_le(&mut out, finalized);
    push_u32_le(&mut out, inputs.len() as u32);
    push_inputs_le(&mut out, inputs);
    proof {
        assert(out@ =~= spec_buffer_bytes(finalized, inputs@));
    }
    out
}

/// Parse one buffer's parts back from its serialized form. The bytes
/// must be exactly one serialized buffer whose finalized count does not
/// run past its entries.
pub fn decode_player_buffer(bytes: &[u8]) -> (r: Result<(u32, Vec<InputBytes>), DecodeError>)
    ensures
        r matches Ok(p) ==> p.0 <= p.1@.len() <= u32::MAX && bytes@ == spec_buffer_bytes(
            p.0,
            p.1@,
        ),
        forall|f: u32, v: Seq<InputBytes>|
            f <= v.len() <= u32::MAX && spec_buffer_bytes(f, v) == bytes@ ==> (r matches Ok(p)
                && p.0 == f && p.1@ == v),
{
    let n = bytes.len();
    if n < 8 {
        proof {
            assert forall|f: u32, v: Seq<InputBytes>|
                f <= v.len() <= u32::MAX && spec_buffer_bytes(f, v) == bytes@ implies false by {
                lemma_buffer_bytes_windows(f, v);
            }
        }
        return Err(DecodeError);
    }
    let finalized = read_u32_le(bytes, 0);
    let count = read_u32_le(bytes, 4);
    if (n as u64) != 8u64 + 4u64 * (count as u64) {
        proof {
            assert forall|f: u32, v: Seq<InputBytes>|
                f <= v.len() <= u32::MAX && spec_buffer_bytes(f, v) == bytes@ implies false by {
                lemma_buffer_bytes_windows(f, v);
                lemma_u32_le_round_trip(v.len() as u32);
            }
        }
        return Err(DecodeError);
    }
    if finalized > count {
        proof {
            assert forall|f: u32, v: Seq<InputBytes>|
                f <= v.len() <= u32::MAX && spec_buffer_bytes(f, v) == bytes@ implies false by {
                lemma_buffer_bytes_windows(f, v);
                lemma_u32_le_round_trip(v.len() as u32);
                lemma_u32_le_round_trip(f);
            }
        }
        return Err(DecodeError);
    }
    let inputs = read_inputs_le(bytes, 8, count as usize);
    proof {
        lemma_u32_le_of_from(bytes@[0], bytes@[1], bytes@[2], bytes@[3]);
        lemma_u32_le_of_from(bytes@[4], bytes@[5], bytes@[6], bytes@[7]);
        assert(spec_buffer_bytes(finalized, inputs@) =~= bytes@);
        assert forall|f: u32, v: Seq<InputBytes>|
            f <= v.len() <= u32::MAX && spec_buffer_bytes(f, v) == bytes@ implies f == finalized
            && v == inputs@ by {
            lemma_buffer_bytes_windows(f, v);
            lemma_buffer_bytes_windows(finalized, inputs@);
            lemma_u32_le_round_trip(f);
            lemma_u32_le_round_trip(finalized);
            lemma_u32_le_round_trip(v.len() as u32);
            assert(spec_u32_le(f) == spec_u32_le(finalized));
            assert(v.len() == inputs@.len());
            assert(spec_inputs_le(v) == spec_inputs_le(inputs@));
            assert forall|i: int| 0 <= i < v.len() implies v[i] == inputs@[i] by {
                lemma_inputs_le_index(v, i);
                lemma_inputs_le_index(inputs@, i);
                assert(spec_input_le(v[i]) == spec_input_le(inputs@[i]));
                assert(spec_input_le(v[i])[0] == spec_input_le(inputs@[i])[0]);
                assert(spec_input_le(v[i])[1] == spec_input_le(inputs@[i])[1]);
                assert(spec_input_le(v[i])[2] == spec_input_le(inputs@[i])[2]);
                assert(spec_input_le(v[i])[3] == spec_input_le(inputs@[i])[3]);
            }
            assert(v =~= inputs@);
        }
    }
    Ok((finalized, inputs))
}

} // verus!
