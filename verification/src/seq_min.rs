//! The minimum of a sequence of integers, with 0 for the empty
//! sequence.
//!
//! Both the snapshottable tick of a set of input buffers and the safe
//! broadcast start of the host are minima of per-player counts; this
//! module gives them one shared definition and its two laws.

use vstd::prelude::*;

verus! {

/// The least element of `s`, or 0 when `s` is empty.
pub open spec fn seq_min(s: Seq<int>) -> int
    decreases s.len(),
{
    if s.len() == 0 {
        0
    } else if s.len() == 1 {
        s[0]
    } else {
        let m = seq_min(s.drop_last());
        if s.last() < m {
            s.last()
        } else {
            m
        }
    }
}

/// The minimum is a lower bound for every element.
pub proof fn lemma_seq_min_le(s: Seq<int>, i: int)
    requires
        0 <= i < s.len(),
    ensures
        seq_min(s) <= s[i],
    decreases s.len(),
{
    if s.len() > 1 {
        if i < s.len() - 1 {
            lemma_seq_min_le(s.drop_last(), i);
            assert(s.drop_last()[i] == s[i]);
        }
    }
}

/// A non-empty sequence attains its minimum.
pub proof fn lemma_seq_min_witness(s: Seq<int>)
    requires
        s.len() > 0,
    ensures
        exists|i: int| 0 <= i < s.len() && seq_min(s) == s[i],
    decreases s.len(),
{
    if s.len() == 1 {
        assert(seq_min(s) == s[0]);
    } else {
        lemma_seq_min_witness(s.drop_last());
        let j = choose|j: int| 0 <= j < s.drop_last().len() && seq_min(s.drop_last())
            == s.drop_last()[j];
        if s.last() < seq_min(s.drop_last()) {
            assert(seq_min(s) == s[s.len() - 1]);
        } else {
            assert(s.drop_last()[j] == s[j]);
            assert(seq_min(s) == s[j]);
        }
    }
}

/// A value that is a lower bound and is attained is the minimum.
pub proof fn lemma_seq_min_unique(s: Seq<int>, v: int)
    requires
        s.len() > 0,
        forall|i: int| 0 <= i < s.len() ==> v <= s[i],
        exists|i: int| 0 <= i < s.len() && v == s[i],
    ensures
        v == seq_min(s),
{
    lemma_seq_min_witness(s);
    let w = choose|i: int| 0 <= i < s.len() && seq_min(s) == s[i];
    let u = choose|i: int| 0 <= i < s.len() && v == s[i];
    lemma_seq_min_le(s, u);
}

} // verus!
