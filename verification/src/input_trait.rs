//! The capability set a game's input type must provide.
//!
//! The engine itself works only on `InputBytes`; these traits let an
//! embedding move between its own input type and that byte form.

use vstd::prelude::*;

use crate::input_bytes::InputBytes;

verus! {

/// A game's per-tick input type: it has a default value and a
/// fixed-size byte form.
pub trait SimInput: Sized {
    /// The compact byte form of this input, for storage and transmission.
    fn to_bytes(&self) -> InputBytes;

    /// Rebuild the input from its byte form.
    fn from_bytes(bytes: InputBytes) -> Self;

    /// The input assumed for a player when nothing was received and
    /// prediction is out of range.
    fn default_input() -> Self;
}

/// Deterministic sample inputs, for exercising the engine.
pub trait TestInputBytes: SimInput {
    /// A byte pattern derived from `x` alone.
    fn new_test_simple(x: u32) -> InputBytes;
}

} // verus!
