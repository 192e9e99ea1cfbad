//! The fixed-size byte form of one tick of player input.
//!
//! The engine never interprets an input; it only stores, copies,
//! compares and transmits these four bytes. A game maps its own input
//! type into and out of this form (see `input_trait`).

use vstd::prelude::*;

verus! {

/// Four opaque bytes holding one player's input for one tick.
#[derive(Debug, Clone, Copy, PartialEq, Eq, Structural, Hash)]
pub struct InputBytes {
    pub b0: u8,
    pub b1: u8,
    pub b2: u8,
    pub b3: u8,
}

impl InputBytes {
    /// The default input: all four bytes zero.
    pub open spec fn spec_default() -> InputBytes {
        InputBytes { b0: 0, b1: 0, b2: 0, b3: 0 }
    }

    /// The little-endian byte form of `x`.
    pub open spec fn spec_from_u32(x: u32) -> InputBytes {
        InputBytes {
            b0: (x & 0xff) as u8,
            b1: ((x >> 8) & 0xff) as u8,
            b2: ((x >> 16) & 0xff) as u8,
            b3: ((x >> 24) & 0xff) as u8,
        }
    }

    /// Pack a `u32` into its little-endian byte form.
    pub fn from_u32(x: u32) -> (r: InputBytes)
        ensures
            r == Self::spec_from_u32(x),
    {
        InputBytes {
            b0: (x & 0xff) as u8,
            b1: ((x >> 8) & 0xff) as u8,
            b2: ((x >> 16) & 0xff) as u8,
            b3: ((x >> 24) & 0xff) as u8,
        }
    }
}

impl Default for InputBytes {
    fn default() -> (r: Self)
        ensures
            r == InputBytes::spec_default(),
    {
        InputBytes { b0: 0, b1: 0, b2: 0, b3: 0 }
    }
}

} // verus!
