//! Network identifiers for players.
//!
//! By convention the host is always player number 0; every other
//! player is a guest. Guest-only tables are indexed by `id - 1`.

use vstd::prelude::*;
use vstd::string::StringExecFns;

verus! {

/// The character for one decimal digit.
pub open spec fn spec_digit(d: int) -> char {
    if d == 0 {
        '0'
    } else if d == 1 {
        '1'
    } else if d == 2 {
        '2'
    } else if d == 3 {
        '3'
    } else if d == 4 {
        '4'
    } else if d == 5 {
        '5'
    } else if d == 6 {
        '6'
    } else if d == 7 {
        '7'
    } else if d == 8 {
        '8'
    } else {
        '9'
    }
}

/// The decimal digits of a non-negative number, most significant
/// first.
pub open spec fn spec_decimal(n: int) -> Seq<char>
    decreases n,
{
    if n < 10 {
        seq![spec_digit(n)]
    } else {
        spec_decimal(n / 10).push(spec_digit(n % 10))
    }
}

/// A unique network identifier for a player.
///
/// The host is always player number 0.
#[derive(Debug, Clone, Copy, PartialEq, Eq, Structural, Hash, PartialOrd, Ord)]
pub struct PlayerNum(u8);

impl PlayerNum {
    /// The player number reserved for the host.
    pub open spec fn host_num() -> u8 {
        0
    }

    /// The raw player number this identifier carries.
    pub closed spec fn spec_as_u8(self) -> u8 {
        self.0
    }

    pub fn from_u8(player_num: u8) -> (r: Self)
        ensures
            r.spec_as_u8() == player_num,
    {
        PlayerNum(player_num)
    }

    pub fn new_host() -> (r: Self)
        ensures
            r.spec_as_u8() == Self::host_num(),
    {
        PlayerNum(0)
    }

    pub fn new_guest(player_num: u8) -> (r: Self)
        requires
            player_num != Self::host_num(),
        ensures
            r.spec_as_u8() == player_num,
    {
        PlayerNum(player_num)
    }

    pub fn is_host(&self) -> (r: bool)
        ensures
            r == (self.spec_as_u8() == Self::host_num()),
    {
        self.0 == 0
    }

    pub fn is_guest(&self) -> (r: bool)
        ensures
            r == (self.spec_as_u8() != Self::host_num()),
    {
        self.0 != 0
    }

    pub fn as_u8(&self) -> (r: u8)
        ensures
            r == self.spec_as_u8(),
    {
        self.0
    }

    /// The index of this player in a guest-only table (the host has none).
    pub open spec fn spec_guest_index(self) -> Option<usize> {
        if self.spec_as_u8() == Self::host_num() {
            None
        } else {
            Some((self.spec_as_u8() - 1) as usize)
        }
    }

    /// For indexing into a guest-only table (for example the host's table of
    /// per-guest observations, which excludes the host itself).
    pub fn guest_index(&self) -> (r: Option<usize>)
        ensures
            r == self.spec_guest_index(),
    {
        if self.0 == 0 {
            None
        } else {
            Some((self.0 - 1) as usize)
        }
    }

    /// Create a `PlayerNum` from a guest index (0-based, excluding the host),
    /// so that `PlayerNum::from_guest_index(0)` is player number 1.
    pub fn from_guest_index(index: usize) -> (r: Self)
        requires
            index + 1 <= u8::MAX,
        ensures
            r.spec_as_u8() == index + 1,
            r.spec_guest_index() == Some(index),
    {
        PlayerNum((index + 1) as u8)
    }

    /// The player number written in decimal.
    pub fn to_decimal_string(&self) -> (r: String)
        ensures
            r@ == spec_decimal(self.spec_as_u8() as int),
    {
        let n = self.0;
        let mut s = String::new();
        if n >= 100 {
            s.append(digit_str(n / 100));
        }
        if n >= 10 {
            s.append(digit_str((n / 10) % 10));
        }
        s.append(digit_str(n % 10));
        proof {
            reveal_with_fuel(spec_decimal, 4);
            if n >= 100 {
                assert(n as int / 10 / 10 == n as int / 100);
                assert(spec_decimal(n as int) =~= s@);
            } else if n >= 10 {
                assert(spec_decimal(n as int) =~= s@);
            } else {
                assert(spec_decimal(n as int) =~= s@);
            }
        }
        s
    }

    pub fn try_from(value: u32) -> (r: Result<Self, &'static str>)
        ensures
            value <= u8::MAX ==> (r matches Ok(p) && p.spec_as_u8() == value),
            value > u8::MAX ==> r is Err,
    {
        if value > u8::MAX as u32 {
            Err("PlayerNum must be less than 256")
        } else {
            Ok(PlayerNum(value as u8))
        }
    }

    pub fn try_from_usize(value: usize) -> (r: Result<Self, &'static str>)
        ensures
            value <= u8::MAX ==> (r matches Ok(p) && p.spec_as_u8() == value),
            value > u8::MAX ==> r is Err,
    {
        if value > u8::MAX as usize {
            Err("PlayerNum must be less than 256")
        } else {
            Ok(PlayerNum(value as u8))
        }
    }
}

/// The one-character string for a decimal digit.
fn digit_str(d: u8) -> (r: &'static str)
    requires
        d <= 9,
    ensures
        r@ == seq![spec_digit(d as int)],
{
    proof {
        reveal_strlit("0");
        reveal_strlit("1");
        reveal_strlit("2");
        reveal_strlit("3");
        reveal_strlit("4");
        reveal_strlit("5");
        reveal_strlit("6");
        reveal_strlit("7");
        reveal_strlit("8");
        reveal_strlit("9");
    }
    match d {
        0 => "0",
        1 => "1",
        2 => "2",
        3 => "3",
        4 => "4",
        5 => "5",
        6 => "6",
        7 => "7",
        8 => "8",
        _ => "9",
    }
}

/// Two player identifiers with the same number are the same
/// identifier.
pub proof fn lemma_player_num_eq(a: PlayerNum, b: PlayerNum)
    requires
        a.spec_as_u8() == b.spec_as_u8(),
    ensures
        a == b,
{
}

} // verus!
