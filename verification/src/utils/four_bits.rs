use vstd::prelude::*;

verus! {

/// Four booleans packed as a pattern, most significant first.
#[derive(Clone, Copy, Debug, PartialEq, Eq, Structural)]
pub enum FourBits {
    B0000,
    B0001,
    B0010,
    B0011,
    B0100,
    B0101,
    B0110,
    B0111,
    B1000,
    B1001,
    B1010,
    B1011,
    B1100,
    B1101,
    B1110,
    B1111,
}

/// The number whose binary digits are the pattern's bits.
pub open spec fn four_bits_value(bits: FourBits) -> nat {
    match bits {
        FourBits::B0000 => 0,
        FourBits::B0001 => 1,
        FourBits::B0010 => 2,
        FourBits::B0011 => 3,
        FourBits::B0100 => 4,
        FourBits::B0101 => 5,
        FourBits::B0110 => 6,
        FourBits::B0111 => 7,
        FourBits::B1000 => 8,
        FourBits::B1001 => 9,
        FourBits::B1010 => 10,
        FourBits::B1011 => 11,
        FourBits::B1100 => 12,
        FourBits::B1101 => 13,
        FourBits::B1110 => 14,
        FourBits::B1111 => 15,
    }
}

pub open spec fn bit(b: bool) -> nat {
    if b {
        1
    } else {
        0
    }
}

impl FourBits {
    /// The pattern `abcd`, `a` being the most significant bit.
    pub fn new(a: bool, b: bool, c: bool, d: bool) -> (bits: FourBits)
        ensures
            four_bits_value(bits) == 8 * bit(a) + 4 * bit(b) + 2 * bit(c) + bit(d),
    {
        match (a, b, c, d) {
            (false, false, false, false) => FourBits::B0000,
            (false, false, false, true) => FourBits::B0001,
            (false, false, true, false) => FourBits::B0010,
            (false, false, true, true) => FourBits::B0011,
            (false, true, false, false) => FourBits::B0100,
            (false, true, false, true) => FourBits::B0101,
            (false, true, true, false) => FourBits::B0110,
            (false, true, true, true) => FourBits::B0111,
            (true, false, false, false) => FourBits::B1000,
            (true, false, false, true) => FourBits::B1001,
            (true, false, true, false) => FourBits::B1010,
            (true, false, true, true) => FourBits::B1011,
            (true, true, false, false) => FourBits::B1100,
            (true, true, false, true) => FourBits::B1101,
            (true, true, true, false) => FourBits::B1110,
            (true, true, true, true) => FourBits::B1111,
        }
    }
}

} // verus!
