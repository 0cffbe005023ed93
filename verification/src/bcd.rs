//! Binary-coded-decimal conversion for the numeric register fields.
//!
//! The device stores every calendar field (seconds, minutes, ..., years)
//! as packed BCD: the tens digit in bits 4-7 and the ones digit in bits 0-3.

use vstd::prelude::*;

verus! {

/// Packed BCD encoding of a two-digit value: tens digit in bits 4-7,
/// ones digit in bits 0-3.
pub open spec fn bcd_encode(v: u8) -> u8 {
    (v % 10) | ((v / 10) << 4)
}

/// Inverse of the packed BCD encoding: ones digit from the low nibble,
/// tens digit from the high nibble.
pub open spec fn bcd_decode(b: u8) -> u8 {
    ((b & 0xf) + (b >> 4) * 10) as u8
}

/// Convert a value in 0..=99 to its packed BCD byte.
pub fn to_bcd(v: u8) -> (r: u8)
    requires
        v <= 99,
    ensures
        r == bcd_encode(v),
{
    (v % 10) | ((v / 10) << 4)
}

/// Convert a packed BCD byte back to the value it encodes.
pub fn as_bcd(b: u8) -> (r: u8)
    ensures
        r == bcd_decode(b),
{
    proof {
        assert((b & 0xf) <= 0xf) by (bit_vector);
        assert((b >> 4) <= 0xf) by (bit_vector);
    }
    (b & 0xf) + (b >> 4) * 10
}

/// Decoding the BCD encoding of any value in 0..=99 gives the value back.
pub proof fn lemma_bcd_round_trip(v: u8)
    requires
        v <= 99,
    ensures
        bcd_decode(bcd_encode(v)) == v,
{
    assert((((v % 10) | ((v / 10) << 4)) & 0xf) + ((((v % 10) | ((v / 10) << 4)) >> 4) * 10) == v)
        by (bit_vector)
        requires
            v <= 99,
    ;
}

} // verus!
