//! Little-endian views of the 16-bit and 32-bit quantities that a
//! sub-attribute record carries, and the proofs that reading bytes back
//! as a value undoes splitting a value into bytes.

use vstd::prelude::*;
use vstd::arithmetic::div_mod::{lemma_div_denominator, lemma_fundamental_div_mod};

verus! {

/// The 16-bit value that two little-endian bytes hold.
pub open spec fn u16_from_le(b0: u8, b1: u8) -> u16 {
    (b0 + 256 * b1) as u16
}

/// The 32-bit value that four little-endian bytes hold.
pub open spec fn u32_from_le(b0: u8, b1: u8, b2: u8, b3: u8) -> u32 {
    (b0 + 256 * b1 + 65536 * b2 + 16777216 * b3) as u32
}

/// The two little-endian bytes of a 16-bit value.
pub open spec fn u16_le_bytes(x: u16) -> Seq<u8> {
    seq![(x % 256) as u8, (x / 256) as u8]
}

/// The four little-endian bytes of a 32-bit value.
pub open spec fn u32_le_bytes(x: u32) -> Seq<u8> {
    seq![
        (x % 256) as u8,
        ((x / 256) % 256) as u8,
        ((x / 65536) % 256) as u8,
        (x / 16777216) as u8,
    ]
}

/// Reads a 16-bit value out of its two little-endian bytes.
pub fn read_u16_le(b0: u8, b1: u8) -> (x: u16)
    ensures
        x == u16_from_le(b0, b1),
{
    b0 as u16 + 256 * (b1 as u16)
}

/// Reads a 32-bit value out of its four little-endian bytes.
pub fn read_u32_le(b0: u8, b1: u8, b2: u8, b3: u8) -> (x: u32)
    ensures
        x == u32_from_le(b0, b1, b2, b3),
{
    b0 as u32 + 256 * (b1 as u32) + 65536 * (b2 as u32) + 16777216 * (b3 as u32)
}

/// Splits a 16-bit value into its two little-endian bytes.
pub fn split_u16_le(x: u16) -> (r: (u8, u8))
    ensures
        r.0 == u16_le_bytes(x)[0],
        r.1 == u16_le_bytes(x)[1],
{
    ((x % 256) as u8, (x / 256) as u8)
}

/// Splits a 32-bit value into its four little-endian bytes.
pub fn split_u32_le(x: u32) -> (r: (u8, u8, u8, u8))
    ensures
        r.0 == u32_le_bytes(x)[0],
        r.1 == u32_le_bytes(x)[1],
        r.2 == u32_le_bytes(x)[2],
        r.3 == u32_le_bytes(x)[3],
{
    proof {
        assert(x / 16777216 < 256) by (nonlinear_arith)
            requires x <= 0xffff_ffffu32;
    }
    (
        (x % 256) as u8,
        ((x / 256) % 256) as u8,
        ((x / 65536) % 256) as u8,
        (x / 16777216) as u8,
    )
}

/// Reading the two little-endian bytes of a value yields the value back.
pub proof fn lemma_u16_le_round_trip(x: u16)
    ensures
        u16_from_le(u16_le_bytes(x)[0], u16_le_bytes(x)[1]) == x,
{
    lemma_fundamental_div_mod(x as int, 256);
}

/// Reading the four little-endian bytes of a value yields the value back.
pub proof fn lemma_u32_le_round_trip(x: u32)
    ensures
        u32_from_le(
            u32_le_bytes(x)[0],
            u32_le_bytes(x)[1],
            u32_le_bytes(x)[2],
            u32_le_bytes(x)[3],
        ) == x,
{
    lemma_fundamental_div_mod(x as int, 256);
    lemma_fundamental_div_mod(x as int / 256, 256);
    lemma_fundamental_div_mod(x as int / 65536, 256);
    lemma_div_denominator(x as int, 256, 256);
    lemma_div_denominator(x as int, 65536, 256);
    assert(x / 16777216 < 256) by (nonlinear_arith)
        requires x <= 0xffff_ffffu32;
}

} // verus!
