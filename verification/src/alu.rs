//! The CPU's arithmetic and logic operations on 32-bit words.
//!
//! Each operation has a spec function giving its mathematical meaning
//! (wrap-around arithmetic modulo 2^32, masked shift amounts, signed and
//! unsigned comparison) and an exec function proved against it. The proof
//! functions at the end state the algebraic laws the operations obey.

use vstd::prelude::*;
use crate::bits::as_signed;

verus! {

/// Addition modulo 2^32.
pub open spec fn add32(a: u32, b: u32) -> u32 {
    ((a + b) % 0x1_0000_0000) as u32
}

/// Subtraction modulo 2^32.
pub open spec fn sub32(a: u32, b: u32) -> u32 {
    ((a - b + 0x1_0000_0000) % 0x1_0000_0000) as u32
}

/// Logical left shift; only the low five bits of the shift amount count.
pub open spec fn sll32(a: u32, b: u32) -> u32 {
    a << (b & 0x1F)
}

/// Logical right shift; only the low five bits of the shift amount count.
pub open spec fn srl32(a: u32, b: u32) -> u32 {
    a >> (b & 0x1F)
}

/// Arithmetic right shift: the sign bit is replicated into the vacated
/// positions. Only the low five bits of the shift amount count.
pub open spec fn sra32(a: u32, b: u32) -> u32 {
    if (a >> 31) & 1 == 1 {
        (a >> (b & 0x1F)) | !(0xFFFF_FFFFu32 >> (b & 0x1F))
    } else {
        a >> (b & 0x1F)
    }
}

/// Signed less-than, as a 0/1 word.
pub open spec fn slt32(a: u32, b: u32) -> u32 {
    if as_signed(a) < as_signed(b) {
        1u32
    } else {
        0u32
    }
}

/// Unsigned less-than, as a 0/1 word.
pub open spec fn sltu32(a: u32, b: u32) -> u32 {
    if a < b {
        1u32
    } else {
        0u32
    }
}

pub fn alu_add(a: u32, b: u32) -> (r: u32)
    ensures
        r == add32(a, b),
{
    a.wrapping_add(b)
}

pub fn alu_sub(a: u32, b: u32) -> (r: u32)
    ensures
        r == sub32(a, b),
{
    a.wrapping_sub(b)
}

pub fn alu_sll(a: u32, b: u32) -> (r: u32)
    ensures
        r == sll32(a, b),
{
    proof {
        assert((b & 0x1F) < 32) by (bit_vector);
    }
    a << (b & 0x1F)
}

pub fn alu_srl(a: u32, b: u32) -> (r: u32)
    ensures
        r == srl32(a, b),
{
    proof {
        assert((b & 0x1F) < 32) by (bit_vector);
    }
    a >> (b & 0x1F)
}

pub fn alu_sra(a: u32, b: u32) -> (r: u32)
    ensures
        r == sra32(a, b),
{
    proof {
        assert((b & 0x1F) < 32) by (bit_vector);
    }
    let r = #[verifier::truncate] (((a as i32) >> (b & 0x1F)) as u32);
    proof {
        assert(r == sra32(a, b)) by (bit_vector)
            requires
                r == ((a as i32) >> (b & 0x1F)) as u32,
        ;
    }
    r
}

/// Two's-complement comparison of two words.
pub fn signed_lt(a: u32, b: u32) -> (r: bool)
    ensures
        r == (as_signed(a) < as_signed(b)),
{
    let c = (a as i32) < (b as i32);
    proof {
        assert(c == (as_signed(a) < as_signed(b))) by (bit_vector)
            requires
                c == ((a as i32) < (b as i32)),
        ;
    }
    c
}

pub fn alu_slt(a: u32, b: u32) -> (r: u32)
    ensures
        r == slt32(a, b),
{
    if signed_lt(a, b) {
        1
    } else {
        0
    }
}

pub fn alu_sltu(a: u32, b: u32) -> (r: u32)
    ensures
        r == sltu32(a, b),
{
    if a < b {
        1
    } else {
        0
    }
}

/// Arithmetic closure: subtracting an addend from a wrap-around sum restores
/// the other addend, for every 32-bit pair.
pub proof fn lemma_add_sub_closure(a: u32, b: u32)
    ensures
        sub32(add32(a, b), b) == a,
{
}

/// Shift masking: a left shift only depends on the shift amount modulo 32.
pub proof fn lemma_shift_masking(x: u32, s: u32)
    ensures
        sll32(x, s) == sll32(x, s % 32),
{
    assert(x << (s & 0x1F) == x << ((s % 32) & 0x1F)) by (bit_vector);
}

/// An arithmetic right shift by 31 collapses a word to its sign: all zeros
/// for a non-negative word, all ones for a negative one.
pub proof fn lemma_sra_31(x: u32)
    ensures
        sra32(x, 31) == if (x >> 31) & 1 == 0 { 0u32 } else { 0xFFFF_FFFFu32 },
{
    assert((if (x >> 31) & 1 == 1 { (x >> 31) | !(0xFFFF_FFFFu32 >> 31) } else { x >> 31 })
        == (if (x >> 31) & 1 == 0 { 0u32 } else { 0xFFFF_FFFFu32 })) by (bit_vector);
    assert(31u32 & 0x1F == 31) by (bit_vector);
}

} // verus!
