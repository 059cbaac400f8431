//! Little-endian byte composition and sign extension.
//!
//! These spec functions are the vocabulary that the RAM, the text-mode buffer
//! and the trace encoder use to describe sized memory transactions: what value
//! `n` consecutive bytes denote, and what a store of the low `n` bytes of a
//! word does to a byte sequence.

use vstd::prelude::*;

verus! {

/// 256 to the `n`th power: the number of values `n` bytes can take.
pub open spec fn pow256(n: nat) -> nat
    decreases n,
{
    if n == 0 {
        1
    } else {
        0x100 * pow256((n - 1) as nat)
    }
}

/// The unsigned value denoted by the `n` little-endian bytes of `s` starting
/// at `off`.
pub open spec fn le_value(s: Seq<u8>, off: int, n: nat) -> nat
    decreases n,
{
    if n == 0 {
        0
    } else {
        (s[off] + 0x100 * le_value(s, off + 1, (n - 1) as nat)) as nat
    }
}

/// `s` with the low `n` bytes of `v` stored little-endian at `off`.
pub open spec fn store_le(s: Seq<u8>, off: int, n: nat, v: nat) -> Seq<u8>
    decreases n,
{
    if n == 0 {
        s
    } else {
        store_le(s.update(off, (v % 0x100) as u8), off + 1, (n - 1) as nat, v / 0x100)
    }
}

/// A 1-byte store is a single update.
pub proof fn lemma_store_le_one(s: Seq<u8>, off: int, v: nat)
    ensures
        store_le(s, off, 1, v) == s.update(off, (v % 0x100) as u8),
{
    assert(store_le(s.update(off, (v % 0x100) as u8), off + 1, 0, v / 0x100) == s.update(
        off,
        (v % 0x100) as u8,
    ));
}

/// A store changes neither the length of the sequence nor any byte outside
/// `[off, off + n)`.
pub proof fn lemma_store_le_frame(s: Seq<u8>, off: int, n: nat, v: nat)
    requires
        0 <= off,
        off + n <= s.len(),
    ensures
        store_le(s, off, n, v).len() == s.len(),
        forall|i: int| 0 <= i < s.len() && !(off <= i < off + n) ==> store_le(s, off, n, v)[i] == s[i],
    decreases n,
{
    if n > 0 {
        let s1 = s.update(off, (v % 0x100) as u8);
        lemma_store_le_frame(s1, off + 1, (n - 1) as nat, v / 0x100);
        assert forall|i: int|
            0 <= i < s.len() && !(off <= i < off + n) implies store_le(s, off, n, v)[i]
            == s[i] by {
            assert(store_le(s, off, n, v)[i] == s1[i]);
            assert(s1[i] == s[i]);
        }
    }
}

/// The byte a store leaves at position `off + k` is byte `k` of the stored
/// value.
pub proof fn lemma_store_le_byte(s: Seq<u8>, off: int, n: nat, v: nat, k: int)
    requires
        0 <= off,
        off + n <= s.len(),
        0 <= k < n,
    ensures
        store_le(s, off, n, v)[off + k] == (v / pow256(k as nat) % 0x100) as u8,
    decreases n,
{
    let s1 = s.update(off, (v % 0x100) as u8);
    if k == 0 {
        lemma_store_le_frame(s1, off + 1, (n - 1) as nat, v / 0x100);
        assert(store_le(s, off, n, v)[off] == s1[off]);
        assert(pow256(0) == 1);
        assert(v / pow256(0) == v);
        assert(store_le(s, off, n, v)[off + k] == (v / pow256(k as nat) % 0x100) as u8);
    } else {
        lemma_store_le_byte(s1, off + 1, (n - 1) as nat, v / 0x100, k - 1);
        assert(v / 0x100 / pow256((k - 1) as nat) == v / pow256(k as nat)) by {
            lemma_pow256_pos((k - 1) as nat);
            vstd::arithmetic::div_mod::lemma_div_denominator(
                v as int,
                0x100,
                pow256((k - 1) as nat) as int,
            );
            assert(pow256(k as nat) == 0x100 * pow256((k - 1) as nat));
        }
    }
}

pub proof fn lemma_pow256_pos(n: nat)
    ensures
        pow256(n) >= 1,
    decreases n,
{
    if n > 0 {
        lemma_pow256_pos((n - 1) as nat);
    }
}

/// Reading back `n` bytes just stored yields the stored value reduced modulo
/// `256^n`: sized memory writes round-trip.
pub proof fn lemma_le_value_store(s: Seq<u8>, off: int, n: nat, v: nat)
    requires
        0 <= off,
        off + n <= s.len(),
    ensures
        le_value(store_le(s, off, n, v), off, n) == v % pow256(n),
    decreases n,
{
    if n > 0 {
        let s1 = s.update(off, (v % 0x100) as u8);
        lemma_le_value_store(s1, off + 1, (n - 1) as nat, v / 0x100);
        lemma_store_le_frame(s1, off + 1, (n - 1) as nat, v / 0x100);
        assert(store_le(s, off, n, v)[off] == s1[off]);
        assert(le_value(store_le(s, off, n, v), off, n)
            == v % 0x100 + 0x100 * ((v / 0x100) % pow256((n - 1) as nat)));
        lemma_pow256_pos((n - 1) as nat);
        vstd::arithmetic::div_mod::lemma_breakdown(
            v as int,
            0x100,
            pow256((n - 1) as nat) as int,
        );
        assert(pow256(n) == 0x100 * pow256((n - 1) as nat));
    }
}

/// The bytes of a word, as bit operations on one side and as division and
/// remainder on the other.
pub proof fn lemma_u32_bytes(v: u32)
    by (bit_vector)
    ensures
        v & 0xFF == v % 0x100,
        (v >> 8) & 0xFF == (v / 0x100) % 0x100,
        (v >> 16) & 0xFF == (v / 0x1_0000) % 0x100,
        (v >> 24) & 0xFF == (v / 0x100_0000) % 0x100,
        v & 0xFFFF == v % 0x1_0000,
{
}

/// Assembling bytes with shifts and ors denotes the same value as the
/// little-endian weighted sum.
pub proof fn lemma_or_bytes(b0: u8, b1: u8, b2: u8, b3: u8)
    by (bit_vector)
    ensures
        (b0 as u32) | ((b1 as u32) << 8) == b0 + 0x100 * b1,
        (b0 as u32) | ((b1 as u32) << 8) | ((b2 as u32) << 16) | ((b3 as u32) << 24) == b0
            + 0x100 * b1 + 0x1_0000 * b2 + 0x100_0000 * b3,
{
}

/// Sign-extend the low `bits` bits of `v` (assumed to fit) to a 32-bit word:
/// values below `2^(bits-1)` stay as they are, larger ones are shifted into
/// the top of the 32-bit range, preserving their two's-complement meaning.
/// At width 32 this is the identity.
pub open spec fn sext(v: u32, bits: u32) -> u32 {
    if v < (1u32 << ((bits - 1) as u32)) {
        v
    } else {
        (v + 0x1_0000_0000 - 2 * (1u32 << ((bits - 1) as u32))) as u32
    }
}

/// The two's-complement reading of a 32-bit word.
pub open spec fn as_signed(v: u32) -> int {
    if v < 0x8000_0000 {
        v as int
    } else {
        v - 0x1_0000_0000
    }
}

/// Sign extension by shifting left to the top of the word and arithmetically
/// shifting back down; width 32 returns the value unchanged.
pub fn sign_extend(value: u32, bits: u32) -> (r: u32)
    requires
        1 <= bits <= 32,
        bits == 32 || value < (1u32 << bits),
    ensures
        r == sext(value, bits),
{
    let shift = 32 - bits;
    let r = (((value << shift) as i32) >> shift) as u32;
    proof {
        assert(r == sext(value, bits)) by (bit_vector)
            requires
                1 <= bits <= 32,
                bits == 32 || value < (1u32 << bits),
                shift == 32 - bits,
                r == (((value << shift) as i32) >> shift) as u32,
        ;
    }
    r
}

} // verus!
