//! Byte-addressable linear memory with little-endian sized access.

use vstd::prelude::*;
use crate::bits::le_value;
use crate::bits::store_le;
use crate::bits::lemma_le_value_store;
use crate::bits::lemma_or_bytes;
use crate::bits::lemma_store_le_frame;
use crate::bits::lemma_u32_bytes;
use crate::bits::pow256;

verus! {

/// A fixed-size byte store. Reads of 2 and 4 bytes assemble little-endian
/// bytes; writes decompose symmetrically. Accesses that run past the end are
/// rejected rather than performed partially.
pub struct Ram {
    data: Vec<u8>,
}

impl View for Ram {
    type V = Seq<u8>;

    closed spec fn view(&self) -> Seq<u8> {
        self.data@
    }
}

/// What a sized read of byte storage returns: `None` when the access runs
/// past the end, otherwise the value denoted by the addressed little-endian
/// bytes.
pub open spec fn bytes_read_spec(data: Seq<u8>, size: u8, off: u32) -> Option<u32> {
    if off + size <= data.len() {
        Some(le_value(data, off as int, size as nat) as u32)
    } else {
        None
    }
}

/// What a sized write leaves behind: `None` when the access runs past the
/// end, otherwise the storage with the low `size` bytes of `value` stored
/// little-endian at `off`.
pub open spec fn bytes_write_spec(data: Seq<u8>, size: u8, off: u32, value: u32) -> Option<
    Seq<u8>,
> {
    if off + size <= data.len() {
        Some(store_le(data, off as int, size as nat, value as nat))
    } else {
        None
    }
}

/// Memory round-trip: a sized write followed immediately by a read of the
/// same size at the same offset yields the written value back, for every
/// offset in range and every value that fits the size.
pub proof fn lemma_ram_round_trip(data: Seq<u8>, size: u8, off: u32, v: u32)
    requires
        size == 1 || size == 2 || size == 4,
        off + size <= data.len(),
        v < pow256(size as nat),
    ensures
        (bytes_write_spec(data, size, off, v) matches Some(d) && bytes_read_spec(d, size, off)
            == Some(v)),
{
    lemma_store_le_frame(data, off as int, size as nat, v as nat);
    lemma_le_value_store(data, off as int, size as nat, v as nat);
    let d = store_le(data, off as int, size as nat, v as nat);
    crate::bits::lemma_pow256_pos(size as nat);
    vstd::arithmetic::div_mod::lemma_small_mod(v as nat, pow256(size as nat));
    assert(v as nat % pow256(size as nat) == v as nat);
    assert(le_value(d, off as int, size as nat) == v as nat);
    assert(bytes_read_spec(d, size, off) == Some(v));
}

/// Little-endian composition: four bytes stored one at a time in address
/// order read back, as one 4-byte access at the base, as the little-endian
/// weighted sum of those bytes.
pub proof fn lemma_ram_byte_composition(data: Seq<u8>, off: u32, b0: u8, b1: u8, b2: u8, b3: u8)
    requires
        off + 4 <= data.len(),
        data.len() <= u32::MAX,
    ensures
        ({
            let d1 = bytes_write_spec(data, 1, off, b0 as u32).unwrap();
            let d2 = bytes_write_spec(d1, 1, (off + 1) as u32, b1 as u32).unwrap();
            let d3 = bytes_write_spec(d2, 1, (off + 2) as u32, b2 as u32).unwrap();
            let d4 = bytes_write_spec(d3, 1, (off + 3) as u32, b3 as u32).unwrap();
            &&& bytes_write_spec(data, 1, off, b0 as u32) is Some
            &&& bytes_write_spec(d1, 1, (off + 1) as u32, b1 as u32) is Some
            &&& bytes_write_spec(d2, 1, (off + 2) as u32, b2 as u32) is Some
            &&& bytes_write_spec(d3, 1, (off + 3) as u32, b3 as u32) is Some
            &&& bytes_read_spec(d4, 4, off) == Some(
                (b0 + 0x100 * b1 + 0x1_0000 * b2 + 0x100_0000 * b3) as u32,
            )
        }),
{
    let o = off as int;
    let d1 = store_le(data, o, 1, b0 as nat);
    let d2 = store_le(d1, o + 1, 1, b1 as nat);
    let d3 = store_le(d2, o + 2, 1, b2 as nat);
    let d4 = store_le(d3, o + 3, 1, b3 as nat);
    crate::bits::lemma_store_le_one(data, o, b0 as nat);
    crate::bits::lemma_store_le_one(d1, o + 1, b1 as nat);
    crate::bits::lemma_store_le_one(d2, o + 2, b2 as nat);
    crate::bits::lemma_store_le_one(d3, o + 3, b3 as nat);
    assert(d1 =~= data.update(o, b0));
    assert(d2 =~= d1.update(o + 1, b1));
    assert(d3 =~= d2.update(o + 2, b2));
    assert(d4 =~= d3.update(o + 3, b3));
    assert(d4[o] == b0);
    assert(d4[o + 1] == b1);
    assert(d4[o + 2] == b2);
    assert(d4[o + 3] == b3);
    assert(le_value(d4, o + 4, 0) == 0);
    assert(le_value(d4, o + 3, 1) == b3);
    assert(le_value(d4, o + 2, 2) == b2 + 0x100 * (b3 as nat));
    assert(le_value(d4, o + 1, 3) == b1 + 0x100 * (b2 + 0x100 * (b3 as nat)));
    assert(le_value(d4, o, 4) == b0 + 0x100 * (b1 + 0x100 * (b2 + 0x100 * (b3 as nat))));
}

impl Ram {
    /// A zero-filled memory of `size` bytes.
    pub fn new(size: usize) -> (r: Ram)
        ensures
            r@.len() == size,
            forall|i: int| 0 <= i < size ==> r@[i] == 0,
    {
        let mut data: Vec<u8> = Vec::new();
        while data.len() < size
            invariant
                data@.len() <= size,
                forall|i: int| 0 <= i < data@.len() ==> data@[i] == 0,
            decreases size - data@.len(),
        {
            data.push(0);
        }
        Ram { data }
    }

    /// The capacity in bytes.
    pub fn size(&self) -> (s: u32)
        requires
            self@.len() <= u32::MAX,
        ensures
            s == self@.len(),
    {
        self.data.len() as u32
    }

    /// Sized little-endian read at a device-local offset.
    pub fn read(&self, size: u8, addr: u32) -> (r: Option<u32>)
        requires
            size == 1 || size == 2 || size == 4,
        ensures
            r == bytes_read_spec(self@, size, addr),
    {
        read_le_bytes(&self.data, size, addr)
    }

    /// Sized little-endian write at a device-local offset.
    pub fn write(&mut self, size: u8, addr: u32, value: u32) -> (r: Result<(), ()>)
        requires
            size == 1 || size == 2 || size == 4,
        ensures
            match bytes_write_spec(old(self)@, size, addr, value) {
                Some(d) => r is Ok && final(self)@ == d,
                None => r is Err && final(self)@ == old(self)@,
            },
    {
        write_le_bytes(&mut self.data, size, addr, value)
    }
}

/// Sized little-endian read from a byte vector; shared by every device that
/// stores raw bytes.
pub fn read_le_bytes(data: &Vec<u8>, size: u8, addr: u32) -> (r: Option<u32>)
    requires
        size == 1 || size == 2 || size == 4,
    ensures
        r == bytes_read_spec(data@, size, addr),
{
    let o = addr as usize;
    let n = data.len();
    if size == 1 {
        if o < n {
            proof {
                assert(le_value(data@, o as int, 1) == data@[o as int] + 0x100 * le_value(
                    data@,
                    o + 1,
                    0,
                ));
            }
            Some(data[o] as u32)
        } else {
            None
        }
    } else if size == 2 {
        if n >= 2 && o <= n - 2 {
            let b0 = data[o];
            let b1 = data[o + 1];
            proof {
                assert(le_value(data@, o + 2, 0) == 0);
                assert(le_value(data@, o + 1, 1) == data@[o + 1] + 0x100 * le_value(
                    data@,
                    o + 2,
                    0,
                ));
                assert(le_value(data@, o as int, 2) == data@[o as int] + 0x100 * le_value(
                    data@,
                    o + 1,
                    1,
                ));
                lemma_or_bytes(b0, b1, 0, 0);
            }
            Some((b0 as u32) | ((b1 as u32) << 8))
        } else {
            None
        }
    } else {
        if n >= 4 && o <= n - 4 {
            let b0 = data[o];
            let b1 = data[o + 1];
            let b2 = data[o + 2];
            let b3 = data[o + 3];
            proof {
                assert(le_value(data@, o + 4, 0) == 0);
                assert(le_value(data@, o + 3, 1) == data@[o + 3] + 0x100 * le_value(
                    data@,
                    o + 4,
                    0,
                ));
                assert(le_value(data@, o + 2, 2) == data@[o + 2] + 0x100 * le_value(
                    data@,
                    o + 3,
                    1,
                ));
                assert(le_value(data@, o + 1, 3) == data@[o + 1] + 0x100 * le_value(
                    data@,
                    o + 2,
                    2,
                ));
                assert(le_value(data@, o as int, 4) == data@[o as int] + 0x100 * le_value(
                    data@,
                    o + 1,
                    3,
                ));
                lemma_or_bytes(b0, b1, b2, b3);
            }
            Some((b0 as u32) | ((b1 as u32) << 8) | ((b2 as u32) << 16) | ((b3 as u32) << 24))
        } else {
            None
        }
    }
}

/// Sized little-endian write into a byte vector; shared by every device that
/// stores raw bytes.
pub fn write_le_bytes(data: &mut Vec<u8>, size: u8, addr: u32, value: u32) -> (r: Result<(), ()>)
    requires
        size == 1 || size == 2 || size == 4,
    ensures
        match bytes_write_spec(old(data)@, size, addr, value) {
            Some(d) => r is Ok && final(data)@ == d,
            None => r is Err && final(data)@ == old(data)@,
        },
{
    let o = addr as usize;
    let n = data.len();
    proof {
        lemma_u32_bytes(value);
        lemma_u32_bytes(value >> 8);
        lemma_u32_bytes(value >> 16);
        assert((value >> 8) >> 8 == value >> 16) by (bit_vector);
        assert((value >> 16) >> 8 == value >> 24) by (bit_vector);
        assert(value >> 24 == (value / 0x100_0000) % 0x100) by (bit_vector);
    }
    if size == 1 {
        if o < n {
            let ghost s0 = data@;
            data.set(o, (value & 0xFF) as u8);
            proof {
                assert(store_le(s0, o as int, 1, value as nat) == store_le(
                    s0.update(o as int, (value as nat % 0x100) as u8),
                    o + 1,
                    0,
                    value as nat / 0x100,
                ));
                assert((value & 0xFF) as u8 == (value as nat % 0x100) as u8);
            }
            Ok(())
        } else {
            Err(())
        }
    } else if size == 2 {
        if n >= 2 && o <= n - 2 {
            let ghost s0 = data@;
            data.set(o, (value & 0xFF) as u8);
            data.set(o + 1, ((value >> 8) & 0xFF) as u8);
            proof {
                let v = value as nat;
                let s1 = s0.update(o as int, (v % 0x100) as u8);
                let s2 = s1.update(o + 1, (v / 0x100 % 0x100) as u8);
                assert(store_le(s0, o as int, 2, v) == store_le(s1, o + 1, 1, v / 0x100));
                assert(store_le(s1, o + 1, 1, v / 0x100) == store_le(s2, o + 2, 0, v / 0x100 / 0x100));
                assert(data@ =~= s2);
            }
            Ok(())
        } else {
            Err(())
        }
    } else {
        if n >= 4 && o <= n - 4 {
            let ghost s0 = data@;
            data.set(o, (value & 0xFF) as u8);
            data.set(o + 1, ((value >> 8) & 0xFF) as u8);
            data.set(o + 2, ((value >> 16) & 0xFF) as u8);
            data.set(o + 3, ((value >> 24) & 0xFF) as u8);
            proof {
                let v = value as nat;
                let s1 = s0.update(o as int, (v % 0x100) as u8);
                let s2 = s1.update(o + 1, (v / 0x100 % 0x100) as u8);
                let s3 = s2.update(o + 2, (v / 0x1_0000 % 0x100) as u8);
                let s4 = s3.update(o + 3, (v / 0x100_0000 % 0x100) as u8);
                assert(store_le(s0, o as int, 4, v) == store_le(s1, o + 1, 3, v / 0x100));
                assert(store_le(s1, o + 1, 3, v / 0x100) == store_le(s2, o + 2, 2, v / 0x100 / 0x100));
                assert(v / 0x100 / 0x100 == v / 0x1_0000) by {
                    vstd::arithmetic::div_mod::lemma_div_denominator(v as int, 0x100, 0x100);
                };
                assert(store_le(s2, o + 2, 2, v / 0x1_0000) == store_le(
                    s3,
                    o + 3,
                    1,
                    v / 0x1_0000 / 0x100,
                ));
                assert(v / 0x1_0000 / 0x100 == v / 0x100_0000) by {
                    vstd::arithmetic::div_mod::lemma_div_denominator(v as int, 0x1_0000, 0x100);
                };
                assert(store_le(s3, o + 3, 1, v / 0x100_0000) == store_le(
                    s4,
                    o + 4,
                    0,
                    v / 0x100_0000 / 0x100,
                ));
                assert(data@ =~= s4);
            }
            Ok(())
        } else {
            Err(())
        }
    }
}

} // verus!
