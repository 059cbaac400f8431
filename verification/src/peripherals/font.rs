//! The console font: one 16-row, 8-column bitmap per ASCII code point, the
//! most significant bit of each row byte being the leftmost pixel. The shapes
//! are classic 8x8 console glyphs with each row doubled to fill the 16-row
//! cell.

use vstd::prelude::*;

verus! {

/// Number of bytes in the font table: 128 glyphs of 16 row bytes each.
pub const FONT_BYTES: usize = 2048;

/// Append the sixteen row bytes of one glyph, leaving everything already in
/// the table untouched.
fn glyph(
    f: &mut Vec<u8>,
    r0: u8,
    r1: u8,
    r2: u8,
    r3: u8,
    r4: u8,
    r5: u8,
    r6: u8,
    r7: u8,
    r8: u8,
    r9: u8,
    r10: u8,
    r11: u8,
    r12: u8,
    r13: u8,
    r14: u8,
    r15: u8,
)
    ensures
        final(f)@.len() == old(f)@.len() + 16,
        forall|i: int| 0 <= i < old(f)@.len() ==> final(f)@[i] == old(f)@[i],
{
    f.push(r0);
    f.push(r1);
    f.push(r2);
    f.push(r3);
    f.push(r4);
    f.push(r5);
    f.push(r6);
    f.push(r7);
    f.push(r8);
    f.push(r9);
    f.push(r10);
    f.push(r11);
    f.push(r12);
    f.push(r13);
    f.push(r14);
    f.push(r15);
}

/// Append a blank glyph: sixteen zero rows.
fn blank_glyph(f: &mut Vec<u8>)
    ensures
        final(f)@.len() == old(f)@.len() + 16,
        forall|i: int| 0 <= i < old(f)@.len() ==> final(f)@[i] == old(f)@[i],
        forall|i: int| old(f)@.len() <= i < final(f)@.len() ==> final(f)@[i] == 0,
{
    let mut k: usize = 0;
    while k < 16
        invariant
            k <= 16,
            f@.len() == old(f)@.len() + k,
            forall|i: int| 0 <= i < old(f)@.len() ==> f@[i] == old(f)@[i],
            forall|i: int| old(f)@.len() <= i < f@.len() ==> f@[i] == 0,
        decreases 16 - k,
    {
        f.push(0);
        k = k + 1;
    }
}

/// The font table, glyph-major: byte `c * 16 + r` is row `r` of the glyph
/// for code point `c`. Code point 0 (bytes 0..16) and the space, code point
/// 0x20 (bytes 0x200..0x210), are blank, so a zeroed cell and a space cell
/// both render as solid background.
#[verifier::rlimit(100)]
pub fn font_table() -> (f: Vec<u8>)
    ensures
        f@.len() == FONT_BYTES,
        forall|r: int| 0 <= r < 16 ==> f@[r] == 0,
        forall|r: int| 0x200 <= r < 0x210 ==> f@[r] == 0,
{
    let mut f: Vec<u8> = Vec::new();
    // Code points 0x00 through 0x20: the control characters and the space,
    // all blank.
    let mut c: usize = 0;
    while c < 0x21
        invariant
            c <= 0x21,
            f@.len() == 16 * c,
            forall|i: int| 0 <= i < f@.len() ==> f@[i] == 0,
        decreases 0x21 - c,
    {
        blank_glyph(&mut f);
        c = c + 1;
    }
    // The printable code points 0x21 through 0x7E.

    glyph(&mut f, 0x30, 0x30, 0x78, 0x78, 0x78, 0x78, 0x30, 0x30, 0x30, 0x30, 0x00, 0x00, 0x30, 0x30, 0x00, 0x00);
    glyph(&mut f, 0x6C, 0x6C, 0x6C, 0x6C, 0x48, 0x48, 0x00, 0x00, 0x00, 0x00, 0x00, 0x00, 0x00, 0x00, 0x00, 0x00);
    glyph(&mut f, 0x6C, 0x6C, 0x6C, 0x6C, 0xFE, 0xFE, 0x6C, 0x6C, 0xFE, 0xFE, 0x6C, 0x6C, 0x6C, 0x6C, 0x00, 0x00);
    glyph(&mut f, 0x30, 0x30, 0x7C, 0x7C, 0xC0, 0xC0, 0x78, 0x78, 0x0C, 0x0C, 0xF8, 0xF8, 0x30, 0x30, 0x00, 0x00);
    glyph(&mut f, 0x00, 0x00, 0xC6, 0xC6, 0xCC, 0xCC, 0x18, 0x18, 0x30, 0x30, 0x66, 0x66, 0xC6, 0xC6, 0x00, 0x00);
    glyph(&mut f, 0x38, 0x38, 0x6C, 0x6C, 0x38, 0x38, 0x76, 0x76, 0xDC, 0xDC, 0xCC, 0xCC, 0x76, 0x76, 0x00, 0x00);
    glyph(&mut f, 0x60, 0x60, 0x60, 0x60, 0xC0, 0xC0, 0x00, 0x00, 0x00, 0x00, 0x00, 0x00, 0x00, 0x00, 0x00, 0x00);
    glyph(&mut f, 0x18, 0x18, 0x30, 0x30, 0x60, 0x60, 0x60, 0x60, 0x60, 0x60, 0x30, 0x30, 0x18, 0x18, 0x00, 0x00);
    glyph(&mut f, 0x60, 0x60, 0x30, 0x30, 0x18, 0x18, 0x18, 0x18, 0x18, 0x18, 0x30, 0x30, 0x60, 0x60, 0x00, 0x00);
    glyph(&mut f, 0x00, 0x00, 0x66, 0x66, 0x3C, 0x3C, 0xFF, 0xFF, 0x3C, 0x3C, 0x66, 0x66, 0x00, 0x00, 0x00, 0x00);
    glyph(&mut f, 0x00, 0x00, 0x30, 0x30, 0x30, 0x30, 0xFC, 0xFC, 0x30, 0x30, 0x30, 0x30, 0x00, 0x00, 0x00, 0x00);
    glyph(&mut f, 0x00, 0x00, 0x00, 0x00, 0x00, 0x00, 0x00, 0x00, 0x00, 0x00, 0x30, 0x30, 0x30, 0x30, 0x60, 0x60);
    glyph(&mut f, 0x00, 0x00, 0x00, 0x00, 0x00, 0x00, 0xFC, 0xFC, 0x00, 0x00, 0x00, 0x00, 0x00, 0x00, 0x00, 0x00);
    glyph(&mut f, 0x00, 0x00, 0x00, 0x00, 0x00, 0x00, 0x00, 0x00, 0x00, 0x00, 0x30, 0x30, 0x30, 0x30, 0x00, 0x00);
    glyph(&mut f, 0x06, 0x06, 0x0C, 0x0C, 0x18, 0x18, 0x30, 0x30, 0x60, 0x60, 0xC0, 0xC0, 0x80, 0x80, 0x00, 0x00);
    glyph(&mut f, 0x7C, 0x7C, 0xC6, 0xC6, 0xCE, 0xCE, 0xDE, 0xDE, 0xF6, 0xF6, 0xE6, 0xE6, 0x7C, 0x7C, 0x00, 0x00);
    proof {
        assert(forall|i: int| 0 <= i < 0x210 ==> f@[i] == 0);
    }
    glyph(&mut f, 0x30, 0x30, 0x70, 0x70, 0x30, 0x30, 0x30, 0x30, 0x30, 0x30, 0x30, 0x30, 0xFC, 0xFC, 0x00, 0x00);
    glyph(&mut f, 0x78, 0x78, 0xCC, 0xCC, 0x0C, 0x0C, 0x38, 0x38, 0x60, 0x60, 0xCC, 0xCC, 0xFC, 0xFC, 0x00, 0x00);
    glyph(&mut f, 0x78, 0x78, 0xCC, 0xCC, 0x0C, 0x0C, 0x38, 0x38, 0x0C, 0x0C, 0xCC, 0xCC, 0x78, 0x78, 0x00, 0x00);
    glyph(&mut f, 0x1C, 0x1C, 0x3C, 0x3C, 0x6C, 0x6C, 0xCC, 0xCC, 0xFE, 0xFE, 0x0C, 0x0C, 0x1E, 0x1E, 0x00, 0x00);
    glyph(&mut f, 0xFC, 0xFC, 0xC0, 0xC0, 0xF8, 0xF8, 0x0C, 0x0C, 0x0C, 0x0C, 0xCC, 0xCC, 0x78, 0x78, 0x00, 0x00);
    glyph(&mut f, 0x38, 0x38, 0x60, 0x60, 0xC0, 0xC0, 0xF8, 0xF8, 0xCC, 0xCC, 0xCC, 0xCC, 0x78, 0x78, 0x00, 0x00);
    glyph(&mut f, 0xFC, 0xFC, 0xCC, 0xCC, 0x0C, 0x0C, 0x18, 0x18, 0x30, 0x30, 0x30, 0x30, 0x30, 0x30, 0x00, 0x00);
    glyph(&mut f, 0x78, 0x78, 0xCC, 0xCC, 0xCC, 0xCC, 0x78, 0x78, 0xCC, 0xCC, 0xCC, 0xCC, 0x78, 0x78, 0x00, 0x00);
    glyph(&mut f, 0x78, 0x78, 0xCC, 0xCC, 0xCC, 0xCC, 0x7C, 0x7C, 0x0C, 0x0C, 0x18, 0x18, 0x70, 0x70, 0x00, 0x00);
    glyph(&mut f, 0x00, 0x00, 0x30, 0x30, 0x30, 0x30, 0x00, 0x00, 0x00, 0x00, 0x30, 0x30, 0x30, 0x30, 0x00, 0x00);
    glyph(&mut f, 0x00, 0x00, 0x30, 0x30, 0x30, 0x30, 0x00, 0x00, 0x00, 0x00, 0x30, 0x30, 0x30, 0x30, 0x60, 0x60);
    glyph(&mut f, 0x18, 0x18, 0x30, 0x30, 0x60, 0x60, 0xC0, 0xC0, 0x60, 0x60, 0x30, 0x30, 0x18, 0x18, 0x00, 0x00);
    glyph(&mut f, 0x00, 0x00, 0x00, 0x00, 0xFC, 0xFC, 0x00, 0x00, 0x00, 0x00, 0xFC, 0xFC, 0x00, 0x00, 0x00, 0x00);
    glyph(&mut f, 0x60, 0x60, 0x30, 0x30, 0x18, 0x18, 0x0C, 0x0C, 0x18, 0x18, 0x30, 0x30, 0x60, 0x60, 0x00, 0x00);
    glyph(&mut f, 0x78, 0x78, 0xCC, 0xCC, 0x0C, 0x0C, 0x18, 0x18, 0x30, 0x30, 0x00, 0x00, 0x30, 0x30, 0x00, 0x00);
    glyph(&mut f, 0x7C, 0x7C, 0xC6, 0xC6, 0xDE, 0xDE, 0xDE, 0xDE, 0xDE, 0xDE, 0xC0, 0xC0, 0x78, 0x78, 0x00, 0x00);
    proof {
        assert(forall|i: int| 0 <= i < 0x210 ==> f@[i] == 0);
    }
    glyph(&mut f, 0x30, 0x30, 0x78, 0x78, 0xCC, 0xCC, 0xCC, 0xCC, 0xFC, 0xFC, 0xCC, 0xCC, 0xCC, 0xCC, 0x00, 0x00);
    glyph(&mut f, 0xFC, 0xFC, 0x66, 0x66, 0x66, 0x66, 0x7C, 0x7C, 0x66, 0x66, 0x66, 0x66, 0xFC, 0xFC, 0x00, 0x00);
    glyph(&mut f, 0x3C, 0x3C, 0x66, 0x66, 0xC0, 0xC0, 0xC0, 0xC0, 0xC0, 0xC0, 0x66, 0x66, 0x3C, 0x3C, 0x00, 0x00);
    glyph(&mut f, 0xF8, 0xF8, 0x6C, 0x6C, 0x66, 0x66, 0x66, 0x66, 0x66, 0x66, 0x6C, 0x6C, 0xF8, 0xF8, 0x00, 0x00);
    glyph(&mut f, 0xFE, 0xFE, 0x62, 0x62, 0x68, 0x68, 0x78, 0x78, 0x68, 0x68, 0x62, 0x62, 0xFE, 0xFE, 0x00, 0x00);
    glyph(&mut f, 0xFE, 0xFE, 0x62, 0x62, 0x68, 0x68, 0x78, 0x78, 0x68, 0x68, 0x60, 0x60, 0xF0, 0xF0, 0x00, 0x00);
    glyph(&mut f, 0x3C, 0x3C, 0x66, 0x66, 0xC0, 0xC0, 0xC0, 0xC0, 0xCE, 0xCE, 0x66, 0x66, 0x3E, 0x3E, 0x00, 0x00);
    glyph(&mut f, 0xCC, 0xCC, 0xCC, 0xCC, 0xCC, 0xCC, 0xFC, 0xFC, 0xCC, 0xCC, 0xCC, 0xCC, 0xCC, 0xCC, 0x00, 0x00);
    glyph(&mut f, 0x78, 0x78, 0x30, 0x30, 0x30, 0x30, 0x30, 0x30, 0x30, 0x30, 0x30, 0x30, 0x78, 0x78, 0x00, 0x00);
    glyph(&mut f, 0x1E, 0x1E, 0x0C, 0x0C, 0x0C, 0x0C, 0x0C, 0x0C, 0xCC, 0xCC, 0xCC, 0xCC, 0x78, 0x78, 0x00, 0x00);
    glyph(&mut f, 0xE6, 0xE6, 0x66, 0x66, 0x6C, 0x6C, 0x78, 0x78, 0x6C, 0x6C, 0x66, 0x66, 0xE6, 0xE6, 0x00, 0x00);
    glyph(&mut f, 0xF0, 0xF0, 0x60, 0x60, 0x60, 0x60, 0x60, 0x60, 0x62, 0x62, 0x66, 0x66, 0xFE, 0xFE, 0x00, 0x00);
    glyph(&mut f, 0xC6, 0xC6, 0xEE, 0xEE, 0xFE, 0xFE, 0xFE, 0xFE, 0xD6, 0xD6, 0xC6, 0xC6, 0xC6, 0xC6, 0x00, 0x00);
    glyph(&mut f, 0xC6, 0xC6, 0xE6, 0xE6, 0xF6, 0xF6, 0xDE, 0xDE, 0xCE, 0xCE, 0xC6, 0xC6, 0xC6, 0xC6, 0x00, 0x00);
    glyph(&mut f, 0x38, 0x38, 0x6C, 0x6C, 0xC6, 0xC6, 0xC6, 0xC6, 0xC6, 0xC6, 0x6C, 0x6C, 0x38, 0x38, 0x00, 0x00);
    glyph(&mut f, 0xFC, 0xFC, 0x66, 0x66, 0x66, 0x66, 0x7C, 0x7C, 0x60, 0x60, 0x60, 0x60, 0xF0, 0xF0, 0x00, 0x00);
    proof {
        assert(forall|i: int| 0 <= i < 0x210 ==> f@[i] == 0);
    }
    glyph(&mut f, 0x78, 0x78, 0xCC, 0xCC, 0xCC, 0xCC, 0xCC, 0xCC, 0xDC, 0xDC, 0x78, 0x78, 0x1C, 0x1C, 0x00, 0x00);
    glyph(&mut f, 0xFC, 0xFC, 0x66, 0x66, 0x66, 0x66, 0x7C, 0x7C, 0x6C, 0x6C, 0x66, 0x66, 0xE6, 0xE6, 0x00, 0x00);
    glyph(&mut f, 0x78, 0x78, 0xCC, 0xCC, 0xE0, 0xE0, 0x70, 0x70, 0x1C, 0x1C, 0xCC, 0xCC, 0x78, 0x78, 0x00, 0x00);
    glyph(&mut f, 0xFC, 0xFC, 0xB4, 0xB4, 0x30, 0x30, 0x30, 0x30, 0x30, 0x30, 0x30, 0x30, 0x78, 0x78, 0x00, 0x00);
    glyph(&mut f, 0xCC, 0xCC, 0xCC, 0xCC, 0xCC, 0xCC, 0xCC, 0xCC, 0xCC, 0xCC, 0xCC, 0xCC, 0xFC, 0xFC, 0x00, 0x00);
    glyph(&mut f, 0xCC, 0xCC, 0xCC, 0xCC, 0xCC, 0xCC, 0xCC, 0xCC, 0xCC, 0xCC, 0x78, 0x78, 0x30, 0x30, 0x00, 0x00);
    glyph(&mut f, 0xC6, 0xC6, 0xC6, 0xC6, 0xC6, 0xC6, 0xD6, 0xD6, 0xFE, 0xFE, 0xEE, 0xEE, 0xC6, 0xC6, 0x00, 0x00);
    glyph(&mut f, 0xC6, 0xC6, 0xC6, 0xC6, 0x6C, 0x6C, 0x38, 0x38, 0x38, 0x38, 0x6C, 0x6C, 0xC6, 0xC6, 0x00, 0x00);
    glyph(&mut f, 0xCC, 0xCC, 0xCC, 0xCC, 0xCC, 0xCC, 0x78, 0x78, 0x30, 0x30, 0x30, 0x30, 0x78, 0x78, 0x00, 0x00);
    glyph(&mut f, 0xFE, 0xFE, 0xC6, 0xC6, 0x8C, 0x8C, 0x18, 0x18, 0x32, 0x32, 0x66, 0x66, 0xFE, 0xFE, 0x00, 0x00);
    glyph(&mut f, 0x78, 0x78, 0x60, 0x60, 0x60, 0x60, 0x60, 0x60, 0x60, 0x60, 0x60, 0x60, 0x78, 0x78, 0x00, 0x00);
    glyph(&mut f, 0xC0, 0xC0, 0x60, 0x60, 0x30, 0x30, 0x18, 0x18, 0x0C, 0x0C, 0x06, 0x06, 0x02, 0x02, 0x00, 0x00);
    glyph(&mut f, 0x78, 0x78, 0x18, 0x18, 0x18, 0x18, 0x18, 0x18, 0x18, 0x18, 0x18, 0x18, 0x78, 0x78, 0x00, 0x00);
    glyph(&mut f, 0x10, 0x10, 0x38, 0x38, 0x6C, 0x6C, 0xC6, 0xC6, 0x00, 0x00, 0x00, 0x00, 0x00, 0x00, 0x00, 0x00);
    glyph(&mut f, 0x00, 0x00, 0x00, 0x00, 0x00, 0x00, 0x00, 0x00, 0x00, 0x00, 0x00, 0x00, 0x00, 0x00, 0xFF, 0xFF);
    glyph(&mut f, 0x30, 0x30, 0x30, 0x30, 0x18, 0x18, 0x00, 0x00, 0x00, 0x00, 0x00, 0x00, 0x00, 0x00, 0x00, 0x00);
    proof {
        assert(forall|i: int| 0 <= i < 0x210 ==> f@[i] == 0);
    }
    glyph(&mut f, 0x00, 0x00, 0x00, 0x00, 0x78, 0x78, 0x0C, 0x0C, 0x7C, 0x7C, 0xCC, 0xCC, 0x76, 0x76, 0x00, 0x00);
    glyph(&mut f, 0xE0, 0xE0, 0x60, 0x60, 0x60, 0x60, 0x7C, 0x7C, 0x66, 0x66, 0x66, 0x66, 0xDC, 0xDC, 0x00, 0x00);
    glyph(&mut f, 0x00, 0x00, 0x00, 0x00, 0x78, 0x78, 0xCC, 0xCC, 0xC0, 0xC0, 0xCC, 0xCC, 0x78, 0x78, 0x00, 0x00);
    glyph(&mut f, 0x1C, 0x1C, 0x0C, 0x0C, 0x0C, 0x0C, 0x7C, 0x7C, 0xCC, 0xCC, 0xCC, 0xCC, 0x76, 0x76, 0x00, 0x00);
    glyph(&mut f, 0x00, 0x00, 0x00, 0x00, 0x78, 0x78, 0xCC, 0xCC, 0xFC, 0xFC, 0xC0, 0xC0, 0x78, 0x78, 0x00, 0x00);
    glyph(&mut f, 0x38, 0x38, 0x6C, 0x6C, 0x60, 0x60, 0xF0, 0xF0, 0x60, 0x60, 0x60, 0x60, 0xF0, 0xF0, 0x00, 0x00);
    glyph(&mut f, 0x00, 0x00, 0x00, 0x00, 0x76, 0x76, 0xCC, 0xCC, 0xCC, 0xCC, 0x7C, 0x7C, 0x0C, 0x0C, 0xF8, 0xF8);
    glyph(&mut f, 0xE0, 0xE0, 0x60, 0x60, 0x6C, 0x6C, 0x76, 0x76, 0x66, 0x66, 0x66, 0x66, 0xE6, 0xE6, 0x00, 0x00);
    glyph(&mut f, 0x30, 0x30, 0x00, 0x00, 0x70, 0x70, 0x30, 0x30, 0x30, 0x30, 0x30, 0x30, 0x78, 0x78, 0x00, 0x00);
    glyph(&mut f, 0x0C, 0x0C, 0x00, 0x00, 0x0C, 0x0C, 0x0C, 0x0C, 0x0C, 0x0C, 0xCC, 0xCC, 0xCC, 0xCC, 0x78, 0x78);
    glyph(&mut f, 0xE0, 0xE0, 0x60, 0x60, 0x66, 0x66, 0x6C, 0x6C, 0x78, 0x78, 0x6C, 0x6C, 0xE6, 0xE6, 0x00, 0x00);
    glyph(&mut f, 0x70, 0x70, 0x30, 0x30, 0x30, 0x30, 0x30, 0x30, 0x30, 0x30, 0x30, 0x30, 0x78, 0x78, 0x00, 0x00);
    glyph(&mut f, 0x00, 0x00, 0x00, 0x00, 0xCC, 0xCC, 0xFE, 0xFE, 0xFE, 0xFE, 0xD6, 0xD6, 0xC6, 0xC6, 0x00, 0x00);
    glyph(&mut f, 0x00, 0x00, 0x00, 0x00, 0xF8, 0xF8, 0xCC, 0xCC, 0xCC, 0xCC, 0xCC, 0xCC, 0xCC, 0xCC, 0x00, 0x00);
    glyph(&mut f, 0x00, 0x00, 0x00, 0x00, 0x78, 0x78, 0xCC, 0xCC, 0xCC, 0xCC, 0xCC, 0xCC, 0x78, 0x78, 0x00, 0x00);
    glyph(&mut f, 0x00, 0x00, 0x00, 0x00, 0xDC, 0xDC, 0x66, 0x66, 0x66, 0x66, 0x7C, 0x7C, 0x60, 0x60, 0xF0, 0xF0);
    proof {
        assert(forall|i: int| 0 <= i < 0x210 ==> f@[i] == 0);
    }
    glyph(&mut f, 0x00, 0x00, 0x00, 0x00, 0x76, 0x76, 0xCC, 0xCC, 0xCC, 0xCC, 0x7C, 0x7C, 0x0C, 0x0C, 0x1E, 0x1E);
    glyph(&mut f, 0x00, 0x00, 0x00, 0x00, 0xDC, 0xDC, 0x76, 0x76, 0x66, 0x66, 0x60, 0x60, 0xF0, 0xF0, 0x00, 0x00);
    glyph(&mut f, 0x00, 0x00, 0x00, 0x00, 0x7C, 0x7C, 0xC0, 0xC0, 0x78, 0x78, 0x0C, 0x0C, 0xF8, 0xF8, 0x00, 0x00);
    glyph(&mut f, 0x10, 0x10, 0x30, 0x30, 0x7C, 0x7C, 0x30, 0x30, 0x30, 0x30, 0x34, 0x34, 0x18, 0x18, 0x00, 0x00);
    glyph(&mut f, 0x00, 0x00, 0x00, 0x00, 0xCC, 0xCC, 0xCC, 0xCC, 0xCC, 0xCC, 0xCC, 0xCC, 0x76, 0x76, 0x00, 0x00);
    glyph(&mut f, 0x00, 0x00, 0x00, 0x00, 0xCC, 0xCC, 0xCC, 0xCC, 0xCC, 0xCC, 0x78, 0x78, 0x30, 0x30, 0x00, 0x00);
    glyph(&mut f, 0x00, 0x00, 0x00, 0x00, 0xC6, 0xC6, 0xD6, 0xD6, 0xFE, 0xFE, 0xFE, 0xFE, 0x6C, 0x6C, 0x00, 0x00);
    glyph(&mut f, 0x00, 0x00, 0x00, 0x00, 0xC6, 0xC6, 0x6C, 0x6C, 0x38, 0x38, 0x6C, 0x6C, 0xC6, 0xC6, 0x00, 0x00);
    glyph(&mut f, 0x00, 0x00, 0x00, 0x00, 0xCC, 0xCC, 0xCC, 0xCC, 0xCC, 0xCC, 0x7C, 0x7C, 0x0C, 0x0C, 0xF8, 0xF8);
    glyph(&mut f, 0x00, 0x00, 0x00, 0x00, 0xFC, 0xFC, 0x98, 0x98, 0x30, 0x30, 0x64, 0x64, 0xFC, 0xFC, 0x00, 0x00);
    glyph(&mut f, 0x1C, 0x1C, 0x30, 0x30, 0x30, 0x30, 0xE0, 0xE0, 0x30, 0x30, 0x30, 0x30, 0x1C, 0x1C, 0x00, 0x00);
    glyph(&mut f, 0x18, 0x18, 0x18, 0x18, 0x18, 0x18, 0x00, 0x00, 0x18, 0x18, 0x18, 0x18, 0x18, 0x18, 0x00, 0x00);
    glyph(&mut f, 0xE0, 0xE0, 0x30, 0x30, 0x30, 0x30, 0x1C, 0x1C, 0x30, 0x30, 0x30, 0x30, 0xE0, 0xE0, 0x00, 0x00);
    glyph(&mut f, 0x76, 0x76, 0xDC, 0xDC, 0x00, 0x00, 0x00, 0x00, 0x00, 0x00, 0x00, 0x00, 0x00, 0x00, 0x00, 0x00);
    // Code point 0x7F, blank.
    blank_glyph(&mut f);
    proof {
        assert(forall|i: int| 0 <= i < 0x210 ==> f@[i] == 0);
    }
    f
}

} // verus!
