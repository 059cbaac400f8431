//! The text-mode display: a character/attribute matrix rasterized to pixels.
//!
//! The device stores `_TEXT_WIDTH x _TEXT_HEIGHT` cells of two bytes each
//! (character code, then attribute) and keeps an RGBA8888 pixel image of the
//! whole frame. A 2-byte write that changes a cell re-rasterizes the frame; a
//! 2-byte write that stores what a cell already holds leaves the image
//! byte-identical; 1- and 4-byte writes only update the raw cell bytes.

use vstd::prelude::*;
use crate::_TEXT_HEIGHT;
use crate::_TEXT_WIDTH;
use crate::SCREEN_HEIGHT;
use crate::SCREEN_WIDTH;
use crate::peripherals::font::FONT_BYTES;
use crate::peripherals::font::font_table;
use crate::peripherals::ram::bytes_read_spec;
use crate::peripherals::ram::bytes_write_spec;
use crate::peripherals::ram::read_le_bytes;
use crate::peripherals::ram::write_le_bytes;
use crate::bits::store_le;

verus! {

/// The state of the display: the raw cell bytes, the published pixel image,
/// and the glyph table.
pub struct TextView {
    pub text: Seq<u8>,
    pub pixels: Seq<u8>,
    pub font: Seq<u8>,
}

/// Foreground and background of one cell, each as an RGB triple.
pub struct Attribute {
    pub fg: (u8, u8, u8),
    pub bg: (u8, u8, u8),
}

/// The character/attribute buffer together with its rasterized pixel image.
pub struct TextMode {
    text_data: Vec<u8>,
    screen_data: Vec<u8>,
    font: Vec<u8>,
}

impl View for TextMode {
    type V = TextView;

    closed spec fn view(&self) -> TextView {
        TextView { text: self.text_data@, pixels: self.screen_data@, font: self.font@ }
    }
}

/// Structural validity: the buffer sizes the device was built with.
pub open spec fn text_wf(t: TextView) -> bool {
    &&& t.text.len() == _TEXT_WIDTH * _TEXT_HEIGHT * 2
    &&& t.pixels.len() == SCREEN_WIDTH * SCREEN_HEIGHT * 4
    &&& t.font.len() == FONT_BYTES
}

/// The fixed 16-colour foreground palette, indexed by the low attribute
/// nibble.
pub open spec fn fg_color_spec(idx: u8) -> (u8, u8, u8) {
    if idx == 0x0 {
        (0u8, 0u8, 0u8)  // black
    } else if idx == 0x1 {
        (127u8, 0u8, 0u8)  // red
    } else if idx == 0x2 {
        (0u8, 127u8, 0u8)  // green
    } else if idx == 0x3 {
        (127u8, 127u8, 0u8)  // yellow
    } else if idx == 0x4 {
        (0u8, 0u8, 127u8)  // blue
    } else if idx == 0x5 {
        (127u8, 0u8, 127u8)  // magenta
    } else if idx == 0x6 {
        (0u8, 127u8, 127u8)  // cyan
    } else if idx == 0x7 {
        (64u8, 64u8, 64u8)  // dark gray
    } else if idx == 0x8 {
        (128u8, 128u8, 128u8)  // light gray
    } else if idx == 0x9 {
        (255u8, 0u8, 0u8)  // intense red
    } else if idx == 0xA {
        (0u8, 255u8, 0u8)  // intense green
    } else if idx == 0xB {
        (255u8, 255u8, 0u8)  // intense yellow
    } else if idx == 0xC {
        (0u8, 0u8, 255u8)  // intense blue
    } else if idx == 0xD {
        (255u8, 0u8, 255u8)  // intense magenta
    } else if idx == 0xE {
        (0u8, 255u8, 255u8)  // intense cyan
    } else {
        (255u8, 255u8, 255u8)  // intense white
    }
}

/// The fixed 8-colour background palette, indexed by attribute bits 4 to 6.
pub open spec fn bg_color_spec(idx: u8) -> (u8, u8, u8) {
    if idx == 0x0 {
        (0u8, 0u8, 0u8)  // black
    } else if idx == 0x1 {
        (255u8, 0u8, 0u8)  // red
    } else if idx == 0x2 {
        (0u8, 255u8, 0u8)  // green
    } else if idx == 0x3 {
        (255u8, 255u8, 0u8)  // yellow
    } else if idx == 0x4 {
        (0u8, 0u8, 255u8)  // blue
    } else if idx == 0x5 {
        (255u8, 0u8, 255u8)  // magenta
    } else if idx == 0x6 {
        (0u8, 255u8, 255u8)  // cyan
    } else {
        (255u8, 255u8, 255u8)  // white
    }
}

/// Whether the glyph pixel at column `gx`, row `gy` of the glyph for `ch` is
/// set. The high bit of `ch` is ignored, and the most significant bit of a
/// row byte is its leftmost pixel.
pub open spec fn glyph_on(font: Seq<u8>, ch: u8, gy: int, gx: int) -> bool {
    (font[(ch & 0x7F) * 16 + gy] >> ((7 - gx) as u8)) & 1 == 1
}

/// The RGB colour of screen pixel `(x, y)`: the cell at `(y / 32, x / 16)`
/// paints its glyph scaled by two, foreground where the glyph bit is set and
/// background elsewhere.
pub open spec fn pixel_color(text: Seq<u8>, font: Seq<u8>, x: int, y: int) -> (u8, u8, u8) {
    let col = x / 16;
    let row = y / 32;
    let gx = (x % 16) / 2;
    let gy = (y % 32) / 2;
    let ci = (row * (_TEXT_WIDTH as int) + col) * 2;
    let ch = text[ci];
    let attr = text[ci + 1];
    if glyph_on(font, ch, gy, gx) {
        fg_color_spec(attr & 0xF)
    } else {
        bg_color_spec((attr >> 4) & 0x7)
    }
}

/// Byte `i` of the rendered RGBA image: pixel `i / 4` row-major, channels in
/// R, G, B, A order with the alpha channel fully opaque.
pub open spec fn channel_at(text: Seq<u8>, font: Seq<u8>, i: int) -> u8 {
    let p = i / 4;
    let x = p % (SCREEN_WIDTH as int);
    let y = p / (SCREEN_WIDTH as int);
    let c = pixel_color(text, font, x, y);
    if i % 4 == 0 {
        c.0
    } else if i % 4 == 1 {
        c.1
    } else if i % 4 == 2 {
        c.2
    } else {
        255u8
    }
}

/// The full RGBA image of a text buffer under a font.
pub open spec fn render_image(text: Seq<u8>, font: Seq<u8>) -> Seq<u8> {
    Seq::new((SCREEN_WIDTH * SCREEN_HEIGHT * 4) as nat, |i: int| channel_at(text, font, i))
}

/// What a write does to the device. 1- and 4-byte writes store raw bytes and
/// leave the image alone. A 2-byte write that repeats the cell's contents
/// changes nothing; one that differs stores the bytes and re-renders the
/// whole image. A write that runs past the buffer is rejected.
pub open spec fn text_write_spec(t: TextView, size: u8, off: u32, value: u32) -> Option<TextView> {
    if size == 2 {
        if off + 2 <= t.text.len() {
            if t.text[off as int] == (value & 0xFF) as u8 && t.text[off + 1] == ((value >> 8)
                & 0xFF) as u8 {
                Some(t)
            } else {
                let nt = store_le(t.text, off as int, 2, value as nat);
                Some(TextView { text: nt, pixels: render_image(nt, t.font), font: t.font })
            }
        } else {
            None
        }
    } else {
        match bytes_write_spec(t.text, size, off, value) {
            Some(nt) => Some(TextView { text: nt, pixels: t.pixels, font: t.font }),
            None => None,
        }
    }
}

impl TextMode {
    /// A blank display: every cell zero, the image rendered once from it.
    pub fn new() -> (r: TextMode)
        ensures
            text_wf(r@),
            forall|i: int| 0 <= i < r@.text.len() ==> r@.text[i] == 0,
            r@.pixels == render_image(r@.text, r@.font),
    {
        let mut text_data: Vec<u8> = Vec::new();
        let cells: usize = (_TEXT_WIDTH * _TEXT_HEIGHT * 2) as usize;
        while text_data.len() < cells
            invariant
                text_data@.len() <= cells,
                forall|i: int| 0 <= i < text_data@.len() ==> text_data@[i] == 0,
            decreases cells - text_data@.len(),
        {
            text_data.push(0);
        }
        let font = font_table();
        let screen_data = render_to_pixels(&text_data, &font);
        TextMode { text_data, screen_data, font }
    }

    /// The foreground and background colours encoded by an attribute byte:
    /// low nibble foreground, bits 4 to 6 background, bit 7 ignored.
    pub fn read_attribute(&self, attribute: u8) -> (r: Attribute)
        ensures
            r.fg == fg_color_spec(attribute & 0xF),
            r.bg == bg_color_spec((attribute >> 4) & 0x7),
    {
        Attribute { fg: fg_lookup(attribute & 0xF), bg: bg_lookup((attribute >> 4) & 0x7) }
    }

    /// A snapshot of the published pixel image.
    pub fn handle(&self) -> (r: Vec<u8>)
        ensures
            r@ == self@.pixels,
    {
        self.screen_data.clone()
    }

    /// Rasterize the current cell contents to a fresh RGBA image.
    pub fn convert_vec_to_img(&self) -> (img: Vec<u8>)
        requires
            text_wf(self@),
        ensures
            img@ == render_image(self@.text, self@.font),
    {
        render_to_pixels(&self.text_data, &self.font)
    }

    /// Sized little-endian read of the raw cell bytes.
    pub fn read(&self, size: u8, addr: u32) -> (r: Option<u32>)
        requires
            size == 1 || size == 2 || size == 4,
        ensures
            r == bytes_read_spec(self@.text, size, addr),
    {
        read_le_bytes(&self.text_data, size, addr)
    }

    /// Sized write of cell bytes; a changed 2-byte cell store publishes a
    /// freshly rendered image.
    pub fn write(&mut self, size: u8, addr: u32, value: u32) -> (r: Result<(), ()>)
        requires
            size == 1 || size == 2 || size == 4,
            text_wf(old(self)@),
        ensures
            text_wf(final(self)@),
            match text_write_spec(old(self)@, size, addr, value) {
                Some(t) => r is Ok && final(self)@ == t,
                None => r is Err && final(self)@ == old(self)@,
            },
    {
        if size == 2 {
            let o = addr as usize;
            let n = self.text_data.len();
            if n >= 2 && o <= n - 2 {
                let b0 = (value & 0xFF) as u8;
                let b1 = ((value >> 8) & 0xFF) as u8;
                if self.text_data[o] == b0 && self.text_data[o + 1] == b1 {
                    Ok(())
                } else {
                    let ghost t0 = self.text_data@;
                    let res = write_le_bytes(&mut self.text_data, 2, addr, value);
                    proof {
                        crate::bits::lemma_u32_bytes(value);
                        crate::bits::lemma_u32_bytes(value >> 8);
                        crate::bits::lemma_store_le_frame(t0, addr as int, 2, value as nat);
                        assert(res is Ok);
                    }
                    let img = render_to_pixels(&self.text_data, &self.font);
                    self.screen_data = img;
                    Ok(())
                }
            } else {
                Err(())
            }
        } else {
            let ghost t0 = self@;
            let r = write_le_bytes(&mut self.text_data, size, addr, value);
            proof {
                match bytes_write_spec(t0.text, size, addr, value) {
                    Some(nt) => {
                        crate::bits::lemma_store_le_frame(
                            t0.text,
                            addr as int,
                            size as nat,
                            value as nat,
                        );
                    },
                    None => {},
                }
            }
            r
        }
    }
}

/// Exact lookup of the foreground palette.
fn fg_lookup(idx: u8) -> (c: (u8, u8, u8))
    ensures
        c == fg_color_spec(idx),
{
    if idx == 0x0 {
        (0, 0, 0)
    } else if idx == 0x1 {
        (127, 0, 0)
    } else if idx == 0x2 {
        (0, 127, 0)
    } else if idx == 0x3 {
        (127, 127, 0)
    } else if idx == 0x4 {
        (0, 0, 127)
    } else if idx == 0x5 {
        (127, 0, 127)
    } else if idx == 0x6 {
        (0, 127, 127)
    } else if idx == 0x7 {
        (64, 64, 64)
    } else if idx == 0x8 {
        (128, 128, 128)
    } else if idx == 0x9 {
        (255, 0, 0)
    } else if idx == 0xA {
        (0, 255, 0)
    } else if idx == 0xB {
        (255, 255, 0)
    } else if idx == 0xC {
        (0, 0, 255)
    } else if idx == 0xD {
        (255, 0, 255)
    } else if idx == 0xE {
        (0, 255, 255)
    } else {
        (255, 255, 255)
    }
}

/// Exact lookup of the background palette.
fn bg_lookup(idx: u8) -> (c: (u8, u8, u8))
    ensures
        c == bg_color_spec(idx),
{
    if idx == 0x0 {
        (0, 0, 0)
    } else if idx == 0x1 {
        (255, 0, 0)
    } else if idx == 0x2 {
        (0, 255, 0)
    } else if idx == 0x3 {
        (255, 255, 0)
    } else if idx == 0x4 {
        (0, 0, 255)
    } else if idx == 0x5 {
        (255, 0, 255)
    } else if idx == 0x6 {
        (0, 255, 255)
    } else {
        (255, 255, 255)
    }
}

/// The colour of one screen pixel, straight from the cell bytes and the
/// glyph row it falls in.
fn pixel_lookup(text: &Vec<u8>, font: &Vec<u8>, x: u32, y: u32) -> (c: (u8, u8, u8))
    requires
        text@.len() == _TEXT_WIDTH * _TEXT_HEIGHT * 2,
        font@.len() == FONT_BYTES,
        x < SCREEN_WIDTH,
        y < SCREEN_HEIGHT,
    ensures
        c == pixel_color(text@, font@, x as int, y as int),
{
    let col = (x / 16) as usize;
    let row = (y / 32) as usize;
    let gx = ((x % 16) / 2) as u8;
    let gy = ((y % 32) / 2) as usize;
    proof {
        assert(col < 64);
        assert(row < 19);
        assert(gx < 8);
        assert(gy < 16);
    }
    let ci = (row * 64 + col) * 2;
    let ch = text[ci];
    let attr = text[ci + 1];
    let glyph_index = ((ch & 0x7F) as usize) * 16 + gy;
    proof {
        assert((ch & 0x7F) < 128) by (bit_vector);
        assert(7 - gx < 8);
    }
    let row_byte = font[glyph_index];
    let on = (row_byte >> (7 - gx)) & 1 == 1;
    if on {
        fg_lookup(attr & 0xF)
    } else {
        bg_lookup((attr >> 4) & 0x7)
    }
}

/// Rasterize a text buffer under a font into a fresh RGBA image, pixel by
/// pixel in row-major order.
pub fn render_to_pixels(text: &Vec<u8>, font: &Vec<u8>) -> (img: Vec<u8>)
    requires
        text@.len() == _TEXT_WIDTH * _TEXT_HEIGHT * 2,
        font@.len() == FONT_BYTES,
    ensures
        img@ == render_image(text@, font@),
{
    let mut img: Vec<u8> = Vec::new();
    let total: usize = SCREEN_WIDTH * SCREEN_HEIGHT;
    let mut p: usize = 0;
    while p < total
        invariant
            text@.len() == _TEXT_WIDTH * _TEXT_HEIGHT * 2,
            font@.len() == FONT_BYTES,
            total == SCREEN_WIDTH * SCREEN_HEIGHT,
            p <= total,
            img@.len() == 4 * p,
            forall|i: int| 0 <= i < 4 * p ==> img@[i] == channel_at(text@, font@, i),
        decreases total - p,
    {
        let x = (p % SCREEN_WIDTH) as u32;
        let y = (p / SCREEN_WIDTH) as u32;
        let c = pixel_lookup(text, font, x, y);
        img.push(c.0);
        img.push(c.1);
        img.push(c.2);
        img.push(255);
        proof {
            assert forall|i: int| 4 * p <= i < 4 * (p + 1) implies img@[i] == channel_at(
                text@,
                font@,
                i,
            ) by {
                assert(i / 4 == p);
                assert(channel_at(text@, font@, i) == {
                    let cc = pixel_color(text@, font@, p as int % (SCREEN_WIDTH as int), p as int / (SCREEN_WIDTH as int));
                    if i % 4 == 0 {
                        cc.0
                    } else if i % 4 == 1 {
                        cc.1
                    } else if i % 4 == 2 {
                        cc.2
                    } else {
                        255u8
                    }
                });
            }
        }
        p = p + 1;
    }
    proof {
        assert(img@ =~= render_image(text@, font@));
    }
    img
}

} // verus!
