//! The program image format: whitespace-separated hexadecimal machine words.
//!
//! Each token is a 32-bit word in hexadecimal, optionally prefixed `0x` or
//! `0X`, with underscores ignored. The parser turns the raw bytes of such a
//! file into the word list that is loaded into RAM.

use vstd::prelude::*;

verus! {

/// Why an image failed to parse: a token with no hexadecimal digits or with
/// a byte that is not one, or a token whose value does not fit in 32 bits.
#[derive(Clone, Copy, PartialEq, Eq, Structural, Debug)]
pub enum ImageError {
    InvalidToken,
    Overflow,
}

/// ASCII whitespace: the token separators.
pub open spec fn is_ws(b: u8) -> bool {
    b == 0x20 || b == 0x09 || b == 0x0A || b == 0x0B || b == 0x0C || b == 0x0D
}

/// The value of a hexadecimal digit byte, either case.
pub open spec fn hex_digit_val(b: u8) -> Option<u32> {
    if 0x30 <= b <= 0x39 {
        Some((b - 0x30) as u32)
    } else if 0x41 <= b <= 0x46 {
        Some((b - 0x41 + 10) as u32)
    } else if 0x61 <= b <= 0x66 {
        Some((b - 0x61 + 10) as u32)
    } else {
        None
    }
}

/// The value of the digits of token `t` from position `i` on, accumulated
/// onto `acc`. Underscores are skipped; `seen` records whether any digit has
/// appeared yet, so that a token with none is rejected; a value that leaves
/// 32 bits overflows.
pub open spec fn token_digits(t: Seq<u8>, i: int, acc: u32, seen: bool) -> Result<u32, ImageError>
    decreases t.len() - i,
{
    if i < 0 || i >= t.len() {
        if seen {
            Ok(acc)
        } else {
            Err(ImageError::InvalidToken)
        }
    } else if t[i] == 0x5F {
        token_digits(t, i + 1, acc, seen)
    } else {
        match hex_digit_val(t[i]) {
            None => Err(ImageError::InvalidToken),
            Some(d) => {
                if 16 * acc + d < 0x1_0000_0000 {
                    token_digits(t, i + 1, (16 * acc + d) as u32, true)
                } else {
                    Err(ImageError::Overflow)
                }
            },
        }
    }
}

/// The value of one token: an optional `0x`/`0X` prefix, then hexadecimal
/// digits with underscores ignored.
pub open spec fn token_value(t: Seq<u8>) -> Result<u32, ImageError> {
    if t.len() >= 2 && t[0] == 0x30 && (t[1] == 0x78 || t[1] == 0x58) {
        token_digits(t, 2, 0, false)
    } else {
        token_digits(t, 0, 0, false)
    }
}

/// The parse state after reading `s` up to position `i`: `cur` is the token
/// being read (meaningful when `has` holds) and `acc` the words parsed so
/// far. The first bad token decides the error.
pub open spec fn parse_loop(s: Seq<u8>, i: int, has: bool, cur: Seq<u8>, acc: Seq<u32>) -> Result<
    Seq<u32>,
    ImageError,
>
    decreases s.len() - i,
{
    if i < 0 || i >= s.len() {
        if has {
            match token_value(cur) {
                Ok(v) => Ok(acc.push(v)),
                Err(e) => Err(e),
            }
        } else {
            Ok(acc)
        }
    } else if is_ws(s[i]) {
        if has {
            match token_value(cur) {
                Ok(v) => parse_loop(s, i + 1, false, Seq::<u8>::empty(), acc.push(v)),
                Err(e) => Err(e),
            }
        } else {
            parse_loop(s, i + 1, false, cur, acc)
        }
    } else {
        parse_loop(
            s,
            i + 1,
            true,
            if has {
                cur.push(s[i])
            } else {
                seq![s[i]]
            },
            acc,
        )
    }
}

/// The words denoted by the bytes of an image file.
pub open spec fn parse_image_spec(s: Seq<u8>) -> Result<Seq<u32>, ImageError> {
    parse_loop(s, 0, false, Seq::<u8>::empty(), Seq::<u32>::empty())
}

/// Parse one token.
fn parse_token(t: &Vec<u8>) -> (r: Result<u32, ImageError>)
    ensures
        r == token_value(t@),
{
    let start: usize = if t.len() >= 2 && t[0] == 0x30 && (t[1] == 0x78 || t[1] == 0x58) {
        2
    } else {
        0
    };
    let mut i: usize = start;
    let mut acc: u32 = 0;
    let mut seen: bool = false;
    while i < t.len()
        invariant
            start <= i <= t@.len(),
            token_value(t@) == token_digits(t@, i as int, acc, seen),
        decreases t@.len() - i,
    {
        let b = t[i];
        if b == 0x5F {
            i = i + 1;
        } else {
            let d: u32 = if 0x30 <= b && b <= 0x39 {
                (b - 0x30) as u32
            } else if 0x41 <= b && b <= 0x46 {
                (b - 0x41 + 10) as u32
            } else if 0x61 <= b && b <= 0x66 {
                (b - 0x61 + 10) as u32
            } else {
                return Err(ImageError::InvalidToken);
            };
            let wide: u64 = 16 * (acc as u64) + (d as u64);
            if wide > 0xFFFF_FFFF {
                return Err(ImageError::Overflow);
            }
            acc = wide as u32;
            seen = true;
            i = i + 1;
        }
    }
    if seen {
        Ok(acc)
    } else {
        Err(ImageError::InvalidToken)
    }
}

/// Parse a whole image file: whitespace-separated hexadecimal words, in
/// order.
pub fn parse_hex_image(data: &Vec<u8>) -> (r: Result<Vec<u32>, ImageError>)
    ensures
        match parse_image_spec(data@) {
            Ok(ws) => r is Ok && r->Ok_0@ == ws,
            Err(e) => r == Err::<Vec<u32>, ImageError>(e),
        },
{
    let mut words: Vec<u32> = Vec::new();
    let mut cur: Vec<u8> = Vec::new();
    let mut has: bool = false;
    let mut i: usize = 0;
    while i < data.len()
        invariant
            i <= data@.len(),
            has || cur@.len() == 0,
            parse_image_spec(data@) == parse_loop(data@, i as int, has, cur@, words@),
        decreases data@.len() - i,
    {
        let b = data[i];
        let ghost pre_cur = cur@;
        let ghost pre_words = words@;
        if b == 0x20 || b == 0x09 || b == 0x0A || b == 0x0B || b == 0x0C || b == 0x0D {
            if has {
                match parse_token(&cur) {
                    Ok(v) => {
                        words.push(v);
                        cur.clear();
                        has = false;
                    },
                    Err(e) => {
                        return Err(e);
                    },
                }
            }
        } else {
            if has {
                cur.push(b);
            } else {
                cur.push(b);
                has = true;
                proof {
                    assert(cur@ =~= seq![b]);
                }
            }
        }
        i = i + 1;
    }
    if has {
        match parse_token(&cur) {
            Ok(v) => {
                words.push(v);
                Ok(words)
            },
            Err(e) => Err(e),
        }
    } else {
        Ok(words)
    }
}

} // verus!
