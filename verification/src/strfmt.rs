//! Building the textual forms of words: fixed-width hexadecimal and plain
//! decimal, appended character by character to a `String`, with the exact
//! character sequence stated in specs.

use vstd::prelude::*;

verus! {

/// The character of a value below 16, upper case.
pub open spec fn hex_digit_char(n: u8) -> char {
    if n == 0 {
        '0'
    } else if n == 1 {
        '1'
    } else if n == 2 {
        '2'
    } else if n == 3 {
        '3'
    } else if n == 4 {
        '4'
    } else if n == 5 {
        '5'
    } else if n == 6 {
        '6'
    } else if n == 7 {
        '7'
    } else if n == 8 {
        '8'
    } else if n == 9 {
        '9'
    } else if n == 10 {
        'A'
    } else if n == 11 {
        'B'
    } else if n == 12 {
        'C'
    } else if n == 13 {
        'D'
    } else if n == 14 {
        'E'
    } else {
        'F'
    }
}

/// The eight hexadecimal digits of a word, most significant first.
pub open spec fn hex32_chars(v: u32) -> Seq<char> {
    seq![
        hex_digit_char(((v >> 28) & 0xF) as u8),
        hex_digit_char(((v >> 24) & 0xF) as u8),
        hex_digit_char(((v >> 20) & 0xF) as u8),
        hex_digit_char(((v >> 16) & 0xF) as u8),
        hex_digit_char(((v >> 12) & 0xF) as u8),
        hex_digit_char(((v >> 8) & 0xF) as u8),
        hex_digit_char(((v >> 4) & 0xF) as u8),
        hex_digit_char((v & 0xF) as u8),
    ]
}

/// The decimal digits of a number, no leading zeros.
pub open spec fn dec_chars(n: nat) -> Seq<char>
    decreases n,
{
    if n < 10 {
        seq![hex_digit_char(n as u8)]
    } else {
        dec_chars(n / 10).push(hex_digit_char((n % 10) as u8))
    }
}

/// Append the character of a value below 16.
pub fn append_hex_digit(s: &mut String, n: u8)
    requires
        n < 16,
    ensures
        final(s)@ == old(s)@.push(hex_digit_char(n)),
{
    let ghost s0 = old(s)@;
    if n == 0 {
        s.append("0");
        proof {
            reveal_strlit("0");
            assert(s0 + "0"@ =~= s0.push('0'));
        }
    } else if n == 1 {
        s.append("1");
        proof {
            reveal_strlit("1");
            assert(s0 + "1"@ =~= s0.push('1'));
        }
    } else if n == 2 {
        s.append("2");
        proof {
            reveal_strlit("2");
            assert(s0 + "2"@ =~= s0.push('2'));
        }
    } else if n == 3 {
        s.append("3");
        proof {
            reveal_strlit("3");
            assert(s0 + "3"@ =~= s0.push('3'));
        }
    } else if n == 4 {
        s.append("4");
        proof {
            reveal_strlit("4");
            assert(s0 + "4"@ =~= s0.push('4'));
        }
    } else if n == 5 {
        s.append("5");
        proof {
            reveal_strlit("5");
            assert(s0 + "5"@ =~= s0.push('5'));
        }
    } else if n == 6 {
        s.append("6");
        proof {
            reveal_strlit("6");
            assert(s0 + "6"@ =~= s0.push('6'));
        }
    } else if n == 7 {
        s.append("7");
        proof {
            reveal_strlit("7");
            assert(s0 + "7"@ =~= s0.push('7'));
        }
    } else if n == 8 {
        s.append("8");
        proof {
            reveal_strlit("8");
            assert(s0 + "8"@ =~= s0.push('8'));
        }
    } else if n == 9 {
        s.append("9");
        proof {
            reveal_strlit("9");
            assert(s0 + "9"@ =~= s0.push('9'));
        }
    } else if n == 10 {
        s.append("A");
        proof {
            reveal_strlit("A");
            assert(s0 + "A"@ =~= s0.push('A'));
        }
    } else if n == 11 {
        s.append("B");
        proof {
            reveal_strlit("B");
            assert(s0 + "B"@ =~= s0.push('B'));
        }
    } else if n == 12 {
        s.append("C");
        proof {
            reveal_strlit("C");
            assert(s0 + "C"@ =~= s0.push('C'));
        }
    } else if n == 13 {
        s.append("D");
        proof {
            reveal_strlit("D");
            assert(s0 + "D"@ =~= s0.push('D'));
        }
    } else if n == 14 {
        s.append("E");
        proof {
            reveal_strlit("E");
            assert(s0 + "E"@ =~= s0.push('E'));
        }
    } else {
        s.append("F");
        proof {
            reveal_strlit("F");
            assert(s0 + "F"@ =~= s0.push('F'));
        }
    }
}

/// The nibbles of a word are below 16.
proof fn lemma_nibble_bounds(v: u32)
    by (bit_vector)
    ensures
        (v >> 28) & 0xF < 16,
        (v >> 24) & 0xF < 16,
        (v >> 20) & 0xF < 16,
        (v >> 16) & 0xF < 16,
        (v >> 12) & 0xF < 16,
        (v >> 8) & 0xF < 16,
        (v >> 4) & 0xF < 16,
        v & 0xF < 16,
{
}

/// Append a word as eight upper-case hexadecimal digits.
pub fn append_hex32(s: &mut String, v: u32)
    ensures
        final(s)@ == old(s)@ + hex32_chars(v),
{
    proof {
        lemma_nibble_bounds(v);
    }
    append_hex_digit(s, ((v >> 28) & 0xF) as u8);
    append_hex_digit(s, ((v >> 24) & 0xF) as u8);
    append_hex_digit(s, ((v >> 20) & 0xF) as u8);
    append_hex_digit(s, ((v >> 16) & 0xF) as u8);
    append_hex_digit(s, ((v >> 12) & 0xF) as u8);
    append_hex_digit(s, ((v >> 8) & 0xF) as u8);
    append_hex_digit(s, ((v >> 4) & 0xF) as u8);
    append_hex_digit(s, (v & 0xF) as u8);
    proof {
        assert(final(s)@ =~= old(s)@ + hex32_chars(v));
    }
}

/// Append a word's value in decimal, no leading zeros.
pub fn append_dec_u32(s: &mut String, n: u32)
    ensures
        final(s)@ == old(s)@ + dec_chars(n as nat),
    decreases n,
{
    if n < 10 {
        append_hex_digit(s, n as u8);
        proof {
            assert(final(s)@ =~= old(s)@ + dec_chars(n as nat));
        }
    } else {
        append_dec_u32(s, n / 10);
        append_hex_digit(s, (n % 10) as u8);
        proof {
            assert(final(s)@ =~= old(s)@ + dec_chars(n as nat));
        }
    }
}

/// Append a byte's value in decimal, no leading zeros.
pub fn append_dec_u8(s: &mut String, n: u8)
    ensures
        final(s)@ == old(s)@ + dec_chars(n as nat),
{
    if n >= 100 {
        append_hex_digit(s, n / 100);
        append_hex_digit(s, (n / 10) % 10);
        append_hex_digit(s, n % 10);
        proof {
            assert(n as nat / 10 / 10 == n as nat / 100);
            assert(dec_chars(n as nat / 100) == seq![hex_digit_char((n / 100) as u8)]);
            assert(dec_chars(n as nat / 10) == dec_chars(n as nat / 100).push(
                hex_digit_char(((n as nat / 10) % 10) as u8),
            ));
            assert(final(s)@ =~= old(s)@ + dec_chars(n as nat));
        }
    } else if n >= 10 {
        append_hex_digit(s, n / 10);
        append_hex_digit(s, n % 10);
        proof {
            assert(dec_chars(n as nat / 10) == seq![hex_digit_char((n / 10) as u8)]);
            assert(final(s)@ =~= old(s)@ + dec_chars(n as nat));
        }
    } else {
        append_hex_digit(s, n);
        proof {
            assert(final(s)@ =~= old(s)@ + dec_chars(n as nat));
        }
    }
}

} // verus!
