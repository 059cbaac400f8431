use rv32emu::image::ImageError;
use rv32emu::image::parse_hex_image;

fn parse(text: &str) -> Result<Vec<u32>, ImageError> {
    parse_hex_image(&text.as_bytes().to_vec())
}

#[test]
fn plain_words_load_in_order() {
    assert_eq!(parse("00500093 00700113\n002081B3"), Ok(vec![0x00500093, 0x00700113, 0x002081B3]));
}

#[test]
fn prefixes_and_underscores_are_accepted() {
    assert_eq!(parse("0x1234 0XABCD dead_beef 0xFFFF_FFFF"), Ok(vec![
        0x1234,
        0xABCD,
        0xDEAD_BEEF,
        0xFFFF_FFFF,
    ]));
}

#[test]
fn case_is_ignored_in_digits() {
    assert_eq!(parse("aBcDeF01"), Ok(vec![0xABCD_EF01]));
}

#[test]
fn empty_and_whitespace_files_hold_no_words() {
    assert_eq!(parse(""), Ok(vec![]));
    assert_eq!(parse("  \n\t \r\n"), Ok(vec![]));
}

#[test]
fn leading_zeros_do_not_overflow() {
    assert_eq!(parse("000000001"), Ok(vec![1]));
}

#[test]
fn a_word_that_leaves_32_bits_overflows() {
    assert_eq!(parse("100000000"), Err(ImageError::Overflow));
    assert_eq!(parse("1 FFFFFFFF0"), Err(ImageError::Overflow));
}

#[test]
fn tokens_without_digits_are_invalid() {
    assert_eq!(parse("0x"), Err(ImageError::InvalidToken));
    assert_eq!(parse("___"), Err(ImageError::InvalidToken));
    assert_eq!(parse("12 zz"), Err(ImageError::InvalidToken));
    assert_eq!(parse("12 34g5"), Err(ImageError::InvalidToken));
}

#[test]
fn the_first_bad_token_decides() {
    assert_eq!(parse("zz 100000000"), Err(ImageError::InvalidToken));
    assert_eq!(parse("100000000 zz"), Err(ImageError::Overflow));
}
