use rv32emu::alu::alu_add;
use rv32emu::alu::alu_sll;
use rv32emu::alu::alu_slt;
use rv32emu::alu::alu_sltu;
use rv32emu::alu::alu_sra;
use rv32emu::alu::alu_srl;
use rv32emu::alu::alu_sub;
use rv32emu::alu::signed_lt;
use rv32emu::bits::sign_extend;

#[test]
fn add_wraps_modulo_two_to_the_32() {
    assert_eq!(alu_add(2, 3), 5);
    assert_eq!(alu_add(0xFFFF_FFFF, 1), 0);
    assert_eq!(alu_add(0x8000_0000, 0x8000_0000), 0);
    assert_eq!(alu_add(0xFFFF_FFFE, 5), 3);
}

#[test]
fn sub_wraps_modulo_two_to_the_32() {
    assert_eq!(alu_sub(5, 3), 2);
    assert_eq!(alu_sub(0, 1), 0xFFFF_FFFF);
    assert_eq!(alu_sub(3, 0xFFFF_FFFF), 4);
}

#[test]
fn add_then_sub_restores_the_addend() {
    // The arithmetic-closure law on concrete values.
    let cases = [
        (0u32, 0u32),
        (1, 0),
        (5, 7),
        (0xFFFF_FFFF, 1),
        (0x8000_0000, 0x8000_0000),
        (0x1234_5678, 0xFEDC_BA98),
    ];
    for (a, b) in cases {
        assert_eq!(alu_sub(alu_add(a, b), b), a);
    }
}

#[test]
fn shift_amount_is_masked_to_five_bits() {
    // The shift-masking law on concrete values: s and s mod 32 agree.
    assert_eq!(alu_sll(1, 33), alu_sll(1, 1));
    assert_eq!(alu_sll(0xDEAD_BEEF, 36), alu_sll(0xDEAD_BEEF, 4));
    assert_eq!(alu_sll(3, 32), 3);
    assert_eq!(alu_srl(0x8000_0000, 63), 1);
}

#[test]
fn sra_by_31_collapses_to_the_sign() {
    assert_eq!(alu_sra(0x7FFF_FFFF, 31), 0);
    assert_eq!(alu_sra(0x8000_0000, 31), 0xFFFF_FFFF);
    assert_eq!(alu_sra(0, 31), 0);
    assert_eq!(alu_sra(0xFFFF_FFFF, 31), 0xFFFF_FFFF);
}

#[test]
fn sra_replicates_the_sign_bit() {
    assert_eq!(alu_sra(0xFFFF_FF00, 4), 0xFFFF_FFF0);
    assert_eq!(alu_sra(0x0000_0F00, 4), 0x0000_00F0);
}

#[test]
fn signed_and_unsigned_comparison_differ_on_negative_words() {
    assert_eq!(alu_slt(0xFFFF_FFFF, 1), 1); // -1 < 1 signed
    assert_eq!(alu_sltu(0xFFFF_FFFF, 1), 0); // 0xFFFFFFFF > 1 unsigned
    assert!(signed_lt(0x8000_0000, 0));
    assert!(!signed_lt(0, 0x8000_0000));
}

#[test]
fn sign_extension_from_native_widths() {
    assert_eq!(sign_extend(0xFFF, 12), 0xFFFF_FFFF); // -1
    assert_eq!(sign_extend(0x800, 12), 0xFFFF_F800); // -2048
    assert_eq!(sign_extend(0x7FF, 12), 0x7FF); // +2047
    assert_eq!(sign_extend(0x1FFFFE, 21), 0xFFFF_FFFE); // -2
    assert_eq!(sign_extend(0xFF, 8), 0xFFFF_FFFF);
    assert_eq!(sign_extend(0x7F, 8), 0x7F);
}
