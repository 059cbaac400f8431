use rv32emu::RAM_BASE;
use rv32emu::SCREEN_CSR_ADDR;
use rv32emu::UART0_BASE;
use rv32emu::cpu::Trap;
use rv32emu::machine::boot;

fn r_type(f7: u32, rs2: u32, rs1: u32, f3: u32, rd: u32) -> u32 {
    (f7 << 25) | (rs2 << 20) | (rs1 << 15) | (f3 << 12) | (rd << 7) | 0x33
}

fn i_type(op: u32, imm12: u32, rs1: u32, f3: u32, rd: u32) -> u32 {
    ((imm12 & 0xFFF) << 20) | (rs1 << 15) | (f3 << 12) | (rd << 7) | op
}

fn addi(rd: u32, rs1: u32, imm: i32) -> u32 {
    i_type(0x13, imm as u32, rs1, 0, rd)
}

fn s_type(imm: i32, rs2: u32, rs1: u32, f3: u32) -> u32 {
    let imm = imm as u32;
    (((imm >> 5) & 0x7F) << 25) | (rs2 << 20) | (rs1 << 15) | (f3 << 12) | ((imm & 0x1F) << 7)
        | 0x23
}

fn b_type(imm: i32, rs2: u32, rs1: u32, f3: u32) -> u32 {
    let imm = imm as u32;
    (((imm >> 12) & 1) << 31) | (((imm >> 5) & 0x3F) << 25) | (rs2 << 20) | (rs1 << 15) | (f3
        << 12) | (((imm >> 1) & 0xF) << 8) | (((imm >> 11) & 1) << 7) | 0x63
}

fn lui(rd: u32, imm20: u32) -> u32 {
    (imm20 << 12) | (rd << 7) | 0x37
}

fn jal(rd: u32, imm: i32) -> u32 {
    let imm = imm as u32;
    (((imm >> 20) & 1) << 31) | (((imm >> 1) & 0x3FF) << 21) | (((imm >> 11) & 1) << 20) | (((imm
        >> 12) & 0xFF) << 12) | (rd << 7) | 0x6F
}

#[test]
fn alu_basics() {
    // addi x1, x0, 5; addi x2, x0, 7; add x3, x1, x2
    let image = vec![addi(1, 0, 5), addi(2, 0, 7), r_type(0, 2, 1, 0, 3)];
    let mut cpu = boot(&image);
    assert!(cpu.tick(3, false).is_ok());
    assert_eq!(cpu.read_reg(1), 5);
    assert_eq!(cpu.read_reg(2), 7);
    assert_eq!(cpu.read_reg(3), 12);
    assert_eq!(cpu.pc(), RAM_BASE + 12);
    assert_eq!(cpu.cycles(), 3);
}

#[test]
fn signed_versus_unsigned_compare() {
    // addi x1, x0, -1; sltiu x2, x1, 1; slti x3, x1, 1
    let image = vec![addi(1, 0, -1), i_type(0x13, 1, 1, 3, 2), i_type(0x13, 1, 1, 2, 3)];
    let mut cpu = boot(&image);
    assert!(cpu.tick(3, false).is_ok());
    assert_eq!(cpu.read_reg(1), 0xFFFF_FFFF);
    assert_eq!(cpu.read_reg(2), 0); // 0xFFFFFFFF is not below 1 unsigned
    assert_eq!(cpu.read_reg(3), 1); // -1 is below 1 signed
}

#[test]
fn branch_not_taken_falls_through() {
    // addi x1, x0, 1; beq x1, x0, +8; addi x2, x0, 2; addi x3, x0, 3
    let image = vec![addi(1, 0, 1), b_type(8, 0, 1, 0), addi(2, 0, 2), addi(3, 0, 3)];
    let mut cpu = boot(&image);
    assert!(cpu.tick(4, false).is_ok());
    assert_eq!(cpu.read_reg(1), 1);
    assert_eq!(cpu.read_reg(2), 2);
    assert_eq!(cpu.read_reg(3), 3);
}

#[test]
fn branch_taken_skips() {
    // addi x1, x0, 1; bne x1, x0, +8; addi x2, x0, 2; addi x3, x0, 3
    let image = vec![addi(1, 0, 1), b_type(8, 0, 1, 1), addi(2, 0, 2), addi(3, 0, 3)];
    let mut cpu = boot(&image);
    assert!(cpu.tick(3, false).is_ok());
    assert_eq!(cpu.read_reg(2), 0); // skipped
    assert_eq!(cpu.read_reg(3), 3);
}

#[test]
fn jal_links_and_jumps() {
    // jal x1, +8; addi x2, x0, 99; addi x3, x0, 7
    let image = vec![jal(1, 8), addi(2, 0, 99), addi(3, 0, 7)];
    let mut cpu = boot(&image);
    assert!(cpu.tick(2, false).is_ok());
    assert_eq!(cpu.read_reg(1), RAM_BASE + 4);
    assert_eq!(cpu.read_reg(2), 0); // skipped
    assert_eq!(cpu.read_reg(3), 7);
}

#[test]
fn load_store_round_trip() {
    // x2 = RAM_BASE + 0x100; addi x1, x0, 0x123; sw x1, 0(x2);
    // lw x3, 0(x2); lbu x4, 0(x2); lb x5, 0(x2)
    let image = vec![
        lui(2, 0x80000),
        addi(2, 2, 0x100),
        addi(1, 0, 0x123),
        s_type(0, 1, 2, 2),
        i_type(0x03, 0, 2, 2, 3),
        i_type(0x03, 0, 2, 4, 4),
        i_type(0x03, 0, 2, 0, 5),
    ];
    let mut cpu = boot(&image);
    assert!(cpu.tick(7, false).is_ok());
    assert_eq!(cpu.read_reg(2), RAM_BASE + 0x100);
    assert_eq!(cpu.read_reg(3), 0x123);
    assert_eq!(cpu.read_reg(4), 0x23);
    assert_eq!(cpu.read_reg(5), 0x23);
    assert_eq!(cpu.read_mem(4, RAM_BASE + 0x100), Ok(0x123));
}

#[test]
fn uart_store_delivers_exactly_one_character() {
    // x1 = UART0_BASE; addi x2, x0, 'H'; sb x2, 0(x1)
    assert_eq!(UART0_BASE, 0x1000_0000);
    let image = vec![lui(1, 0x10000), addi(2, 0, 'H' as i32), s_type(0, 2, 1, 0)];
    let mut cpu = boot(&image);
    assert!(cpu.tick(3, false).is_ok());
    assert_eq!(cpu.take_uart_output(), vec![b'H']);
    // Nothing more is pending.
    assert_eq!(cpu.take_uart_output(), Vec::<u8>::new());
}

#[test]
fn register_zero_stays_zero() {
    // addi x0, x0, 55 writes are discarded; every later read of x0 is 0.
    let image = vec![addi(0, 0, 55), addi(1, 0, 3), r_type(0, 1, 0, 0, 2)];
    let mut cpu = boot(&image);
    assert!(cpu.tick(3, false).is_ok());
    assert_eq!(cpu.read_reg(0), 0);
    assert_eq!(cpu.read_reg(2), 3); // x2 = x0 + x1
}

#[test]
fn pc_stays_aligned_and_cycles_count_retired_instructions() {
    let image = vec![addi(1, 0, 1), jal(0, 8), addi(2, 0, 2), addi(3, 0, 3)];
    let mut cpu = boot(&image);
    for _ in 0..3 {
        assert!(cpu.tick(1, false).is_ok());
        assert_eq!(cpu.pc() % 4, 0);
    }
    assert_eq!(cpu.cycles(), 3);
}

#[test]
fn unknown_opcode_traps() {
    let image = vec![0x0000_007F];
    let mut cpu = boot(&image);
    assert_eq!(cpu.tick(1, false), Err(Trap::IllegalInstruction { instr: 0x7F }));
    // The trap leaves the machine where the instruction began.
    assert_eq!(cpu.pc(), RAM_BASE);
    assert_eq!(cpu.cycles(), 0);
}

#[test]
fn a_zero_word_is_an_unknown_instruction() {
    // A program that runs off its image into zeroed RAM aborts at the first
    // zero word instead of executing it.
    let image = vec![addi(1, 0, 5)];
    let mut cpu = boot(&image);
    assert_eq!(cpu.tick(2, false), Err(Trap::IllegalInstruction { instr: 0 }));
    assert_eq!(cpu.read_reg(1), 5); // the first instruction retired
    assert_eq!(cpu.cycles(), 1);
    assert_eq!(cpu.pc(), RAM_BASE + 4);
}

#[test]
fn ecall_traps() {
    let image = vec![0x0000_0073];
    let mut cpu = boot(&image);
    assert_eq!(cpu.tick(1, false), Err(Trap::EnvCall { instr: 0x73 }));
}

#[test]
fn unmapped_fetch_traps() {
    // Jump far below RAM, then fetch from unmapped space.
    let image = vec![jal(0, -2048)];
    let mut cpu = boot(&image);
    assert_eq!(
        cpu.tick(2, false),
        Err(Trap::FetchFault { pc: RAM_BASE - 2048 })
    );
    assert_eq!(cpu.cycles(), 1); // the jump itself retired
}

#[test]
fn a_trap_mid_batch_keeps_earlier_work() {
    let image = vec![addi(1, 0, 9), 0x0000_007F];
    let mut cpu = boot(&image);
    assert_eq!(cpu.tick(10, false), Err(Trap::IllegalInstruction { instr: 0x7F }));
    assert_eq!(cpu.read_reg(1), 9);
    assert_eq!(cpu.cycles(), 1);
}

#[test]
fn screen_csr_is_reachable_from_the_guest() {
    // Enable the framebuffer from guest code: x1 = SCREEN_CSR_ADDR;
    // addi x2, x0, 1; sw x2, 0(x1); then read the register back.
    assert_eq!(SCREEN_CSR_ADDR, 0x1000_1000);
    let image = vec![
        lui(1, 0x10001),
        addi(2, 0, 1),
        s_type(0, 2, 1, 2),
    ];
    let mut cpu = boot(&image);
    assert!(cpu.tick(3, false).is_ok());
    assert_eq!(cpu.read_mem(4, SCREEN_CSR_ADDR), Ok(1));
}

#[test]
fn shifts_mask_the_amount_from_registers() {
    // x1 = 1; x2 = 33; sll x3, x1, x2 shifts by 33 & 31 = 1.
    let image = vec![
        addi(1, 0, 1),
        addi(2, 0, 33),
        r_type(0, 2, 1, 1, 3),
    ];
    let mut cpu = boot(&image);
    assert!(cpu.tick(3, false).is_ok());
    assert_eq!(cpu.read_reg(3), 2);
}

#[test]
fn arithmetic_shift_keeps_the_sign() {
    // x1 = -8; srai x2, x1, 1; srli x3, x1, 1
    let image = vec![
        addi(1, 0, -8),
        i_type(0x13, (0x20 << 5) | 1, 1, 5, 2), // srai: funct7 0x20, shamt 1
        i_type(0x13, 1, 1, 5, 3),               // srli: funct7 0, shamt 1
    ];
    let mut cpu = boot(&image);
    assert!(cpu.tick(3, false).is_ok());
    assert_eq!(cpu.read_reg(2), 0xFFFF_FFFC); // -4
    assert_eq!(cpu.read_reg(3), 0x7FFF_FFFC);
}

#[test]
fn jalr_clears_bit_zero_of_the_target() {
    // x1 = RAM_BASE + 9; jalr x2, 0(x1) lands on RAM_BASE + 8.
    let image = vec![
        lui(1, 0x80000),
        addi(1, 1, 9),
        i_type(0x67, 0, 1, 0, 2), // jalr x2, 0(x1)
        0,                        // skipped
        addi(3, 0, 4),            // RAM_BASE + 16... filler
    ];
    let mut cpu = boot(&image);
    assert!(cpu.tick(3, false).is_ok());
    assert_eq!(cpu.pc(), RAM_BASE + 8);
    assert_eq!(cpu.read_reg(2), RAM_BASE + 12); // link = pc of jalr + 4
}

#[test]
fn auipc_adds_the_upper_immediate_to_the_pc() {
    // At RAM_BASE: auipc x1, 1 -> x1 = RAM_BASE + 0x1000.
    let image = vec![(1 << 12) | (1 << 7) | 0x17];
    let mut cpu = boot(&image);
    assert!(cpu.tick(1, false).is_ok());
    assert_eq!(cpu.read_reg(1), RAM_BASE + 0x1000);
}

#[test]
fn halfword_loads_extend_correctly() {
    // Store 0x8001 at RAM_BASE+0x40, then lh (sign-extends) and lhu.
    let image = vec![
        lui(1, 0x80000),
        lui(2, 0x8),          // x2 = 0x8000
        addi(2, 2, 1),        // x2 = 0x8001
        s_type(0x40, 2, 1, 1), // sh x2, 0x40(x1)
        i_type(0x03, 0x40, 1, 1, 3), // lh x3, 0x40(x1)
        i_type(0x03, 0x40, 1, 5, 4), // lhu x4, 0x40(x1)
    ];
    let mut cpu = boot(&image);
    assert!(cpu.tick(6, false).is_ok());
    assert_eq!(cpu.read_reg(3), 0xFFFF_8001);
    assert_eq!(cpu.read_reg(4), 0x0000_8001);
}

#[test]
fn logic_ops_work_through_programs() {
    let image = vec![
        addi(1, 0, 0b1100),
        addi(2, 0, 0b1010),
        r_type(0, 2, 1, 4, 3), // xor
        r_type(0, 2, 1, 6, 4), // or
        r_type(0, 2, 1, 7, 5), // and
        r_type(0x20, 2, 1, 0, 6), // sub
    ];
    let mut cpu = boot(&image);
    assert!(cpu.tick(6, false).is_ok());
    assert_eq!(cpu.read_reg(3), 0b0110);
    assert_eq!(cpu.read_reg(4), 0b1110);
    assert_eq!(cpu.read_reg(5), 0b1000);
    assert_eq!(cpu.read_reg(6), 2);
}

#[test]
fn uart_reads_as_ready_from_the_guest() {
    // x1 = UART0_BASE; lbu x3, 0(x1) sees the constant line-status byte.
    let image = vec![lui(1, 0x10000), i_type(0x03, 0, 1, 4, 3)];
    let mut cpu = boot(&image);
    assert!(cpu.tick(2, false).is_ok());
    assert_eq!(cpu.read_reg(3), 0x60);
}
