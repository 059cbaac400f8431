use rv32emu::RAM_BASE;
use rv32emu::disasm::disassemble;
use rv32emu::machine::boot;
use rv32emu::types::Event;
use rv32emu::types::EventType;

fn addi(rd: u32, rs1: u32, imm: i32) -> u32 {
    (((imm as u32) & 0xFFF) << 20) | (rs1 << 15) | (rd << 7) | 0x13
}

fn sw(imm: i32, rs2: u32, rs1: u32) -> u32 {
    let imm = imm as u32;
    (((imm >> 5) & 0x7F) << 25) | (rs2 << 20) | (rs1 << 15) | (2 << 12) | ((imm & 0x1F) << 7)
        | 0x23
}

#[test]
fn regwrite_record_encodes_little_endian() {
    let e = Event {
        pc: 0x8000_0004,
        opcode: 0x1234_5678,
        instr_type: EventType::RegWrite { reg: 7, value: 0xAABB_CCDD },
    };
    assert_eq!(
        e.serialize(),
        vec![
            0x04, 0x00, 0x00, 0x80, // pc
            0x78, 0x56, 0x34, 0x12, // instruction word
            0x00, // kind
            0x07, // register
            0xDD, 0xCC, 0xBB, 0xAA, // value
        ]
    );
}

#[test]
fn each_record_kind_carries_its_payload() {
    let base = |k: EventType| Event { pc: 0, opcode: 0, instr_type: k };
    assert_eq!(
        base(EventType::MemRead { addr: 1, value: 2 }).serialize()[8..],
        [1, 1, 0, 0, 0, 2, 0, 0, 0][..]
    );
    assert_eq!(
        base(EventType::MemWrite { addr: 1, value: 2 }).serialize()[8..],
        [2, 1, 0, 0, 0, 2, 0, 0, 0][..]
    );
    assert_eq!(
        base(EventType::FlowChange { new_pc: 0x10 }).serialize()[8..],
        [3, 0x10, 0, 0, 0][..]
    );
    assert_eq!(
        base(EventType::FlowLink { new_pc: 0x10, register: 1 }).serialize()[8..],
        [4, 0x10, 0, 0, 0, 1][..]
    );
}

#[test]
fn human_readable_record_is_one_line() {
    let e = Event {
        pc: 0x8000_0000,
        opcode: 0x0050_0093,
        instr_type: EventType::RegWrite { reg: 1, value: 5 },
    };
    assert_eq!(
        e.serialize_human_readable(),
        "PC=0x80000000 OPCODE=0x00500093 TYPE=RegWrite REG=1 VALUE=0x00000005\n"
    );
    let m = Event {
        pc: 0x8000_0010,
        opcode: 0,
        instr_type: EventType::MemWrite { addr: 0x8000_0100, value: 0x123 },
    };
    assert_eq!(
        m.serialize_human_readable(),
        "PC=0x80000010 OPCODE=0x00000000 TYPE=MemWrite ADDR=0x80000100 VALUE=0x00000123\n"
    );
}

#[test]
fn tracing_reports_register_and_memory_traffic() {
    // addi x1, x0, 5; sw x1, 0(x2) with x2 = 0 pointing nowhere mapped is a
    // fault, so store to RAM via x2 = RAM_BASE: lui x2, 0x80000.
    let image = vec![addi(1, 0, 5), 0x800000B7u32 /* lui x1.. */];
    // Keep it simple: one addi, traced.
    let mut cpu = boot(&image);
    let events = cpu.tick(1, true).unwrap();
    assert_eq!(
        events,
        vec![Event {
            pc: RAM_BASE,
            opcode: addi(1, 0, 5),
            instr_type: EventType::RegWrite { reg: 1, value: 5 },
        }]
    );
}

#[test]
fn tracing_disabled_returns_no_events() {
    let image = vec![addi(1, 0, 5)];
    let mut cpu = boot(&image);
    let events = cpu.tick(1, false).unwrap();
    assert!(events.is_empty());
}

#[test]
fn store_emits_memwrite() {
    // lui x2, 0x80000; sw x0, 16(x2)
    let image = vec![0x80000137u32, sw(16, 0, 2)];
    let mut cpu = boot(&image);
    let events = cpu.tick(2, true).unwrap();
    assert_eq!(events.len(), 2);
    assert_eq!(
        events[1].instr_type,
        EventType::MemWrite { addr: RAM_BASE + 16, value: 0 }
    );
}

#[test]
fn writes_to_x0_produce_no_regwrite() {
    let image = vec![addi(0, 0, 9)];
    let mut cpu = boot(&image);
    let events = cpu.tick(1, true).unwrap();
    assert!(events.is_empty());
}

#[test]
fn disassembly_of_common_forms() {
    assert_eq!(disassemble(addi(1, 0, 5), RAM_BASE), "addi x1, x0, 5");
    assert_eq!(disassemble(addi(1, 0, -1), RAM_BASE), "addi x1, x0, -1");
    // add x3, x1, x2
    assert_eq!(disassemble(0x002081B3, RAM_BASE), "add x3, x1, x2");
    assert_eq!(disassemble(sw(16, 0, 2), RAM_BASE), "sw x0, 16(x2)");
    // lw x3, 0(x2)
    assert_eq!(disassemble(0x00012183, RAM_BASE), "lw x3, 0(x2)");
    // beq x1, x0, +8 fetched at RAM_BASE
    let beq = (1 << 15) | (4 << 8) | 0x63u32;
    assert_eq!(disassemble(beq, RAM_BASE), "beq x1, x0, to 0x80000008");
    assert_eq!(disassemble(0, RAM_BASE), "unknown");
    assert_eq!(disassemble(0x73, RAM_BASE), "ecall/ebreak");
}
