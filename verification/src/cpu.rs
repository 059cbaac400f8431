//! The RV32I interpreter.
//!
//! The machine state is 32 registers, a program counter, a retired-instruction
//! counter and the bus. `step_spec` gives the meaning of one fetched and
//! executed instruction over that state, including the trace events it emits;
//! `run_spec` iterates it. The exec interpreter is proved to implement them
//! exactly: arithmetic wraps modulo 2^32, shift amounts are masked to five
//! bits, immediates are sign-extended from their native widths, loads and
//! stores go through the bus little-endian, and a fault leaves the state as
//! it was at the start of the offending instruction.

use vstd::prelude::*;
use crate::alu::add32;
use crate::alu::alu_add;
use crate::alu::alu_sll;
use crate::alu::alu_slt;
use crate::alu::alu_sltu;
use crate::alu::alu_sra;
use crate::alu::alu_srl;
use crate::alu::alu_sub;
use crate::alu::signed_lt;
use crate::alu::sll32;
use crate::alu::slt32;
use crate::alu::sltu32;
use crate::alu::sra32;
use crate::alu::srl32;
use crate::alu::sub32;
use crate::bits::as_signed;
use crate::bits::sext;
use crate::bits::sign_extend;
use crate::bus::Bus;
use crate::bus::BusError;
use crate::bus::RegionView;
use crate::bus::bus_read_spec;
use crate::bus::bus_wf;
use crate::bus::bus_write_spec;
use crate::types::Event;
use crate::types::EventType;

verus! {

// Opcodes of the instruction formats.
pub const R_FORMAT: u32 = 0x33;

pub const I_COMP_FORMAT: u32 = 0x13;

pub const I_LOAD_FORMAT: u32 = 0x03;

pub const S_FORMAT: u32 = 0x23;

pub const B_FORMAT: u32 = 0x63;

pub const U_FORMAT_LUI: u32 = 0x37;

pub const U_FORMAT_AUIPC: u32 = 0x17;

pub const J_FORMAT: u32 = 0x6F;

pub const I_JALR_FORMAT: u32 = 0x67;

pub const I_ENV_FORMAT: u32 = 0x73;

/// Why execution stopped: the diagnostic the host turns into an abort.
#[derive(Clone, Copy, PartialEq, Eq, Structural, Debug)]
pub enum Trap {
    MisalignedPc { pc: u32 },
    FetchFault { pc: u32 },
    LoadFault { addr: u32 },
    StoreFault { addr: u32 },
    IllegalInstruction { instr: u32 },
    EnvCall { instr: u32 },
}

/// The architectural state: registers, program counter, retired-instruction
/// counter, and the bus with every device behind it.
pub struct CpuView {
    pub regs: Seq<u32>,
    pub pc: u32,
    pub cycles: u64,
    pub bus: Seq<RegionView>,
}

/// The outcome of one instruction: the next state with the trace events the
/// instruction emitted, or a trap.
pub enum StepRes {
    Next { cpu: CpuView, events: Seq<Event> },
    Trapped { trap: Trap },
}

/// The outcome of a batch: the final state and all events, and the trap that
/// cut the batch short if one did.
pub enum RunRes {
    Done { cpu: CpuView, events: Seq<Event> },
    Stopped { cpu: CpuView, events: Seq<Event>, trap: Trap },
}

/// Structural validity: 32 registers, register 0 pinned to zero, and every
/// device on the bus well formed.
pub open spec fn cpu_wf(c: CpuView) -> bool {
    &&& c.regs.len() == 32
    &&& c.regs[0] == 0
    &&& bus_wf(c.bus)
}

/// The value of a register: register 0 always reads zero.
pub open spec fn reg_val(c: CpuView, r: int) -> u32 {
    if r == 0 {
        0u32
    } else {
        c.regs[r]
    }
}

/// A register file update: writes to register 0 are discarded.
pub open spec fn wreg(regs: Seq<u32>, r: int, v: u32) -> Seq<u32> {
    if r == 0 {
        regs
    } else {
        regs.update(r, v)
    }
}

// Instruction fields.
pub open spec fn opcode_of(i: u32) -> u32 {
    i & 0x7F
}

pub open spec fn rd_of(i: u32) -> u32 {
    (i >> 7) & 0x1F
}

pub open spec fn funct3_of(i: u32) -> u32 {
    (i >> 12) & 0x7
}

pub open spec fn rs1_of(i: u32) -> u32 {
    (i >> 15) & 0x1F
}

pub open spec fn rs2_of(i: u32) -> u32 {
    (i >> 20) & 0x1F
}

pub open spec fn funct7_of(i: u32) -> u32 {
    (i >> 25) & 0x7F
}

/// The I-format immediate, sign-extended from 12 bits.
pub open spec fn imm_i_of(i: u32) -> u32 {
    sext((i >> 20) & 0xFFF, 12)
}

/// The S-format immediate, sign-extended from 12 bits.
pub open spec fn imm_s_of(i: u32) -> u32 {
    sext((((i >> 25) & 0x7F) << 5) | ((i >> 7) & 0x1F), 12)
}

/// The B-format immediate, sign-extended from 13 bits; bit 0 is always 0.
pub open spec fn imm_b_of(i: u32) -> u32 {
    sext(
        (((i >> 31) & 0x1) << 12) | (((i >> 7) & 0x1) << 11) | (((i >> 25) & 0x3F) << 5) | (((i
            >> 8) & 0xF) << 1),
        13,
    )
}

/// The U-format immediate: the top 20 bits in place.
pub open spec fn imm_u_of(i: u32) -> u32 {
    i & 0xFFFF_F000
}

/// The J-format immediate, sign-extended from 21 bits; bit 0 is always 0.
pub open spec fn imm_j_of(i: u32) -> u32 {
    sext(
        (((i >> 31) & 0x1) << 20) | (((i >> 12) & 0xFF) << 12) | (((i >> 20) & 0x1) << 11) | (((i
            >> 21) & 0x3FF) << 1),
        21,
    )
}

/// The retired-instruction counter after one more instruction.
pub open spec fn inc_cycles(c: u64) -> u64 {
    if c == u64::MAX {
        0u64
    } else {
        (c + 1) as u64
    }
}

/// The state after a retired instruction: new registers, new program
/// counter, possibly new bus, one more retired instruction.
pub open spec fn next_state(c: CpuView, regs: Seq<u32>, pc: u32, bus: Seq<RegionView>) -> CpuView {
    CpuView { regs, pc, cycles: inc_cycles(c.cycles), bus }
}

/// The trace record of a destination-register update; register 0 produces
/// none.
pub open spec fn rd_events(pc: u32, instr: u32, rd: int, v: u32) -> Seq<Event> {
    if rd == 0 {
        Seq::<Event>::empty()
    } else {
        seq![Event { pc, opcode: instr, instr_type: EventType::RegWrite { reg: rd as u8, value: v } }]
    }
}

/// The result of a register-register operation; funct3 selects the
/// operation, funct7 zero selects add over sub and srl over sra.
pub open spec fn op_result(instr: u32, a: u32, b: u32) -> u32 {
    let f3 = funct3_of(instr);
    let f7 = funct7_of(instr);
    if f3 == 0 {
        if f7 == 0 {
            add32(a, b)
        } else {
            sub32(a, b)
        }
    } else if f3 == 1 {
        sll32(a, b)
    } else if f3 == 2 {
        slt32(a, b)
    } else if f3 == 3 {
        sltu32(a, b)
    } else if f3 == 4 {
        a ^ b
    } else if f3 == 5 {
        if f7 == 0 {
            srl32(a, b)
        } else {
            sra32(a, b)
        }
    } else if f3 == 6 {
        a | b
    } else {
        a & b
    }
}

/// The result of a register-immediate operation; shifts take their amount
/// from the rs2 field.
pub open spec fn op_imm_result(instr: u32, a: u32) -> u32 {
    let f3 = funct3_of(instr);
    let imm = imm_i_of(instr);
    let shamt = rs2_of(instr);
    if f3 == 0 {
        add32(a, imm)
    } else if f3 == 1 {
        sll32(a, shamt)
    } else if f3 == 2 {
        slt32(a, imm)
    } else if f3 == 3 {
        sltu32(a, imm)
    } else if f3 == 4 {
        a ^ imm
    } else if f3 == 5 {
        if funct7_of(instr) == 0 {
            srl32(a, shamt)
        } else {
            sra32(a, shamt)
        }
    } else if f3 == 6 {
        a | imm
    } else {
        a & imm
    }
}

/// One register-register instruction.
pub open spec fn step_op(c: CpuView, instr: u32) -> StepRes {
    let rd = rd_of(instr) as int;
    let a = reg_val(c, rs1_of(instr) as int);
    let b = reg_val(c, rs2_of(instr) as int);
    let v = op_result(instr, a, b);
    StepRes::Next {
        cpu: next_state(c, wreg(c.regs, rd, v), add32(c.pc, 4), c.bus),
        events: rd_events(c.pc, instr, rd, v),
    }
}

/// One register-immediate instruction.
pub open spec fn step_op_imm(c: CpuView, instr: u32) -> StepRes {
    let rd = rd_of(instr) as int;
    let a = reg_val(c, rs1_of(instr) as int);
    let v = op_imm_result(instr, a);
    StepRes::Next {
        cpu: next_state(c, wreg(c.regs, rd, v), add32(c.pc, 4), c.bus),
        events: rd_events(c.pc, instr, rd, v),
    }
}

/// Whether a load funct3 is one the ISA defines.
pub open spec fn load_valid(f3: u32) -> bool {
    f3 == 0 || f3 == 1 || f3 == 2 || f3 == 4 || f3 == 5
}

/// The transaction size of a load.
pub open spec fn load_size(f3: u32) -> u8 {
    if f3 == 0 || f3 == 4 {
        1u8
    } else if f3 == 1 || f3 == 5 {
        2u8
    } else {
        4u8
    }
}

/// How a load's raw bus value reaches the register: signed loads
/// sign-extend, unsigned loads zero-extend.
pub open spec fn load_extend(f3: u32, raw: u32) -> u32 {
    if f3 == 0 {
        sext(raw & 0xFF, 8)
    } else if f3 == 1 {
        sext(raw & 0xFFFF, 16)
    } else if f3 == 2 {
        raw
    } else if f3 == 4 {
        raw & 0xFF
    } else {
        raw & 0xFFFF
    }
}

/// One load: an undefined funct3 is illegal, a bus failure is fatal before
/// any register update, otherwise the extended value reaches rd and the
/// events record the raw memory value and the register update.
pub open spec fn step_load(c: CpuView, instr: u32) -> StepRes {
    let f3 = funct3_of(instr);
    if !load_valid(f3) {
        StepRes::Trapped { trap: Trap::IllegalInstruction { instr } }
    } else {
        let rd = rd_of(instr) as int;
        let a = reg_val(c, rs1_of(instr) as int);
        let addr = add32(a, imm_i_of(instr));
        match bus_read_spec(c.bus, load_size(f3), addr) {
            Err(_) => StepRes::Trapped { trap: Trap::LoadFault { addr } },
            Ok(raw) => {
                let v = load_extend(f3, raw);
                StepRes::Next {
                    cpu: next_state(c, wreg(c.regs, rd, v), add32(c.pc, 4), c.bus),
                    events: seq![
                        Event {
                            pc: c.pc,
                            opcode: instr,
                            instr_type: EventType::MemRead { addr, value: raw },
                        },
                    ] + rd_events(c.pc, instr, rd, v),
                }
            },
        }
    }
}

/// Whether a store funct3 is one the ISA defines.
pub open spec fn store_valid(f3: u32) -> bool {
    f3 == 0 || f3 == 1 || f3 == 2
}

/// The transaction size of a store.
pub open spec fn store_size(f3: u32) -> u8 {
    if f3 == 0 {
        1u8
    } else if f3 == 1 {
        2u8
    } else {
        4u8
    }
}

/// The low bits of rs2 that a store puts on the bus.
pub open spec fn store_value(f3: u32, b: u32) -> u32 {
    if f3 == 0 {
        b & 0xFF
    } else if f3 == 1 {
        b & 0xFFFF
    } else {
        b
    }
}

/// One store: an undefined funct3 is illegal, a bus failure is fatal, and
/// otherwise the device state changes and the event records the write.
pub open spec fn step_store(c: CpuView, instr: u32) -> StepRes {
    let f3 = funct3_of(instr);
    if !store_valid(f3) {
        StepRes::Trapped { trap: Trap::IllegalInstruction { instr } }
    } else {
        let a = reg_val(c, rs1_of(instr) as int);
        let b = reg_val(c, rs2_of(instr) as int);
        let addr = add32(a, imm_s_of(instr));
        let value = store_value(f3, b);
        match bus_write_spec(c.bus, store_size(f3), addr, value) {
            Err(_) => StepRes::Trapped { trap: Trap::StoreFault { addr } },
            Ok(nb) => StepRes::Next {
                cpu: next_state(c, c.regs, add32(c.pc, 4), nb),
                events: seq![
                    Event {
                        pc: c.pc,
                        opcode: instr,
                        instr_type: EventType::MemWrite { addr, value },
                    },
                ],
            },
        }
    }
}

/// Whether a branch funct3 is one the ISA defines.
pub open spec fn branch_valid(f3: u32) -> bool {
    f3 == 0 || f3 == 1 || f3 == 4 || f3 == 5 || f3 == 6 || f3 == 7
}

/// Whether the branch condition holds of the two source values.
pub open spec fn branch_taken(f3: u32, a: u32, b: u32) -> bool {
    if f3 == 0 {
        a == b
    } else if f3 == 1 {
        a != b
    } else if f3 == 4 {
        as_signed(a) < as_signed(b)
    } else if f3 == 5 {
        as_signed(a) >= as_signed(b)
    } else if f3 == 6 {
        a < b
    } else {
        a >= b
    }
}

/// One conditional branch: taken branches move the PC by the sign-extended
/// immediate and emit a flow event; untaken ones fall through silently.
pub open spec fn step_branch(c: CpuView, instr: u32) -> StepRes {
    let f3 = funct3_of(instr);
    if !branch_valid(f3) {
        StepRes::Trapped { trap: Trap::IllegalInstruction { instr } }
    } else {
        let a = reg_val(c, rs1_of(instr) as int);
        let b = reg_val(c, rs2_of(instr) as int);
        let target = add32(c.pc, imm_b_of(instr));
        if branch_taken(f3, a, b) {
            StepRes::Next {
                cpu: next_state(c, c.regs, target, c.bus),
                events: seq![
                    Event {
                        pc: c.pc,
                        opcode: instr,
                        instr_type: EventType::FlowChange { new_pc: target },
                    },
                ],
            }
        } else {
            StepRes::Next {
                cpu: next_state(c, c.regs, add32(c.pc, 4), c.bus),
                events: Seq::<Event>::empty(),
            }
        }
    }
}

/// The trace records of a jump that links: calls (rd not 0) record the link
/// register and the target; plain jumps record only the flow change.
pub open spec fn jump_events(pc: u32, instr: u32, rd: int, link: u32, target: u32) -> Seq<Event> {
    if rd == 0 {
        seq![Event { pc, opcode: instr, instr_type: EventType::FlowChange { new_pc: target } }]
    } else {
        seq![
            Event { pc, opcode: instr, instr_type: EventType::RegWrite { reg: rd as u8, value: link } },
            Event {
                pc,
                opcode: instr,
                instr_type: EventType::FlowLink { new_pc: target, register: rd as u8 },
            },
        ]
    }
}

/// LUI: the U immediate reaches rd.
pub open spec fn step_lui(c: CpuView, instr: u32) -> StepRes {
    let rd = rd_of(instr) as int;
    let v = imm_u_of(instr);
    StepRes::Next {
        cpu: next_state(c, wreg(c.regs, rd, v), add32(c.pc, 4), c.bus),
        events: rd_events(c.pc, instr, rd, v),
    }
}

/// AUIPC: the PC plus the U immediate reaches rd.
pub open spec fn step_auipc(c: CpuView, instr: u32) -> StepRes {
    let rd = rd_of(instr) as int;
    let v = add32(c.pc, imm_u_of(instr));
    StepRes::Next {
        cpu: next_state(c, wreg(c.regs, rd, v), add32(c.pc, 4), c.bus),
        events: rd_events(c.pc, instr, rd, v),
    }
}

/// JAL: rd gets the return address, the PC moves by the J immediate.
pub open spec fn step_jal(c: CpuView, instr: u32) -> StepRes {
    let rd = rd_of(instr) as int;
    let link = add32(c.pc, 4);
    let target = add32(c.pc, imm_j_of(instr));
    StepRes::Next {
        cpu: next_state(c, wreg(c.regs, rd, link), target, c.bus),
        events: jump_events(c.pc, instr, rd, link, target),
    }
}

/// JALR: rd gets the return address, the PC becomes rs1 plus the I
/// immediate with bit 0 cleared.
pub open spec fn step_jalr(c: CpuView, instr: u32) -> StepRes {
    let rd = rd_of(instr) as int;
    let a = reg_val(c, rs1_of(instr) as int);
    let link = add32(c.pc, 4);
    let target = add32(a, imm_i_of(instr)) & !1u32;
    StepRes::Next {
        cpu: next_state(c, wreg(c.regs, rd, link), target, c.bus),
        events: jump_events(c.pc, instr, rd, link, target),
    }
}

/// One decoded instruction: dispatch on the opcode. The SYSTEM opcode and
/// unknown opcodes, a zero word among them, are fatal.
#[verifier::opaque]
pub open spec fn exec_instr_spec(c: CpuView, instr: u32) -> StepRes {
    let op = opcode_of(instr);
    if op == R_FORMAT {
        step_op(c, instr)
    } else if op == I_COMP_FORMAT {
        step_op_imm(c, instr)
    } else if op == I_LOAD_FORMAT {
        step_load(c, instr)
    } else if op == S_FORMAT {
        step_store(c, instr)
    } else if op == B_FORMAT {
        step_branch(c, instr)
    } else if op == U_FORMAT_LUI {
        step_lui(c, instr)
    } else if op == U_FORMAT_AUIPC {
        step_auipc(c, instr)
    } else if op == J_FORMAT {
        step_jal(c, instr)
    } else if op == I_JALR_FORMAT {
        step_jalr(c, instr)
    } else if op == I_ENV_FORMAT {
        StepRes::Trapped { trap: Trap::EnvCall { instr } }
    } else {
        StepRes::Trapped { trap: Trap::IllegalInstruction { instr } }
    }
}

/// One full instruction: a misaligned PC is fatal at fetch, a fetch bus
/// failure is fatal, and otherwise the fetched word executes.
pub open spec fn step_spec(c: CpuView) -> StepRes {
    if c.pc % 4 != 0 {
        StepRes::Trapped { trap: Trap::MisalignedPc { pc: c.pc } }
    } else {
        match bus_read_spec(c.bus, 4, c.pc) {
            Err(_) => StepRes::Trapped { trap: Trap::FetchFault { pc: c.pc } },
            Ok(instr) => exec_instr_spec(c, instr),
        }
    }
}

/// `n` instructions in sequence; a trap keeps the state reached so far and
/// ends the batch.
pub open spec fn run_spec(c: CpuView, n: nat) -> RunRes
    decreases n,
{
    if n == 0 {
        RunRes::Done { cpu: c, events: Seq::<Event>::empty() }
    } else {
        match step_spec(c) {
            StepRes::Trapped { trap } => RunRes::Stopped {
                cpu: c,
                events: Seq::<Event>::empty(),
                trap,
            },
            StepRes::Next { cpu, events } => match run_spec(cpu, (n - 1) as nat) {
                RunRes::Done { cpu: c2, events: e2 } => RunRes::Done {
                    cpu: c2,
                    events: events + e2,
                },
                RunRes::Stopped { cpu: c2, events: e2, trap } => RunRes::Stopped {
                    cpu: c2,
                    events: events + e2,
                    trap,
                },
            },
        }
    }
}

/// Field bounds of a fetched instruction word, and the bounds the immediate
/// assemblies stay under before sign extension.
pub proof fn lemma_decode_bounds(i: u32)
    by (bit_vector)
    ensures
        (i >> 7) & 0x1F < 32,
        (i >> 15) & 0x1F < 32,
        (i >> 20) & 0x1F < 32,
        (i >> 12) & 0x7 < 8,
        (i >> 25) & 0x7F < 128,
        (i >> 20) & 0xFFF < (1u32 << 12),
        ((((i >> 25) & 0x7F) << 5) | ((i >> 7) & 0x1F)) < (1u32 << 12),
        ((((i >> 31) & 0x1) << 12) | (((i >> 7) & 0x1) << 11) | (((i >> 25) & 0x3F) << 5) | (((i
            >> 8) & 0xF) << 1)) < (1u32 << 13),
        ((((i >> 31) & 0x1) << 20) | (((i >> 12) & 0xFF) << 12) | (((i >> 20) & 0x1) << 11) | (((i
            >> 21) & 0x3FF) << 1)) < (1u32 << 21),
{
}

/// The masked byte and halfword of a word fit their widths.
proof fn lemma_mask_bounds(v: u32)
    by (bit_vector)
    ensures
        v & 0xFF < (1u32 << 8),
        v & 0xFFFF < (1u32 << 16),
{
}

/// The interpreter.
pub struct Cpu {
    regs: Vec<u32>,
    pc: u32,
    bus: Bus,
    cycles: u64,
}

impl View for Cpu {
    type V = CpuView;

    closed spec fn view(&self) -> CpuView {
        CpuView { regs: self.regs@, pc: self.pc, cycles: self.cycles, bus: self.bus@ }
    }
}

impl Cpu {
    /// An interpreter at the given entry point with all registers zero and
    /// no instructions retired.
    pub fn new(bus: Bus, pc: u32) -> (r: Cpu)
        requires
            bus_wf(bus@),
        ensures
            cpu_wf(r@),
            r@.pc == pc,
            r@.cycles == 0,
            r@.bus == bus@,
            forall|i: int| 0 <= i < 32 ==> r@.regs[i] == 0,
    {
        let mut regs: Vec<u32> = Vec::new();
        while regs.len() < 32
            invariant
                regs@.len() <= 32,
                forall|i: int| 0 <= i < regs@.len() ==> regs@[i] == 0,
            decreases 32 - regs@.len(),
        {
            regs.push(0);
        }
        Cpu { regs, pc, bus, cycles: 0 }
    }

    /// Host-side inspection of a register.
    pub fn read_reg(&self, reg: usize) -> (r: u32)
        requires
            reg < 32,
            cpu_wf(self@),
        ensures
            r == reg_val(self@, reg as int),
    {
        if reg == 0 {
            0
        } else {
            self.regs[reg]
        }
    }

    /// Host-side inspection of memory, through the bus.
    pub fn read_mem(&self, size: u8, addr: u32) -> (r: Result<u32, BusError>)
        requires
            size == 1 || size == 2 || size == 4,
        ensures
            r == bus_read_spec(self@.bus, size, addr),
    {
        self.bus.read(size, addr)
    }

    /// The number of retired instructions.
    pub fn cycles(&self) -> (r: u64)
        ensures
            r == self@.cycles,
    {
        self.cycles
    }

    /// The current program counter.
    pub fn pc(&self) -> (r: u32)
        ensures
            r == self@.pc,
    {
        self.pc
    }

    /// Register file update; register 0 stays zero.
    fn write_reg(&mut self, reg: u32, value: u32)
        requires
            reg < 32,
            cpu_wf(old(self)@),
        ensures
            cpu_wf(final(self)@),
            final(self)@.regs == wreg(old(self)@.regs, reg as int, value),
            final(self)@.pc == old(self)@.pc,
            final(self)@.cycles == old(self)@.cycles,
            final(self)@.bus == old(self)@.bus,
    {
        if reg != 0 {
            self.regs.set(reg as usize, value);
        }
    }

    /// Retire a fall-through instruction: advance the PC by 4 and count it.
    fn retire_next(&mut self)
        requires
            cpu_wf(old(self)@),
        ensures
            cpu_wf(final(self)@),
            final(self)@ == (CpuView {
                pc: add32(old(self)@.pc, 4),
                cycles: inc_cycles(old(self)@.cycles),
                ..old(self)@
            }),
    {
        self.pc = alu_add(self.pc, 4);
        self.cycles = self.cycles.wrapping_add(1);
    }

    /// Retire a control transfer: set the PC to its target and count it.
    fn retire_jump(&mut self, target: u32)
        requires
            cpu_wf(old(self)@),
        ensures
            cpu_wf(final(self)@),
            final(self)@ == (CpuView {
                pc: target,
                cycles: inc_cycles(old(self)@.cycles),
                ..old(self)@
            }),
    {
        self.pc = target;
        self.cycles = self.cycles.wrapping_add(1);
    }

    /// Execute one fetched and decoded instruction, appending its trace
    /// events when tracing is on.
    fn exec_instr(&mut self, instr: u32, trace: bool, events: &mut Vec<Event>) -> (r: Result<(), Trap>)
        requires
            cpu_wf(old(self)@),
        ensures
            cpu_wf(final(self)@),
            match exec_instr_spec(old(self)@, instr) {
                StepRes::Next { cpu, events: evs } => {
                    &&& r is Ok
                    &&& final(self)@ == cpu
                    &&& (trace ==> final(events)@ == old(events)@ + evs)
                    &&& (!trace ==> final(events)@ == old(events)@)
                },
                StepRes::Trapped { trap } => {
                    &&& r == Err::<(), Trap>(trap)
                    &&& final(self)@ == old(self)@
                    &&& final(events)@ == old(events)@
                },
            },
    {
        let ghost c0 = self@;
        let pc0 = self.pc;
        proof {
            reveal(exec_instr_spec);
            lemma_decode_bounds(instr);
        }
        let opcode = instr & 0x7F;
        let rd = (instr >> 7) & 0x1F;
        let f3 = (instr >> 12) & 0x7;
        let rs1 = (instr >> 15) & 0x1F;
        let rs2 = (instr >> 20) & 0x1F;
        let f7 = (instr >> 25) & 0x7F;

        if opcode == R_FORMAT {
            let a = self.read_reg(rs1 as usize);
            let b = self.read_reg(rs2 as usize);
            let v = if f3 == 0 {
                if f7 == 0 {
                    alu_add(a, b)
                } else {
                    alu_sub(a, b)
                }
            } else if f3 == 1 {
                alu_sll(a, b)
            } else if f3 == 2 {
                alu_slt(a, b)
            } else if f3 == 3 {
                alu_sltu(a, b)
            } else if f3 == 4 {
                a ^ b
            } else if f3 == 5 {
                if f7 == 0 {
                    alu_srl(a, b)
                } else {
                    alu_sra(a, b)
                }
            } else if f3 == 6 {
                a | b
            } else {
                a & b
            };
            self.write_reg(rd, v);
            self.retire_next();
            if trace && rd != 0 {
                events.push(
                    Event {
                        pc: pc0,
                        opcode: instr,
                        instr_type: EventType::RegWrite { reg: rd as u8, value: v },
                    },
                );
            }
            proof {
                if trace {
                    assert(final(events)@ =~= old(events)@ + rd_events(c0.pc, instr, rd as int, v));
                }
            }
            Ok(())
        } else if opcode == I_COMP_FORMAT {
            let a = self.read_reg(rs1 as usize);
            let imm = sign_extend((instr >> 20) & 0xFFF, 12);
            let v = if f3 == 0 {
                alu_add(a, imm)
            } else if f3 == 1 {
                alu_sll(a, rs2)
            } else if f3 == 2 {
                alu_slt(a, imm)
            } else if f3 == 3 {
                alu_sltu(a, imm)
            } else if f3 == 4 {
                a ^ imm
            } else if f3 == 5 {
                if f7 == 0 {
                    alu_srl(a, rs2)
                } else {
                    alu_sra(a, rs2)
                }
            } else if f3 == 6 {
                a | imm
            } else {
                a & imm
            };
            self.write_reg(rd, v);
            self.retire_next();
            if trace && rd != 0 {
                events.push(
                    Event {
                        pc: pc0,
                        opcode: instr,
                        instr_type: EventType::RegWrite { reg: rd as u8, value: v },
                    },
                );
            }
            proof {
                if trace {
                    assert(final(events)@ =~= old(events)@ + rd_events(c0.pc, instr, rd as int, v));
                }
            }
            Ok(())
        } else if opcode == I_LOAD_FORMAT {
            if !(f3 == 0 || f3 == 1 || f3 == 2 || f3 == 4 || f3 == 5) {
                return Err(Trap::IllegalInstruction { instr });
            }
            let a = self.read_reg(rs1 as usize);
            let imm = sign_extend((instr >> 20) & 0xFFF, 12);
            let addr = alu_add(a, imm);
            let size = if f3 == 0 || f3 == 4 {
                1u8
            } else if f3 == 1 || f3 == 5 {
                2u8
            } else {
                4u8
            };
            match self.bus.read(size, addr) {
                Err(_) => Err(Trap::LoadFault { addr }),
                Ok(raw) => {
                    proof {
                        lemma_mask_bounds(raw);
                    }
                    let v = if f3 == 0 {
                        sign_extend(raw & 0xFF, 8)
                    } else if f3 == 1 {
                        sign_extend(raw & 0xFFFF, 16)
                    } else if f3 == 2 {
                        raw
                    } else if f3 == 4 {
                        raw & 0xFF
                    } else {
                        raw & 0xFFFF
                    };
                    self.write_reg(rd, v);
                    self.retire_next();
                    if trace {
                        events.push(
                            Event {
                                pc: pc0,
                                opcode: instr,
                                instr_type: EventType::MemRead { addr, value: raw },
                            },
                        );
                        if rd != 0 {
                            events.push(
                                Event {
                                    pc: pc0,
                                    opcode: instr,
                                    instr_type: EventType::RegWrite { reg: rd as u8, value: v },
                                },
                            );
                        }
                        proof {
                            assert(final(events)@ =~= old(events)@ + (seq![
                                Event {
                                    pc: c0.pc,
                                    opcode: instr,
                                    instr_type: EventType::MemRead { addr, value: raw },
                                },
                            ] + rd_events(c0.pc, instr, rd as int, v)));
                        }
                    }
                    Ok(())
                },
            }
        } else if opcode == S_FORMAT {
            if !(f3 == 0 || f3 == 1 || f3 == 2) {
                return Err(Trap::IllegalInstruction { instr });
            }
            let a = self.read_reg(rs1 as usize);
            let b = self.read_reg(rs2 as usize);
            let imm = sign_extend(((f7) << 5) | rd, 12);
            let addr = alu_add(a, imm);
            let size = if f3 == 0 {
                1u8
            } else if f3 == 1 {
                2u8
            } else {
                4u8
            };
            let value = if f3 == 0 {
                b & 0xFF
            } else if f3 == 1 {
                b & 0xFFFF
            } else {
                b
            };
            match self.bus.write(size, addr, value) {
                Err(_) => Err(Trap::StoreFault { addr }),
                Ok(()) => {
                    self.retire_next();
                    if trace {
                        events.push(
                            Event {
                                pc: pc0,
                                opcode: instr,
                                instr_type: EventType::MemWrite { addr, value },
                            },
                        );
                        proof {
                            assert(final(events)@ =~= old(events)@ + seq![
                                Event {
                                    pc: c0.pc,
                                    opcode: instr,
                                    instr_type: EventType::MemWrite { addr, value },
                                },
                            ]);
                        }
                    }
                    Ok(())
                },
            }
        } else if opcode == B_FORMAT {
            if !(f3 == 0 || f3 == 1 || f3 == 4 || f3 == 5 || f3 == 6 || f3 == 7) {
                return Err(Trap::IllegalInstruction { instr });
            }
            let a = self.read_reg(rs1 as usize);
            let b = self.read_reg(rs2 as usize);
            let imm = sign_extend(
                (((instr >> 31) & 0x1) << 12) | (((instr >> 7) & 0x1) << 11) | (((instr >> 25)
                    & 0x3F) << 5) | (((instr >> 8) & 0xF) << 1),
                13,
            );
            let target = alu_add(pc0, imm);
            let taken = if f3 == 0 {
                a == b
            } else if f3 == 1 {
                a != b
            } else if f3 == 4 {
                signed_lt(a, b)
            } else if f3 == 5 {
                !signed_lt(a, b)
            } else if f3 == 6 {
                a < b
            } else {
                a >= b
            };
            if taken {
                self.retire_jump(target);
                if trace {
                    events.push(
                        Event {
                            pc: pc0,
                            opcode: instr,
                            instr_type: EventType::FlowChange { new_pc: target },
                        },
                    );
                    proof {
                        assert(final(events)@ =~= old(events)@ + seq![
                            Event {
                                pc: c0.pc,
                                opcode: instr,
                                instr_type: EventType::FlowChange { new_pc: target },
                            },
                        ]);
                    }
                }
            } else {
                self.retire_next();
                proof {
                    assert(old(events)@ =~= old(events)@ + Seq::<Event>::empty());
                }
            }
            Ok(())
        } else if opcode == U_FORMAT_LUI {
            let v = instr & 0xFFFF_F000;
            self.write_reg(rd, v);
            self.retire_next();
            if trace && rd != 0 {
                events.push(
                    Event {
                        pc: pc0,
                        opcode: instr,
                        instr_type: EventType::RegWrite { reg: rd as u8, value: v },
                    },
                );
            }
            proof {
                if trace {
                    assert(final(events)@ =~= old(events)@ + rd_events(c0.pc, instr, rd as int, v));
                }
            }
            Ok(())
        } else if opcode == U_FORMAT_AUIPC {
            let v = alu_add(pc0, instr & 0xFFFF_F000);
            self.write_reg(rd, v);
            self.retire_next();
            if trace && rd != 0 {
                events.push(
                    Event {
                        pc: pc0,
                        opcode: instr,
                        instr_type: EventType::RegWrite { reg: rd as u8, value: v },
                    },
                );
            }
            proof {
                if trace {
                    assert(final(events)@ =~= old(events)@ + rd_events(c0.pc, instr, rd as int, v));
                }
            }
            Ok(())
        } else if opcode == J_FORMAT {
            let imm = sign_extend(
                (((instr >> 31) & 0x1) << 20) | (((instr >> 12) & 0xFF) << 12) | (((instr >> 20)
                    & 0x1) << 11) | (((instr >> 21) & 0x3FF) << 1),
                21,
            );
            let link = alu_add(pc0, 4);
            let target = alu_add(pc0, imm);
            self.write_reg(rd, link);
            self.retire_jump(target);
            if trace {
                if rd != 0 {
                    events.push(
                        Event {
                            pc: pc0,
                            opcode: instr,
                            instr_type: EventType::RegWrite { reg: rd as u8, value: link },
                        },
                    );
                    events.push(
                        Event {
                            pc: pc0,
                            opcode: instr,
                            instr_type: EventType::FlowLink { new_pc: target, register: rd as u8 },
                        },
                    );
                } else {
                    events.push(
                        Event {
                            pc: pc0,
                            opcode: instr,
                            instr_type: EventType::FlowChange { new_pc: target },
                        },
                    );
                }
                proof {
                    assert(final(events)@ =~= old(events)@ + jump_events(
                        c0.pc,
                        instr,
                        rd as int,
                        link,
                        target,
                    ));
                }
            }
            Ok(())
        } else if opcode == I_JALR_FORMAT {
            let a = self.read_reg(rs1 as usize);
            let imm = sign_extend((instr >> 20) & 0xFFF, 12);
            let link = alu_add(pc0, 4);
            let target = alu_add(a, imm) & !1u32;
            self.write_reg(rd, link);
            self.retire_jump(target);
            if trace {
                if rd != 0 {
                    events.push(
                        Event {
                            pc: pc0,
                            opcode: instr,
                            instr_type: EventType::RegWrite { reg: rd as u8, value: link },
                        },
                    );
                    events.push(
                        Event {
                            pc: pc0,
                            opcode: instr,
                            instr_type: EventType::FlowLink { new_pc: target, register: rd as u8 },
                        },
                    );
                } else {
                    events.push(
                        Event {
                            pc: pc0,
                            opcode: instr,
                            instr_type: EventType::FlowChange { new_pc: target },
                        },
                    );
                }
                proof {
                    assert(final(events)@ =~= old(events)@ + jump_events(
                        c0.pc,
                        instr,
                        rd as int,
                        link,
                        target,
                    ));
                }
            }
            Ok(())
        } else if opcode == I_ENV_FORMAT {
            Err(Trap::EnvCall { instr })
        } else {
            Err(Trap::IllegalInstruction { instr })
        }
    }

    /// A snapshot of the text-mode pixel image, if a text-mode device is
    /// mapped on the bus.
    pub fn textmode_frame(&self) -> (r: Option<Vec<u8>>)
        ensures
            match r {
                Some(v) => crate::bus::first_textmode_pixels(self@.bus) == Some(v@),
                None => crate::bus::first_textmode_pixels(self@.bus) is None,
            },
    {
        self.bus.textmode_frame()
    }

    /// Hand the host the UART bytes transmitted since the last call, oldest
    /// first.
    pub fn take_uart_output(&mut self) -> (r: Vec<u8>)
        requires
            cpu_wf(old(self)@),
        ensures
            cpu_wf(final(self)@),
            r@ == crate::bus::uart_pending(old(self)@.bus),
            final(self)@ == (CpuView { bus: crate::bus::clear_uarts(old(self)@.bus), ..old(self)@ }),
    {
        let r = self.bus.take_uart_output();
        proof {
            let b0 = old(self)@.bus;
            let b1 = self@.bus;
            assert forall|i: int| 0 <= i < b1.len() implies crate::bus::dev_wf(
                #[trigger] b1[i].dev,
            ) by {
                assert(b1[i] == crate::bus::clear_uarts(b0)[i]);
                assert(crate::bus::dev_wf(b0[i].dev));
            }
        }
        r
    }

    /// Fetch, decode and execute one instruction.
    fn step(&mut self, trace: bool, events: &mut Vec<Event>) -> (r: Result<(), Trap>)
        requires
            cpu_wf(old(self)@),
        ensures
            cpu_wf(final(self)@),
            match step_spec(old(self)@) {
                StepRes::Next { cpu, events: evs } => {
                    &&& r is Ok
                    &&& final(self)@ == cpu
                    &&& (trace ==> final(events)@ == old(events)@ + evs)
                    &&& (!trace ==> final(events)@ == old(events)@)
                },
                StepRes::Trapped { trap } => {
                    &&& r == Err::<(), Trap>(trap)
                    &&& final(self)@ == old(self)@
                    &&& final(events)@ == old(events)@
                },
            },
    {
        if self.pc % 4 != 0 {
            return Err(Trap::MisalignedPc { pc: self.pc });
        }
        let instr = match self.bus.read(4, self.pc) {
            Ok(v) => v,
            Err(_) => {
                return Err(Trap::FetchFault { pc: self.pc });
            },
        };
        self.exec_instr(instr, trace, events)
    }

    /// Execute exactly `batch` instructions, or fewer only when one traps;
    /// the returned list holds the trace events of the retired instructions
    /// when tracing is on and is empty otherwise. A trap is fatal to the
    /// run, so a trapping batch reports only the trap; the events of the
    /// instructions retired earlier in that batch are discarded.
    #[verifier::rlimit(100)]
    #[verifier::loop_isolation(false)]
    pub fn tick(&mut self, batch: u64, trace_enabled: bool) -> (r: Result<Vec<Event>, Trap>)
        requires
            cpu_wf(old(self)@),
        ensures
            cpu_wf(final(self)@),
            match run_spec(old(self)@, batch as nat) {
                RunRes::Done { cpu, events } => {
                    &&& r is Ok
                    &&& final(self)@ == cpu
                    &&& (trace_enabled ==> r->Ok_0@ == events)
                    &&& (!trace_enabled ==> r->Ok_0@ == Seq::<Event>::empty())
                },
                RunRes::Stopped { cpu, events, trap } => {
                    &&& r == Err::<Vec<Event>, Trap>(trap)
                    &&& final(self)@ == cpu
                },
            },
    {
        let ghost c0 = self@;
        let mut events: Vec<Event> = Vec::new();
        let ghost mut acc = Seq::<Event>::empty();
        let mut k: u64 = 0;
        proof {
            match run_spec(c0, batch as nat) {
                RunRes::Done { cpu, events: e } => {
                    assert(acc + e =~= e);
                },
                RunRes::Stopped { cpu, events: e, trap } => {
                    assert(acc + e =~= e);
                },
            }
        }
        while k < batch
            invariant
                cpu_wf(self@),
                k <= batch,
                trace_enabled ==> events@ == acc,
                !trace_enabled ==> events@ == Seq::<Event>::empty(),
                match run_spec(self@, (batch - k) as nat) {
                    RunRes::Done { cpu, events: e } => run_spec(c0, batch as nat)
                        == RunRes::Done { cpu, events: acc + e },
                    RunRes::Stopped { cpu, events: e, trap } => run_spec(c0, batch as nat)
                        == RunRes::Stopped { cpu, events: acc + e, trap },
                },
            decreases batch - k,
        {
            let ghost pre = self@;
            let ghost rem = (batch - k) as nat;
            let res = self.step(trace_enabled, &mut events);
            match res {
                Ok(()) => {
                    proof {
                        match step_spec(pre) {
                            StepRes::Next { cpu: cpu1, events: evs } => {
                                match run_spec(cpu1, (rem - 1) as nat) {
                                    RunRes::Done { cpu: c2, events: e2 } => {
                                        assert(run_spec(pre, rem) == RunRes::Done {
                                            cpu: c2,
                                            events: evs + e2,
                                        });
                                        assert(acc + (evs + e2) =~= (acc + evs) + e2);
                                    },
                                    RunRes::Stopped { cpu: c2, events: e2, trap } => {
                                        assert(run_spec(pre, rem) == RunRes::Stopped {
                                            cpu: c2,
                                            events: evs + e2,
                                            trap,
                                        });
                                        assert(acc + (evs + e2) =~= (acc + evs) + e2);
                                    },
                                }
                                acc = acc + evs;
                            },
                            StepRes::Trapped { .. } => {
                                assert(false);
                            },
                        }
                    }
                    k = k + 1;
                },
                Err(t) => {
                    proof {
                        assert(step_spec(pre) == StepRes::Trapped { trap: t });
                        assert(self@ == pre);
                        assert(run_spec(self@, rem) == RunRes::Stopped {
                            cpu: self@,
                            events: Seq::<Event>::empty(),
                            trap: t,
                        });
                        assert(acc + Seq::<Event>::empty() =~= acc);
                        assert(run_spec(c0, batch as nat) == RunRes::Stopped {
                            cpu: self@,
                            events: acc,
                            trap: t,
                        });
                    }
                    return Err(t);
                },
            }
        }
        proof {
            assert(run_spec(self@, 0) == RunRes::Done {
                cpu: self@,
                events: Seq::<Event>::empty(),
            });
            assert(acc + Seq::<Event>::empty() =~= acc);
        }
        Ok(events)
    }
}

/// Register 0 reads zero in every well-formed state: the x0 invariant.
/// Together with the interpreter's contracts, which preserve `cpu_wf`, every
/// executed instruction leaves register 0 reading zero.
pub proof fn lemma_reg0_zero(c: CpuView)
    requires
        cpu_wf(c),
    ensures
        reg_val(c, 0) == 0,
{
}

/// An instruction only retires when it was fetched from a 4-aligned PC: a
/// misaligned PC traps before anything executes.
pub proof fn lemma_retired_pc_aligned(c: CpuView)
    requires
        step_spec(c) is Next,
    ensures
        c.pc % 4 == 0,
{
}

/// Whether an instruction word, executed in a given state, transfers control
/// somewhere other than the next instruction: a jump, or a conditional
/// branch whose condition holds.
pub open spec fn diverts_control(c: CpuView, instr: u32) -> bool {
    let op = opcode_of(instr);
    ||| op == J_FORMAT
    ||| op == I_JALR_FORMAT
    ||| (op == B_FORMAT && branch_valid(funct3_of(instr)) && branch_taken(
        funct3_of(instr),
        reg_val(c, rs1_of(instr) as int),
        reg_val(c, rs2_of(instr) as int),
    ))
}

/// PC alignment: an instruction that retires without transferring control
/// leaves the PC at the old PC plus four, still 4-aligned. (A jump or taken
/// branch sets the PC to its target, which is aligned exactly when the
/// target is; the following fetch traps otherwise.)
pub proof fn lemma_pc_alignment(c: CpuView, instr: u32, cpu2: CpuView, evs: Seq<Event>)
    requires
        bus_read_spec(c.bus, 4, c.pc) == Ok::<u32, BusError>(instr),
        step_spec(c) == (StepRes::Next { cpu: cpu2, events: evs }),
        !diverts_control(c, instr),
    ensures
        cpu2.pc == add32(c.pc, 4),
        c.pc % 4 == 0 && cpu2.pc % 4 == 0,
{
    reveal(exec_instr_spec);
    lemma_retired_pc_aligned(c);
    assert(cpu2.pc == add32(c.pc, 4));
    assert(add32(c.pc, 4) % 4 == 0);
}

/// The target of a control transfer: where a jump, a link jump, or a taken
/// branch moves the PC.
pub open spec fn control_target(c: CpuView, instr: u32) -> u32 {
    let op = opcode_of(instr);
    if op == J_FORMAT {
        add32(c.pc, imm_j_of(instr))
    } else if op == I_JALR_FORMAT {
        add32(reg_val(c, rs1_of(instr) as int), imm_i_of(instr)) & !1u32
    } else {
        add32(c.pc, imm_b_of(instr))
    }
}

/// A retired jump or taken branch sets the PC to exactly its target; the
/// fetch of the next instruction then checks that target's alignment and
/// traps when bit 1 is set.
pub proof fn lemma_control_transfer_pc(c: CpuView, instr: u32, cpu2: CpuView, evs: Seq<Event>)
    requires
        bus_read_spec(c.bus, 4, c.pc) == Ok::<u32, BusError>(instr),
        step_spec(c) == (StepRes::Next { cpu: cpu2, events: evs }),
        diverts_control(c, instr),
    ensures
        cpu2.pc == control_target(c, instr),
{
    reveal(exec_instr_spec);
}

/// The cycle counter advances by exactly one per retired instruction.
pub proof fn lemma_cycle_increment(c: CpuView, cpu2: CpuView, evs: Seq<Event>)
    requires
        step_spec(c) == (StepRes::Next { cpu: cpu2, events: evs }),
        c.cycles < u64::MAX,
    ensures
        cpu2.cycles == c.cycles + 1,
{
    reveal(exec_instr_spec);
}

/// Over a whole batch that runs to completion, the cycle counter advances by
/// exactly the number of retired instructions.
pub proof fn lemma_run_cycle_count(c: CpuView, n: nat)
    requires
        run_spec(c, n) is Done,
        c.cycles + n <= u64::MAX,
    ensures
        (run_spec(c, n) matches RunRes::Done { cpu, events } && cpu.cycles == c.cycles + n),
    decreases n,
{
    if n > 0 {
        match step_spec(c) {
            StepRes::Next { cpu: c1, events: e } => {
                lemma_cycle_increment(c, c1, e);
                lemma_run_cycle_count(c1, (n - 1) as nat);
            },
            StepRes::Trapped { .. } => {
                assert(false);
            },
        }
    }
}

} // verus!
