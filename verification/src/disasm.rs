//! One-line textual mnemonics for fetched instruction words.
//!
//! Disassembly is informational: it reads an instruction word and the PC it
//! was fetched from and builds a line of text, touching no machine state.
//! The exact character sequence is stated by `disasm_chars`.

use vstd::prelude::*;
use crate::alu::add32;
use crate::alu::alu_add;
use crate::bits::as_signed;
use crate::bits::sign_extend;
use crate::cpu::B_FORMAT;
use crate::cpu::I_COMP_FORMAT;
use crate::cpu::I_ENV_FORMAT;
use crate::cpu::I_JALR_FORMAT;
use crate::cpu::I_LOAD_FORMAT;
use crate::cpu::J_FORMAT;
use crate::cpu::R_FORMAT;
use crate::cpu::S_FORMAT;
use crate::cpu::U_FORMAT_AUIPC;
use crate::cpu::U_FORMAT_LUI;
use crate::cpu::funct3_of;
use crate::cpu::funct7_of;
use crate::cpu::imm_b_of;
use crate::cpu::imm_i_of;
use crate::cpu::imm_j_of;
use crate::cpu::imm_s_of;
use crate::cpu::opcode_of;
use crate::cpu::rd_of;
use crate::cpu::rs1_of;
use crate::cpu::rs2_of;
use crate::strfmt::append_dec_u32;
use crate::strfmt::append_hex32;
use crate::strfmt::dec_chars;
use crate::strfmt::hex32_chars;

verus! {

/// A register name: `x` and the register number.
pub open spec fn reg_chars(r: u32) -> Seq<char> {
    "x"@ + dec_chars(r as nat)
}

/// A sign-extended immediate in signed decimal.
pub open spec fn sdec_chars(v: u32) -> Seq<char> {
    if as_signed(v) < 0 {
        "-"@ + dec_chars((0x1_0000_0000 - v) as nat)
    } else {
        dec_chars(v as nat)
    }
}

/// The mnemonic of a register-register operation.
pub open spec fn r_mnemonic(f3: u32, f7: u32) -> Seq<char> {
    if f3 == 0 {
        if f7 == 0 {
            "add"@
        } else {
            "sub"@
        }
    } else if f3 == 1 {
        "sll"@
    } else if f3 == 2 {
        "slt"@
    } else if f3 == 3 {
        "sltu"@
    } else if f3 == 4 {
        "xor"@
    } else if f3 == 5 {
        if f7 == 0 {
            "srl"@
        } else {
            "sra"@
        }
    } else if f3 == 6 {
        "or"@
    } else {
        "and"@
    }
}

/// The mnemonic of a register-immediate operation.
pub open spec fn i_mnemonic(f3: u32, f7: u32) -> Seq<char> {
    if f3 == 0 {
        "addi"@
    } else if f3 == 1 {
        "slli"@
    } else if f3 == 2 {
        "slti"@
    } else if f3 == 3 {
        "sltiu"@
    } else if f3 == 4 {
        "xori"@
    } else if f3 == 5 {
        if f7 == 0 {
            "srli"@
        } else {
            "srai"@
        }
    } else if f3 == 6 {
        "ori"@
    } else {
        "andi"@
    }
}

/// The mnemonic of a load.
pub open spec fn load_mnemonic(f3: u32) -> Seq<char> {
    if f3 == 0 {
        "lb"@
    } else if f3 == 1 {
        "lh"@
    } else if f3 == 2 {
        "lw"@
    } else if f3 == 4 {
        "lbu"@
    } else if f3 == 5 {
        "lhu"@
    } else {
        "unknown"@
    }
}

/// The mnemonic of a store.
pub open spec fn store_mnemonic(f3: u32) -> Seq<char> {
    if f3 == 0 {
        "sb"@
    } else if f3 == 1 {
        "sh"@
    } else if f3 == 2 {
        "sw"@
    } else {
        "unknown"@
    }
}

/// The mnemonic of a conditional branch.
pub open spec fn branch_mnemonic(f3: u32) -> Seq<char> {
    if f3 == 0 {
        "beq"@
    } else if f3 == 1 {
        "bne"@
    } else if f3 == 4 {
        "blt"@
    } else if f3 == 5 {
        "bge"@
    } else if f3 == 6 {
        "bltu"@
    } else if f3 == 7 {
        "bgeu"@
    } else {
        "unknown"@
    }
}

/// The text of one instruction word fetched at `pc`.
pub open spec fn disasm_chars(instr: u32, pc: u32) -> Seq<char> {
    let op = opcode_of(instr);
    let rd = rd_of(instr);
    let rs1 = rs1_of(instr);
    let rs2 = rs2_of(instr);
    let f3 = funct3_of(instr);
    let f7 = funct7_of(instr);
    if op == R_FORMAT {
        r_mnemonic(f3, f7) + " "@ + reg_chars(rd) + ", "@ + reg_chars(rs1) + ", "@ + reg_chars(rs2)
    } else if op == I_COMP_FORMAT {
        i_mnemonic(f3, f7) + " "@ + reg_chars(rd) + ", "@ + reg_chars(rs1) + ", "@ + (if f3 == 1
            || f3 == 5 {
            dec_chars(rs2 as nat)
        } else {
            sdec_chars(imm_i_of(instr))
        })
    } else if op == I_LOAD_FORMAT {
        load_mnemonic(f3) + " "@ + reg_chars(rd) + ", "@ + sdec_chars(imm_i_of(instr)) + "("@
            + reg_chars(rs1) + ")"@
    } else if op == S_FORMAT {
        store_mnemonic(f3) + " "@ + reg_chars(rs2) + ", "@ + sdec_chars(imm_s_of(instr)) + "("@
            + reg_chars(rs1) + ")"@
    } else if op == B_FORMAT {
        branch_mnemonic(f3) + " "@ + reg_chars(rs1) + ", "@ + reg_chars(rs2) + ", to 0x"@
            + hex32_chars(add32(pc, imm_b_of(instr)))
    } else if op == U_FORMAT_LUI {
        "lui"@
    } else if op == U_FORMAT_AUIPC {
        "auipc"@
    } else if op == J_FORMAT {
        "jal to 0x"@ + hex32_chars(add32(pc, imm_j_of(instr)))
    } else if op == I_JALR_FORMAT {
        "jalr"@
    } else if op == I_ENV_FORMAT {
        "ecall/ebreak"@
    } else {
        "unknown"@
    }
}

/// Append a register name.
fn append_reg(s: &mut String, r: u32)
    ensures
        final(s)@ == old(s)@ + reg_chars(r),
{
    s.append("x");
    append_dec_u32(s, r);
    proof {
        assert(final(s)@ =~= old(s)@ + reg_chars(r));
    }
}

/// Append a sign-extended immediate in signed decimal.
fn append_sdec(s: &mut String, v: u32)
    ensures
        final(s)@ == old(s)@ + sdec_chars(v),
{
    if v >= 0x8000_0000 {
        s.append("-");
        let m = (0xFFFF_FFFFu32 - v) + 1;
        append_dec_u32(s, m);
        proof {
            assert(final(s)@ =~= old(s)@ + sdec_chars(v));
        }
    } else {
        append_dec_u32(s, v);
    }
}

/// The textual mnemonic of an instruction word fetched at `pc`. Disassembly
/// reads no machine state and changes none.
pub fn disassemble(instr: u32, pc: u32) -> (r: String)
    ensures
        r@ == disasm_chars(instr, pc),
{
    proof {
        crate::cpu::lemma_decode_bounds(instr);
    }
    let opcode = instr & 0x7F;
    let rd = (instr >> 7) & 0x1F;
    let f3 = (instr >> 12) & 0x7;
    let rs1 = (instr >> 15) & 0x1F;
    let rs2 = (instr >> 20) & 0x1F;
    let f7 = (instr >> 25) & 0x7F;
    let mut s = String::new();
    if opcode == R_FORMAT {
        if f3 == 0 {
            if f7 == 0 {
                s.append("add");
            } else {
                s.append("sub");
            }
        } else if f3 == 1 {
            s.append("sll");
        } else if f3 == 2 {
            s.append("slt");
        } else if f3 == 3 {
            s.append("sltu");
        } else if f3 == 4 {
            s.append("xor");
        } else if f3 == 5 {
            if f7 == 0 {
                s.append("srl");
            } else {
                s.append("sra");
            }
        } else if f3 == 6 {
            s.append("or");
        } else {
            s.append("and");
        }
        s.append(" ");
        append_reg(&mut s, rd);
        s.append(", ");
        append_reg(&mut s, rs1);
        s.append(", ");
        append_reg(&mut s, rs2);
        proof {
            assert(s@ =~= disasm_chars(instr, pc));
        }
    } else if opcode == I_COMP_FORMAT {
        if f3 == 0 {
            s.append("addi");
        } else if f3 == 1 {
            s.append("slli");
        } else if f3 == 2 {
            s.append("slti");
        } else if f3 == 3 {
            s.append("sltiu");
        } else if f3 == 4 {
            s.append("xori");
        } else if f3 == 5 {
            if f7 == 0 {
                s.append("srli");
            } else {
                s.append("srai");
            }
        } else if f3 == 6 {
            s.append("ori");
        } else {
            s.append("andi");
        }
        s.append(" ");
        append_reg(&mut s, rd);
        s.append(", ");
        append_reg(&mut s, rs1);
        s.append(", ");
        if f3 == 1 || f3 == 5 {
            append_dec_u32(&mut s, rs2);
        } else {
            append_sdec(&mut s, sign_extend((instr >> 20) & 0xFFF, 12));
        }
        proof {
            assert(s@ =~= disasm_chars(instr, pc));
        }
    } else if opcode == I_LOAD_FORMAT {
        if f3 == 0 {
            s.append("lb");
        } else if f3 == 1 {
            s.append("lh");
        } else if f3 == 2 {
            s.append("lw");
        } else if f3 == 4 {
            s.append("lbu");
        } else if f3 == 5 {
            s.append("lhu");
        } else {
            s.append("unknown");
        }
        s.append(" ");
        append_reg(&mut s, rd);
        s.append(", ");
        append_sdec(&mut s, sign_extend((instr >> 20) & 0xFFF, 12));
        s.append("(");
        append_reg(&mut s, rs1);
        s.append(")");
        proof {
            assert(s@ =~= disasm_chars(instr, pc));
        }
    } else if opcode == S_FORMAT {
        if f3 == 0 {
            s.append("sb");
        } else if f3 == 1 {
            s.append("sh");
        } else if f3 == 2 {
            s.append("sw");
        } else {
            s.append("unknown");
        }
        s.append(" ");
        append_reg(&mut s, rs2);
        s.append(", ");
        append_sdec(&mut s, sign_extend((f7 << 5) | rd, 12));
        s.append("(");
        append_reg(&mut s, rs1);
        s.append(")");
        proof {
            assert(s@ =~= disasm_chars(instr, pc));
        }
    } else if opcode == B_FORMAT {
        if f3 == 0 {
            s.append("beq");
        } else if f3 == 1 {
            s.append("bne");
        } else if f3 == 4 {
            s.append("blt");
        } else if f3 == 5 {
            s.append("bge");
        } else if f3 == 6 {
            s.append("bltu");
        } else if f3 == 7 {
            s.append("bgeu");
        } else {
            s.append("unknown");
        }
        s.append(" ");
        append_reg(&mut s, rs1);
        s.append(", ");
        append_reg(&mut s, rs2);
        s.append(", to 0x");
        let imm = sign_extend(
            (((instr >> 31) & 0x1) << 12) | (((instr >> 7) & 0x1) << 11) | (((instr >> 25) & 0x3F)
                << 5) | (((instr >> 8) & 0xF) << 1),
            13,
        );
        append_hex32(&mut s, alu_add(pc, imm));
        proof {
            assert(s@ =~= disasm_chars(instr, pc));
        }
    } else if opcode == U_FORMAT_LUI {
        s.append("lui");
    } else if opcode == U_FORMAT_AUIPC {
        s.append("auipc");
    } else if opcode == J_FORMAT {
        s.append("jal to 0x");
        let imm = sign_extend(
            (((instr >> 31) & 0x1) << 20) | (((instr >> 12) & 0xFF) << 12) | (((instr >> 20) & 0x1)
                << 11) | (((instr >> 21) & 0x3FF) << 1),
            21,
        );
        append_hex32(&mut s, alu_add(pc, imm));
        proof {
            assert(s@ =~= disasm_chars(instr, pc));
        }
    } else if opcode == I_JALR_FORMAT {
        s.append("jalr");
    } else if opcode == I_ENV_FORMAT {
        s.append("ecall/ebreak");
    } else {
        s.append("unknown");
    }
    proof {
        assert(s@ =~= disasm_chars(instr, pc));
    }
    s
}

} // verus!
