//! Control messages between host and core, and the per-instruction trace
//! event model with its exact binary encoding.

use vstd::prelude::*;
use crate::strfmt::append_dec_u8;
use crate::strfmt::append_hex32;
use crate::strfmt::dec_chars;
use crate::strfmt::hex32_chars;

verus! {

/// Host-to-core control commands.
#[derive(Clone, Copy, PartialEq, Eq, Structural, Debug)]
pub enum Ctrl {
    RequestFrame,
    Stop,
}

/// A control command as carried on the control channel.
pub struct CtrlMessage {
    pub command: Ctrl,
}

/// How the bytes of a frame message are to be interpreted: a pre-rendered
/// RGBA image from the text-mode device, or raw RGB565 framebuffer contents.
#[derive(Clone, Copy, PartialEq, Eq, Structural, Debug)]
pub enum ScreenType {
    TextMode,
    FrameBuffer,
}

/// A frame snapshot sent to the host.
pub struct ScreenMsg {
    pub screen_type: ScreenType,
    pub data: Vec<u8>,
}

/// The observable effect of one retired instruction.
#[derive(Clone, Copy, PartialEq, Eq, Structural, Debug)]
pub enum EventType {
    RegWrite { reg: u8, value: u32 },
    MemRead { addr: u32, value: u32 },
    MemWrite { addr: u32, value: u32 },
    FlowChange { new_pc: u32 },
    FlowLink { new_pc: u32, register: u8 },
}

/// One trace record: the instruction's address, the full instruction word,
/// and what it did.
#[derive(Clone, Copy, PartialEq, Eq, Structural, Debug)]
pub struct Event {
    pub pc: u32,
    pub opcode: u32,
    pub instr_type: EventType,
}

/// The little-endian bytes of a 32-bit word.
pub open spec fn le32_bytes(v: u32) -> Seq<u8> {
    seq![
        (v & 0xFF) as u8,
        ((v >> 8) & 0xFF) as u8,
        ((v >> 16) & 0xFF) as u8,
        ((v >> 24) & 0xFF) as u8,
    ]
}

/// The binary encoding of a record: pc and instruction word little-endian,
/// one kind byte, then the kind's payload.
pub open spec fn event_bytes(e: Event) -> Seq<u8> {
    le32_bytes(e.pc) + le32_bytes(e.opcode) + match e.instr_type {
        EventType::RegWrite { reg, value } => seq![0u8, reg] + le32_bytes(value),
        EventType::MemRead { addr, value } => seq![1u8] + le32_bytes(addr) + le32_bytes(value),
        EventType::MemWrite { addr, value } => seq![2u8] + le32_bytes(addr) + le32_bytes(value),
        EventType::FlowChange { new_pc } => seq![3u8] + le32_bytes(new_pc),
        EventType::FlowLink { new_pc, register } => seq![4u8] + le32_bytes(new_pc)
            + seq![register],
    }
}

/// Append the little-endian bytes of a word.
fn push_le32(out: &mut Vec<u8>, v: u32)
    ensures
        final(out)@ == old(out)@ + le32_bytes(v),
{
    out.push((v & 0xFF) as u8);
    out.push(((v >> 8) & 0xFF) as u8);
    out.push(((v >> 16) & 0xFF) as u8);
    out.push(((v >> 24) & 0xFF) as u8);
    proof {
        assert(final(out)@ =~= old(out)@ + le32_bytes(v));
    }
}

impl Event {
    /// Encode the record for the binary trace stream.
    pub fn serialize(&self) -> (out: Vec<u8>)
        ensures
            out@ == event_bytes(*self),
    {
        let mut out: Vec<u8> = Vec::new();
        push_le32(&mut out, self.pc);
        push_le32(&mut out, self.opcode);
        match self.instr_type {
            EventType::RegWrite { reg, value } => {
                out.push(0u8);
                out.push(reg);
                push_le32(&mut out, value);
            },
            EventType::MemRead { addr, value } => {
                out.push(1u8);
                push_le32(&mut out, addr);
                push_le32(&mut out, value);
            },
            EventType::MemWrite { addr, value } => {
                out.push(2u8);
                push_le32(&mut out, addr);
                push_le32(&mut out, value);
            },
            EventType::FlowChange { new_pc } => {
                out.push(3u8);
                push_le32(&mut out, new_pc);
            },
            EventType::FlowLink { new_pc, register } => {
                out.push(4u8);
                push_le32(&mut out, new_pc);
                out.push(register);
            },
        }
        proof {
            assert(out@ =~= event_bytes(*self));
        }
        out
    }

    /// Encode the record as one line of text.
    pub fn serialize_human_readable(&self) -> (r: String)
        ensures
            r@ == event_text(*self),
    {
        let mut s = String::new();
        s.append("PC=0x");
        append_hex32(&mut s, self.pc);
        s.append(" OPCODE=0x");
        append_hex32(&mut s, self.opcode);
        s.append(" ");
        match self.instr_type {
            EventType::RegWrite { reg, value } => {
                s.append("TYPE=RegWrite REG=");
                append_dec_u8(&mut s, reg);
                s.append(" VALUE=0x");
                append_hex32(&mut s, value);
                s.append("\n");
            },
            EventType::MemRead { addr, value } => {
                s.append("TYPE=MemRead ADDR=0x");
                append_hex32(&mut s, addr);
                s.append(" VALUE=0x");
                append_hex32(&mut s, value);
                s.append("\n");
            },
            EventType::MemWrite { addr, value } => {
                s.append("TYPE=MemWrite ADDR=0x");
                append_hex32(&mut s, addr);
                s.append(" VALUE=0x");
                append_hex32(&mut s, value);
                s.append("\n");
            },
            EventType::FlowChange { new_pc } => {
                s.append("TYPE=FlowChange NEW_PC=0x");
                append_hex32(&mut s, new_pc);
                s.append("\n");
            },
            EventType::FlowLink { new_pc, register } => {
                s.append("TYPE=FlowLink NEW_PC=0x");
                append_hex32(&mut s, new_pc);
                s.append(" REG=");
                append_dec_u8(&mut s, register);
                s.append("\n");
            },
        }
        proof {
            assert(s@ =~= event_text(*self));
        }
        s
    }
}

/// The text of a record: the instruction address and word, then the kind
/// and its payload, ending in a newline.
pub open spec fn event_text(e: Event) -> Seq<char> {
    "PC=0x"@ + hex32_chars(e.pc) + " OPCODE=0x"@ + hex32_chars(e.opcode) + " "@
        + (match e.instr_type {
        EventType::RegWrite { reg, value } => "TYPE=RegWrite REG="@ + dec_chars(reg as nat)
            + " VALUE=0x"@ + hex32_chars(value) + "\n"@,
        EventType::MemRead { addr, value } => "TYPE=MemRead ADDR=0x"@ + hex32_chars(addr)
            + " VALUE=0x"@ + hex32_chars(value) + "\n"@,
        EventType::MemWrite { addr, value } => "TYPE=MemWrite ADDR=0x"@ + hex32_chars(addr)
            + " VALUE=0x"@ + hex32_chars(value) + "\n"@,
        EventType::FlowChange { new_pc } => "TYPE=FlowChange NEW_PC=0x"@ + hex32_chars(new_pc)
            + "\n"@,
        EventType::FlowLink { new_pc, register } => "TYPE=FlowLink NEW_PC=0x"@ + hex32_chars(
            new_pc,
        ) + " REG="@ + dec_chars(register as nat) + "\n"@,
    })
}

} // verus!
