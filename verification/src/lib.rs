//! An instruction-set simulator for the 32-bit base RISC integer ISA.
//!
//! The crate models a small system: a CPU interpreting the base integer
//! instruction set, a bus that routes sized loads and stores to memory-mapped
//! devices (RAM, a UART transmitter, a screen control register pair, and a
//! text-mode display rasterized to RGBA pixels), and the coordination logic a
//! host front end needs to run the machine and sample frames.
//!
//! Every device and the CPU carry a mathematical view; the exec functions are
//! specified against those views, down to the exact little-endian byte layout
//! of memory transactions and trace records.

use vstd::prelude::*;

pub mod alu;
pub mod bits;
pub mod bus;
pub mod cpu;
pub mod disasm;
pub mod image;
pub mod machine;
pub mod peripherals;
pub mod strfmt;
pub mod types;

verus! {

/// Base guest address of RAM; program images are loaded here and execution
/// starts at this address.
pub const RAM_BASE: u32 = 0x8000_0000;

/// Size of RAM in bytes (4 MiB).
pub const RAM_SIZE: u32 = 0x0040_0000;

/// Base guest address of the UART transmitter region.
pub const UART0_BASE: u32 = 0x1000_0000;

/// Size in bytes of the UART region (rounded to a power of two).
pub const UART0_SIZE: u32 = 16;

/// Base guest address of the screen control/status register pair.
pub const SCREEN_CSR_ADDR: u32 = 0x1000_1000;

/// Size in bytes of the screen control/status register region.
pub const SCREEN_CSR_SIZE: u32 = 8;

/// Base guest address of the text-mode character/attribute buffer.
pub const VGA_TEXT_MODE_BASE: u32 = 0x000B_8000;

/// Width of the text-mode buffer in character cells.
pub const _TEXT_WIDTH: u32 = 64;

/// Height of the text-mode buffer in character cells.
pub const _TEXT_HEIGHT: u32 = 19;

/// Width of the rendered screen in pixels (each 8-pixel-wide glyph is scaled
/// by 2, so 64 cells cover 1024 pixels).
pub const SCREEN_WIDTH: usize = 1024;

/// Height of the rendered screen in pixels (each 16-row glyph is scaled by 2,
/// so 19 rows cover 608 pixels).
pub const SCREEN_HEIGHT: usize = 608;

} // verus!
