//! The screen control/status register pair.
//!
//! Two word slots in an 8-byte region: offset 0 holds the framebuffer-enable
//! flag (any nonzero write sets it, zero clears it; reads yield 0 or 1), and
//! offset 4 holds the framebuffer base address as a full word.

use vstd::prelude::*;

verus! {

/// The state of the register pair.
pub struct CsrView {
    pub enabled: bool,
    pub fb_addr: u32,
}

/// Framebuffer-enable flag and framebuffer base address.
pub struct ScreenCsr {
    pub frame_buffer_enabled: bool,
    pub frame_buffer_addr: u32,
}

impl View for ScreenCsr {
    type V = CsrView;

    closed spec fn view(&self) -> CsrView {
        CsrView { enabled: self.frame_buffer_enabled, fb_addr: self.frame_buffer_addr }
    }
}

/// What a read returns: the enable flag as 0/1 for any access below offset 4,
/// the framebuffer address for a word read at offset 4, and 0 for the
/// reserved remainder of the region.
pub open spec fn csr_read_spec(c: CsrView, size: u8, off: u32) -> u32 {
    if off < 4 {
        if c.enabled {
            1u32
        } else {
            0u32
        }
    } else if size == 4 && off == 4 {
        c.fb_addr
    } else {
        0u32
    }
}

/// What a write does: any access below offset 4 sets the enable flag from
/// the value's truth, a word write at offset 4 replaces the framebuffer
/// address, and everything else is rejected.
pub open spec fn csr_write_spec(c: CsrView, size: u8, off: u32, value: u32) -> Option<CsrView> {
    if off < 4 {
        Some(CsrView { enabled: value != 0, fb_addr: c.fb_addr })
    } else if size == 4 && off == 4 {
        Some(CsrView { enabled: c.enabled, fb_addr: value })
    } else {
        None
    }
}

impl ScreenCsr {
    /// Framebuffer disabled, address zero.
    pub fn new() -> (r: ScreenCsr)
        ensures
            r@ == (CsrView { enabled: false, fb_addr: 0 }),
    {
        ScreenCsr { frame_buffer_enabled: false, frame_buffer_addr: 0 }
    }

    pub fn is_enabled(&self) -> (r: bool)
        ensures
            r == self@.enabled,
    {
        self.frame_buffer_enabled
    }

    pub fn fb_addr(&self) -> (r: u32)
        ensures
            r == self@.fb_addr,
    {
        self.frame_buffer_addr
    }

    /// Read a register; reserved byte combinations read as 0.
    pub fn read(&self, size: u8, addr: u32) -> (r: u32)
        ensures
            r == csr_read_spec(self@, size, addr),
    {
        if addr < 4 {
            if self.frame_buffer_enabled {
                1
            } else {
                0
            }
        } else if size == 4 && addr == 4 {
            self.frame_buffer_addr
        } else {
            0
        }
    }

    /// Write a register; anything but the two documented slots is rejected.
    pub fn write(&mut self, size: u8, addr: u32, value: u32) -> (r: Result<(), ()>)
        ensures
            match csr_write_spec(old(self)@, size, addr, value) {
                Some(c) => r is Ok && final(self)@ == c,
                None => r is Err && final(self)@ == old(self)@,
            },
    {
        if addr < 4 {
            self.frame_buffer_enabled = value != 0;
            Ok(())
        } else if size == 4 && addr == 4 {
            self.frame_buffer_addr = value;
            Ok(())
        } else {
            Err(())
        }
    }
}

} // verus!
