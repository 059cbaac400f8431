//! A write-only UART transmitter.
//!
//! The guest sees the status byte of a 16550-style line status register
//! (transmitter idle, holding register empty) on every read, and transmits a
//! byte by a 1-byte write at offset 0. Transmitted bytes queue up until the
//! host drains them.

use vstd::prelude::*;

verus! {

/// The constant line-status value every read returns: transmitter idle and
/// holding register empty.
pub const UART_LSR_READY: u32 = 0x60;

/// The UART device. Its view is the queue of transmitted bytes the host has
/// not collected yet, oldest first.
pub struct UartNs16550a {
    tx_buf: Vec<u8>,
}

impl View for UartNs16550a {
    type V = Seq<u8>;

    closed spec fn view(&self) -> Seq<u8> {
        self.tx_buf@
    }
}

/// What a write does to the transmit queue: a 1-byte write at offset 0
/// appends the low byte of the value; every other write is rejected.
pub open spec fn uart_write_spec(buf: Seq<u8>, size: u8, off: u32, value: u32) -> Option<Seq<u8>> {
    if off == 0 && size == 1 {
        Some(buf.push((value & 0xFF) as u8))
    } else {
        None
    }
}

impl UartNs16550a {
    /// A UART with nothing pending.
    pub fn new() -> (r: UartNs16550a)
        ensures
            r@ == Seq::<u8>::empty(),
    {
        UartNs16550a { tx_buf: Vec::new() }
    }

    /// Every read, whatever its size and offset, answers "ready to send".
    pub fn read(&self, _size: u8, _addr: u32) -> (r: u32)
        ensures
            r == UART_LSR_READY,
    {
        UART_LSR_READY
    }

    /// Transmit the low byte of `value` on a 1-byte write at offset 0;
    /// reject every other write.
    pub fn write(&mut self, size: u8, addr: u32, value: u32) -> (r: Result<(), ()>)
        ensures
            match uart_write_spec(old(self)@, size, addr, value) {
                Some(b) => r is Ok && final(self)@ == b,
                None => r is Err && final(self)@ == old(self)@,
            },
    {
        if addr == 0 && size == 1 {
            self.tx_buf.push((value & 0xFF) as u8);
            Ok(())
        } else {
            Err(())
        }
    }

    /// Hand the pending transmitted bytes to the host, leaving the queue
    /// empty.
    pub fn take_output(&mut self) -> (r: Vec<u8>)
        ensures
            r@ == old(self)@,
            final(self)@ == Seq::<u8>::empty(),
    {
        let r = self.tx_buf.clone();
        self.tx_buf.clear();
        r
    }
}

} // verus!
