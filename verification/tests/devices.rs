use rv32emu::peripherals::ScreenCsr;
use rv32emu::peripherals::TextMode;
use rv32emu::peripherals::UartNs16550a;

#[test]
fn uart_always_reads_ready() {
    let uart = UartNs16550a::new();
    assert_eq!(uart.read(1, 0), 0x60);
    assert_eq!(uart.read(4, 0), 0x60);
    assert_eq!(uart.read(2, 7), 0x60);
}

#[test]
fn uart_transmits_single_bytes_at_offset_zero() {
    let mut uart = UartNs16550a::new();
    assert!(uart.write(1, 0, 'H' as u32).is_ok());
    assert!(uart.write(1, 0, 'i' as u32).is_ok());
    assert_eq!(uart.take_output(), vec![b'H', b'i']);
    // The queue is drained by the handoff.
    assert_eq!(uart.take_output(), Vec::<u8>::new());
}

#[test]
fn uart_rejects_other_writes() {
    let mut uart = UartNs16550a::new();
    assert!(uart.write(2, 0, 0x41).is_err());
    assert!(uart.write(4, 0, 0x41).is_err());
    assert!(uart.write(1, 1, 0x41).is_err());
    assert_eq!(uart.take_output(), Vec::<u8>::new());
}

#[test]
fn uart_transmits_the_low_byte_only() {
    let mut uart = UartNs16550a::new();
    assert!(uart.write(1, 0, 0x1_0248).is_ok());
    assert_eq!(uart.take_output(), vec![0x48]);
}

#[test]
fn screen_csr_enable_flag() {
    let mut csr = ScreenCsr::new();
    assert!(!csr.is_enabled());
    assert_eq!(csr.read(4, 0), 0);
    assert!(csr.write(4, 0, 5).is_ok()); // any nonzero sets
    assert!(csr.is_enabled());
    assert_eq!(csr.read(4, 0), 1);
    assert_eq!(csr.read(1, 2), 1); // any access below offset 4
    assert!(csr.write(1, 0, 0).is_ok()); // zero clears
    assert!(!csr.is_enabled());
}

#[test]
fn screen_csr_framebuffer_address() {
    let mut csr = ScreenCsr::new();
    assert_eq!(csr.fb_addr(), 0);
    assert!(csr.write(4, 4, 0x8010_0000).is_ok());
    assert_eq!(csr.fb_addr(), 0x8010_0000);
    assert_eq!(csr.read(4, 4), 0x8010_0000);
}

#[test]
fn screen_csr_rejects_odd_writes_and_reads_reserved_as_zero() {
    let mut csr = ScreenCsr::new();
    assert!(csr.write(1, 5, 1).is_err());
    assert!(csr.write(2, 4, 1).is_err());
    assert_eq!(csr.read(1, 5), 0);
}

#[test]
fn textmode_cell_bytes_round_trip() {
    let mut tm = TextMode::new();
    assert!(tm.write(2, 0, ('A' as u32) | (0x0F << 8)).is_ok());
    assert_eq!(tm.read(2, 0), Some(('A' as u32) | (0x0F << 8)));
    assert_eq!(tm.read(1, 0), Some('A' as u32));
    assert_eq!(tm.read(1, 1), Some(0x0F));
}

#[test]
fn textmode_changed_cell_repaints_the_frame() {
    let mut tm = TextMode::new();
    let blank = tm.handle();
    // Bright white 'A' on black at the top-left cell.
    assert!(tm.write(2, 0, ('A' as u32) | (0x0F << 8)).is_ok());
    let painted = tm.handle();
    assert_eq!(painted.len(), 1024 * 608 * 4);
    assert_ne!(blank, painted);
    // The published image equals a fresh rasterization of the cells.
    assert_eq!(painted, tm.convert_vec_to_img());
}

#[test]
fn textmode_identical_cell_write_keeps_the_frame_byte_identical() {
    let mut tm = TextMode::new();
    assert!(tm.write(2, 64, ('Z' as u32) | (0x1E << 8)).is_ok());
    let before = tm.handle();
    assert!(tm.write(2, 64, ('Z' as u32) | (0x1E << 8)).is_ok());
    let after = tm.handle();
    assert_eq!(before, after);
}

#[test]
fn textmode_byte_and_word_writes_do_not_repaint() {
    let mut tm = TextMode::new();
    let before = tm.handle();
    assert!(tm.write(1, 0, 'Q' as u32).is_ok());
    assert!(tm.write(4, 8, 0x4142_4344).is_ok());
    assert_eq!(tm.read(1, 0), Some('Q' as u32));
    assert_eq!(tm.read(4, 8), Some(0x4142_4344));
    // The pixel image is untouched until a 2-byte cell store changes a cell.
    assert_eq!(tm.handle(), before);
}

#[test]
fn textmode_attribute_decodes_palette_indices() {
    let tm = TextMode::new();
    let a = tm.read_attribute(0x0F);
    assert_eq!(a.fg, (255, 255, 255)); // intense white foreground
    assert_eq!(a.bg, (0, 0, 0)); // black background
    let b = tm.read_attribute(0x71);
    assert_eq!(b.fg, (127, 0, 0)); // red foreground
    assert_eq!(b.bg, (255, 255, 255)); // white background
    // Bit 7 is ignored for the background.
    let c = tm.read_attribute(0xF1);
    assert_eq!(c.bg, (255, 255, 255));
}

#[test]
fn textmode_rejects_out_of_range_writes() {
    let mut tm = TextMode::new();
    let cells = 64 * 19 * 2;
    assert!(tm.write(2, cells - 1, 0).is_err());
    assert!(tm.write(1, cells, 0).is_err());
    assert_eq!(tm.read(2, cells - 1), None);
}
