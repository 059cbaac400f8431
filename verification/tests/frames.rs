use rv32emu::RAM_BASE;
use rv32emu::SCREEN_HEIGHT;
use rv32emu::SCREEN_WIDTH;
use rv32emu::VGA_TEXT_MODE_BASE;
use rv32emu::machine::boot;
use rv32emu::machine::frame_snapshot;
use rv32emu::machine::rgb565_to_rgba8888;
use rv32emu::types::ScreenType;

fn addi(rd: u32, rs1: u32, imm: i32) -> u32 {
    (((imm as u32) & 0xFFF) << 20) | (rs1 << 15) | (rd << 7) | 0x13
}

fn lui(rd: u32, imm20: u32) -> u32 {
    (imm20 << 12) | (rd << 7) | 0x37
}

fn sw(imm: i32, rs2: u32, rs1: u32) -> u32 {
    let imm = imm as u32;
    (((imm >> 5) & 0x7F) << 25) | (rs2 << 20) | (rs1 << 15) | (2 << 12) | ((imm & 0x1F) << 7)
        | 0x23
}

fn sh(imm: i32, rs2: u32, rs1: u32) -> u32 {
    let imm = imm as u32;
    (((imm >> 5) & 0x7F) << 25) | (rs2 << 20) | (rs1 << 15) | (1 << 12) | ((imm & 0x1F) << 7)
        | 0x23
}

#[test]
fn frame_request_defaults_to_the_text_mode_image() {
    let image = vec![addi(0, 0, 0)];
    let cpu = boot(&image);
    let msg = frame_snapshot(&cpu).unwrap();
    assert!(matches!(msg.screen_type, ScreenType::TextMode));
    assert_eq!(msg.data.len(), SCREEN_WIDTH * SCREEN_HEIGHT * 4);
}

#[test]
fn text_stores_show_up_in_the_sampled_frame() {
    // Write a bright 'A' cell into the text buffer, then sample a frame.
    let image = vec![
        lui(1, VGA_TEXT_MODE_BASE >> 12),
        // halfword 0x0F41: character 'A' = 0x41, attribute 0x0F
        addi(2, 0, 0x7A0),
        addi(2, 2, 0x7A1),
        sh(0, 2, 1),
    ];
    let mut cpu = boot(&image);
    assert!(cpu.tick(4, false).is_ok());
    let before = frame_snapshot(&cpu).unwrap();
    assert!(matches!(before.screen_type, ScreenType::TextMode));
    // The frame differs from a machine whose text buffer was never touched.
    let blank_cpu = boot(&vec![addi(0, 0, 0)]);
    let blank = frame_snapshot(&blank_cpu).unwrap();
    assert_ne!(before.data, blank.data);
}

#[test]
fn enabling_the_framebuffer_switches_to_raw_guest_memory() {
    // x1 = SCREEN_CSR_ADDR; enable; point the framebuffer at RAM_BASE.
    let image = vec![
        lui(1, 0x10001),
        addi(2, 0, 1),
        sw(0, 2, 1), // fb_enabled <- 1
        lui(3, 0x80000),
        sw(4, 3, 1), // fb_addr <- RAM_BASE
    ];
    let mut cpu = boot(&image);
    assert!(cpu.tick(5, false).is_ok());
    let msg = frame_snapshot(&cpu).unwrap();
    assert!(matches!(msg.screen_type, ScreenType::FrameBuffer));
    assert_eq!(msg.data.len(), SCREEN_WIDTH * SCREEN_HEIGHT * 2);
    // The framebuffer points at the loaded program itself: the first bytes
    // are the first instruction word, little-endian.
    let w = lui(1, 0x10001);
    assert_eq!(&msg.data[0..4], &w.to_le_bytes());
}

#[test]
fn rgb565_expands_to_rgba8888() {
    // 0xF800 = full red, 0x07E0 = full green, 0x001F = full blue.
    let src = vec![0x00, 0xF8, 0xE0, 0x07, 0x1F, 0x00];
    let out = rgb565_to_rgba8888(&src);
    assert_eq!(out, vec![
        255, 0, 0, 255, // red
        0, 255, 0, 255, // green
        0, 0, 255, 255, // blue
    ]);
}

#[test]
fn rgb565_white_and_black() {
    let src = vec![0xFF, 0xFF, 0x00, 0x00];
    let out = rgb565_to_rgba8888(&src);
    assert_eq!(out, vec![255, 255, 255, 255, 0, 0, 0, 255]);
}

#[test]
fn boot_loads_the_image_at_the_ram_base() {
    let image = vec![0x1122_3344, 0xAABB_CCDD];
    let cpu = boot(&image);
    assert_eq!(cpu.read_mem(4, RAM_BASE), Ok(0x1122_3344));
    assert_eq!(cpu.read_mem(4, RAM_BASE + 4), Ok(0xAABB_CCDD));
    assert_eq!(cpu.read_mem(1, RAM_BASE), Ok(0x44)); // little-endian
    assert_eq!(cpu.read_mem(4, RAM_BASE + 8), Ok(0)); // zero beyond the image
    assert_eq!(cpu.pc(), RAM_BASE);
    assert_eq!(cpu.cycles(), 0);
}
