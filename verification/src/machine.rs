//! The executive: wiring the machine together and servicing frame requests.
//!
//! `boot` loads a program image into RAM, registers the devices on the bus at
//! their fixed base addresses in priority order, and constructs the CPU at
//! the RAM base. `frame_snapshot` is the decision the worker takes when the
//! host asks for a frame: the text-mode image while the framebuffer is
//! disabled, raw RGB565 guest memory at the configured address otherwise.
//! `rgb565_to_rgba8888` is the host-side colour conversion for the latter.

use vstd::prelude::*;
use crate::RAM_BASE;
use crate::RAM_SIZE;
use crate::SCREEN_CSR_ADDR;
use crate::SCREEN_CSR_SIZE;
use crate::SCREEN_HEIGHT;
use crate::SCREEN_WIDTH;
use crate::UART0_BASE;
use crate::UART0_SIZE;
use crate::VGA_TEXT_MODE_BASE;
use crate::_TEXT_HEIGHT;
use crate::_TEXT_WIDTH;
use crate::alu::add32;
use crate::alu::alu_add;
use crate::bits::lemma_store_le_byte;
use crate::bits::lemma_store_le_frame;
use crate::bits::pow256;
use crate::bus::Bus;
use crate::bus::BusError;
use crate::bus::DevView;
use crate::bus::DeviceKind;
use crate::bus::RegionView;
use crate::bus::bus_read_spec;
use crate::bus::first_textmode_pixels;
use crate::cpu::Cpu;
use crate::cpu::CpuView;
use crate::cpu::cpu_wf;
use crate::peripherals::Ram;
use crate::peripherals::ScreenCsr;
use crate::peripherals::TextMode;
use crate::peripherals::UartNs16550a;
use crate::peripherals::screen_csr::CsrView;
use crate::peripherals::textmode::render_image;
use crate::peripherals::textmode::text_wf;
use crate::types::ScreenMsg;
use crate::types::ScreenType;
use crate::types::le32_bytes;

verus! {

/// Byte `j` of a word stored little-endian.
pub open spec fn word_byte(w: u32, j: int) -> u8 {
    ((w as nat / pow256(j as nat)) % 0x100) as u8
}

/// RAM preloaded with an image: word `w` of the image occupies bytes
/// `4w .. 4w + 4` little-endian, and everything beyond the image is zero.
pub open spec fn loaded_ram(img: Seq<u32>, size: nat) -> Seq<u8> {
    Seq::new(
        size,
        |k: int|
            if k < 4 * img.len() {
                word_byte(img[k / 4], k % 4)
            } else {
                0u8
            },
    )
}

/// Build the machine: RAM holds the image at offset 0, the bus routes to
/// the screen registers, the UART, RAM and the text-mode display in that
/// priority order, and the CPU starts at the RAM base with all registers
/// zero.
pub fn boot(image: &Vec<u32>) -> (cpu: Cpu)
    requires
        4 * image@.len() <= RAM_SIZE,
    ensures
        cpu_wf(cpu@),
        cpu@.pc == RAM_BASE,
        cpu@.cycles == 0,
        forall|i: int| 0 <= i < 32 ==> cpu@.regs[i] == 0,
        cpu@.bus.len() == 4,
        cpu@.bus[0].base == SCREEN_CSR_ADDR && cpu@.bus[0].size == SCREEN_CSR_SIZE
            && cpu@.bus[0].dev == DevView::ScreenCsr(CsrView { enabled: false, fb_addr: 0 }),
        cpu@.bus[1].base == UART0_BASE && cpu@.bus[1].size == UART0_SIZE && cpu@.bus[1].dev
            == DevView::Uart(Seq::<u8>::empty()),
        cpu@.bus[2].base == RAM_BASE && cpu@.bus[2].size == RAM_SIZE && cpu@.bus[2].dev
            == DevView::Ram(loaded_ram(image@, RAM_SIZE as nat)),
        cpu@.bus[3].base == VGA_TEXT_MODE_BASE && cpu@.bus[3].size == _TEXT_WIDTH * _TEXT_HEIGHT
            * 2,
        (cpu@.bus[3].dev matches DevView::TextMode(t) && text_wf(t) && (forall|i: int|
            0 <= i < t.text.len() ==> t.text[i] == 0) && t.pixels == render_image(t.text, t.font)),
{
    let mut ram = Ram::new(RAM_SIZE as usize);
    let mut i: usize = 0;
    while i < image.len()
        invariant
            4 * image@.len() <= RAM_SIZE,
            i <= image@.len(),
            ram@.len() == RAM_SIZE,
            forall|k: int| 0 <= k < 4 * i ==> ram@[k] == word_byte(image@[k / 4], k % 4),
            forall|k: int| 4 * i <= k < RAM_SIZE ==> ram@[k] == 0,
        decreases image@.len() - i,
    {
        let ghost pre = ram@;
        let ghost v = image@[i as int] as nat;
        let res = ram.write(4, (i * 4) as u32, image[i]);
        proof {
            let off = 4 * (i as int);
            lemma_store_le_frame(pre, off, 4, v);
            assert(res is Ok);
            assert forall|k: int| 0 <= k < 4 * (i + 1) implies ram@[k] == word_byte(
                image@[k / 4],
                k % 4,
            ) by {
                if k < 4 * i {
                    assert(ram@[k] == pre[k]);
                } else {
                    lemma_store_le_byte(pre, off, 4, v, k - off);
                    assert(k / 4 == i as int);
                    assert(k % 4 == k - off);
                }
            }
        }
        proof {
            assert forall|k: int| 4 * (i + 1) <= k < RAM_SIZE implies ram@[k] == 0 by {
                assert(ram@[k] == pre[k]);
            }
        }
        i = i + 1;
    }
    let ghost ram_view = ram@;
    let ram_size = ram.size();
    let mut bus = Bus::new();
    bus.add_region(SCREEN_CSR_ADDR, SCREEN_CSR_SIZE, DeviceKind::ScreenCsr(ScreenCsr::new()));
    bus.add_region(UART0_BASE, UART0_SIZE, DeviceKind::Uart(UartNs16550a::new()));
    bus.add_region(RAM_BASE, ram_size, DeviceKind::Ram(ram));
    let tm = TextMode::new();
    let ghost tm_view = tm@;
    bus.add_region(VGA_TEXT_MODE_BASE, _TEXT_WIDTH * _TEXT_HEIGHT * 2, DeviceKind::TextMode(tm));
    proof {
        assert(bus@.len() == 4);
        assert(bus@[0].dev == DevView::ScreenCsr(CsrView { enabled: false, fb_addr: 0 }));
        assert(bus@[1].dev == DevView::Uart(Seq::<u8>::empty()));
        assert(bus@[2].dev == DevView::Ram(ram_view));
        assert(bus@[3].dev == DevView::TextMode(tm_view));
        assert(ram_view =~= loaded_ram(image@, RAM_SIZE as nat));
        assert forall|j: int| 0 <= j < bus@.len() implies crate::bus::dev_wf(
            #[trigger] bus@[j].dev,
        ) by {
            assert(crate::bus::dev_wf(bus@[0].dev));
            assert(crate::bus::dev_wf(bus@[1].dev));
            assert(crate::bus::dev_wf(bus@[2].dev));
            assert(crate::bus::dev_wf(bus@[3].dev));
        }
    }
    Cpu::new(bus, RAM_BASE)
}

/// `n` words of guest memory at successive addresses from `addr`, as
/// little-endian bytes; a failing read ends the walk with its error.
pub open spec fn fb_bytes_spec(b: Seq<RegionView>, addr: u32, n: nat) -> Result<Seq<u8>, BusError>
    decreases n,
{
    if n == 0 {
        Ok(Seq::<u8>::empty())
    } else {
        match bus_read_spec(b, 4, addr) {
            Err(e) => Err(e),
            Ok(w) => match fb_bytes_spec(b, add32(addr, 4), (n - 1) as nat) {
                Err(e) => Err(e),
                Ok(rest) => Ok(le32_bytes(w) + rest),
            },
        }
    }
}

/// What servicing a frame request yields: while the framebuffer is disabled
/// (enable word even), the text-mode image; otherwise the raw RGB565 bytes
/// of guest memory at the configured framebuffer address. Reading the
/// registers or the framebuffer can fail on the bus.
pub open spec fn frame_spec(c: CpuView) -> Result<(ScreenType, Seq<u8>), BusError> {
    match bus_read_spec(c.bus, 4, SCREEN_CSR_ADDR) {
        Err(e) => Err(e),
        Ok(en) => match bus_read_spec(c.bus, 4, add32(SCREEN_CSR_ADDR, 4)) {
            Err(e) => Err(e),
            Ok(fb_addr) => {
                if en & 1 != 1 {
                    match first_textmode_pixels(c.bus) {
                        Some(px) => Ok((ScreenType::TextMode, px)),
                        None => Err(BusError::UnmappedAddress),
                    }
                } else {
                    match fb_bytes_spec(
                        c.bus,
                        fb_addr,
                        (SCREEN_WIDTH * SCREEN_HEIGHT * 2 / 4) as nat,
                    ) {
                        Err(e) => Err(e),
                        Ok(bytes) => Ok((ScreenType::FrameBuffer, bytes)),
                    }
                }
            },
        },
    }
}

/// Service a frame request against the current machine state.
#[verifier::loop_isolation(false)]
pub fn frame_snapshot(cpu: &Cpu) -> (r: Result<ScreenMsg, BusError>)
    ensures
        match frame_spec(cpu@) {
            Ok((t, bytes)) => r is Ok && r->Ok_0.screen_type == t && r->Ok_0.data@ == bytes,
            Err(e) => r == Err::<ScreenMsg, BusError>(e),
        },
{
    let en = match cpu.read_mem(4, SCREEN_CSR_ADDR) {
        Ok(v) => v,
        Err(e) => {
            return Err(e);
        },
    };
    let fb_addr = match cpu.read_mem(4, alu_add(SCREEN_CSR_ADDR, 4)) {
        Ok(v) => v,
        Err(e) => {
            return Err(e);
        },
    };
    if en & 1 != 1 {
        match cpu.textmode_frame() {
            Some(v) => Ok(ScreenMsg { screen_type: ScreenType::TextMode, data: v }),
            None => Err(BusError::UnmappedAddress),
        }
    } else {
        let total: usize = SCREEN_WIDTH * SCREEN_HEIGHT * 2 / 4;
        let mut data: Vec<u8> = Vec::new();
        let mut addr: u32 = fb_addr;
        let mut i: usize = 0;
        while i < total
            invariant
                i <= total,
                data@.len() == 4 * i,
                match fb_bytes_spec(cpu@.bus, addr, (total - i) as nat) {
                    Ok(rest) => fb_bytes_spec(cpu@.bus, fb_addr, total as nat) == Ok::<
                        Seq<u8>,
                        BusError,
                    >(data@ + rest),
                    Err(e) => fb_bytes_spec(cpu@.bus, fb_addr, total as nat) == Err::<
                        Seq<u8>,
                        BusError,
                    >(e),
                },
            decreases total - i,
        {
            let ghost rem = (total - i) as nat;
            let ghost data0 = data@;
            match cpu.read_mem(4, addr) {
                Err(e) => {
                    return Err(e);
                },
                Ok(w) => {
                    data.push((w & 0xFF) as u8);
                    data.push(((w >> 8) & 0xFF) as u8);
                    data.push(((w >> 16) & 0xFF) as u8);
                    data.push(((w >> 24) & 0xFF) as u8);
                    proof {
                        assert(data@ =~= data0 + le32_bytes(w));
                        match fb_bytes_spec(cpu@.bus, add32(addr, 4), (rem - 1) as nat) {
                            Ok(rest) => {
                                assert(fb_bytes_spec(cpu@.bus, addr, rem) == Ok::<
                                    Seq<u8>,
                                    BusError,
                                >(le32_bytes(w) + rest));
                                assert(data0 + (le32_bytes(w) + rest) =~= (data0 + le32_bytes(w))
                                    + rest);
                            },
                            Err(e) => {
                                assert(fb_bytes_spec(cpu@.bus, addr, rem) == Err::<
                                    Seq<u8>,
                                    BusError,
                                >(e));
                            },
                        }
                    }
                    addr = alu_add(addr, 4);
                },
            }
            i = i + 1;
        }
        proof {
            assert(data@ + Seq::<u8>::empty() =~= data@);
        }
        Ok(ScreenMsg { screen_type: ScreenType::FrameBuffer, data })
    }
}

/// One RGB565 pixel expanded to 8-bit channels: each field's high bits are
/// replicated into the low bits so that full intensity maps to 255.
pub open spec fn rgb565_pixel(lo: u8, hi: u8) -> (u8, u8, u8) {
    let pixel = ((hi as u16) << 8) | (lo as u16);
    let r5 = ((pixel >> 11) & 0x1F) as u8;
    let g6 = ((pixel >> 5) & 0x3F) as u8;
    let b5 = (pixel & 0x1F) as u8;
    ((r5 << 3) | (r5 >> 2), (g6 << 2) | (g6 >> 4), (b5 << 3) | (b5 >> 2))
}

/// Convert little-endian RGB565 pixels to RGBA8888 for display.
#[verifier::loop_isolation(false)]
pub fn rgb565_to_rgba8888(src: &Vec<u8>) -> (out: Vec<u8>)
    ensures
        out@.len() == 4 * (src@.len() / 2),
        forall|p: int|
            0 <= p < src@.len() / 2 ==> {
                let c = #[trigger] rgb565_pixel(src@[2 * p], src@[2 * p + 1]);
                &&& out@[4 * p] == c.0
                &&& out@[4 * p + 1] == c.1
                &&& out@[4 * p + 2] == c.2
                &&& out@[4 * p + 3] == 255u8
            },
{
    let total: usize = src.len() / 2;
    let mut out: Vec<u8> = Vec::new();
    let mut p: usize = 0;
    while p < total
        invariant
            p <= total,
            out@.len() == 4 * p,
            forall|q: int|
                0 <= q < p ==> {
                    let c = #[trigger] rgb565_pixel(src@[2 * q], src@[2 * q + 1]);
                    &&& out@[4 * q] == c.0
                    &&& out@[4 * q + 1] == c.1
                    &&& out@[4 * q + 2] == c.2
                    &&& out@[4 * q + 3] == 255u8
                },
        decreases total - p,
    {
        let lo = src[2 * p];
        let hi = src[2 * p + 1];
        let pixel: u16 = ((hi as u16) << 8) | (lo as u16);
        let r5 = ((pixel >> 11) & 0x1F) as u8;
        let g6 = ((pixel >> 5) & 0x3F) as u8;
        let b5 = (pixel & 0x1F) as u8;
        out.push((r5 << 3) | (r5 >> 2));
        out.push((g6 << 2) | (g6 >> 4));
        out.push((b5 << 3) | (b5 >> 2));
        out.push(255);
        p = p + 1;
    }
    out
}

} // verus!
