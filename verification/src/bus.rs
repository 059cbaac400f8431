//! The bus: an address-range demultiplexer in front of the devices.
//!
//! The bus holds an ordered list of regions `(base, size, device)`. Regions
//! may overlap; a sized read or write goes to the first region, in
//! registration order, whose range contains the target address. The bus
//! itself checks no alignment; a device may reject an access it cannot
//! perform.

use vstd::prelude::*;
use crate::peripherals::Ram;
use crate::peripherals::ScreenCsr;
use crate::peripherals::TextMode;
use crate::peripherals::UartNs16550a;
use crate::peripherals::ram::bytes_read_spec;
use crate::peripherals::ram::bytes_write_spec;
use crate::peripherals::screen_csr::CsrView;
use crate::peripherals::screen_csr::csr_read_spec;
use crate::peripherals::screen_csr::csr_write_spec;
use crate::peripherals::textmode::TextView;
use crate::peripherals::textmode::text_wf;
use crate::peripherals::textmode::text_write_spec;
use crate::peripherals::uart::UART_LSR_READY;
use crate::peripherals::uart::uart_write_spec;

verus! {

/// Why a bus transaction failed: no region contains the address, or the
/// addressed device cannot perform the access.
#[derive(Clone, Copy, PartialEq, Eq, Structural, Debug)]
pub enum BusError {
    UnmappedAddress,
    DeviceRejected,
}

/// Every device that can sit on the bus.
pub enum DeviceKind {
    Ram(Ram),
    Uart(UartNs16550a),
    ScreenCsr(ScreenCsr),
    TextMode(TextMode),
}

/// The state of a device, as the matching device view.
pub enum DevView {
    Ram(Seq<u8>),
    Uart(Seq<u8>),
    ScreenCsr(CsrView),
    TextMode(TextView),
}

impl View for DeviceKind {
    type V = DevView;

    open spec fn view(&self) -> DevView {
        match self {
            DeviceKind::Ram(d) => DevView::Ram(d@),
            DeviceKind::Uart(d) => DevView::Uart(d@),
            DeviceKind::ScreenCsr(d) => DevView::ScreenCsr(d@),
            DeviceKind::TextMode(d) => DevView::TextMode(d@),
        }
    }
}

/// Structural validity of a device's state.
pub open spec fn dev_wf(d: DevView) -> bool {
    match d {
        DevView::TextMode(t) => text_wf(t),
        _ => true,
    }
}

/// What a sized read of a device returns, `None` standing for an access the
/// device cannot perform.
pub open spec fn dev_read_spec(d: DevView, size: u8, off: u32) -> Option<u32> {
    match d {
        DevView::Ram(data) => bytes_read_spec(data, size, off),
        DevView::Uart(_) => Some(UART_LSR_READY),
        DevView::ScreenCsr(c) => Some(csr_read_spec(c, size, off)),
        DevView::TextMode(t) => bytes_read_spec(t.text, size, off),
    }
}

/// What a sized write leaves a device in, `None` standing for a rejected
/// write.
pub open spec fn dev_write_spec(d: DevView, size: u8, off: u32, value: u32) -> Option<DevView> {
    match d {
        DevView::Ram(data) => match bytes_write_spec(data, size, off, value) {
            Some(nd) => Some(DevView::Ram(nd)),
            None => None,
        },
        DevView::Uart(q) => match uart_write_spec(q, size, off, value) {
            Some(nq) => Some(DevView::Uart(nq)),
            None => None,
        },
        DevView::ScreenCsr(c) => match csr_write_spec(c, size, off, value) {
            Some(nc) => Some(DevView::ScreenCsr(nc)),
            None => None,
        },
        DevView::TextMode(t) => match text_write_spec(t, size, off, value) {
            Some(nt) => Some(DevView::TextMode(nt)),
            None => None,
        },
    }
}

impl DeviceKind {
    /// Sized read at a device-local offset.
    pub fn read(&self, size: u8, addr: u32) -> (r: Option<u32>)
        requires
            size == 1 || size == 2 || size == 4,
        ensures
            r == dev_read_spec(self@, size, addr),
    {
        match self {
            DeviceKind::Ram(d) => d.read(size, addr),
            DeviceKind::Uart(d) => Some(d.read(size, addr)),
            DeviceKind::ScreenCsr(d) => Some(d.read(size, addr)),
            DeviceKind::TextMode(d) => d.read(size, addr),
        }
    }

    /// Sized write at a device-local offset.
    pub fn write(&mut self, size: u8, addr: u32, value: u32) -> (r: Result<(), ()>)
        requires
            size == 1 || size == 2 || size == 4,
            dev_wf(old(self)@),
        ensures
            dev_wf(final(self)@),
            match dev_write_spec(old(self)@, size, addr, value) {
                Some(d) => r is Ok && final(self)@ == d,
                None => r is Err && final(self)@ == old(self)@,
            },
    {
        match self {
            DeviceKind::Ram(d) => d.write(size, addr, value),
            DeviceKind::Uart(d) => d.write(size, addr, value),
            DeviceKind::ScreenCsr(d) => d.write(size, addr, value),
            DeviceKind::TextMode(d) => d.write(size, addr, value),
        }
    }
}

/// A mapped address range backed by a device.
pub struct Region {
    base: u32,
    size: u32,
    device: DeviceKind,
}

/// A region as seen in contracts.
pub struct RegionView {
    pub base: u32,
    pub size: u32,
    pub dev: DevView,
}

impl View for Region {
    type V = RegionView;

    closed spec fn view(&self) -> RegionView {
        RegionView { base: self.base, size: self.size, dev: self.device@ }
    }
}

/// Whether a region's range `[base, base + size)` contains `addr`.
pub open spec fn region_contains(r: RegionView, addr: u32) -> bool {
    r.base <= addr && addr < r.base + r.size
}

/// The index of the first region containing `addr`, in registration order.
pub open spec fn find_region_spec(b: Seq<RegionView>, addr: u32) -> Option<int>
    decreases b.len(),
{
    if b.len() == 0 {
        None
    } else if region_contains(b[0], addr) {
        Some(0int)
    } else {
        match find_region_spec(b.drop_first(), addr) {
            Some(i) => Some(i + 1),
            None => None,
        }
    }
}

/// When no region contains the address, the lookup finds nothing.
pub proof fn lemma_find_region_none(b: Seq<RegionView>, addr: u32)
    requires
        forall|j: int| 0 <= j < b.len() ==> !region_contains(b[j], addr),
    ensures
        find_region_spec(b, addr) is None,
    decreases b.len(),
{
    if b.len() > 0 {
        lemma_find_region_none(b.drop_first(), addr);
    }
}

/// First-match-wins: a region that contains the address and is preceded by
/// none that does is the one the lookup finds, whatever later regions cover.
pub proof fn lemma_find_region_at(b: Seq<RegionView>, addr: u32, i: int)
    requires
        0 <= i < b.len(),
        region_contains(b[i], addr),
        forall|j: int| 0 <= j < i ==> !region_contains(b[j], addr),
    ensures
        find_region_spec(b, addr) == Some(i),
    decreases i,
{
    if i > 0 {
        lemma_find_region_at(b.drop_first(), addr, i - 1);
    }
}

/// What a bus read returns: the first matching region's device answers at
/// the device-local offset; without a match the address is unmapped.
pub open spec fn bus_read_spec(b: Seq<RegionView>, size: u8, addr: u32) -> Result<u32, BusError> {
    match find_region_spec(b, addr) {
        None => Err(BusError::UnmappedAddress),
        Some(i) => match dev_read_spec(b[i].dev, size, (addr - b[i].base) as u32) {
            Some(v) => Ok(v),
            None => Err(BusError::DeviceRejected),
        },
    }
}

/// What a bus write leaves behind: the first matching region's device takes
/// the value at the device-local offset; every other region is untouched.
pub open spec fn bus_write_spec(b: Seq<RegionView>, size: u8, addr: u32, value: u32) -> Result<
    Seq<RegionView>,
    BusError,
> {
    match find_region_spec(b, addr) {
        None => Err(BusError::UnmappedAddress),
        Some(i) => match dev_write_spec(b[i].dev, size, (addr - b[i].base) as u32, value) {
            Some(d) => Ok(b.update(i, RegionView { base: b[i].base, size: b[i].size, dev: d })),
            None => Err(BusError::DeviceRejected),
        },
    }
}

/// Structural validity of every device on the bus.
pub open spec fn bus_wf(b: Seq<RegionView>) -> bool {
    forall|i: int| 0 <= i < b.len() ==> dev_wf(#[trigger] b[i].dev)
}

/// The pixel image published by the first text-mode device on the bus, if
/// one is mapped.
pub open spec fn first_textmode_pixels(b: Seq<RegionView>) -> Option<Seq<u8>>
    decreases b.len(),
{
    if b.len() == 0 {
        None
    } else {
        match b[0].dev {
            DevView::TextMode(t) => Some(t.pixels),
            _ => first_textmode_pixels(b.drop_first()),
        }
    }
}

proof fn lemma_first_textmode_none(b: Seq<RegionView>)
    requires
        forall|j: int| 0 <= j < b.len() ==> !(#[trigger] b[j].dev is TextMode),
    ensures
        first_textmode_pixels(b) is None,
    decreases b.len(),
{
    if b.len() > 0 {
        lemma_first_textmode_none(b.drop_first());
    }
}

proof fn lemma_first_textmode_at(b: Seq<RegionView>, i: int)
    requires
        0 <= i < b.len(),
        b[i].dev is TextMode,
        forall|j: int| 0 <= j < i ==> !(#[trigger] b[j].dev is TextMode),
    ensures
        first_textmode_pixels(b) == Some(b[i].dev->TextMode_0.pixels),
    decreases i,
{
    if i > 0 {
        lemma_first_textmode_at(b.drop_first(), i - 1);
    }
}

/// The bytes every UART on the bus has queued but not yet handed to the
/// host, in region order.
pub open spec fn uart_pending(b: Seq<RegionView>) -> Seq<u8>
    decreases b.len(),
{
    if b.len() == 0 {
        Seq::<u8>::empty()
    } else {
        (match b[0].dev {
            DevView::Uart(q) => q,
            _ => Seq::<u8>::empty(),
        }) + uart_pending(b.drop_first())
    }
}

/// The bus with every UART's queue emptied.
pub open spec fn clear_uarts(b: Seq<RegionView>) -> Seq<RegionView> {
    b.map_values(
        |r: RegionView|
            if r.dev is Uart {
                RegionView { base: r.base, size: r.size, dev: DevView::Uart(Seq::<u8>::empty()) }
            } else {
                r
            },
    )
}

/// The queued bytes of one more region extend the queued bytes of a prefix.
proof fn lemma_uart_pending_take_succ(b: Seq<RegionView>, i: int)
    requires
        0 <= i < b.len(),
    ensures
        uart_pending(b.take(i + 1)) == uart_pending(b.take(i)) + (match b[i].dev {
            DevView::Uart(q) => q,
            _ => Seq::<u8>::empty(),
        }),
    decreases i,
{
    let chunk = match b[i].dev {
        DevView::Uart(q) => q,
        _ => Seq::<u8>::empty(),
    };
    if i == 0 {
        assert(b.take(1).drop_first() =~= b.take(0));
        assert(b.take(1)[0] == b[0]);
        assert(uart_pending(b.take(0)) == Seq::<u8>::empty());
        assert(chunk + Seq::<u8>::empty() =~= chunk);
        assert(Seq::<u8>::empty() + chunk =~= chunk);
    } else {
        lemma_uart_pending_take_succ(b.drop_first(), i - 1);
        let head = match b[0].dev {
            DevView::Uart(q) => q,
            _ => Seq::<u8>::empty(),
        };
        assert(b.take(i + 1).drop_first() =~= b.drop_first().take(i));
        assert(b.take(i).drop_first() =~= b.drop_first().take(i - 1));
        assert(b.take(i + 1)[0] == b[0]);
        assert(b.take(i)[0] == b[0]);
        assert(b.drop_first()[i - 1] == b[i]);
        assert(head + (uart_pending(b.drop_first().take(i - 1)) + chunk) =~= (head + uart_pending(
            b.drop_first().take(i - 1),
        )) + chunk);
    }
}

/// The ordered collection of regions.
pub struct Bus {
    regions: Vec<Region>,
}

impl View for Bus {
    type V = Seq<RegionView>;

    closed spec fn view(&self) -> Seq<RegionView> {
        self.regions@.map_values(|r: Region| r@)
    }
}

/// A mutable reference to one element of a vector.
fn vec_element_mut(v: &mut Vec<Region>, i: usize) -> (element: &mut Region)
    requires
        0 <= i < old(v).len(),
    ensures
        *element == old(v)@[i as int],
        final(v)@ == old(v)@.update(i as int, *final(element)),
{
    &mut v[i]
}

impl Bus {
    /// A bus with no regions.
    pub fn new() -> (r: Bus)
        ensures
            r@ == Seq::<RegionView>::empty(),
    {
        let b = Bus { regions: Vec::new() };
        proof {
            assert(b@ =~= Seq::<RegionView>::empty());
        }
        b
    }

    /// Append a region; later transactions route to the first matching
    /// region in this registration order.
    pub fn add_region(&mut self, base: u32, size: u32, device: DeviceKind)
        ensures
            final(self)@ == old(self)@.push(
                RegionView { base, size, dev: device@ },
            ),
    {
        let ghost dv = device@;
        self.regions.push(Region { base, size, device });
        proof {
            assert(final(self)@ =~= old(self)@.push(RegionView { base, size, dev: dv }));
        }
    }

    /// The first region containing `addr`, if any.
    fn find_region(&self, addr: u32) -> (r: Option<usize>)
        ensures
            match r {
                Some(i) => {
                    &&& find_region_spec(self@, addr) == Some(i as int)
                    &&& i < self@.len()
                    &&& region_contains(self@[i as int], addr)
                },
                None => find_region_spec(self@, addr) is None,
            },
    {
        let mut i: usize = 0;
        while i < self.regions.len()
            invariant
                i <= self@.len(),
                self@.len() == self.regions@.len(),
                forall|j: int| 0 <= j < i ==> !region_contains(self@[j], addr),
            decreases self@.len() - i,
        {
            let r = &self.regions[i];
            if addr >= r.base && addr - r.base < r.size {
                proof {
                    lemma_find_region_at(self@, addr, i as int);
                }
                return Some(i);
            }
            i = i + 1;
        }
        proof {
            lemma_find_region_none(self@, addr);
        }
        None
    }

    /// Sized read at a guest address.
    pub fn read(&self, size: u8, addr: u32) -> (r: Result<u32, BusError>)
        requires
            size == 1 || size == 2 || size == 4,
        ensures
            r == bus_read_spec(self@, size, addr),
    {
        match self.find_region(addr) {
            None => Err(BusError::UnmappedAddress),
            Some(i) => {
                let region = &self.regions[i];
                let offset = addr - region.base;
                match region.device.read(size, offset) {
                    Some(v) => Ok(v),
                    None => Err(BusError::DeviceRejected),
                }
            },
        }
    }

    /// Sized write at a guest address.
    pub fn write(&mut self, size: u8, addr: u32, value: u32) -> (r: Result<(), BusError>)
        requires
            size == 1 || size == 2 || size == 4,
            bus_wf(old(self)@),
        ensures
            bus_wf(final(self)@),
            match bus_write_spec(old(self)@, size, addr, value) {
                Ok(b) => r is Ok && final(self)@ == b,
                Err(e) => r == Err::<(), BusError>(e) && final(self)@ == old(self)@,
            },
    {
        let ghost b0 = self@;
        match self.find_region(addr) {
            None => Err(BusError::UnmappedAddress),
            Some(i) => {
                proof {
                    assert(b0[i as int] == self.regions@[i as int]@);
                }
                let region = vec_element_mut(&mut self.regions, i);
                proof {
                    assert(region.base == b0[i as int].base);
                }
                let offset = addr - region.base;
                let res = region.device.write(size, offset, value);
                let r: Result<(), BusError> = match res {
                    Ok(()) => Ok(()),
                    Err(()) => Err(BusError::DeviceRejected),
                };
                proof {
                    let bv = self@;
                    match dev_write_spec(b0[i as int].dev, size, offset, value) {
                        Some(d) => {
                            assert(bv =~= b0.update(
                                i as int,
                                RegionView {
                                    base: b0[i as int].base,
                                    size: b0[i as int].size,
                                    dev: d,
                                },
                            ));
                            assert forall|j: int|
                                0 <= j < bv.len() implies dev_wf(#[trigger] bv[j].dev) by {
                                if j != i {
                                    assert(bv[j] == b0[j]);
                                }
                            }
                        },
                        None => {
                            assert(bv =~= b0);
                        },
                    }
                }
                r
            },
        }
    }

    /// A snapshot of the pixel image of the first text-mode device, if one
    /// is mapped.
    pub fn textmode_frame(&self) -> (r: Option<Vec<u8>>)
        ensures
            match r {
                Some(v) => first_textmode_pixels(self@) == Some(v@),
                None => first_textmode_pixels(self@) is None,
            },
    {
        let mut i: usize = 0;
        while i < self.regions.len()
            invariant
                i <= self@.len(),
                self@.len() == self.regions@.len(),
                forall|j: int| 0 <= j < i ==> !(#[trigger] self@[j].dev is TextMode),
            decreases self@.len() - i,
        {
            match &self.regions[i].device {
                DeviceKind::TextMode(t) => {
                    proof {
                        assert(self@[i as int].dev is TextMode);
                        lemma_first_textmode_at(self@, i as int);
                    }
                    return Some(t.handle());
                },
                _ => {
                    proof {
                        assert(!(self@[i as int].dev is TextMode));
                    }
                },
            }
            i = i + 1;
        }
        proof {
            lemma_first_textmode_none(self@);
        }
        None
    }

    /// Hand the host every queued UART byte, in region order, leaving every
    /// queue empty.
    pub fn take_uart_output(&mut self) -> (r: Vec<u8>)
        ensures
            r@ == uart_pending(old(self)@),
            final(self)@ == clear_uarts(old(self)@),
    {
        let ghost b0 = self@;
        let mut out: Vec<u8> = Vec::new();
        proof {
            assert(b0.take(0) =~= Seq::<RegionView>::empty());
        }
        let mut i: usize = 0;
        while i < self.regions.len()
            invariant
                i <= b0.len(),
                self.regions@.len() == b0.len(),
                self@.len() == b0.len(),
                out@ == uart_pending(b0.take(i as int)),
                forall|j: int| 0 <= j < i ==> self@[j] == clear_uarts(b0)[j],
                forall|j: int| i <= j < b0.len() ==> self@[j] == b0[j],
            decreases b0.len() - i,
        {
            let ghost pre = self@;
            let ghost chunk_spec = (match b0[i as int].dev {
                DevView::Uart(q) => q,
                _ => Seq::<u8>::empty(),
            });
            let region = vec_element_mut(&mut self.regions, i);
            match &mut region.device {
                DeviceKind::Uart(u) => {
                    let mut chunk = u.take_output();
                    out.append(&mut chunk);
                },
                _ => {},
            }
            proof {
                lemma_uart_pending_take_succ(b0, i as int);
                if !(b0[i as int].dev is Uart) {
                    assert(out@ =~= uart_pending(b0.take(i as int)) + chunk_spec);
                }
                assert(self@ =~= pre.update(i as int, self@[i as int]));
                assert forall|j: int| 0 <= j < i + 1 implies self@[j] == clear_uarts(b0)[j] by {
                    if j < i {
                        assert(self@[j] == pre[j]);
                    }
                }
            }
            i = i + 1;
        }
        proof {
            assert(b0.take(b0.len() as int) =~= b0);
            assert(final(self)@ =~= clear_uarts(b0));
        }
        out
    }
}

} // verus!
