use rv32emu::bus::Bus;
use rv32emu::bus::BusError;
use rv32emu::bus::DeviceKind;
use rv32emu::peripherals::Ram;

#[test]
fn ram_round_trips_each_access_size() {
    // A write followed immediately by a same-size read at the same address
    // returns the value unchanged, for sizes 1, 2 and 4.
    let mut ram = Ram::new(64);
    assert!(ram.write(1, 10, 0xAB).is_ok());
    assert_eq!(ram.read(1, 10), Some(0xAB));
    assert!(ram.write(2, 20, 0xBEEF).is_ok());
    assert_eq!(ram.read(2, 20), Some(0xBEEF));
    assert!(ram.write(4, 32, 0xDEAD_BEEF).is_ok());
    assert_eq!(ram.read(4, 32), Some(0xDEAD_BEEF));
}

#[test]
fn ram_round_trips_at_odd_addresses() {
    // No alignment trap: sized access works at any offset.
    let mut ram = Ram::new(64);
    assert!(ram.write(4, 13, 0x0102_0304).is_ok());
    assert_eq!(ram.read(4, 13), Some(0x0102_0304));
    assert!(ram.write(2, 31, 0x1234).is_ok());
    assert_eq!(ram.read(2, 31), Some(0x1234));
}

#[test]
fn ram_bytes_compose_little_endian() {
    // Four bytes stored one at a time read back as one little-endian word.
    let mut ram = Ram::new(16);
    assert!(ram.write(1, 4, 0x78).is_ok());
    assert!(ram.write(1, 5, 0x56).is_ok());
    assert!(ram.write(1, 6, 0x34).is_ok());
    assert!(ram.write(1, 7, 0x12).is_ok());
    assert_eq!(ram.read(4, 4), Some(0x1234_5678));
}

#[test]
fn ram_word_write_decomposes_little_endian() {
    let mut ram = Ram::new(16);
    assert!(ram.write(4, 0, 0x1234_5678).is_ok());
    assert_eq!(ram.read(1, 0), Some(0x78));
    assert_eq!(ram.read(1, 1), Some(0x56));
    assert_eq!(ram.read(1, 2), Some(0x34));
    assert_eq!(ram.read(1, 3), Some(0x12));
    assert_eq!(ram.read(2, 0), Some(0x5678));
    assert_eq!(ram.read(2, 2), Some(0x1234));
}

#[test]
fn ram_rejects_out_of_range_access() {
    let mut ram = Ram::new(8);
    assert_eq!(ram.read(4, 5), None);
    assert_eq!(ram.read(1, 8), None);
    assert!(ram.write(4, 6, 1).is_err());
    // A rejected write leaves the contents alone.
    assert_eq!(ram.read(4, 4), Some(0));
}

#[test]
fn bus_routes_to_the_first_matching_region() {
    // Regions [A: 0..16] and [B: 8..24] registered in that order: an access
    // at address 12 reaches A, whatever B covers.
    let mut bus = Bus::new();
    bus.add_region(0, 16, DeviceKind::Ram(Ram::new(16)));
    bus.add_region(8, 24, DeviceKind::Ram(Ram::new(24)));
    assert!(bus.write(1, 12, 0x55).is_ok());
    // A holds the byte at its local offset 12.
    assert_eq!(bus.read(1, 12), Ok(0x55));
    // B sees nothing at its local offset 4: the write went to A.
    assert!(bus.write(1, 30, 0x77).is_ok()); // B local offset 22, beyond A
    assert_eq!(bus.read(1, 30), Ok(0x77));
    // Address 24..31 reaches B (A ends at 16); B's local offset 16 is
    // untouched by the earlier write at 12.
    assert_eq!(bus.read(1, 24), Ok(0));
}

#[test]
fn bus_reports_unmapped_addresses() {
    let mut bus = Bus::new();
    bus.add_region(0x100, 16, DeviceKind::Ram(Ram::new(16)));
    assert_eq!(bus.read(4, 0x90), Err(BusError::UnmappedAddress));
    assert_eq!(bus.write(4, 0x200, 1), Err(BusError::UnmappedAddress));
    assert_eq!(bus.read(4, 0x100), Ok(0));
}

#[test]
fn bus_reports_rejected_device_accesses() {
    // A 4-byte read that starts inside the region but runs past the device's
    // end is rejected by the device, not treated as unmapped.
    let mut bus = Bus::new();
    bus.add_region(0, 16, DeviceKind::Ram(Ram::new(16)));
    assert_eq!(bus.read(4, 14), Err(BusError::DeviceRejected));
    assert_eq!(bus.write(4, 14, 9), Err(BusError::DeviceRejected));
}
