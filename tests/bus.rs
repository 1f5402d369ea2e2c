use emu65x64::bus::{ConfigurationError, MemoryBus, Rejected, OPEN_BUS};
use emu65x64::memory::{MaskedStore, RwMemory};

fn ram_bus(mask: u64, ram_size: u64, ram_len: usize, rom: Option<Vec<u8>>) -> MemoryBus {
    MemoryBus::with_ram(mask, ram_size, vec![0u8; ram_len], rom).unwrap()
}

#[test]
fn round_trip_each_width_aligned() {
    let mut bus = ram_bus(0xFFFF, 0x100, 0x100, None);
    bus.write_byte(0x10, 0xAB);
    assert_eq!(bus.read_byte(0x10), 0xAB);
    bus.write_word(0x20, 0xBEEF);
    assert_eq!(bus.read_word(0x20), 0xBEEF);
    bus.write_dword(0x40, 0xDEAD_BEEF);
    assert_eq!(bus.read_dword(0x40), 0xDEAD_BEEF);
    bus.write_qword(0x80, 0x0123_4567_89AB_CDEF);
    assert_eq!(bus.read_qword(0x80), 0x0123_4567_89AB_CDEF);
}

#[test]
fn round_trip_each_width_unaligned() {
    let mut bus = ram_bus(0xFFFF, 0x100, 0x100, None);
    bus.write_word(0x21, 0x1234);
    assert_eq!(bus.read_word(0x21), 0x1234);
    bus.write_dword(0x43, 0xCAFE_F00D);
    assert_eq!(bus.read_dword(0x43), 0xCAFE_F00D);
    bus.write_qword(0x85, 0xFEDC_BA98_7654_3210);
    assert_eq!(bus.read_qword(0x85), 0xFEDC_BA98_7654_3210);
}

#[test]
fn multi_byte_values_are_little_endian() {
    let mut bus = ram_bus(0xFF, 0x20, 0x20, None);
    bus.write_dword(0, 0x0403_0201);
    assert_eq!(bus.read_byte(0), 0x01);
    assert_eq!(bus.read_byte(1), 0x02);
    assert_eq!(bus.read_byte(2), 0x03);
    assert_eq!(bus.read_byte(3), 0x04);
    assert_eq!(bus.read_word(1), 0x0302);
    assert_eq!(bus.read_qword(0), 0x0403_0201);
}

#[test]
fn unmapped_read_is_open_bus_and_write_is_discarded() {
    let mut bus = ram_bus(0xFFFF, 0x100, 0x100, Some(vec![1, 2, 3, 4]));
    // ROM covers 0x100..0x104; 0x104 and above are unmapped.
    assert_eq!(bus.read_byte(0x104), OPEN_BUS);
    assert_eq!(bus.read_byte(0x8000), OPEN_BUS);
    bus.write_byte(0x8000, 0x12);
    assert_eq!(bus.read_byte(0x8000), OPEN_BUS);
    assert_eq!(bus.read_word(0x9000), 0xFFFF);
    assert_eq!(bus.read_qword(0x9000), u64::MAX);
}

#[test]
fn writes_to_rom_are_discarded() {
    let mut bus = ram_bus(0xFFFF, 0x10, 0x10, Some(vec![0xA0, 0xA1, 0xA2, 0xA3]));
    assert_eq!(bus.read_byte(0x11), 0xA1);
    bus.write_byte(0x11, 0x55);
    assert_eq!(bus.read_byte(0x11), 0xA1);
    bus.write_dword(0x10, 0);
    assert_eq!(bus.read_dword(0x10), 0xA3A2_A1A0);
}

#[test]
fn mask_wraps_addresses() {
    let mut bus = ram_bus(0xFF, 0x100, 0x100, None);
    bus.write_byte(0x1234_5678_9ABC_DE42, 0x77);
    assert_eq!(bus.read_byte(0x42), 0x77);
    assert_eq!(bus.read_byte(0x42 | 0xFF00), 0x77);
    for addr in [0u64, 0x41, 0x1_0042, 0xFFFF_FFFF_FFFF_FF42, u64::MAX] {
        assert_eq!(bus.read_byte(addr), bus.read_byte(addr & 0xFF));
        assert_eq!(bus.read_qword(addr), bus.read_qword(addr & 0xFF));
    }
}

#[test]
fn multi_byte_access_wraps_within_mask() {
    let mut bus = ram_bus(0xFF, 0x100, 0x100, None);
    bus.write_word(0xFF, 0xBBAA);
    assert_eq!(bus.read_byte(0xFF), 0xAA);
    assert_eq!(bus.read_byte(0x00), 0xBB);
    assert_eq!(bus.read_word(0xFF), 0xBBAA);
}

#[test]
fn qword_read_straddling_ram_and_rom() {
    let mut bus = ram_bus(0xFFFF, 0x10, 0x10, Some(vec![0x11, 0x22, 0x33, 0x44]));
    bus.write_dword(0x0C, 0x0D0C_0B0A);
    // four bytes of RAM, then four bytes of ROM
    assert_eq!(bus.read_qword(0x0C), 0x4433_2211_0D0C_0B0A);
    // two bytes of ROM past its end read as open bus
    assert_eq!(bus.read_qword(0x12), 0xFFFF_FFFF_FFFF_4433);
}

#[test]
fn ram_takes_precedence_below_ram_size() {
    let mut bus = ram_bus(0xFFFF, 0x04, 0x08, Some(vec![0xEE; 4]));
    bus.write_byte(0x03, 0x01);
    assert_eq!(bus.read_byte(0x03), 0x01);
    assert_eq!(bus.read_byte(0x04), 0xEE);
    // RAM beyond ram_size is not reachable
    bus.write_byte(0x05, 0x02);
    assert_eq!(bus.read_byte(0x05), 0xEE);
}

#[test]
fn read_only_bus_maps_rom_above_ram_size() {
    let mut bus = MemoryBus::read_only(0xFFFF, 0x100, Some(vec![9, 8, 7])).unwrap();
    assert_eq!(bus.read_byte(0x100), 9);
    assert_eq!(bus.read_word(0x101), 0x0708);
    assert_eq!(bus.read_byte(0x00), OPEN_BUS);
    bus.write_byte(0x00, 1);
    assert_eq!(bus.read_byte(0x00), OPEN_BUS);
    let (ram, rom) = bus.into_parts();
    assert!(ram.is_none());
    assert_eq!(rom, Some(vec![9, 8, 7]));
}

fn rejected(r: Result<MemoryBus, Rejected>) -> Rejected {
    match r {
        Ok(_) => panic!("configuration was accepted"),
        Err(e) => e,
    }
}

#[test]
fn ram_smaller_than_ram_size_is_refused() {
    let e = rejected(MemoryBus::with_ram(0xFFFF, 0x100, vec![7u8; 0xFF], Some(vec![1])));
    assert_eq!(e.error, ConfigurationError::RamTooSmall { ram_size: 0x100, ram_len: 0xFF });
    assert_eq!(e.ram, Some(vec![7u8; 0xFF]));
    assert_eq!(e.rom, Some(vec![1]));
}

#[test]
fn rom_past_address_space_is_refused() {
    let e = rejected(MemoryBus::read_only(u64::MAX, u64::MAX - 1, Some(vec![0, 0])));
    assert_eq!(
        e.error,
        ConfigurationError::RomOutOfRange { ram_size: 0xFFFF_FFFF_FFFF_FFFE, rom_len: 2 }
    );
    assert!(e.ram.is_none());
    assert_eq!(e.rom, Some(vec![0, 0]));
    let r = MemoryBus::read_only(u64::MAX, u64::MAX - 1, Some(vec![0]));
    assert!(r.is_ok());
}

#[test]
fn non_low_mask_can_fold_bytes_of_one_access() {
    // mask 6: both bytes of a word at 1 go to location 0
    let mut bus = ram_bus(6, 8, 8, None);
    bus.write_word(1, 0xBBAA);
    assert_eq!(bus.read_byte(0), 0xBB);
    assert_eq!(bus.read_word(1), 0xBBBB);
    assert_eq!(bus.read_word(1), bus.read_word(1 & 6));
}

#[test]
fn ram_is_handed_back() {
    let mut bus = ram_bus(0xFF, 4, 6, None);
    bus.write_word(2, 0x0201);
    assert_eq!(bus.mem_mask(), 0xFF);
    assert_eq!(bus.ram_size(), 4);
    let (ram, rom) = bus.into_parts();
    assert_eq!(ram, Some(vec![0, 0, 1, 2, 0, 0]));
    assert!(rom.is_none());
}

#[test]
fn bus_through_the_capability() {
    let mut bus = ram_bus(0xFF, 0x10, 0x10, None);
    RwMemory::write_word(&mut bus, 0x102, 0xA55A);
    assert_eq!(RwMemory::read_word(&mut bus, 2), 0xA55A);
    RwMemory::write_qword(&mut bus, 4, 7);
    assert_eq!(RwMemory::read_qword(&mut bus, 4), 7);
}

/// A host store that records every access it receives.
struct Recorder {
    log: Vec<(char, u8, u64, u64)>,
}

impl RwMemory for Recorder {
    fn read_byte(&mut self, addr: u64) -> u8 {
        self.log.push(('r', 1, addr, 0));
        0x5A
    }
    fn read_word(&mut self, addr: u64) -> u16 {
        self.log.push(('r', 2, addr, 0));
        0x5A5A
    }
    fn read_dword(&mut self, addr: u64) -> u32 {
        self.log.push(('r', 4, addr, 0));
        1
    }
    fn read_qword(&mut self, addr: u64) -> u64 {
        self.log.push(('r', 8, addr, 0));
        2
    }
    fn write_byte(&mut self, addr: u64, value: u8) {
        self.log.push(('w', 1, addr, value as u64));
    }
    fn write_word(&mut self, addr: u64, value: u16) {
        self.log.push(('w', 2, addr, value as u64));
    }
    fn write_dword(&mut self, addr: u64, value: u32) {
        self.log.push(('w', 4, addr, value as u64));
    }
    fn write_qword(&mut self, addr: u64, value: u64) {
        self.log.push(('w', 8, addr, value));
    }
}

#[test]
fn masked_store_forwards_every_access_masked() {
    let mut m = MaskedStore::new(0xFFF, Recorder { log: Vec::new() });
    assert_eq!(m.decode(0x1_2345), 0x345);
    assert_eq!(m.read_byte(0x1_2345), 0x5A);
    assert_eq!(m.read_byte(0x1_2345), 0x5A);
    assert_eq!(m.read_word(0x2001), 0x5A5A);
    assert_eq!(m.read_dword(0xF00), 1);
    assert_eq!(m.read_qword(0x1F08), 2);
    m.write_byte(0x1234, 9);
    m.write_word(0x1235, 10);
    m.write_dword(0x1236, 11);
    m.write_qword(0x1237, 12);
    let log = m.into_inner().log;
    assert_eq!(
        log,
        vec![
            ('r', 1, 0x345, 0),
            ('r', 1, 0x345, 0),
            ('r', 2, 0x001, 0),
            ('r', 4, 0xF00, 0),
            ('r', 8, 0xF08, 0),
            ('w', 1, 0x234, 9),
            ('w', 2, 0x235, 10),
            ('w', 4, 0x236, 11),
            ('w', 8, 0x237, 12),
        ]
    );
}
