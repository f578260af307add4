use ferrisboy_core::cartridge::{classify, parse_title, ram_size_bytes, title_from_chars, Cartridge, Kind};
use ferrisboy_core::CartridgeError;

/// A ROM of `banks` 16 KiB banks, each filled with its bank number, with the
/// given header bytes.
fn make_rom(banks: usize, type_byte: u8, rom_code: u8, ram_code: u8, title: &[u8]) -> Vec<u8> {
    let mut rom = Vec::with_capacity(banks * 0x4000);
    for b in 0..banks {
        rom.extend(std::iter::repeat(b as u8).take(0x4000));
    }
    for i in 0x134..0x144 {
        rom[i] = 0;
    }
    rom[0x134..0x134 + title.len()].copy_from_slice(title);
    rom[0x147] = type_byte;
    rom[0x148] = rom_code;
    rom[0x149] = ram_code;
    rom
}

#[test]
fn too_small_rom_is_rejected() {
    let rom = vec![0u8; 0x14F];
    assert!(matches!(Cartridge::new(rom, None), Err(CartridgeError::TooSmall)));
    let rom = vec![0u8; 0x150];
    assert!(Cartridge::new(rom, None).is_ok());
}

#[test]
fn unsupported_mapper_is_rejected() {
    let rom = make_rom(2, 0x20, 0, 0, b"X");
    match Cartridge::new(rom, None) {
        Err(e) => assert_eq!(e, CartridgeError::UnsupportedMapper(0x20)),
        Ok(_) => panic!("mapper 0x20 accepted"),
    }
}

#[test]
fn classify_table() {
    assert_eq!(classify(0x00), Ok((Kind::NoMbc, false)));
    assert_eq!(classify(0x09), Ok((Kind::NoMbc, true)));
    assert_eq!(classify(0x03), Ok((Kind::Mbc1, true)));
    assert_eq!(classify(0x06), Ok((Kind::Mbc2, true)));
    assert_eq!(classify(0x13), Ok((Kind::Mbc3, true)));
    assert_eq!(classify(0x11), Ok((Kind::Mbc3, false)));
    assert_eq!(classify(0x1B), Ok((Kind::Mbc5, true)));
    assert_eq!(classify(0x1C), Ok((Kind::Mbc5, false)));
    assert_eq!(classify(0x04), Err(CartridgeError::UnsupportedMapper(0x04)));
    assert_eq!(classify(0xFF), Err(CartridgeError::UnsupportedMapper(0xFF)));
}

#[test]
fn ram_sizes() {
    assert_eq!(ram_size_bytes(0x00, Kind::Mbc1), 0);
    assert_eq!(ram_size_bytes(0x01, Kind::Mbc1), 2048);
    assert_eq!(ram_size_bytes(0x02, Kind::Mbc5), 8192);
    assert_eq!(ram_size_bytes(0x03, Kind::Mbc3), 32768);
    assert_eq!(ram_size_bytes(0x04, Kind::Mbc1), 131072);
    assert_eq!(ram_size_bytes(0x05, Kind::Mbc1), 65536);
    assert_eq!(ram_size_bytes(0x09, Kind::Mbc1), 0);
    assert_eq!(ram_size_bytes(0x00, Kind::Mbc2), 512);
}

#[test]
fn title_is_trimmed_and_cleaned() {
    let rom = make_rom(2, 0x00, 0, 0, b"TETRIS");
    assert_eq!(Cartridge::new(rom, None).unwrap().title(), "TETRIS");
    // Surrounding spaces are trimmed, control characters dropped, and the
    // title ends at the first NUL.
    let rom = make_rom(2, 0x00, 0, 0, b"  PO\x07KE  \0JUNK");
    assert_eq!(Cartridge::new(rom, None).unwrap().title(), "POKE");
    // All 16 bytes used.
    let rom = make_rom(2, 0x00, 0, 0, b"ABCDEFGHIJKLMNOP");
    assert_eq!(Cartridge::new(rom, None).unwrap().title(), "ABCDEFGHIJKLMNOP");
    // Invalid UTF-8 decodes to the replacement character.
    let mut header = vec![0u8; 0x144];
    header[0x134] = b'A';
    header[0x135] = 0xFF;
    header[0x136] = b'B';
    assert_eq!(parse_title(&header), "A\u{FFFD}B");
    // An empty title.
    let header = vec![0u8; 0x144];
    assert_eq!(parse_title(&header), "");
}

#[test]
fn bank_zero_and_switchable_bank_reads() {
    let rom = make_rom(8, 0x01, 0x02, 0, b"MBC1");
    let mut cart = Cartridge::new(rom, None).unwrap();
    assert_eq!(cart.read(0x0000), 0);
    assert_eq!(cart.read(0x4000), 1);
    cart.write(0x2000, 5);
    assert_eq!(cart.read(0x4000), 5);
    assert_eq!(cart.read(0x7FFF), 5);
    // Bank 0 selects bank 1 on MBC1.
    cart.write(0x2000, 0);
    assert_eq!(cart.read(0x4000), 1);
    // Bank numbers wrap to the ROM size.
    cart.write(0x2000, 9);
    assert_eq!(cart.read(0x4000), 1);
    // ROM is never written.
    cart.write(0x0100, 0xAA);
    assert_eq!(cart.read(0x0100), 0);
}

#[test]
fn mbc1_advanced_mode_remaps_bank_zero() {
    let rom = make_rom(64, 0x01, 0x05, 0, b"MBC1");
    let mut cart = Cartridge::new(rom, None).unwrap();
    cart.write(0x4000, 1);
    assert_eq!(cart.read(0x4000), 33);
    assert_eq!(cart.read(0x0000), 0);
    cart.write(0x6000, 1);
    assert_eq!(cart.read(0x0000), 32);
    assert_eq!(cart.read(0x4000), 1);
}

#[test]
fn mbc5_nine_bit_bank_and_bank_zero() {
    let rom = make_rom(512, 0x19, 0x08, 0, b"MBC5");
    let mut cart = Cartridge::new(rom, None).unwrap();
    cart.write(0x2000, 0x00);
    assert_eq!(cart.read(0x4000), 0);
    cart.write(0x2000, 0x05);
    cart.write(0x3000, 0x01);
    // Bank 0x105 is filled with 0x05 (its number truncated to a byte).
    assert_eq!(cart.read(0x4000), 0x05);
    assert_eq!(cart.current_rom_bank(), 0x105);
}

#[test]
fn mbc2_and_mbc3_banks() {
    let rom = make_rom(16, 0x05, 0x03, 0, b"MBC2");
    let mut cart = Cartridge::new(rom, None).unwrap();
    // Address bit 8 set: ROM bank register.
    cart.write(0x2100, 0x13);
    assert_eq!(cart.read(0x4000), 3);
    cart.write(0x2100, 0x00);
    assert_eq!(cart.read(0x4000), 1);
    let rom = make_rom(128, 0x11, 0x06, 0, b"MBC3");
    let mut cart = Cartridge::new(rom, None).unwrap();
    cart.write(0x2000, 0x7F);
    assert_eq!(cart.read(0x4000), 0x7F);
    cart.write(0x2000, 0x80);
    assert_eq!(cart.read(0x4000), 1);
}

#[test]
fn external_ram_enable_write_read() {
    let rom = make_rom(2, 0x03, 0, 0x02, b"RAM");
    let mut cart = Cartridge::new(rom, None).unwrap();
    // Disabled RAM reads 0xFF and ignores writes.
    assert_eq!(cart.read(0xA000), 0xFF);
    cart.write(0xA000, 0x42);
    assert!(!cart.save_is_dirty());
    cart.write(0x0000, 0x0A);
    assert_eq!(cart.read(0xA000), 0x00);
    cart.write(0xA000, 0x42);
    assert_eq!(cart.read(0xA000), 0x42);
    assert!(cart.save_is_dirty());
    cart.mark_saved();
    assert!(!cart.save_is_dirty());
    cart.write(0x0000, 0x00);
    assert_eq!(cart.read(0xA000), 0xFF);
}

#[test]
fn mbc2_ram_is_four_bits_wide() {
    let rom = make_rom(2, 0x06, 0, 0, b"MBC2");
    let mut cart = Cartridge::new(rom, None).unwrap();
    cart.write(0x0000, 0x0A);
    cart.write(0xA005, 0xAB);
    assert_eq!(cart.read(0xA005), 0xFB);
    // 512 cells, repeated through A000..BFFF.
    assert_eq!(cart.read(0xA205), 0xFB);
}

#[test]
fn mbc3_rtc_select_blocks_ram_writes() {
    let rom = make_rom(2, 0x13, 0, 0x03, b"MBC3");
    let mut cart = Cartridge::new(rom, None).unwrap();
    cart.write(0x0000, 0x0A);
    cart.write(0x4000, 0x01);
    cart.write(0xA000, 0x11);
    assert_eq!(cart.read(0xA000), 0x11);
    cart.write(0x4000, 0x08);
    cart.write(0xA000, 0x22);
    cart.write(0x4000, 0x01);
    assert_eq!(cart.read(0xA000), 0x11);
    cart.write(0x4000, 0x00);
    assert_eq!(cart.read(0xA000), 0x00);
}

#[test]
fn save_data_round_trip() {
    let rom = make_rom(2, 0x03, 0, 0x02, b"SAVE");
    let mut cart = Cartridge::new(rom.clone(), None).unwrap();
    cart.write(0x0000, 0x0A);
    cart.write(0xA123, 0x99);
    let save = cart.save_data().expect("battery cartridge has save data");
    assert_eq!(save.len(), 8192);
    let mut restored = Cartridge::new(rom.clone(), Some(save)).unwrap();
    restored.write(0x0000, 0x0A);
    assert_eq!(restored.read(0xA123), 0x99);
    assert!(!restored.save_is_dirty());
    // A save of the wrong size is ignored.
    let mut ignored = Cartridge::new(rom, Some(vec![0x55; 100])).unwrap();
    ignored.write(0x0000, 0x0A);
    assert_eq!(ignored.read(0xA000), 0x00);
}

#[test]
fn no_save_without_battery_or_ram() {
    let rom = make_rom(2, 0x02, 0, 0x02, b"NOBAT");
    assert!(Cartridge::new(rom, None).unwrap().save_data().is_none());
    let rom = make_rom(2, 0x03, 0, 0x00, b"NORAM");
    assert!(Cartridge::new(rom, None).unwrap().save_data().is_none());
}

#[test]
fn rom_bank_count_trusts_length() {
    // Header says 32 KiB but 4 banks are present: bank 3 is reachable.
    let rom = make_rom(4, 0x01, 0x00, 0, b"LEN");
    let mut cart = Cartridge::new(rom, None).unwrap();
    cart.write(0x2000, 3);
    assert_eq!(cart.read(0x4000), 3);
    // Past the end of a short ROM reads 0xFF.
    let rom = vec![0u8; 0x150];
    let mut cart = Cartridge::new(rom, None).unwrap();
    assert_eq!(cart.read(0x4000), 0xFF);
    cart.write(0x0000, 0x0A);
    assert_eq!(cart.read(0xA000), 0xFF);
}

#[test]
fn title_from_decoded_characters() {
    let chars: Vec<char> = "  \u{1}TETRIS\u{7F} \t".chars().collect();
    assert_eq!(title_from_chars(&chars), "TETRIS");
    assert_eq!(title_from_chars(&[]), "");
    assert_eq!(title_from_chars(&[' ', 'A', '\u{0}', 'B', ' ']), "AB");
}
