use gbbrain::cartridge::{
    Cartridge, CartridgeRamSize, CartridgeRomSize, CartridgeType, PersistentState,
};
use gbbrain::machine::GbMachine;
use gbbrain::model::{GbError, GbModel};
use gbbrain::rtc::Mbc3Rtc;

fn rom_of(kind: u8, rom_size: u8, ram_size: u8, banks: usize) -> Vec<u8> {
    let mut rom = vec![0u8; banks * 0x4000];
    rom[0x147] = kind;
    rom[0x148] = rom_size;
    rom[0x149] = ram_size;
    for bank in 0..banks {
        rom[bank * 0x4000] = bank as u8;
    }
    rom[0x147] = kind;
    rom
}

fn fault_of(rom: Vec<u8>) -> GbError {
    match Cartridge::new(rom) {
        Ok(_) => panic!("the ROM image was accepted"),
        Err(error) => error,
    }
}

#[test]
fn empty_rom_is_refused() {
    assert!(matches!(fault_of(Vec::new()), GbError::EmptyRom));
    assert!(matches!(GbMachine::new(Vec::new()), Err(GbError::EmptyRom)));
}

#[test]
fn rom_of_odd_length_is_refused() {
    assert!(matches!(fault_of(vec![0; 0x4000]), GbError::InvalidRomLength(0x4000)));
    assert!(matches!(fault_of(vec![0; 0x8001]), GbError::InvalidRomLength(0x8001)));
}

#[test]
fn unknown_cartridge_type_is_refused() {
    assert!(matches!(
        fault_of(rom_of(0x04, 0x00, 0x00, 2)),
        GbError::UnsupportedCartridgeType(0x04)
    ));
}

#[test]
fn unknown_sizes_are_refused() {
    assert!(matches!(fault_of(rom_of(0x00, 0x09, 0x00, 2)), GbError::UnsupportedRomSize(0x09)));
    assert!(matches!(fault_of(rom_of(0x00, 0x00, 0x06, 2)), GbError::UnsupportedRamSize(0x06)));
}

#[test]
fn rom_size_must_match_the_header() {
    assert!(matches!(
        fault_of(rom_of(0x00, 0x01, 0x00, 2)),
        GbError::RomSizeMismatch { header_size: 0x10000, actual_size: 0x8000 }
    ));
}

#[test]
fn ram_must_be_declared_where_it_is_and_only_there() {
    assert!(matches!(
        fault_of(rom_of(0x03, 0x00, 0x00, 2)),
        GbError::MissingRamForCartridge(0x03)
    ));
    assert!(matches!(
        fault_of(rom_of(0x01, 0x00, 0x02, 2)),
        GbError::UnexpectedRamSize { cartridge_type: 0x01, ram_size: 0x02 }
    ));
    assert!(Cartridge::new(rom_of(0x05, 0x00, 0x02, 2)).is_ok());
}

#[test]
fn boot_rom_must_have_256_bytes() {
    let result = GbMachine::new_with_model_and_bootrom(
        rom_of(0x00, 0x00, 0x00, 2),
        GbModel::Dmg,
        Some(vec![0; 0xFF]),
    );
    assert!(matches!(result, Err(GbError::InvalidBootromSize(0xFF))));
}

#[test]
fn header_codes_name_types_and_sizes() {
    assert_eq!(
        CartridgeType::from_header(0x1E).unwrap(),
        CartridgeType::Mbc5 { ram: true, battery: true, rumble: true }
    );
    assert_eq!(
        CartridgeType::from_header(0x0F).unwrap(),
        CartridgeType::Mbc3 { ram: false, battery: true, rtc: true }
    );
    assert_eq!(CartridgeType::from_header(0xFF).unwrap(), CartridgeType::Huc1);
    assert_eq!(CartridgeRomSize::from_header(0x08).unwrap().bytes(), 512 * 0x4000);
    assert_eq!(CartridgeRomSize::from_header(0x53).unwrap().banks(), 80);
    assert!(CartridgeRomSize::from_header(0x55).is_none());
    assert_eq!(CartridgeRamSize::from_header(0x04).unwrap().bytes(), 131_072);
    assert!(CartridgeRamSize::from_header(0x06).is_none());
}

#[test]
fn title_ends_at_a_zero_or_at_its_field() {
    let mut rom = rom_of(0x00, 0x00, 0x00, 2);
    rom[0x134..0x13A].copy_from_slice(b"POCKET");
    assert_eq!(Cartridge::new(rom.clone()).unwrap().title(), "POCKET");

    rom[0x134..0x144].copy_from_slice(b"ABCDEFGHIJKLMNOP");
    assert_eq!(Cartridge::new(rom.clone()).unwrap().title(), "ABCDEFGHIJKLMNO");

    rom[0x14B] = 0x33;
    assert_eq!(Cartridge::new(rom.clone()).unwrap().title(), "ABCDEFGHIJK");

    rom[0x135] = 0xFF;
    assert_eq!(Cartridge::new(rom).unwrap().title(), "A\u{FFFD}CDEFGHIJK");
}

#[test]
fn mbc1_never_selects_bank_zero() {
    let mut cartridge = Cartridge::new(rom_of(0x01, 0x01, 0x00, 4)).unwrap();
    cartridge.write_control(0x2000, 0x00);
    assert_eq!(cartridge.read_upper_rom(0x4000), 1);
    cartridge.write_control(0x2000, 0x23);
    assert_eq!(cartridge.read_upper_rom(0x4000), 3);
}

#[test]
fn disabled_ram_reads_as_ones_and_ignores_writes() {
    let mut cartridge = Cartridge::new(rom_of(0x03, 0x00, 0x02, 2)).unwrap();
    cartridge.write_ram(0xA000, 0x12);
    assert_eq!(cartridge.read_ram(0xA000), 0xFF);
    cartridge.write_control(0x0000, 0x0A);
    assert_eq!(cartridge.read_ram(0xA000), 0x00);
    cartridge.write_ram(0xA000, 0x12);
    assert_eq!(cartridge.read_ram(0xA000), 0x12);
}

#[test]
fn small_ram_repeats_in_its_area() {
    let mut cartridge = Cartridge::new(rom_of(0x08, 0x00, 0x01, 2)).unwrap();
    cartridge.write_ram(0xA001, 0x77);
    assert_eq!(cartridge.read_ram(0xA801), 0x77);
}

#[test]
fn clock_registers_are_latched() {
    let mut cartridge = Cartridge::new(rom_of(0x10, 0x01, 0x03, 4)).unwrap();
    cartridge.write_control(0x0000, 0x0A);
    cartridge.write_control(0x4000, 0x0A);
    cartridge.write_ram(0xA000, 5);
    assert_eq!(cartridge.read_ram(0xA000), 0);
    cartridge.write_control(0x6000, 0x00);
    cartridge.write_control(0x6000, 0x01);
    assert_eq!(cartridge.read_ram(0xA000), 5);
}

#[test]
fn saved_state_must_fit_the_cartridge() {
    let mut cartridge = Cartridge::new(rom_of(0x10, 0x01, 0x03, 4)).unwrap();
    let saved = cartridge.save_persistent_state();
    assert!(saved.is_sound());
    assert_eq!(saved.rom_signature.len(), 0x50);
    assert_eq!(saved.ram.len(), 32768);

    let short = PersistentState {
        rom_signature: saved.rom_signature.clone(),
        ram: vec![0; 3],
        rtc: Some(Mbc3Rtc::default()),
    };
    assert!(matches!(
        cartridge.load_persistent_state(&short),
        Err(GbError::PersistentStateRamSizeMismatch { expected: 32768, actual: 3 })
    ));

    let clockless = PersistentState {
        rom_signature: saved.rom_signature.clone(),
        ram: saved.ram.clone(),
        rtc: None,
    };
    assert!(matches!(
        cartridge.load_persistent_state(&clockless),
        Err(GbError::PersistentStateRtcMismatch)
    ));

    let foreign = PersistentState {
        rom_signature: vec![1; 0x50],
        ram: saved.ram.clone(),
        rtc: saved.rtc,
    };
    assert!(matches!(
        cartridge.load_persistent_state(&foreign),
        Err(GbError::PersistentStateCartridgeMismatch)
    ));
    assert!(cartridge.load_persistent_state(&saved).is_ok());
}

#[test]
fn raw_ram_must_have_the_right_size() {
    let mut cartridge = Cartridge::new(rom_of(0x06, 0x00, 0x00, 2)).unwrap();
    assert_eq!(cartridge.ram_data().len(), 512);
    assert!(matches!(
        cartridge.load_ram_data(&[1, 2]),
        Err(GbError::PersistentStateRamSizeMismatch { expected: 512, actual: 2 })
    ));
    assert!(cartridge.load_ram_data(&[9; 512]).is_ok());
    cartridge.write_control(0x0000, 0x0A);
    assert_eq!(cartridge.read_ram(0xA000), 0xF9);
}

#[test]
fn errors_have_their_texts() {
    assert_eq!(GbError::EmptyRom.message(), "ROM is empty");
    assert_eq!(
        GbError::InvalidBootromSize(3).message(),
        "boot ROM must be exactly 256 bytes, got 3"
    );
    assert_eq!(
        GbError::InvalidRomLength(16385).message(),
        "ROM length must be a non-zero multiple of 16 KiB, got 16385"
    );
    assert_eq!(
        GbError::UnsupportedCartridgeType(0x0b).message(),
        "unsupported cartridge type 0x0b"
    );
    assert_eq!(GbError::UnsupportedRomSize(0x60).message(), "unsupported ROM size header 0x60");
    assert_eq!(GbError::UnsupportedRamSize(0xfe).message(), "unsupported RAM size header 0xfe");
    assert_eq!(
        GbError::RomSizeMismatch { header_size: 65536, actual_size: 32768 }.message(),
        "ROM size header expects 65536 bytes, got 32768"
    );
    assert_eq!(
        GbError::MissingRamForCartridge(3).message(),
        "cartridge type 0x03 requires external RAM"
    );
    assert_eq!(
        GbError::UnexpectedRamSize { cartridge_type: 1, ram_size: 2 }.message(),
        "cartridge type 0x01 should not declare RAM size 0x02"
    );
    assert_eq!(
        GbError::PersistentStateRamSizeMismatch { expected: 512, actual: 2 }.message(),
        "persistent cartridge RAM size mismatch: expected 512 bytes, got 2"
    );
    assert_eq!(
        GbError::PersistentStateCartridgeMismatch.message(),
        "persistent cartridge state does not match loaded cartridge"
    );
    assert_eq!(
        GbError::PersistentStateRtcMismatch.message(),
        "persistent cartridge RTC state does not match loaded cartridge"
    );
    assert_eq!(
        GbError::IllegalOpcode { opcode: 0xd3, pc: 0x1a }.message(),
        "illegal opcode 0xd3 at PC 0x001a"
    );
    assert_eq!(
        GbError::StopInstruction { pc: 0xbeef }.message(),
        "STOP instruction encountered at PC 0xbeef"
    );
    assert_eq!(
        GbError::StackOverflow(0).message(),
        "stack access failed at address 0x0000"
    );
}

#[test]
fn model_names_are_found_again() {
    for model in [GbModel::Dmg0, GbModel::Dmg, GbModel::Mgb, GbModel::Sgb, GbModel::Sgb2] {
        assert_eq!(GbModel::from_name(model.as_name()), Some(model));
    }
    assert_eq!(GbModel::from_name("cgb"), None);
}
