//! Cartridges: header, bank controllers, external RAM and clock.

use vstd::prelude::*;

use crate::bytes::{copy_bytes, fill_bytes, filled, same_bytes};
use crate::encoding::{lossy_text, text_from_utf8_lossy};
use crate::model::GbError;
use crate::rtc::Mbc3Rtc;

verus! {

pub const ROM_BANK_SIZE: usize = 0x4000;

pub const RAM_BANK_SIZE: usize = 0x2000;

/// Header byte that names the cartridge type.
pub const HEADER_TYPE: usize = 0x147;

/// Header byte that names the ROM size.
pub const HEADER_ROM_SIZE: usize = 0x148;

/// Header byte that names the RAM size.
pub const HEADER_RAM_SIZE: usize = 0x149;

/// What of a cartridge outlives the machine, with the header bytes that identify the cartridge.
#[derive(Debug, Clone)]
pub struct PersistentState {
    pub rom_signature: Vec<u8>,
    pub ram: Vec<u8>,
    pub rtc: Option<Mbc3Rtc>,
}

#[derive(Debug, Clone, Copy, PartialEq, Eq, Structural)]
pub enum CartridgeType {
    NoMbc { ram: bool, battery: bool },
    Mbc1 { ram: bool, battery: bool, multicart: bool },
    Mbc2 { battery: bool },
    Mbc3 { ram: bool, battery: bool, rtc: bool },
    Mbc5 { ram: bool, battery: bool, rumble: bool },
    Huc1,
}

#[derive(Debug, Clone, Copy, PartialEq, Eq, Structural)]
pub enum CartridgeRomSize {
    Banks2,
    Banks4,
    Banks8,
    Banks16,
    Banks32,
    Banks64,
    Banks128,
    Banks256,
    Banks512,
    Banks72,
    Banks80,
    Banks96,
}

/// The number of ROM banks that a header byte declares: powers of two, and three odd sizes.
pub open spec fn header_banks(value: u8) -> Option<nat> {
    if value <= 8 {
        Some(vstd::arithmetic::power2::pow2((value + 1) as nat))
    } else if value == 0x52 {
        Some(72)
    } else if value == 0x53 {
        Some(80)
    } else if value == 0x54 {
        Some(96)
    } else {
        None
    }
}

impl CartridgeRomSize {
    pub open spec fn bank_count(self) -> nat {
        match self {
            CartridgeRomSize::Banks2 => 2,
            CartridgeRomSize::Banks4 => 4,
            CartridgeRomSize::Banks8 => 8,
            CartridgeRomSize::Banks16 => 16,
            CartridgeRomSize::Banks32 => 32,
            CartridgeRomSize::Banks64 => 64,
            CartridgeRomSize::Banks128 => 128,
            CartridgeRomSize::Banks256 => 256,
            CartridgeRomSize::Banks512 => 512,
            CartridgeRomSize::Banks72 => 72,
            CartridgeRomSize::Banks80 => 80,
            CartridgeRomSize::Banks96 => 96,
        }
    }

    pub fn from_header(value: u8) -> (size: Option<Self>)
        ensures
            match size {
                Some(found) => header_banks(value) == Some(found.bank_count()),
                None => header_banks(value) is None,
            },
    {
        proof {
            vstd::arithmetic::power2::lemma2_to64();
        }
        match value {
            0x00 => Some(CartridgeRomSize::Banks2),
            0x01 => Some(CartridgeRomSize::Banks4),
            0x02 => Some(CartridgeRomSize::Banks8),
            0x03 => Some(CartridgeRomSize::Banks16),
            0x04 => Some(CartridgeRomSize::Banks32),
            0x05 => Some(CartridgeRomSize::Banks64),
            0x06 => Some(CartridgeRomSize::Banks128),
            0x07 => Some(CartridgeRomSize::Banks256),
            0x08 => Some(CartridgeRomSize::Banks512),
            0x52 => Some(CartridgeRomSize::Banks72),
            0x53 => Some(CartridgeRomSize::Banks80),
            0x54 => Some(CartridgeRomSize::Banks96),
            _ => None,
        }
    }

    pub fn bytes(self) -> (len: usize)
        ensures
            len == self.bank_count() * ROM_BANK_SIZE,
    {
        self.banks() * ROM_BANK_SIZE
    }

    pub fn banks(self) -> (count: usize)
        ensures
            count == self.bank_count(),
            count <= 512,
    {
        match self {
            CartridgeRomSize::Banks2 => 2,
            CartridgeRomSize::Banks4 => 4,
            CartridgeRomSize::Banks8 => 8,
            CartridgeRomSize::Banks16 => 16,
            CartridgeRomSize::Banks32 => 32,
            CartridgeRomSize::Banks64 => 64,
            CartridgeRomSize::Banks128 => 128,
            CartridgeRomSize::Banks256 => 256,
            CartridgeRomSize::Banks512 => 512,
            CartridgeRomSize::Banks72 => 72,
            CartridgeRomSize::Banks80 => 80,
            CartridgeRomSize::Banks96 => 96,
        }
    }
}

#[derive(Debug, Clone, Copy, PartialEq, Eq, Structural)]
pub enum CartridgeRamSize {
    NoRam,
    Ram2K,
    Ram8K,
    Ram32K,
    Ram128K,
    Ram64K,
}

/// The RAM size that a header byte declares.
pub open spec fn header_ram(value: u8) -> Option<CartridgeRamSize> {
    if value == 0 {
        Some(CartridgeRamSize::NoRam)
    } else if value == 1 {
        Some(CartridgeRamSize::Ram2K)
    } else if value == 2 {
        Some(CartridgeRamSize::Ram8K)
    } else if value == 3 {
        Some(CartridgeRamSize::Ram32K)
    } else if value == 4 {
        Some(CartridgeRamSize::Ram128K)
    } else if value == 5 {
        Some(CartridgeRamSize::Ram64K)
    } else {
        None
    }
}

impl CartridgeRamSize {
    pub open spec fn byte_count(self) -> nat {
        match self {
            CartridgeRamSize::NoRam => 0,
            CartridgeRamSize::Ram2K => 2048,
            CartridgeRamSize::Ram8K => 8192,
            CartridgeRamSize::Ram32K => 32768,
            CartridgeRamSize::Ram128K => 131_072,
            CartridgeRamSize::Ram64K => 65536,
        }
    }

    /// Whether there are more banks than two selection bits reach.
    pub open spec fn is_extended(self) -> bool {
        self is Ram64K || self is Ram128K
    }

    pub fn from_header(value: u8) -> (size: Option<Self>)
        ensures
            size == header_ram(value),
    {
        match value {
            0x00 => Some(CartridgeRamSize::NoRam),
            0x01 => Some(CartridgeRamSize::Ram2K),
            0x02 => Some(CartridgeRamSize::Ram8K),
            0x03 => Some(CartridgeRamSize::Ram32K),
            0x04 => Some(CartridgeRamSize::Ram128K),
            0x05 => Some(CartridgeRamSize::Ram64K),
            _ => None,
        }
    }

    pub fn bytes(self) -> (len: usize)
        ensures
            len == self.byte_count(),
    {
        match self {
            CartridgeRamSize::NoRam => 0,
            CartridgeRamSize::Ram2K => 2048,
            CartridgeRamSize::Ram8K => 8192,
            CartridgeRamSize::Ram32K => 32768,
            CartridgeRamSize::Ram128K => 131_072,
            CartridgeRamSize::Ram64K => 65536,
        }
    }

    fn extended(self) -> (extended: bool)
        ensures
            extended == self.is_extended(),
    {
        matches!(self, CartridgeRamSize::Ram64K | CartridgeRamSize::Ram128K)
    }
}

#[derive(Debug, Clone, Copy, PartialEq, Eq, Structural)]
pub struct Mbc1State {
    pub ram_enabled: bool,
    pub bank1: u8,
    pub bank2: u8,
    pub mode: bool,
}

#[derive(Debug, Clone, Copy, PartialEq, Eq, Structural)]
pub struct Mbc2State {
    pub ram_enabled: bool,
    pub rom_bank: u8,
}

#[derive(Debug, Clone, Copy, PartialEq, Eq, Structural)]
pub struct Mbc3State {
    pub ram_rtc_enabled: bool,
    pub rom_bank: u8,
    pub map_select: u8,
    pub latch_value: u8,
}

#[derive(Debug, Clone, Copy, PartialEq, Eq, Structural)]
pub struct Mbc5State {
    pub ram_enabled: bool,
    pub romb0: u8,
    pub romb1: u8,
    pub ramb: u8,
}

#[derive(Debug, Clone, Copy, PartialEq, Eq, Structural)]
pub struct Huc1State {
    pub mode: u8,
    pub rom_bank: u8,
    pub ram_bank: u8,
}

/// The bank controller's registers.
#[derive(Debug, Clone, Copy, PartialEq, Eq, Structural)]
pub enum Mapper {
    Fixed,
    Mbc1(Mbc1State),
    Mbc2(Mbc2State),
    Mbc3(Mbc3State),
    Mbc5(Mbc5State),
    Huc1(Huc1State),
}

impl Default for Mbc1State {
    fn default() -> (state: Self)
        ensures
            Mapper::Mbc1(state) == power_on_mapper(
                CartridgeType::Mbc1 { ram: false, battery: false, multicart: false },
            ),
    {
        Mbc1State { ram_enabled: false, bank1: 1, bank2: 0, mode: false }
    }
}

impl Default for Mbc2State {
    fn default() -> (state: Self)
        ensures
            Mapper::Mbc2(state) == power_on_mapper(CartridgeType::Mbc2 { battery: false }),
    {
        Mbc2State { ram_enabled: false, rom_bank: 1 }
    }
}

impl Default for Mbc3State {
    fn default() -> (state: Self)
        ensures
            Mapper::Mbc3(state) == power_on_mapper(
                CartridgeType::Mbc3 { ram: false, battery: false, rtc: false },
            ),
    {
        Mbc3State { ram_rtc_enabled: false, rom_bank: 1, map_select: 0, latch_value: 0 }
    }
}

impl Default for Mbc5State {
    fn default() -> (state: Self)
        ensures
            Mapper::Mbc5(state) == power_on_mapper(
                CartridgeType::Mbc5 { ram: false, battery: false, rumble: false },
            ),
    {
        Mbc5State { ram_enabled: false, romb0: 1, romb1: 0, ramb: 0 }
    }
}

impl Default for Huc1State {
    fn default() -> (state: Self)
        ensures
            Mapper::Huc1(state) == power_on_mapper(CartridgeType::Huc1),
    {
        Huc1State { mode: 0, rom_bank: 0, ram_bank: 0 }
    }
}

/// The bank controller's registers when power comes on.
pub open spec fn power_on_mapper(kind: CartridgeType) -> Mapper {
    match kind {
        CartridgeType::NoMbc { .. } => Mapper::Fixed,
        CartridgeType::Mbc1 { .. } => Mapper::Mbc1(
            Mbc1State { ram_enabled: false, bank1: 1, bank2: 0, mode: false },
        ),
        CartridgeType::Mbc2 { .. } => Mapper::Mbc2(Mbc2State { ram_enabled: false, rom_bank: 1 }),
        CartridgeType::Mbc3 { .. } => Mapper::Mbc3(
            Mbc3State { ram_rtc_enabled: false, rom_bank: 1, map_select: 0, latch_value: 0 },
        ),
        CartridgeType::Mbc5 { .. } => Mapper::Mbc5(
            Mbc5State { ram_enabled: false, romb0: 1, romb1: 0, ramb: 0 },
        ),
        CartridgeType::Huc1 => Mapper::Huc1(Huc1State { mode: 0, rom_bank: 0, ram_bank: 0 }),
    }
}

fn mapper_at_power_on(kind: CartridgeType) -> (mapper: Mapper)
    ensures
        mapper == power_on_mapper(kind),
{
    match kind {
        CartridgeType::NoMbc { .. } => Mapper::Fixed,
        CartridgeType::Mbc1 { .. } => Mapper::Mbc1(Mbc1State::default()),
        CartridgeType::Mbc2 { .. } => Mapper::Mbc2(Mbc2State::default()),
        CartridgeType::Mbc3 { .. } => Mapper::Mbc3(Mbc3State::default()),
        CartridgeType::Mbc5 { .. } => Mapper::Mbc5(Mbc5State::default()),
        CartridgeType::Huc1 => Mapper::Huc1(Huc1State::default()),
    }
}

/// The cartridge type that a header byte declares.
pub open spec fn header_kind(value: u8) -> Option<CartridgeType> {
    if value == 0x00 {
        Some(CartridgeType::NoMbc { ram: false, battery: false })
    } else if value == 0x08 || value == 0x09 {
        Some(CartridgeType::NoMbc { ram: true, battery: value == 0x09 })
    } else if 0x01 <= value <= 0x03 {
        Some(CartridgeType::Mbc1 { ram: value >= 0x02, battery: value == 0x03, multicart: false })
    } else if value == 0x05 || value == 0x06 {
        Some(CartridgeType::Mbc2 { battery: value == 0x06 })
    } else if value == 0x0F || value == 0x10 {
        Some(CartridgeType::Mbc3 { ram: value == 0x10, battery: true, rtc: true })
    } else if 0x11 <= value <= 0x13 {
        Some(CartridgeType::Mbc3 { ram: value >= 0x12, battery: value == 0x13, rtc: false })
    } else if 0x19 <= value <= 0x1B {
        Some(CartridgeType::Mbc5 { ram: value >= 0x1A, battery: value == 0x1B, rumble: false })
    } else if 0x1C <= value <= 0x1E {
        Some(CartridgeType::Mbc5 { ram: value >= 0x1D, battery: value == 0x1E, rumble: true })
    } else if value == 0xFF {
        Some(CartridgeType::Huc1)
    } else {
        None
    }
}

impl CartridgeType {
    pub open spec fn needs_ram(self) -> bool {
        match self {
            CartridgeType::NoMbc { ram, .. } => ram,
            CartridgeType::Mbc1 { ram, .. } => ram,
            CartridgeType::Mbc2 { .. } => false,
            CartridgeType::Mbc3 { ram, .. } => ram,
            CartridgeType::Mbc5 { ram, .. } => ram,
            CartridgeType::Huc1 => true,
        }
    }

    pub open spec fn battery_backed(self) -> bool {
        match self {
            CartridgeType::NoMbc { battery, .. } => battery,
            CartridgeType::Mbc1 { battery, .. } => battery,
            CartridgeType::Mbc2 { battery } => battery,
            CartridgeType::Mbc3 { battery, .. } => battery,
            CartridgeType::Mbc5 { battery, .. } => battery,
            CartridgeType::Huc1 => true,
        }
    }

    pub open spec fn has_clock(self) -> bool {
        self matches CartridgeType::Mbc3 { rtc: true, .. }
    }

    pub fn from_header(value: u8) -> (kind: Result<Self, GbError>)
        ensures
            kind == (match header_kind(value) {
                Some(found) => Ok::<CartridgeType, GbError>(found),
                None => Err(GbError::UnsupportedCartridgeType(value)),
            }),
    {
        match value {
            0x00 => Ok(CartridgeType::NoMbc { ram: false, battery: false }),
            0x08 => Ok(CartridgeType::NoMbc { ram: true, battery: false }),
            0x09 => Ok(CartridgeType::NoMbc { ram: true, battery: true }),
            0x01 => Ok(CartridgeType::Mbc1 { ram: false, battery: false, multicart: false }),
            0x02 => Ok(CartridgeType::Mbc1 { ram: true, battery: false, multicart: false }),
            0x03 => Ok(CartridgeType::Mbc1 { ram: true, battery: true, multicart: false }),
            0x05 => Ok(CartridgeType::Mbc2 { battery: false }),
            0x06 => Ok(CartridgeType::Mbc2 { battery: true }),
            0x0F => Ok(CartridgeType::Mbc3 { ram: false, battery: true, rtc: true }),
            0x10 => Ok(CartridgeType::Mbc3 { ram: true, battery: true, rtc: true }),
            0x11 => Ok(CartridgeType::Mbc3 { ram: false, battery: false, rtc: false }),
            0x12 => Ok(CartridgeType::Mbc3 { ram: true, battery: false, rtc: false }),
            0x13 => Ok(CartridgeType::Mbc3 { ram: true, battery: true, rtc: false }),
            0x19 => Ok(CartridgeType::Mbc5 { ram: false, battery: false, rumble: false }),
            0x1A => Ok(CartridgeType::Mbc5 { ram: true, battery: false, rumble: false }),
            0x1B => Ok(CartridgeType::Mbc5 { ram: true, battery: true, rumble: false }),
            0x1C => Ok(CartridgeType::Mbc5 { ram: false, battery: false, rumble: true }),
            0x1D => Ok(CartridgeType::Mbc5 { ram: true, battery: false, rumble: true }),
            0x1E => Ok(CartridgeType::Mbc5 { ram: true, battery: true, rumble: true }),
            0xFF => Ok(CartridgeType::Huc1),
            _ => Err(GbError::UnsupportedCartridgeType(value)),
        }
    }

    pub fn has_external_ram(self) -> (ram: bool)
        ensures
            ram == self.needs_ram(),
    {
        match self {
            CartridgeType::NoMbc { ram, .. } => ram,
            CartridgeType::Mbc1 { ram, .. } => ram,
            CartridgeType::Mbc2 { .. } => false,
            CartridgeType::Mbc3 { ram, .. } => ram,
            CartridgeType::Mbc5 { ram, .. } => ram,
            CartridgeType::Huc1 => true,
        }
    }

    pub fn has_battery(self) -> (battery: bool)
        ensures
            battery == self.battery_backed(),
    {
        match self {
            CartridgeType::NoMbc { battery, .. } => battery,
            CartridgeType::Mbc1 { battery, .. } => battery,
            CartridgeType::Mbc2 { battery } => battery,
            CartridgeType::Mbc3 { battery, .. } => battery,
            CartridgeType::Mbc5 { battery, .. } => battery,
            CartridgeType::Huc1 => true,
        }
    }
}

/// What is wrong with a ROM image, if anything: the first fault, in this order.
pub open spec fn header_fault(rom: Seq<u8>) -> Option<GbError> {
    let code = rom[HEADER_TYPE as int];
    let rom_code = rom[HEADER_ROM_SIZE as int];
    let ram_code = rom[HEADER_RAM_SIZE as int];
    if rom.len() == 0 {
        Some(GbError::EmptyRom)
    } else if rom.len() < 0x8000 || rom.len() % 0x4000 != 0 {
        Some(GbError::InvalidRomLength(rom.len() as usize))
    } else if header_kind(code) is None {
        Some(GbError::UnsupportedCartridgeType(code))
    } else if header_banks(rom_code) is None {
        Some(GbError::UnsupportedRomSize(rom_code))
    } else if header_ram(ram_code) is None {
        Some(GbError::UnsupportedRamSize(ram_code))
    } else if header_banks(rom_code)->0 * 0x4000 != rom.len() {
        Some(
            GbError::RomSizeMismatch {
                header_size: (header_banks(rom_code)->0 * 0x4000) as usize,
                actual_size: rom.len() as usize,
            },
        )
    } else if header_kind(code)->0.needs_ram() && header_ram(ram_code)->0 is NoRam {
        Some(GbError::MissingRamForCartridge(code))
    } else if !header_kind(code)->0.needs_ram() && !(header_kind(code)->0 is Mbc2) && !(header_ram(
        ram_code,
    )->0 is NoRam) {
        Some(GbError::UnexpectedRamSize { cartridge_type: code, ram_size: ram_code })
    } else {
        None
    }
}

/// The number of bytes before the first zero.
pub open spec fn before_zero(bytes: Seq<u8>) -> nat
    decreases bytes.len(),
{
    if bytes.len() == 0 || bytes[0] == 0 {
        0
    } else {
        1 + before_zero(bytes.drop_first())
    }
}

/// The bytes of the title in the header: its field, up to the first zero. The field is shorter
/// where the header uses the longer licensee code.
pub open spec fn title_bytes(rom: Seq<u8>) -> Seq<u8> {
    let field = rom.subrange(
        0x134,
        if rom[0x14B] == 0x33 {
            0x13F
        } else {
            0x143
        },
    );
    field.take(before_zero(field) as int)
}

pub proof fn lemma_before_zero(bytes: Seq<u8>, n: nat)
    requires
        n <= bytes.len(),
        forall|i: int| 0 <= i < n ==> bytes[i] != 0,
        n == bytes.len() || bytes[n as int] == 0,
    ensures
        before_zero(bytes) == n,
    decreases n,
{
    if n > 0 {
        lemma_before_zero(bytes.drop_first(), (n - 1) as nat);
    }
}

/// The title in the header.
fn parse_title(rom: &[u8]) -> (title: String)
    requires
        rom@.len() >= 0x150,
    ensures
        title@ == lossy_text(title_bytes(rom@)),
        vstd::utf8::valid_utf8(title_bytes(rom@)) ==> title@ == vstd::utf8::decode_utf8(
            title_bytes(rom@),
        ),
{
    let end: usize = if rom[0x14B] == 0x33 {
        0x13F
    } else {
        0x143
    };
    let field: &[u8] = vstd::slice::slice_subrange(rom, 0x134, end);
    let mut len: usize = 0;
    while len < field.len() && field[len] != 0
        invariant
            len <= field@.len(),
            forall|i: int| 0 <= i < len ==> field@[i] != 0,
        decreases field@.len() - len,
    {
        len = len + 1;
    }
    proof {
        lemma_before_zero(field@, len as nat);
        assert(field@.subrange(0, len as int) =~= title_bytes(rom@));
    }
    text_from_utf8_lossy(vstd::slice::slice_subrange(field, 0, len))
}

/// What a cartridge holds.
pub struct CartridgeState {
    pub rom: Seq<u8>,
    pub ram: Seq<u8>,
    pub title: Seq<char>,
    pub cartridge_type_code: u8,
    pub kind: CartridgeType,
    pub ram_size: CartridgeRamSize,
    pub mapper: Mapper,
    pub rom_offsets: (usize, usize),
    pub ram_offset: usize,
    pub rtc: Option<Mbc3Rtc>,
}

#[derive(Debug)]
pub struct Cartridge {
    pub rom: Vec<u8>,
    pub ram: Vec<u8>,
    pub title: String,
    pub cartridge_type_code: u8,
    pub kind: CartridgeType,
    pub ram_size: CartridgeRamSize,
    pub mapper: Mapper,
    pub rom_offsets: (usize, usize),
    pub ram_offset: usize,
    pub rtc: Option<Mbc3Rtc>,
}

impl View for Cartridge {
    type V = CartridgeState;

    open spec fn view(&self) -> CartridgeState {
        CartridgeState {
            rom: self.rom@,
            ram: self.ram@,
            title: self.title@,
            cartridge_type_code: self.cartridge_type_code,
            kind: self.kind,
            ram_size: self.ram_size,
            mapper: self.mapper,
            rom_offsets: self.rom_offsets,
            ram_offset: self.ram_offset,
            rtc: self.rtc,
        }
    }
}

impl Clone for Cartridge {
    fn clone(&self) -> (copy: Self)
        ensures
            copy@ == self@,
    {
        Cartridge {
            rom: copy_bytes(&self.rom),
            ram: copy_bytes(&self.ram),
            title: self.title.clone(),
            cartridge_type_code: self.cartridge_type_code,
            kind: self.kind,
            ram_size: self.ram_size,
            mapper: self.mapper,
            rom_offsets: self.rom_offsets,
            ram_offset: self.ram_offset,
            rtc: self.rtc,
        }
    }
}

/// The register of an eight-bit bank that never selects bank 0.
pub open spec fn nonzero_bank(bank: u8) -> u8 {
    if bank == 0 {
        1
    } else {
        bank
    }
}

impl CartridgeState {
    /// Offsets from which a bank can be addressed, and a clock that can count on.
    pub open spec fn sound(self) -> bool {
        &&& self.rom_offsets.0 + 0x3FFF <= usize::MAX
        &&& self.rom_offsets.1 + 0x3FFF <= usize::MAX
        &&& self.rtc matches Some(rtc) ==> rtc.wf()
    }

    /// A sound cartridge with a ROM image without fault.
    pub open spec fn wf(self) -> bool {
        &&& header_fault(self.rom) is None
        &&& self.sound()
    }

    /// The cartridge of a ROM image, with power just on.
    pub open spec fn fresh(rom: Seq<u8>) -> CartridgeState {
        let kind = header_kind(rom[HEADER_TYPE as int])->0;
        let ram_size = header_ram(rom[HEADER_RAM_SIZE as int])->0;
        CartridgeState {
            rom,
            ram: filled(
                if kind is Mbc2 {
                    512
                } else {
                    ram_size.byte_count()
                },
                0,
            ),
            title: lossy_text(title_bytes(rom)),
            cartridge_type_code: rom[HEADER_TYPE as int],
            kind,
            ram_size,
            mapper: power_on_mapper(kind),
            rom_offsets: (0, ROM_BANK_SIZE),
            ram_offset: 0,
            rtc: if kind.has_clock() {
                Some(Mbc3Rtc::cleared())
            } else {
                None
            },
        }
    }

    /// The bank controller starts again; RAM and clock stay.
    pub open spec fn after_reset(self) -> CartridgeState {
        CartridgeState {
            mapper: power_on_mapper(self.kind),
            rom_offsets: (0, ROM_BANK_SIZE),
            ram_offset: 0,
            ..self
        }
    }

    /// The header bytes that tell one cartridge from another.
    pub open spec fn signature(self) -> Seq<u8> {
        self.rom.subrange(0x100, 0x150)
    }

    pub open spec fn lower_rom_byte(self, addr: u16) -> u8 {
        self.rom[(self.rom_offsets.0 + addr % 0x4000) % (self.rom.len() as int)]
    }

    pub open spec fn upper_rom_byte(self, addr: u16) -> u8 {
        self.rom[(self.rom_offsets.1 + addr % 0x4000) % (self.rom.len() as int)]
    }

    /// Where in RAM an address of the selected bank lies.
    pub open spec fn ram_index(self, addr: u16) -> int {
        ((self.ram_offset | (addr % 0x2000) as usize) & (self.ram.len() - 1) as usize) as int
    }

    pub open spec fn ram_byte(self, addr: u16) -> u8 {
        if self.ram.len() == 0 {
            0xFF
        } else {
            self.ram[self.ram_index(addr)]
        }
    }

    pub open spec fn with_ram_byte(self, addr: u16, value: u8) -> CartridgeState {
        if self.ram.len() == 0 {
            self
        } else {
            CartridgeState { ram: self.ram.update(self.ram_index(addr), value), ..self }
        }
    }

    /// Whether the map selection of an MBC3 shows a RAM bank.
    pub open spec fn mbc3_maps_ram(self, select: u8) -> bool {
        select <= 0x03 || (self.rtc is Some && select <= 0x07 && self.ram_size.is_extended())
    }

    /// What a read in the external RAM area shows.
    pub open spec fn external_byte(self, addr: u16) -> u8 {
        match self.mapper {
            Mapper::Fixed => self.ram_byte(addr),
            Mapper::Mbc1(state) => if state.ram_enabled {
                self.ram_byte(addr)
            } else {
                0xFF
            },
            Mapper::Mbc2(state) => if state.ram_enabled {
                0xF0 | (self.ram_byte(addr) & 0x0F)
            } else {
                0xFF
            },
            Mapper::Mbc3(state) => if !state.ram_rtc_enabled {
                0xFF
            } else if self.mbc3_maps_ram(state.map_select) {
                self.ram_byte(addr)
            } else if self.rtc is Some && 0x08 <= state.map_select <= 0x0C {
                self.rtc->0.latched_register(state.map_select)
            } else {
                0xFF
            },
            Mapper::Mbc5(state) => if state.ram_enabled {
                self.ram_byte(addr)
            } else {
                0xFF
            },
            Mapper::Huc1(state) => if state.mode == 0x00 || state.mode == 0x0A {
                self.ram_byte(addr)
            } else {
                0xFF
            },
        }
    }

    /// What a write in the external RAM area changes.
    pub open spec fn with_external_byte(self, addr: u16, value: u8) -> CartridgeState {
        match self.mapper {
            Mapper::Fixed => self.with_ram_byte(addr, value),
            Mapper::Mbc1(state) => if state.ram_enabled {
                self.with_ram_byte(addr, value)
            } else {
                self
            },
            Mapper::Mbc2(state) => if state.ram_enabled {
                self.with_ram_byte(addr, value & 0x0F)
            } else {
                self
            },
            Mapper::Mbc3(state) => if !state.ram_rtc_enabled {
                self
            } else if self.mbc3_maps_ram(state.map_select) {
                self.with_ram_byte(addr, value)
            } else if self.rtc is Some && 0x08 <= state.map_select <= 0x0C {
                CartridgeState {
                    rtc: Some(self.rtc->0.with_live_register(state.map_select, value)),
                    ..self
                }
            } else {
                self
            },
            Mapper::Mbc5(state) => if state.ram_enabled {
                self.with_ram_byte(addr, value)
            } else {
                self
            },
            Mapper::Huc1(state) => if state.mode == 0x0A {
                self.with_ram_byte(addr, value)
            } else {
                self
            },
        }
    }

    /// The upper and lower parts of the bank number of an MBC1.
    pub open spec fn mbc1_bank_bits(self, state: Mbc1State) -> (u8, u8) {
        if self.kind matches CartridgeType::Mbc1 { multicart: true, .. } {
            (state.bank2 << 4, state.bank1 & 0x0F)
        } else {
            (state.bank2 << 5, state.bank1)
        }
    }

    pub open spec fn with_mbc1(self, state: Mbc1State) -> CartridgeState {
        let (upper, lower) = self.mbc1_bank_bits(state);
        CartridgeState {
            mapper: Mapper::Mbc1(state),
            rom_offsets: (
                (if state.mode {
                    0x4000 * upper
                } else {
                    0
                }) as usize,
                (0x4000 * (upper | lower)) as usize,
            ),
            ram_offset: (if state.mode {
                0x2000 * state.bank2
            } else {
                0
            }) as usize,
            ..self
        }
    }

    pub open spec fn with_mbc5_rom(self, state: Mbc5State) -> CartridgeState {
        CartridgeState {
            mapper: Mapper::Mbc5(state),
            rom_offsets: (0, (0x4000 * (state.romb0 as u16 | ((state.romb1 as u16) << 8))) as usize),
            ..self
        }
    }

    pub open spec fn with_huc1(self, state: Huc1State) -> CartridgeState {
        CartridgeState {
            mapper: Mapper::Huc1(state),
            rom_offsets: (0, (0x4000 * (state.rom_bank & 0x3F)) as usize),
            ram_offset: (0x2000 * (state.ram_bank & 0x03)) as usize,
            ..self
        }
    }

    pub open spec fn mbc1_control(self, state: Mbc1State, addr: u16, value: u8) -> CartridgeState {
        if addr <= 0x1FFF {
            CartridgeState {
                mapper: Mapper::Mbc1(Mbc1State { ram_enabled: value & 0x0F == 0x0A, ..state }),
                ..self
            }
        } else if addr <= 0x3FFF {
            self.with_mbc1(Mbc1State { bank1: nonzero_bank(value & 0x1F), ..state })
        } else if addr <= 0x5FFF {
            self.with_mbc1(Mbc1State { bank2: value & 0x03, ..state })
        } else if addr <= 0x7FFF {
            self.with_mbc1(Mbc1State { mode: value & 0x01 != 0, ..state })
        } else {
            self
        }
    }

    pub open spec fn mbc2_control(self, state: Mbc2State, addr: u16, value: u8) -> CartridgeState {
        if addr <= 0x3FFF && addr & 0x0100 == 0 {
            CartridgeState {
                mapper: Mapper::Mbc2(Mbc2State { ram_enabled: value & 0x0F == 0x0A, ..state }),
                ..self
            }
        } else if addr <= 0x3FFF {
            CartridgeState {
                mapper: Mapper::Mbc2(
                    Mbc2State { rom_bank: nonzero_bank(value & 0x0F), ..state },
                ),
                rom_offsets: (0, (0x4000 * nonzero_bank(value & 0x0F)) as usize),
                ..self
            }
        } else {
            self
        }
    }

    pub open spec fn mbc3_control(self, state: Mbc3State, addr: u16, value: u8) -> CartridgeState {
        if addr <= 0x1FFF {
            CartridgeState {
                mapper: Mapper::Mbc3(Mbc3State { ram_rtc_enabled: value & 0x0F == 0x0A, ..state }),
                ..self
            }
        } else if addr <= 0x3FFF {
            CartridgeState {
                mapper: Mapper::Mbc3(Mbc3State { rom_bank: nonzero_bank(value & 0x7F), ..state }),
                rom_offsets: (0, (0x4000 * nonzero_bank(value & 0x7F)) as usize),
                ..self
            }
        } else if addr <= 0x5FFF {
            CartridgeState {
                mapper: Mapper::Mbc3(Mbc3State { map_select: value & 0x0F, ..state }),
                ram_offset: (0x2000 * (if self.ram_size.is_extended() {
                    (value & 0x0F) & 0x07
                } else {
                    (value & 0x0F) & 0x03
                })) as usize,
                ..self
            }
        } else if addr <= 0x7FFF {
            CartridgeState {
                mapper: Mapper::Mbc3(Mbc3State { latch_value: value, ..state }),
                rtc: if state.latch_value == 0 && value == 1 && self.rtc is Some {
                    Some(self.rtc->0.after_latch())
                } else {
                    self.rtc
                },
                ..self
            }
        } else {
            self
        }
    }

    pub open spec fn mbc5_control(self, state: Mbc5State, addr: u16, value: u8) -> CartridgeState {
        if addr <= 0x1FFF {
            CartridgeState {
                mapper: Mapper::Mbc5(Mbc5State { ram_enabled: value == 0x0A, ..state }),
                ..self
            }
        } else if addr <= 0x2FFF {
            self.with_mbc5_rom(Mbc5State { romb0: value, ..state })
        } else if addr <= 0x3FFF {
            self.with_mbc5_rom(Mbc5State { romb1: value & 0x01, ..state })
        } else if addr <= 0x5FFF {
            CartridgeState {
                mapper: Mapper::Mbc5(Mbc5State { ramb: value & 0x0F, ..state }),
                ram_offset: (0x2000 * (value & 0x0F)) as usize,
                ..self
            }
        } else {
            self
        }
    }

    pub open spec fn huc1_control(self, state: Huc1State, addr: u16, value: u8) -> CartridgeState {
        if addr <= 0x1FFF {
            CartridgeState {
                mapper: Mapper::Huc1(Huc1State { mode: value & 0x0F, ..state }),
                ..self
            }
        } else if addr <= 0x3FFF {
            self.with_huc1(Huc1State { rom_bank: value & 0x3F, ..state })
        } else if addr <= 0x5FFF {
            self.with_huc1(Huc1State { ram_bank: value & 0x03, ..state })
        } else {
            self
        }
    }

    /// What a write in the ROM area does to the bank controller.
    pub open spec fn after_control(self, addr: u16, value: u8) -> CartridgeState {
        match self.mapper {
            Mapper::Fixed => self,
            Mapper::Mbc1(state) => self.mbc1_control(state, addr, value),
            Mapper::Mbc2(state) => self.mbc2_control(state, addr, value),
            Mapper::Mbc3(state) => self.mbc3_control(state, addr, value),
            Mapper::Mbc5(state) => self.mbc5_control(state, addr, value),
            Mapper::Huc1(state) => self.huc1_control(state, addr, value),
        }
    }

    pub open spec fn after_cycles(self, cycles: u16) -> CartridgeState {
        match self.rtc {
            Some(rtc) => CartridgeState { rtc: Some(rtc.after_cycles(cycles)), ..self },
            None => self,
        }
    }

    /// What is fixed for as long as a cartridge is inserted.
    pub open spec fn same_cartridge(self, other: CartridgeState) -> bool {
        &&& self.rom == other.rom
        &&& self.title == other.title
        &&& self.cartridge_type_code == other.cartridge_type_code
        &&& self.kind == other.kind
        &&& self.ram_size == other.ram_size
        &&& self.ram.len() == other.ram.len()
        &&& self.rtc is Some == other.rtc is Some
    }
}

/// The index of a masked address lies in the RAM.
proof fn lemma_masked_index(offset: usize, addr: u16, len: usize)
    requires
        len > 0,
    ensures
        addr & 0x1FFF == addr % 0x2000,
        addr & 0x3FFF == addr % 0x4000,
        (offset | (addr % 0x2000) as usize) & (len - 1) as usize <= len - 1,
{
    assert(addr & 0x1FFF == addr % 0x2000 && addr & 0x3FFF == addr % 0x4000) by (bit_vector);
    let index: usize = offset | (addr % 0x2000) as usize;
    let mask: usize = (len - 1) as usize;
    assert(index & mask <= mask) by (bit_vector);
}

proof fn lemma_bank_bounds(value: u8, low: u16, high: u16)
    requires
        low < 256,
        high < 256,
    ensures
        value & 0x0F <= 0x0F,
        value & 0x03 <= 0x03,
        value & 0x07 <= 0x07,
        value & 0x3F <= 0x3F,
        value & 0x7F <= 0x7F,
        low | (high << 8) <= 0xFFFF,
{
    assert(value & 0x0F <= 0x0F && value & 0x03 <= 0x03 && value & 0x07 <= 0x07 && value & 0x3F
        <= 0x3F && value & 0x7F <= 0x7F) by (bit_vector);
}

impl PersistentState {
    /// Whether the clock of a saved state can count on.
    pub open spec fn sound(self) -> bool {
        self.rtc matches Some(rtc) ==> rtc.wf()
    }

    pub fn is_sound(&self) -> (sound: bool)
        ensures
            sound == self.sound(),
    {
        match &self.rtc {
            Some(rtc) => rtc.is_sound(),
            None => true,
        }
    }
}

impl Cartridge {
    /// Whether its numbers are such that a machine can go on with it.
    pub fn is_sound(&self) -> (sound: bool)
        ensures
            sound == self@.sound(),
    {
        let clock_sound: bool = match &self.rtc {
            Some(rtc) => rtc.is_sound(),
            None => true,
        };
        clock_sound && self.rom_offsets.0 <= usize::MAX - 0x3FFF && self.rom_offsets.1 <= usize::MAX
            - 0x3FFF
    }

    /// The cartridge of a ROM image.
    pub fn new(rom: Vec<u8>) -> (cartridge: Result<Self, GbError>)
        ensures
            match header_fault(rom@) {
                Some(fault) => cartridge == Err::<Cartridge, GbError>(fault),
                None => {
                    &&& cartridge is Ok
                    &&& cartridge->Ok_0@ == CartridgeState::fresh(rom@)
                    &&& cartridge->Ok_0@.wf()
                    &&& vstd::utf8::valid_utf8(title_bytes(rom@)) ==> cartridge->Ok_0@.title
                        == vstd::utf8::decode_utf8(title_bytes(rom@))
                },
            },
    {
        if rom.is_empty() {
            return Err(GbError::EmptyRom);
        }
        if rom.len() < 0x8000 || rom.len() % ROM_BANK_SIZE != 0 {
            return Err(GbError::InvalidRomLength(rom.len()));
        }
        let code: u8 = rom[HEADER_TYPE];
        let kind: CartridgeType = match CartridgeType::from_header(code) {
            Ok(kind) => kind,
            Err(error) => return Err(error),
        };
        let title: String = parse_title(rom.as_slice());
        let rom_size: CartridgeRomSize = match CartridgeRomSize::from_header(rom[HEADER_ROM_SIZE]) {
            Some(size) => size,
            None => return Err(GbError::UnsupportedRomSize(rom[HEADER_ROM_SIZE])),
        };
        let ram_size: CartridgeRamSize = match CartridgeRamSize::from_header(rom[HEADER_RAM_SIZE]) {
            Some(size) => size,
            None => return Err(GbError::UnsupportedRamSize(rom[HEADER_RAM_SIZE])),
        };
        if rom_size.bytes() != rom.len() {
            return Err(
                GbError::RomSizeMismatch { header_size: rom_size.bytes(), actual_size: rom.len() },
            );
        }
        if kind.has_external_ram() && matches!(ram_size, CartridgeRamSize::NoRam) {
            return Err(GbError::MissingRamForCartridge(code));
        }
        if !kind.has_external_ram() && !matches!(kind, CartridgeType::Mbc2 { .. }) && !matches!(
            ram_size,
            CartridgeRamSize::NoRam
        ) {
            return Err(
                GbError::UnexpectedRamSize { cartridge_type: code, ram_size: rom[HEADER_RAM_SIZE] },
            );
        }
        let mapper: Mapper = mapper_at_power_on(kind);
        let ram_len: usize = match kind {
            CartridgeType::Mbc2 { .. } => 512,
            _ => ram_size.bytes(),
        };
        Ok(
            Cartridge {
                rom,
                ram: fill_bytes(ram_len, 0),
                title,
                cartridge_type_code: code,
                kind,
                ram_size,
                mapper,
                rom_offsets: (0, ROM_BANK_SIZE),
                ram_offset: 0,
                rtc: match kind {
                    CartridgeType::Mbc3 { rtc: true, .. } => Some(Mbc3Rtc::default()),
                    _ => None,
                },
            },
        )
    }

    pub fn reset(&mut self)
        requires
            old(self)@.wf(),
        ensures
            final(self)@ == old(self)@.after_reset(),
            final(self)@.wf(),
    {
        self.mapper = mapper_at_power_on(self.kind);
        self.rom_offsets = (0, ROM_BANK_SIZE);
        self.ram_offset = 0;
    }

    pub fn rom_data(&self) -> (bytes: &[u8])
        ensures
            bytes@ == self@.rom,
    {
        self.rom.as_slice()
    }

    pub fn title(&self) -> (title: &str)
        ensures
            title@ == self@.title,
    {
        self.title.as_str()
    }

    pub fn cartridge_type_code(&self) -> (code: u8)
        ensures
            code == self@.cartridge_type_code,
    {
        self.cartridge_type_code
    }

    pub fn has_battery(&self) -> (battery: bool)
        ensures
            battery == self@.kind.battery_backed(),
    {
        self.kind.has_battery()
    }

    pub fn has_rtc(&self) -> (rtc: bool)
        ensures
            rtc == self@.kind.has_clock(),
    {
        matches!(self.kind, CartridgeType::Mbc3 { rtc: true, .. })
    }

    pub fn ram_data(&self) -> (bytes: &[u8])
        ensures
            bytes@ == self@.ram,
    {
        self.ram.as_slice()
    }

    /// Replaces the RAM, by as many bytes as it has.
    pub fn load_ram_data(&mut self, bytes: &[u8]) -> (result: Result<(), GbError>)
        requires
            old(self)@.wf(),
        ensures
            final(self)@.wf(),
            bytes@.len() == old(self)@.ram.len() ==> {
                &&& result is Ok
                &&& final(self)@ == (CartridgeState { ram: bytes@, ..old(self)@ })
            },
            bytes@.len() != old(self)@.ram.len() ==> {
                &&& result == Err::<(), GbError>(
                    GbError::PersistentStateRamSizeMismatch {
                        expected: old(self)@.ram.len() as usize,
                        actual: bytes@.len() as usize,
                    },
                )
                &&& final(self)@ == old(self)@
            },
    {
        if bytes.len() != self.ram.len() {
            return Err(
                GbError::PersistentStateRamSizeMismatch {
                    expected: self.ram.len(),
                    actual: bytes.len(),
                },
            );
        }
        self.ram = vstd::slice::slice_to_vec(bytes);
        Ok(())
    }

    /// What of the cartridge outlives the machine.
    pub fn save_persistent_state(&self) -> (state: PersistentState)
        requires
            self@.wf(),
        ensures
            saved_cartridge(state, self@),
    {
        PersistentState {
            rom_signature: vstd::slice::slice_to_vec(self.rom_signature()),
            ram: copy_bytes(&self.ram),
            rtc: self.rtc,
        }
    }

    /// Takes over a saved state, if it is one of this cartridge.
    pub fn load_persistent_state(&mut self, state: &PersistentState) -> (result: Result<
        (),
        GbError,
    >)
        requires
            old(self)@.wf(),
            state.sound(),
        ensures
            final(self)@.wf(),
            match persistent_fault(old(self)@, *state) {
                Some(fault) => result == Err::<(), GbError>(fault) && final(self)@ == old(self)@,
                None => result is Ok && final(self)@ == (CartridgeState {
                    ram: state.ram@,
                    rtc: state.rtc,
                    ..old(self)@
                }),
            },
    {
        if !same_bytes(state.rom_signature.as_slice(), self.rom_signature()) {
            return Err(GbError::PersistentStateCartridgeMismatch);
        }
        if state.ram.len() != self.ram.len() {
            return Err(
                GbError::PersistentStateRamSizeMismatch {
                    expected: self.ram.len(),
                    actual: state.ram.len(),
                },
            );
        }
        if state.rtc.is_some() != self.rtc.is_some() {
            return Err(GbError::PersistentStateRtcMismatch);
        }
        self.ram = copy_bytes(&state.ram);
        self.rtc = state.rtc;
        Ok(())
    }

    pub fn read_lower_rom(&self, addr: u16) -> (byte: u8)
        requires
            self@.wf(),
        ensures
            byte == self@.lower_rom_byte(addr),
    {
        self.rom[(self.rom_offsets.0 + ((addr % 0x4000) as usize)) % self.rom.len()]
    }

    pub fn read_upper_rom(&self, addr: u16) -> (byte: u8)
        requires
            self@.wf(),
        ensures
            byte == self@.upper_rom_byte(addr),
    {
        self.rom[(self.rom_offsets.1 + ((addr % 0x4000) as usize)) % self.rom.len()]
    }

    pub fn read_ram(&self, addr: u16) -> (byte: u8)
        ensures
            byte == self@.external_byte(addr),
    {
        match self.mapper {
            Mapper::Fixed => self.read_ram_bank(addr),
            Mapper::Mbc1(state) => if state.ram_enabled {
                self.read_ram_bank(addr)
            } else {
                0xFF
            },
            Mapper::Mbc2(state) => if state.ram_enabled {
                0xF0 | (self.read_ram_bank(addr) & 0x0F)
            } else {
                0xFF
            },
            Mapper::Mbc3(state) => {
                if !state.ram_rtc_enabled {
                    0xFF
                } else {
                    match &self.rtc {
                        Some(rtc) => match state.map_select {
                            0x00..=0x03 => self.read_ram_bank(addr),
                            0x04..=0x07 => if self.ram_size.extended() {
                                self.read_ram_bank(addr)
                            } else {
                                0xFF
                            },
                            0x08..=0x0C => rtc.latched_value(state.map_select),
                            _ => 0xFF,
                        },
                        None => if state.map_select <= 0x03 {
                            self.read_ram_bank(addr)
                        } else {
                            0xFF
                        },
                    }
                }
            },
            Mapper::Mbc5(state) => if state.ram_enabled {
                self.read_ram_bank(addr)
            } else {
                0xFF
            },
            Mapper::Huc1(state) => if state.mode == 0x00 || state.mode == 0x0A {
                self.read_ram_bank(addr)
            } else {
                0xFF
            },
        }
    }

    pub fn write_ram(&mut self, addr: u16, value: u8)
        requires
            old(self)@.wf(),
        ensures
            final(self)@ == old(self)@.with_external_byte(addr, value),
            final(self)@.wf(),
            final(self)@.same_cartridge(old(self)@),
    {
        match self.mapper {
            Mapper::Fixed => self.write_ram_bank(addr, value),
            Mapper::Mbc1(state) => if state.ram_enabled {
                self.write_ram_bank(addr, value)
            },
            Mapper::Mbc2(state) => if state.ram_enabled {
                self.write_ram_bank(addr, value & 0x0F)
            },
            Mapper::Mbc3(state) => {
                if state.ram_rtc_enabled {
                    match self.rtc {
                        Some(rtc) => match state.map_select {
                            0x00..=0x03 => self.write_ram_bank(addr, value),
                            0x04..=0x07 => if self.ram_size.extended() {
                                self.write_ram_bank(addr, value)
                            },
                            0x08..=0x0C => {
                                let mut rtc: Mbc3Rtc = rtc;
                                rtc.write_live(state.map_select, value);
                                self.rtc = Some(rtc);
                            },
                            _ => {},
                        },
                        None => if state.map_select <= 0x03 {
                            self.write_ram_bank(addr, value)
                        },
                    }
                }
            },
            Mapper::Mbc5(state) => if state.ram_enabled {
                self.write_ram_bank(addr, value)
            },
            Mapper::Huc1(state) => if state.mode == 0x0A {
                self.write_ram_bank(addr, value)
            },
        }
    }

    pub fn write_control(&mut self, addr: u16, value: u8)
        requires
            old(self)@.wf(),
        ensures
            final(self)@ == old(self)@.after_control(addr, value),
            final(self)@.wf(),
            final(self)@.same_cartridge(old(self)@),
    {
        proof {
            lemma_bank_bounds(value, 0, 0);
            lemma_bank_bounds(value & 0x0F, 0, 0);
        }
        match self.mapper {
            Mapper::Fixed => {},
            Mapper::Mbc1(state) => {
                let mut state: Mbc1State = state;
                match addr {
                    0x0000..=0x1FFF => {
                        state.ram_enabled = (value & 0x0F) == 0x0A;
                        self.mapper = Mapper::Mbc1(state);
                    },
                    0x2000..=0x3FFF => {
                        state.bank1 = at_least_one(value & 0x1F);
                        self.recompute_mbc1_offsets(state);
                    },
                    0x4000..=0x5FFF => {
                        state.bank2 = value & 0x03;
                        self.recompute_mbc1_offsets(state);
                    },
                    0x6000..=0x7FFF => {
                        state.mode = value & 0x01 != 0;
                        self.recompute_mbc1_offsets(state);
                    },
                    _ => {},
                }
            },
            Mapper::Mbc2(state) => {
                let mut state: Mbc2State = state;
                match addr {
                    0x0000..=0x3FFF => {
                        if addr & 0x0100 == 0 {
                            state.ram_enabled = (value & 0x0F) == 0x0A;
                        } else {
                            state.rom_bank = at_least_one(value & 0x0F);
                            self.rom_offsets = (0, ROM_BANK_SIZE * (state.rom_bank as usize));
                        }
                        self.mapper = Mapper::Mbc2(state);
                    },
                    _ => {},
                }
            },
            Mapper::Mbc3(state) => {
                let mut state: Mbc3State = state;
                match addr {
                    0x0000..=0x1FFF => {
                        state.ram_rtc_enabled = (value & 0x0F) == 0x0A;
                    },
                    0x2000..=0x3FFF => {
                        state.rom_bank = at_least_one(value & 0x7F);
                        self.rom_offsets = (0, ROM_BANK_SIZE * (state.rom_bank as usize));
                    },
                    0x4000..=0x5FFF => {
                        state.map_select = value & 0x0F;
                        let bank: u8 = if self.ram_size.extended() {
                            state.map_select & 0x07
                        } else {
                            state.map_select & 0x03
                        };
                        self.ram_offset = RAM_BANK_SIZE * (bank as usize);
                    },
                    0x6000..=0x7FFF => {
                        if state.latch_value == 0 && value == 1 {
                            if let Some(rtc) = self.rtc {
                                let mut rtc: Mbc3Rtc = rtc;
                                rtc.latch();
                                self.rtc = Some(rtc);
                            }
                        }
                        state.latch_value = value;
                    },
                    _ => {},
                }
                self.mapper = Mapper::Mbc3(state);
            },
            Mapper::Mbc5(state) => {
                let mut state: Mbc5State = state;
                match addr {
                    0x0000..=0x1FFF => {
                        state.ram_enabled = value == 0x0A;
                        self.mapper = Mapper::Mbc5(state);
                    },
                    0x2000..=0x2FFF => {
                        state.romb0 = value;
                        self.recompute_mbc5_offsets(state);
                    },
                    0x3000..=0x3FFF => {
                        state.romb1 = value & 0x01;
                        self.recompute_mbc5_offsets(state);
                    },
                    0x4000..=0x5FFF => {
                        state.ramb = value & 0x0F;
                        self.mapper = Mapper::Mbc5(state);
                        self.ram_offset = RAM_BANK_SIZE * (state.ramb as usize);
                    },
                    _ => {},
                }
            },
            Mapper::Huc1(state) => {
                let mut state: Huc1State = state;
                match addr {
                    0x0000..=0x1FFF => {
                        state.mode = value & 0x0F;
                        self.mapper = Mapper::Huc1(state);
                    },
                    0x2000..=0x3FFF => {
                        state.rom_bank = value & 0x3F;
                        self.recompute_huc1_offsets(state);
                    },
                    0x4000..=0x5FFF => {
                        state.ram_bank = value & 0x03;
                        self.recompute_huc1_offsets(state);
                    },
                    _ => {},
                }
            },
        }
    }

    pub fn tick(&mut self, cycles: u16)
        requires
            old(self)@.wf(),
        ensures
            final(self)@ == old(self)@.after_cycles(cycles),
            final(self)@.wf(),
            final(self)@.same_cartridge(old(self)@),
    {
        if let Some(rtc) = self.rtc {
            let mut rtc: Mbc3Rtc = rtc;
            rtc.tick(cycles);
            self.rtc = Some(rtc);
        }
    }

    fn read_ram_bank(&self, addr: u16) -> (byte: u8)
        ensures
            byte == self@.ram_byte(addr),
    {
        if self.ram.is_empty() {
            return 0xFF;
        }
        proof {
            lemma_masked_index(self.ram_offset, addr, self.ram.len());
        }
        let index: usize = (self.ram_offset | ((addr % 0x2000) as usize)) & (self.ram.len() - 1);
        self.ram[index]
    }

    fn write_ram_bank(&mut self, addr: u16, value: u8)
        ensures
            final(self)@ == old(self)@.with_ram_byte(addr, value),
            final(self)@.ram.len() == old(self)@.ram.len(),
    {
        if self.ram.is_empty() {
            return;
        }
        proof {
            lemma_masked_index(self.ram_offset, addr, self.ram.len());
        }
        let index: usize = (self.ram_offset | ((addr % 0x2000) as usize)) & (self.ram.len() - 1);
        self.ram[index] = value;
    }

    fn recompute_mbc1_offsets(&mut self, state: Mbc1State)
        requires
            old(self)@.wf(),
        ensures
            final(self)@ == old(self)@.with_mbc1(state),
            final(self)@.wf(),
    {
        let (upper_bits, lower_bits): (u8, u8) = match self.kind {
            CartridgeType::Mbc1 { multicart: true, .. } => (state.bank2 << 4, state.bank1 & 0x0F),
            _ => (state.bank2 << 5, state.bank1),
        };
        let lower_bank: usize = if state.mode {
            upper_bits as usize
        } else {
            0
        };
        let upper_bank: usize = (upper_bits | lower_bits) as usize;
        self.mapper = Mapper::Mbc1(state);
        self.rom_offsets = (ROM_BANK_SIZE * lower_bank, ROM_BANK_SIZE * upper_bank);
        self.ram_offset =
        if state.mode {
            RAM_BANK_SIZE * (state.bank2 as usize)
        } else {
            0
        };
    }

    fn recompute_mbc5_offsets(&mut self, state: Mbc5State)
        requires
            old(self)@.wf(),
        ensures
            final(self)@ == old(self)@.with_mbc5_rom(state),
            final(self)@.wf(),
    {
        proof {
            lemma_bank_bounds(0, state.romb0 as u16, state.romb1 as u16);
        }
        let bank: u16 = (state.romb0 as u16) | ((state.romb1 as u16) << 8);
        self.mapper = Mapper::Mbc5(state);
        self.rom_offsets = (0, ROM_BANK_SIZE * (bank as usize));
    }

    fn recompute_huc1_offsets(&mut self, state: Huc1State)
        requires
            old(self)@.wf(),
        ensures
            final(self)@ == old(self)@.with_huc1(state),
            final(self)@.wf(),
    {
        proof {
            lemma_bank_bounds(state.rom_bank, 0, 0);
            lemma_bank_bounds(state.ram_bank, 0, 0);
        }
        self.mapper = Mapper::Huc1(state);
        self.rom_offsets = (0, ROM_BANK_SIZE * ((state.rom_bank & 0x3F) as usize));
        self.ram_offset = RAM_BANK_SIZE * ((state.ram_bank & 0x03) as usize);
    }

    fn rom_signature(&self) -> (bytes: &[u8])
        requires
            self@.wf(),
        ensures
            bytes@ == self@.signature(),
    {
        vstd::slice::slice_subrange(self.rom.as_slice(), 0x100, 0x150)
    }
}

fn at_least_one(bank: u8) -> (result: u8)
    ensures
        result == nonzero_bank(bank),
{
    if bank == 0 {
        1
    } else {
        bank
    }
}

/// Why a saved state does not fit a cartridge, if it does not: the first reason, in this order.
pub open spec fn persistent_fault(cartridge: CartridgeState, state: PersistentState) -> Option<
    GbError,
> {
    if state.rom_signature@ != cartridge.signature() {
        Some(GbError::PersistentStateCartridgeMismatch)
    } else if state.ram@.len() != cartridge.ram.len() {
        Some(
            GbError::PersistentStateRamSizeMismatch {
                expected: cartridge.ram.len() as usize,
                actual: state.ram@.len() as usize,
            },
        )
    } else if state.rtc is Some != cartridge.rtc is Some {
        Some(GbError::PersistentStateRtcMismatch)
    } else {
        None
    }
}

/// Whether saved cartridge state holds what a cartridge holds.
pub open spec fn saved_cartridge(state: PersistentState, cartridge: CartridgeState) -> bool {
    &&& state.rom_signature@ == cartridge.signature()
    &&& state.ram@ == cartridge.ram
    &&& state.rtc == cartridge.rtc
}

} // verus!
