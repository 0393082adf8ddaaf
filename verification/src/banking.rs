//! Cartridges: which bytes of ROM and RAM the processor sees after it has written to the bank
//! controller.

use vstd::prelude::*;

use crate::boot::{machine_fault, new_machine};
use crate::cartridge::{
    header_fault, header_kind, persistent_fault, saved_cartridge, CartridgeState, Mapper,
    PersistentState,
};
use crate::machine::MachineState;
use crate::model::{GbError, GbModel};

verus! {

/// The bits of bank numbers, and of the addresses that select them.
proof fn lemma_bank_numbers(value: u8, upper: u8, lower: u8, low: u16, high: u16, address: u16)
    requires
        upper < 4,
        lower < 32,
        low < 256,
        high < 2,
    ensures
        value & 0x1F == value % 32,
        value & 0x0F == value % 16,
        0xF0 | (value & 0x0F) == 0xF0 + value % 16,
        value & 0x03 == value % 4,
        value & 0x3F == value % 64,
        value & 0x7F == value % 128,
        value & 0x07 == value % 8,
        (value & 0x0F) & 0x07 == value % 8,
        (value & 0x0F) & 0x03 == value % 4,
        value & 0x01 == value % 2,
        value & 0xC1 == value as int / 64 * 64 + value % 2,
        upper << 5 == 32 * upper,
        upper << 4 == 16 * upper,
        (upper << 5) | lower == 32 * upper + lower,
        (upper << 4) | (lower & 0x0F) == 16 * upper + lower % 16,
        low | (high << 8) == low + 256 * high,
        address & 0x0100 == 0 <==> address as int / 256 % 2 == 0,
{
    assert((value & 0x1F == value % 32) && (value & 0x0F == value % 16) && (0xF0 | (value & 0x0F)
        == 0xF0 + value % 16) && (value & 0x03 == value % 4) && (value & 0x3F == value % 64) && (value & 0x7F == value % 128) && (value & 0x07
        == value % 8) && ((value & 0x0F) & 0x07 == value % 8) && ((value & 0x0F) & 0x03 == value
        % 4) && (value & 0x01 == value % 2) && (value & 0xC1 == (value / 64) * 64 + value % 2) && (
    upper << 5 == 32 * upper) && (upper << 4 == 16 * upper) && ((upper << 5) | lower == 32 * upper
        + lower) && ((upper << 4) | (lower & 0x0F) == 16 * upper + lower % 16) && (low | (high << 8)
        == low + 256 * high) && (address & 0x0100 == 0 <==> (address / 256) % 2 == 0))
        by (bit_vector)
        requires
            upper < 4,
            lower < 32,
            low < 256,
            high < 2,
    ;
}

/// A place in external RAM, of any of its sizes.
proof fn lemma_ram_place(offset: usize, index: usize, place: usize, mask: usize)
    requires
        offset % 0x2000 == 0,
        offset <= 0x1E000,
        index < 0x2000,
        place == offset + index,
        mask == 0x1FF || mask == 0x7FF || mask == 0x1FFF || mask == 0x7FFF || mask == 0xFFFF || mask
            == 0x1FFFF,
    ensures
        (offset | index) & mask == place as int % (mask + 1),
{
    assert((mask == 0x1FF ==> (offset | index) & mask == place % 0x200) && (mask == 0x7FF ==> (
    offset | index) & mask == place % 0x800) && (mask == 0x1FFF ==> (offset | index) & mask == place
        % 0x2000) && (mask == 0x7FFF ==> (offset | index) & mask == place % 0x8000) && (mask
        == 0xFFFF ==> (offset | index) & mask == place % 0x10000) && (mask == 0x1FFFF ==> (offset
        | index) & mask == place % 0x20000)) by (bit_vector)
        requires
            offset % 0x2000 == 0,
            offset <= 0x1E000,
            index < 0x2000,
            place == offset + index,
    ;
}

impl CartridgeState {
    /// The byte of a ROM bank; numbers past the last bank start again from the first.
    pub open spec fn bank_byte(self, bank: int, index: int) -> u8 {
        self.rom[(0x4000 * bank + index) % (self.rom.len() as int)]
    }

    /// The byte of a RAM bank, in the same way.
    pub open spec fn ram_bank_byte(self, bank: int, index: int) -> u8 {
        self.ram[(0x2000 * bank + index) % (self.ram.len() as int)]
    }

    /// External RAM of one of its sizes.
    pub open spec fn has_ram(self) -> bool {
        let len = self.ram.len();
        len == 0x200 || len == 0x800 || len == 0x2000 || len == 0x8000 || len == 0x10000 || len
            == 0x20000
    }

    /// The ROM banks at 0x0000 and at 0x4000.
    pub open spec fn maps(self, lower: int, upper: int) -> bool {
        forall|index: int|
            0 <= index < 0x4000 ==> {
                &&& #[trigger] self.lower_rom_byte(index as u16) == self.bank_byte(lower, index)
                &&& self.upper_rom_byte((0x4000 + index) as u16) == self.bank_byte(upper, index)
            }
    }
}

/// A bank number that cannot be 0 is 1 instead.
pub open spec fn at_least_1(bank: int) -> int {
    if bank == 0 {
        1
    } else {
        bank
    }
}

proof fn lemma_maps(cartridge: CartridgeState, lower: int, upper: int)
    requires
        cartridge.rom.len() > 0,
        cartridge.rom_offsets.0 == 0x4000 * lower,
        cartridge.rom_offsets.1 == 0x4000 * upper,
    ensures
        cartridge.maps(lower, upper),
{
    assert forall|index: int| 0 <= index < 0x4000 implies {
        &&& #[trigger] cartridge.lower_rom_byte(index as u16) == cartridge.bank_byte(lower, index)
        &&& cartridge.upper_rom_byte((0x4000 + index) as u16) == cartridge.bank_byte(upper, index)
    } by {
        assert((0x4000 + index) as u16 % 0x4000 == index);
        assert(index as u16 % 0x4000 == index);
    }
}

/// The first bytes of a ROM bank that is there are those of the image at 16 KiB times its number.
pub proof fn law_bank_is_a_part_of_the_image(cartridge: CartridgeState, bank: int, index: int)
    requires
        0 <= bank,
        0 <= index < 0x4000,
        0x4000 * bank + index < cartridge.rom.len(),
    ensures
        cartridge.bank_byte(bank, index) == cartridge.rom[0x4000 * bank + index],
{
    vstd::arithmetic::div_mod::lemma_small_mod(
        (0x4000 * bank + index) as nat,
        cartridge.rom.len(),
    );
}

/// After power on and after a reset, banks 0 and 1 are mapped.
pub proof fn law_first_banks_are_mapped_at_first(cartridge: CartridgeState, rom: Seq<u8>)
    requires
        cartridge.rom.len() > 0,
        rom.len() > 0,
    ensures
        cartridge.after_reset().maps(0, 1),
        CartridgeState::fresh(rom).maps(0, 1),
{
    lemma_maps(cartridge.after_reset(), 0, 1);
    lemma_maps(CartridgeState::fresh(rom), 0, 1);
}

/// Without a bank controller nothing that is written moves a bank.
pub proof fn law_fixed_cartridge_keeps_its_banks(
    cartridge: CartridgeState,
    address: u16,
    value: u8,
)
    requires
        cartridge.mapper is Fixed,
    ensures
        cartridge.after_control(address, value) == cartridge,
{
}

/// An MBC1 takes the low five bits of its bank at 0x2000, never 0, and two more at 0x4000; a
/// cartridge with several games has four low bits. In its second mode the two bits move the lower
/// bank too, and the RAM bank.
pub proof fn law_mbc1_banks(cartridge: CartridgeState, address: u16, value: u8)
    requires
        cartridge.rom.len() > 0,
        address <= 0x7FFF,
        cartridge.mapper matches Mapper::Mbc1(state) && state.bank1 < 32 && state.bank2 < 4,
        cartridge.kind is Mbc1,
    ensures
        cartridge.mapper matches Mapper::Mbc1(state) && {
            let after = cartridge.after_control(address, value);
            let bank1 = if 0x2000 <= address <= 0x3FFF {
                at_least_1(value as int % 32)
            } else {
                state.bank1 as int
            };
            let bank2 = if 0x4000 <= address <= 0x5FFF {
                value as int % 4
            } else {
                state.bank2 as int
            };
            let mode = if address >= 0x6000 {
                value % 2 == 1
            } else {
                state.mode
            };
            let multicart = cartridge.kind->Mbc1_multicart;
            let upper: int = if multicart {
                16 * bank2
            } else {
                32 * bank2
            };
            let lower = if multicart {
                bank1 % 16
            } else {
                bank1
            };
            &&& after.mapper matches Mapper::Mbc1(next) && next.bank1 == bank1 && next.bank2 == bank2
                && next.mode == mode && next.ram_enabled == (if address <= 0x1FFF {
                value % 16 == 0x0A
            } else {
                state.ram_enabled
            })
            &&& address >= 0x2000 ==> after.maps(
                if mode {
                    upper
                } else {
                    0
                },
                upper + lower,
            )
            &&& address >= 0x2000 ==> after.ram_offset == (if mode {
                0x2000 * bank2
            } else {
                0
            })
            &&& address < 0x2000 ==> after.rom_offsets == cartridge.rom_offsets
            &&& after.ram == cartridge.ram
        },
{
    let after = cartridge.after_control(address, value);
    let next = match after.mapper {
        Mapper::Mbc1(state) => state,
        _ => arbitrary(),
    };
    lemma_bank_numbers(value, 0, 0, 0, 0, 0);
    lemma_bank_numbers(value, next.bank2, next.bank1, 0, 0, 0);
    let bank2 = next.bank2 as int;
    let multicart = cartridge.kind->Mbc1_multicart;
    let upper: int = if multicart {
        16 * bank2
    } else {
        32 * bank2
    };
    let lower = if multicart {
        next.bank1 as int % 16
    } else {
        next.bank1 as int
    };
    if address >= 0x2000 {
        lemma_maps(
            after,
            if next.mode {
                upper
            } else {
                0
            },
            upper + lower,
        );
    }
}

/// An MBC2 takes its four-bit bank, never 0, where bit 8 of the address is set, and switches its RAM
/// where it is not.
pub proof fn law_mbc2_banks(cartridge: CartridgeState, address: u16, value: u8)
    requires
        cartridge.rom.len() > 0,
        address <= 0x3FFF,
        cartridge.mapper is Mbc2,
    ensures
        cartridge.mapper matches Mapper::Mbc2(state) && {
            let after = cartridge.after_control(address, value);
            let selects = address as int / 256 % 2 == 1;
            &&& selects ==> after.maps(0, at_least_1(value as int % 16))
            &&& !selects ==> after.rom_offsets == cartridge.rom_offsets
            &&& after.mapper matches Mapper::Mbc2(next) && next.ram_enabled == (if selects {
                state.ram_enabled
            } else {
                value % 16 == 0x0A
            })
            &&& after.ram == cartridge.ram
        },
{
    lemma_bank_numbers(value, 0, 0, 0, 0, address);
    let after = cartridge.after_control(address, value);
    if address as int / 256 % 2 == 1 {
        lemma_maps(after, 0, at_least_1(value as int % 16));
    }
}

/// An MBC3 takes its seven-bit ROM bank, never 0, at 0x2000, and at 0x4000 a RAM bank of two bits, or
/// three where there is more RAM, or a register of its clock.
pub proof fn law_mbc3_banks(cartridge: CartridgeState, address: u16, value: u8)
    requires
        cartridge.rom.len() > 0,
        address <= 0x5FFF,
        cartridge.mapper is Mbc3,
    ensures
        cartridge.mapper matches Mapper::Mbc3(state) && {
            let after = cartridge.after_control(address, value);
            let more = cartridge.ram_size is Ram64K || cartridge.ram_size is Ram128K;
            &&& 0x2000 <= address <= 0x3FFF ==> after.maps(0, at_least_1(value as int % 128))
            &&& !(0x2000 <= address <= 0x3FFF) ==> after.rom_offsets == cartridge.rom_offsets
            &&& address >= 0x4000 ==> after.ram_offset == 0x2000 * (value as int % (if more {
                8
            } else {
                4
            }))
            &&& after.mapper matches Mapper::Mbc3(next) && next.ram_rtc_enabled == (if address
                <= 0x1FFF {
                value % 16 == 0x0A
            } else {
                state.ram_rtc_enabled
            }) && next.map_select == (if address >= 0x4000 {
                value % 16
            } else {
                state.map_select
            })
            &&& after.ram == cartridge.ram
            &&& after.rtc == cartridge.rtc
        },
{
    lemma_bank_numbers(value, 0, 0, 0, 0, address);
    let after = cartridge.after_control(address, value);
    if 0x2000 <= address <= 0x3FFF {
        lemma_maps(after, 0, at_least_1(value as int % 128));
    }
}

/// An MBC5 takes the low eight bits of its ROM bank at 0x2000 and the ninth at 0x3000, and its RAM
/// bank at 0x4000; bank 0 is a bank like others.
pub proof fn law_mbc5_banks(cartridge: CartridgeState, address: u16, value: u8)
    requires
        cartridge.rom.len() > 0,
        address <= 0x5FFF,
        cartridge.mapper matches Mapper::Mbc5(state) && state.romb1 < 2,
    ensures
        cartridge.mapper matches Mapper::Mbc5(state) && {
            let after = cartridge.after_control(address, value);
            let low = if 0x2000 <= address <= 0x2FFF {
                value as int
            } else {
                state.romb0 as int
            };
            let high = if 0x3000 <= address <= 0x3FFF {
                value as int % 2
            } else {
                state.romb1 as int
            };
            &&& 0x2000 <= address <= 0x3FFF ==> after.maps(0, 256 * high + low)
            &&& !(0x2000 <= address <= 0x3FFF) ==> after.rom_offsets == cartridge.rom_offsets
            &&& address >= 0x4000 ==> after.ram_offset == 0x2000 * (value as int % 16)
            &&& after.mapper matches Mapper::Mbc5(next) && next.romb0 == low && next.romb1 == high
                && next.ram_enabled == (if address <= 0x1FFF {
                value == 0x0A
            } else {
                state.ram_enabled
            })
            &&& after.ram == cartridge.ram
        },
{
    let after = cartridge.after_control(address, value);
    let next = match after.mapper {
        Mapper::Mbc5(state) => state,
        _ => arbitrary(),
    };
    lemma_bank_numbers(value, 0, 0, 0, 0, address);
    lemma_bank_numbers(value, 0, 0, next.romb0 as u16, next.romb1 as u16, address);
    if 0x2000 <= address <= 0x3FFF {
        lemma_maps(after, 0, 256 * next.romb1 + next.romb0);
    }
}

/// A HuC1 takes its six-bit ROM bank at 0x2000 and its RAM bank at 0x4000.
pub proof fn law_huc1_banks(cartridge: CartridgeState, address: u16, value: u8)
    requires
        cartridge.rom.len() > 0,
        address <= 0x5FFF,
        cartridge.mapper matches Mapper::Huc1(state) && state.rom_bank < 64 && state.ram_bank < 4,
    ensures
        cartridge.mapper matches Mapper::Huc1(state) && {
            let after = cartridge.after_control(address, value);
            let rom_bank = if 0x2000 <= address <= 0x3FFF {
                value as int % 64
            } else {
                state.rom_bank as int
            };
            let ram_bank = if address >= 0x4000 {
                value as int % 4
            } else {
                state.ram_bank as int
            };
            &&& address >= 0x2000 ==> after.maps(0, rom_bank) && after.ram_offset == 0x2000
                * ram_bank
            &&& address < 0x2000 ==> after.rom_offsets == cartridge.rom_offsets
            &&& after.mapper matches Mapper::Huc1(next) && next.rom_bank == rom_bank
                && next.ram_bank == ram_bank && next.mode == (if address < 0x2000 {
                value % 16
            } else {
                state.mode
            })
            &&& after.ram == cartridge.ram
        },
{
    let after = cartridge.after_control(address, value);
    let next = match after.mapper {
        Mapper::Huc1(state) => state,
        _ => arbitrary(),
    };
    lemma_bank_numbers(value, 0, 0, 0, 0, address);
    lemma_bank_numbers(next.rom_bank, 0, 0, 0, 0, address);
    lemma_bank_numbers(next.ram_bank, 0, 0, 0, 0, address);
    if address >= 0x2000 {
        lemma_maps(after, 0, next.rom_bank as int);
    }
}

impl CartridgeState {
    /// Whether external RAM answers, to a read and to a write.
    pub open spec fn ram_answers(self, writing: bool) -> bool {
        match self.mapper {
            Mapper::Fixed => true,
            Mapper::Mbc1(state) => state.ram_enabled,
            Mapper::Mbc2(state) => state.ram_enabled,
            Mapper::Mbc3(state) => state.ram_rtc_enabled && (state.map_select <= 3
                || self.rtc is Some && state.map_select <= 7 && (self.ram_size is Ram64K
                || self.ram_size is Ram128K)),
            Mapper::Mbc5(state) => state.ram_enabled,
            Mapper::Huc1(state) => state.mode == 0x0A || state.mode == 0x00 && !writing,
        }
    }

    /// Whether the clock answers in place of external RAM.
    pub open spec fn clock_answers(self) -> bool {
        self.mapper matches Mapper::Mbc3(state) && state.ram_rtc_enabled && self.rtc is Some && 0x08
            <= state.map_select <= 0x0C
    }
}

/// External RAM that answers is read and written at 8 KiB times its bank and the place in it, of an
/// MBC2 only the low four bits of each byte. Where neither it nor a clock answers, reads give 0xFF
/// and writes change nothing.
pub proof fn law_external_ram(cartridge: CartridgeState, bank: int, index: int, value: u8)
    requires
        cartridge.has_ram(),
        0 <= bank < 16,
        cartridge.ram_offset == 0x2000 * bank,
        0 <= index < 0x2000,
    ensures
        ({
            let address = (0xA000 + index) as u16;
            let place = (0x2000 * bank + index) % (cartridge.ram.len() as int);
            let read = cartridge.external_byte(address);
            let written = cartridge.with_external_byte(address, value);
            let half = cartridge.mapper is Mbc2;
            &&& cartridge.ram_answers(false) ==> read == (if half {
                0xF0 + cartridge.ram[place] % 16
            } else {
                cartridge.ram[place] as int
            })
            &&& cartridge.ram_answers(true) ==> written == (CartridgeState {
                ram: cartridge.ram.update(
                    place,
                    if half {
                        value % 16
                    } else {
                        value
                    },
                ),
                ..cartridge
            })
            &&& !cartridge.ram_answers(false) && !cartridge.clock_answers() ==> read == 0xFF
            &&& !cartridge.ram_answers(true) && !cartridge.clock_answers() ==> written == cartridge
        }),
{
    let address = (0xA000 + index) as u16;
    assert(address % 0x2000 == index);
    lemma_ram_place(
        (0x2000 * bank) as usize,
        index as usize,
        (0x2000 * bank + index) as usize,
        (cartridge.ram.len() - 1) as usize,
    );
    let place = cartridge.ram_index(address);
    lemma_bank_numbers(cartridge.ram[place], 0, 0, 0, 0, 0);
    lemma_bank_numbers(value, 0, 0, 0, 0, 0);
}

/// Where the clock answers, a read gives the latched register that is selected: seconds, minutes,
/// hours, and the two of the day; a write sets the running one, within its range.
pub proof fn law_clock_registers(cartridge: CartridgeState, address: u16, value: u8)
    requires
        cartridge.clock_answers(),
    ensures
        ({
            let clock = cartridge.rtc->0;
            let select = cartridge.mapper->Mbc3_0.map_select;
            let read = cartridge.external_byte(address);
            let live = cartridge.with_external_byte(address, value).rtc->0.live;
            &&& select == 0x08 ==> read == clock.latched.seconds && live.seconds == value % 60
            &&& select == 0x09 ==> read == clock.latched.minutes && live.minutes == value % 60
            &&& select == 0x0A ==> read == clock.latched.hours && live.hours == value % 24
            &&& select == 0x0B ==> read == clock.latched.day_low && live.day_low == value
            &&& select == 0x0C ==> read == clock.latched.day_high && live.day_high == value as int
                / 64 * 64 + value % 2
            &&& select != 0x08 ==> live.seconds == clock.live.seconds
            &&& select != 0x09 ==> live.minutes == clock.live.minutes
            &&& select != 0x0A ==> live.hours == clock.live.hours
            &&& select != 0x0B ==> live.day_low == clock.live.day_low
            &&& select != 0x0C ==> live.day_high == clock.live.day_high
            &&& cartridge.with_external_byte(address, value).rtc->0.latched == clock.latched
        }),
{
    lemma_bank_numbers(value, 0, 0, 0, 0, 0);
}

/// Writing 0 and then 1 at 0x6000 copies the running clock into the registers that are read; no
/// other second value does.
pub proof fn law_clock_is_latched(cartridge: CartridgeState, first: u16, second: u16, value: u8)
    requires
        cartridge.mapper is Mbc3,
        cartridge.rtc is Some,
        0x6000 <= first <= 0x7FFF,
        0x6000 <= second <= 0x7FFF,
    ensures
        ({
            let armed = cartridge.after_control(first, 0);
            let after = armed.after_control(second, value);
            &&& armed.rtc == cartridge.rtc
            &&& value == 1 ==> after.rtc->0.latched == cartridge.rtc->0.live
            &&& value != 1 ==> after.rtc == cartridge.rtc
            &&& after.rtc->0.live == cartridge.rtc->0.live
            &&& after.ram == cartridge.ram
        }),
{
}

impl MachineState {
    /// No copy keeps the processor off the cartridge.
    pub open spec fn reaches_cartridge(self) -> bool {
        !self.dma_active || 0x8000 <= self.dma_source <= 0x9FFF
    }
}

/// The processor sees the mapped ROM banks at 0x0000 and 0x4000, below 0x0100 only once the boot ROM
/// is gone, and external RAM at 0xA000; its writes below 0x8000 go to the bank controller.
pub proof fn law_processor_sees_the_cartridge(
    machine: MachineState,
    lower: int,
    upper: int,
    address: u16,
    value: u8,
)
    requires
        machine.cartridge.maps(lower, upper),
        machine.reaches_cartridge(),
    ensures
        address <= 0x3FFF && (address >= 0x100 || !machine.bootrom_active) ==> machine.read8(address)
            == machine.cartridge.bank_byte(lower, address as int),
        0x4000 <= address <= 0x7FFF ==> machine.read8(address) == machine.cartridge.bank_byte(
            upper,
            address - 0x4000,
        ),
        0xA000 <= address <= 0xBFFF ==> machine.read8(address)
            == machine.cartridge.external_byte(address),
        address <= 0x7FFF ==> machine.write8(address, value).cartridge
            == machine.cartridge.after_control(address, value),
        0xA000 <= address <= 0xBFFF ==> machine.write8(address, value).cartridge
            == machine.cartridge.with_external_byte(address, value),
{
    reveal(MachineState::read8);
    reveal(MachineState::peek8);
    reveal(MachineState::write8);
    reveal(MachineState::record_watchpoint);
    reveal(MachineState::store8);
    if address <= 0x3FFF {
        assert(machine.cartridge.lower_rom_byte(address) == machine.cartridge.bank_byte(
            lower,
            address as int,
        ));
    } else if address <= 0x7FFF {
        let index = address - 0x4000;
        assert(machine.cartridge.lower_rom_byte(index as u16) == machine.cartridge.bank_byte(
            lower,
            index,
        ));
        assert((0x4000 + index) as u16 == address);
    }
}

/// The ROM sizes that a header byte declares, in banks.
pub open spec fn declared_banks(code: u8) -> int {
    if code <= 8 {
        seq![2int, 4, 8, 16, 32, 64, 128, 256, 512][code as int]
    } else if code == 0x52 {
        72
    } else if code == 0x53 {
        80
    } else if code == 0x54 {
        96
    } else {
        0
    }
}

/// Whether a type code is that of a cartridge with external RAM in its header's size.
pub open spec fn type_with_ram(code: u8) -> bool {
    seq![0x02u8, 0x03, 0x08, 0x09, 0x10, 0x12, 0x13, 0x1A, 0x1B, 0x1D, 0x1E, 0xFF].contains(code)
}

/// Whether a type code is that of a cartridge without RAM.
pub open spec fn type_without_ram(code: u8) -> bool {
    seq![0x00u8, 0x01, 0x0F, 0x11, 0x19, 0x1C].contains(code)
}

proof fn lemma_types(code: u8)
    ensures
        type_with_ram(code) <==> header_kind(code) is Some && header_kind(code)->0.needs_ram(),
        type_without_ram(code) <==> header_kind(code) is Some && !header_kind(code)->0.needs_ram()
            && !(header_kind(code)->0 is Mbc2),
{
    let with = seq![0x02u8, 0x03, 0x08, 0x09, 0x10, 0x12, 0x13, 0x1A, 0x1B, 0x1D, 0x1E, 0xFF];
    assert(with[0] == 0x02 && with[1] == 0x03 && with[2] == 0x08 && with[3] == 0x09 && with[4]
        == 0x10 && with[5] == 0x12 && with[6] == 0x13 && with[7] == 0x1A && with[8] == 0x1B
        && with[9] == 0x1D && with[10] == 0x1E && with[11] == 0xFF);
    let without = seq![0x00u8, 0x01, 0x0F, 0x11, 0x19, 0x1C];
    assert(without[0] == 0x00 && without[1] == 0x01 && without[2] == 0x0F && without[3] == 0x11
        && without[4] == 0x19 && without[5] == 0x1C);
}

/// An image is accepted exactly where its header's type, ROM size and RAM size are known, the ROM size
/// is that of the image, and RAM is declared where the type has it and nowhere else; an MBC2, which
/// has its own, may declare any.
pub proof fn law_header_decides(rom: Seq<u8>)
    ensures
        header_fault(rom) is None <==> {
            let code = rom[0x147];
            &&& rom.len() > 0
            &&& rom.len() == 0x4000 * declared_banks(rom[0x148])
            &&& rom[0x149] <= 5
            &&& type_with_ram(code) && rom[0x149] != 0 || type_without_ram(code) && rom[0x149] == 0
                || code == 0x05 || code == 0x06
        },
{
    vstd::arithmetic::power2::lemma2_to64();
    lemma_types(rom[0x147]);
}

/// What a cartridge is by its header: its bank controller, its RAM, its battery and its clock.
pub proof fn law_header_describes_the_cartridge(rom: Seq<u8>)
    requires
        header_fault(rom) is None,
    ensures
        ({
            let code = rom[0x147];
            let cartridge = CartridgeState::fresh(rom);
            &&& cartridge.mapper is Fixed <==> code == 0x00 || code == 0x08 || code == 0x09
            &&& cartridge.mapper is Mbc1 <==> 0x01 <= code <= 0x03
            &&& cartridge.mapper is Mbc2 <==> code == 0x05 || code == 0x06
            &&& cartridge.mapper is Mbc3 <==> 0x0F <= code <= 0x13
            &&& cartridge.mapper is Mbc5 <==> 0x19 <= code <= 0x1E
            &&& cartridge.mapper is Huc1 <==> code == 0xFF
            &&& cartridge.rtc is Some <==> code == 0x0F || code == 0x10
            &&& cartridge.kind.battery_backed() <==> code == 0x03 || code == 0x06 || code == 0x09
                || code == 0x0F || code == 0x10 || code == 0x13 || code == 0x1B || code == 0x1E
                || code == 0xFF
            &&& cartridge.ram.len() == (if code == 0x05 || code == 0x06 {
                512
            } else {
                1024 * seq![0int, 2, 8, 32, 128, 64][rom[0x149] as int]
            })
            &&& forall|i: int| 0 <= i < cartridge.ram.len() ==> #[trigger] cartridge.ram[i] == 0
            &&& !cartridge.ram_answers(true) <==> !(cartridge.mapper is Fixed)
            &&& cartridge.cartridge_type_code == code
            &&& cartridge.rom == rom
        }),
{
}

/// Saved cartridge state is refused by a cartridge whose header differs in any byte from 0x0100 to
/// 0x014F, by one with other RAM, and by one that has a clock where the other had none; by no other.
pub proof fn law_saved_state_fits_its_cartridge(
    saved: CartridgeState,
    state: PersistentState,
    cartridge: CartridgeState,
)
    requires
        saved_cartridge(state, saved),
        saved.rom.len() >= 0x8000,
        cartridge.rom.len() >= 0x8000,
    ensures
        ({
            let same_header = forall|i: int|
                0x100 <= i < 0x150 ==> #[trigger] saved.rom[i] == cartridge.rom[i];
            let fault = persistent_fault(cartridge, state);
            &&& state.ram@ == saved.ram
            &&& state.rtc == saved.rtc
            &&& !same_header ==> fault == Some(GbError::PersistentStateCartridgeMismatch)
            &&& same_header && saved.ram.len() != cartridge.ram.len() ==> (
            fault matches Some(GbError::PersistentStateRamSizeMismatch { expected, actual })
                && expected == cartridge.ram.len() as usize && actual == saved.ram.len() as usize)
            &&& same_header && saved.ram.len() == cartridge.ram.len() && saved.rtc is Some
                != cartridge.rtc is Some ==> fault == Some(GbError::PersistentStateRtcMismatch)
            &&& same_header && saved.ram.len() == cartridge.ram.len() && saved.rtc is Some
                == cartridge.rtc is Some ==> fault is None
        }),
{
    let first = saved.signature();
    let second = cartridge.signature();
    assert(first.len() == 0x50 && second.len() == 0x50);
    if forall|i: int| 0x100 <= i < 0x150 ==> #[trigger] saved.rom[i] == cartridge.rom[i] {
        assert(first =~= second) by {
            assert forall|k: int| 0 <= k < 0x50 implies first[k] == second[k] by {
                assert(saved.rom[0x100 + k] == cartridge.rom[0x100 + k]);
            }
        }
    } else {
        let i = choose|i: int| 0x100 <= i < 0x150 && #[trigger] saved.rom[i] != cartridge.rom[i];
        assert(first[i - 0x100] != second[i - 0x100]);
    }
}

/// A machine with a boot ROM of its own reads it below 0x0100 at first, and the cartridge from there
/// on; a boot ROM must have 256 bytes.
pub proof fn law_given_boot_rom_is_mapped(
    rom: Seq<u8>,
    model: GbModel,
    bootrom: Seq<u8>,
    address: u16,
)
    requires
        rom.len() > 0,
    ensures
        bootrom.len() != 0x100 ==> machine_fault(rom, Some(bootrom)) is Some,
        bootrom.len() == 0x100 ==> machine_fault(rom, Some(bootrom)) == header_fault(rom),
        ({
            let machine = new_machine(rom, model, Some(bootrom));
            &&& machine.model == model
            &&& bootrom.len() == 0x100 && address < 0x100 ==> machine.read8(address)
                == bootrom[address as int]
            &&& 0x100 <= address <= 0x3FFF ==> machine.read8(address)
                == machine.cartridge.bank_byte(0, address as int)
        }),
{
    let machine = new_machine(rom, model, Some(bootrom));
    law_first_banks_are_mapped_at_first(machine.cartridge, rom);
    law_processor_sees_the_cartridge(machine, 0, 1, address, 0);
    reveal(MachineState::read8);
    reveal(MachineState::peek8);
}

} // verus!
