//! Memory and hardware registers as a program finds them: what it reads back of what it wrote, and
//! what a write sets off.

use vstd::prelude::*;

use crate::bus::corrupted_oam;
use crate::clockwork::{mode_number, timer_period};
use crate::instructions::{lemma_single_bit, place};
use crate::interface::WatchpointKind;
use crate::io::unmapped_io;
use crate::laws::{law_dma_copies_160_bytes, law_held_buttons_pull_their_lines};
use crate::machine::{joypad_lines, ExecState, MachineState, OamCorruptionKind, PpuMode, TimaReloadState};
use crate::model::GbModel;
use crate::registers::{high, low, word};

verus! {

impl MachineState {
    /// The picture unit draws, and has video memory to itself.
    pub open spec fn draws(self) -> bool {
        self.io[0x40] >= 128 && self.ppu_mode == PpuMode::AccessVram
    }

    /// The picture unit searches or draws, and has object memory to itself.
    pub open spec fn uses_objects(self) -> bool {
        self.io[0x40] >= 128 && (self.ppu_mode == PpuMode::AccessVram || self.ppu_mode
            == PpuMode::AccessOam)
    }
}

proof fn lemma_control_bits(lcdc: u8, value: u8)
    ensures
        lcdc & 0x80 != 0 <==> lcdc >= 128,
        value & 0x80 != 0 <==> value >= 128,
        value & 0x01 != 0 <==> value % 2 == 1,
        value & 0x10 == 0 <==> value as int / 16 % 2 == 0,
        value & 0x20 == 0 <==> value as int / 32 % 2 == 0,
        value & 0x30 == value as int / 16 % 4 * 16,
        value & 0x78 == value as int / 8 % 16 * 8,
        value & 0x04 == value as int / 4 % 2 * 4,
        (lcdc & 0x04) | (value & 0x78) == lcdc as int / 4 % 2 * 4 + value as int / 8 % 16 * 8,
        value | 0xE0 == 0xE0 + value % 32,
        value | 0xF8 == 0xF8 + value % 8,
        value | 0x7E == 0x7E + value as int / 128 * 128 + value % 2,
        value | 0x80 == 0x80 + value % 128,
        value | 0x00 == value,
        (value | 0x80) | 0x80 == 0x80 + value % 128,
        ((value & 0x80) | 0x7F) | 0x7F == 0x7F + value as int / 128 * 128,
        ((value & 0x60) | 0x9F) | 0x9F == 0x9F + value as int / 32 % 4 * 32,
        value | 0x3F == 0x3F + value as int / 64 * 64,
        ((value & 0xC0) | 0x07) | 0xBF == 0xBF + value as int / 64 % 2 * 64,
        ((value & 0xC0) | 0x3F) | 0xBF == 0xBF + value as int / 64 % 2 * 64,
{
    assert((lcdc & 0x80 != 0 <==> lcdc >= 128) && (value & 0x80 != 0 <==> value >= 128) && (value
        & 0x01 != 0 <==> value % 2 == 1) && (value & 0x10 == 0 <==> (value / 16) % 2 == 0) && (value
        & 0x20 == 0 <==> (value / 32) % 2 == 0) && (value & 0x30 == ((value / 16) % 4) * 16) && (
    value & 0x78 == ((value / 8) % 16) * 8) && (value & 0x04 == ((value / 4) % 2) * 4) && ((lcdc
        & 0x04) | (value & 0x78) == ((lcdc / 4) % 2) * 4 + ((value / 8) % 16) * 8) && (value | 0xE0
        == 0xE0 + value % 32) && (value | 0xF8 == 0xF8 + value % 8) && (value | 0x7E == 0x7E + (value
        / 128) * 128 + value % 2) && (value | 0x80 == 0x80 + value % 128) && (value | 0x00 == value)
        && ((value | 0x80) | 0x80 == 0x80 + value % 128) && (((value & 0x80) | 0x7F) | 0x7F == 0x7F
        + (value / 128) * 128) && (((value & 0x60) | 0x9F) | 0x9F == 0x9F + ((value / 32) % 4) * 32)
        && (value | 0x3F == 0x3F + (value / 64) * 64) && (((value & 0xC0) | 0x07) | 0xBF == 0xBF + ((
    value / 64) % 2) * 64) && (((value & 0xC0) | 0x3F) | 0xBF == 0xBF + ((value / 64) % 2) * 64))
        by (bit_vector);
}

/// Video memory is read and written while nothing else has it: neither a copy that reads from it nor
/// the picture unit while it draws. Else reads give 0xFF and writes are lost.
pub proof fn law_video_memory(machine: MachineState, address: u16, value: u8)
    requires
        machine.io.len() == 0x80,
        machine.vram.len() == 0x2000,
        0x8000 <= address <= 0x9FFF,
    ensures
        ({
            let taken = machine.draws() || machine.dma_active && 0x8000 <= machine.dma_source
                <= 0x9FFF;
            let after = machine.write8(address, value);
            &&& machine.read8(address) == (if taken {
                0xFF
            } else {
                machine.vram[address - 0x8000]
            })
            &&& after.vram == (if taken {
                machine.vram
            } else {
                machine.vram.update(address - 0x8000, value)
            })
            &&& !taken ==> after.read8(address) == value
        }),
{
    reveal(MachineState::read8);
    reveal(MachineState::peek8);
    reveal(MachineState::write8);
    reveal(MachineState::record_watchpoint);
    reveal(MachineState::store8);
    lemma_control_bits(machine.io[0x40], 0);
}

/// Object memory is read and written while nothing else has it: neither a copy nor the picture unit
/// while it searches or draws. The addresses behind it read as 0xFF.
pub proof fn law_object_memory(machine: MachineState, address: u16, value: u8)
    requires
        machine.io.len() == 0x80,
        machine.oam.len() == 0xA0,
        0xFE00 <= address <= 0xFEFF,
    ensures
        ({
            let taken = machine.uses_objects() || machine.dma_active;
            let after = machine.write8(address, value);
            &&& machine.read8(address) == (if taken || address >= 0xFEA0 {
                0xFF
            } else {
                machine.oam[address - 0xFE00]
            })
            &&& !taken && address < 0xFEA0 ==> after.oam == machine.oam.update(
                address - 0xFE00,
                value,
            ) && after.read8(address) == value
            &&& taken && !(machine.io[0x40] >= 128 && machine.ppu_mode == PpuMode::AccessOam)
                || address >= 0xFEA0 && !taken ==> after.oam == machine.oam
        }),
{
    reveal(MachineState::read8);
    reveal(MachineState::peek8);
    reveal(MachineState::write8);
    reveal(MachineState::record_watchpoint);
    reveal(MachineState::store8);
    lemma_control_bits(machine.io[0x40], 0);
}

/// The byte that a copy takes from an address: of ROM, video memory and external RAM what stands
/// there, and from 0xC000 to the end work RAM, twice.
pub open spec fn copied_byte(machine: MachineState, address: int) -> u8 {
    if address < 0x100 && machine.bootrom_active {
        machine.bootrom->0[address]
    } else if address < 0x4000 {
        machine.cartridge.rom[(machine.cartridge.rom_offsets.0 + address)
            % (machine.cartridge.rom.len() as int)]
    } else if address < 0x8000 {
        machine.cartridge.rom[(machine.cartridge.rom_offsets.1 + address - 0x4000)
            % (machine.cartridge.rom.len() as int)]
    } else if address < 0xA000 {
        machine.vram[address - 0x8000]
    } else if address < 0xC000 {
        machine.cartridge.external_byte(address as u16)
    } else {
        machine.wram[(address - 0xC000) % 0x2000]
    }
}

/// What a write to a register does, and what a read of one gives.
proof fn lemma_register_access(machine: MachineState, address: u16, value: u8)
    requires
        0xFF00 <= address <= 0xFF7F,
    ensures
        machine.write8(address, value) == machine.record_watchpoint(
            WatchpointKind::Write,
            address,
        ).write_io(address, value),
        machine.record_watchpoint(WatchpointKind::Write, address) == (MachineState {
            pending_watchpoint: machine.record_watchpoint(
                WatchpointKind::Write,
                address,
            ).pending_watchpoint,
            ..machine
        }),
        machine.read8(address) == (if unmapped_io(address) {
            0xFF
        } else {
            machine.read_io_value(address)
        }),
{
    reveal(MachineState::write8);
    reveal(MachineState::record_watchpoint);
    reveal(MachineState::store8);
    reveal(MachineState::read8);
    reveal(MachineState::peek8);
}

/// A page written to the copy's register is copied into object memory, byte for byte, within 162
/// machine cycles.
pub proof fn law_page_is_copied(machine: MachineState, page: u8, index: int)
    requires
        machine.wf(),
        0 <= index < 0xA0,
    ensures
        machine.write8(0xFF46, page).dma_cycles(162).oam[index] == copied_byte(
            machine,
            256 * page + index,
        ),
        !machine.write8(0xFF46, page).dma_cycles(162).dma_active,
        machine.write8(0xFF46, page).read8(0xFF46) == page,
{
    lemma_register_access(machine, 0xFF46, page);
    let asked = machine.write8(0xFF46, page);
    let source = (page * 256) as u16;
    lemma_register_access(asked, 0xFF46, page);
    assert(asked.dma_requested_source == Some(source) && asked.io[0x46] == page) by {
        reveal(MachineState::write_io);
    }
    assert(asked == (MachineState {
        io: asked.io,
        dma_requested_source: Some(source),
        pending_watchpoint: asked.pending_watchpoint,
        ..machine
    })) by {
        reveal(MachineState::write_io);
    }
    assert(asked.wf()) by {
        reveal(MachineState::write_io);
    }
    assert(asked.read_io_value(0xFF46) == page) by {
        reveal(MachineState::read_io_value);
        lemma_control_bits(0, page);
    }
    law_dma_copies_160_bytes(asked, source);
    let address = 256 * page + index;
    assert((source + index) % 0x10000 == address);
    lemma_copied_byte(asked, machine, address);
}

proof fn lemma_copied_byte(asked: MachineState, machine: MachineState, address: int)
    requires
        0 <= address < 0x10000,
        machine.bootrom is Some,
        asked.cartridge == machine.cartridge,
        asked.wram == machine.wram,
        asked.vram == machine.vram,
        asked.bootrom == machine.bootrom,
        asked.bootrom_active == machine.bootrom_active,
    ensures
        asked.dma_source_byte(address as u16) == copied_byte(machine, address),
{
    assert(address as u16 % 0x4000 == address % 0x4000);
    assert(address as u16 as int % 0x2000 == address % 0x2000);
}

/// While a copy reads from a bus, the processor reads 0xFF from that bus, and writes nothing; high RAM
/// and the hardware registers stay within reach.
pub proof fn law_copy_takes_the_bus(machine: MachineState, address: u16, value: u8)
    requires
        machine.dma_active,
        !(0x8000 <= machine.dma_source <= 0x9FFF),
        address <= 0x7FFF || 0xA000 <= address <= 0xFDFF,
    ensures
        machine.read8(address) == 0xFF,
        machine.write8(address, value).wram == machine.wram,
        machine.write8(address, value).cartridge == machine.cartridge,
{
    reveal(MachineState::read8);
    reveal(MachineState::peek8);
    reveal(MachineState::write8);
    reveal(MachineState::record_watchpoint);
}

/// Registers that hold what is written: serial data, the timer's modulo, the scroll, comparison,
/// palette and window registers, and those of sound that have no bits of their own.
pub open spec fn plain_register(index: int) -> bool {
    ||| index == 0x01 || index == 0x06 || index == 0x12 || index == 0x17 || index == 0x21 || index
        == 0x22 || index == 0x24 || index == 0x25
    ||| 0x30 <= index <= 0x3F
    ||| index == 0x42 || index == 0x43 || index == 0x45 || index == 0x46 || 0x47 <= index <= 0x4B
}

/// Addresses between the registers where there is nothing.
pub open spec fn no_register(index: int) -> bool {
    ||| index == 0x03 || 0x08 <= index <= 0x0E || index == 0x15 || index == 0x1F
    ||| 0x27 <= index <= 0x29 || 0x4C <= index <= 0x4F || 0x51 <= index <= 0x7F
}

/// Most registers are read back as written; where there is no register, 0xFF is read and nothing is
/// written.
pub proof fn law_registers_read_back(machine: MachineState, index: int, value: u8)
    requires
        machine.io.len() == 0x80,
        0 <= index < 0x80,
    ensures
        ({
            let address = (0xFF00 + index) as u16;
            let after = machine.write8(address, value);
            let read = after.read8(address);
            &&& plain_register(index) ==> read == value
            &&& no_register(index) ==> read == 0xFF && after.io == machine.io
            &&& index == 0x40 ==> read == value
        }),
{
    reveal(MachineState::write_io);
    reveal(MachineState::read_io_value);
    let address = (0xFF00 + index) as u16;
    lemma_register_access(machine, address, value);
    let after = machine.write8(address, value);
    lemma_register_access(after, address, value);
    lemma_control_bits(machine.io[0x40], value);
    lemma_control_bits(machine.io[0x40], after.io[index]);
}

/// Some bits of the interrupt requests, of the timer's and the serial port's control and of the sound
/// registers always read as one, and some sound registers cannot be read.
pub proof fn law_fixed_bits_read_as_ones(machine: MachineState, index: int, value: u8)
    requires
        machine.io.len() == 0x80,
        0 <= index < 0x30,
    ensures
        ({
            let address = (0xFF00 + index) as u16;
            let read = machine.write8(address, value).read8(address);
            &&& index == 0x0F ==> read == 0xE0 + value % 32
            &&& index == 0x07 ==> read == 0xF8 + value % 8
            &&& index == 0x10 ==> read == 0x80 + value % 128
            &&& index == 0x11 || index == 0x16 ==> read == 0x3F + value as int / 64 * 64
            &&& index == 0x1A ==> read == 0x7F + value as int / 128 * 128
            &&& index == 0x1C ==> read == 0x9F + value as int / 32 % 4 * 32
            &&& index == 0x14 || index == 0x19 || index == 0x1E || index == 0x23 ==> read == 0xBF
                + value as int / 64 % 2 * 64
            &&& index == 0x13 || index == 0x18 || index == 0x1B || index == 0x1D || index == 0x20
                ==> read == 0xFF
            &&& index == 0x02 && value != 0x81 ==> read == 0x7E + value as int / 128 * 128 + value
                % 2
        }),
{
    reveal(MachineState::write_io);
    reveal(MachineState::read_io_value);
    let address = (0xFF00 + index) as u16;
    lemma_register_access(machine, address, value);
    let after = machine.write8(address, value);
    lemma_register_access(after, address, value);
    lemma_control_bits(machine.io[0x40], value);
    lemma_control_bits(machine.io[0x40], after.io[index]);
}

/// The timer's counter is read back as written, the line counter and the divider as 0.
pub proof fn law_counters_are_set(machine: MachineState, value: u8)
    requires
        machine.io.len() == 0x80,
    ensures
        machine.tima_reload_state is None ==> machine.write8(0xFF05, value).read8(0xFF05) == value,
        machine.write8(0xFF44, value).read8(0xFF44) == 0,
        machine.write8(0xFF04, value).read8(0xFF04) == 0,
        machine.write8(0xFF04, value).div_counter == 0,
{
    reveal(MachineState::write_io);
    reveal(MachineState::read_io_value);
    lemma_register_access(machine, 0xFF05, value);
    lemma_register_access(machine.write8(0xFF05, value), 0xFF05, value);
    lemma_register_access(machine, 0xFF44, value);
    lemma_register_access(machine.write8(0xFF44, value), 0xFF44, value);
    lemma_register_access(machine, 0xFF04, value);
    lemma_register_access(machine.write8(0xFF04, value), 0xFF04, value);
    lemma_control_bits(0, value);
    lemma_control_bits(0, 0);
}

/// High RAM and the enabled interrupts are read back as written, whatever else goes on.
pub proof fn law_last_page_reads_back(machine: MachineState, address: u16, value: u8)
    requires
        machine.hram.len() == 0x7F,
        0xFF80 <= address,
    ensures
        machine.write8(address, value).read8(address) == value,
        address < 0xFFFF ==> machine.write8(address, value).hram == machine.hram.update(
            address - 0xFF80,
            value,
        ),
        address == 0xFFFF ==> machine.write8(address, value).ie == value,
{
    reveal(MachineState::write8);
    reveal(MachineState::record_watchpoint);
    reveal(MachineState::store8);
    reveal(MachineState::read8);
    reveal(MachineState::peek8);
}

/// The buttons of the selected groups, of which a held one reads as zero: the low four of the mask
/// where bit 4 of the register is clear, the high four where bit 5 is. The selection reads back, and
/// the two highest bits are ones.
pub proof fn law_buttons_are_read(machine: MachineState, value: u8, line: int)
    requires
        machine.io.len() == 0x80,
        0 <= line < 4,
    ensures
        ({
            let after = machine.write8(0xFF00, value);
            let read = after.read8(0xFF00) as int;
            let pressed = machine.joypad.pressed as int;
            &&& read / 64 == 3
            &&& read / 16 % 4 == value as int / 16 % 4
            &&& read / place(line) % 2 == 0 <==> value as int / 16 % 2 == 0 && pressed / place(line)
                % 2 == 1 || value as int / 32 % 2 == 0 && pressed / place(line + 4) % 2 == 1
        }),
{
    let after = machine.write8(0xFF00, value);
    let select: u8 = 0xC0 | (value & 0x30) | 0x0F;
    let pressed = machine.joypad.pressed;
    let lines = joypad_lines(select, pressed);
    lemma_register_access(machine, 0xFF00, value);
    lemma_register_access(after, 0xFF00, value);
    assert(after.io[0x00] == select && after.joypad == machine.joypad) by {
        reveal(MachineState::write_io);
    }
    assert(after.read8(0xFF00) == 0xC0 | (select & 0x30) | lines) by {
        reveal(MachineState::read_io_value);
    }
    law_held_buttons_pull_their_lines(select, pressed, line as u8);
    lemma_single_bit(lines, line as u8);
    lemma_single_bit(pressed, line as u8);
    lemma_single_bit(pressed, (line + 4) as u8);
    lemma_joypad_bits(value, select, lines, after.read8(0xFF00));
    let places = seq![1int, 2, 4, 8, 16, 32, 64, 128];
    assert(places[0] == 1 && places[1] == 2 && places[2] == 4 && places[3] == 8);
    let read = after.read8(0xFF00) as int;
    assert(read / place(line) % 2 == lines as int / place(line) % 2);
}

proof fn lemma_joypad_bits(value: u8, select: u8, lines: u8, read: u8)
    requires
        select == 0xC0 | (value & 0x30) | 0x0F,
        lines <= 0x0F,
        read == 0xC0 | (select & 0x30) | lines,
    ensures
        select & 0x10 == 0 <==> value as int / 16 % 2 == 0,
        select & 0x20 == 0 <==> value as int / 32 % 2 == 0,
        read as int / 64 == 3,
        read as int / 16 % 4 == value as int / 16 % 4,
        read % 2 == lines % 2,
        read as int / 2 % 2 == lines as int / 2 % 2,
        read as int / 4 % 2 == lines as int / 4 % 2,
        read as int / 8 % 2 == lines as int / 8 % 2,
{
    assert((select & 0x10 == 0 <==> (value / 16) % 2 == 0) && (select & 0x20 == 0 <==> (value / 32)
        % 2 == 0) && (read / 64 == 3) && ((read / 16) % 4 == (value / 16) % 4) && (read % 2 == lines
        % 2) && ((read / 2) % 2 == (lines / 2) % 2) && ((read / 4) % 2 == (lines / 4) % 2) && ((read
        / 8) % 2 == (lines / 8) % 2)) by (bit_vector)
        requires
            select == 0xC0 | (value & 0x30) | 0x0F,
            lines <= 0x0F,
            read == 0xC0 | (select & 0x30) | lines,
    ;
}

/// Holding other buttons requests the joypad's interrupt exactly where a line of a selected group goes
/// low, and changes nothing else.
pub proof fn law_pressing_requests_the_interrupt(machine: MachineState, pressed: u8)
    requires
        machine.io.len() == 0x80,
    ensures
        ({
            let after = machine.set_pressed_buttons_mask(pressed);
            let before_lines = joypad_lines(machine.io[0x00], machine.joypad.pressed);
            let lines = joypad_lines(machine.io[0x00], pressed);
            let falls = exists|line: int|
                0 <= line < 4 && #[trigger] (before_lines as int / place(line)) % 2 == 1 && lines as int
                    / place(line) % 2 == 0;
            &&& after.joypad.pressed == pressed
            &&& falls ==> after.io[0x0F] as int / 16 % 2 == 1
            &&& !falls ==> after.io == machine.io
            &&& after == (MachineState { joypad: after.joypad, io: after.io, ..machine })
        }),
{
    let before_lines = joypad_lines(machine.io[0x00], machine.joypad.pressed);
    let lines = joypad_lines(machine.io[0x00], pressed);
    let requested = machine.io[0x0F];
    law_held_buttons_pull_their_lines(machine.io[0x00], machine.joypad.pressed, 0);
    law_held_buttons_pull_their_lines(machine.io[0x00], pressed, 0);
    assert(place(0) == 1 && place(1) == 2 && place(2) == 4 && place(3) == 8);
    assert((before_lines & !lines != 0 <==> (before_lines % 2 == 1 && lines % 2 == 0) || ((
    before_lines / 2) % 2 == 1 && (lines / 2) % 2 == 0) || ((before_lines / 4) % 2 == 1 && (lines
        / 4) % 2 == 0) || ((before_lines / 8) % 2 == 1 && (lines / 8) % 2 == 0)) && ((requested
        | 0x10 | 0xE0) / 16) % 2 == 1) by (bit_vector)
        requires
            before_lines <= 0x0F,
            lines <= 0x0F,
    ;
    let falls = exists|line: int|
        0 <= line < 4 && #[trigger] (before_lines as int / place(line)) % 2 == 1 && lines as int
            / place(line) % 2 == 0;
    if before_lines & !lines != 0 {
        assert((before_lines as int / place(0)) % 2 == 1 && lines as int / place(0) % 2 == 0 || (
        before_lines as int / place(1)) % 2 == 1 && lines as int / place(1) % 2 == 0 || (
        before_lines as int / place(2)) % 2 == 1 && lines as int / place(2) % 2 == 0 || (
        before_lines as int / place(3)) % 2 == 1 && lines as int / place(3) % 2 == 0);
        assert(falls);
    }
}

/// Switching the display off sets the line counter to 0; switching it on starts the first line, on
/// which the search of objects is skipped, and compares the line. Other writes leave the line alone.
pub proof fn law_display_is_switched(machine: MachineState, value: u8)
    requires
        machine.io.len() == 0x80,
    ensures
        ({
            let after = machine.write8(0xFF40, value);
            let was_on = machine.io[0x40] >= 128;
            let is_on = value >= 128;
            &&& after.io[0x40] == value
            &&& was_on && !is_on ==> after.io[0x44] == 0 && after.ppu_mode == PpuMode::AccessOam
            &&& !was_on && is_on ==> after.ppu_mode == PpuMode::HBlank
                && after.ppu_mode_cycles_remaining == 20 && after.ppu_cycle_counter == 0
                && after.io[0x41] as int / 4 % 2 == 1 && after.io[0x41] % 4 == 0
            &&& was_on == is_on ==> after.ppu_mode == machine.ppu_mode
                && after.ppu_mode_cycles_remaining == machine.ppu_mode_cycles_remaining
                && after.io[0x44] == machine.io[0x44]
        }),
{
    reveal(MachineState::write_io);
    lemma_register_access(machine, 0xFF40, value);
    lemma_control_bits(machine.io[0x40], value);
    lemma_shown_status(machine.io[0x41] | 0x04, 0, 0, 0);
    lemma_shown_status(machine.io[0x41], 0, 0, 0);
}

proof fn lemma_shown_status(stat: u8, value: u8, mode: u8, channel: u8)
    requires
        mode <= 3,
    ensures
        (((stat & 0xFC) | 0x80) | 0) % 4 == 0,
        (((stat & 0xFC) | 0x80) | 0) as int / 4 % 2 == stat as int / 4 % 2,
        (stat | 0x04) as int / 4 % 2 == 1,
        (stat | 0x08 | 0xE0) & (1u8 << 3u8) != 0,
        (((((stat & 0x04) | (value & 0x78)) & 0xFC) | 0x80) | mode) == 0x80 + value as int / 8 % 16
            * 8 + stat as int / 4 % 2 * 4 + mode,
        (value & 0x80) | 0x70 | (stat & 0x0F) == value as int / 128 * 128 + 0x70 + stat % 16,
        (value & 0x80) | 0x70 | 0 == value as int / 128 * 128 + 0x70,
        ((stat | channel) & 0x8F) | 0x70 == (stat | channel) as int / 128 * 128 + 0x70 + (stat
            | channel) % 16,
{
    let both = stat | channel;
    assert(((((stat & 0xFC) | 0x80) | 0) % 4 == 0) && (((((stat & 0xFC) | 0x80) | 0) / 4) % 2 == (
    stat / 4) % 2) && (((stat | 0x04) / 4) % 2 == 1) && ((stat | 0x08 | 0xE0) & (1u8 << 3u8) != 0)
        && ((((((stat & 0x04) | (value & 0x78)) & 0xFC) | 0x80) | mode) == 0x80 + ((value / 8) % 16)
        * 8 + ((stat / 4) % 2) * 4 + mode) && ((value & 0x80) | 0x70 | (stat & 0x0F) == (value / 128)
        * 128 + 0x70 + stat % 16) && ((value & 0x80) | 0x70 | 0 == (value / 128) * 128 + 0x70) && ((
    both & 0x8F) | 0x70 == (both / 128) * 128 + 0x70 + both % 16)) by (bit_vector)
        requires
            mode <= 3,
    ;
}

/// A write to the status register sets the four bits that enable its interrupts; the comparison and the
/// mode stay as they are, and the highest bit reads as one. With the display off nothing of it shows.
pub proof fn law_status_is_written(machine: MachineState, value: u8)
    requires
        machine.io.len() == 0x80,
    ensures
        ({
            let after = machine.write8(0xFF41, value);
            &&& machine.io[0x40] >= 128 ==> after.read8(0xFF41) == 0x80 + value as int / 8 % 16 * 8
                + machine.io[0x41] as int / 4 % 2 * 4 + mode_number(machine.ppu_mode)
            &&& machine.io[0x40] < 128 ==> after.read8(0xFF41) == 0x80
            &&& after.io[0x0F] == machine.io[0x0F]
        }),
{
    reveal(MachineState::write_io);
    reveal(MachineState::read_io_value);
    lemma_register_access(machine, 0xFF41, value);
    let after = machine.write8(0xFF41, value);
    lemma_register_access(after, 0xFF41, value);
    lemma_control_bits(machine.io[0x40], after.io[0x41]);
    lemma_shown_status(machine.io[0x41], value, machine.ppu_mode.number(), 0);
}

/// The sound status: its highest bit is written, and with it off no channel plays; starting a channel
/// while sound is on shows its bit, and with sound off does not.
pub proof fn law_sound_status(machine: MachineState, value: u8, index: int)
    requires
        machine.io.len() == 0x80,
        0 <= index < 4,
    ensures
        ({
            let written = machine.write8(0xFF26, value).io[0x26] as int;
            let trigger = seq![0xFF14u16, 0xFF19, 0xFF1E, 0xFF23][index];
            let started = machine.write8(trigger, value).io[0x26];
            let bit = seq![0x01u8, 0x02, 0x04, 0x08][index];
            let on = machine.io[0x26] >= 128 && value >= 128;
            &&& value >= 128 ==> written == 0xF0 + machine.io[0x26] % 16
            &&& value < 128 ==> written == 0x70
            &&& on ==> started == (machine.io[0x26] | bit) as int / 128 * 128 + 0x70 + (
            machine.io[0x26] | bit) % 16
            &&& !on ==> started == machine.io[0x26]
        }),
{
    reveal(MachineState::write_io);
    let trigger = seq![0xFF14u16, 0xFF19, 0xFF1E, 0xFF23][index];
    let bit = seq![0x01u8, 0x02, 0x04, 0x08][index];
    lemma_register_access(machine, 0xFF26, value);
    lemma_register_access(machine, trigger, value);
    lemma_control_bits(machine.io[0x26], value);
    lemma_shown_status(machine.io[0x26], value, 0, bit);
}

/// Switching the timer off while the divider is in the second half of its period counts once more.
pub proof fn law_timer_is_switched_off(machine: MachineState, value: u8, select: int)
    requires
        machine.timing(select),
        machine.io[0x05] < 255,
        value as int / 4 % 2 == 0,
    ensures
        machine.write8(0xFF07, value).io[0x05] == machine.io[0x05] + (if machine.div_counter as int
            % timer_period(select) >= timer_period(select) / 2 {
            1int
        } else {
            0
        }),
{
    reveal(MachineState::write_io);
    lemma_register_access(machine, 0xFF07, value);
    lemma_divider_half(machine.div_counter, machine.io[0x07]);
    lemma_control_bits(0, value);
    lemma_divider_half(machine.div_counter, value | 0xF8);
    assert((value | 0xF8) as int / 4 % 2 == 0);
}

/// A write to the divider, whatever its value, sets it to 0. Where the timer is on and the divider was
/// in the second half of the timer's period, the timer counts.
pub proof fn law_divider_is_cleared(machine: MachineState, value: u8, select: int)
    requires
        machine.timing(select),
        machine.io[0x05] < 255,
    ensures
        ({
            let after = machine.write8(0xFF04, value);
            let period = timer_period(select);
            &&& after.div_counter == 0
            &&& after.io[0x04] == 0
            &&& after.io[0x05] == machine.io[0x05] + (if machine.div_counter as int % period >= period
                / 2 {
                1int
            } else {
                0
            })
        }),
{
    reveal(MachineState::write_io);
    lemma_register_access(machine, 0xFF04, value);
    lemma_divider_half(machine.div_counter, machine.io[0x07]);
    lemma_divider_half(0, machine.io[0x07]);
}

pub proof fn lemma_divider_half(div: u16, tac: u8)
    ensures
        tac & 0x03 == tac % 4,
        tac & 0x04 != 0 <==> tac as int / 4 % 2 == 1,
        div & 0x80 != 0 <==> div % 256 >= 128,
        div & 0x02 != 0 <==> div % 4 >= 2,
        div & 0x08 != 0 <==> div % 16 >= 8,
        div & 0x20 != 0 <==> div % 64 >= 32,
{
    assert((tac & 0x03 == tac % 4) && (tac & 0x04 != 0 <==> (tac / 4) % 2 == 1) && (div & 0x80 != 0
        <==> div % 256 >= 128) && (div & 0x02 != 0 <==> div % 4 >= 2) && (div & 0x08 != 0 <==> div
        % 16 >= 8) && (div & 0x20 != 0 <==> div % 64 >= 32)) by (bit_vector);
}

/// Between an overflow and its reload a write to the timer cancels the reload; while the reload lasts
/// it is lost, and a write to the modulo reaches the timer too.
pub proof fn law_writes_around_a_reload(machine: MachineState, value: u8, left: u8)
    requires
        machine.io.len() == 0x80,
    ensures
        machine.tima_reload_state == Some(TimaReloadState::OverflowDelay(left)) ==> {
            &&& machine.write8(0xFF05, value).tima_reload_state is None
            &&& machine.write8(0xFF05, value).io[0x05] == value
            &&& machine.write8(0xFF06, value).io[0x05] == machine.io[0x05]
        },
        machine.tima_reload_state == Some(TimaReloadState::ReloadWindow(left)) ==> {
            &&& machine.write8(0xFF05, value).io[0x05] == machine.io[0x05]
            &&& machine.write8(0xFF06, value).io[0x05] == value
        },
        machine.write8(0xFF06, value).io[0x06] == value,
{
    reveal(MachineState::write_io);
    lemma_register_access(machine, 0xFF05, value);
    lemma_register_access(machine, 0xFF06, value);
}

/// Only the value that starts a transfer sends the data register's byte; it requests the serial
/// interrupt, and the transfer is over at once.
pub proof fn law_serial_port_sends(machine: MachineState, value: u8)
    requires
        machine.io.len() == 0x80,
    ensures
        ({
            let after = machine.write8(0xFF02, value);
            &&& value == 0x81 ==> after.serial_output == machine.serial_output.push(machine.io[0x01])
                && after.io[0x0F] as int / 8 % 2 == 1 && after.io[0x02] == 0x7F
            &&& value != 0x81 ==> after.serial_output == machine.serial_output && after.io[0x0F]
                == machine.io[0x0F]
        }),
{
    reveal(MachineState::write_io);
    lemma_register_access(machine, 0xFF02, value);
    let requested = machine.io[0x0F];
    lemma_single_bit(requested | 0x08 | 0xE0, 3);
    lemma_shown_status(requested, 0, 0, 0);
    assert(place(3) == 8);
}

/// A disturbed row of object memory takes over the last six bytes of the row before. Each bit of its
/// first word becomes, by a write, what most of three words have: its own first, and the first and
/// third of the row before; by a read it is set where the first of these is set before, or both others
/// are.
pub proof fn law_objects_are_disturbed(oam: Seq<u8>, row: int, kind: OamCorruptionKind, index: int)
    requires
        oam.len() == 0xA0,
        1 <= row < 20,
        0 <= index < 0xA0,
    ensures
        ({
            let after = corrupted_oam(oam, row, kind);
            let at = index - 8 * row;
            &&& after.len() == 0xA0
            &&& !(0 <= at < 8) ==> after[index] == oam[index]
            &&& 2 <= at < 8 ==> after[index] == oam[index - 8]
            &&& 0 <= at < 2 ==> after[index] == (match kind {
                OamCorruptionKind::Write => most(oam[index], oam[index - 8], oam[index - 4]),
                OamCorruptionKind::Read => oam[index - 8] | (oam[index] & oam[index - 4]),
            })
        }),
{
    if row * 8 <= index < row * 8 + 2 {
        let first = row * 8;
        lemma_disturbed_word(
            oam[first],
            oam[first + 1],
            oam[first - 8],
            oam[first - 7],
            oam[first - 4],
            oam[first - 3],
        );
    }
}

/// The bits that at least two of three bytes have.
pub open spec fn most(a: u8, b: u8, c: u8) -> u8 {
    (a & b) | (a & c) | (b & c)
}

proof fn lemma_disturbed_word(a0: u8, a1: u8, b0: u8, b1: u8, c0: u8, c1: u8)
    ensures
        ({
            let a = word(a1, a0);
            let b = word(b1, b0);
            let c = word(c1, c0);
            let write = ((a ^ c) & (b ^ c)) ^ c;
            let read = b | (a & c);
            &&& low(write) == most(a0, b0, c0)
            &&& high(write) == most(a1, b1, c1)
            &&& low(read) == b0 | (a0 & c0)
            &&& high(read) == b1 | (a1 & c1)
        }),
{
    let a = word(a1, a0);
    let b = word(b1, b0);
    let c = word(c1, c0);
    let write = ((a ^ c) & (b ^ c)) ^ c;
    let read = b | (a & c);
    assert(write % 256 == ((a0 & b0) | (a0 & c0) | (b0 & c0)) as u16 && write / 256 == ((a1 & b1) | (
    a1 & c1) | (b1 & c1)) as u16 && read % 256 == (b0 | (a0 & c0)) as u16 && read / 256 == (b1 | (a1
        & c1)) as u16) by (bit_vector)
        requires
            a == a1 * 256 + a0,
            b == b1 * 256 + b0,
            c == c1 * 256 + c0,
            write == ((a ^ c) & (b ^ c)) ^ c,
            read == b | (a & c),
    ;
}

/// While the picture unit searches objects, a use of their page disturbs the row that it reads, which
/// moves on by one each machine cycle; the first row is never disturbed, and at no other time any.
pub proof fn law_when_objects_are_disturbed(
    machine: MachineState,
    address: u16,
    kind: OamCorruptionKind,
)
    requires
        machine.io.len() == 0x80,
    ensures
        ({
            let after = machine.maybe_trigger_oam_bug(address, kind);
            let searching = machine.io[0x40] >= 128 && machine.ppu_mode == PpuMode::AccessOam;
            let cycle = machine.ppu_cycle_counter as int / 4;
            let row = if cycle < 19 { cycle } else { 19 };
            &&& searching && 0xFE00 <= address <= 0xFEFF && row > 0 ==> after == (MachineState {
                oam: corrupted_oam(machine.oam, row, kind),
                ..machine
            })
            &&& !searching || address < 0xFE00 || address > 0xFEFF || row == 0 ==> after == machine
        }),
{
    reveal(MachineState::maybe_trigger_oam_bug);
    lemma_control_bits(machine.io[0x40], 0);
}

/// A reset is power on: registers, memories and counters are zero, nothing is watched, held, traced or
/// sent, the boot ROM is mapped, and of the hardware registers those that are not zero read as they do
/// without power.
pub proof fn law_reset_is_power_on(machine: MachineState, i: int)
    requires
        machine.wf(),
    ensures
        ({
            let after = machine.reset();
            let r = after.registers;
            &&& (r.a, r.f, r.b, r.c, r.d, r.e, r.h, r.l) == (0u8, 0u8, 0u8, 0u8, 0u8, 0u8, 0u8, 0u8)
            &&& r.sp == 0 && r.pc == 0
            &&& after.prefetched_pc == Some(0u16)
            &&& !after.ime && after.ie == 0
            &&& after.exec_state == ExecState::Running
            &&& after.bootrom_active && after.bootrom == machine.bootrom
            &&& after.cycle_counter == 0 && after.instruction_counter == 0 && after.div_counter == 0
            &&& after.breakpoints.len() == 0 && after.trace.len() == 0
            &&& after.serial_output.len() == 0 && after.joypad.pressed == 0
            &&& !after.dma_active && after.dma_requested_source is None
            &&& 0 <= i < 0x2000 ==> after.wram[i] == 0 && after.vram[i] == 0
            &&& 0 <= i < 0xA0 ==> after.oam[i] == 0
            &&& 0 <= i < 0x7F ==> after.hram[i] == 0
            &&& after.io[0x00] == (match machine.model {
                GbModel::Sgb | GbModel::Sgb2 => 0xFFu8,
                _ => 0xCF,
            })
            &&& after.io[0x02] == 0x7E && after.io[0x07] == 0xF8 && after.io[0x0F] == 0xE0
            &&& after.io[0x26] == 0x70 && after.io[0x40] == 0 && after.io[0x04] == 0
            &&& after.io[0x05] == 0 && after.io[0x06] == 0 && after.io[0x42] == 0
            &&& after.io[0x43] == 0 && after.io[0x44] == 0 && after.io[0x45] == 0
            &&& after.io[0x47] == 0xFF && after.io[0x48] == 0xFF && after.io[0x49] == 0xFF
            &&& after.io[0x4A] == 0 && after.io[0x4B] == 0
        }),
{
}

} // verus!
