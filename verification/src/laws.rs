//! What holds of the machine as a whole: laws that relate its operations to one another.

use vstd::prelude::*;

use crate::cartridge::{persistent_fault, saved_cartridge, CartridgeState, Mapper, PersistentState};
use crate::interface::{Breakpoint, StopReason, TraceEntry, WatchpointHit, WatchpointKind};
use crate::io::BOOT_REGISTER;
use crate::machine::{
    highest_priority_interrupt, joypad_lines, Bus, ExecState, MachineState, OamCorruptionKind,
    PpuMode, HRAM_START, IF_REGISTER, IO_END, IO_START, LCDC_REGISTER, LY_REGISTER, SERIAL_SB,
    SERIAL_SC, TIMER_TIMA, TIMER_TMA, TRACE_CAPACITY,
};
use crate::model::GbError;
use crate::registers::{high, low, word, Registers};
use crate::render::{LIGHTEST, SPRITES, SPRITES_PER_LINE};
use crate::session::{answered, needs_machine, Request, Response, SessionView};
use crate::snapshot::{law_saved_state_restores_the_machine, SnapshotState};
use crate::step::{traced, Stepped};

verus! {

/// Running in two parts is running once: execution depends on the machine's state alone.
pub proof fn law_runs_join(machine: MachineState, first: nat, second: nat)
    ensures
        machine.ran_all(first) ==> {
            &&& machine.run(first).outcome == Ok::<StopReason, GbError>(StopReason::RunLimitReached)
            &&& machine.run(first + second) == machine.run(first).machine.run(second)
        },
        !machine.ran_all(first) ==> machine.run(first + second) == machine.run(first),
    decreases first,
{
    if first > 0 && machine.step().outcome == Ok::<StopReason, GbError>(StopReason::StepComplete) {
        law_runs_join(machine.step().machine, (first - 1) as nat, second);
    }
}

impl MachineState {
    /// Whether so many steps simply complete, one after the other.
    pub open spec fn ran_all(self, steps: nat) -> bool
        decreases steps,
    {
        steps > 0 ==> {
            &&& self.step().outcome == Ok::<StopReason, GbError>(StopReason::StepComplete)
            &&& self.step().machine.ran_all((steps - 1) as nat)
        }
    }
}

/// A machine that was restored from a saved state runs as the saved one would have.
pub proof fn law_restored_machine_runs_alike(
    state: SnapshotState,
    machine: MachineState,
    steps: nat,
)
    requires
        machine.wf(),
        state.describes(machine),
    ensures
        state.machine().run(steps) == machine.run(steps),
{
    law_saved_state_restores_the_machine(state, machine);
}

/// A breakpoint on the next instruction, be it by address or by opcode, stops a step before it:
/// nothing changes but that no watchpoint is pending.
pub proof fn law_breakpoint_stops_before_the_instruction(machine: MachineState)
    requires
        machine.exec_state == ExecState::Running,
        machine.has_pc_breakpoint(machine.logical_pc()) || machine.has_opcode_breakpoint(
            machine.logical_opcode(),
        ),
    ensures
        machine.step() == (Stepped {
            machine: MachineState { pending_watchpoint: None, ..machine },
            outcome: Ok(StopReason::BreakpointHit),
        }),
{
    reveal(MachineState::step);
    reveal(MachineState::run_instruction);
    reveal(MachineState::peek8);
    reveal(MachineState::read_io_value);
}

/// The trace holds the last entries: one more each time, and never more than its capacity.
pub proof fn law_trace_keeps_the_last_entries(
    trace: Seq<TraceEntry>,
    entry: TraceEntry,
)
    requires
        trace.len() <= TRACE_CAPACITY,
    ensures
        traced(trace, entry).len() <= TRACE_CAPACITY,
        traced(trace, entry).last() == entry,
        forall|i: int|
            1 <= i < traced(trace, entry).len() ==> traced(trace, entry)[traced(trace, entry).len()
                - 1 - i] == #[trigger] trace[trace.len() - i],
{
}

/// An access is recorded exactly where a watchpoint of its kind is set on its address.
pub proof fn law_watchpoints_record_accesses(machine: MachineState, address: u16, value: u8)
    ensures
        machine.write8(address, value).pending_watchpoint == (if machine.breakpoints.contains(
            Breakpoint::MemoryWrite(address as u32),
        ) {
            Some(WatchpointHit { kind: WatchpointKind::Write, address })
        } else {
            machine.pending_watchpoint
        }),
        machine.after_read8(address).pending_watchpoint == (if machine.breakpoints.contains(
            Breakpoint::MemoryRead(address as u32),
        ) {
            Some(WatchpointHit { kind: WatchpointKind::Read, address })
        } else {
            machine.pending_watchpoint
        }),
{
    reveal(MachineState::write8);
    reveal(MachineState::after_read8);
    reveal(MachineState::record_watchpoint);
    reveal(MachineState::maybe_trigger_oam_bug);
    reveal(MachineState::store8);
    reveal(MachineState::write_io);
}

impl MachineState {
    /// Whether the processor can use an address of work RAM.
    pub open spec fn external_bus_free(self) -> bool {
        self.dma_source_bus() != Some(Bus::External)
    }
}

/// What is written to work RAM is read back, at its own address and at its echo, and nothing else
/// in memory changes.
pub proof fn law_work_ram_reads_back(
    machine: MachineState,
    address: u16,
    value: u8,
    mirror: u16,
    other: u16,
)
    requires
        machine.wf(),
        machine.external_bus_free(),
        0xC000 <= address <= 0xFDFF,
        0xC000 <= mirror <= 0xFDFF,
        mirror % 0x2000 == address % 0x2000,
        !(0xC000 <= other <= 0xFDFF && other % 0x2000 == address % 0x2000),
    ensures
        machine.write8(address, value).read8(address) == value,
        machine.write8(address, value).read8(mirror) == value,
        machine.write8(address, value).peek8(other) == machine.peek8(other),
{
    reveal(MachineState::write8);
    reveal(MachineState::record_watchpoint);
    reveal(MachineState::store8);
    reveal(MachineState::read8);
    reveal(MachineState::peek8);
    reveal(MachineState::read_io_value);
}

/// An instruction that ran stops its step at a recorded access, unless it halted the processor;
/// otherwise a step that goes on has no access recorded.
pub proof fn law_watched_access_stops_the_step(machine: MachineState)
    requires
        machine.exec_state == ExecState::Running,
        machine.step().outcome is Ok,
        machine.step().outcome != Ok::<StopReason, GbError>(StopReason::BreakpointHit),
        machine.step().machine.exec_state != ExecState::Halt,
    ensures
        machine.step().outcome == Ok::<StopReason, GbError>(StopReason::WatchpointHit)
            <==> machine.step().machine.pending_watchpoint is Some,
{
    reveal(MachineState::step);
    reveal(MachineState::run_instruction);
}

impl MachineState {
    /// No copy into object memory is under way or asked for.
    pub open spec fn copies_nothing(self) -> bool {
        &&& !self.dma_active
        &&& self.dma_requested_source is None
        &&& self.dma_starting_source is None
    }

    /// With a work RAM and a stack pointer as before, and no copy.
    pub open spec fn same_stack(self, before: MachineState) -> bool {
        &&& self.copies_nothing()
        &&& self.wram == before.wram
        &&& self.registers == before.registers
    }
}

proof fn lemma_copy_keeps_the_stack(machine: MachineState)
    requires
        machine.copies_nothing(),
    ensures
        machine.step_dma_mcycle().same_stack(machine),
{
    reveal(MachineState::step_dma_mcycle);
}

proof fn lemma_picture_keeps_the_stack(machine: MachineState)
    requires
        machine.copies_nothing(),
    ensures
        machine.step_ppu_cycle().same_stack(machine),
{
    reveal(MachineState::step_ppu_cycle);
    reveal(MachineState::next_ppu_mode);
    reveal(MachineState::switch_ppu_mode);
    reveal(MachineState::update_lyc_compare_interrupt);
}

proof fn lemma_timer_keeps_the_stack(machine: MachineState)
    requires
        machine.copies_nothing(),
    ensures
        machine.step_timer_cycle().same_stack(machine),
{
    reveal(MachineState::step_timer_cycle);
}

proof fn lemma_time_keeps_the_stack(machine: MachineState, cycles: nat)
    requires
        machine.copies_nothing(),
    ensures
        machine.ticks(cycles).same_stack(machine),
    decreases cycles,
{
    if cycles > 0 {
        lemma_time_keeps_the_stack(machine, (cycles - 1) as nat);
        let before = machine.ticks((cycles - 1) as nat);
        let counted = MachineState {
            cycle_counter: (before.cycle_counter + 1) as u64,
            ..before
        };
        reveal(MachineState::tick);
        lemma_copy_keeps_the_stack(counted);
        lemma_picture_keeps_the_stack(counted.step_dma_mcycle());
        lemma_timer_keeps_the_stack(counted.step_dma_mcycle().step_ppu_cycle());
    }
}

/// A byte of work RAM is read, and written, with no copy in the way.
proof fn lemma_work_ram_access(machine: MachineState, address: u16, value: u8)
    requires
        machine.copies_nothing(),
        machine.wram.len() == 0x2000,
        0xC000 <= address <= 0xFDFF,
    ensures
        machine.read8(address) == machine.wram[address as int % 0x2000],
        machine.after_read8(address).same_stack(machine),
        machine.write8(address, value).copies_nothing(),
        machine.write8(address, value).wram == machine.wram.update(address as int % 0x2000, value),
        machine.write8(address, value).registers == machine.registers,
{
    reveal(MachineState::read8);
    reveal(MachineState::peek8);
    reveal(MachineState::after_read8);
    reveal(MachineState::record_watchpoint);
    reveal(MachineState::write8);
    reveal(MachineState::store8);
}

proof fn lemma_push_byte(machine: MachineState, value: u8)
    requires
        machine.copies_nothing(),
        machine.wram.len() == 0x2000,
        0xC001 <= machine.registers.sp <= 0xFDFF,
    ensures
        ({
            let pushed = machine.push8(value);
            let sp = (machine.registers.sp - 1) as u16;
            &&& pushed.copies_nothing()
            &&& pushed.wram == machine.wram.update(sp as int % 0x2000, value)
            &&& pushed.registers == (Registers { sp, ..machine.registers })
        }),
{
    reveal(MachineState::push8);
    reveal(MachineState::write_cycle);
    reveal(MachineState::maybe_trigger_oam_bug);
    reveal(MachineState::tick_timers);
    let sp = (machine.registers.sp - 1) as u16;
    let moved = machine.maybe_trigger_oam_bug(
        machine.registers.sp,
        OamCorruptionKind::Write,
    ).with_sp(sp);
    let clocked = MachineState { cartridge: moved.cartridge.after_cycles(4), ..moved };
    lemma_time_keeps_the_stack(clocked, 4);
    lemma_work_ram_access(moved.tick_timers(4), sp, value);
}

proof fn lemma_pop_byte(machine: MachineState)
    requires
        machine.copies_nothing(),
        machine.wram.len() == 0x2000,
        0xC000 <= machine.registers.sp <= 0xFDFF,
    ensures
        machine.pop8() == machine.wram[machine.registers.sp as int % 0x2000],
        ({
            let popped = machine.after_pop8();
            let sp = (machine.registers.sp + 1) as u16;
            &&& popped.copies_nothing()
            &&& popped.wram == machine.wram
            &&& popped.registers == (Registers { sp, ..machine.registers })
        }),
{
    reveal(MachineState::pop8);
    reveal(MachineState::after_pop8);
    reveal(MachineState::maybe_trigger_oam_bug);
    reveal(MachineState::tick_timers);
    let clocked = MachineState { cartridge: machine.cartridge.after_cycles(4), ..machine };
    lemma_time_keeps_the_stack(clocked, 4);
    lemma_work_ram_access(machine.tick_timers(4), machine.registers.sp, 0);
}

/// What is pushed on a stack in work RAM is popped again, with the stack pointer back where it was
/// and all other registers as before.
pub proof fn law_pushed_word_is_popped(machine: MachineState, value: u16)
    requires
        machine.wf(),
        machine.copies_nothing(),
        0xC002 <= machine.registers.sp <= 0xFDFF,
    ensures
        machine.push16(value).pop16() == value,
        machine.push16(value).after_pop16().registers == machine.registers,
{
    reveal(MachineState::push16);
    reveal(MachineState::pop16);
    reveal(MachineState::after_pop16);
    let first = machine.push8(high(value));
    lemma_push_byte(machine, high(value));
    lemma_push_byte(first, low(value));
    let pushed = machine.push16(value);
    lemma_pop_byte(pushed);
    lemma_pop_byte(pushed.after_pop8());
    assert(word(high(value), low(value)) == value);
}

/// What is written to high RAM is read back, also during a copy into object memory.
pub proof fn law_high_ram_reads_back(machine: MachineState, address: u16, value: u8, other: u16)
    requires
        machine.wf(),
        HRAM_START <= address <= 0xFFFE,
        other != address,
    ensures
        machine.write8(address, value).read8(address) == value,
        machine.write8(address, value).peek8(other) == machine.peek8(other),
{
    reveal(MachineState::write8);
    reveal(MachineState::record_watchpoint);
    reveal(MachineState::store8);
    reveal(MachineState::read8);
    reveal(MachineState::peek8);
    reveal(MachineState::read_io_value);
}

/// A write to the boot register with its low bit set uncovers the cartridge; only a reset maps the
/// boot ROM again.
pub proof fn law_boot_rom_covers_the_cartridge_until_switched_off(
    machine: MachineState,
    value: u8,
    address: u16,
)
    requires
        machine.wf(),
        address <= 0x00FF,
        machine.external_bus_free(),
    ensures
        machine.bootrom_active ==> machine.peek8(address) == machine.bootrom->0[address as int],
        !machine.bootrom_active ==> machine.peek8(address) == machine.cartridge.lower_rom_byte(
            address,
        ),
        value & 0x01 != 0 ==> !machine.write8(BOOT_REGISTER, value).bootrom_active,
        value & 0x01 == 0 ==> machine.write8(BOOT_REGISTER, value).bootrom_active
            == machine.bootrom_active,
        machine.reset().bootrom_active,
{
    reveal(MachineState::write8);
    reveal(MachineState::record_watchpoint);
    reveal(MachineState::store8);
    reveal(MachineState::write_io);
    reveal(MachineState::peek8);
}

/// A reset keeps the cartridge's RAM and clock, and a second reset changes nothing.
pub proof fn law_reset_keeps_cartridge_ram_and_clock(machine: MachineState)
    requires
        machine.wf(),
    ensures
        machine.reset().cartridge.ram == machine.cartridge.ram,
        machine.reset().cartridge.rtc == machine.cartridge.rtc,
        machine.reset().cartridge.rom == machine.cartridge.rom,
        machine.reset().model == machine.model,
        machine.reset().reset() == machine.reset(),
{
}

/// Saved cartridge state is taken over by the same cartridge, and brings RAM and clock back.
pub proof fn law_cartridge_state_restores(
    saved: CartridgeState,
    state: PersistentState,
    cartridge: CartridgeState,
)
    requires
        saved.wf(),
        saved_cartridge(state, saved),
        cartridge.same_cartridge(saved),
    ensures
        state.sound(),
        persistent_fault(cartridge, state) is None,
        state.ram@ == saved.ram,
        state.rtc == saved.rtc,
{
}

/// Saved cartridge state is refused by every cartridge with another header.
pub proof fn law_other_cartridge_refuses_state(
    saved: CartridgeState,
    state: PersistentState,
    cartridge: CartridgeState,
)
    requires
        saved_cartridge(state, saved),
        cartridge.signature() != saved.signature(),
    ensures
        persistent_fault(cartridge, state) == Some(GbError::PersistentStateCartridgeMismatch),
{
}

impl CartridgeState {
    /// Whether the external RAM can be written.
    pub open spec fn ram_writable(self) -> bool {
        &&& self.ram.len() > 0
        &&& match self.mapper {
            Mapper::Fixed => true,
            Mapper::Mbc1(state) => state.ram_enabled,
            Mapper::Mbc2(state) => state.ram_enabled,
            Mapper::Mbc3(state) => state.ram_rtc_enabled && self.mbc3_maps_ram(state.map_select),
            Mapper::Mbc5(state) => state.ram_enabled,
            Mapper::Huc1(state) => state.mode == 0x0A,
        }
    }

    /// Whether the bank registers that cannot select bank 0 do not.
    pub open spec fn banks_nonzero(self) -> bool {
        match self.mapper {
            Mapper::Mbc1(state) => state.bank1 != 0,
            Mapper::Mbc2(state) => state.rom_bank != 0,
            Mapper::Mbc3(state) => state.rom_bank != 0,
            _ => true,
        }
    }
}

/// What is written to writable external RAM is read back; of the four-bit RAM of an MBC2 the upper
/// half of a byte reads as ones.
pub proof fn law_external_ram_reads_back(cartridge: CartridgeState, address: u16, value: u8)
    requires
        cartridge.ram_writable(),
        cartridge.ram.len() <= usize::MAX,
    ensures
        cartridge.with_external_byte(address, value).external_byte(address) == (
        if cartridge.mapper is Mbc2 {
            0xF0 | ((value & 0x0F) & 0x0F)
        } else {
            value
        }),
{
    let offset = cartridge.ram_offset;
    let index: usize = offset | (address % 0x2000) as usize;
    let mask: usize = (cartridge.ram.len() - 1) as usize;
    assert(index & mask <= mask) by (bit_vector);
}

/// No write makes a bank register of an MBC1, MBC2 or MBC3 select bank 0.
pub proof fn law_bank_registers_stay_nonzero(cartridge: CartridgeState, address: u16, value: u8)
    requires
        cartridge.banks_nonzero(),
    ensures
        cartridge.after_control(address, value).banks_nonzero(),
        cartridge.with_external_byte(address, value).banks_nonzero(),
        cartridge.after_reset().banks_nonzero(),
{
}

impl MachineState {
    /// So many machine cycles of the copy into object memory, with nothing else going on.
    pub open spec fn dma_cycles(self, count: nat) -> MachineState
        decreases count,
    {
        if count == 0 {
            self
        } else {
            self.dma_cycles((count - 1) as nat).step_dma_mcycle()
        }
    }

    /// A copy that has come so far.
    pub open spec fn copying(self, before: MachineState, source: u16, count: nat) -> bool {
        &&& self == (MachineState {
            oam: Seq::new(
                0xA0,
                |i: int|
                    if i < count {
                        before.dma_source_byte(((source + i) % 0x10000) as u16)
                    } else {
                        self.oam[i]
                    },
            ),
            dma_source: source,
            dma_active: count < 0xA0,
            dma_next_byte: count as u16,
            dma_requested_source: None,
            dma_starting_source: None,
            ..before
        })
        &&& self.oam.len() == 0xA0
    }
}

proof fn lemma_dma_progress(machine: MachineState, source: u16, count: nat)
    requires
        machine.wf(),
        machine.dma_requested_source == Some(source),
        count <= 0xA0,
    ensures
        machine.dma_cycles(count + 2).copying(machine, source, count),
    decreases count,
{
    reveal(MachineState::step_dma_mcycle);
    if count == 0 {
        let first = machine.dma_cycles(1);
        assert(machine.dma_cycles(0) == machine);
        assert(first == machine.step_dma_mcycle());
        let second = machine.dma_cycles(2);
        assert(second == first.step_dma_mcycle());
        assert(second.oam =~= Seq::new(0xA0, |i: int| second.oam[i]));
        assert(second.oam =~= Seq::new(
            0xA0,
            |i: int|
                if i < count {
                    machine.dma_source_byte(((source + i) % 0x10000) as u16)
                } else {
                    second.oam[i]
                },
        ));
        assert(machine.dma_cycles(count + 2).copying(machine, source, count));
    } else {
        lemma_dma_progress(machine, source, (count - 1) as nat);
        let before = machine.dma_cycles((count + 1) as nat);
        let after = machine.dma_cycles(count + 2);
        assert(after == before.step_dma_mcycle());
        let address = ((source + (count - 1)) % 0x10000) as u16;
        assert(before.dma_source_byte(address) == machine.dma_source_byte(address));
        assert(after.oam =~= Seq::new(
            0xA0,
            |i: int|
                if i < count {
                    machine.dma_source_byte(((source + i) % 0x10000) as u16)
                } else {
                    after.oam[i]
                },
        ));
    }
}

/// A requested copy starts two machine cycles later and then takes 160: object memory holds the
/// 160 bytes from the source on, nothing else has changed, and the bus is free again.
pub proof fn law_dma_copies_160_bytes(machine: MachineState, source: u16)
    requires
        machine.wf(),
        machine.dma_requested_source == Some(source),
    ensures
        machine.dma_cycles(162) == (MachineState {
            oam: Seq::new(
                0xA0,
                |i: int| machine.dma_source_byte(((source + i) % 0x10000) as u16),
            ),
            dma_source: source,
            dma_active: false,
            dma_next_byte: 0xA0,
            dma_requested_source: None,
            dma_starting_source: None,
            ..machine
        }),
{
    lemma_dma_progress(machine, source, 0xA0);
    let done = machine.dma_cycles(162);
    assert(done.copying(machine, source, 0xA0));
    assert(done.oam =~= Seq::new(
        0xA0,
        |i: int| machine.dma_source_byte(((source + i) % 0x10000) as u16),
    ));
}

impl MachineState {
    /// How many of the first sprites a line shows.
    pub open spec fn shown_sprites(self, count: int, y: int) -> int
        decreases count,
    {
        if count <= 0 {
            0
        } else if self.line_shows(count - 1, y) {
            self.shown_sprites(count - 1, y) + 1
        } else {
            self.shown_sprites(count - 1, y)
        }
    }
}

/// A line shows no more than ten sprites.
pub proof fn law_a_line_shows_ten_sprites_at_most(machine: MachineState, count: int, y: int)
    requires
        0 <= count <= SPRITES,
    ensures
        machine.shown_sprites(count, y) <= SPRITES_PER_LINE,
        machine.shown_sprites(count, y) <= machine.sprites_on_line(count, y),
    decreases count,
{
    if count > 0 {
        law_a_line_shows_ten_sprites_at_most(machine, count - 1, y);
    }
}

proof fn lemma_pixel_place(x: int, y: int)
    requires
        0 <= x < 160,
        0 <= y < 144,
    ensures
        0 <= 4 * (160 * y + x) < 4 * 160 * 144 - 3,
        forall|i: int|
            0 <= i < 4 ==> {
                &&& #[trigger] (4 * (160 * y + x) + i) % 4 == i
                &&& (4 * (160 * y + x) + i) / 4 % 160 == x
                &&& (4 * (160 * y + x) + i) / 640 == y
            },
{
}

proof fn lemma_four_shades(machine: MachineState, x: int, y: int)
    ensures
        ({
            let shade = machine.pixel(x, y);
            shade == 0xE0 || shade == 0xA8 || shade == 0x60 || shade == 0x18
        }),
        !machine.lcd_enabled() ==> machine.pixel(x, y) == LIGHTEST,
{
    reveal(MachineState::pixel);
}

/// Every pixel is opaque and gray, of one of four shades; with the display off all are of the
/// lightest.
pub proof fn law_picture_is_gray_and_opaque(machine: MachineState, x: int, y: int)
    requires
        0 <= x < 160,
        0 <= y < 144,
    ensures
        ({
            let bytes = machine.frame_bytes(4 * 160 * 144);
            let place = 4 * (160 * y + x);
            let shade = bytes[place];
            &&& shade == machine.pixel(x, y)
            &&& bytes[place + 1] == shade
            &&& bytes[place + 2] == shade
            &&& bytes[place + 3] == 0xFF
            &&& shade == 0xE0 || shade == 0xA8 || shade == 0x60 || shade == 0x18
            &&& !machine.lcd_enabled() ==> shade == LIGHTEST
        }),
{
    lemma_pixel_place(x, y);
    lemma_four_shades(machine, x, y);
    let place = 4 * (160 * y + x);
    assert((place + 0) % 4 == 0 && (place + 1) % 4 == 1 && (place + 2) % 4 == 2 && (place + 3) % 4
        == 3);
}

/// The interrupt that is entered is pending, and none of a lower bit is; there is one exactly
/// where one of the five is pending.
pub proof fn law_lowest_interrupt_comes_first(pending: u8)
    ensures
        match highest_priority_interrupt(pending) {
            Some((mask, vector)) => {
                &&& pending & mask == mask
                &&& pending & ((mask - 1) as u8) == 0
                &&& mask == 1 || mask == 2 || mask == 4 || mask == 8 || mask == 16
                &&& 0x40 <= vector <= 0x60
            },
            None => pending & 0x1F == 0,
        },
{
    assert((pending & 0x01 != 0 ==> pending & 0x01 == 0x01 && pending & 0x00 == 0) && (pending
        & 0x01 == 0 && pending & 0x02 != 0 ==> pending & 0x02 == 0x02 && pending & 0x01 == 0) && (
    pending & 0x01 == 0 && pending & 0x02 == 0 && pending & 0x04 != 0 ==> pending & 0x04 == 0x04
        && pending & 0x03 == 0) && (pending & 0x01 == 0 && pending & 0x02 == 0 && pending & 0x04
        == 0 && pending & 0x08 != 0 ==> pending & 0x08 == 0x08 && pending & 0x07 == 0) && (pending
        & 0x01 == 0 && pending & 0x02 == 0 && pending & 0x04 == 0 && pending & 0x08 == 0 && pending
        & 0x10 != 0 ==> pending & 0x10 == 0x10 && pending & 0x0F == 0) && (pending & 0x01 == 0
        && pending & 0x02 == 0 && pending & 0x04 == 0 && pending & 0x08 == 0 && pending & 0x10 == 0
        ==> pending & 0x1F == 0)) by (bit_vector);
}

/// A line of the joypad is low exactly where a held button of a selected group pulls it.
pub proof fn law_held_buttons_pull_their_lines(select: u8, pressed: u8, line: u8)
    requires
        line < 4,
    ensures
        joypad_lines(select, pressed) & (1u8 << line) == 0 <==> {
            ||| select & 0x10 == 0 && pressed & (1u8 << line) != 0
            ||| select & 0x20 == 0 && pressed & (1u8 << ((line + 4) as u8)) != 0
        },
        joypad_lines(select, pressed) <= 0x0F,
{
    let high: u8 = (line + 4) as u8;
    let none: u8 = 0;
    let directions: u8 = pressed & 0x0F;
    let buttons: u8 = pressed >> 4;
    assert(((0x0F & !(none | none)) & (1u8 << line) != 0) && (((0x0F & !(directions | none)) & (1u8
        << line) == 0) <==> pressed & (1u8 << line) != 0) && (((0x0F & !(none | buttons)) & (1u8
        << line) == 0) <==> pressed & (1u8 << high) != 0) && (((0x0F & !(directions | buttons)) & (
    1u8 << line) == 0) <==> (pressed & (1u8 << line) != 0 || pressed & (1u8 << high) != 0)) && 0x0F
        & !(none | none) <= 0x0F && 0x0F & !(directions | none) <= 0x0F && 0x0F & !(none | buttons)
        <= 0x0F && 0x0F & !(directions | buttons) <= 0x0F) by (bit_vector)
        requires
            line < 4,
            high == line + 4,
            none == 0,
            directions == pressed & 0x0F,
            buttons == pressed >> 4,
    ;
}

/// Starting a serial transfer appends the byte in the data register to the output, and requests
/// the interrupt.
pub proof fn law_serial_transfer_appends(machine: MachineState)
    requires
        machine.wf(),
    ensures
        ({
            let sent = machine.write8(SERIAL_SC, 0x81);
            &&& sent.serial_output == machine.serial_output.push(machine.reg(SERIAL_SB))
            &&& sent.reg(IF_REGISTER) & 0x08 != 0
        }),
{
    reveal(MachineState::write8);
    reveal(MachineState::record_watchpoint);
    reveal(MachineState::store8);
    reveal(MachineState::write_io);
    let requested = machine.reg(IF_REGISTER);
    assert((requested | 0x08 | 0xE0) & 0x08 != 0) by (bit_vector);
}

/// A timer that overflows shows zero, and its reload brings the modulo and the request.
pub proof fn law_timer_overflow_reloads(machine: MachineState)
    requires
        machine.wf(),
        machine.reg(TIMER_TIMA) == 0xFF,
    ensures
        machine.increment_tima().reg(TIMER_TIMA) == 0,
        machine.increment_tima().step_reload().reg(TIMER_TIMA) == machine.reg(TIMER_TMA),
        machine.increment_tima().step_reload().reg(IF_REGISTER) & 0x04 != 0,
{
    let requested = machine.reg(IF_REGISTER);
    assert((requested | 0x04 | 0xE0) & 0x04 != 0) by (bit_vector);
}

impl MachineState {
    /// The line counter is on a line of the picture, or in the vertical blank on one of the ten
    /// lines behind it.
    pub open spec fn line_in_range(self) -> bool {
        self.reg(LY_REGISTER) <= (if self.lcd_enabled() && self.ppu_mode == PpuMode::VBlank {
            153int
        } else {
            143
        })
    }
}

proof fn lemma_line_by_time(machine: MachineState)
    requires
        machine.wf(),
        machine.line_in_range(),
    ensures
        machine.step_ppu_cycle().line_in_range(),
{
    reveal(MachineState::step_ppu_cycle);
    reveal(MachineState::next_ppu_mode);
    reveal(MachineState::switch_ppu_mode);
    reveal(MachineState::update_lyc_compare_interrupt);
}

proof fn lemma_line_by_write(machine: MachineState, address: u16, value: u8)
    requires
        machine.wf(),
        machine.line_in_range(),
        IO_START <= address <= IO_END,
    ensures
        machine.write_io(address, value).line_in_range(),
{
    reveal(MachineState::write_io);
    if address == LCDC_REGISTER {
        assert(machine.write_lcdc(value).line_in_range());
    }
}

/// The line counter never leaves its range, neither by time nor by writes.
pub proof fn law_line_counter_stays_in_range(machine: MachineState, address: u16, value: u8)
    requires
        machine.wf(),
        machine.line_in_range(),
        IO_START <= address <= IO_END,
    ensures
        machine.step_ppu_cycle().line_in_range(),
        machine.write_io(address, value).line_in_range(),
        machine.reset().line_in_range(),
{
    lemma_line_by_time(machine);
    lemma_line_by_write(machine, address, value);
}

/// A refused request changes nothing, unless it was a run, which goes as far as it can.
pub proof fn law_refused_request_changes_nothing(
    request: Request,
    before: SessionView,
    after: SessionView,
    result: Result<Response, String>,
)
    requires
        answered(request, before, after, result),
        result is Err,
        !(request is Step || request is RunForCycles || request is RunForInstructions
            || request is Run),
    ensures
        after == before,
{
}

/// Without a ROM, every request that needs the machine is answered by the same error.
pub proof fn law_requests_need_a_rom(
    request: Request,
    before: SessionView,
    after: SessionView,
    result: Result<Response, String>,
)
    requires
        before.machine is None,
        needs_machine(request),
        answered(request, before, after, result),
    ensures
        result is Err,
        result->Err_0@ == "no ROM loaded"@,
        after == before,
{
}

/// A snapshot that a session answered with brings the machine back when it is loaded, whatever was
/// done in between.
pub proof fn law_session_snapshot_restores(
    saved_in: SessionView,
    saved_after: SessionView,
    saved: Result<Response, String>,
    state: SnapshotState,
    before: SessionView,
    after: SessionView,
    loaded: Result<Response, String>,
)
    requires
        saved_in.machine is Some,
        saved_in.wf(),
        answered(Request::SaveSnapshot, saved_in, saved_after, saved),
        saved matches Ok(Response::State(answer)) && answer == state,
        answered(Request::LoadSnapshot { state }, before, after, loaded),
    ensures
        loaded is Ok,
        after.machine == saved_in.machine,
{
    law_saved_state_restores_the_machine(state, saved_in.machine->0);
}

/// Cartridge state that a session answered with is taken over by a session with the same cartridge:
/// RAM and clock are those that were saved, and nothing else changes.
pub proof fn law_session_cartridge_state_restores(
    saved_in: SessionView,
    saved_after: SessionView,
    saved: Result<Response, String>,
    state: PersistentState,
    before: SessionView,
    after: SessionView,
    loaded: Result<Response, String>,
)
    requires
        saved_in.machine is Some,
        saved_in.wf(),
        answered(Request::SaveCartState, saved_in, saved_after, saved),
        saved matches Ok(Response::CartState(answer)) && answer == state,
        before.machine is Some,
        before.machine->0.cartridge.same_cartridge(saved_in.machine->0.cartridge),
        answered(Request::LoadCartState { state }, before, after, loaded),
    ensures
        loaded is Ok,
        after == before.with_machine(
            MachineState {
                cartridge: CartridgeState {
                    ram: saved_in.machine->0.cartridge.ram,
                    rtc: saved_in.machine->0.cartridge.rtc,
                    ..before.machine->0.cartridge
                },
                ..before.machine->0
            },
        ),
{
    law_cartridge_state_restores(
        saved_in.machine->0.cartridge,
        state,
        before.machine->0.cartridge,
    );
}

/// Exported RAM is brought back by its import, into any cartridge with as much RAM.
pub proof fn law_exported_ram_is_imported(
    exported_in: SessionView,
    exported_after: SessionView,
    exported: Result<Response, String>,
    bytes: Vec<u8>,
    before: SessionView,
    after: SessionView,
    imported: Result<Response, String>,
)
    requires
        exported_in.machine is Some,
        answered(Request::ExportSaveRam, exported_in, exported_after, exported),
        exported matches Ok(Response::SaveRam(answer)) && answer == bytes,
        before.machine is Some,
        before.machine->0.cartridge.ram.len() == exported_in.machine->0.cartridge.ram.len(),
        answered(Request::ImportSaveRam { bytes }, before, after, imported),
    ensures
        imported is Ok,
        after.machine is Some,
        after.machine->0.cartridge.ram == exported_in.machine->0.cartridge.ram,
{
}

} // verus!
