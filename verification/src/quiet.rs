//! The processor at work on plain memory, with nothing else in its way.

use vstd::prelude::*;

use crate::cartridge::CartridgeState;
use crate::machine::{ExecState, MachineState, OamCorruptionKind};
use crate::registers::{high, low, Registers};

verus! {

impl MachineState {
    /// Only the processor uses memory, which has its sizes.
    pub open spec fn at_ease(self) -> bool {
        &&& !self.dma_active
        &&& self.dma_requested_source is None
        &&& self.dma_starting_source is None
        &&& self.wram.len() == 0x2000
        &&& self.hram.len() == 0x7F
        &&& self.io.len() == 0x80
        &&& self.cartridge.rom.len() > 0
    }

    /// Addresses that read and write back without any effect: work RAM with its echo, and high RAM.
    pub open spec fn writable(self, address: int) -> bool {
        0xC000 <= address <= 0xFDFF || 0xFF80 <= address <= 0xFFFE
    }

    /// Addresses that read without any effect: RAM, and the cartridge's ROM where the boot ROM does
    /// not cover it.
    pub open spec fn plain(self, address: int) -> bool {
        ||| self.writable(address)
        ||| 0 <= address <= 0x7FFF && (address >= 0x100 || !self.bootrom_active)
    }

    /// The byte that stands there.
    pub open spec fn held(self, address: int) -> u8 {
        if address <= 0x3FFF {
            self.cartridge.rom[(self.cartridge.rom_offsets.0 + address)
                % (self.cartridge.rom.len() as int)]
        } else if address <= 0x7FFF {
            self.cartridge.rom[(self.cartridge.rom_offsets.1 + (address - 0x4000))
                % (self.cartridge.rom.len() as int)]
        } else if address <= 0xFDFF {
            self.wram[address % 0x2000]
        } else {
            self.hram[address - 0xFF80]
        }
    }

    /// With a byte of RAM replaced.
    pub open spec fn holding(self, address: int, value: u8) -> MachineState {
        if address <= 0xFDFF {
            MachineState { wram: self.wram.update(address % 0x2000, value), ..self }
        } else {
            MachineState { hram: self.hram.update(address - 0xFF80, value), ..self }
        }
    }

    /// The same program, memory and processor, some clock cycles later.
    pub open spec fn rested(self, before: MachineState, cycles: int) -> bool {
        &&& self.at_ease()
        &&& self.cartridge == (CartridgeState { rtc: self.cartridge.rtc, ..before.cartridge })
        &&& self.bootrom_active == before.bootrom_active
        &&& self.wram == before.wram
        &&& self.hram == before.hram
        &&& self.ie == before.ie
        &&& self.registers == before.registers
        &&& self.prefetched_pc == before.prefetched_pc
        &&& self.prefetched_opcode == before.prefetched_opcode
        &&& self.ime == before.ime
        &&& self.exec_state == before.exec_state
        &&& self.cycle_counter == before.cycle_counter + cycles
    }

    /// An instruction took so many clock cycles and left these registers; the next instruction, at
    /// their program counter, has been read, unless an interrupt comes first. No request of the
    /// picture unit is held back. Memory is that of the other machine.
    pub open spec fn proceeds(
        self,
        before: MachineState,
        registers: Registers,
        cycles: int,
    ) -> bool {
        &&& self.at_ease()
        &&& self.cartridge == (CartridgeState { rtc: self.cartridge.rtc, ..before.cartridge })
        &&& self.bootrom_active == before.bootrom_active
        &&& self.wram == before.wram
        &&& self.hram == before.hram
        &&& self.ie == before.ie
        &&& self.ime == before.ime
        &&& self.cycle_counter == before.cycle_counter + cycles
        &&& self.pending_t34_interrupts == 0
        &&& self.prefetched_pc == Some(registers.pc)
        &&& self.plain(registers.pc as int) ==> self.prefetched_opcode == Some(
            self.held(registers.pc as int),
        )
        &&& self.exec_state == ExecState::Running || self.exec_state
            == ExecState::InterruptDispatch && self.ime
        &&& self.registers == (if self.exec_state == ExecState::Running {
            Registers { pc: ((registers.pc + 1) % 0x10000) as u16, ..registers }
        } else {
            registers
        })
    }
}

proof fn lemma_copy_rests(machine: MachineState)
    requires
        machine.at_ease(),
    ensures
        machine.step_dma_mcycle().rested(machine, 0),
{
    reveal(MachineState::step_dma_mcycle);
}

proof fn lemma_picture_rests(machine: MachineState)
    requires
        machine.at_ease(),
    ensures
        machine.step_ppu_cycle().rested(machine, 0),
{
    reveal(MachineState::step_ppu_cycle);
    reveal(MachineState::next_ppu_mode);
    reveal(MachineState::switch_ppu_mode);
    reveal(MachineState::update_lyc_compare_interrupt);
}

proof fn lemma_timer_rests(machine: MachineState)
    requires
        machine.at_ease(),
    ensures
        machine.step_timer_cycle().rested(machine, 0),
{
    reveal(MachineState::step_timer_cycle);
}

proof fn lemma_ticks_rest(machine: MachineState, cycles: nat)
    requires
        machine.at_ease(),
        machine.cycle_counter + cycles <= u64::MAX,
    ensures
        machine.ticks(cycles).rested(machine, cycles as int),
    decreases cycles,
{
    if cycles > 0 {
        lemma_ticks_rest(machine, (cycles - 1) as nat);
        let before = machine.ticks((cycles - 1) as nat);
        let counted = MachineState {
            cycle_counter: (before.cycle_counter + 1) as u64,
            ..before
        };
        reveal(MachineState::tick);
        lemma_copy_rests(counted);
        lemma_picture_rests(counted.step_dma_mcycle());
        lemma_timer_rests(counted.step_dma_mcycle().step_ppu_cycle());
    }
}

pub broadcast proof fn lemma_time_rests(machine: MachineState, cycles: u16)
    requires
        machine.at_ease(),
        machine.cycle_counter + cycles <= u64::MAX,
    ensures
        (#[trigger] machine.tick_timers(cycles)).rested(machine, cycles as int),
{
    reveal(MachineState::tick_timers);
    lemma_ticks_rest(
        MachineState { cartridge: machine.cartridge.after_cycles(cycles), ..machine },
        cycles as nat,
    );
}

pub broadcast proof fn lemma_flush_rests(machine: MachineState)
    requires
        machine.at_ease(),
    ensures
        (#[trigger] machine.flush_pending_t34_interrupts()).rested(machine, 0),
{
}

pub broadcast proof fn lemma_mcycle_rests(machine: MachineState)
    requires
        machine.at_ease(),
        machine.cycle_counter + 4 <= u64::MAX,
    ensures
        (#[trigger] machine.tick_mcycle()).rested(machine, 4),
{
    broadcast use {lemma_time_rests, lemma_flush_rests};

    reveal(MachineState::tick_mcycle);
}

pub broadcast proof fn lemma_disturbance_rests(
    machine: MachineState,
    address: u16,
    kind: OamCorruptionKind,
)
    requires
        machine.at_ease(),
    ensures
        (#[trigger] machine.maybe_trigger_oam_bug(address, kind)).rested(machine, 0),
{
    reveal(MachineState::maybe_trigger_oam_bug);
}

pub broadcast proof fn lemma_look_rests(machine: MachineState, address: u16)
    requires
        machine.at_ease(),
    ensures
        (#[trigger] machine.after_read8(address)).rested(machine, 0),
{
    reveal(MachineState::after_read8);
    reveal(MachineState::record_watchpoint);
}

pub broadcast proof fn lemma_look(machine: MachineState, address: u16)
    requires
        machine.at_ease(),
        machine.plain(address as int),
    ensures
        #[trigger] machine.read8(address) == machine.held(address as int),
{
    reveal(MachineState::read8);
    reveal(MachineState::peek8);
}

pub broadcast proof fn lemma_put(machine: MachineState, address: u16, value: u8)
    requires
        machine.at_ease(),
        machine.writable(address as int),
    ensures
        (#[trigger] machine.write8(address, value)).rested(
            machine.holding(address as int, value),
            0,
        ),
{
    reveal(MachineState::write8);
    reveal(MachineState::record_watchpoint);
    reveal(MachineState::store8);
}

pub broadcast group group_time {
    lemma_time_rests,
    lemma_flush_rests,
    lemma_mcycle_rests,
    lemma_disturbance_rests,
    lemma_look_rests,
    lemma_look,
    lemma_put,
}

pub broadcast proof fn lemma_read_cycle(machine: MachineState, address: u16)
    requires
        machine.at_ease(),
        machine.cycle_counter + 4 <= u64::MAX,
        machine.plain(address as int),
    ensures
        #[trigger] machine.read_cycle(address) == machine.held(address as int),
{
    broadcast use group_time;

    reveal(MachineState::read_cycle);
}

pub broadcast proof fn lemma_read_cycle_rests(machine: MachineState, address: u16)
    requires
        machine.at_ease(),
        machine.cycle_counter + 4 <= u64::MAX,
    ensures
        (#[trigger] machine.after_read_cycle(address)).rested(machine, 4),
{
    broadcast use group_time;

    reveal(MachineState::after_read_cycle);
}

pub broadcast proof fn lemma_write_cycle(machine: MachineState, address: u16, value: u8)
    requires
        machine.at_ease(),
        machine.cycle_counter + 4 <= u64::MAX,
        machine.writable(address as int),
    ensures
        (#[trigger] machine.write_cycle(address, value)).rested(
            machine.holding(address as int, value),
            4,
        ),
{
    broadcast use group_time;

    reveal(MachineState::write_cycle);
}

pub broadcast proof fn lemma_fetch(machine: MachineState)
    requires
        machine.at_ease(),
        machine.cycle_counter + 4 <= u64::MAX,
        machine.plain(machine.registers.pc as int),
    ensures
        #[trigger] machine.fetch8() == machine.held(machine.registers.pc as int),
{
    broadcast use lemma_read_cycle;

    reveal(MachineState::fetch8);
}

pub broadcast proof fn lemma_fetch_rests(machine: MachineState)
    requires
        machine.at_ease(),
        machine.cycle_counter + 4 <= u64::MAX,
    ensures
        (#[trigger] machine.after_fetch8()).rested(
            machine.with_pc(((machine.registers.pc + 1) % 0x10000) as u16),
            4,
        ),
{
    broadcast use lemma_read_cycle_rests;

    reveal(MachineState::after_fetch8);
}

pub broadcast proof fn lemma_fetch_word(machine: MachineState)
    requires
        machine.at_ease(),
        machine.cycle_counter + 8 <= u64::MAX,
        machine.plain(machine.registers.pc as int),
        machine.plain(machine.registers.pc + 1),
    ensures
        #[trigger] machine.fetch16() == 256 * machine.held(machine.registers.pc + 1) + machine.held(
            machine.registers.pc as int,
        ),
{
    broadcast use {lemma_fetch, lemma_fetch_rests};

    reveal(MachineState::fetch16);
    let next = machine.after_fetch8();
    assert(next.fetch8() == next.held(machine.registers.pc + 1));
}

pub broadcast proof fn lemma_fetch_word_rests(machine: MachineState)
    requires
        machine.at_ease(),
        machine.cycle_counter + 8 <= u64::MAX,
    ensures
        (#[trigger] machine.after_fetch16()).rested(
            machine.with_pc(((machine.registers.pc + 2) % 0x10000) as u16),
            8,
        ),
{
    broadcast use lemma_fetch_rests;

    reveal(MachineState::after_fetch16);
}

pub broadcast proof fn lemma_proceeds(machine: MachineState, address: u16, allow: bool)
    requires
        machine.at_ease(),
        machine.cycle_counter + 4 <= u64::MAX,
    ensures
        (#[trigger] machine.prefetch(address, true, allow)).proceeds(
            machine,
            Registers { pc: address, ..machine.registers },
            4,
        ),
        !allow || !machine.ime ==> machine.prefetch(address, true, allow).exec_state
            == ExecState::Running,
{
    broadcast use group_time;

    reveal(MachineState::prefetch);
}

proof fn lemma_push_byte(machine: MachineState, value: u8)
    requires
        machine.at_ease(),
        machine.cycle_counter + 4 <= u64::MAX,
        machine.writable(machine.registers.sp - 1),
    ensures
        machine.push8(value).rested(
            machine.holding(machine.registers.sp - 1, value).with_sp(
                (machine.registers.sp - 1) as u16,
            ),
            4,
        ),
{
    broadcast use {group_time, lemma_write_cycle};

    reveal(MachineState::push8);
}

pub broadcast proof fn lemma_push(machine: MachineState, value: u16)
    requires
        machine.at_ease(),
        machine.cycle_counter + 8 <= u64::MAX,
        machine.writable(machine.registers.sp - 1),
        machine.writable(machine.registers.sp - 2),
    ensures
        (#[trigger] machine.push16(value)).rested(
            machine.holding(machine.registers.sp - 1, (value / 256) as u8).holding(
                machine.registers.sp - 2,
                (value % 256) as u8,
            ).with_sp((machine.registers.sp - 2) as u16),
            8,
        ),
{
    reveal(MachineState::push16);
    lemma_push_byte(machine, high(value));
    lemma_push_byte(machine.push8(high(value)), low(value));
}

proof fn lemma_pop_byte(machine: MachineState)
    requires
        machine.at_ease(),
        machine.cycle_counter + 4 <= u64::MAX,
        machine.plain(machine.registers.sp as int),
    ensures
        machine.pop8() == machine.held(machine.registers.sp as int),
        machine.after_pop8().rested(
            machine.with_sp(((machine.registers.sp + 1) % 0x10000) as u16),
            4,
        ),
{
    broadcast use group_time;

    reveal(MachineState::pop8);
    reveal(MachineState::after_pop8);
}

pub broadcast proof fn lemma_pop(machine: MachineState)
    requires
        machine.at_ease(),
        machine.cycle_counter + 8 <= u64::MAX,
        machine.plain(machine.registers.sp as int),
        machine.plain(machine.registers.sp + 1),
    ensures
        #[trigger] machine.pop16() == 256 * machine.held(machine.registers.sp + 1) + machine.held(
            machine.registers.sp as int,
        ),
{
    reveal(MachineState::pop16);
    lemma_pop_byte(machine);
    lemma_pop_byte(machine.after_pop8());
}

pub broadcast proof fn lemma_pop_rests(machine: MachineState)
    requires
        machine.at_ease(),
        machine.cycle_counter + 8 <= u64::MAX,
        machine.plain(machine.registers.sp as int),
        machine.plain(machine.registers.sp + 1),
    ensures
        (#[trigger] machine.after_pop16()).rested(
            machine.with_sp(((machine.registers.sp + 2) % 0x10000) as u16),
            8,
        ),
{
    reveal(MachineState::after_pop16);
    lemma_pop_byte(machine);
    lemma_pop_byte(machine.after_pop8());
}

pub broadcast group group_bus {
    lemma_time_rests,
    lemma_flush_rests,
    lemma_mcycle_rests,
    lemma_disturbance_rests,
    lemma_look_rests,
    lemma_read_cycle,
    lemma_read_cycle_rests,
    lemma_write_cycle,
    lemma_fetch,
    lemma_fetch_rests,
    lemma_fetch_word,
    lemma_fetch_word_rests,
    lemma_proceeds,
    lemma_push,
    lemma_pop,
    lemma_pop_rests,
}

} // verus!
