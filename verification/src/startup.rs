//! The way from power on to the cartridge's program: what the built-in boot ROM does when it runs.

use vstd::prelude::*;

use crate::alu::{decremented8, signed};
use crate::boot::{
    boot_code, boot_epilogue, boot_lcdc_to_entry_cycles, boot_offsets, boot_p1, boot_prologue,
    boot_registers, boot_startup_delay, boot_values, delay_call_cycles, delay_code, delay_nops,
    is_best_delay, is_super, lemma_boot_code_fits, machine_fault, new_machine, synthetic_bootrom,
    write_code, BOOT_WRITES,
};
use crate::cpu::{Reg16Pair, Reg8Id};
use crate::execute::illegal_opcode;
use crate::interface::StopReason;
use crate::io::{trigger_channel, BOOT_REGISTER};
use crate::laws::law_runs_join;
use crate::machine::{
    joypad_lines, ExecState, MachineState, PpuMode, APU_STATUS, DMA_REGISTER, IF_REGISTER,
    IO_START, LCDC_REGISTER, LY_REGISTER, SERIAL_SC, STAT_REGISTER, TIMER_DIV, TIMER_TAC,
};
use crate::model::{GbError, GbModel};
use crate::registers::{high, low, word, Registers};
use crate::render::BG_PALETTE;

verus! {

/// Where a cartridge's program is entered.
pub const PROGRAM_ENTRY: u16 = 0x0100;

/// What the course of a starting machine depends on, and what of it is seen at its end.
#[verifier::ext_equal]
pub struct Course {
    pub bootrom: Option<Seq<u8>>,
    pub bootrom_active: bool,
    pub model: GbModel,
    pub rom: Seq<u8>,
    pub hram: Seq<u8>,
    pub ie: u8,
    pub registers: Registers,
    pub prefetched_pc: Option<u16>,
    pub prefetched_opcode: Option<u8>,
    pub age: int,
    pub select: u8,
    pub lcdc: u8,
    pub palette: u8,
    pub sound_on: bool,
}

impl Course {
    /// The byte of the program at an address of the first ROM bank.
    pub open spec fn byte(self, address: int) -> u8 {
        if address <= 0xFF && self.bootrom_active {
            self.bootrom->0[address]
        } else {
            self.rom[address]
        }
    }

    pub open spec fn with_registers(self, registers: Registers) -> Course {
        Course { registers, ..self }
    }

    /// So many clock cycles later.
    pub open spec fn later(self, cycles: int) -> Course {
        Course { age: self.age + cycles, ..self }
    }

    /// The instruction at the program counter of the given registers has been read.
    pub open spec fn at(self, registers: Registers) -> Course {
        Course {
            registers: Registers { pc: (registers.pc + 1) as u16, ..registers },
            prefetched_pc: Some(registers.pc),
            prefetched_opcode: Some(self.byte(registers.pc as int)),
            ..self
        }
    }

    /// A byte is stored in the page of registers and high RAM.
    pub open spec fn stored(self, address: u16, value: u8) -> Course {
        if address == 0xFFFF {
            Course { ie: value, ..self }
        } else if address >= 0xFF80 {
            Course { hram: self.hram.update(address - 0xFF80, value), ..self }
        } else if address == BOOT_REGISTER {
            Course { bootrom_active: self.bootrom_active && value & 0x01 == 0, ..self }
        } else if address == IO_START {
            Course { select: 0xC0 | (value & 0x30) | 0x0F, ..self }
        } else if address == LCDC_REGISTER {
            Course { lcdc: value, ..self }
        } else if address == BG_PALETTE {
            Course { palette: value, ..self }
        } else if address == APU_STATUS {
            Course { sound_on: value & 0x80 != 0, ..self }
        } else {
            self
        }
    }

    /// Not so old that a counter could run over.
    pub open spec fn young(self) -> bool {
        self.age < 0x1000_0000
    }
}

/// Stores that request no interrupt but the one that is to be requested at the end, and that
/// start nothing.
pub open spec fn harmless_store(address: u16, value: u8) -> bool {
    &&& address >= IO_START
    &&& address != DMA_REGISTER
    &&& address != SERIAL_SC
    &&& address != LY_REGISTER
    &&& !(TIMER_DIV <= address <= TIMER_TAC)
    &&& address == STAT_REGISTER ==> value & 0x78 == 0
    &&& address == IF_REGISTER ==> value == 0xE1
}

impl MachineState {
    pub open spec fn course(self) -> Course {
        Course {
            bootrom: self.bootrom,
            bootrom_active: self.bootrom_active,
            model: self.model,
            rom: self.cartridge.rom,
            hram: self.hram,
            ie: self.ie,
            registers: self.registers,
            prefetched_pc: self.prefetched_pc,
            prefetched_opcode: self.prefetched_opcode,
            age: self.cycle_counter as int,
            select: self.reg(IO_START),
            lcdc: self.reg(LCDC_REGISTER),
            palette: self.reg(BG_PALETTE),
            sound_on: self.apu_enabled(),
        }
    }

    /// Nothing but its own instructions leads the machine's course: interrupts are disabled, nothing
    /// is watched or copied, the first ROM bank is in its place, and of the hardware only the
    /// vertical blank can request an interrupt.
    pub open spec fn steady(self) -> bool {
        &&& self.unwatched()
        &&& self.copies_nothing()
        &&& !self.ime
        &&& self.exec_state == ExecState::Running
        &&& self.bootrom is Some
        &&& self.hram.len() == 0x7F
        &&& self.io.len() == 0x80
        &&& self.cartridge.rom.len() >= 0x8000
        &&& self.cartridge.rom_offsets.0 == 0
        &&& self.joypad.pressed == 0
        &&& self.reg(TIMER_TAC) == 0xF8
        &&& self.tima_reload_state is None
        &&& self.reg(STAT_REGISTER) & 0x78 == 0
        &&& self.reg(APU_STATUS) & 0x70 == 0x70
        &&& self.pending_t34_interrupts <= 1
    }

    /// Steady, with a divider that counts every fourth clock cycle.
    pub open spec fn calm(self) -> bool {
        &&& self.steady()
        &&& self.div_counter == self.cycle_counter as int / 4 % 0x10000
    }

    /// Exactly the interrupt that the boot ROM requests is requested.
    pub open spec fn armed(self) -> bool {
        self.reg(IF_REGISTER) == 0xE1
    }

    /// Steady, with the same course and divider.
    pub open spec fn like(self, before: MachineState) -> bool {
        &&& self.steady()
        &&& self.course() == before.course()
        &&& self.div_counter == before.div_counter
        &&& before.armed() ==> self.armed()
    }

    /// Calm, some clock cycles later.
    pub open spec fn waited(self, before: MachineState, cycles: int) -> bool {
        &&& self.calm()
        &&& self.course() == before.course().later(cycles)
        &&& before.armed() ==> self.armed()
    }

    /// A calm machine that is about to execute the instruction at the program counter of the given
    /// registers.
    pub open spec fn stands(self, base: Course, registers: Registers) -> bool {
        self.calm() && self.course() == base.at(registers)
    }

    /// One step brings the machine there.
    pub open spec fn moves(self, base: Course, registers: Registers) -> bool {
        &&& self.step().outcome == Ok::<StopReason, GbError>(StopReason::StepComplete)
        &&& self.step().machine.stands(base, registers)
        &&& self.armed() ==> self.step().machine.armed()
    }

    /// In fewer steps the program's entry is not reached.
    pub open spec fn not_entered_before(self, steps: nat) -> bool {
        forall|k: nat|
            k < steps ==> (#[trigger] self.run(k)).machine.logical_pc() != PROGRAM_ENTRY
    }

    /// So many steps bring the machine there, without coming to the program's entry before.
    pub open spec fn arrives(self, steps: nat, base: Course, registers: Registers) -> bool {
        &&& self.ran_all(steps)
        &&& self.not_entered_before(steps)
        &&& self.run(steps).machine.stands(base, registers)
        &&& self.armed() ==> self.run(steps).machine.armed()
    }
}

/// No bit of the status register that enables an interrupt comes to be set by itself.
proof fn lemma_stat_bits(stat: u8, mode: u8)
    requires
        stat & 0x78 == 0,
        mode <= 3,
    ensures
        stat & 0x08 == 0,
        stat & 0x20 == 0,
        stat & 0x30 == 0,
        stat & 0x40 == 0,
        (stat | 0x04) & 0x78 == 0,
        (stat & !0x04) & 0x78 == 0,
        (((stat & 0xFC) | 0x80) | mode) & 0x78 == 0,
{
    assert(stat & 0x08 == 0 && stat & 0x20 == 0 && stat & 0x30 == 0 && stat & 0x40 == 0 && (stat
        | 0x04) & 0x78 == 0 && (stat & !0x04) & 0x78 == 0 && (((stat & 0xFC) | 0x80) | mode) & 0x78
        == 0) by (bit_vector)
        requires
            stat & 0x78 == 0,
            mode <= 3,
    ;
}

/// What single bytes come to under the operations that the boot ROM meets.
proof fn lemma_fixed_bits(byte: u8)
    ensures
        0x0Fu8 & !(0u8 | 0u8) == 0x0F,
        0u8 & 0x0F == 0,
        0u8 >> 4 == 0,
        0x0Fu8 & !0x0Fu8 == 0,
        0xE1u8 | 0xE0 == 0xE1,
        byte ^ byte == 0,
        0u8 & (1u8 << 0u8) == 0,
        0xF0u8 & 0x80 != 0,
        0xF1u8 & 0x80 != 0,
        0x83u8 & 0x78 == 0,
        0x80u8 & 0x78 == 0,
        0x01u8 & 0x01 != 0,
        0xFFu8 & 0x01 != 0,
        0x00u8 & 0x78 == 0,
        0x70u8 & 0x70 == 0x70,
        byte & 0x70 == 0x70 && byte & 0x80 != 0 ==> byte & 0xF0 == 0xF0,
        0xC0u8 | ((0xC0u8 | (0xCFu8 & 0x30) | 0x0F) & 0x30) | 0x0F == 0xCF,
        0xC0u8 | ((0xC0u8 | (0xFFu8 & 0x30) | 0x0F) & 0x30) | 0x0F == 0xFF,
        byte | 0x00 == byte,
        0xE1u8 | 0x00 == 0xE1,
        0x91u8 | 0x00 == 0x91,
        0xFCu8 | 0x00 == 0xFC,
{
    assert((0x0Fu8 & !(0u8 | 0u8) == 0x0F) && (0u8 & 0x0F == 0) && (0u8 >> 4 == 0) && (0x0Fu8 & !0x0Fu8 == 0) && (0xE1u8 | 0xE0 == 0xE1) && (byte ^ byte == 0) && (0u8 & (1u8 << 0u8) == 0) && (0xF0u8 & 0x80 != 0) && (0xF1u8 & 0x80 != 0) && (0x83u8 & 0x78 == 0) && (0x80u8 & 0x78 == 0) && (0x01u8 & 0x01 != 0) && (0xFFu8 & 0x01 != 0) && (0x00u8 & 0x78 == 0) && (0x70u8 & 0x70 == 0x70) && (byte & 0x70 == 0x70 && byte & 0x80 != 0 ==> byte & 0xF0 == 0xF0) && (0xC0u8 | ((0xC0u8 | (0xCFu8 & 0x30) | 0x0F) & 0x30) | 0x0F == 0xCF) && (0xC0u8 | ((0xC0u8 | (0xFFu8 & 0x30) | 0x0F) & 0x30) | 0x0F == 0xFF) && (byte | 0x00 == byte) && (0xE1u8 | 0x00 == 0xE1) && (0x91u8 | 0x00 == 0x91) && (0xFCu8 | 0x00 == 0xFC)) by (bit_vector);
}

/// Requesting the vertical blank leaves no other request behind; the timer of a steady machine is
/// off.
proof fn lemma_request_bits(mask: u8)
    requires
        mask <= 1,
    ensures
        mask | 0x01 == 1,
        0xE1u8 | mask | 0xE0 == 0xE1,
        0xF8u8 & 0x04 == 0,
{
    assert(mask | 0x01 == 1 && 0xE1u8 | mask | 0xE0 == 0xE1 && 0xF8u8 & 0x04 == 0) by (bit_vector)
        requires
            mask <= 1,
    ;
}

proof fn lemma_copy_like(machine: MachineState)
    requires
        machine.steady(),
    ensures
        machine.step_dma_mcycle().like(machine),
{
    reveal(MachineState::step_dma_mcycle);
}

proof fn lemma_switch_like(machine: MachineState, mode: PpuMode)
    requires
        machine.steady(),
    ensures
        machine.switch_ppu_mode(mode).like(machine),
        machine.switch_ppu_mode(mode).io == machine.io,
{
    reveal(MachineState::switch_ppu_mode);
    lemma_stat_bits(machine.reg(STAT_REGISTER), 0);
    lemma_request_bits(machine.pending_t34_interrupts);
}

proof fn lemma_compare_like(machine: MachineState, old_match: bool)
    requires
        machine.steady(),
    ensures
        machine.update_lyc_compare_interrupt(old_match).like(machine),
{
    reveal(MachineState::update_lyc_compare_interrupt);
    let stat = machine.reg(STAT_REGISTER);
    lemma_stat_bits(stat, 0);
    lemma_stat_bits(stat | 0x04, 0);
    lemma_stat_bits(stat & !0x04, 0);
}

proof fn lemma_next_mode_like(machine: MachineState, old_match: bool)
    requires
        machine.steady(),
    ensures
        machine.next_ppu_mode(old_match).like(machine),
{
    reveal(MachineState::next_ppu_mode);
    let next_ly = ((machine.reg(LY_REGISTER) + 1) % 256) as u8;
    let moved = machine.with_reg(LY_REGISTER, next_ly);
    let wrapped = machine.with_reg(LY_REGISTER, 0);
    assert(moved.like(machine));
    assert(wrapped.like(machine));
    lemma_switch_like(machine, PpuMode::AccessVram);
    lemma_switch_like(machine, PpuMode::HBlank);
    lemma_switch_like(moved, PpuMode::AccessOam);
    lemma_switch_like(moved, PpuMode::VBlank);
    lemma_switch_like(wrapped, PpuMode::AccessOam);
    lemma_compare_like(moved.switch_ppu_mode(PpuMode::AccessOam), old_match);
    lemma_compare_like(moved.switch_ppu_mode(PpuMode::VBlank), old_match);
    lemma_compare_like(wrapped.switch_ppu_mode(PpuMode::AccessOam), old_match);
    lemma_compare_like(
        MachineState {
            ppu_mode_cycles_remaining: crate::machine::PPU_VBLANK_LINE_CYCLES,
            ..moved
        },
        old_match,
    );
}

proof fn lemma_refresh_like(machine: MachineState)
    requires
        machine.steady(),
    ensures
        machine.refresh_stat().like(machine),
{
    lemma_stat_bits(machine.reg(STAT_REGISTER), machine.ppu_mode.number());
}

proof fn lemma_picture_like(machine: MachineState)
    requires
        machine.steady(),
    ensures
        machine.step_ppu_cycle().like(machine),
{
    reveal(MachineState::step_ppu_cycle);
    lemma_stat_bits(machine.reg(STAT_REGISTER), 0);
    let counted = machine.count_ppu_cycle();
    assert(counted.like(machine));
    lemma_refresh_like(counted);
    lemma_next_mode_like(counted, machine.at_compared_line());
    lemma_refresh_like(counted.next_ppu_mode(machine.at_compared_line()));
}

/// The timer is off: only the divider counts.
proof fn lemma_timer_counts(machine: MachineState)
    requires
        machine.steady(),
    ensures
        ({
            let after = machine.step_timer_cycle();
            &&& after.steady()
            &&& after.course() == machine.course()
            &&& after.div_counter == (machine.div_counter + 1) % 0x10000
            &&& machine.armed() ==> after.armed()
        }),
{
    reveal(MachineState::step_timer_cycle);
    lemma_request_bits(0);
}

proof fn lemma_tick_waited(machine: MachineState)
    requires
        machine.calm(),
        machine.cycle_counter < 0x2000_0000,
    ensures
        machine.tick().waited(machine, 1),
{
    reveal(MachineState::tick);
    let counted = MachineState { cycle_counter: (machine.cycle_counter + 1) as u64, ..machine };
    assert(counted.steady());
    lemma_copy_like(counted);
    let copied = counted.step_dma_mcycle();
    lemma_picture_like(copied);
    lemma_timer_counts(copied.step_ppu_cycle());
    assert(counted.course() == machine.course().later(1));
}

proof fn lemma_ticks_waited(machine: MachineState, cycles: nat)
    requires
        machine.calm(),
        machine.cycle_counter + cycles < 0x2000_0000,
    ensures
        machine.ticks(cycles).waited(machine, cycles as int),
    decreases cycles,
{
    if cycles > 0 {
        lemma_ticks_waited(machine, (cycles - 1) as nat);
        lemma_tick_waited(machine.ticks((cycles - 1) as nat));
    }
}

/// Time alone does not change the course.
proof fn lemma_time_waited(machine: MachineState)
    requires
        machine.calm(),
        machine.cycle_counter < 0x1800_0000,
    ensures
        machine.tick_timers(4).waited(machine, 4),
{
    reveal(MachineState::tick_timers);
    lemma_ticks_waited(MachineState { cartridge: machine.cartridge.after_cycles(4), ..machine }, 4);
}

proof fn lemma_flush_like(machine: MachineState)
    requires
        machine.steady(),
    ensures
        machine.flush_pending_t34_interrupts().like(machine),
{
    lemma_request_bits(machine.pending_t34_interrupts);
}

proof fn lemma_mcycle_waited(machine: MachineState)
    requires
        machine.calm(),
        machine.cycle_counter < 0x1800_0000,
    ensures
        machine.tick_mcycle().waited(machine, 4),
{
    reveal(MachineState::tick_mcycle);
    lemma_time_waited(machine);
    lemma_flush_like(machine.tick_timers(4));
}

/// A read of the first ROM bank gets a byte of the program and leaves nothing behind.
proof fn lemma_read_program(machine: MachineState, address: u16)
    requires
        machine.steady(),
        address <= 0x3FFF,
    ensures
        machine.read8(address) == machine.course().byte(address as int),
        machine.after_read8(address) == machine,
{
    reveal(MachineState::read8);
    reveal(MachineState::peek8);
    reveal(MachineState::after_read8);
    reveal(MachineState::record_watchpoint);
    vstd::arithmetic::div_mod::lemma_small_mod(address as nat, machine.cartridge.rom.len());
    assert(address % 0x4000 == address);
}

proof fn lemma_fetch(machine: MachineState)
    requires
        machine.calm(),
        machine.cycle_counter < 0x1800_0000,
        machine.registers.pc <= 0x3FFF,
    ensures
        machine.fetch8() == machine.course().byte(machine.registers.pc as int),
        machine.after_fetch8().calm(),
        machine.after_fetch8().course() == machine.course().later(4).with_registers(
            Registers { pc: (machine.registers.pc + 1) as u16, ..machine.registers },
        ),
        machine.armed() ==> machine.after_fetch8().armed(),
{
    reveal(MachineState::fetch8);
    reveal(MachineState::after_fetch8);
    reveal(MachineState::read_cycle);
    reveal(MachineState::after_read_cycle);
    lemma_time_waited(machine);
    lemma_read_program(machine.tick_timers(4), machine.registers.pc);
    lemma_flush_like(machine.tick_timers(4));
}

proof fn lemma_fetch_word(machine: MachineState)
    requires
        machine.calm(),
        machine.cycle_counter < 0x1400_0000,
        machine.registers.pc <= 0x3FFE,
    ensures
        machine.fetch16() == word(
            machine.course().byte(machine.registers.pc + 1),
            machine.course().byte(machine.registers.pc as int),
        ),
        machine.after_fetch16().calm(),
        machine.after_fetch16().course() == machine.course().later(8).with_registers(
            Registers { pc: (machine.registers.pc + 2) as u16, ..machine.registers },
        ),
        machine.armed() ==> machine.after_fetch16().armed(),
{
    reveal(MachineState::fetch16);
    reveal(MachineState::after_fetch16);
    lemma_fetch(machine);
    lemma_fetch(machine.after_fetch8());
}

/// The next instruction is read.
proof fn lemma_prefetch(machine: MachineState, address: u16)
    requires
        machine.calm(),
        machine.cycle_counter < 0x1400_0000,
        address <= 0x3FFF,
    ensures
        machine.prefetch(address, true, true).stands(
            machine.course().later(4),
            Registers { pc: address, ..machine.registers },
        ),
        machine.armed() ==> machine.prefetch(address, true, true).armed(),
{
    reveal(MachineState::prefetch);
    lemma_time_waited(machine);
    let ticked = machine.tick_timers(4);
    lemma_read_program(ticked, address);
    lemma_flush_like(
        MachineState {
            prefetched_pc: Some(address),
            prefetched_opcode: Some(ticked.read8(address)),
            ..ticked
        },
    );
}

/// A step executes the instruction that was read.
proof fn lemma_instruction(machine: MachineState, pc: u16, opcode: u8)
    requires
        machine.calm(),
        machine.prefetched_pc == Some(pc),
        machine.prefetched_opcode == Some(opcode),
        !illegal_opcode(opcode),
        machine.taken().execute_opcode(opcode).calm(),
    ensures
        machine.step().outcome == Ok::<StopReason, GbError>(StopReason::StepComplete),
        machine.step().machine.calm(),
        machine.step().machine.course() == machine.taken().execute_opcode(opcode).course(),
        machine.taken().execute_opcode(opcode).armed() ==> machine.step().machine.armed(),
{
    reveal(MachineState::step);
    reveal(MachineState::run_instruction);
    assert(MachineState { pending_watchpoint: None, ..machine } == machine);
    assert(!machine.has_pc_breakpoint(machine.logical_pc()));
    assert(!machine.has_opcode_breakpoint(machine.logical_opcode()));
    let executed = machine.taken().execute_opcode(opcode);
    assert(!executed.has_pc_breakpoint(executed.logical_pc()));
}

/// A step executes the instruction that the machine stands at.
proof fn lemma_step(machine: MachineState, base: Course, r: Registers)
    requires
        machine.stands(base, r),
        !illegal_opcode(base.byte(r.pc as int)),
        machine.taken().execute_opcode(base.byte(r.pc as int)).calm(),
    ensures
        machine.step().outcome == Ok::<StopReason, GbError>(StopReason::StepComplete),
        machine.step().machine.calm(),
        machine.step().machine.course() == machine.taken().execute_opcode(
            base.byte(r.pc as int),
        ).course(),
        machine.taken().execute_opcode(base.byte(r.pc as int)).armed()
            ==> machine.step().machine.armed(),
{
    lemma_instruction(machine, r.pc, base.byte(r.pc as int));
}

impl MachineState {
    /// The instruction that was read is taken up.
    pub open spec fn taken(self) -> MachineState {
        MachineState { prefetched_pc: None, prefetched_opcode: None, ..self }
    }
}

/// One more step.
proof fn lemma_extend(machine: MachineState, steps: nat, base: Course, r: Registers)
    requires
        machine.ran_all(steps),
        machine.not_entered_before(steps),
        machine.run(steps).machine.logical_pc() != PROGRAM_ENTRY,
        machine.armed() ==> machine.run(steps).machine.armed(),
        machine.run(steps).machine.moves(base, r),
    ensures
        machine.arrives(steps + 1, base, r),
        machine.run(steps + 1).machine == machine.run(steps).machine.step().machine,
{
    lemma_join(machine, steps, 1);
    let reached = machine.run(steps).machine;
    reveal_with_fuel(MachineState::run, 2);
    reveal_with_fuel(MachineState::ran_all, 2);
    assert(reached.run(1).machine == reached.step().machine);
    assert(reached.ran_all(1));
}

/// More steps.
proof fn lemma_continue(
    machine: MachineState,
    first: nat,
    second: nat,
    base: Course,
    r: Registers,
)
    requires
        machine.ran_all(first),
        machine.not_entered_before(first),
        machine.armed() ==> machine.run(first).machine.armed(),
        machine.run(first).machine.arrives(second, base, r),
    ensures
        machine.arrives(first + second, base, r),
        machine.run(first + second) == machine.run(first).machine.run(second),
{
    lemma_join(machine, first, second);
    assert forall|k: nat| k < first + second implies (#[trigger] machine.run(
        k,
    )).machine.logical_pc() != PROGRAM_ENTRY by {
        if k >= first {
            lemma_join(machine, first, (k - first) as nat);
        }
    }
}

proof fn lemma_join(machine: MachineState, first: nat, second: nat)
    requires
        machine.ran_all(first),
    ensures
        machine.ran_all(first + second) == machine.run(first).machine.ran_all(second),
        machine.run(first + second) == machine.run(first).machine.run(second),
    decreases first,
{
    law_runs_join(machine, first, second);
    if first > 0 {
        lemma_join(machine.step().machine, (first - 1) as nat, second);
    }
}

/// A write to the page of registers and high RAM, in its cycle.
proof fn lemma_store(machine: MachineState, address: u16, value: u8)
    requires
        machine.calm(),
        machine.cycle_counter < 0x1400_0000,
        harmless_store(address, value),
    ensures
        ({
            let after = machine.write_cycle(address, value);
            &&& after.calm()
            &&& after.course() == machine.course().stored(address, value).later(4)
            &&& machine.armed() || address == IF_REGISTER ==> after.armed()
        }),
{
    reveal(MachineState::write_cycle);
    lemma_time_waited(machine);
    let ticked = machine.tick_timers(4);
    lemma_store_at_once(ticked, address, value);
    lemma_flush_like(ticked.write8(address, value));
}

proof fn lemma_store_at_once(machine: MachineState, address: u16, value: u8)
    requires
        machine.steady(),
        harmless_store(address, value),
    ensures
        ({
            let after = machine.write8(address, value);
            &&& after.steady()
            &&& after.course() == machine.course().stored(address, value)
            &&& after.div_counter == machine.div_counter
            &&& machine.armed() || address == IF_REGISTER ==> after.armed()
        }),
{
    reveal(MachineState::write8);
    reveal(MachineState::record_watchpoint);
    reveal(MachineState::store8);
    if address < 0xFF80 {
        lemma_register(machine, address, value);
    }
}

/// What the sound status register comes to hold.
proof fn lemma_sound_bits(value: u8, status: u8, channel: u8)
    requires
        status & 0x70 == 0x70,
        channel == 0x01 || channel == 0x02 || channel == 0x04 || channel == 0x08,
    ensures
        ((value & 0x80) | 0x70 | (status & 0x0F)) & 0x70 == 0x70,
        ((value & 0x80) | 0x70 | (status & 0x0F)) & 0x80 == value & 0x80,
        ((value & 0x80) | 0x70 | 0) & 0x70 == 0x70,
        ((value & 0x80) | 0x70 | 0) & 0x80 == value & 0x80,
        (((status | channel) & 0x8F) | 0x70) & 0x70 == 0x70,
        (((status | channel) & 0x8F) | 0x70) & 0x80 == status & 0x80,
{
    assert(((value & 0x80) | 0x70 | (status & 0x0F)) & 0x70 == 0x70 && ((value & 0x80) | 0x70 | (
    status & 0x0F)) & 0x80 == value & 0x80 && ((value & 0x80) | 0x70 | 0) & 0x70 == 0x70 && ((value
        & 0x80) | 0x70 | 0) & 0x80 == value & 0x80 && (((status | channel) & 0x8F) | 0x70) & 0x70
        == 0x70 && (((status | channel) & 0x8F) | 0x70) & 0x80 == status & 0x80) by (bit_vector)
        requires
            status & 0x70 == 0x70,
            channel == 0x01 || channel == 0x02 || channel == 0x04 || channel == 0x08,
    ;
}

/// With no button held, every line is high.
proof fn lemma_lines_high(select: u8)
    ensures
        joypad_lines(select, 0) == 0x0F,
        0x0Fu8 & !0x0Fu8 == 0,
{
    lemma_fixed_bits(0);
}

proof fn lemma_display_switch(machine: MachineState, value: u8)
    requires
        machine.steady(),
    ensures
        ({
            let after = machine.write_lcdc(value);
            &&& after.steady()
            &&& after.course() == machine.course().stored(LCDC_REGISTER, value)
            &&& after.div_counter == machine.div_counter
            &&& machine.armed() ==> after.armed()
        }),
{
    let stat = machine.reg(STAT_REGISTER);
    lemma_stat_bits(stat, 0);
    lemma_stat_bits(stat | 0x04, 0);
    lemma_stat_bits(stat, PpuMode::HBlank.number());
    lemma_stat_bits(stat | 0x04, PpuMode::HBlank.number());
    lemma_stat_bits(stat, PpuMode::AccessOam.number());
    lemma_stat_bits(stat, machine.ppu_mode.number());
}

proof fn lemma_status_write(machine: MachineState, value: u8)
    requires
        machine.steady(),
        value & 0x78 == 0,
    ensures
        machine.write_stat(value).like(machine),
{
    let stat = machine.reg(STAT_REGISTER);
    let written = (stat & 0x04) | (value & 0x78);
    assert(written & 0x78 == 0) by (bit_vector)
        requires
            value & 0x78 == 0,
            written == (stat & 0x04) | (value & 0x78),
    ;
    lemma_refresh_like(machine.with_reg(STAT_REGISTER, written));
}

proof fn lemma_register(machine: MachineState, address: u16, value: u8)
    requires
        machine.steady(),
        IO_START <= address < 0xFF80,
        harmless_store(address, value),
    ensures
        ({
            let after = machine.write_io(address, value);
            &&& after.steady()
            &&& after.course() == machine.course().stored(address, value)
            &&& after.div_counter == machine.div_counter
            &&& machine.armed() || address == IF_REGISTER ==> after.armed()
        }),
{
    reveal(MachineState::write_io);
    if address == IO_START {
        lemma_lines_high(machine.reg(IO_START));
        lemma_lines_high(0xC0 | (value & 0x30) | 0x0F);
    } else if address == LCDC_REGISTER {
        lemma_display_switch(machine, value);
    } else if address == STAT_REGISTER {
        lemma_status_write(machine, value);
    } else if address == APU_STATUS {
        lemma_sound_bits(value, machine.reg(APU_STATUS), 0x01);
    } else if let Some((channel, stored)) = trigger_channel(address) {
        lemma_sound_bits(value, machine.reg(APU_STATUS), channel);
    } else if address == IF_REGISTER {
        lemma_fixed_bits(0);
    }
}

/// A return address goes onto the stack at the end of memory.
proof fn lemma_push_return(machine: MachineState, value: u16)
    requires
        machine.calm(),
        machine.cycle_counter < 0x1200_0000,
        machine.registers.sp == 0,
    ensures
        machine.push16(value).calm(),
        machine.armed() ==> machine.push16(value).armed(),
        machine.push16(value).course() == (Course {
            hram: machine.hram.update(0x7E, low(value)),
            ie: high(value),
            registers: Registers { sp: 0xFFFE, ..machine.registers },
            ..machine.course().later(8)
        }),
{
    reveal(MachineState::push16);
    reveal(MachineState::push8);
    reveal(MachineState::maybe_trigger_oam_bug);
    let first = machine.with_sp(0xFFFF);
    lemma_store(first, 0xFFFF, high(value));
    let high_stored = machine.push8(high(value));
    assert(high_stored == first.write_cycle(0xFFFF, high(value)));
    lemma_store(high_stored.with_sp(0xFFFE), 0xFFFE, low(value));
}

proof fn lemma_pop_at_end(machine: MachineState)
    requires
        machine.calm(),
        machine.cycle_counter < 0x1400_0000,
        machine.registers.sp >= 0xFFFE,
    ensures
        machine.pop8() == (if machine.registers.sp == 0xFFFF {
            machine.ie
        } else {
            machine.hram[0x7E]
        }),
        machine.after_pop8().calm(),
        machine.armed() ==> machine.after_pop8().armed(),
        machine.after_pop8().course() == machine.course().later(4).with_registers(
            Registers { sp: ((machine.registers.sp + 1) % 0x10000) as u16, ..machine.registers },
        ),
{
    reveal(MachineState::pop8);
    reveal(MachineState::after_pop8);
    reveal(MachineState::maybe_trigger_oam_bug);
    reveal(MachineState::read8);
    reveal(MachineState::peek8);
    reveal(MachineState::after_read8);
    reveal(MachineState::record_watchpoint);
    lemma_time_waited(machine);
    lemma_flush_like(machine.tick_timers(4));
}

proof fn lemma_pop_return(machine: MachineState)
    requires
        machine.calm(),
        machine.cycle_counter < 0x1200_0000,
        machine.registers.sp == 0xFFFE,
    ensures
        machine.pop16() == word(machine.ie, machine.hram[0x7E]),
        machine.after_pop16().calm(),
        machine.armed() ==> machine.after_pop16().armed(),
        machine.after_pop16().course() == machine.course().later(8).with_registers(
            Registers { sp: 0, ..machine.registers },
        ),
{
    reveal(MachineState::pop16);
    reveal(MachineState::after_pop16);
    lemma_pop_at_end(machine);
    lemma_pop_at_end(machine.after_pop8());
}

/// The single-byte instruction that does nothing.
proof fn lemma_nop(machine: MachineState, base: Course, r: Registers)
    requires
        machine.stands(base, r),
        base.young(),
        base.byte(r.pc as int) == 0x00,
        r.pc < 0x3FFF,
    ensures
        machine.moves(base.later(4), Registers { pc: (r.pc + 1) as u16, ..r }),
{
    reveal(MachineState::execute_opcode);
    reveal(MachineState::execute_opcode_00_3f);
    lemma_prefetch(machine.taken(), (r.pc + 1) as u16);
    lemma_step(machine, base, r);
}

/// A byte that follows the opcode is loaded into a register.
proof fn lemma_load_byte(machine: MachineState, base: Course, r: Registers, reg: Reg8Id)
    requires
        machine.stands(base, r),
        base.young(),
        base.byte(r.pc as int) == 0x06 && reg is B || base.byte(r.pc as int) == 0x16 && reg is D
            || base.byte(r.pc as int) == 0x3E && reg is A,
        r.pc < 0x3FF0,
    ensures
        machine.moves(
            base.later(8),
            Registers { pc: (r.pc + 2) as u16, ..r }.with_reg8(reg, base.byte(r.pc + 1)),
        ),
{
    reveal(MachineState::execute_opcode);
    reveal(MachineState::execute_opcode_00_3f);
    reveal(MachineState::exec_load8);
    reveal(MachineState::read_in8);
    reveal(MachineState::after_read_in8);
    reveal(MachineState::write_out8);
    let taken = machine.taken();
    lemma_fetch(taken);
    let fetched = taken.after_fetch8();
    let loaded = fetched.with_registers(fetched.registers.with_reg8(reg, base.byte(r.pc + 1)));
    lemma_prefetch(loaded, (r.pc + 2) as u16);
    lemma_step(machine, base, r);
}

/// Two bytes that follow the opcode are loaded into a pair.
proof fn lemma_load_word(machine: MachineState, base: Course, r: Registers, reg: Reg16Pair)
    requires
        machine.stands(base, r),
        base.young(),
        base.byte(r.pc as int) == 0x01 && reg is Bc || base.byte(r.pc as int) == 0x11 && reg is De
            || base.byte(r.pc as int) == 0x21 && reg is Hl || base.byte(r.pc as int) == 0x31
            && reg is Sp,
        r.pc < 0x3FF0,
    ensures
        machine.moves(
            base.later(12),
            Registers { pc: (r.pc + 3) as u16, ..r }.with_pair(
                reg,
                word(base.byte(r.pc + 2), base.byte(r.pc + 1)),
            ),
        ),
{
    reveal(MachineState::execute_opcode);
    reveal(MachineState::execute_opcode_00_3f);
    reveal(MachineState::exec_load16_immediate);
    let taken = machine.taken();
    lemma_fetch_word(taken);
    let fetched = taken.after_fetch16();
    let loaded = fetched.with_registers(
        fetched.registers.with_pair(reg, word(base.byte(r.pc + 2), base.byte(r.pc + 1))),
    );
    lemma_prefetch(loaded, (r.pc + 3) as u16);
    lemma_step(machine, base, r);
}

/// The accumulator is stored in a hardware register.
proof fn lemma_store_accumulator(machine: MachineState, base: Course, r: Registers)
    requires
        machine.stands(base, r),
        base.young(),
        base.byte(r.pc as int) == 0xE0,
        base.byte(r.pc + 1) < 0x80,
        harmless_store((0xFF00 + base.byte(r.pc + 1)) as u16, r.a),
        r.pc < 0x3FF0,
    ensures
        machine.moves(
            base.stored((0xFF00 + base.byte(r.pc + 1)) as u16, r.a).later(12),
            Registers { pc: (r.pc + 2) as u16, ..r },
        ),
        base.byte(r.pc + 1) == 0x0F ==> machine.step().machine.armed(),
{
    reveal(MachineState::execute_opcode);
    reveal(MachineState::execute_opcode_c0_ff);
    reveal(MachineState::execute_single_opcode);
    reveal(MachineState::exec_load8);
    reveal(MachineState::read_in8);
    reveal(MachineState::after_read_in8);
    reveal(MachineState::write_out8);
    reveal(MachineState::write_addr_mode8);
    let taken = machine.taken();
    lemma_fetch(taken);
    let fetched = taken.after_fetch8();
    let address = (0xFF00 + base.byte(r.pc + 1)) as u16;
    lemma_store(fetched, address, r.a);
    lemma_prefetch(fetched.write_cycle(address, r.a), (r.pc + 2) as u16);
    lemma_step(machine, base, r);
}

/// A relative jump, taken or not.
proof fn lemma_jump_relative(machine: MachineState, base: Course, r: Registers)
    requires
        machine.stands(base, r),
        base.young(),
        base.byte(r.pc as int) == 0x18 || base.byte(r.pc as int) == 0x20,
        r.pc < 0x3F00,
        r.pc + 2 + signed(base.byte(r.pc + 1)) >= 0,
    ensures
        machine.moves(
            base.later(
                if base.byte(r.pc as int) == 0x18 || !r.flag_z() {
                    12
                } else {
                    8
                },
            ),
            Registers {
                pc: (r.pc + 2 + (if base.byte(r.pc as int) == 0x18 || !r.flag_z() {
                    signed(base.byte(r.pc + 1))
                } else {
                    0
                })) as u16,
                ..r
            },
        ),
{
    reveal(MachineState::execute_opcode);
    reveal(MachineState::execute_opcode_00_3f);
    reveal(MachineState::exec_jr_if);
    let taken = machine.taken();
    lemma_fetch(taken);
    let fetched = taken.after_fetch8();
    if base.byte(r.pc as int) == 0x18 || !r.flag_z() {
        let target = (r.pc + 2 + signed(base.byte(r.pc + 1))) as u16;
        lemma_mcycle_waited(fetched.with_pc(target));
        lemma_prefetch(fetched.with_pc(target).tick_mcycle(), target);
    } else {
        lemma_prefetch(fetched, (r.pc + 2) as u16);
    }
    lemma_step(machine, base, r);
}

/// A call with the stack at the end of memory.
proof fn lemma_call(machine: MachineState, base: Course, r: Registers)
    requires
        machine.stands(base, r),
        base.young(),
        base.byte(r.pc as int) == 0xCD,
        r.sp == 0,
        r.pc < 0x3FF0,
        word(base.byte(r.pc + 2), base.byte(r.pc + 1)) <= 0x3FFF,
    ensures
        machine.moves(
            Course {
                hram: base.hram.update(0x7E, low((r.pc + 3) as u16)),
                ie: high((r.pc + 3) as u16),
                ..base.later(24)
            },
            Registers {
                sp: 0xFFFE,
                pc: word(base.byte(r.pc + 2), base.byte(r.pc + 1)),
                ..r
            },
        ),
{
    reveal(MachineState::execute_opcode);
    reveal(MachineState::execute_opcode_c0_ff);
    reveal(MachineState::execute_single_opcode);
    reveal(MachineState::exec_call_if);
    let taken = machine.taken();
    lemma_fetch_word(taken);
    let fetched = taken.after_fetch16();
    let target = word(base.byte(r.pc + 2), base.byte(r.pc + 1));
    lemma_mcycle_waited(fetched);
    lemma_push_return(fetched.tick_mcycle(), (r.pc + 3) as u16);
    let pushed = fetched.tick_mcycle().push16((r.pc + 3) as u16);
    lemma_prefetch(pushed.with_pc(target), target);
    lemma_step(machine, base, r);
}

/// The return from it.
proof fn lemma_return(machine: MachineState, base: Course, r: Registers)
    requires
        machine.stands(base, r),
        base.young(),
        base.byte(r.pc as int) == 0xC9,
        r.sp == 0xFFFE,
        r.pc < 0x3FF0,
        word(base.ie, base.hram[0x7E]) <= 0x3FFF,
    ensures
        machine.moves(base.later(16), Registers { sp: 0, pc: word(base.ie, base.hram[0x7E]), ..r }),
{
    reveal(MachineState::execute_opcode);
    reveal(MachineState::execute_opcode_c0_ff);
    reveal(MachineState::execute_single_opcode);
    reveal(MachineState::exec_ret);
    reveal(MachineState::ctrl_ret);
    let taken = machine.taken();
    let target = word(base.ie, base.hram[0x7E]);
    lemma_pop_return(taken);
    let popped = taken.after_pop16().with_pc(target);
    lemma_mcycle_waited(popped);
    lemma_prefetch(popped.tick_mcycle(), target);
    lemma_step(machine, base, r);
}

/// `LD C,D`.
proof fn lemma_copy_d_to_c(machine: MachineState, base: Course, r: Registers)
    requires
        machine.stands(base, r),
        base.young(),
        base.byte(r.pc as int) == 0x4A,
        r.pc < 0x3FF0,
    ensures
        machine.moves(base.later(4), Registers { pc: (r.pc + 1) as u16, c: r.d, ..r }),
{
    reveal(MachineState::execute_opcode);
    reveal(MachineState::execute_opcode_40_bf);
    reveal(MachineState::exec_load8);
    reveal(MachineState::read_in8);
    reveal(MachineState::after_read_in8);
    reveal(MachineState::write_out8);
    let taken = machine.taken();
    lemma_prefetch(
        taken.with_registers(taken.registers.with_reg8(Reg8Id::C, r.d)),
        (r.pc + 1) as u16,
    );
    lemma_step(machine, base, r);
}

/// `DEC B` and `DEC C`.
proof fn lemma_decrement(machine: MachineState, base: Course, r: Registers, reg: Reg8Id)
    requires
        machine.stands(base, r),
        base.young(),
        base.byte(r.pc as int) == 0x05 && reg is B || base.byte(r.pc as int) == 0x0D && reg is C,
        r.pc < 0x3FF0,
    ensures
        machine.moves(
            base.later(4),
            Registers { pc: (r.pc + 1) as u16, ..decremented8(r, r.reg8(reg)) }.with_reg8(
                reg,
                ((r.reg8(reg) - 1) % 256) as u8,
            ),
        ),
{
    reveal(MachineState::execute_opcode);
    reveal(MachineState::execute_opcode_00_3f);
    reveal(MachineState::exec_dec8);
    reveal(MachineState::read_in8);
    reveal(MachineState::after_read_in8);
    reveal(MachineState::write_out8);
    let taken = machine.taken();
    let value = r.reg8(reg);
    let counted = taken.with_registers(decremented8(taken.registers, value));
    lemma_prefetch(
        counted.with_registers(counted.registers.with_reg8(reg, ((value - 1) % 256) as u8)),
        (r.pc + 1) as u16,
    );
    lemma_step(machine, base, r);
}

/// `XOR A`.
proof fn lemma_clear_accumulator(machine: MachineState, base: Course, r: Registers)
    requires
        machine.stands(base, r),
        base.young(),
        base.byte(r.pc as int) == 0xAF,
        r.pc < 0x3FF0,
    ensures
        machine.moves(base.later(4), Registers { pc: (r.pc + 1) as u16, a: 0, f: 0x80, ..r }),
{
    reveal(MachineState::execute_opcode);
    reveal(MachineState::execute_opcode_40_bf);
    reveal(MachineState::exec_alu);
    reveal(MachineState::read_in8);
    reveal(MachineState::after_read_in8);
    let taken = machine.taken();
    lemma_fixed_bits(r.a);
    lemma_prefetch(
        taken.with_registers(Registers { a: 0, f: 0x80, ..taken.registers }),
        (r.pc + 1) as u16,
    );
    lemma_step(machine, base, r);
}

/// `INC A` of a cleared accumulator.
proof fn lemma_increment_cleared(machine: MachineState, base: Course, r: Registers)
    requires
        machine.stands(base, r),
        base.young(),
        base.byte(r.pc as int) == 0x3C,
        r.a == 0,
        r.f == 0x80,
        r.pc < 0x3FF0,
    ensures
        machine.moves(base.later(4), Registers { pc: (r.pc + 1) as u16, a: 1, f: 0, ..r }),
{
    reveal(MachineState::execute_opcode);
    reveal(MachineState::execute_opcode_00_3f);
    reveal(MachineState::exec_inc8);
    reveal(MachineState::read_in8);
    reveal(MachineState::after_read_in8);
    reveal(MachineState::write_out8);
    let taken = machine.taken();
    lemma_prefetch(
        taken.with_registers(Registers { a: 1, f: 0, ..taken.registers }),
        (r.pc + 1) as u16,
    );
    lemma_step(machine, base, r);
}

/// `SCF` with only the zero flag set.
proof fn lemma_set_carry(machine: MachineState, base: Course, r: Registers)
    requires
        machine.stands(base, r),
        base.young(),
        base.byte(r.pc as int) == 0x37,
        r.f == 0x80,
        r.pc < 0x3FF0,
    ensures
        machine.moves(base.later(4), Registers { pc: (r.pc + 1) as u16, f: 0x90, ..r }),
{
    reveal(MachineState::execute_opcode);
    reveal(MachineState::execute_opcode_00_3f);
    reveal(MachineState::exec_accumulator_op);
    let taken = machine.taken();
    lemma_prefetch(
        taken.with_registers(Registers { f: 0x90, ..taken.registers }),
        (r.pc + 1) as u16,
    );
    lemma_step(machine, base, r);
}

/// `BIT 0,A` of a cleared accumulator, with the carry flag set.
proof fn lemma_test_cleared(machine: MachineState, base: Course, r: Registers)
    requires
        machine.stands(base, r),
        base.young(),
        base.byte(r.pc as int) == 0xCB,
        base.byte(r.pc + 1) == 0x47,
        r.a == 0,
        r.f == 0x90,
        r.pc < 0x3FF0,
    ensures
        machine.moves(base.later(8), Registers { pc: (r.pc + 2) as u16, f: 0xB0, ..r }),
{
    reveal(MachineState::execute_opcode);
    reveal(MachineState::execute_opcode_c0_ff);
    reveal(MachineState::execute_single_opcode);
    reveal(MachineState::execute_cb_prefixed);
    reveal(MachineState::exec_cb_bit);
    reveal(MachineState::read_in8);
    reveal(MachineState::after_read_in8);
    let taken = machine.taken();
    lemma_fetch(taken);
    let fetched = taken.after_fetch8();
    lemma_fixed_bits(0);
    lemma_prefetch(
        fetched.with_registers(Registers { f: 0xB0, ..fetched.registers }),
        (r.pc + 2) as u16,
    );
    lemma_step(machine, base, r);
}

impl Course {
    /// Whether a piece of code stands at an address.
    pub open spec fn holds(self, address: int, code: Seq<u8>) -> bool {
        forall|i: int| 0 <= i < code.len() ==> self.byte(address + i) == #[trigger] code[i]
    }

    /// The same program at another time, but for the stack at the end of memory.
    pub open spec fn same_program(self, other: Course) -> bool {
        self == (Course { hram: self.hram, ie: self.ie, age: self.age, ..other })
    }
}

/// The same code stands where the same boot ROM and cartridge are mapped.
proof fn lemma_holds_on(base: Course, other: Course, address: int, code: Seq<u8>)
    requires
        base.holds(address, code),
        other.bootrom == base.bootrom,
        other.bootrom_active == base.bootrom_active,
        other.rom == base.rom,
    ensures
        other.holds(address, code),
{
    assert forall|i: int| 0 <= i < code.len() implies other.byte(address + i) == #[trigger] code[i] by {
        assert(base.byte(address + i) == code[i]);
    }
}

/// The inner loop of the delay routine.
proof fn lemma_inner_loop(machine: MachineState, base: Course, r: Registers) -> (end: (
    nat,
    Registers,
))
    requires
        machine.stands(base, r),
        base.age + 16 * r.c < 0x1000_0000,
        base.holds(0, boot_prologue()),
        r.pc == 3,
        r.c >= 1,
    ensures
        machine.arrives(end.0, base.later(16 * r.c - 4), end.1),
        end.1 == (Registers { pc: 6, c: 0, f: end.1.f, ..r }),
    decreases r.c,
{
    let code = boot_prologue();
    assert(code[3] == 0x0D && code[4] == 0x20 && code[5] == 0xFD);
    assert(base.byte(3) == 0x0D && base.byte(4) == 0x20 && base.byte(5) == 0xFD);
    lemma_decrement(machine, base, r, Reg8Id::C);
    let counted = Registers { pc: 4, c: (r.c - 1) as u8, ..decremented8(r, r.c) };
    let first = base.later(4);
    lemma_extend(machine, 0, first, counted);
    assert(first.byte(4) == 0x20 && first.byte(5) == 0xFD);
    lemma_jump_relative(machine.run(1).machine, first, counted);
    if r.c == 1 {
        let done = Registers { pc: 6, ..counted };
        lemma_extend(machine, 1, first.later(8), done);
        assert(first.later(8) == base.later(16 * r.c - 4));
        (2, done)
    } else {
        let again = Registers { pc: 3, ..counted };
        let second = first.later(12);
        lemma_extend(machine, 1, second, again);
        lemma_holds_on(base, second, 0, boot_prologue());
        let (steps, done) = lemma_inner_loop(machine.run(2).machine, second, again);
        assert(second.later(16 * again.c - 4) == base.later(16 * r.c - 4));
        lemma_continue(machine, 2, steps, base.later(16 * r.c - 4), done);
        (2 + steps, done)
    }
}

/// The clock cycles that the loops of the delay routine take.
pub open spec fn loop_cycles(outer: int, inner: int) -> int {
    outer * (16 * inner + 16) - 4
}

proof fn lemma_loop_cycles(outer: int, inner: int)
    requires
        1 <= outer <= 255,
        1 <= inner <= 255,
    ensures
        loop_cycles(1, inner) == 16 * inner + 12,
        loop_cycles(outer, inner) == 16 * inner + 16 + loop_cycles(outer - 1, inner),
        loop_cycles(outer, inner) + 56 == delay_call_cycles(outer, inner) + 4 * outer,
        0 <= loop_cycles(outer, inner) <= 0x10_0000,
{
    assert(outer * (16 * inner + 16) == 16 * inner + 16 + (outer - 1) * (16 * inner + 16))
        by (nonlinear_arith);
    assert(outer * (16 * inner + 16) == 16 * outer * inner + 16 * outer) by (nonlinear_arith);
    assert(16 <= outer * (16 * inner + 16) <= 255 * 4096) by (nonlinear_arith)
        requires
            1 <= outer <= 255,
            1 <= inner <= 255,
    ;
}

/// The delay routine, up to its return.
proof fn lemma_outer_loop(machine: MachineState, base: Course, r: Registers) -> (end: (
    nat,
    Registers,
))
    requires
        machine.stands(base, r),
        base.age + loop_cycles(r.b as int, r.d as int) < 0x0800_0000,
        base.holds(0, boot_prologue()),
        r.pc == 2,
        r.b >= 1,
        r.d >= 1,
    ensures
        machine.arrives(end.0, base.later(loop_cycles(r.b as int, r.d as int)), end.1),
        end.1 == (Registers { pc: 9, b: 0, c: 0, f: end.1.f, ..r }),
    decreases r.b,
{
    let code = boot_prologue();
    let total = loop_cycles(r.b as int, r.d as int);
    lemma_loop_cycles(r.b as int, r.d as int);
    assert(code[2] == 0x4A && code[6] == 0x05 && code[7] == 0x20 && code[8] == 0xF9);
    assert(base.byte(2) == 0x4A && base.byte(6) == 0x05 && base.byte(7) == 0x20
        && base.byte(8) == 0xF9);
    lemma_copy_d_to_c(machine, base, r);
    let loaded = Registers { pc: 3, c: r.d, ..r };
    let first = base.later(4);
    lemma_extend(machine, 0, first, loaded);
    lemma_holds_on(base, first, 0, boot_prologue());
    let (inner, spent) = lemma_inner_loop(machine.run(1).machine, first, loaded);
    let second = first.later(16 * r.d - 4);
    lemma_continue(machine, 1, inner, second, spent);
    let steps: nat = 1 + inner;
    assert(second.byte(6) == 0x05);
    lemma_decrement(machine.run(steps).machine, second, spent, Reg8Id::B);
    let counted = Registers { pc: 7, b: (r.b - 1) as u8, ..decremented8(spent, r.b) };
    let third = second.later(4);
    lemma_extend(machine, steps, third, counted);
    assert(third.byte(7) == 0x20 && third.byte(8) == 0xF9);
    lemma_jump_relative(machine.run(steps + 1).machine, third, counted);
    if r.b == 1 {
        let done = Registers { pc: 9, ..counted };
        lemma_extend(machine, steps + 1, third.later(8), done);
        assert(third.later(8) == base.later(total));
        (steps + 2, done)
    } else {
        let again = Registers { pc: 2, ..counted };
        let fourth = third.later(12);
        lemma_extend(machine, steps + 1, fourth, again);
        lemma_holds_on(base, fourth, 0, boot_prologue());
        let (rest, done) = lemma_outer_loop(machine.run(steps + 2).machine, fourth, again);
        assert(fourth.later(loop_cycles(again.b as int, again.d as int)) == base.later(total));
        lemma_continue(machine, steps + 2, rest, base.later(total), done);
        (steps + 2 + rest, done)
    }
}

/// Instructions that do nothing, one after the other.
proof fn lemma_nops(machine: MachineState, base: Course, r: Registers, count: nat)
    requires
        machine.stands(base, r),
        base.age + 4 * count < 0x1000_0000,
        r.pc + count <= PROGRAM_ENTRY,
        forall|i: int| r.pc <= i < r.pc + count ==> #[trigger] base.byte(i) == 0x00,
    ensures
        machine.arrives(
            count,
            base.later(4 * count as int),
            Registers { pc: (r.pc + count) as u16, ..r },
        ),
    decreases count,
{
    if count > 0 {
        let fewer = (count - 1) as nat;
        lemma_nops(machine, base, r, fewer);
        let before = Registers { pc: (r.pc + count - 1) as u16, ..r };
        assert(base.byte(before.pc as int) == 0x00);
        lemma_nop(machine.run(fewer).machine, base.later(4 * fewer as int), before);
        assert(base.later(4 * fewer as int).later(4) == base.later(4 * count as int));
        lemma_extend(
            machine,
            fewer,
            base.later(4 * count as int),
            Registers { pc: (r.pc + count) as u16, ..r },
        );
    } else {
        assert(base.later(0) == base);
    }
}

/// The code of a delay runs to its end. With the routine's loops it takes a little longer than its
/// cycles say: four cycles more for each turn of the outer loop.
proof fn lemma_delay(machine: MachineState, base: Course, r: Registers, cycles: u16) -> (end: (
    nat,
    Course,
    Registers,
))
    requires
        machine.stands(base, r),
        base.age < 0x10_0000,
        base.holds(0, boot_prologue()),
        base.holds(r.pc as int, delay_code(cycles)),
        r.sp == 0,
        r.pc + delay_code(cycles).len() < PROGRAM_ENTRY,
    ensures
        machine.arrives(end.0, end.1, end.2),
        end.1.same_program(base),
        base.age <= end.1.age <= base.age + cycles + 4 * 255,
        end.2.pc == r.pc + delay_code(cycles).len(),
        end.2.sp == 0,
{
    let code = delay_code(cycles);
    if exists|best: (u8, u8)| is_best_delay(cycles, best) {
        let best = choose|best: (u8, u8)| is_best_delay(cycles, best);
        let nops = delay_nops(cycles, best.0, best.1) as nat;
        assert(code[0] == 0x06 && code[1] == best.0 && code[2] == 0x16 && code[3] == best.1
            && code[4] == 0xCD && code[5] == 0x02 && code[6] == 0x00);
        assert(base.byte(r.pc + 0) == 0x06 && base.byte(r.pc + 1) == best.0 && base.byte(r.pc + 2)
            == 0x16 && base.byte(r.pc + 3) == best.1 && base.byte(r.pc + 4) == 0xCD && base.byte(
            r.pc + 5,
        ) == 0x02 && base.byte(r.pc + 6) == 0x00);
        lemma_loop_cycles(best.0 as int, best.1 as int);
        lemma_load_byte(machine, base, r, Reg8Id::B);
        let first = Registers { pc: (r.pc + 2) as u16, b: best.0, ..r };
        let loaded = base.later(8);
        lemma_extend(machine, 0, loaded, first);
        assert(loaded.byte(r.pc + 2) == 0x16 && loaded.byte(r.pc + 3) == best.1);
        lemma_load_byte(machine.run(1).machine, loaded, first, Reg8Id::D);
        let second = Registers { pc: (r.pc + 4) as u16, d: best.1, ..first };
        let set = loaded.later(8);
        lemma_extend(machine, 1, set, second);
        assert(set.byte(r.pc + 4) == 0xCD && set.byte(r.pc + 5) == 0x02 && set.byte(r.pc + 6)
            == 0x00);
        lemma_call(machine.run(2).machine, set, second);
        let back = (r.pc + 7) as u16;
        let called = Course {
            hram: base.hram.update(0x7E, low(back)),
            ie: high(back),
            ..set.later(24)
        };
        let routine = Registers { sp: 0xFFFE, pc: 2, ..second };
        lemma_extend(machine, 2, called, routine);
        lemma_holds_on(base, called, 0, boot_prologue());
        let (looped, spent) = lemma_outer_loop(machine.run(3).machine, called, routine);
        let spun = called.later(loop_cycles(best.0 as int, best.1 as int));
        lemma_continue(machine, 3, looped, spun, spent);
        let steps: nat = 3 + looped;
        assert(boot_prologue()[9] == 0xC9);
        assert(called.byte(9) == 0xC9);
        assert(spun.byte(9) == 0xC9);
        assert(machine.run(2).machine.hram.len() == 0x7F);
        assert(spun.hram[0x7E] == low(back));
        assert(word(high(back), low(back)) == back);
        lemma_return(machine.run(steps).machine, spun, spent);
        let returned = Registers { sp: 0, pc: back, ..spent };
        let home = spun.later(16);
        lemma_extend(machine, steps, home, returned);
        assert(code.len() == 7 + nops);
        assert forall|i: int| back <= i < back + nops implies #[trigger] home.byte(i) == 0x00 by {
            assert(code[i - r.pc] == 0x00);
            assert(base.byte(r.pc + (i - r.pc)) == code[i - r.pc]);
        }
        lemma_nops(machine.run(steps + 1).machine, home, returned, nops);
        let end = Registers { pc: (back + nops) as u16, ..returned };
        lemma_continue(machine, steps + 1, nops, home.later(4 * nops as int), end);
        (steps + 1 + nops, home.later(4 * nops as int), end)
    } else {
        assert forall|i: int| r.pc <= i < r.pc + code.len() implies #[trigger] base.byte(i)
            == 0x00 by {
            assert(code[i - r.pc] == 0x00);
            assert(base.byte(r.pc + (i - r.pc)) == code[i - r.pc]);
        }
        lemma_nops(machine, base, r, code.len());
        (
            code.len(),
            base.later(4 * code.len() as int),
            Registers { pc: (r.pc + code.len()) as u16, ..r },
        )
    }
}

/// `JP` to the program's entry.
proof fn lemma_jump(machine: MachineState, base: Course, r: Registers)
    requires
        machine.stands(base, r),
        base.young(),
        base.byte(r.pc as int) == 0xC3,
        r.pc < 0x3FF0,
        word(base.byte(r.pc + 2), base.byte(r.pc + 1)) <= 0x3FFF,
    ensures
        machine.moves(
            base.later(16),
            Registers { pc: word(base.byte(r.pc + 2), base.byte(r.pc + 1)), ..r },
        ),
{
    reveal(MachineState::execute_opcode);
    reveal(MachineState::execute_opcode_c0_ff);
    reveal(MachineState::execute_single_opcode);
    reveal(MachineState::exec_jp_if);
    let taken = machine.taken();
    lemma_fetch_word(taken);
    let target = word(base.byte(r.pc + 2), base.byte(r.pc + 1));
    let gone = taken.after_fetch16().with_pc(target);
    lemma_mcycle_waited(gone);
    lemma_prefetch(gone.tick_mcycle(), target);
    lemma_step(machine, base, r);
}

/// The first step of a machine does nothing, and reads the first instruction.
proof fn lemma_first_step(machine: MachineState)
    requires
        machine.calm(),
        machine.course().young(),
        machine.prefetched_pc == Some(0u16),
        machine.prefetched_opcode == Some(0u8),
        machine.registers.pc == 0,
    ensures
        machine.moves(machine.course().later(4), machine.registers),
{
    reveal(MachineState::execute_opcode);
    reveal(MachineState::execute_opcode_00_3f);
    lemma_prefetch(machine.taken(), 0);
    lemma_instruction(machine, 0, 0);
}

/// Which of the writes goes to which of the registers that are followed.
proof fn lemma_boot_write(index: int, model: GbModel)
    requires
        0 <= index < BOOT_WRITES,
    ensures
        boot_offsets()[index] < 0x50,
        (boot_offsets()[index] == 0x00) == (index == 0),
        (boot_offsets()[index] == 0x0F) == (index == 1),
        (boot_offsets()[index] == 0x26) == (index == 22),
        (boot_offsets()[index] == 0x47) == (index == 25),
        (boot_offsets()[index] == 0x40) == (index == 30),
        harmless_store((0xFF00 + boot_offsets()[index]) as u16, boot_values(model)[index]),
        boot_values(model)[0] == boot_p1(model),
        boot_values(model)[1] == 0xE1,
        boot_values(model)[22] & 0x80 != 0,
        boot_values(model)[25] == 0xFC,
        boot_values(model)[30] == 0x91,
{
    lemma_fixed_bits(0);
}

impl Course {
    /// The same but for the hardware registers that are followed.
    pub open spec fn same_but_registers(self, other: Course) -> bool {
        self == (Course {
            select: self.select,
            lcdc: self.lcdc,
            palette: self.palette,
            sound_on: self.sound_on,
            age: self.age,
            ..other
        })
    }

    /// The first writes of the boot ROM have been done.
    pub open spec fn written(self, model: GbModel, count: nat) -> bool {
        &&& count > 0 ==> self.select == 0xC0 | (boot_p1(model) & 0x30) | 0x0F
        &&& count > 22 ==> self.sound_on
        &&& count > 25 ==> self.palette == 0xFC
        &&& count > 30 ==> self.lcdc == 0x91
    }
}

/// The registers are written, one after the other.
proof fn lemma_writes(
    machine: MachineState,
    base: Course,
    r: Registers,
    model: GbModel,
    count: nat,
) -> (end: (Course, Registers))
    requires
        machine.stands(base, r),
        base.age < 0x100_0000,
        base.bootrom_active,
        count <= BOOT_WRITES,
        base.holds(r.pc as int, write_code(model, BOOT_WRITES as nat)),
        r.pc + 4 * BOOT_WRITES < PROGRAM_ENTRY,
    ensures
        machine.arrives(2 * count, end.0, end.1),
        end.0.same_but_registers(base),
        end.0.age == base.age + 20 * count,
        end.0.written(model, count),
        count > 1 ==> machine.run(2 * count).machine.armed(),
        end.1 == (Registers { pc: (r.pc + 4 * count) as u16, a: end.1.a, ..r }),
    decreases count,
{
    if count == 0 {
        (base, r)
    } else {
        let index = count - 1;
        let (course, before) = lemma_writes(machine, base, r, model, index as nat);
        let steps: nat = (2 * index) as nat;
        let code = write_code(model, BOOT_WRITES as nat);
        let at = 4 * index;
        assert(code[at] == 0x3E && code[at + 1] == boot_values(model)[index] && code[at + 2] == 0xE0
            && code[at + 3] == boot_offsets()[index]);
        assert(base.byte(r.pc + at) == code[at] && base.byte(r.pc + (at + 1)) == code[at + 1]
            && base.byte(r.pc + (at + 2)) == code[at + 2] && base.byte(r.pc + (at + 3)) == code[at
            + 3]);
        lemma_holds_on(base, course, r.pc as int, code);
        assert(course.byte(r.pc + at) == code[at] && course.byte(r.pc + (at + 1)) == code[at + 1]
            && course.byte(r.pc + (at + 2)) == code[at + 2] && course.byte(r.pc + (at + 3))
            == code[at + 3]);
        lemma_boot_write(index, model);
        lemma_load_byte(machine.run(steps).machine, course, before, Reg8Id::A);
        let value = boot_values(model)[index];
        let address = (0xFF00 + boot_offsets()[index]) as u16;
        let loaded = Registers { pc: (before.pc + 2) as u16, a: value, ..before };
        let set = course.later(8);
        lemma_extend(machine, steps, set, loaded);
        assert(set.byte(r.pc + (at + 2)) == 0xE0 && set.byte(r.pc + (at + 3))
            == boot_offsets()[index]);
        lemma_store_accumulator(machine.run(steps + 1).machine, set, loaded);
        let end = Registers { pc: (before.pc + 4) as u16, ..loaded };
        let stored = set.stored(address, value).later(12);
        lemma_extend(machine, steps + 1, stored, end);
        (stored, end)
    }
}

/// The code that loads the pairs.
proof fn lemma_load_pairs(machine: MachineState, base: Course, r: Registers, model: GbModel)
    requires
        machine.stands(base, r),
        base.age < 0x100_0000,
        base.holds(r.pc as int, boot_epilogue(model)),
        r.pc + boot_epilogue(model).len() <= PROGRAM_ENTRY,
    ensures
        machine.arrives(
            4,
            base.later(48),
            Registers {
                a: r.a,
                f: r.f,
                pc: (r.pc + 12) as u16,
                ..boot_registers(model)
            },
        ),
{
    let code = boot_epilogue(model);
    let target = boot_registers(model);
    assert forall|i: int| 0 <= i < 12 implies #[trigger] base.byte(r.pc + i) == code[i] by {}
    assert(code[0] == 0x31 && code[1] == 0xFE && code[2] == 0xFF && code[3] == 0x01 && code[4]
        == target.c && code[5] == target.b && code[6] == 0x11 && code[7] == target.e && code[8]
        == target.d && code[9] == 0x21 && code[10] == target.l && code[11] == target.h);
    assert(base.byte(r.pc + 0) == 0x31);
    let one = base.later(12);
    let two = base.later(24);
    let three = base.later(36);
    assert(one.later(12) == two && two.later(12) == three && three.later(12) == base.later(48));
    assert forall|i: int| 0 <= i < 12 implies one.byte(r.pc + i) == #[trigger] base.byte(r.pc + i)
        && two.byte(r.pc + i) == base.byte(r.pc + i) && three.byte(r.pc + i) == base.byte(
        r.pc + i,
    ) by {}
    assert(base.byte(r.pc + 3) == 0x01 && base.byte(r.pc + 6) == 0x11 && base.byte(r.pc + 9)
        == 0x21);
    lemma_load_word(machine, base, r, Reg16Pair::Sp);
    let first = Registers { pc: (r.pc + 3) as u16, sp: 0xFFFE, ..r };
    lemma_extend(machine, 0, one, first);
    lemma_load_word(machine.run(1).machine, one, first, Reg16Pair::Bc);
    let second = Registers { pc: (r.pc + 6) as u16, b: target.b, c: target.c, ..first };
    lemma_extend(machine, 1, two, second);
    lemma_load_word(machine.run(2).machine, two, second, Reg16Pair::De);
    let third = Registers { pc: (r.pc + 9) as u16, d: target.d, e: target.e, ..second };
    lemma_extend(machine, 2, three, third);
    lemma_load_word(machine.run(3).machine, three, third, Reg16Pair::Hl);
    let fourth = Registers { pc: (r.pc + 12) as u16, h: target.h, l: target.l, ..third };
    lemma_extend(machine, 3, base.later(48), fourth);
}

/// The code that makes the flags.
proof fn lemma_make_flags(machine: MachineState, base: Course, r: Registers, f: u8) -> (end: (
    nat,
    Registers,
))
    requires
        machine.stands(base, r),
        base.age < 0x100_0000,
        r.pc < PROGRAM_ENTRY - 8,
        f == 0xB0 || f == 0x00,
        f == 0xB0 ==> base.holds(r.pc as int, seq![0xAFu8, 0x37, 0xCB, 0x47]),
        f == 0x00 ==> base.holds(r.pc as int, seq![0xAFu8, 0x3C]),
    ensures
        machine.arrives(
            end.0,
            base.later(
                if f == 0xB0 {
                    16
                } else {
                    8
                },
            ),
            end.1,
        ),
        end.1 == (Registers {
            pc: (r.pc + (if f == 0xB0 {
                4int
            } else {
                2
            })) as u16,
            a: end.1.a,
            f,
            ..r
        }),
{
    let cleared = Registers { pc: (r.pc + 1) as u16, a: 0, f: 0x80, ..r };
    if f == 0xB0 {
        let code = seq![0xAFu8, 0x37, 0xCB, 0x47];
        assert(code[0] == 0xAF && code[1] == 0x37 && code[2] == 0xCB && code[3] == 0x47);
        assert(base.byte(r.pc + 0) == 0xAF);
        lemma_clear_accumulator(machine, base, r);
        lemma_extend(machine, 0, base.later(4), cleared);
        assert(base.later(4).byte(r.pc + 1) == 0x37);
        lemma_set_carry(machine.run(1).machine, base.later(4), cleared);
        let carried = Registers { pc: (r.pc + 2) as u16, f: 0x90, ..cleared };
        assert(base.later(4).later(4) == base.later(8));
        lemma_extend(machine, 1, base.later(8), carried);
        assert(base.later(8).byte(r.pc + 2) == 0xCB && base.later(8).byte(r.pc + 3) == 0x47);
        lemma_test_cleared(machine.run(2).machine, base.later(8), carried);
        assert(base.later(8).later(8) == base.later(16));
        let tested = Registers { pc: (r.pc + 4) as u16, f: 0xB0, ..carried };
        lemma_extend(machine, 2, base.later(16), tested);
        (3, tested)
    } else {
        let code = seq![0xAFu8, 0x3C];
        assert(code[0] == 0xAF && code[1] == 0x3C);
        assert(base.byte(r.pc + 0) == 0xAF);
        lemma_clear_accumulator(machine, base, r);
        lemma_extend(machine, 0, base.later(4), cleared);
        assert(base.later(4).byte(r.pc + 1) == 0x3C);
        lemma_increment_cleared(machine.run(1).machine, base.later(4), cleared);
        assert(base.later(4).later(4) == base.later(8));
        let incremented = Registers { pc: (r.pc + 2) as u16, a: 1, f: 0, ..cleared };
        lemma_extend(machine, 1, base.later(8), incremented);
        (2, incremented)
    }
}

/// The end of the boot ROM's code, up to where it takes itself away.
proof fn lemma_epilogue(machine: MachineState, base: Course, r: Registers, model: GbModel) -> (end: (
    nat,
    Course,
))
    requires
        machine.stands(base, r),
        base.age < 0x80_0000,
        base.holds(r.pc as int, boot_epilogue(model)),
        r.pc + boot_epilogue(model).len() <= PROGRAM_ENTRY,
    ensures
        machine.arrives(
            end.0,
            end.1,
            Registers {
                pc: (r.pc + boot_epilogue(model).len() - 3) as u16,
                ..boot_registers(model)
            },
        ),
        end.1 == (Course { bootrom_active: false, age: end.1.age, ..base }),
        base.age <= end.1.age <= base.age + 100,
{
    let code = boot_epilogue(model);
    let target = boot_registers(model);
    let flag_code = if target.f == 0xB0 {
        seq![0xAFu8, 0x37, 0xCB, 0x47]
    } else {
        seq![0xAFu8, 0x3C]
    };
    let len = flag_code.len() as int;
    assert(len == 4 || len == 2);
    let cycles: int = if target.f == 0xB0 {
        16
    } else {
        8
    };
    lemma_load_pairs(machine, base, r, model);
    let paired = Registers { a: r.a, f: r.f, pc: (r.pc + 12) as u16, ..target };
    let first = base.later(48);
    lemma_holds_on(base, first, r.pc as int, code);
    assert forall|i: int| 0 <= i < len implies first.byte(paired.pc + i) == #[trigger] flag_code[i] by {
        assert(code[12 + i] == flag_code[i]);
        assert(first.byte(r.pc + (12 + i)) == code[12 + i]);
    }
    let (flagged, marked) = lemma_make_flags(machine.run(4).machine, first, paired, target.f);
    let second = first.later(cycles);
    lemma_continue(machine, 4, flagged, second, marked);
    let steps: nat = 4 + flagged;
    assert(code[12 + len] == 0x3E && code[13 + len] == target.a && code[14 + len] == 0xE0 && code[15
        + len] == 0x50 && code.len() == 19 + len);
    lemma_holds_on(base, second, r.pc as int, code);
    assert(second.byte(r.pc + (12 + len)) == 0x3E && second.byte(r.pc + (13 + len)) == target.a
        && second.byte(r.pc + (14 + len)) == 0xE0 && second.byte(r.pc + (15 + len)) == 0x50);
    lemma_load_byte(machine.run(steps).machine, second, marked, Reg8Id::A);
    let loaded = Registers { pc: (marked.pc + 2) as u16, a: target.a, ..marked };
    let third = second.later(8);
    lemma_extend(machine, steps, third, loaded);
    lemma_fixed_bits(0);
    assert(third.byte(r.pc + (14 + len)) == 0xE0 && third.byte(r.pc + (15 + len)) == 0x50);
    lemma_store_accumulator(machine.run(steps + 1).machine, third, loaded);
    let handed = Registers { pc: (loaded.pc + 2) as u16, ..loaded };
    let end = third.stored(BOOT_REGISTER, target.a).later(12);
    lemma_extend(machine, steps + 1, end, handed);
    (steps + 2, end)
}

/// Where the boot ROM has taken itself away, and the cartridge's bytes are executed.
pub open spec fn handover_address(model: GbModel) -> int {
    boot_code(model).len() - 3
}

/// Where the pieces of the boot ROM's code stand.
pub open spec fn writes_address(model: GbModel) -> int {
    10 + delay_code(boot_startup_delay(model)).len() as int
}

pub open spec fn last_delay_address(model: GbModel) -> int {
    writes_address(model) + 4 * BOOT_WRITES
}

pub open spec fn epilogue_address(model: GbModel) -> int {
    last_delay_address(model) + delay_code(boot_lcdc_to_entry_cycles(model)).len()
}

impl Course {
    /// Whether the model's own boot ROM is mapped.
    pub open spec fn boots(self, model: GbModel) -> bool {
        self.bootrom_active && self.bootrom == Some(synthetic_bootrom(model))
    }
}

proof fn lemma_layout(base: Course, model: GbModel)
    requires
        base.boots(model),
    ensures
        boot_code(model).len() <= 0x100,
        boot_code(model).len() == epilogue_address(model) + boot_epilogue(model).len(),
        base.holds(0, boot_prologue()),
        base.holds(10, delay_code(boot_startup_delay(model))),
        base.holds(writes_address(model), write_code(model, BOOT_WRITES as nat)),
        base.holds(
            last_delay_address(model),
            delay_code(boot_lcdc_to_entry_cycles(model)),
        ),
        base.holds(epilogue_address(model), boot_epilogue(model)),
{
    lemma_boot_code_fits(model);
    let code = boot_code(model);
    let first = delay_code(boot_startup_delay(model));
    let writes = write_code(model, BOOT_WRITES as nat);
    let last = delay_code(boot_lcdc_to_entry_cycles(model));
    let end = boot_epilogue(model);
    assert(boot_prologue().len() == 10);
    assert(writes.len() == 4 * BOOT_WRITES);
    assert forall|i: int| 0 <= i < code.len() implies #[trigger] base.byte(i) == code[i] by {
        assert(synthetic_bootrom(model)[i] == code[i]);
    }
    assert forall|i: int| 0 <= i < 10 implies base.byte(0 + i) == #[trigger] boot_prologue()[i] by {
        assert(code[i] == boot_prologue()[i]);
    }
    assert forall|i: int| 0 <= i < first.len() implies base.byte(10 + i) == #[trigger] first[i] by {
        assert(code[10 + i] == first[i]);
    }
    assert forall|i: int| 0 <= i < writes.len() implies base.byte(writes_address(model) + i)
        == #[trigger] writes[i] by {
        assert(code[writes_address(model) + i] == writes[i]);
    }
    assert forall|i: int| 0 <= i < last.len() implies base.byte(last_delay_address(model) + i)
        == #[trigger] last[i] by {
        assert(code[last_delay_address(model) + i] == last[i]);
    }
    assert forall|i: int| 0 <= i < end.len() implies base.byte(epilogue_address(model) + i)
        == #[trigger] end[i] by {
        assert(code[epilogue_address(model) + i] == end[i]);
    }
}

/// A machine just made is calm, and its first instruction is the boot ROM's.
proof fn lemma_new_machine_is_calm(rom: Seq<u8>, model: GbModel)
    requires
        machine_fault(rom, None) is None,
    ensures
        ({
            let machine = new_machine(rom, model, None);
            &&& machine.calm()
            &&& machine.cycle_counter == 0
            &&& machine.course().boots(model)
            &&& machine.course().model == model
            &&& machine.course().rom == rom
            &&& machine.registers == Registers::cleared()
            &&& machine.prefetched_pc == Some(0u16)
            &&& machine.prefetched_opcode == Some(0u8)
        }),
{
    lemma_fixed_bits(0);
}

impl Course {
    /// The boot ROM of a model has done its work and is gone.
    pub open spec fn booted(self, rom: Seq<u8>, model: GbModel) -> bool {
        &&& self.model == model
        &&& self.rom == rom
        &&& !self.bootrom_active
        &&& self.written(model, BOOT_WRITES as nat)
        &&& 4 <= self.age < 0x20000
    }
}

/// The boot ROM runs up to its first write.
proof fn lemma_boot_begins(rom: Seq<u8>, model: GbModel) -> (end: (nat, Course, Registers))
    requires
        machine_fault(rom, None) is None,
    ensures
        new_machine(rom, model, None).arrives(end.0, end.1, end.2),
        end.1.boots(model),
        end.1.model == model,
        end.1.rom == rom,
        4 <= end.1.age < 0x11000,
        end.2.pc == writes_address(model),
        end.2.sp == 0,
{
    let machine = new_machine(rom, model, None);
    let base = machine.course();
    lemma_new_machine_is_calm(rom, model);
    lemma_layout(base, model);
    let code = boot_prologue();
    let first = base.later(4);
    let second = first.later(12);
    assert(code[0] == 0x18 && code[1] == 0x08);
    assert(base.byte(0) == 0x18 && base.byte(1) == 0x08);
    assert(first.byte(0) == 0x18 && first.byte(1) == 0x08);
    lemma_first_step(machine);
    let started = Registers::cleared();
    lemma_extend(machine, 0, first, started);
    lemma_jump_relative(machine.run(1).machine, first, started);
    let jumped = Registers { pc: 10, ..started };
    lemma_extend(machine, 1, second, jumped);
    lemma_layout(second, model);
    let (waited, third, delayed) = lemma_delay(
        machine.run(2).machine,
        second,
        jumped,
        boot_startup_delay(model),
    );
    lemma_continue(machine, 2, waited, third, delayed);
    (2 + waited, third, delayed)
}

/// It runs on to where it takes itself away.
proof fn lemma_boot_ends(
    machine: MachineState,
    base: Course,
    r: Registers,
    rom: Seq<u8>,
    model: GbModel,
) -> (end: (nat, Course))
    requires
        machine.stands(base, r),
        base.boots(model),
        base.model == model,
        base.rom == rom,
        4 <= base.age < 0x11000,
        r.pc == writes_address(model),
        r.sp == 0,
    ensures
        machine.arrives(
            end.0,
            end.1,
            Registers { pc: handover_address(model) as u16, ..boot_registers(model) },
        ),
        machine.run(end.0).machine.armed(),
        end.1.booted(rom, model),
        0 <= handover_address(model) <= 0xFD,
{
    lemma_layout(base, model);
    let writes: nat = 2 * BOOT_WRITES as nat;
    let (first, written) = lemma_writes(machine, base, r, model, BOOT_WRITES as nat);
    lemma_layout(first, model);
    let (rested, second, settled) = lemma_delay(
        machine.run(writes).machine,
        first,
        written,
        boot_lcdc_to_entry_cycles(model),
    );
    lemma_continue(machine, writes, rested, second, settled);
    let steps: nat = writes + rested;
    lemma_layout(second, model);
    let (ended, third) = lemma_epilogue(machine.run(steps).machine, second, settled, model);
    let handed = Registers { pc: handover_address(model) as u16, ..boot_registers(model) };
    lemma_continue(machine, steps, ended, third, handed);
    (steps + ended, third)
}

/// The boot ROM runs up to where it takes itself away.
proof fn lemma_boot(rom: Seq<u8>, model: GbModel) -> (end: (nat, Course))
    requires
        machine_fault(rom, None) is None,
    ensures
        new_machine(rom, model, None).arrives(
            end.0,
            end.1,
            Registers { pc: handover_address(model) as u16, ..boot_registers(model) },
        ),
        new_machine(rom, model, None).run(end.0).machine.armed(),
        end.1.booted(rom, model),
        0 <= handover_address(model) <= 0xFD,
{
    let machine = new_machine(rom, model, None);
    let (begun, first, ready) = lemma_boot_begins(rom, model);
    let (ended, second) = lemma_boot_ends(machine.run(begun).machine, first, ready, rom, model);
    let handed = Registers { pc: handover_address(model) as u16, ..boot_registers(model) };
    lemma_continue(machine, begun, ended, second, handed);
    (begun + ended, second)
}

impl MachineState {
    /// The machine is of a model, its boot ROM is gone, and the instruction at an address is next,
    /// with all registers as the model enters a program.
    pub open spec fn enters(self, model: GbModel, address: int) -> bool {
        &&& self.model == model
        &&& !self.bootrom_active
        &&& Registers { pc: self.logical_pc(), ..self.registers } == (Registers {
            pc: address as u16,
            ..boot_registers(model)
        })
    }

    /// The hardware is as the model's boot ROM leaves it: no button line is low, the vertical blank
    /// is requested, sound is on, the display is on with its palette, and time has passed.
    pub open spec fn hardware_started(self, model: GbModel) -> bool {
        &&& self.read8(IO_START) == (if is_super(model) {
            0xFFu8
        } else {
            0xCF
        })
        &&& self.read8(IF_REGISTER) == 0xE1
        &&& self.read8(APU_STATUS) & 0xF0 == 0xF0
        &&& self.read8(LCDC_REGISTER) == 0x91
        &&& self.read8(BG_PALETTE) == 0xFC
        &&& self.div_counter != 0
    }
}

proof fn lemma_hardware_started(
    machine: MachineState,
    base: Course,
    r: Registers,
    model: GbModel,
)
    requires
        machine.stands(base, r),
        machine.armed(),
        base.written(model, BOOT_WRITES as nat),
        4 <= base.age < 0x30000,
    ensures
        machine.hardware_started(model),
{
    reveal(MachineState::read8);
    reveal(MachineState::peek8);
    reveal(MachineState::read_io_value);
    let select = machine.reg(IO_START);
    lemma_lines_high(select);
    let status = machine.reg(APU_STATUS);
    lemma_fixed_bits(status);
}

/// The built-in boot ROM of every model, with any cartridge, comes to where it takes itself away:
/// every step completes, none before is at the program's entry, the model's entry registers are
/// loaded, and the hardware is started.
pub proof fn law_boot_rom_hands_over(rom: Seq<u8>, model: GbModel)
    requires
        machine_fault(rom, None) is None,
    ensures
        ({
            let machine = new_machine(rom, model, None);
            exists|steps: nat| #[trigger]
                machine.ran_all(steps) && machine.not_entered_before(steps) && machine.run(
                    steps,
                ).machine.enters(model, handover_address(model)) && machine.run(
                    steps,
                ).machine.hardware_started(model)
        }),
{
    let machine = new_machine(rom, model, None);
    let (steps, base) = lemma_boot(rom, model);
    let handed = Registers { pc: handover_address(model) as u16, ..boot_registers(model) };
    lemma_hardware_started(machine.run(steps).machine, base, handed, model);
    assert(machine.ran_all(steps));
}

/// Whether a cartridge's bytes lead from an address below 0x0100 to the program's entry: nothing is
/// done on the way there, or up to a jump there.
pub open spec fn leads_to_entry(rom: Seq<u8>, address: int) -> bool {
    exists|end: int| #[trigger] clears_way(rom, address, end)
}

pub open spec fn clears_way(rom: Seq<u8>, address: int, end: int) -> bool {
    &&& address <= end <= 0x100
    &&& forall|i: int| address <= i < end ==> #[trigger] rom[i] == 0x00
    &&& end == 0x100 || rom[end] == 0xC3 && rom[end + 1] == 0x00 && rom[end + 2] == 0x01
}

/// Where the cartridge's bytes from there on lead to its entry, every model comes to 0x0100, for the
/// first time, with its entry registers and its hardware started.
pub proof fn law_boot_rom_enters_the_program(rom: Seq<u8>, model: GbModel)
    requires
        machine_fault(rom, None) is None,
        leads_to_entry(rom, handover_address(model)),
    ensures
        ({
            let machine = new_machine(rom, model, None);
            exists|steps: nat| #[trigger]
                machine.ran_all(steps) && machine.not_entered_before(steps) && machine.run(
                    steps,
                ).machine.enters(model, 0x0100) && machine.run(steps).machine.hardware_started(
                    model,
                )
        }),
{
    let machine = new_machine(rom, model, None);
    let (steps, base) = lemma_boot(rom, model);
    let address = handover_address(model);
    let end = choose|end: int| #[trigger] clears_way(rom, address, end);
    let handed = Registers { pc: address as u16, ..boot_registers(model) };
    let count = (end - address) as nat;
    assert forall|i: int| address <= i < address + count implies #[trigger] base.byte(i) == 0x00 by {
        assert(rom[i] == 0x00);
    }
    lemma_nops(machine.run(steps).machine, base, handed, count);
    let reached = Registers { pc: end as u16, ..handed };
    let passed = base.later(4 * count as int);
    lemma_continue(machine, steps, count, passed, reached);
    if end < 0x100 {
        assert(passed.byte(end) == 0xC3 && passed.byte(end + 1) == 0x00 && passed.byte(end + 2)
            == 0x01);
        lemma_jump(machine.run(steps + count).machine, passed, reached);
        let entered = Registers { pc: 0x0100, ..reached };
        lemma_extend(machine, steps + count, passed.later(16), entered);
        lemma_hardware_started(
            machine.run(steps + count + 1).machine,
            passed.later(16),
            entered,
            model,
        );
        assert(machine.ran_all(steps + count + 1));
    } else {
        lemma_hardware_started(machine.run(steps + count).machine, passed, reached, model);
        assert(machine.ran_all(steps + count));
    }
}

} // verus!
