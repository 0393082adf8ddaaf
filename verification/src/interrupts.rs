//! Interrupts: how they are requested, entered and left, and how the processor sleeps until one.

use vstd::prelude::*;

use crate::instructions::{law_return, past, place};
use crate::interface::StopReason;
use crate::laws::law_held_buttons_pull_their_lines;
use crate::machine::{highest_priority_interrupt, joypad_lines, ExecState, MachineState};
use crate::model::GbError;
use crate::quiet::{group_bus, group_time};
use crate::registers::Registers;

verus! {

/// Whether an interrupt is both enabled and requested.
pub open spec fn raised(enabled: u8, requested: u8, index: int) -> bool {
    enabled as int / place(index) % 2 == 1 && requested as int / place(index) % 2 == 1
}

/// The one that is entered: no other with a lower number is raised.
pub open spec fn comes_first(enabled: u8, requested: u8, index: int) -> bool {
    &&& 0 <= index < 5
    &&& raised(enabled, requested, index)
    &&& forall|other: int| 0 <= other < index ==> !#[trigger] raised(enabled, requested, other)
}

pub open spec fn none_raised(enabled: u8, requested: u8) -> bool {
    forall|index: int| 0 <= index < 5 ==> !#[trigger] raised(enabled, requested, index)
}

impl MachineState {
    /// The display and the timer are off, and no request is under way.
    pub open spec fn silent(self) -> bool {
        &&& self.io.len() == 0x80
        &&& self.io[0x40] < 128
        &&& self.io[0x07] as int / 4 % 2 == 0
        &&& self.tima_reload_state is None
        &&& self.pending_t34_interrupts == 0
    }

    /// Silent still, with the same requests and buttons.
    pub open spec fn hushed(self, before: MachineState) -> bool {
        &&& self.silent()
        &&& self.io[0x0F] == before.io[0x0F]
        &&& self.io[0x00] == before.io[0x00]
        &&& self.joypad == before.joypad
    }
}

proof fn lemma_pending(enabled: u8, requested: u8)
    ensures
        (enabled & requested & 0x1F) & 0x01 != 0 <==> raised(enabled, requested, 0),
        (enabled & requested & 0x1F) & 0x02 != 0 <==> raised(enabled, requested, 1),
        (enabled & requested & 0x1F) & 0x04 != 0 <==> raised(enabled, requested, 2),
        (enabled & requested & 0x1F) & 0x08 != 0 <==> raised(enabled, requested, 3),
        (enabled & requested & 0x1F) & 0x10 != 0 <==> raised(enabled, requested, 4),
        enabled & requested & 0x1F == 0 <==> none_raised(enabled, requested),
{
    let p = enabled & requested & 0x1F;
    assert((p & 0x01 != 0 <==> enabled % 2 == 1 && requested % 2 == 1) && (p & 0x02 != 0 <==> (
    enabled / 2) % 2 == 1 && (requested / 2) % 2 == 1) && (p & 0x04 != 0 <==> (enabled / 4) % 2 == 1
        && (requested / 4) % 2 == 1) && (p & 0x08 != 0 <==> (enabled / 8) % 2 == 1 && (requested / 8)
        % 2 == 1) && (p & 0x10 != 0 <==> (enabled / 16) % 2 == 1 && (requested / 16) % 2 == 1) && (p
        == 0 <==> p & 0x01 == 0 && p & 0x02 == 0 && p & 0x04 == 0 && p & 0x08 == 0 && p & 0x10
        == 0)) by (bit_vector)
        requires
            p == enabled & requested & 0x1F,
    ;
    assert(place(0) == 1 && place(1) == 2 && place(2) == 4 && place(3) == 8 && place(4) == 16);
    if p == 0 {
        assert forall|index: int| 0 <= index < 5 implies !#[trigger] raised(
            enabled,
            requested,
            index,
        ) by {}
    } else {
        assert(raised(enabled, requested, 0) || raised(enabled, requested, 1) || raised(
            enabled,
            requested,
            2,
        ) || raised(enabled, requested, 3) || raised(enabled, requested, 4));
    }
}

proof fn lemma_chosen(enabled: u8, requested: u8, index: int)
    requires
        comes_first(enabled, requested, index),
    ensures
        highest_priority_interrupt(enabled & requested & 0x1F) == Some(
            (place(index) as u8, (0x40 + 8 * index) as u16),
        ),
        enabled & requested & 0x1F != 0,
{
    lemma_pending(enabled, requested);
    assert(place(0) == 1 && place(1) == 2 && place(2) == 4 && place(3) == 8 && place(4) == 16);
    assert(index > 0 ==> !raised(enabled, requested, 0));
    assert(index > 1 ==> !raised(enabled, requested, 1));
    assert(index > 2 ==> !raised(enabled, requested, 2));
    assert(index > 3 ==> !raised(enabled, requested, 3));
}

/// What of the clock can be told from single bits.
proof fn lemma_silent_bits(lcdc: u8, tac: u8, requested: u8, mask: u8)
    ensures
        lcdc < 128 ==> lcdc & 0x80 == 0,
        tac as int / 4 % 2 == 0 ==> tac & 0x04 == 0,
        mask == 1 || mask == 2 || mask == 4 || mask == 8 || mask == 16 ==> (requested & !mask)
            | 0xE0 == 0xE0 + requested % 32 - requested as int / mask as int % 2 * mask,
{
    assert((lcdc < 128 ==> lcdc & 0x80 == 0) && ((tac / 4) % 2 == 0 ==> tac & 0x04 == 0) && (mask
        == 1 || mask == 2 || mask == 4 || mask == 8 || mask == 16 ==> (requested & !mask) | 0xE0
        == 0xE0 + requested % 32 - ((requested / mask) % 2) * mask)) by (bit_vector);
}

proof fn lemma_tick_hushed(machine: MachineState)
    requires
        machine.silent(),
    ensures
        machine.tick().hushed(machine),
{
    reveal(MachineState::tick);
    reveal(MachineState::step_dma_mcycle);
    reveal(MachineState::step_ppu_cycle);
    reveal(MachineState::step_timer_cycle);
    lemma_silent_bits(machine.io[0x40], machine.io[0x07], 0, 1);
}

proof fn lemma_ticks_hushed(machine: MachineState, cycles: nat)
    requires
        machine.silent(),
    ensures
        machine.ticks(cycles).hushed(machine),
    decreases cycles,
{
    if cycles > 0 {
        lemma_ticks_hushed(machine, (cycles - 1) as nat);
        lemma_tick_hushed(machine.ticks((cycles - 1) as nat));
    }
}

pub broadcast proof fn lemma_time_hushed(machine: MachineState, cycles: u16)
    requires
        machine.silent(),
    ensures
        (#[trigger] machine.tick_timers(cycles)).hushed(machine),
{
    reveal(MachineState::tick_timers);
    lemma_ticks_hushed(
        MachineState { cartridge: machine.cartridge.after_cycles(cycles), ..machine },
        cycles as nat,
    );
}

pub broadcast proof fn lemma_look_hushed(machine: MachineState, address: u16)
    requires
        machine.silent(),
    ensures
        (#[trigger] machine.after_read8(address)).hushed(machine),
{
    reveal(MachineState::after_read8);
    reveal(MachineState::record_watchpoint);
}

pub broadcast proof fn lemma_put_hushed(machine: MachineState, address: u16, value: u8)
    requires
        machine.silent(),
        machine.writable(address as int),
    ensures
        (#[trigger] machine.write8(address, value)).hushed(machine),
{
    reveal(MachineState::write8);
    reveal(MachineState::record_watchpoint);
    reveal(MachineState::store8);
}

pub broadcast group group_silence {
    lemma_time_hushed,
    lemma_look_hushed,
    lemma_put_hushed,
}

proof fn lemma_prefetch_hushed(machine: MachineState, address: u16, advance: bool, allow: bool)
    requires
        machine.silent(),
        machine.at_ease(),
        machine.cycle_counter + 4 <= u64::MAX,
    ensures
        machine.prefetch(address, advance, allow).hushed(machine),
        machine.prefetch(address, advance, allow).exec_state == (if allow && machine.ime
            && !none_raised(machine.ie, machine.io[0x0F]) {
            ExecState::InterruptDispatch
        } else {
            ExecState::Running
        }),
{
    broadcast use {group_silence, group_time};

    reveal(MachineState::prefetch);
    lemma_pending(machine.ie, machine.io[0x0F]);
}

/// With interrupts enabled, the instruction that ends while one is raised is followed by it; else by
/// the next instruction. Without the timer and the display no request comes by itself.
pub proof fn law_raised_interrupt_comes_next(machine: MachineState)
    requires
        machine.executing(),
        machine.silent(),
    ensures
        ({
            let after = machine.execute_opcode(0x00);
            &&& after.exec_state == (if machine.ime && !none_raised(machine.ie, machine.io[0x0F]) {
                ExecState::InterruptDispatch
            } else {
                ExecState::Running
            })
            &&& after.proceeds(machine, machine.registers, 4)
            &&& after.io[0x0F] == machine.io[0x0F]
        }),
{
    broadcast use group_bus;

    reveal(MachineState::execute_opcode);
    reveal(MachineState::execute_opcode_00_3f);
    lemma_prefetch_hushed(machine, machine.registers.pc, true, true);
}

/// `DI` disables interrupts at once: what follows is the next instruction, even where one is raised.
/// `EI` enables them, and where they were disabled the next instruction comes before any.
pub proof fn law_interrupts_are_switched(machine: MachineState)
    requires
        machine.executing(),
    ensures
        machine.execute_opcode(0xF3).proceeds(
            MachineState { ime: false, ..machine },
            machine.registers,
            4,
        ),
        machine.execute_opcode(0xF3).exec_state == ExecState::Running,
        machine.execute_opcode(0xFB).proceeds(
            MachineState { ime: true, ..machine },
            machine.registers,
            4,
        ),
        !machine.ime ==> machine.execute_opcode(0xFB).exec_state == ExecState::Running,
{
    broadcast use group_bus;

    reveal(MachineState::execute_opcode);
    reveal(MachineState::execute_opcode_c0_ff);
    reveal(MachineState::execute_single_opcode);
    reveal(MachineState::exec_disable_interrupts);
    reveal(MachineState::exec_enable_interrupts);
}

impl MachineState {
    /// An interrupt was entered: the program counter is on the stack, interrupts are disabled, and
    /// the instruction at the vector has been read.
    pub open spec fn entered(
        self,
        before: MachineState,
        index: int,
        cycles: int,
    ) -> bool {
        let vector = (0x40 + 8 * index) as u16;
        self.proceeds(
            MachineState { ime: false, ..before.pushed(before.registers.pc) },
            Registers {
                pc: vector,
                sp: (before.registers.sp - 2) as u16,
                ..before.registers
            },
            cycles,
        )
    }
}

proof fn lemma_dispatch_push(machine: MachineState)
    requires
        machine.at_ease(),
        machine.cycle_counter + 16 <= u64::MAX,
        machine.can_push(),
    ensures
        machine.dispatch_push().rested(
            MachineState {
                prefetched_pc: None,
                prefetched_opcode: None,
                ime: false,
                registers: Registers {
                    sp: (machine.registers.sp - 2) as u16,
                    ..machine.registers
                },
                ..machine.pushed(machine.registers.pc)
            },
            16,
        ),
        machine.silent() ==> machine.dispatch_push().hushed(machine),
{
    broadcast use {group_time, group_silence};

    reveal(MachineState::dispatch_wait);
    reveal(MachineState::tick_mcycle);
    reveal(MachineState::write_cycle);
}

proof fn lemma_dispatch(machine: MachineState, index: int)
    requires
        machine.at_ease(),
        machine.cycle_counter + 20 <= u64::MAX,
        machine.can_push(),
        comes_first(machine.ie, machine.io[0x0F], index),
    ensures
        ({
            let after = machine.dispatch(place(index) as u8, (0x40 + 8 * index) as u16);
            &&& after.entered(machine, index, 20)
            &&& machine.silent() ==> after.io[0x0F] == 0xE0 + machine.io[0x0F] % 32 - place(index)
            &&& machine.silent() ==> after.silent()
        }),
{
    broadcast use {group_time, group_silence};

    reveal(MachineState::dispatch);
    reveal(MachineState::fetch8);
    reveal(MachineState::after_fetch8);
    reveal(MachineState::read_cycle);
    reveal(MachineState::after_read_cycle);
    lemma_dispatch_push(machine);
    let pushed = machine.dispatch_push();
    if machine.silent() {
        lemma_chosen(machine.ie, machine.io[0x0F], index);
        lemma_silent_bits(0, 0, machine.io[0x0F], place(index) as u8);
        assert(place(0) == 1 && place(1) == 2 && place(2) == 4 && place(3) == 8 && place(4) == 16);
    }
    let ack = match highest_priority_interrupt(pushed.pending_interrupts()) {
        Some((mask, _)) => mask,
        None => place(index) as u8,
    };
    let flushed = pushed.flush_pending_t34_interrupts();
    let entered = flushed.with_reg(
        crate::machine::IF_REGISTER,
        (flushed.reg(crate::machine::IF_REGISTER) & !ack) | 0xE0,
    ).with_pc((0x40 + 8 * index) as u16);
    assert(entered.at_ease());
}

/// The raised interrupt with the lowest number is entered, in 20 clock cycles: its vector is 0x40 and
/// eight more for each number. With nothing else going on its request is taken back, and no other.
pub proof fn law_interrupt_is_entered(machine: MachineState, index: int)
    requires
        machine.at_ease(),
        machine.cycle_counter + 20 <= u64::MAX,
        machine.can_push(),
        machine.exec_state == ExecState::InterruptDispatch,
        comes_first(machine.ie, machine.io[0x0F], index),
    ensures
        ({
            let stepped = machine.step();
            let after = stepped.machine;
            &&& stepped.outcome == Ok::<StopReason, GbError>(StopReason::StepComplete)
            &&& after.entered(machine, index, 20)
            &&& machine.silent() ==> after.io[0x0F] == 0xE0 + machine.io[0x0F] % 32 - place(index)
        }),
{
    reveal(MachineState::step);
    reveal(MachineState::dispatch_or_run);
    let begun = MachineState { pending_watchpoint: None, ..machine };
    lemma_chosen(machine.ie, machine.io[0x0F], index);
    lemma_dispatch(begun, index);
}

/// A handler that only returns brings the machine back to where the interrupt came: the same
/// instruction is next, the stack pointer and all registers are as before, and interrupts are
/// enabled again.
pub proof fn law_return_from_interrupt(machine: MachineState, index: int)
    requires
        machine.at_ease(),
        machine.cycle_counter + 48 <= u64::MAX,
        machine.can_push(),
        machine.exec_state == ExecState::InterruptDispatch,
        comes_first(machine.ie, machine.io[0x0F], index),
    ensures
        ({
            let entered = machine.step().machine;
            let after = MachineState {
                prefetched_pc: None,
                prefetched_opcode: None,
                ..entered
            }.execute_opcode(0xD9);
            &&& entered.prefetched_pc == Some((0x40 + 8 * index) as u16)
            &&& !entered.ime
            &&& after.ime
            &&& after.prefetched_pc == Some(machine.registers.pc)
            &&& Registers { pc: machine.registers.pc, ..after.registers } == machine.registers
        }),
{
    law_interrupt_is_entered(machine, index);
    let entered = machine.step().machine;
    let next = MachineState { prefetched_pc: None, prefetched_opcode: None, ..entered };
    let pc = machine.registers.pc;
    assert(256 * (pc / 256) + pc % 256 == pc);
    assert(entered.held(machine.registers.sp - 1) == (pc / 256) as u8);
    assert(entered.held(machine.registers.sp - 2) == (pc % 256) as u8);
    law_return(next, 0);
}

/// `HALT` with no interrupt raised puts the processor to sleep, `STOP` always does, past the byte
/// that follows it. With one raised `HALT` goes on; with interrupts disabled the next instruction is
/// then read without moving on, so that it comes twice.
pub proof fn law_processor_sleeps(machine: MachineState)
    requires
        machine.executing(),
    ensures
        ({
            let halted = machine.execute_opcode(0x76);
            let stopped = machine.execute_opcode(0x10);
            let r = machine.registers;
            &&& none_raised(machine.ie, machine.io[0x0F]) ==> halted.rested(
                MachineState { exec_state: ExecState::Halt, ..machine },
                4,
            )
            &&& !none_raised(machine.ie, machine.io[0x0F]) && machine.ime ==> halted.proceeds(
                machine,
                r,
                4,
            )
            &&& !none_raised(machine.ie, machine.io[0x0F]) && !machine.ime ==> {
                &&& halted.exec_state == ExecState::Running
                &&& halted.prefetched_pc == Some(r.pc)
                &&& halted.registers == r
                &&& halted.cycle_counter == machine.cycle_counter + 4
            }
            &&& stopped.rested(
                MachineState {
                    exec_state: ExecState::Stop,
                    registers: Registers { pc: past(r.pc, 1), ..r },
                    ..machine
                },
                4,
            )
        }),
{
    broadcast use {group_bus, group_time};

    reveal(MachineState::execute_opcode);
    reveal(MachineState::execute_opcode_00_3f);
    reveal(MachineState::execute_opcode_40_bf);
    reveal(MachineState::exec_halt);
    reveal(MachineState::exec_stop);
    reveal(MachineState::prefetch);
    lemma_pending(machine.ie, machine.io[0x0F]);
}

/// A halted processor sleeps, a machine cycle at each step, until an interrupt is raised, be they
/// enabled or not. It then goes on with the next instruction, or with the interrupt where they are
/// enabled.
pub proof fn law_halted_processor_wakes(machine: MachineState, index: int)
    requires
        machine.at_ease(),
        machine.silent(),
        machine.cycle_counter + 24 <= u64::MAX,
        machine.exec_state == ExecState::Halt,
        machine.can_push(),
    ensures
        ({
            let stepped = machine.step();
            let after = stepped.machine;
            &&& none_raised(machine.ie, machine.io[0x0F]) ==> {
                &&& stepped.outcome == Ok::<StopReason, GbError>(StopReason::Halted)
                &&& after.rested(machine, 4)
            }
            &&& !none_raised(machine.ie, machine.io[0x0F]) ==> stepped.outcome == Ok::<
                StopReason,
                GbError,
            >(StopReason::StepComplete)
            &&& !none_raised(machine.ie, machine.io[0x0F]) && !machine.ime ==> after.proceeds(
                machine,
                machine.registers,
                4,
            )
            &&& comes_first(machine.ie, machine.io[0x0F], index) && machine.ime ==> after.entered(
                machine,
                index,
                24,
            )
        }),
{
    broadcast use group_bus;

    reveal(MachineState::step);
    reveal(MachineState::step_asleep);
    reveal(MachineState::dispatch_or_run);
    lemma_pending(machine.ie, machine.io[0x0F]);
    let begun = MachineState { pending_watchpoint: None, ..machine };
    let woken = begun.with_exec_state(ExecState::Running).prefetch_next();
    lemma_prefetch_hushed(
        begun.with_exec_state(ExecState::Running),
        machine.registers.pc,
        true,
        true,
    );
    if comes_first(machine.ie, machine.io[0x0F], index) {
        lemma_chosen(machine.ie, machine.io[0x0F], index);
        if machine.ime {
            lemma_dispatch(woken, index);
        }
    }
    if !none_raised(machine.ie, machine.io[0x0F]) && machine.ime {
        assert(woken.exec_state == ExecState::InterruptDispatch);
        assert(highest_priority_interrupt(woken.pending_interrupts()) is Some);
    }
}

/// A stopped processor sleeps too, and also wakes where a button of a selected group is held.
pub proof fn law_stopped_processor_wakes(machine: MachineState)
    requires
        machine.at_ease(),
        machine.silent(),
        machine.cycle_counter + 4 <= u64::MAX,
        machine.exec_state == ExecState::Stop,
        none_raised(machine.ie, machine.io[0x0F]),
    ensures
        ({
            let stepped = machine.step();
            let held = joypad_lines(machine.io[0x00], machine.joypad.pressed) < 15;
            &&& held ==> stepped.outcome == Ok::<StopReason, GbError>(StopReason::StepComplete)
                && stepped.machine.proceeds(machine, machine.registers, 4)
            &&& !held ==> stepped.outcome == Ok::<StopReason, GbError>(StopReason::Halted)
                && stepped.machine.rested(machine, 4)
        }),
{
    broadcast use group_bus;

    reveal(MachineState::step);
    reveal(MachineState::step_asleep);
    lemma_pending(machine.ie, machine.io[0x0F]);
    law_held_buttons_pull_their_lines(machine.io[0x00], machine.joypad.pressed, 0);
    let begun = MachineState { pending_watchpoint: None, ..machine };
    lemma_prefetch_hushed(
        begun.with_exec_state(ExecState::Running),
        machine.registers.pc,
        true,
        true,
    );
}

} // verus!
