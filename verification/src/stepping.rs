//! Steps and runs as a debugger sees them: what a step executes, counts, traces and stops at.

use vstd::prelude::*;

use crate::interface::{Breakpoint, StopReason};
use crate::machine::{ExecState, MachineState};
use crate::model::GbError;

verus! {

impl MachineState {
    /// A running machine that has read the instruction at an address.
    pub open spec fn ready_at(self, pc: u16, opcode: u8) -> bool {
        &&& self.exec_state == ExecState::Running
        &&& self.prefetched_pc == Some(pc)
        &&& self.prefetched_opcode == Some(opcode)
    }

    /// The instruction has been taken up.
    pub open spec fn in_hand(self) -> MachineState {
        MachineState {
            prefetched_pc: None,
            prefetched_opcode: None,
            pending_watchpoint: None,
            ..self
        }
    }

    /// Whether a breakpoint is on an address or an opcode.
    pub open spec fn breaks_at(self, pc: u16, opcode: u8) -> bool {
        self.breakpoints.contains(Breakpoint::ProgramCounter(pc as u32))
            || self.breakpoints.contains(Breakpoint::Opcode(opcode))
    }
}

/// The opcodes that no instruction has.
pub open spec fn no_instruction(opcode: u8) -> bool {
    seq![0xD3u8, 0xDB, 0xDD, 0xE3, 0xE4, 0xEB, 0xEC, 0xED, 0xF4, 0xFC, 0xFD].contains(opcode)
}

proof fn lemma_no_instruction(opcode: u8)
    ensures
        no_instruction(opcode) == crate::execute::illegal_opcode(opcode),
{
    let list = seq![0xD3u8, 0xDB, 0xDD, 0xE3, 0xE4, 0xEB, 0xEC, 0xED, 0xF4, 0xFC, 0xFD];
    assert(list[0] == 0xD3 && list[1] == 0xDB && list[2] == 0xDD && list[3] == 0xE3 && list[4]
        == 0xE4 && list[5] == 0xEB && list[6] == 0xEC && list[7] == 0xED && list[8] == 0xF4
        && list[9] == 0xFC && list[10] == 0xFD);
}

/// A step stops before an instruction with a breakpoint on its address or opcode, and changes
/// nothing.
pub proof fn law_step_breaks(machine: MachineState, pc: u16, opcode: u8)
    requires
        machine.ready_at(pc, opcode),
        machine.breaks_at(pc, opcode),
    ensures
        machine.step().outcome == Ok::<StopReason, GbError>(StopReason::BreakpointHit),
        machine.step().machine == (MachineState { pending_watchpoint: None, ..machine }),
{
    reveal(MachineState::step);
    reveal(MachineState::run_instruction);
}

/// Any other step executes the instruction that was read; it is counted, and traced with its address,
/// its opcode, and the registers it left. It stops where the processor sleeps, where a watched
/// address was used, and where a breakpoint is on the next address.
pub proof fn law_step_executes(machine: MachineState, pc: u16, opcode: u8)
    requires
        machine.ready_at(pc, opcode),
        !machine.breaks_at(pc, opcode),
        !no_instruction(opcode),
    ensures
        ({
            let executed = machine.in_hand().execute_opcode(opcode);
            let after = machine.step().machine;
            let next = match executed.prefetched_pc {
                Some(next) => next,
                None => executed.registers.pc,
            };
            let reason = if executed.exec_state == ExecState::Halt {
                StopReason::Halted
            } else if executed.pending_watchpoint is Some {
                StopReason::WatchpointHit
            } else if executed.breakpoints.contains(Breakpoint::ProgramCounter(next as u32)) {
                StopReason::BreakpointHit
            } else {
                StopReason::StepComplete
            };
            let entry = after.trace.last();
            &&& machine.step().outcome == Ok::<StopReason, GbError>(reason)
            &&& after == (MachineState {
                instruction_counter: (executed.instruction_counter + 1) as u64,
                trace: after.trace,
                ..executed
            })
            &&& after.trace.len() == (if executed.trace.len() == 512 {
                512
            } else {
                executed.trace.len() + 1
            })
            &&& entry.instruction_counter == after.instruction_counter
            &&& entry.pc == pc
            &&& entry.opcode == opcode
            &&& entry.stop_reason == reason
            &&& entry.sp == executed.registers.sp
            &&& (entry.a, entry.f, entry.b, entry.c) == (
                executed.registers.a,
                executed.registers.f,
                executed.registers.b,
                executed.registers.c,
            )
            &&& (entry.d, entry.e, entry.h, entry.l) == (
                executed.registers.d,
                executed.registers.e,
                executed.registers.h,
                executed.registers.l,
            )
        }),
{
    reveal(MachineState::step);
    reveal(MachineState::run_instruction);
    lemma_no_instruction(opcode);
}

/// An opcode that no instruction has is an error, with its opcode and address; nothing is executed.
pub proof fn law_step_refuses(machine: MachineState, pc: u16, opcode: u8)
    requires
        machine.ready_at(pc, opcode),
        !machine.breaks_at(pc, opcode),
        no_instruction(opcode),
    ensures
        machine.step().outcome == Err::<StopReason, GbError>(GbError::IllegalOpcode { opcode, pc }),
        machine.step().machine == machine.in_hand(),
{
    reveal(MachineState::step);
    reveal(MachineState::run_instruction);
    reveal(MachineState::execute_opcode);
    lemma_no_instruction(opcode);
}

impl MachineState {
    /// The machine after so many steps, whatever they return.
    pub open spec fn stepped(self, count: nat) -> MachineState
        decreases count,
    {
        if count == 0 {
            self
        } else {
            self.stepped((count - 1) as nat).step().machine
        }
    }

    /// Whether all of the first steps simply complete.
    pub open spec fn completes(self, count: nat) -> bool {
        forall|i: nat|
            i < count ==> (#[trigger] self.stepped(i)).step().outcome == Ok::<StopReason, GbError>(
                StopReason::StepComplete,
            )
    }
}

pub proof fn lemma_first_step(machine: MachineState, count: nat)
    ensures
        machine.step().machine.stepped(count) == machine.stepped(count + 1),
    decreases count,
{
    reveal_with_fuel(MachineState::stepped, 2);
    if count > 0 {
        lemma_first_step(machine, (count - 1) as nat);
        assert(machine.stepped(count + 1) == machine.stepped(count).step().machine);
    }
}

/// A run is one step after the other: it ends after the first that does not simply complete, with
/// what that step returned, and else when all its steps are done.
pub proof fn law_run_is_its_steps(machine: MachineState, limit: nat, count: nat)
    requires
        count <= limit,
        machine.completes(count),
        count == limit || machine.stepped(count).step().outcome != Ok::<StopReason, GbError>(
            StopReason::StepComplete,
        ),
    ensures
        count == limit ==> machine.run(limit).machine == machine.stepped(limit) && machine.run(
            limit,
        ).outcome == Ok::<StopReason, GbError>(StopReason::RunLimitReached),
        count < limit ==> machine.run(limit) == machine.stepped(count).step(),
    decreases limit,
{
    if count > 0 {
        assert(machine.stepped(0).step().outcome == Ok::<StopReason, GbError>(
            StopReason::StepComplete,
        ));
        let next = machine.step().machine;
        let fewer = (count - 1) as nat;
        lemma_first_step(machine, fewer);
        assert forall|i: nat| i < fewer implies (#[trigger] next.stepped(i)).step().outcome == Ok::<
            StopReason,
            GbError,
        >(StopReason::StepComplete) by {
            lemma_first_step(machine, i);
            assert(machine.stepped(i + 1).step().outcome == Ok::<StopReason, GbError>(
                StopReason::StepComplete,
            ));
        }
        lemma_first_step(machine, (limit - 1) as nat);
        law_run_is_its_steps(next, (limit - 1) as nat, fewer);
    }
}

/// What a debugger reads of the processor are its registers, with the address of the instruction that
/// is next.
pub proof fn law_snapshot_shows_the_registers(machine: MachineState)
    ensures
        ({
            let r = machine.registers;
            let shown = machine.snapshot().registers;
            &&& shown.pc == (match machine.prefetched_pc {
                Some(pc) => pc,
                None => r.pc,
            })
            &&& shown.sp == r.sp
            &&& (shown.a, shown.f) == (r.a as u32, r.f as u32)
            &&& (shown.b, shown.c) == (r.b as u32, r.c as u32)
            &&& (shown.d, shown.e) == (r.d as u32, r.e as u32)
            &&& (shown.h, shown.l) == (r.h as u32, r.l as u32)
            &&& machine.snapshot().instruction_counter == machine.instruction_counter
            &&& machine.snapshot().halted <==> machine.exec_state == ExecState::Halt
                || machine.exec_state == ExecState::Stop
            &&& machine.debug_state().cycle_counter == machine.cycle_counter
            &&& machine.debug_state().div_counter == machine.div_counter
            &&& machine.debug_state().ime == machine.ime
            &&& machine.debug_state().ie == machine.ie
            &&& machine.debug_state().if_reg == machine.io[0x0F]
            &&& machine.debug_state().lcdc == machine.io[0x40]
            &&& machine.debug_state().stat == machine.io[0x41]
            &&& machine.debug_state().ly == machine.io[0x44]
        }),
{
}

} // verus!
