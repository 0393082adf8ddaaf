//! Sequences of calls: the same calls take equal machines to equal machines, with equal results.

use vstd::prelude::*;

use crate::interface::{Breakpoint, RunResult};
use crate::machine::{MachineState, DEFAULT_RUN_LIMIT};
use crate::model::GbError;
use crate::snapshot::{law_saved_state_restores_the_machine, SnapshotState};
use crate::step::run_result;

verus! {

/// A call that drives a machine.
pub enum Call {
    Reset,
    HoldButtons(u8),
    Read(u16),
    Write(u16, u8),
    Step,
    Run,
    RunSteps(u64),
    RunForCycles(u64),
    AddBreakpoint(Breakpoint),
    ClearBreakpoints,
}

/// What a call returns.
pub enum Reply {
    Done,
    Byte(u8),
    Ran(Result<RunResult, GbError>),
}

impl MachineState {
    /// The machine after a call.
    pub open spec fn after_call(self, call: Call) -> MachineState {
        match call {
            Call::Reset => self.reset(),
            Call::HoldButtons(pressed) => self.set_pressed_buttons_mask(pressed),
            Call::Read(address) => self.after_read8(address),
            Call::Write(address, value) => self.write8(address, value),
            Call::Step => self.step().machine,
            Call::Run => self.run(DEFAULT_RUN_LIMIT as nat).machine,
            Call::RunSteps(limit) => self.run(limit as nat).machine,
            Call::RunForCycles(cycles) => self.run_for_cycles(self.cycle_counter, cycles).machine,
            Call::AddBreakpoint(breakpoint) => MachineState {
                breakpoints: self.breakpoints.push(breakpoint),
                ..self
            },
            Call::ClearBreakpoints => MachineState { breakpoints: Seq::empty(), ..self },
        }
    }

    /// What a call returns.
    pub open spec fn reply(self, call: Call) -> Reply {
        match call {
            Call::Read(address) => Reply::Byte(self.read8(address)),
            Call::Step => Reply::Ran(run_result(self.step().outcome)),
            Call::Run => Reply::Ran(run_result(self.run(DEFAULT_RUN_LIMIT as nat).outcome)),
            Call::RunSteps(limit) => Reply::Ran(run_result(self.run(limit as nat).outcome)),
            Call::RunForCycles(cycles) => Reply::Ran(
                run_result(self.run_for_cycles(self.cycle_counter, cycles).outcome),
            ),
            _ => Reply::Done,
        }
    }

    /// The machine after a sequence of calls.
    pub open spec fn driven(self, calls: Seq<Call>) -> MachineState
        decreases calls.len(),
    {
        if calls.len() == 0 {
            self
        } else {
            self.driven(calls.drop_last()).after_call(calls.last())
        }
    }

    /// What the calls of a sequence return.
    pub open spec fn replies(self, calls: Seq<Call>) -> Seq<Reply> {
        Seq::new(calls.len(), |i: int| self.driven(calls.take(i)).reply(calls[i]))
    }
}

/// Machines with the same saved state are equal.
pub proof fn law_same_saved_state_is_the_same_machine(
    first: SnapshotState,
    second: SnapshotState,
    machine: MachineState,
    other: MachineState,
)
    requires
        machine.wf(),
        other.wf(),
        first.describes(machine),
        second.describes(other),
    ensures
        first.same_state(second) <==> machine == other,
{
    law_saved_state_restores_the_machine(first, machine);
    law_saved_state_restores_the_machine(second, other);
    if first.same_state(second) {
        assert(first.machine() == second.machine());
    }
}

/// Execution is deterministic: machines with the same saved state, and machines restored from it,
/// return the same from every call of the same sequence, and are the same after it.
pub proof fn law_same_calls_have_the_same_effect(
    first: SnapshotState,
    second: SnapshotState,
    machine: MachineState,
    other: MachineState,
    calls: Seq<Call>,
)
    requires
        machine.wf(),
        other.wf(),
        first.describes(machine),
        second.describes(other),
        first.same_state(second),
    ensures
        machine.replies(calls) == other.replies(calls),
        machine.driven(calls) == other.driven(calls),
        first.machine().replies(calls) == other.replies(calls),
        first.machine().driven(calls) == other.driven(calls),
{
    law_same_saved_state_is_the_same_machine(first, second, machine, other);
    law_saved_state_restores_the_machine(first, machine);
}

/// Two machines restored from equal saved states, whatever these hold, are refused alike, and where
/// they are not, return the same from every call of the same sequence and are the same all along it.
pub proof fn law_restored_machines_go_the_same_way(
    first: SnapshotState,
    second: SnapshotState,
    calls: Seq<Call>,
)
    requires
        first.same_state(second),
    ensures
        first.fault() == second.fault(),
        first.machine().replies(calls) == second.machine().replies(calls),
        forall|i: int|
            0 <= i <= calls.len() ==> first.machine().driven(#[trigger] calls.take(i))
                == second.machine().driven(calls.take(i)),
        first.machine().driven(calls) == second.machine().driven(calls),
{
    assert(first.machine() == second.machine());
}

/// The saved states after the sequence are the same too.
pub proof fn law_same_calls_save_the_same_state(
    first: SnapshotState,
    second: SnapshotState,
    machine: MachineState,
    other: MachineState,
    calls: Seq<Call>,
    first_after: SnapshotState,
    second_after: SnapshotState,
)
    requires
        machine.wf(),
        other.wf(),
        first.describes(machine),
        second.describes(other),
        first.same_state(second),
        first_after.describes(machine.driven(calls)),
        second_after.describes(other.driven(calls)),
    ensures
        first_after.same_state(second_after),
{
    law_same_calls_have_the_same_effect(first, second, machine, other, calls);
}

} // verus!
