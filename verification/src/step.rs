//! Stepping and running: interrupt dispatch, breakpoints, the trace, and stop reasons.

use vstd::prelude::*;

use crate::execute::illegal_opcode;
use crate::interface::{Breakpoint, RunResult, StopReason, TraceEntry};
use crate::machine::{
    highest_priority_interrupt, ExecState, GbMachine, MachineState, IF_REGISTER, TRACE_CAPACITY,
};
use crate::model::GbError;
use crate::cpu::wrapped16;
use crate::registers::{high, high_byte, low, low_byte, Registers};

verus! {

/// The machine after a step, and what the step returned.
pub struct Stepped {
    pub machine: MachineState,
    pub outcome: Result<StopReason, GbError>,
}

/// The trace after one more entry: the last entries, no more than the capacity.
pub open spec fn traced(trace: Seq<TraceEntry>, entry: TraceEntry) -> Seq<TraceEntry> {
    if trace.len() == TRACE_CAPACITY {
        trace.drop_first().push(entry)
    } else {
        trace.push(entry)
    }
}

pub open spec fn trace_entry(
    instruction_counter: u64,
    pc: u16,
    opcode: u8,
    registers: Registers,
    stop_reason: StopReason,
) -> TraceEntry {
    TraceEntry {
        instruction_counter,
        pc,
        opcode,
        a: registers.a,
        f: registers.f,
        b: registers.b,
        c: registers.c,
        d: registers.d,
        e: registers.e,
        h: registers.h,
        l: registers.l,
        sp: registers.sp,
        stop_reason,
    }
}

impl TraceEntry {
    pub fn from_state(
        instruction_counter: u64,
        pc: u16,
        opcode: u8,
        registers: Registers,
        stop_reason: StopReason,
    ) -> (entry: Self)
        ensures
            entry == trace_entry(instruction_counter, pc, opcode, registers, stop_reason),
    {
        TraceEntry {
            instruction_counter,
            pc,
            opcode,
            a: registers.a,
            f: registers.f,
            b: registers.b,
            c: registers.c,
            d: registers.d,
            e: registers.e,
            h: registers.h,
            l: registers.l,
            sp: registers.sp,
            stop_reason,
        }
    }
}

impl MachineState {
    /// What running keeps of the machine: fixed parts, clean flags, a bounded trace; time and the
    /// instruction count do not go back, and output comes no faster than time passes.
    pub open spec fn runs_on(self, before: MachineState) -> bool {
        &&& self.keeps(before)
        &&& self.sends_in_time(before)
        &&& before.registers.flags_clean() ==> self.registers.flags_clean()
        &&& before.trace.len() <= TRACE_CAPACITY ==> self.trace.len() <= TRACE_CAPACITY
        &&& before.instruction_counter <= self.instruction_counter
    }

    /// Instruction count and trace go together: neither moved, or one instruction was counted and
    /// its entry came to the end of the trace.
    pub open spec fn logged(self, before: MachineState) -> bool {
        ||| self.same_log(before)
        ||| {
            &&& self.instruction_counter == before.instruction_counter + 1
            &&& self.trace == traced(before.trace, self.trace.last())
            &&& self.trace.last().instruction_counter == self.instruction_counter
        }
    }

    /// No more time passed, and no more instructions were counted, than so many steps take.
    pub open spec fn within(self, before: MachineState, steps: int) -> bool {
        &&& self.cycle_counter <= before.cycle_counter + 32 * steps
        &&& self.instruction_counter <= before.instruction_counter + steps
    }

    /// A machine that can take so many more steps.
    pub open spec fn steppable(self, steps: int) -> bool {
        &&& self.ready(32 * steps)
        &&& self.instruction_counter + steps <= u64::MAX
    }

    pub open spec fn has_pc_breakpoint(self, pc: u16) -> bool {
        self.breakpoints.contains(Breakpoint::ProgramCounter(pc as u32))
    }

    pub open spec fn has_opcode_breakpoint(self, opcode: u8) -> bool {
        self.breakpoints.contains(Breakpoint::Opcode(opcode))
    }

    /// Two cycles pass before the program counter is pushed; interrupts are disabled.
    #[verifier::opaque]
    pub open spec fn dispatch_wait(self) -> MachineState {
        MachineState {
            prefetched_pc: None,
            prefetched_opcode: None,
            ime: false,
            ..self
        }.tick_mcycle().tick_mcycle()
    }

    /// The program counter goes onto the stack, low byte last; the sample of pending requests that
    /// decides which one is acknowledged is taken at the last write.
    pub open spec fn dispatch_push(self) -> MachineState {
        let waited = self.dispatch_wait();
        let sp = wrapped16(self.registers.sp - 1);
        let high_written = waited.with_sp(sp).write_cycle(sp, high(self.registers.pc));
        let low_sp = wrapped16(sp - 1);
        high_written.with_sp(low_sp).tick_timers(4).write8(low_sp, low(self.registers.pc))
    }

    /// A request is acknowledged and the processor goes on at the vector.
    pub open spec fn dispatch_to(self, ack_mask: u8, vector: u16) -> MachineState {
        let flushed = self.flush_pending_t34_interrupts();
        let entered = flushed.with_reg(
            IF_REGISTER,
            (flushed.reg(IF_REGISTER) & !ack_mask) | 0xE0,
        ).with_pc(vector);
        MachineState {
            prefetched_pc: Some(vector),
            prefetched_opcode: Some(entered.fetch8()),
            exec_state: ExecState::Running,
            ..entered.after_fetch8()
        }
    }

    /// The interrupt of the highest priority is entered. The vector was chosen before the program
    /// counter was pushed, the acknowledged request after it.
    #[verifier::opaque]
    pub open spec fn dispatch(self, selected_mask: u8, vector: u16) -> MachineState {
        let pushed = self.dispatch_push();
        pushed.dispatch_to(
            match highest_priority_interrupt(pushed.pending_interrupts()) {
                Some((mask, _)) => mask,
                None => selected_mask,
            },
            vector,
        )
    }

    /// Why a step stops after an instruction.
    pub open spec fn stop_reason(self) -> StopReason {
        if self.exec_state == ExecState::Halt {
            StopReason::Halted
        } else if self.pending_watchpoint is Some {
            StopReason::WatchpointHit
        } else if self.has_pc_breakpoint(self.logical_pc()) {
            StopReason::BreakpointHit
        } else {
            StopReason::StepComplete
        }
    }

    /// The instruction is counted and traced.
    pub open spec fn log_instruction(self, pc: u16, opcode: u8) -> MachineState {
        let count = (self.instruction_counter + 1) as u64;
        MachineState {
            instruction_counter: count,
            trace: traced(
                self.trace,
                trace_entry(count, pc, opcode, self.registers, self.stop_reason()),
            ),
            ..self
        }
    }

    /// One instruction, unless a breakpoint is on it.
    #[verifier::opaque]
    pub open spec fn run_instruction(self) -> Stepped {
        if self.has_pc_breakpoint(self.logical_pc()) || self.has_opcode_breakpoint(
            self.logical_opcode(),
        ) {
            Stepped { machine: self, outcome: Ok(StopReason::BreakpointHit) }
        } else {
            let (pc, opcode) = self.next_opcode();
            let executed = self.after_next_opcode().execute_opcode(opcode);
            if illegal_opcode(opcode) {
                Stepped { machine: executed, outcome: Err(GbError::IllegalOpcode { opcode, pc }) }
            } else {
                Stepped {
                    machine: executed.log_instruction(pc, opcode),
                    outcome: Ok(executed.stop_reason()),
                }
            }
        }
    }

    /// An interrupt is entered if one is pending; else the next instruction runs.
    #[verifier::opaque]
    pub open spec fn dispatch_or_run(self) -> Stepped {
        match highest_priority_interrupt(self.pending_interrupts()) {
            Some((mask, vector)) => Stepped {
                machine: self.dispatch(mask, vector),
                outcome: Ok(StopReason::StepComplete),
            },
            None => self.with_exec_state(ExecState::Running).run_instruction(),
        }
    }

    /// Whether a halted or stopped processor goes on: on a pending interrupt, or when stopped on a
    /// held button too.
    pub open spec fn wakes(self) -> bool {
        ||| self.pending_interrupts() != 0
        ||| self.exec_state == ExecState::Stop && self.current_joypad_bits() != 0x0F
    }

    /// One step of a halted or stopped processor.
    #[verifier::opaque]
    pub open spec fn step_asleep(self) -> Stepped {
        let woken = self.with_exec_state(ExecState::Running).prefetch_next();
        if !self.wakes() {
            Stepped { machine: self.tick_mcycle(), outcome: Ok(StopReason::Halted) }
        } else if woken.exec_state == ExecState::InterruptDispatch {
            woken.dispatch_or_run()
        } else {
            Stepped { machine: woken, outcome: Ok(StopReason::StepComplete) }
        }
    }

    /// One step.
    #[verifier::opaque]
    pub open spec fn step(self) -> Stepped {
        let begun = MachineState { pending_watchpoint: None, ..self };
        match self.exec_state {
            ExecState::InterruptDispatch => begun.dispatch_or_run(),
            ExecState::Halt => begun.step_asleep(),
            ExecState::Stop => begun.step_asleep(),
            ExecState::Running => begun.run_instruction(),
        }
    }

    /// Whether the counters have room for a run of so many steps, or until one does not simply
    /// complete.
    pub open spec fn can_run(self, limit: nat) -> bool
        decreases limit,
    {
        limit > 0 ==> {
            &&& self.steppable(1)
            &&& self.step().outcome == Ok::<StopReason, GbError>(StopReason::StepComplete)
                ==> self.step().machine.can_run((limit - 1) as nat)
        }
    }

    /// Whether the counters have room for a run: for all the steps that it may take, or for those
    /// that it does take.
    pub open spec fn room_for(self, limit: nat) -> bool {
        self.steppable(limit as int) || self.can_run(limit)
    }

    /// Steps until one does not simply complete, but no more than the limit.
    pub open spec fn run(self, limit: nat) -> Stepped
        decreases limit,
    {
        if limit == 0 {
            Stepped { machine: self, outcome: Ok(StopReason::RunLimitReached) }
        } else if self.step().outcome == Ok::<StopReason, GbError>(StopReason::StepComplete) {
            self.step().machine.run((limit - 1) as nat)
        } else {
            self.step()
        }
    }
}

impl MachineState {
    /// Whether a run for clock cycles is over.
    pub open spec fn cycles_spent(self, start: u64, cycles: u64) -> bool {
        self.cycle_counter - start >= cycles
    }

    /// The clock cycles that are left of a run.
    pub open spec fn cycles_left(self, start: u64, cycles: u64) -> int {
        if self.cycles_spent(start, cycles) {
            0
        } else {
            start + cycles - self.cycle_counter
        }
    }

    /// Whether a step lets a run for clock cycles go on: it took time, be it asleep.
    pub open spec fn goes_on(self) -> bool {
        &&& self.step().outcome == Ok::<StopReason, GbError>(StopReason::StepComplete)
            || self.step().outcome == Ok::<StopReason, GbError>(StopReason::Halted)
        &&& self.step().machine.cycle_counter > self.cycle_counter
    }

    /// Whether the counters have room for a run for clock cycles.
    pub open spec fn can_run_for_cycles(self, start: u64, cycles: u64) -> bool
        decreases self.cycles_left(start, cycles),
    {
        !self.cycles_spent(start, cycles) ==> {
            &&& self.steppable(1)
            &&& self.goes_on() ==> self.step().machine.can_run_for_cycles(start, cycles)
        }
    }

    /// Whether the counters have room for all the steps that a run for clock cycles may take.
    pub open spec fn cycles_fit(self, start: u64, cycles: u64) -> bool {
        &&& start + cycles + 32 <= u64::MAX
        &&& self.instruction_counter + self.cycles_left(start, cycles) <= u64::MAX
    }

    /// Whether the counters have room for a run for clock cycles: for all the steps that it may
    /// take, or for those that it does take.
    pub open spec fn room_for_cycles(self, start: u64, cycles: u64) -> bool {
        self.cycles_fit(start, cycles) || self.can_run_for_cycles(start, cycles)
    }

    /// No more time passed, and no more instructions were counted, than a run for clock cycles
    /// takes: its last step may go past the end.
    pub open spec fn within_cycles(self, before: MachineState, cycles: u64) -> bool {
        &&& self.cycle_counter < before.cycle_counter + cycles + 32
        &&& self.instruction_counter <= before.instruction_counter + cycles
    }

    /// Steps until so many clock cycles have passed since a start, or something other than sleep
    /// stops the machine. The limit counts as reached where the cycles have passed.
    pub open spec fn run_for_cycles(self, start: u64, cycles: u64) -> Stepped
        decreases self.cycles_left(start, cycles),
    {
        if self.cycles_spent(start, cycles) {
            Stepped { machine: self, outcome: Ok(StopReason::RunLimitReached) }
        } else if self.goes_on() {
            self.step().machine.run_for_cycles(start, cycles)
        } else {
            self.step()
        }
    }
}

/// The result of a step, as its caller sees it.
pub open spec fn run_result(outcome: Result<StopReason, GbError>) -> Result<RunResult, GbError> {
    match outcome {
        Ok(stop_reason) => Ok(RunResult { stop_reason }),
        Err(error) => Err(error),
    }
}

/// The results of steps in which time passes: an instruction, a dispatch, or a cycle asleep.
pub open spec fn advances(result: Result<RunResult, GbError>) -> bool {
    result matches Ok(run) && (run.stop_reason == StopReason::StepComplete || run.stop_reason
        == StopReason::Halted)
}

impl GbMachine {
    pub fn has_pc_breakpoint(&self, pc: u16) -> (found: bool)
        ensures
            found == self@.has_pc_breakpoint(pc),
    {
        self.has_breakpoint(Breakpoint::ProgramCounter(pc as u32))
    }

    pub fn has_opcode_breakpoint(&self, opcode: u8) -> (found: bool)
        ensures
            found == self@.has_opcode_breakpoint(opcode),
    {
        self.has_breakpoint(Breakpoint::Opcode(opcode))
    }

    pub fn push_trace(&mut self, entry: TraceEntry)
        ensures
            final(self)@ == (MachineState {
                trace: traced(old(self)@.trace, entry),
                ..old(self)@
            }),
    {
        if self.trace.len() == TRACE_CAPACITY {
            let _: Option<TraceEntry> = self.trace.pop_front();
            assert(self@.trace =~= old(self)@.trace.drop_first());
        }
        self.trace.push_back(entry);
    }

    fn dispatch_wait(&mut self)
        requires
            old(self)@.ready(8),
        ensures
            final(self)@ == old(self)@.dispatch_wait(),
            final(self)@.ran(old(self)@, 8),
            final(self)@.registers == old(self)@.registers,
            !final(self)@.ime,
    {
        proof {
            reveal(MachineState::dispatch_wait);
        }
        self.prefetched_pc = None;
        self.prefetched_opcode = None;
        self.ime = false;
        self.tick_mcycle();
        self.tick_mcycle();
    }

    fn dispatch_push(&mut self)
        requires
            old(self)@.ready(16),
        ensures
            final(self)@ == old(self)@.dispatch_push(),
            final(self)@.ran(old(self)@, 16),
            !final(self)@.ime,
    {
        let pc: u16 = self.registers.pc;
        self.dispatch_wait();
        self.registers.sp = self.registers.sp.wrapping_sub(1);
        self.write_cycle(self.registers.sp, high_byte(pc));
        self.registers.sp = self.registers.sp.wrapping_sub(1);
        self.tick_timers(4);
        self.write8(self.registers.sp, low_byte(pc));
    }

    fn dispatch_to(&mut self, ack_mask: u8, vector: u16)
        requires
            old(self)@.ready(4),
        ensures
            final(self)@ == old(self)@.dispatch_to(ack_mask, vector),
            final(self)@.ran(old(self)@, 4),
            final(self)@.ime == old(self)@.ime,
    {
        self.flush_pending_t34_interrupts();
        self.set_register(IF_REGISTER, (self.register(IF_REGISTER) & !ack_mask) | 0xE0);
        self.registers.pc = vector;
        let opcode: u8 = self.fetch8_cycle();
        self.prefetched_pc = Some(vector);
        self.prefetched_opcode = Some(opcode);
        self.set_exec_state(ExecState::Running);
    }

    /// Enters the pending interrupt of the highest priority, if there is one.
    fn execute_interrupt_dispatch(&mut self) -> (dispatched: bool)
        requires
            old(self)@.ready(20),
        ensures
            match highest_priority_interrupt(old(self)@.pending_interrupts()) {
                Some((mask, vector)) => dispatched && final(self)@ == old(self)@.dispatch(
                    mask,
                    vector,
                ),
                None => !dispatched && final(self)@ == old(self)@.with_exec_state(
                    ExecState::Running,
                ),
            },
            dispatched ==> final(self)@.ran(old(self)@, 20),
            dispatched ==> !final(self)@.ime && final(self)@.exec_state == ExecState::Running,
            !dispatched ==> final(self)@.ran(old(self)@, 0),
    {
        proof {
            reveal(MachineState::dispatch);
        }
        let pending: u8 = self.pending_interrupts();
        match Self::highest_priority_interrupt(pending) {
            None => {
                self.set_exec_state(ExecState::Running);
                false
            },
            Some((selected_mask, vector)) => {
                self.dispatch_push();
                let sampled_interrupts: u8 = self.pending_interrupts();
                let ack_mask: u8 = match Self::highest_priority_interrupt(sampled_interrupts) {
                    Some((mask, _)) => mask,
                    None => selected_mask,
                };
                self.dispatch_to(ack_mask, vector);
                true
            },
        }
    }

    fn stop_reason(&self) -> (reason: StopReason)
        ensures
            reason == self@.stop_reason(),
    {
        if matches!(self.exec_state, ExecState::Halt) {
            StopReason::Halted
        } else if self.pending_watchpoint.is_some() {
            StopReason::WatchpointHit
        } else if self.has_pc_breakpoint(self.logical_pc()) {
            StopReason::BreakpointHit
        } else {
            StopReason::StepComplete
        }
    }

    fn run_instruction(&mut self) -> (result: Result<RunResult, GbError>)
        requires
            old(self)@.ready(28),
            old(self)@.instruction_counter < u64::MAX,
        ensures
            final(self)@ == old(self)@.run_instruction().machine,
            result == run_result(old(self)@.run_instruction().outcome),
            final(self)@.runs_on(old(self)@),
            final(self)@.cycle_counter <= old(self)@.cycle_counter + 28,
            advances(result) ==> final(self)@.cycle_counter > old(self)@.cycle_counter,
            final(self)@.logged(old(self)@),
    {
        proof {
            reveal(MachineState::run_instruction);
        }
        let pc: u16 = self.logical_pc();
        if self.has_pc_breakpoint(pc) {
            return Ok(RunResult { stop_reason: StopReason::BreakpointHit });
        }
        if self.has_opcode_breakpoint(self.logical_opcode()) {
            return Ok(RunResult { stop_reason: StopReason::BreakpointHit });
        }
        let (opcode_pc, opcode): (u16, u8) = self.consume_opcode();
        match self.execute_opcode(opcode, opcode_pc) {
            Ok(()) => {},
            Err(error) => return Err(error),
        }
        let stop_reason: StopReason = self.stop_reason();
        self.instruction_counter = self.instruction_counter + 1;
        self.push_trace(
            TraceEntry::from_state(
                self.instruction_counter,
                opcode_pc,
                opcode,
                self.registers,
                stop_reason,
            ),
        );
        Ok(RunResult { stop_reason })
    }

    fn dispatch_or_run(&mut self) -> (result: Result<RunResult, GbError>)
        requires
            old(self)@.ready(28),
            old(self)@.instruction_counter < u64::MAX,
        ensures
            final(self)@ == old(self)@.dispatch_or_run().machine,
            result == run_result(old(self)@.dispatch_or_run().outcome),
            final(self)@.runs_on(old(self)@),
            final(self)@.cycle_counter <= old(self)@.cycle_counter + 28,
            advances(result) ==> final(self)@.cycle_counter > old(self)@.cycle_counter,
            final(self)@.logged(old(self)@),
    {
        proof {
            reveal(MachineState::dispatch_or_run);
        }
        if self.execute_interrupt_dispatch() {
            return Ok(RunResult { stop_reason: StopReason::StepComplete });
        }
        self.run_instruction()
    }

    fn step_asleep(&mut self) -> (result: Result<RunResult, GbError>)
        requires
            old(self)@.ready(32),
            old(self)@.instruction_counter < u64::MAX,
            old(self)@.exec_state == ExecState::Halt || old(self)@.exec_state == ExecState::Stop,
        ensures
            final(self)@ == old(self)@.step_asleep().machine,
            result == run_result(old(self)@.step_asleep().outcome),
            final(self)@.runs_on(old(self)@),
            final(self)@.cycle_counter <= old(self)@.cycle_counter + 32,
            advances(result) ==> final(self)@.cycle_counter > old(self)@.cycle_counter,
            final(self)@.logged(old(self)@),
    {
        proof {
            reveal(MachineState::step_asleep);
        }
        let held: bool = matches!(self.exec_state, ExecState::Stop) && self.current_joypad_bits()
            != 0x0F;
        if self.pending_interrupts() == 0 && !held {
            self.tick_mcycle();
            return Ok(RunResult { stop_reason: StopReason::Halted });
        }
        self.set_exec_state(ExecState::Running);
        self.prefetch_next_cycle();
        if matches!(self.exec_state, ExecState::InterruptDispatch) {
            return self.dispatch_or_run();
        }
        Ok(RunResult { stop_reason: StopReason::StepComplete })
    }

    /// Executes one instruction, or what stands in its place: an interrupt's dispatch, or a cycle
    /// asleep.
    pub fn execute_next_instruction(&mut self) -> (result: Result<RunResult, GbError>)
        requires
            old(self)@.steppable(1),
        ensures
            final(self)@ == old(self)@.step().machine,
            result == run_result(old(self)@.step().outcome),
            final(self)@.runs_on(old(self)@),
            final(self)@.within(old(self)@, 1),
            advances(result) ==> final(self)@.cycle_counter > old(self)@.cycle_counter,
            final(self)@.logged(old(self)@),
    {
        proof {
            reveal(MachineState::step);
        }
        self.pending_watchpoint = None;
        match self.exec_state {
            ExecState::InterruptDispatch => self.dispatch_or_run(),
            ExecState::Halt | ExecState::Stop => self.step_asleep(),
            ExecState::Running => self.run_instruction(),
        }
    }

    /// Runs until something stops the machine, or the limit of steps is reached.
    pub fn run_steps(&mut self, limit: u64) -> (result: Result<RunResult, GbError>)
        requires
            old(self)@.wf(),
            old(self)@.room_for(limit as nat),
        ensures
            final(self)@ == old(self)@.run(limit as nat).machine,
            result == run_result(old(self)@.run(limit as nat).outcome),
            final(self)@.runs_on(old(self)@),
            final(self)@.within(old(self)@, limit as int),
    {
        let ghost start = self@;
        let mut left: u64 = limit;
        while left > 0
            invariant
                left <= limit,
                start == old(self)@,
                start.run(limit as nat) == self@.run(left as nat),
                self@.runs_on(start),
                self@.within(start, limit - left),
                self@.room_for(left as nat),
            decreases left,
        {
            let result: Result<RunResult, GbError> = self.execute_next_instruction();
            match result {
                Ok(RunResult { stop_reason: StopReason::StepComplete }) => {},
                _ => return result,
            }
            left = left - 1;
        }
        Ok(RunResult { stop_reason: StopReason::RunLimitReached })
    }

    /// Runs for so many clock cycles, or until something other than sleep stops the machine.
    pub fn run_cycles(&mut self, cycles: u64) -> (result: Result<RunResult, GbError>)
        requires
            old(self)@.wf(),
            old(self)@.room_for_cycles(old(self)@.cycle_counter, cycles),
        ensures
            final(self)@ == old(self)@.run_for_cycles(old(self)@.cycle_counter, cycles).machine,
            result == run_result(
                old(self)@.run_for_cycles(old(self)@.cycle_counter, cycles).outcome,
            ),
            final(self)@.runs_on(old(self)@),
            final(self)@.within_cycles(old(self)@, cycles),
    {
        let start_cycles: u64 = self.cycle_counter;
        let ghost start = self@;
        while self.cycle_counter - start_cycles < cycles
            invariant
                start == old(self)@,
                start_cycles == start.cycle_counter,
                self@.runs_on(start),
                self@.cycle_counter < start_cycles + cycles + 32,
                self@.instruction_counter + self@.cycles_left(start_cycles, cycles)
                    <= start.instruction_counter + cycles,
                self@.room_for_cycles(start_cycles, cycles),
                self@.run_for_cycles(start_cycles, cycles) == start.run_for_cycles(
                    start_cycles,
                    cycles,
                ),
            decreases self@.cycles_left(start_cycles, cycles),
        {
            let result: Result<RunResult, GbError> = self.execute_next_instruction();
            match result {
                Ok(RunResult { stop_reason: StopReason::StepComplete }) => {},
                Ok(RunResult { stop_reason: StopReason::Halted }) => {},
                _ => return result,
            }
        }
        Ok(RunResult { stop_reason: StopReason::RunLimitReached })
    }
}

} // verus!
