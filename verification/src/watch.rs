//! What the machine does while no breakpoint or watchpoint is set: only sleep, errors and the end of
//! a run stop it.

use vstd::prelude::*;

use crate::alu::{AccumulatorOp, AluOp8, ShiftOp};
use crate::cpu::{AddrMode8, In8, Out8, Reg16Pair, Reg8Id, StackReg16};
use crate::execute::{
    accumulator_op, alu_op, condition_code, r16_indirect, r16_pair, r16_stack, r8_in, r8_out, shift_op,
};
use crate::interface::StopReason;
use crate::machine::{
    highest_priority_interrupt, ExecState, MachineState, OamCorruptionKind, IF_REGISTER,
};
use crate::model::GbError;
use crate::registers::Registers;
use crate::step::Stepped;

verus! {

impl MachineState {
    /// No breakpoint or watchpoint is set, and no access is recorded.
    pub open spec fn unwatched(self) -> bool {
        &&& self.breakpoints.len() == 0
        &&& self.pending_watchpoint is None
    }
}

broadcast proof fn lemma_registers_unwatched(machine: MachineState, registers: Registers)
    requires
        machine.unwatched(),
    ensures
        #[trigger] machine.with_registers(registers).unwatched(),
{
}

broadcast proof fn lemma_pc_unwatched(machine: MachineState, pc: u16)
    requires
        machine.unwatched(),
    ensures
        #[trigger] machine.with_pc(pc).unwatched(),
{
}

broadcast proof fn lemma_sp_unwatched(machine: MachineState, sp: u16)
    requires
        machine.unwatched(),
    ensures
        #[trigger] machine.with_sp(sp).unwatched(),
{
}

broadcast proof fn lemma_exec_state_unwatched(machine: MachineState, state: ExecState)
    requires
        machine.unwatched(),
    ensures
        #[trigger] machine.with_exec_state(state).unwatched(),
{
}

broadcast proof fn lemma_flush_unwatched(machine: MachineState)
    requires
        machine.unwatched(),
    ensures
        #[trigger] machine.flush_pending_t34_interrupts().unwatched(),
{
}

broadcast group group_parts_unwatched {
    lemma_registers_unwatched,
    lemma_pc_unwatched,
    lemma_sp_unwatched,
    lemma_exec_state_unwatched,
    lemma_flush_unwatched,
}

broadcast proof fn lemma_dma_unwatched(machine: MachineState)
    requires
        machine.unwatched(),
    ensures
        #[trigger] machine.step_dma_mcycle().unwatched(),
{
    reveal(MachineState::step_dma_mcycle);
}

broadcast proof fn lemma_ppu_unwatched(machine: MachineState)
    requires
        machine.unwatched(),
    ensures
        #[trigger] machine.step_ppu_cycle().unwatched(),
{
    reveal(MachineState::step_ppu_cycle);
    reveal(MachineState::next_ppu_mode);
    reveal(MachineState::switch_ppu_mode);
    reveal(MachineState::update_lyc_compare_interrupt);
}

broadcast proof fn lemma_timer_unwatched(machine: MachineState)
    requires
        machine.unwatched(),
    ensures
        #[trigger] machine.step_timer_cycle().unwatched(),
{
    reveal(MachineState::step_timer_cycle);
}

proof fn lemma_ticks_unwatched(machine: MachineState, cycles: nat)
    requires
        machine.unwatched(),
    ensures
        machine.ticks(cycles).unwatched(),
    decreases cycles,
{
    broadcast use {lemma_dma_unwatched, lemma_ppu_unwatched, lemma_timer_unwatched};

    if cycles > 0 {
        lemma_ticks_unwatched(machine, (cycles - 1) as nat);
        let before = machine.ticks((cycles - 1) as nat);
        let counted = MachineState { cycle_counter: (before.cycle_counter + 1) as u64, ..before };
        reveal(MachineState::tick);
        assert(counted.unwatched());
        assert(counted.step_dma_mcycle().step_ppu_cycle().step_timer_cycle().unwatched());
    }
}

broadcast proof fn lemma_tick_timers_unwatched(machine: MachineState, cycles: u16)
    requires
        machine.unwatched(),
    ensures
        #[trigger] machine.tick_timers(cycles).unwatched(),
{
    reveal(MachineState::tick_timers);
    lemma_ticks_unwatched(
        MachineState { cartridge: machine.cartridge.after_cycles(cycles), ..machine },
        cycles as nat,
    );
}

broadcast proof fn lemma_read8_unwatched(machine: MachineState, address: u16)
    requires
        machine.unwatched(),
    ensures
        #[trigger] machine.after_read8(address).unwatched(),
{
    reveal(MachineState::after_read8);
    reveal(MachineState::record_watchpoint);
}

broadcast proof fn lemma_oam_bug_unwatched(
    machine: MachineState,
    address: u16,
    kind: OamCorruptionKind,
)
    requires
        machine.unwatched(),
    ensures
        #[trigger] machine.maybe_trigger_oam_bug(address, kind).unwatched(),
{
    reveal(MachineState::maybe_trigger_oam_bug);
}

broadcast proof fn lemma_write8_unwatched(machine: MachineState, address: u16, value: u8)
    requires
        machine.unwatched(),
    ensures
        #[trigger] machine.write8(address, value).unwatched(),
{
    broadcast use lemma_oam_bug_unwatched;

    reveal(MachineState::write8);
    reveal(MachineState::record_watchpoint);
    reveal(MachineState::store8);
    reveal(MachineState::write_io);
    assert(machine.maybe_trigger_oam_bug(address, OamCorruptionKind::Write).unwatched());
}

broadcast group group_bus_unwatched {
    lemma_tick_timers_unwatched,
    lemma_read8_unwatched,
    lemma_oam_bug_unwatched,
    lemma_write8_unwatched,
    lemma_registers_unwatched,
    lemma_pc_unwatched,
    lemma_sp_unwatched,
    lemma_exec_state_unwatched,
    lemma_flush_unwatched,
}

broadcast proof fn lemma_mcycle_unwatched(machine: MachineState)
    requires
        machine.unwatched(),
    ensures
        #[trigger] machine.tick_mcycle().unwatched(),
{
    broadcast use group_bus_unwatched;

    reveal(MachineState::tick_mcycle);
}

broadcast proof fn lemma_read_cycle_unwatched(machine: MachineState, address: u16)
    requires
        machine.unwatched(),
    ensures
        #[trigger] machine.after_read_cycle(address).unwatched(),
{
    broadcast use group_bus_unwatched;

    reveal(MachineState::after_read_cycle);
}

broadcast proof fn lemma_write_cycle_unwatched(machine: MachineState, address: u16, value: u8)
    requires
        machine.unwatched(),
    ensures
        #[trigger] machine.write_cycle(address, value).unwatched(),
{
    broadcast use group_bus_unwatched;

    reveal(MachineState::write_cycle);
}

broadcast proof fn lemma_fetch8_unwatched(machine: MachineState)
    requires
        machine.unwatched(),
    ensures
        #[trigger] machine.after_fetch8().unwatched(),
{
    broadcast use {group_parts_unwatched, lemma_read_cycle_unwatched};

    reveal(MachineState::after_fetch8);
}

broadcast proof fn lemma_fetch16_unwatched(machine: MachineState)
    requires
        machine.unwatched(),
    ensures
        #[trigger] machine.after_fetch16().unwatched(),
{
    broadcast use lemma_fetch8_unwatched;

    reveal(MachineState::after_fetch16);
}

broadcast proof fn lemma_prefetch_unwatched(
    machine: MachineState,
    address: u16,
    advance_pc: bool,
    allow_interrupt_dispatch: bool,
)
    requires
        machine.unwatched(),
    ensures
        #[trigger] machine.prefetch(address, advance_pc, allow_interrupt_dispatch).unwatched(),
{
    broadcast use group_bus_unwatched;

    reveal(MachineState::prefetch);
    assert(machine.tick_timers(4).after_read8(address).unwatched());
}

broadcast proof fn lemma_prefetch_next_unwatched(machine: MachineState)
    requires
        machine.unwatched(),
    ensures
        #[trigger] machine.prefetch_next().unwatched(),
{
    broadcast use lemma_prefetch_unwatched;

}

broadcast group group_cycles_unwatched {
    lemma_mcycle_unwatched,
    lemma_read_cycle_unwatched,
    lemma_write_cycle_unwatched,
    lemma_fetch8_unwatched,
    lemma_fetch16_unwatched,
    lemma_prefetch_unwatched,
    lemma_prefetch_next_unwatched,
    lemma_oam_bug_unwatched,
    lemma_registers_unwatched,
    lemma_pc_unwatched,
    lemma_sp_unwatched,
    lemma_exec_state_unwatched,
    lemma_flush_unwatched,
}

broadcast proof fn lemma_read_mode_unwatched(machine: MachineState, mode: AddrMode8)
    requires
        machine.unwatched(),
    ensures
        #[trigger] machine.after_read_addr_mode8(mode).unwatched(),
{
    broadcast use group_cycles_unwatched;

    reveal(MachineState::after_read_addr_mode8);
    let address = machine.address_of(mode);
    assert(machine.after_fetch16().unwatched() && machine.after_fetch8().unwatched());
    let read = machine.after_address_of(mode).after_read_cycle(address);
    assert(read.unwatched());
    assert(read.maybe_trigger_oam_bug(address, OamCorruptionKind::Write).unwatched());
}

broadcast proof fn lemma_write_mode_unwatched(machine: MachineState, mode: AddrMode8, value: u8)
    requires
        machine.unwatched(),
    ensures
        #[trigger] machine.write_addr_mode8(mode, value).unwatched(),
{
    broadcast use group_cycles_unwatched;

    reveal(MachineState::write_addr_mode8);
    let address = machine.address_of(mode);
    assert(machine.after_fetch16().unwatched() && machine.after_fetch8().unwatched());
    let written = machine.after_address_of(mode).write_cycle(address, value);
    assert(written.unwatched());
    assert(written.maybe_trigger_oam_bug(address, OamCorruptionKind::Write).unwatched());
}

broadcast proof fn lemma_read_in_unwatched(machine: MachineState, operand: In8)
    requires
        machine.unwatched(),
    ensures
        #[trigger] machine.after_read_in8(operand).unwatched(),
{
    broadcast use {group_cycles_unwatched, lemma_read_mode_unwatched};

    reveal(MachineState::after_read_in8);
    if let In8::Addr(mode) = operand {
        assert(machine.after_read_addr_mode8(mode).unwatched());
    }
    assert(machine.after_fetch8().unwatched());
}

broadcast proof fn lemma_write_out_unwatched(machine: MachineState, operand: Out8, value: u8)
    requires
        machine.unwatched(),
    ensures
        #[trigger] machine.write_out8(operand, value).unwatched(),
{
    broadcast use {group_cycles_unwatched, lemma_write_mode_unwatched};

    reveal(MachineState::write_out8);
    if let Out8::Addr(mode) = operand {
        assert(machine.write_addr_mode8(mode, value).unwatched());
    }
}

broadcast proof fn lemma_push8_unwatched(machine: MachineState, value: u8)
    requires
        machine.unwatched(),
    ensures
        #[trigger] machine.push8(value).unwatched(),
{
    broadcast use group_cycles_unwatched;

    reveal(MachineState::push8);
}

broadcast proof fn lemma_push16_unwatched(machine: MachineState, value: u16)
    requires
        machine.unwatched(),
    ensures
        #[trigger] machine.push16(value).unwatched(),
{
    broadcast use lemma_push8_unwatched;

    reveal(MachineState::push16);
}

broadcast proof fn lemma_pop8_unwatched(machine: MachineState)
    requires
        machine.unwatched(),
    ensures
        #[trigger] machine.after_pop8().unwatched(),
{
    broadcast use group_bus_unwatched;

    reveal(MachineState::after_pop8);
}

broadcast proof fn lemma_pop16_unwatched(machine: MachineState)
    requires
        machine.unwatched(),
    ensures
        #[trigger] machine.after_pop16().unwatched(),
{
    broadcast use lemma_pop8_unwatched;

    reveal(MachineState::after_pop16);
}

broadcast proof fn lemma_ret_unwatched(machine: MachineState)
    requires
        machine.unwatched(),
    ensures
        #[trigger] machine.ctrl_ret().unwatched(),
{
    broadcast use {group_cycles_unwatched, lemma_pop16_unwatched};

    reveal(MachineState::ctrl_ret);
}

broadcast group group_operands_unwatched {
    lemma_read_in_unwatched,
    lemma_write_out_unwatched,
    lemma_push16_unwatched,
    lemma_pop16_unwatched,
    lemma_ret_unwatched,
    lemma_mcycle_unwatched,
    lemma_write_cycle_unwatched,
    lemma_fetch8_unwatched,
    lemma_fetch16_unwatched,
    lemma_prefetch_unwatched,
    lemma_prefetch_next_unwatched,
    lemma_oam_bug_unwatched,
    lemma_registers_unwatched,
    lemma_pc_unwatched,
    lemma_sp_unwatched,
    lemma_exec_state_unwatched,
}

proof fn lemma_byte_instructions_unwatched(
    machine: MachineState,
    src: In8,
    dst: Out8,
    op: AluOp8,
    accumulator_op: AccumulatorOp,
)
    requires
        machine.unwatched(),
    ensures
        machine.exec_load8(dst, src).unwatched(),
        machine.exec_inc8(src, dst).unwatched(),
        machine.exec_dec8(src, dst).unwatched(),
        machine.exec_alu(src, op).unwatched(),
        machine.exec_accumulator_op(accumulator_op).unwatched(),
{
    broadcast use group_operands_unwatched;

    reveal(MachineState::exec_load8);
    reveal(MachineState::exec_inc8);
    reveal(MachineState::exec_dec8);
    reveal(MachineState::exec_alu);
    reveal(MachineState::exec_accumulator_op);
}

proof fn lemma_word_instructions_unwatched(
    machine: MachineState,
    reg: Reg16Pair,
    step: int,
)
    requires
        machine.unwatched(),
    ensures
        machine.exec_load16_immediate(reg).unwatched(),
        machine.exec_step16(reg, step).unwatched(),
        machine.exec_add_hl(reg).unwatched(),
        machine.exec_store_sp().unwatched(),
        machine.exec_add_sp_signed().unwatched(),
        machine.exec_load_hl_sp_plus_signed().unwatched(),
        machine.exec_load_sp_from_hl().unwatched(),
{
    broadcast use group_operands_unwatched;

    reveal(MachineState::exec_load16_immediate);
    reveal(MachineState::exec_step16);
    reveal(MachineState::exec_add_hl);
    reveal(MachineState::exec_store_sp);
    reveal(MachineState::exec_add_sp_signed);
    reveal(MachineState::exec_load_hl_sp_plus_signed);
    reveal(MachineState::exec_load_sp_from_hl);
}

proof fn lemma_flow_unwatched(machine: MachineState, taken: bool)
    requires
        machine.unwatched(),
    ensures
        machine.exec_jr_if(taken).unwatched(),
        machine.exec_jp_if(taken).unwatched(),
        machine.exec_call_if(taken).unwatched(),
        machine.exec_ret_if(taken).unwatched(),
        machine.exec_ret().unwatched(),
        machine.exec_reti().unwatched(),
{
    broadcast use group_operands_unwatched;

    reveal(MachineState::exec_jr_if);
    reveal(MachineState::exec_jp_if);
    reveal(MachineState::exec_call_if);
    reveal(MachineState::exec_ret_if);
    reveal(MachineState::exec_ret);
    reveal(MachineState::exec_reti);
    assert(machine.ctrl_ret().unwatched());
    assert(MachineState { ime: true, ..machine.ctrl_ret() }.unwatched());
}

proof fn lemma_stack_and_control_unwatched(
    machine: MachineState,
    value: u16,
    address: u16,
    reg: StackReg16,
)
    requires
        machine.unwatched(),
    ensures
        machine.exec_push(value, address).unwatched(),
        machine.exec_pop(reg).unwatched(),
        machine.exec_stop().unwatched(),
        machine.exec_halt().unwatched(),
        machine.exec_disable_interrupts().unwatched(),
        machine.exec_enable_interrupts().unwatched(),
{
    broadcast use group_operands_unwatched;

    reveal(MachineState::exec_push);
    reveal(MachineState::exec_pop);
    reveal(MachineState::exec_stop);
    reveal(MachineState::exec_halt);
    reveal(MachineState::exec_disable_interrupts);
    reveal(MachineState::exec_enable_interrupts);
    assert(MachineState { ime: false, ..machine }.unwatched());
    assert(machine.prefetch_next().unwatched());
}

proof fn lemma_shifts_unwatched(machine: MachineState, index: int, op: ShiftOp, bit: u8)
    requires
        machine.unwatched(),
    ensures
        machine.exec_cb_shift(index, op).unwatched(),
        machine.exec_cb_bit(index, bit).unwatched(),
        machine.exec_cb_res(index, bit).unwatched(),
        machine.exec_cb_set(index, bit).unwatched(),
{
    broadcast use group_operands_unwatched;

    reveal(MachineState::exec_cb_shift);
    reveal(MachineState::exec_cb_bit);
    reveal(MachineState::exec_cb_res);
    reveal(MachineState::exec_cb_set);
}

proof fn lemma_prefixed_unwatched(machine: MachineState)
    requires
        machine.unwatched(),
    ensures
        machine.execute_cb_prefixed().unwatched(),
{
    broadcast use group_operands_unwatched;

    reveal(MachineState::execute_cb_prefixed);
    let opcode = machine.fetch8();
    let fetched = machine.after_fetch8();
    assert(fetched.unwatched());
    lemma_shifts_unwatched(
        fetched,
        (opcode % 8) as int,
        shift_op((opcode / 8 % 8) as int),
        opcode / 8 % 8,
    );
}

proof fn lemma_low_opcodes_unwatched(machine: MachineState, opcode: u8)
    requires
        machine.unwatched(),
    ensures
        machine.execute_opcode_00_3f(opcode).unwatched(),
{
    broadcast use group_operands_unwatched;

    reveal(MachineState::execute_opcode_00_3f);
    let y = (opcode / 8) as int;
    let op = AluOp8::Add;
    assert(machine.prefetch_next().unwatched());
    lemma_stack_and_control_unwatched(machine, 0, 0, StackReg16::Bc);
    lemma_flow_unwatched(machine, true);
    lemma_flow_unwatched(machine, false);
    lemma_word_instructions_unwatched(machine, r16_pair(y / 2), 1);
    lemma_word_instructions_unwatched(machine, r16_pair(y / 2), -1);
    lemma_byte_instructions_unwatched(machine, r8_in(y), r8_out(y), op, accumulator_op(y));
    lemma_byte_instructions_unwatched(machine, In8::Imm8, r8_out(y), op, accumulator_op(y));
    lemma_byte_instructions_unwatched(
        machine,
        In8::Reg(Reg8Id::A),
        Out8::Addr(r16_indirect(y / 2)),
        op,
        accumulator_op(y),
    );
    lemma_byte_instructions_unwatched(
        machine,
        In8::Addr(r16_indirect(y / 2)),
        Out8::Reg(Reg8Id::A),
        op,
        accumulator_op(y),
    );
}

proof fn lemma_middle_opcodes_unwatched(machine: MachineState, opcode: u8)
    requires
        machine.unwatched(),
    ensures
        machine.execute_opcode_40_bf(opcode).unwatched(),
{
    reveal(MachineState::execute_opcode_40_bf);
    let y = (opcode / 8 % 8) as int;
    let z = (opcode % 8) as int;
    lemma_stack_and_control_unwatched(machine, 0, 0, StackReg16::Bc);
    lemma_byte_instructions_unwatched(
        machine,
        r8_in(z),
        r8_out(y),
        alu_op(y),
        AccumulatorOp::Rlca,
    );
}

proof fn lemma_accumulator_loads_unwatched(machine: MachineState, mode: AddrMode8)
    requires
        machine.unwatched(),
    ensures
        machine.exec_load8(Out8::Addr(mode), In8::Reg(Reg8Id::A)).unwatched(),
        machine.exec_load8(Out8::Reg(Reg8Id::A), In8::Addr(mode)).unwatched(),
{
    let op = AccumulatorOp::Rlca;
    lemma_byte_instructions_unwatched(
        machine,
        In8::Reg(Reg8Id::A),
        Out8::Addr(mode),
        AluOp8::Add,
        op,
    );
    lemma_byte_instructions_unwatched(
        machine,
        In8::Addr(mode),
        Out8::Reg(Reg8Id::A),
        AluOp8::Add,
        op,
    );
}

proof fn lemma_single_opcodes_unwatched(machine: MachineState, opcode: u8)
    requires
        machine.unwatched(),
    ensures
        machine.execute_single_opcode(opcode).unwatched(),
{
    reveal(MachineState::execute_single_opcode);
    lemma_flow_unwatched(machine, true);
    lemma_prefixed_unwatched(machine);
    lemma_accumulator_loads_unwatched(machine, AddrMode8::ZeroPageImm);
    lemma_accumulator_loads_unwatched(machine, AddrMode8::ZeroPageC);
    lemma_accumulator_loads_unwatched(machine, AddrMode8::Direct);
    lemma_word_instructions_unwatched(machine, Reg16Pair::Bc, 1);
    lemma_stack_and_control_unwatched(machine, 0, 0, StackReg16::Bc);
    lemma_prefetch_unwatched(machine, machine.registers.hl(), true, true);
}

proof fn lemma_high_opcodes_unwatched(machine: MachineState, opcode: u8)
    requires
        machine.unwatched(),
    ensures
        machine.execute_opcode_c0_ff(opcode).unwatched(),
{
    reveal(MachineState::execute_opcode_c0_ff);
    let y = (opcode / 8 % 8) as int;
    let reg = r16_stack(y / 2);
    lemma_single_opcodes_unwatched(machine, opcode);
    lemma_flow_unwatched(machine, machine.registers.condition(condition_code(y)));
    lemma_stack_and_control_unwatched(machine, machine.registers.pc, (y * 8) as u16, reg);
    lemma_stack_and_control_unwatched(
        machine,
        machine.registers.stack_pair(reg),
        machine.registers.pc,
        reg,
    );
    lemma_byte_instructions_unwatched(
        machine,
        In8::Imm8,
        Out8::Reg(Reg8Id::A),
        alu_op(y),
        AccumulatorOp::Rlca,
    );
}

proof fn lemma_opcode_unwatched(machine: MachineState, opcode: u8)
    requires
        machine.unwatched(),
    ensures
        machine.execute_opcode(opcode).unwatched(),
{
    reveal(MachineState::execute_opcode);
    lemma_low_opcodes_unwatched(machine, opcode);
    lemma_middle_opcodes_unwatched(machine, opcode);
    lemma_high_opcodes_unwatched(machine, opcode);
}

/// Whether a step leaves the machine unwatched, and stops at no breakpoint or watchpoint.
pub open spec fn goes_by(stepped: Stepped) -> bool {
    &&& stepped.machine.unwatched()
    &&& stepped.outcome != Ok::<StopReason, GbError>(StopReason::BreakpointHit)
    &&& stepped.outcome != Ok::<StopReason, GbError>(StopReason::WatchpointHit)
}

proof fn lemma_instruction_goes_by(machine: MachineState)
    requires
        machine.unwatched(),
    ensures
        goes_by(machine.run_instruction()),
{
    broadcast use group_operands_unwatched;

    reveal(MachineState::run_instruction);
    let taken = MachineState { prefetched_pc: None, prefetched_opcode: None, ..machine };
    assert(taken.unwatched());
    assert(taken.after_fetch8().unwatched());
    lemma_opcode_unwatched(machine.after_next_opcode(), machine.next_opcode().1);
}

proof fn lemma_dispatch_goes_by(machine: MachineState)
    requires
        machine.unwatched(),
    ensures
        goes_by(machine.dispatch_or_run()),
{
    broadcast use {group_operands_unwatched, group_bus_unwatched};

    reveal(MachineState::dispatch_or_run);
    match highest_priority_interrupt(machine.pending_interrupts()) {
        Some((mask, vector)) => {
            reveal(MachineState::dispatch);
            reveal(MachineState::dispatch_wait);
            let begun = MachineState {
                prefetched_pc: None,
                prefetched_opcode: None,
                ime: false,
                ..machine
            };
            assert(begun.unwatched());
            assert(machine.dispatch_wait().unwatched());
            assert(machine.dispatch_push().unwatched());
            let pushed = machine.dispatch_push();
            let ack_mask = match highest_priority_interrupt(pushed.pending_interrupts()) {
                Some((sampled, _)) => sampled,
                None => mask,
            };
            let flushed = pushed.flush_pending_t34_interrupts();
            assert(flushed.unwatched());
            let entered = flushed.with_reg(
                IF_REGISTER,
                (flushed.reg(IF_REGISTER) & !ack_mask) | 0xE0,
            ).with_pc(vector);
            assert(entered.unwatched());
            assert(entered.after_fetch8().unwatched());
        },
        None => {
            lemma_instruction_goes_by(machine.with_exec_state(ExecState::Running));
        },
    }
}

proof fn lemma_sleep_goes_by(machine: MachineState)
    requires
        machine.unwatched(),
    ensures
        goes_by(machine.step_asleep()),
{
    broadcast use group_operands_unwatched;

    reveal(MachineState::step_asleep);
    let woken = machine.with_exec_state(ExecState::Running).prefetch_next();
    assert(woken.unwatched());
    assert(machine.tick_mcycle().unwatched());
    lemma_dispatch_goes_by(woken);
}

proof fn lemma_step_goes_by(machine: MachineState)
    requires
        machine.breakpoints.len() == 0,
    ensures
        goes_by(machine.step()),
{
    reveal(MachineState::step);
    let begun = MachineState { pending_watchpoint: None, ..machine };
    lemma_dispatch_goes_by(begun);
    lemma_sleep_goes_by(begun);
    lemma_instruction_goes_by(begun);
}

/// Without breakpoints and watchpoints, no step stops at one, and none comes to be set.
pub proof fn law_step_without_breakpoints_stops_at_none(machine: MachineState)
    requires
        machine.breakpoints.len() == 0,
    ensures
        machine.step().outcome != Ok::<StopReason, GbError>(StopReason::BreakpointHit),
        machine.step().outcome != Ok::<StopReason, GbError>(StopReason::WatchpointHit),
        machine.step().machine.breakpoints.len() == 0,
        machine.step().machine.pending_watchpoint is None,
{
    lemma_step_goes_by(machine);
}

/// Without breakpoints and watchpoints, no run stops at one, however long, and none comes to be
/// set.
pub proof fn law_run_without_breakpoints_stops_at_none(machine: MachineState, limit: nat)
    requires
        machine.breakpoints.len() == 0,
    ensures
        machine.run(limit).outcome != Ok::<StopReason, GbError>(StopReason::BreakpointHit),
        machine.run(limit).outcome != Ok::<StopReason, GbError>(StopReason::WatchpointHit),
        machine.run(limit).machine.breakpoints.len() == 0,
    decreases limit,
{
    if limit > 0 {
        law_step_without_breakpoints_stops_at_none(machine);
        law_run_without_breakpoints_stops_at_none(machine.step().machine, (limit - 1) as nat);
    }
}

/// Once breakpoints and watchpoints are cleared, nothing stops at one any more.
pub proof fn law_cleared_breakpoints_stop_nothing(machine: MachineState, limit: nat)
    ensures
        ({
            let cleared = MachineState { breakpoints: Seq::empty(), ..machine };
            let ran = cleared.run(limit);
            &&& ran.outcome != Ok::<StopReason, GbError>(StopReason::BreakpointHit)
            &&& ran.outcome != Ok::<StopReason, GbError>(StopReason::WatchpointHit)
            &&& ran.machine.breakpoints.len() == 0
        }),
{
    law_run_without_breakpoints_stops_at_none(
        MachineState { breakpoints: Seq::empty(), ..machine },
        limit,
    );
}

/// Without breakpoints and watchpoints, no run for clock cycles stops at one either.
pub proof fn law_run_for_cycles_without_breakpoints_stops_at_none(
    machine: MachineState,
    start: u64,
    cycles: u64,
)
    requires
        machine.breakpoints.len() == 0,
    ensures
        machine.run_for_cycles(start, cycles).outcome != Ok::<StopReason, GbError>(
            StopReason::BreakpointHit,
        ),
        machine.run_for_cycles(start, cycles).outcome != Ok::<StopReason, GbError>(
            StopReason::WatchpointHit,
        ),
        machine.run_for_cycles(start, cycles).machine.breakpoints.len() == 0,
    decreases machine.cycles_left(start, cycles),
{
    if !machine.cycles_spent(start, cycles) {
        law_step_without_breakpoints_stops_at_none(machine);
        if machine.goes_on() {
            law_run_for_cycles_without_breakpoints_stops_at_none(
                machine.step().machine,
                start,
                cycles,
            );
        }
    }
}

} // verus!
