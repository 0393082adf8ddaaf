use gbbrain::alu::{AccumulatorOp, AluOp8, ShiftOp};
use gbbrain::interface::{
    Breakpoint, Machine, MachineControl, MemoryRegion, RunResult, StopReason, WatchpointKind,
};
use gbbrain::machine::{ExecState, GbMachine, IF_REGISTER};
use gbbrain::model::{GbError, GbModel};
use gbbrain::registers::Registers;

/// A machine whose boot ROM is the given program; its first step runs the idle opcode of power on.
fn program(code: &[u8]) -> GbMachine {
    let mut rom = vec![0u8; 0x8000];
    rom[0x147] = 0x00;
    let mut boot = vec![0u8; 0x100];
    boot[..code.len()].copy_from_slice(code);
    let mut machine =
        GbMachine::new_with_model_and_bootrom(rom, GbModel::Dmg, Some(boot)).unwrap();
    machine.step_instruction().unwrap();
    machine
}

fn cycles_of(code: &[u8]) -> u64 {
    let mut machine = program(code);
    let start = machine.cycle_counter;
    machine.step_instruction().unwrap();
    machine.cycle_counter - start
}

#[test]
fn instructions_take_their_cycles() {
    assert_eq!(cycles_of(&[0x00]), 4);
    assert_eq!(cycles_of(&[0x06, 0x12]), 8);
    assert_eq!(cycles_of(&[0x01, 0x34, 0x12]), 12);
    assert_eq!(cycles_of(&[0x08, 0x00, 0xC0]), 20);
    assert_eq!(cycles_of(&[0x34]), 12);
    assert_eq!(cycles_of(&[0x18, 0x02]), 12);
    assert_eq!(cycles_of(&[0x28, 0x02]), 8);
    assert_eq!(cycles_of(&[0xCD, 0x10, 0x00]), 24);
    assert_eq!(cycles_of(&[0xC9]), 16);
    assert_eq!(cycles_of(&[0xC0]), 20);
    assert_eq!(cycles_of(&[0xC8]), 8);
    assert_eq!(cycles_of(&[0xC5]), 16);
    assert_eq!(cycles_of(&[0xC1]), 12);
    assert_eq!(cycles_of(&[0xE8, 0x01]), 16);
    assert_eq!(cycles_of(&[0xF8, 0x01]), 12);
    assert_eq!(cycles_of(&[0xCB, 0x46]), 12);
    assert_eq!(cycles_of(&[0xCB, 0xC6]), 16);
    assert_eq!(cycles_of(&[0xEA, 0x00, 0xC0]), 16);
}

#[test]
fn loads_move_bytes_between_registers_and_memory() {
    let mut machine = program(&[0x21, 0x00, 0xC0, 0x36, 0x5A, 0x7E, 0x47, 0x22, 0x3A]);
    for _ in 0..6 {
        machine.step_instruction().unwrap();
    }
    let registers = machine.snapshot().registers;
    assert_eq!(registers.a, 0x00);
    assert_eq!(registers.b, 0x5A);
    assert_eq!((registers.h, registers.l), (0xC0, 0x00));
    assert_eq!(machine.inspect_memory(MemoryRegion::Ram, 0, 1).unwrap(), vec![0x5A]);
}

#[test]
fn stack_pair_is_stored_low_byte_first() {
    let mut machine = program(&[0x31, 0xEF, 0xBE, 0x08, 0x10, 0xC0]);
    machine.step_instruction().unwrap();
    machine.step_instruction().unwrap();
    assert_eq!(machine.inspect_memory(MemoryRegion::Ram, 0x10, 2).unwrap(), vec![0xEF, 0xBE]);
}

#[test]
fn call_and_return_come_back() {
    let mut machine = program(&[0x31, 0x00, 0xD0, 0xCD, 0x08, 0x00, 0x00, 0x00, 0xC9]);
    machine.step_instruction().unwrap();
    machine.step_instruction().unwrap();
    assert_eq!(machine.snapshot().registers.pc, 0x0008);
    assert_eq!(machine.snapshot().registers.sp, 0xCFFE);
    machine.step_instruction().unwrap();
    assert_eq!(machine.snapshot().registers.pc, 0x0006);
    assert_eq!(machine.snapshot().registers.sp, 0xD000);
}

#[test]
fn restart_goes_to_its_vector() {
    let mut machine = program(&[0x31, 0x00, 0xD0, 0xEF]);
    machine.step_instruction().unwrap();
    machine.step_instruction().unwrap();
    assert_eq!(machine.snapshot().registers.pc, 0x0028);
}

#[test]
fn popped_flags_lose_their_low_bits() {
    let mut machine = program(&[0x31, 0x00, 0xD0, 0x01, 0xFF, 0x12, 0xC5, 0xF1]);
    for _ in 0..4 {
        machine.step_instruction().unwrap();
    }
    assert_eq!(machine.snapshot().registers.a, 0x12);
    assert_eq!(machine.snapshot().registers.f, 0xF0);
}

#[test]
fn relative_jumps_go_back_too() {
    let mut machine = program(&[0x18, 0x02, 0x00, 0x00, 0x18, 0xFA]);
    machine.step_instruction().unwrap();
    assert_eq!(machine.snapshot().registers.pc, 0x0004);
    machine.step_instruction().unwrap();
    assert_eq!(machine.snapshot().registers.pc, 0x0000);
}

#[test]
fn bit_operations_behind_the_prefix() {
    let mut machine =
        program(&[0x06, 0x81, 0xCB, 0x00, 0xCB, 0x30, 0xCB, 0x80, 0xCB, 0xF8, 0xCB, 0x78]);
    machine.step_instruction().unwrap();
    machine.step_instruction().unwrap();
    assert_eq!(machine.registers.b, 0x03);
    assert_eq!(machine.registers.f, 0x10);
    machine.step_instruction().unwrap();
    assert_eq!(machine.registers.b, 0x30);
    assert_eq!(machine.registers.f, 0x00);
    machine.step_instruction().unwrap();
    assert_eq!(machine.registers.b, 0x30);
    machine.step_instruction().unwrap();
    assert_eq!(machine.registers.b, 0xB0);
    machine.step_instruction().unwrap();
    assert_eq!(machine.registers.f, 0x20);
}

#[test]
fn all_illegal_opcodes_are_refused_where_they_stand() {
    for opcode in [0xD3, 0xDB, 0xDD, 0xE3, 0xE4, 0xEB, 0xEC, 0xED, 0xF4, 0xFC, 0xFDu8] {
        let mut machine = program(&[opcode]);
        match machine.step_instruction() {
            Err(GbError::IllegalOpcode { opcode: found, pc }) => {
                assert_eq!(found, opcode);
                assert_eq!(pc, 0x0000);
            }
            other => panic!("expected an illegal opcode, got {other:?}"),
        }
        assert_eq!(machine.instruction_counter, 1);
    }
}

#[test]
fn arithmetic_sets_the_flags() {
    let mut registers = Registers::default();
    registers.a = 0x3A;
    registers.apply_alu(AluOp8::Add, 0xC6);
    assert_eq!((registers.a, registers.f), (0x00, 0xB0));
    registers.apply_alu(AluOp8::Adc, 0x0F);
    assert_eq!((registers.a, registers.f), (0x10, 0x20));
    registers.apply_alu(AluOp8::Sub, 0x01);
    assert_eq!((registers.a, registers.f), (0x0F, 0x60));
    registers.apply_alu(AluOp8::Cp, 0x10);
    assert_eq!((registers.a, registers.f), (0x0F, 0x50));
    registers.apply_alu(AluOp8::Sbc, 0x0E);
    assert_eq!((registers.a, registers.f), (0x00, 0xC0));
    registers.a = 0x5A;
    registers.apply_alu(AluOp8::And, 0x0F);
    assert_eq!((registers.a, registers.f), (0x0A, 0x20));
    registers.apply_alu(AluOp8::Xor, 0x0A);
    assert_eq!((registers.a, registers.f), (0x00, 0x80));
    registers.apply_alu(AluOp8::Or, 0x81);
    assert_eq!((registers.a, registers.f), (0x81, 0x00));
}

#[test]
fn decimal_adjustment_adds_and_subtracts_decimals() {
    let mut registers = Registers::default();
    registers.a = 0x45;
    registers.apply_alu(AluOp8::Add, 0x38);
    registers.apply_accumulator_op(AccumulatorOp::Daa);
    assert_eq!((registers.a, registers.f), (0x83, 0x00));
    registers.apply_alu(AluOp8::Sub, 0x38);
    registers.apply_accumulator_op(AccumulatorOp::Daa);
    assert_eq!((registers.a, registers.f), (0x45, 0x40));
    registers.apply_alu(AluOp8::Add, 0x90);
    registers.apply_accumulator_op(AccumulatorOp::Daa);
    assert_eq!((registers.a, registers.f), (0x35, 0x10));
}

#[test]
fn rotations_go_round_and_back() {
    let mut registers = Registers::default();
    let left = registers.shift8(ShiftOp::Rlc, 0x85);
    assert_eq!((left, registers.f), (0x0B, 0x10));
    assert_eq!(registers.shift8(ShiftOp::Rrc, left), 0x85);
    registers.f = 0x00;
    assert_eq!(registers.shift8(ShiftOp::Rl, 0x80), 0x00);
    assert_eq!(registers.f, 0x90);
    assert_eq!(registers.shift8(ShiftOp::Rr, 0x02), 0x81);
    assert_eq!(registers.shift8(ShiftOp::Sra, 0x82), 0xC1);
    assert_eq!(registers.shift8(ShiftOp::Srl, 0x82), 0x41);
    assert_eq!(registers.shift8(ShiftOp::Sla, 0xC1), 0x82);
    assert_eq!(registers.shift8(ShiftOp::Swap, 0xA5), 0x5A);
}

#[test]
fn complement_twice_is_nothing() {
    let mut registers = Registers::default();
    registers.a = 0x35;
    registers.apply_accumulator_op(AccumulatorOp::Cpl);
    assert_eq!((registers.a, registers.f), (0xCA, 0x60));
    registers.apply_accumulator_op(AccumulatorOp::Cpl);
    assert_eq!(registers.a, 0x35);
    registers.apply_accumulator_op(AccumulatorOp::Scf);
    assert_eq!(registers.f, 0x10);
    registers.apply_accumulator_op(AccumulatorOp::Ccf);
    assert_eq!(registers.f, 0x00);
}

#[test]
fn sixteen_bit_sums_carry_from_bits_eleven_and_fifteen() {
    let mut registers = Registers::default();
    registers.set_hl(0x8A23);
    registers.add16_hl(0x8A23);
    assert_eq!((registers.hl(), registers.f), (0x1446, 0x30));
    registers.sp = 0xFFF8;
    assert_eq!(registers.add_sp_signed(0x08), 0x0000);
    assert_eq!(registers.f, 0x30);
    assert_eq!(registers.add_sp_signed(0xFE), 0xFFF6);
}

#[test]
fn register_pairs_and_flags_read_back() {
    let mut registers = Registers::default();
    registers.set_bc(0x1234);
    registers.set_de(0x5678);
    registers.set_hl(0x9ABC);
    registers.set_af(0xDEFF);
    assert_eq!(registers.bc(), 0x1234);
    assert_eq!(registers.de(), 0x5678);
    assert_eq!(registers.hl(), 0x9ABC);
    assert_eq!(registers.af(), 0xDEF0);
    assert!(registers.flag_z() && registers.flag_n() && registers.flag_h() && registers.flag_c());
}

#[test]
fn comparison_leaves_the_accumulator() {
    let mut compared = Registers::default();
    compared.a = 0x3C;
    let mut subtracted = compared;
    compared.apply_alu(AluOp8::Cp, 0x2F);
    subtracted.apply_alu(AluOp8::Sub, 0x2F);
    assert_eq!(compared.f, subtracted.f);
    assert_eq!(compared.a, 0x3C);
    assert_eq!(subtracted.a, 0x0D);
}

#[test]
fn pending_interrupt_of_the_lowest_bit_is_entered() {
    let mut machine = program(&[0x31, 0x00, 0xD0, 0xFB, 0x00, 0x00]);
    machine.step_instruction().unwrap();
    machine.ie = 0x1F;
    machine.write8(IF_REGISTER, 0x14);
    machine.step_instruction().unwrap();
    machine.step_instruction().unwrap();
    assert!(matches!(machine.exec_state, ExecState::InterruptDispatch));
    assert_eq!(machine.step_instruction().unwrap().stop_reason, StopReason::StepComplete);
    assert_eq!(machine.snapshot().registers.pc, 0x0050);
    assert!(!machine.ime);
    assert_eq!(machine.read8(IF_REGISTER), 0xF0);
    assert_eq!(machine.snapshot().registers.sp, 0xCFFE);
    assert_eq!(GbMachine::highest_priority_interrupt(0x18), Some((0x08, 0x0058)));
    assert_eq!(GbMachine::highest_priority_interrupt(0xE0), None);
}

#[test]
fn halted_machine_sleeps_until_an_interrupt() {
    let mut machine = program(&[0x76, 0x3C]);
    machine.ie = 0x04;
    assert_eq!(machine.step_instruction().unwrap().stop_reason, StopReason::Halted);
    let before = machine.cycle_counter;
    assert_eq!(machine.step_instruction().unwrap().stop_reason, StopReason::Halted);
    assert_eq!(machine.cycle_counter, before + 4);
    assert!(machine.snapshot().halted);
    machine.request_interrupt(0x04);
    assert_eq!(machine.step_instruction().unwrap().stop_reason, StopReason::StepComplete);
    machine.step_instruction().unwrap();
    assert_eq!(machine.registers.a, 1);
}

#[test]
fn breakpoint_stops_and_leaves_the_machine() {
    let mut machine = program(&[0x3C, 0x3C, 0x3C]);
    machine.add_breakpoint(Breakpoint::ProgramCounter(0x0002)).unwrap();
    assert_eq!(machine.step_instruction().unwrap().stop_reason, StopReason::StepComplete);
    assert_eq!(machine.step_instruction().unwrap().stop_reason, StopReason::BreakpointHit);
    assert_eq!(machine.registers.a, 2);
    let cycles = machine.cycle_counter;
    for _ in 0..3 {
        assert_eq!(machine.run().unwrap(), RunResult { stop_reason: StopReason::BreakpointHit });
    }
    assert_eq!(machine.cycle_counter, cycles);
    assert_eq!(machine.registers.a, 2);
    machine.clear_breakpoints().unwrap();
    assert_eq!(machine.step_instruction().unwrap().stop_reason, StopReason::StepComplete);
    assert_eq!(machine.registers.a, 3);
}

#[test]
fn read_watchpoint_is_reported() {
    let mut machine = program(&[0xFA, 0x34, 0xC0, 0x00]);
    machine.add_breakpoint(Breakpoint::MemoryRead(0xC034)).unwrap();
    assert_eq!(machine.step_instruction().unwrap().stop_reason, StopReason::WatchpointHit);
    assert_eq!(GbMachine::last_watchpoint(&machine), Some(("read", 0xC034)));
    let hit = machine.last_watchpoint_hit().unwrap();
    assert_eq!(hit.kind, WatchpointKind::Read);
    assert_eq!(hit.address, 0xC034);
    machine.step_instruction().unwrap();
    assert_eq!(GbMachine::last_watchpoint(&machine), None);
}

#[test]
fn trace_holds_the_last_512_instructions() {
    let mut machine = program(&[0x18, 0xFE]);
    for _ in 0..600 {
        machine.step_instruction().unwrap();
    }
    let trace = GbMachine::trace_entries(&machine);
    assert_eq!(trace.len(), 512);
    assert_eq!(trace[511].instruction_counter, 601);
    assert_eq!(trace[0].instruction_counter, 90);
    assert_eq!(trace[0].opcode, 0x18);
    GbMachine::clear_trace(&mut machine);
    assert!(GbMachine::trace_entries(&machine).is_empty());
}

#[test]
fn run_gives_up_at_its_limit() {
    let mut machine = program(&[0x18, 0xFE]);
    assert_eq!(machine.run().unwrap().stop_reason, StopReason::RunLimitReached);
    assert_eq!(machine.instruction_counter, 1_000_001);
}

#[test]
fn two_short_runs_are_one_long_run() {
    let mut whole = program(&[0x3C, 0x04, 0x18, 0xFC]);
    let mut parts = program(&[0x3C, 0x04, 0x18, 0xFC]);
    whole.run_steps(50).unwrap();
    parts.run_steps(20).unwrap();
    parts.run_steps(30).unwrap();
    assert_eq!(whole.snapshot(), parts.snapshot());
    assert_eq!(whole.debug_state(), parts.debug_state());
    assert_eq!(GbMachine::trace_entries(&whole), GbMachine::trace_entries(&parts));
}

#[test]
fn run_for_cycles_goes_on_through_sleep() {
    let mut machine = program(&[0x76]);
    let start = machine.cycle_counter;
    let result = machine.run_for_cycles(1000).unwrap();
    assert_eq!(result.stop_reason, StopReason::RunLimitReached);
    assert_eq!(machine.cycle_counter - start, 1000);
}

#[test]
fn cleared_breakpoints_stop_nothing() {
    let mut machine = program(&[0x3C, 0xEA, 0x00, 0xC0, 0x18, 0xFA]);
    machine.add_breakpoint(Breakpoint::ProgramCounter(1)).unwrap();
    machine.add_breakpoint(Breakpoint::Opcode(0x18)).unwrap();
    machine.add_breakpoint(Breakpoint::MemoryWrite(0xC000)).unwrap();
    assert_eq!(machine.run_steps(50).unwrap().stop_reason, StopReason::BreakpointHit);
    let registers = machine.snapshot().registers;
    machine.clear_breakpoints().unwrap();
    assert_eq!(machine.snapshot().registers, registers);
    for _ in 0..200 {
        assert_eq!(machine.step_instruction().unwrap().stop_reason, StopReason::StepComplete);
    }
    assert_eq!(machine.run_steps(500).unwrap().stop_reason, StopReason::RunLimitReached);
    assert!(machine.last_watchpoint().is_none());
}
