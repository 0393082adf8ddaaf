//! The instructions.

use vstd::prelude::*;

use crate::alu::{
    accumulator, alu8, bit_tested, decremented8, incremented8, law_alu_keeps_flags_clean,
    shift_flags, shifted, signed, signed_byte, sp_plus, sp_plus_flags, sum16, AccumulatorOp, AluOp8,
    ShiftOp,
};
use crate::cpu::{
    in_cycles, out_cycles, wrapped16, AddrMode8, Condition, In8, Out8, Reg16Pair, Reg8Id, StackReg16,
};
use crate::machine::{ExecState, GbMachine, MachineState, OamCorruptionKind};
use crate::model::GbError;
use crate::registers::{high, high_byte, low, low_byte};

verus! {

/// The register that three bits of an opcode name; the sixth place is the byte at `HL`.
pub open spec fn r8_in(index: int) -> In8 {
    if index == 0 {
        In8::Reg(Reg8Id::B)
    } else if index == 1 {
        In8::Reg(Reg8Id::C)
    } else if index == 2 {
        In8::Reg(Reg8Id::D)
    } else if index == 3 {
        In8::Reg(Reg8Id::E)
    } else if index == 4 {
        In8::Reg(Reg8Id::H)
    } else if index == 5 {
        In8::Reg(Reg8Id::L)
    } else if index == 6 {
        In8::Addr(AddrMode8::Hl)
    } else {
        In8::Reg(Reg8Id::A)
    }
}

pub open spec fn r8_out(index: int) -> Out8 {
    match r8_in(index) {
        In8::Reg(reg) => Out8::Reg(reg),
        _ => Out8::Addr(AddrMode8::Hl),
    }
}

pub open spec fn condition_code(index: int) -> Condition {
    if index == 0 {
        Condition::Nz
    } else if index == 1 {
        Condition::Z
    } else if index == 2 {
        Condition::Nc
    } else {
        Condition::C
    }
}

pub open spec fn r16_pair(index: int) -> Reg16Pair {
    if index == 0 {
        Reg16Pair::Bc
    } else if index == 1 {
        Reg16Pair::De
    } else if index == 2 {
        Reg16Pair::Hl
    } else {
        Reg16Pair::Sp
    }
}

pub open spec fn r16_stack(index: int) -> StackReg16 {
    if index == 0 {
        StackReg16::Bc
    } else if index == 1 {
        StackReg16::De
    } else if index == 2 {
        StackReg16::Hl
    } else {
        StackReg16::Af
    }
}

/// The pair that a load of the accumulator goes by.
pub open spec fn r16_indirect(index: int) -> AddrMode8 {
    if index == 0 {
        AddrMode8::Bc
    } else if index == 1 {
        AddrMode8::De
    } else if index == 2 {
        AddrMode8::Hli
    } else {
        AddrMode8::Hld
    }
}

pub open spec fn alu_op(index: int) -> AluOp8 {
    if index == 0 {
        AluOp8::Add
    } else if index == 1 {
        AluOp8::Adc
    } else if index == 2 {
        AluOp8::Sub
    } else if index == 3 {
        AluOp8::Sbc
    } else if index == 4 {
        AluOp8::And
    } else if index == 5 {
        AluOp8::Xor
    } else if index == 6 {
        AluOp8::Or
    } else {
        AluOp8::Cp
    }
}

pub open spec fn accumulator_op(index: int) -> AccumulatorOp {
    if index == 0 {
        AccumulatorOp::Rlca
    } else if index == 1 {
        AccumulatorOp::Rrca
    } else if index == 2 {
        AccumulatorOp::Rla
    } else if index == 3 {
        AccumulatorOp::Rra
    } else if index == 4 {
        AccumulatorOp::Daa
    } else if index == 5 {
        AccumulatorOp::Cpl
    } else if index == 6 {
        AccumulatorOp::Scf
    } else {
        AccumulatorOp::Ccf
    }
}

pub open spec fn shift_op(index: int) -> ShiftOp {
    if index == 0 {
        ShiftOp::Rlc
    } else if index == 1 {
        ShiftOp::Rrc
    } else if index == 2 {
        ShiftOp::Rl
    } else if index == 3 {
        ShiftOp::Rr
    } else if index == 4 {
        ShiftOp::Sla
    } else if index == 5 {
        ShiftOp::Sra
    } else if index == 6 {
        ShiftOp::Swap
    } else {
        ShiftOp::Srl
    }
}

/// Opcodes that no instruction has.
pub open spec fn illegal_opcode(opcode: u8) -> bool {
    ||| opcode == 0xD3
    ||| opcode == 0xDB
    ||| opcode == 0xDD
    ||| opcode == 0xE3
    ||| opcode == 0xE4
    ||| 0xEB <= opcode <= 0xED
    ||| opcode == 0xF4
    ||| opcode == 0xFC
    ||| opcode == 0xFD
}

/// The opcodes from C0 on that do not belong to a family.
pub open spec fn single_opcode(opcode: u8) -> bool {
    let y = opcode / 8 % 8;
    let z = opcode % 8;
    &&& opcode >= 0xC0
    &&& !illegal_opcode(opcode)
    &&& z < 6
    &&& z % 2 == 0 ==> y >= 4 && z != 4
    &&& z == 1 || z == 5 ==> y % 2 == 1
}

impl MachineState {
    #[verifier::opaque]
    pub open spec fn exec_load8(self, dst: Out8, src: In8) -> MachineState {
        self.after_read_in8(src).write_out8(dst, self.read_in8(src)).prefetch_next()
    }

    #[verifier::opaque]
    pub open spec fn exec_inc8(self, src: In8, dst: Out8) -> MachineState {
        let value = self.read_in8(src);
        let read = self.after_read_in8(src);
        read.with_registers(incremented8(read.registers, value)).write_out8(
            dst,
            ((value + 1) % 256) as u8,
        ).prefetch_next()
    }

    #[verifier::opaque]
    pub open spec fn exec_dec8(self, src: In8, dst: Out8) -> MachineState {
        let value = self.read_in8(src);
        let read = self.after_read_in8(src);
        read.with_registers(decremented8(read.registers, value)).write_out8(
            dst,
            ((value - 1) % 256) as u8,
        ).prefetch_next()
    }

    #[verifier::opaque]
    pub open spec fn exec_alu(self, src: In8, op: AluOp8) -> MachineState {
        let read = self.after_read_in8(src);
        read.with_registers(alu8(read.registers, op, self.read_in8(src))).prefetch_next()
    }

    #[verifier::opaque]
    pub open spec fn exec_accumulator_op(self, op: AccumulatorOp) -> MachineState {
        self.with_registers(accumulator(self.registers, op)).prefetch_next()
    }

    #[verifier::opaque]
    pub open spec fn exec_load16_immediate(self, reg: Reg16Pair) -> MachineState {
        let fetched = self.after_fetch16();
        fetched.with_registers(fetched.registers.with_pair(reg, self.fetch16())).prefetch_next()
    }

    /// A pair moves by one, in a cycle of its own; the move can disturb object memory.
    #[verifier::opaque]
    pub open spec fn exec_step16(self, reg: Reg16Pair, step: int) -> MachineState {
        let value = self.registers.pair(reg);
        let ticked = self.maybe_trigger_oam_bug(value, OamCorruptionKind::Write).tick_mcycle();
        ticked.with_registers(
            ticked.registers.with_pair(reg, wrapped16(value + step)),
        ).prefetch_next()
    }

    #[verifier::opaque]
    pub open spec fn exec_add_hl(self, reg: Reg16Pair) -> MachineState {
        self.with_registers(
            sum16(self.registers, self.registers.pair(reg)),
        ).tick_mcycle().prefetch_next()
    }

    /// The stack pointer is stored, low byte first.
    #[verifier::opaque]
    pub open spec fn exec_store_sp(self) -> MachineState {
        let address = self.fetch16();
        let low_stored = self.after_fetch16().write_cycle(address, low(self.registers.sp));
        low_stored.write_cycle(wrapped16(address + 1), high(self.registers.sp)).prefetch_next()
    }

    /// The byte after the opcode is skipped.
    #[verifier::opaque]
    pub open spec fn exec_stop(self) -> MachineState {
        self.after_fetch8().with_exec_state(ExecState::Stop)
    }

    /// With interrupts pending the processor does not halt; while they are disabled it then reads
    /// the next opcode without moving on.
    #[verifier::opaque]
    pub open spec fn exec_halt(self) -> MachineState {
        if self.pending_interrupts() == 0 {
            self.with_exec_state(ExecState::Halt).tick_mcycle()
        } else if self.ime {
            self.prefetch_next()
        } else {
            self.prefetch(self.registers.pc, false, false)
        }
    }

    #[verifier::opaque]
    pub open spec fn exec_jr_if(self, taken: bool) -> MachineState {
        let fetched = self.after_fetch8();
        if taken {
            fetched.with_pc(
                wrapped16(fetched.registers.pc + signed(self.fetch8())),
            ).tick_mcycle().prefetch_next()
        } else {
            fetched.prefetch_next()
        }
    }

    #[verifier::opaque]
    pub open spec fn exec_jp_if(self, taken: bool) -> MachineState {
        let fetched = self.after_fetch16();
        if taken {
            fetched.with_pc(self.fetch16()).tick_mcycle().prefetch_next()
        } else {
            fetched.prefetch_next()
        }
    }

    #[verifier::opaque]
    pub open spec fn exec_call_if(self, taken: bool) -> MachineState {
        let fetched = self.after_fetch16();
        if taken {
            fetched.tick_mcycle().push16(fetched.registers.pc).with_pc(
                self.fetch16(),
            ).prefetch_next()
        } else {
            fetched.prefetch_next()
        }
    }

    /// The program counter comes off the stack.
    #[verifier::opaque]
    pub open spec fn ctrl_ret(self) -> MachineState {
        self.after_pop16().with_pc(self.pop16()).tick_mcycle()
    }

    #[verifier::opaque]
    pub open spec fn exec_ret(self) -> MachineState {
        self.ctrl_ret().prefetch_next()
    }

    #[verifier::opaque]
    pub open spec fn exec_reti(self) -> MachineState {
        MachineState { ime: true, ..self.ctrl_ret() }.prefetch_next()
    }

    #[verifier::opaque]
    pub open spec fn exec_ret_if(self, taken: bool) -> MachineState {
        if taken {
            self.tick_mcycle().ctrl_ret().prefetch_next()
        } else {
            self.tick_mcycle().prefetch_next()
        }
    }

    /// A value is pushed, and the processor goes on at an address.
    #[verifier::opaque]
    pub open spec fn exec_push(self, value: u16, address: u16) -> MachineState {
        self.tick_mcycle().push16(value).prefetch(address, true, true)
    }

    /// The pair is set when the next opcode has been read.
    #[verifier::opaque]
    pub open spec fn exec_pop(self, reg: StackReg16) -> MachineState {
        let next = self.after_pop16().prefetch_next();
        next.with_registers(next.registers.with_stack_pair(reg, self.pop16()))
    }

    #[verifier::opaque]
    pub open spec fn exec_add_sp_signed(self) -> MachineState {
        let fetched = self.after_fetch8();
        let offset = self.fetch8();
        fetched.with_registers(sp_plus_flags(fetched.registers, offset)).with_sp(
            sp_plus(fetched.registers, offset),
        ).tick_mcycle().tick_mcycle().prefetch_next()
    }

    #[verifier::opaque]
    pub open spec fn exec_load_hl_sp_plus_signed(self) -> MachineState {
        let fetched = self.after_fetch8();
        let offset = self.fetch8();
        fetched.with_registers(
            sp_plus_flags(fetched.registers, offset).with_hl(sp_plus(fetched.registers, offset)),
        ).tick_mcycle().prefetch_next()
    }

    #[verifier::opaque]
    pub open spec fn exec_load_sp_from_hl(self) -> MachineState {
        self.with_sp(self.registers.hl()).tick_mcycle().prefetch_next()
    }

    #[verifier::opaque]
    pub open spec fn exec_disable_interrupts(self) -> MachineState {
        MachineState { ime: false, ..self }.prefetch(self.registers.pc, true, false)
    }

    /// Interrupts are enabled when the next opcode has been read.
    #[verifier::opaque]
    pub open spec fn exec_enable_interrupts(self) -> MachineState {
        MachineState { ime: true, ..self.prefetch_next() }
    }

    #[verifier::opaque]
    pub open spec fn exec_cb_shift(self, index: int, op: ShiftOp) -> MachineState {
        let value = self.read_in8(r8_in(index));
        let read = self.after_read_in8(r8_in(index));
        read.with_registers(shift_flags(read.registers, op, value)).write_out8(
            r8_out(index),
            shifted(op, value, read.registers.flag_c()),
        ).prefetch_next()
    }

    #[verifier::opaque]
    pub open spec fn exec_cb_bit(self, index: int, bit: u8) -> MachineState {
        let read = self.after_read_in8(r8_in(index));
        read.with_registers(
            bit_tested(read.registers, self.read_in8(r8_in(index)), bit),
        ).prefetch_next()
    }

    #[verifier::opaque]
    pub open spec fn exec_cb_res(self, index: int, bit: u8) -> MachineState {
        self.after_read_in8(r8_in(index)).write_out8(
            r8_out(index),
            self.read_in8(r8_in(index)) & !(1u8 << bit),
        ).prefetch_next()
    }

    #[verifier::opaque]
    pub open spec fn exec_cb_set(self, index: int, bit: u8) -> MachineState {
        self.after_read_in8(r8_in(index)).write_out8(
            r8_out(index),
            self.read_in8(r8_in(index)) | (1u8 << bit),
        ).prefetch_next()
    }

    /// The second byte of a prefixed instruction names operation, bit and operand.
    #[verifier::opaque]
    pub open spec fn execute_cb_prefixed(self) -> MachineState {
        let opcode = self.fetch8();
        let fetched = self.after_fetch8();
        let operand = (opcode % 8) as int;
        let y = opcode / 8 % 8;
        if opcode / 64 == 0 {
            fetched.exec_cb_shift(operand, shift_op(y as int))
        } else if opcode / 64 == 1 {
            fetched.exec_cb_bit(operand, y)
        } else if opcode / 64 == 2 {
            fetched.exec_cb_res(operand, y)
        } else {
            fetched.exec_cb_set(operand, y)
        }
    }

    /// Opcodes 00 to 3F: the low three bits choose the kind, the next three the operand.
    #[verifier::opaque]
    pub open spec fn execute_opcode_00_3f(self, opcode: u8) -> MachineState {
        let y = (opcode / 8) as int;
        let z = opcode % 8;
        if opcode == 0x00 {
            self.prefetch_next()
        } else if opcode == 0x08 {
            self.exec_store_sp()
        } else if opcode == 0x10 {
            self.exec_stop()
        } else if opcode == 0x18 {
            self.exec_jr_if(true)
        } else if z == 0 {
            self.exec_jr_if(self.registers.condition(condition_code(y - 4)))
        } else if z == 1 && y % 2 == 0 {
            self.exec_load16_immediate(r16_pair(y / 2))
        } else if z == 1 {
            self.exec_add_hl(r16_pair(y / 2))
        } else if z == 2 && y % 2 == 0 {
            self.exec_load8(Out8::Addr(r16_indirect(y / 2)), In8::Reg(Reg8Id::A))
        } else if z == 2 {
            self.exec_load8(Out8::Reg(Reg8Id::A), In8::Addr(r16_indirect(y / 2)))
        } else if z == 3 && y % 2 == 0 {
            self.exec_step16(r16_pair(y / 2), 1)
        } else if z == 3 {
            self.exec_step16(r16_pair(y / 2), -1)
        } else if z == 4 {
            self.exec_inc8(r8_in(y), r8_out(y))
        } else if z == 5 {
            self.exec_dec8(r8_in(y), r8_out(y))
        } else if z == 6 {
            self.exec_load8(r8_out(y), In8::Imm8)
        } else {
            self.exec_accumulator_op(accumulator_op(y))
        }
    }

    /// Opcodes 40 to BF: loads between registers, and arithmetic with a register.
    #[verifier::opaque]
    pub open spec fn execute_opcode_40_bf(self, opcode: u8) -> MachineState {
        let y = (opcode / 8 % 8) as int;
        let z = (opcode % 8) as int;
        if opcode == 0x76 {
            self.exec_halt()
        } else if opcode < 0x80 {
            self.exec_load8(r8_out(y), r8_in(z))
        } else {
            self.exec_alu(r8_in(z), alu_op(y))
        }
    }

    /// The opcodes from C0 on that do not belong to a family.
    #[verifier::opaque]
    pub open spec fn execute_single_opcode(self, opcode: u8) -> MachineState {
        let a = Reg8Id::A;
        if opcode == 0xC3 {
            self.exec_jp_if(true)
        } else if opcode == 0xC9 {
            self.exec_ret()
        } else if opcode == 0xCB {
            self.execute_cb_prefixed()
        } else if opcode == 0xCD {
            self.exec_call_if(true)
        } else if opcode == 0xD9 {
            self.exec_reti()
        } else if opcode == 0xE0 {
            self.exec_load8(Out8::Addr(AddrMode8::ZeroPageImm), In8::Reg(a))
        } else if opcode == 0xE2 {
            self.exec_load8(Out8::Addr(AddrMode8::ZeroPageC), In8::Reg(a))
        } else if opcode == 0xE8 {
            self.exec_add_sp_signed()
        } else if opcode == 0xE9 {
            self.prefetch(self.registers.hl(), true, true)
        } else if opcode == 0xEA {
            self.exec_load8(Out8::Addr(AddrMode8::Direct), In8::Reg(a))
        } else if opcode == 0xF0 {
            self.exec_load8(Out8::Reg(a), In8::Addr(AddrMode8::ZeroPageImm))
        } else if opcode == 0xF2 {
            self.exec_load8(Out8::Reg(a), In8::Addr(AddrMode8::ZeroPageC))
        } else if opcode == 0xF3 {
            self.exec_disable_interrupts()
        } else if opcode == 0xF8 {
            self.exec_load_hl_sp_plus_signed()
        } else if opcode == 0xF9 {
            self.exec_load_sp_from_hl()
        } else if opcode == 0xFA {
            self.exec_load8(Out8::Reg(a), In8::Addr(AddrMode8::Direct))
        } else {
            self.exec_enable_interrupts()
        }
    }

    /// Opcodes C0 to FF, but for those that no instruction has.
    #[verifier::opaque]
    pub open spec fn execute_opcode_c0_ff(self, opcode: u8) -> MachineState {
        let y = (opcode / 8 % 8) as int;
        let z = opcode % 8;
        let holds = self.registers.condition(condition_code(y));
        if z == 6 {
            self.exec_alu(In8::Imm8, alu_op(y))
        } else if z == 7 {
            self.exec_push(self.registers.pc, (y * 8) as u16)
        } else if z == 0 && y < 4 {
            self.exec_ret_if(holds)
        } else if z == 2 && y < 4 {
            self.exec_jp_if(holds)
        } else if z == 4 {
            self.exec_call_if(holds)
        } else if z == 1 && y % 2 == 0 {
            self.exec_pop(r16_stack(y / 2))
        } else if z == 5 && y % 2 == 0 {
            self.exec_push(self.registers.stack_pair(r16_stack(y / 2)), self.registers.pc)
        } else {
            self.execute_single_opcode(opcode)
        }
    }

    /// One instruction, whose opcode has been read.
    #[verifier::opaque]
    pub open spec fn execute_opcode(self, opcode: u8) -> MachineState {
        if illegal_opcode(opcode) {
            self
        } else if opcode <= 0x3F {
            self.execute_opcode_00_3f(opcode)
        } else if opcode <= 0xBF {
            self.execute_opcode_40_bf(opcode)
        } else {
            self.execute_opcode_c0_ff(opcode)
        }
    }
}

impl GbMachine {
    pub fn decode_condition(bits: u8) -> (condition: Condition)
        ensures
            condition == condition_code(bits as int % 4),
    {
        match bits % 4 {
            0 => Condition::Nz,
            1 => Condition::Z,
            2 => Condition::Nc,
            _ => Condition::C,
        }
    }

    pub fn decode_stack_reg16(bits: u8) -> (reg: StackReg16)
        ensures
            reg == r16_stack(bits as int % 4),
    {
        match bits % 4 {
            0 => StackReg16::Bc,
            1 => StackReg16::De,
            2 => StackReg16::Hl,
            _ => StackReg16::Af,
        }
    }

    pub fn decode_reg16_pair(bits: u8) -> (reg: Reg16Pair)
        ensures
            reg == r16_pair(bits as int % 4),
    {
        match bits % 4 {
            0 => Reg16Pair::Bc,
            1 => Reg16Pair::De,
            2 => Reg16Pair::Hl,
            _ => Reg16Pair::Sp,
        }
    }

    pub fn decode_indirect(bits: u8) -> (mode: AddrMode8)
        ensures
            mode == r16_indirect(bits as int % 4),
    {
        match bits % 4 {
            0 => AddrMode8::Bc,
            1 => AddrMode8::De,
            2 => AddrMode8::Hli,
            _ => AddrMode8::Hld,
        }
    }

    pub fn decode_rst_vector(opcode: u8) -> (vector: u16)
        ensures
            vector == opcode / 8 % 8 * 8,
    {
        ((opcode / 8 % 8) * 8) as u16
    }

    pub fn decode_accumulator_op(bits: u8) -> (op: AccumulatorOp)
        ensures
            op == accumulator_op(bits as int),
    {
        match bits {
            0 => AccumulatorOp::Rlca,
            1 => AccumulatorOp::Rrca,
            2 => AccumulatorOp::Rla,
            3 => AccumulatorOp::Rra,
            4 => AccumulatorOp::Daa,
            5 => AccumulatorOp::Cpl,
            6 => AccumulatorOp::Scf,
            _ => AccumulatorOp::Ccf,
        }
    }

    pub fn decode_alu_op(bits: u8) -> (op: AluOp8)
        ensures
            op == alu_op(bits as int),
    {
        match bits {
            0 => AluOp8::Add,
            1 => AluOp8::Adc,
            2 => AluOp8::Sub,
            3 => AluOp8::Sbc,
            4 => AluOp8::And,
            5 => AluOp8::Xor,
            6 => AluOp8::Or,
            _ => AluOp8::Cp,
        }
    }

    fn decode_shift_op(bits: u8) -> (op: ShiftOp)
        ensures
            op == shift_op(bits as int),
    {
        match bits {
            0 => ShiftOp::Rlc,
            1 => ShiftOp::Rrc,
            2 => ShiftOp::Rl,
            3 => ShiftOp::Rr,
            4 => ShiftOp::Sla,
            5 => ShiftOp::Sra,
            6 => ShiftOp::Swap,
            _ => ShiftOp::Srl,
        }
    }

    pub fn decode_r8_in(index: u8) -> (operand: In8)
        ensures
            operand == r8_in(index as int),
    {
        match index {
            0 => In8::Reg(Reg8Id::B),
            1 => In8::Reg(Reg8Id::C),
            2 => In8::Reg(Reg8Id::D),
            3 => In8::Reg(Reg8Id::E),
            4 => In8::Reg(Reg8Id::H),
            5 => In8::Reg(Reg8Id::L),
            6 => In8::Addr(AddrMode8::Hl),
            _ => In8::Reg(Reg8Id::A),
        }
    }

    pub fn decode_r8_out(index: u8) -> (operand: Out8)
        ensures
            operand == r8_out(index as int),
    {
        match index {
            0 => Out8::Reg(Reg8Id::B),
            1 => Out8::Reg(Reg8Id::C),
            2 => Out8::Reg(Reg8Id::D),
            3 => Out8::Reg(Reg8Id::E),
            4 => Out8::Reg(Reg8Id::H),
            5 => Out8::Reg(Reg8Id::L),
            6 => Out8::Addr(AddrMode8::Hl),
            _ => Out8::Reg(Reg8Id::A),
        }
    }

    fn exec_load8(&mut self, dst: Out8, src: In8)
        requires
            old(self)@.ready(24),
            in_cycles(src) + out_cycles(dst) <= 12,
        ensures
            final(self)@ == old(self)@.exec_load8(dst, src),
            final(self)@.ran(old(self)@, 16),
    {
        proof {
            reveal(MachineState::exec_load8);
        }
        let value: u8 = self.read_in8(src);
        self.write_out8(dst, value);
        self.prefetch_next_cycle();
    }

    /// Reads an operand that the result will be written to.
    fn read_out8(&mut self, operand: Out8) -> (value: u8)
        requires
            old(self)@.ready(out_cycles(operand)),
        ensures
            value == old(self)@.read_in8(in_of(operand)),
            final(self)@ == old(self)@.after_read_in8(in_of(operand)),
            final(self)@.ran(old(self)@, out_cycles(operand)),
    {
        match operand {
            Out8::Reg(reg) => self.read_in8(In8::Reg(reg)),
            Out8::Addr(mode) => self.read_in8(In8::Addr(mode)),
        }
    }

    fn exec_inc8(&mut self, operand: Out8)
        requires
            old(self)@.ready(24),
            out_cycles(operand) <= 4,
        ensures
            final(self)@ == old(self)@.exec_inc8(in_of(operand), operand),
            final(self)@.ran(old(self)@, 12),
    {
        proof {
            reveal(MachineState::exec_inc8);
        }
        let value: u8 = self.read_out8(operand);
        let result: u8 = self.registers.inc8(value);
        self.write_out8(operand, result);
        self.prefetch_next_cycle();
    }

    fn exec_dec8(&mut self, operand: Out8)
        requires
            old(self)@.ready(24),
            out_cycles(operand) <= 4,
        ensures
            final(self)@ == old(self)@.exec_dec8(in_of(operand), operand),
            final(self)@.ran(old(self)@, 12),
    {
        proof {
            reveal(MachineState::exec_dec8);
        }
        let value: u8 = self.read_out8(operand);
        let result: u8 = self.registers.dec8(value);
        self.write_out8(operand, result);
        self.prefetch_next_cycle();
    }

    fn exec_decoded_alu(&mut self, src: In8, op: AluOp8)
        requires
            old(self)@.ready(24),
            in_cycles(src) <= 4,
        ensures
            final(self)@ == old(self)@.exec_alu(src, op),
            final(self)@.ran(old(self)@, 8),
    {
        proof {
            reveal(MachineState::exec_alu);
        }
        let value: u8 = self.read_in8(src);
        proof {
            law_alu_keeps_flags_clean(self.registers, op, AccumulatorOp::Daa, ShiftOp::Rl, value, 0, 0);
        }
        self.registers.apply_alu(op, value);
        self.prefetch_next_cycle();
    }

    fn exec_accumulator_op(&mut self, op: AccumulatorOp)
        requires
            old(self)@.ready(24),
        ensures
            final(self)@ == old(self)@.exec_accumulator_op(op),
            final(self)@.ran(old(self)@, 4),
    {
        proof {
            reveal(MachineState::exec_accumulator_op);
            law_alu_keeps_flags_clean(self.registers, AluOp8::Add, op, ShiftOp::Rl, 0, 0, 0);
        }
        self.registers.apply_accumulator_op(op);
        self.prefetch_next_cycle();
    }

    fn exec_load16_immediate(&mut self, reg: Reg16Pair)
        requires
            old(self)@.ready(24),
        ensures
            final(self)@ == old(self)@.exec_load16_immediate(reg),
            final(self)@.ran(old(self)@, 12),
    {
        proof {
            reveal(MachineState::exec_load16_immediate);
        }
        let value: u16 = self.fetch16_timed_late();
        self.registers.write_reg16_pair(reg, value);
        self.prefetch_next_cycle();
    }

    fn exec_inc16(&mut self, reg: Reg16Pair)
        requires
            old(self)@.ready(24),
        ensures
            final(self)@ == old(self)@.exec_step16(reg, 1),
            final(self)@.ran(old(self)@, 8),
    {
        proof {
            reveal(MachineState::exec_step16);
        }
        let value: u16 = self.registers.read_reg16_pair(reg);
        self.maybe_trigger_oam_bug(value, OamCorruptionKind::Write);
        self.tick_mcycle();
        self.registers.write_reg16_pair(reg, value.wrapping_add(1));
        self.prefetch_next_cycle();
    }

    fn exec_dec16(&mut self, reg: Reg16Pair)
        requires
            old(self)@.ready(24),
        ensures
            final(self)@ == old(self)@.exec_step16(reg, -1),
            final(self)@.ran(old(self)@, 8),
    {
        proof {
            reveal(MachineState::exec_step16);
        }
        let value: u16 = self.registers.read_reg16_pair(reg);
        self.maybe_trigger_oam_bug(value, OamCorruptionKind::Write);
        self.tick_mcycle();
        self.registers.write_reg16_pair(reg, value.wrapping_sub(1));
        self.prefetch_next_cycle();
    }

    fn exec_add_hl_reg16(&mut self, reg: Reg16Pair)
        requires
            old(self)@.ready(24),
        ensures
            final(self)@ == old(self)@.exec_add_hl(reg),
            final(self)@.ran(old(self)@, 8),
    {
        proof {
            reveal(MachineState::exec_add_hl);
        }
        let value: u16 = self.registers.read_reg16_pair(reg);
        self.registers.add16_hl(value);
        self.tick_mcycle();
        self.prefetch_next_cycle();
    }

    fn exec_store_sp(&mut self)
        requires
            old(self)@.ready(24),
        ensures
            final(self)@ == old(self)@.exec_store_sp(),
            final(self)@.ran(old(self)@, 20),
    {
        proof {
            reveal(MachineState::exec_store_sp);
        }
        let sp: u16 = self.registers.sp;
        let address: u16 = self.fetch16_timed_late();
        self.write_cycle(address, low_byte(sp));
        self.write_cycle(address.wrapping_add(1), high_byte(sp));
        self.prefetch_next_cycle();
    }

    fn exec_stop(&mut self)
        requires
            old(self)@.ready(24),
        ensures
            final(self)@ == old(self)@.exec_stop(),
            final(self)@.ran(old(self)@, 4),
    {
        proof {
            reveal(MachineState::exec_stop);
        }
        let _: u8 = self.fetch8_cycle();
        self.set_exec_state(ExecState::Stop);
    }

    fn exec_halt(&mut self)
        requires
            old(self)@.ready(24),
        ensures
            final(self)@ == old(self)@.exec_halt(),
            final(self)@.ran(old(self)@, 4),
    {
        proof {
            reveal(MachineState::exec_halt);
        }
        if self.pending_interrupts() != 0 {
            if self.ime {
                self.prefetch_next_cycle();
            } else {
                self.prefetch_opcode_cycle(self.registers.pc, false, false);
            }
        } else {
            self.set_exec_state(ExecState::Halt);
            self.tick_mcycle();
        }
    }

    fn exec_jr_if(&mut self, taken: bool)
        requires
            old(self)@.ready(24),
        ensures
            final(self)@ == old(self)@.exec_jr_if(taken),
            final(self)@.ran(old(self)@, 12),
    {
        proof {
            reveal(MachineState::exec_jr_if);
        }
        let offset: i8 = signed_byte(self.fetch8_cycle());
        if taken {
            self.registers.pc = self.registers.pc.wrapping_add_signed(offset as i16);
            self.tick_mcycle();
        }
        self.prefetch_next_cycle();
    }

    fn exec_jr(&mut self)
        requires
            old(self)@.ready(24),
        ensures
            final(self)@ == old(self)@.exec_jr_if(true),
            final(self)@.ran(old(self)@, 12),
    {
        self.exec_jr_if(true);
    }

    fn exec_jr_condition(&mut self, condition: Condition)
        requires
            old(self)@.ready(24),
        ensures
            final(self)@ == old(self)@.exec_jr_if(old(self)@.registers.condition(condition)),
            final(self)@.ran(old(self)@, 12),
    {
        self.exec_jr_if(self.registers.condition_true(condition));
    }

    fn exec_jp_if(&mut self, taken: bool)
        requires
            old(self)@.ready(24),
        ensures
            final(self)@ == old(self)@.exec_jp_if(taken),
            final(self)@.ran(old(self)@, 16),
    {
        proof {
            reveal(MachineState::exec_jp_if);
        }
        let address: u16 = self.fetch16_timed_late();
        if taken {
            self.registers.pc = address;
            self.tick_mcycle();
        }
        self.prefetch_next_cycle();
    }

    fn exec_jp_immediate(&mut self)
        requires
            old(self)@.ready(24),
        ensures
            final(self)@ == old(self)@.exec_jp_if(true),
            final(self)@.ran(old(self)@, 16),
    {
        self.exec_jp_if(true);
    }

    fn exec_jp_condition_immediate(&mut self, condition: Condition)
        requires
            old(self)@.ready(24),
        ensures
            final(self)@ == old(self)@.exec_jp_if(old(self)@.registers.condition(condition)),
            final(self)@.ran(old(self)@, 16),
    {
        self.exec_jp_if(self.registers.condition_true(condition));
    }

    fn exec_call_if(&mut self, taken: bool)
        requires
            old(self)@.ready(24),
        ensures
            final(self)@ == old(self)@.exec_call_if(taken),
            final(self)@.ran(old(self)@, 24),
    {
        proof {
            reveal(MachineState::exec_call_if);
        }
        let address: u16 = self.fetch16_timed_late();
        if taken {
            let return_address: u16 = self.registers.pc;
            self.tick_mcycle();
            self.push16(return_address);
            self.registers.pc = address;
        }
        self.prefetch_next_cycle();
    }

    fn exec_call_immediate(&mut self)
        requires
            old(self)@.ready(24),
        ensures
            final(self)@ == old(self)@.exec_call_if(true),
            final(self)@.ran(old(self)@, 24),
    {
        self.exec_call_if(true);
    }

    fn exec_call_condition_immediate(&mut self, condition: Condition)
        requires
            old(self)@.ready(24),
        ensures
            final(self)@ == old(self)@.exec_call_if(old(self)@.registers.condition(condition)),
            final(self)@.ran(old(self)@, 24),
    {
        self.exec_call_if(self.registers.condition_true(condition));
    }

    fn ctrl_ret(&mut self)
        requires
            old(self)@.ready(12),
        ensures
            final(self)@ == old(self)@.ctrl_ret(),
            final(self)@.ran(old(self)@, 12),
    {
        proof {
            reveal(MachineState::ctrl_ret);
        }
        let address: u16 = self.pop16();
        self.registers.pc = address;
        self.tick_mcycle();
    }

    fn exec_ret(&mut self)
        requires
            old(self)@.ready(24),
        ensures
            final(self)@ == old(self)@.exec_ret(),
            final(self)@.ran(old(self)@, 16),
    {
        proof {
            reveal(MachineState::exec_ret);
        }
        self.ctrl_ret();
        self.prefetch_next_cycle();
    }

    fn exec_reti(&mut self)
        requires
            old(self)@.ready(24),
        ensures
            final(self)@ == old(self)@.exec_reti(),
            final(self)@.ran(old(self)@, 16),
    {
        proof {
            reveal(MachineState::exec_reti);
        }
        self.ctrl_ret();
        self.ime = true;
        self.prefetch_next_cycle();
    }

    fn exec_ret_condition(&mut self, condition: Condition)
        requires
            old(self)@.ready(24),
        ensures
            final(self)@ == old(self)@.exec_ret_if(old(self)@.registers.condition(condition)),
            final(self)@.ran(old(self)@, 20),
    {
        proof {
            reveal(MachineState::exec_ret_if);
        }
        self.tick_mcycle();
        if self.registers.condition_true(condition) {
            self.ctrl_ret();
        }
        self.prefetch_next_cycle();
    }

    fn push_reg16_prefetch(&mut self, value: u16, address: u16)
        requires
            old(self)@.ready(24),
        ensures
            final(self)@ == old(self)@.exec_push(value, address),
            final(self)@.ran(old(self)@, 16),
    {
        proof {
            reveal(MachineState::exec_push);
        }
        self.tick_mcycle();
        self.push16(value);
        self.prefetch_opcode_cycle(address, true, true);
    }

    fn exec_push(&mut self, reg: StackReg16)
        requires
            old(self)@.ready(24),
        ensures
            final(self)@ == old(self)@.exec_push(
                old(self)@.registers.stack_pair(reg),
                old(self)@.registers.pc,
            ),
            final(self)@.ran(old(self)@, 16),
    {
        self.push_reg16_prefetch(self.registers.read_stack_reg16(reg), self.registers.pc);
    }

    fn exec_rst(&mut self, vector: u16)
        requires
            old(self)@.ready(24),
        ensures
            final(self)@ == old(self)@.exec_push(old(self)@.registers.pc, vector),
            final(self)@.ran(old(self)@, 16),
    {
        self.push_reg16_prefetch(self.registers.pc, vector);
    }

    fn exec_pop(&mut self, reg: StackReg16)
        requires
            old(self)@.ready(24),
        ensures
            final(self)@ == old(self)@.exec_pop(reg),
            final(self)@.ran(old(self)@, 12),
    {
        proof {
            reveal(MachineState::exec_pop);
        }
        let value: u16 = self.pop16();
        self.prefetch_next_cycle();
        self.registers.write_stack_reg16(reg, value);
    }

    fn exec_add_sp_signed(&mut self)
        requires
            old(self)@.ready(24),
        ensures
            final(self)@ == old(self)@.exec_add_sp_signed(),
            final(self)@.ran(old(self)@, 16),
    {
        proof {
            reveal(MachineState::exec_add_sp_signed);
        }
        let offset: u8 = self.fetch8_cycle();
        let sp: u16 = self.registers.add_sp_signed(offset);
        self.registers.sp = sp;
        self.tick_mcycle();
        self.tick_mcycle();
        self.prefetch_next_cycle();
    }

    fn exec_load_hl_sp_plus_signed(&mut self)
        requires
            old(self)@.ready(24),
        ensures
            final(self)@ == old(self)@.exec_load_hl_sp_plus_signed(),
            final(self)@.ran(old(self)@, 12),
    {
        proof {
            reveal(MachineState::exec_load_hl_sp_plus_signed);
        }
        let offset: u8 = self.fetch8_cycle();
        let value: u16 = self.registers.add_sp_signed(offset);
        self.registers.set_hl(value);
        self.tick_mcycle();
        self.prefetch_next_cycle();
    }

    fn exec_load_sp_from_hl(&mut self)
        requires
            old(self)@.ready(24),
        ensures
            final(self)@ == old(self)@.exec_load_sp_from_hl(),
            final(self)@.ran(old(self)@, 8),
    {
        proof {
            reveal(MachineState::exec_load_sp_from_hl);
        }
        self.registers.sp = self.registers.hl();
        self.tick_mcycle();
        self.prefetch_next_cycle();
    }

    fn exec_disable_interrupts(&mut self)
        requires
            old(self)@.ready(24),
        ensures
            final(self)@ == old(self)@.exec_disable_interrupts(),
            final(self)@.ran(old(self)@, 4),
    {
        proof {
            reveal(MachineState::exec_disable_interrupts);
        }
        self.ime = false;
        self.prefetch_opcode_cycle(self.registers.pc, true, false);
    }

    fn exec_enable_interrupts(&mut self)
        requires
            old(self)@.ready(24),
        ensures
            final(self)@ == old(self)@.exec_enable_interrupts(),
            final(self)@.ran(old(self)@, 4),
    {
        proof {
            reveal(MachineState::exec_enable_interrupts);
        }
        self.prefetch_next_cycle();
        self.ime = true;
    }

    fn exec_cb_shift(&mut self, target: u8, op: ShiftOp)
        requires
            old(self)@.ready(12),
        ensures
            final(self)@ == old(self)@.exec_cb_shift(target as int, op),
            final(self)@.ran(old(self)@, 12),
    {
        proof {
            reveal(MachineState::exec_cb_shift);
        }
        let value: u8 = self.read_in8(Self::decode_r8_in(target));
        let result: u8 = self.registers.shift8(op, value);
        self.write_out8(Self::decode_r8_out(target), result);
        self.prefetch_next_cycle();
    }

    fn exec_cb_bit(&mut self, target: u8, bit: u8)
        requires
            old(self)@.ready(12),
            bit < 8,
        ensures
            final(self)@ == old(self)@.exec_cb_bit(target as int, bit),
            final(self)@.ran(old(self)@, 8),
    {
        proof {
            reveal(MachineState::exec_cb_bit);
        }
        let value: u8 = self.read_in8(Self::decode_r8_in(target));
        self.registers.test_bit(value, bit);
        self.prefetch_next_cycle();
    }

    fn exec_cb_res(&mut self, target: u8, bit: u8)
        requires
            old(self)@.ready(12),
            bit < 8,
        ensures
            final(self)@ == old(self)@.exec_cb_res(target as int, bit),
            final(self)@.ran(old(self)@, 12),
    {
        proof {
            reveal(MachineState::exec_cb_res);
        }
        let value: u8 = self.read_in8(Self::decode_r8_in(target));
        self.write_out8(Self::decode_r8_out(target), value & !(1u8 << bit));
        self.prefetch_next_cycle();
    }

    fn exec_cb_set(&mut self, target: u8, bit: u8)
        requires
            old(self)@.ready(12),
            bit < 8,
        ensures
            final(self)@ == old(self)@.exec_cb_set(target as int, bit),
            final(self)@.ran(old(self)@, 12),
    {
        proof {
            reveal(MachineState::exec_cb_set);
        }
        let value: u8 = self.read_in8(Self::decode_r8_in(target));
        self.write_out8(Self::decode_r8_out(target), value | (1u8 << bit));
        self.prefetch_next_cycle();
    }

    fn execute_cb_prefixed(&mut self)
        requires
            old(self)@.ready(16),
        ensures
            final(self)@ == old(self)@.execute_cb_prefixed(),
            final(self)@.ran(old(self)@, 16),
    {
        proof {
            reveal(MachineState::execute_cb_prefixed);
        }
        let opcode: u8 = self.fetch8_cycle();
        let target: u8 = opcode % 8;
        let y: u8 = opcode / 8 % 8;
        match opcode {
            0x00..=0x3F => self.exec_cb_shift(target, Self::decode_shift_op(y)),
            0x40..=0x7F => self.exec_cb_bit(target, y),
            0x80..=0xBF => self.exec_cb_res(target, y),
            0xC0..=0xFF => self.exec_cb_set(target, y),
        }
    }

    fn execute_opcode_00_3f(&mut self, opcode: u8)
        requires
            old(self)@.ready(24),
            opcode <= 0x3F,
        ensures
            final(self)@ == old(self)@.execute_opcode_00_3f(opcode),
            final(self)@.ran(old(self)@, 24),
    {
        proof {
            reveal(MachineState::execute_opcode_00_3f);
        }
        let y: u8 = opcode / 8;
        let reg16: Reg16Pair = Self::decode_reg16_pair(y / 2);
        match opcode % 8 {
            0 => match y {
                0 => self.prefetch_next_cycle(),
                1 => self.exec_store_sp(),
                2 => self.exec_stop(),
                3 => self.exec_jr(),
                _ => self.exec_jr_condition(Self::decode_condition(y)),
            },
            1 if y % 2 == 0 => self.exec_load16_immediate(reg16),
            1 => self.exec_add_hl_reg16(reg16),
            2 if y % 2 == 0 => self.exec_load8(
                Out8::Addr(Self::decode_indirect(y / 2)),
                In8::Reg(Reg8Id::A),
            ),
            2 => self.exec_load8(
                Out8::Reg(Reg8Id::A),
                In8::Addr(Self::decode_indirect(y / 2)),
            ),
            3 if y % 2 == 0 => self.exec_inc16(reg16),
            3 => self.exec_dec16(reg16),
            4 => self.exec_inc8(Self::decode_r8_out(y)),
            5 => self.exec_dec8(Self::decode_r8_out(y)),
            6 => self.exec_load8(Self::decode_r8_out(y), In8::Imm8),
            _ => self.exec_accumulator_op(Self::decode_accumulator_op(y)),
        }
    }

    fn execute_opcode_40_bf(&mut self, opcode: u8)
        requires
            old(self)@.ready(24),
            0x40 <= opcode <= 0xBF,
        ensures
            final(self)@ == old(self)@.execute_opcode_40_bf(opcode),
            final(self)@.ran(old(self)@, 24),
    {
        proof {
            reveal(MachineState::execute_opcode_40_bf);
        }
        let y: u8 = opcode / 8 % 8;
        let z: u8 = opcode % 8;
        match opcode {
            0x76 => self.exec_halt(),
            0x40..=0x7F => {
                let dst: Out8 = Self::decode_r8_out(y);
                let src: In8 = Self::decode_r8_in(z);
                self.exec_load8(dst, src);
            },
            _ => self.exec_decoded_alu(Self::decode_r8_in(z), Self::decode_alu_op(y)),
        }
    }

    fn execute_opcode_c0_ff(&mut self, opcode: u8)
        requires
            old(self)@.ready(24),
            0xC0 <= opcode,
            !illegal_opcode(opcode),
        ensures
            final(self)@ == old(self)@.execute_opcode_c0_ff(opcode),
            final(self)@.ran(old(self)@, 24),
    {
        proof {
            reveal(MachineState::execute_opcode_c0_ff);
        }
        let y: u8 = opcode / 8 % 8;
        let condition: Condition = Self::decode_condition(y);
        let stack_reg: StackReg16 = Self::decode_stack_reg16(y / 2);
        match opcode % 8 {
            6 => self.exec_decoded_alu(In8::Imm8, Self::decode_alu_op(y)),
            7 => self.exec_rst(Self::decode_rst_vector(opcode)),
            0 if y < 4 => self.exec_ret_condition(condition),
            2 if y < 4 => self.exec_jp_condition_immediate(condition),
            4 => self.exec_call_condition_immediate(condition),
            1 if y % 2 == 0 => self.exec_pop(stack_reg),
            5 if y % 2 == 0 => self.exec_push(stack_reg),
            _ => self.execute_single_opcode(opcode),
        }
    }

    fn execute_single_opcode(&mut self, opcode: u8)
        requires
            old(self)@.ready(24),
            single_opcode(opcode),
        ensures
            final(self)@ == old(self)@.execute_single_opcode(opcode),
            final(self)@.ran(old(self)@, 24),
    {
        proof {
            reveal(MachineState::execute_single_opcode);
        }
        match opcode {
            0xC3 => self.exec_jp_immediate(),
            0xC9 => self.exec_ret(),
            0xCB => self.execute_cb_prefixed(),
            0xCD => self.exec_call_immediate(),
            0xD9 => self.exec_reti(),
            0xE0 => self.exec_load8(Out8::Addr(AddrMode8::ZeroPageImm), In8::Reg(Reg8Id::A)),
            0xE2 => self.exec_load8(Out8::Addr(AddrMode8::ZeroPageC), In8::Reg(Reg8Id::A)),
            0xE8 => self.exec_add_sp_signed(),
            0xE9 => self.prefetch_opcode_cycle(self.registers.hl(), true, true),
            0xEA => self.exec_load8(Out8::Addr(AddrMode8::Direct), In8::Reg(Reg8Id::A)),
            0xF0 => self.exec_load8(Out8::Reg(Reg8Id::A), In8::Addr(AddrMode8::ZeroPageImm)),
            0xF2 => self.exec_load8(Out8::Reg(Reg8Id::A), In8::Addr(AddrMode8::ZeroPageC)),
            0xF3 => self.exec_disable_interrupts(),
            0xF8 => self.exec_load_hl_sp_plus_signed(),
            0xF9 => self.exec_load_sp_from_hl(),
            0xFA => self.exec_load8(Out8::Reg(Reg8Id::A), In8::Addr(AddrMode8::Direct)),
            _ => self.exec_enable_interrupts(),
        }
    }

    pub fn is_illegal_opcode(opcode: u8) -> (illegal: bool)
        ensures
            illegal == illegal_opcode(opcode),
    {
        match opcode {
            0xD3 | 0xDB | 0xDD | 0xE3 | 0xE4 | 0xEB | 0xEC | 0xED | 0xF4 | 0xFC | 0xFD => true,
            _ => false,
        }
    }

    /// Executes one instruction whose opcode has been read at `opcode_pc`.
    pub fn execute_opcode(&mut self, opcode: u8, opcode_pc: u16) -> (result: Result<(), GbError>)
        requires
            old(self)@.ready(24),
        ensures
            final(self)@ == old(self)@.execute_opcode(opcode),
            final(self)@.ran(
                old(self)@,
                if illegal_opcode(opcode) {
                    0
                } else {
                    24
                },
            ),
            illegal_opcode(opcode) ==> result == Err::<(), GbError>(
                GbError::IllegalOpcode { opcode, pc: opcode_pc },
            ),
            !illegal_opcode(opcode) ==> result is Ok,
    {
        proof {
            reveal(MachineState::execute_opcode);
        }
        if Self::is_illegal_opcode(opcode) {
            return Err(GbError::IllegalOpcode { opcode, pc: opcode_pc });
        }
        match opcode {
            0x00..=0x3F => self.execute_opcode_00_3f(opcode),
            0x40..=0xBF => self.execute_opcode_40_bf(opcode),
            0xC0..=0xFF => self.execute_opcode_c0_ff(opcode),
        }
        Ok(())
    }
}

/// The place of a result, as an operand.
pub open spec fn in_of(operand: Out8) -> In8 {
    match operand {
        Out8::Reg(reg) => In8::Reg(reg),
        Out8::Addr(mode) => In8::Addr(mode),
    }
}

} // verus!
