//! The processor's machine cycles, its operands, and its stack.

use vstd::prelude::*;

use crate::interface::CpuRegisters;
use crate::machine::{ExecState, GbMachine, MachineState, OamCorruptionKind};
use crate::registers::{high, high_byte, join_bytes, low, low_byte, word, Registers};

verus! {

#[derive(Debug, Clone, Copy, PartialEq, Eq, Structural)]
pub enum Reg8Id {
    A,
    B,
    C,
    D,
    E,
    H,
    L,
}

/// The ways an instruction finds the address of a byte.
#[derive(Debug, Clone, Copy, PartialEq, Eq, Structural)]
pub enum AddrMode8 {
    Bc,
    De,
    Hl,
    Hli,
    Hld,
    Direct,
    ZeroPageImm,
    ZeroPageC,
}

#[derive(Debug, Clone, Copy, PartialEq, Eq, Structural)]
pub enum Condition {
    Nz,
    Z,
    Nc,
    C,
}

#[derive(Debug, Clone, Copy, PartialEq, Eq, Structural)]
pub enum StackReg16 {
    Bc,
    De,
    Hl,
    Af,
}

#[derive(Debug, Clone, Copy, PartialEq, Eq, Structural)]
pub enum Reg16Pair {
    Bc,
    De,
    Hl,
    Sp,
}

/// Where a byte operand is read.
#[derive(Debug, Clone, Copy, PartialEq, Eq, Structural)]
pub enum In8 {
    Reg(Reg8Id),
    Addr(AddrMode8),
    Imm8,
}

/// Where a byte result is written.
#[derive(Debug, Clone, Copy, PartialEq, Eq, Structural)]
pub enum Out8 {
    Reg(Reg8Id),
    Addr(AddrMode8),
}

/// A 16-bit value plus a signed number, wrapped.
pub open spec fn wrapped16(value: int) -> u16 {
    (value % 0x10000) as u16
}

/// The clock cycles of an access.
pub open spec fn access_cycles(mode: AddrMode8) -> int {
    match mode {
        AddrMode8::Direct => 12,
        AddrMode8::ZeroPageImm => 8,
        _ => 4,
    }
}

pub open spec fn in_cycles(operand: In8) -> int {
    match operand {
        In8::Reg(_) => 0,
        In8::Addr(mode) => access_cycles(mode),
        In8::Imm8 => 4,
    }
}

pub open spec fn out_cycles(operand: Out8) -> int {
    match operand {
        Out8::Reg(_) => 0,
        Out8::Addr(mode) => access_cycles(mode),
    }
}

impl Registers {
    pub open spec fn reg8(self, reg: Reg8Id) -> u8 {
        match reg {
            Reg8Id::A => self.a,
            Reg8Id::B => self.b,
            Reg8Id::C => self.c,
            Reg8Id::D => self.d,
            Reg8Id::E => self.e,
            Reg8Id::H => self.h,
            Reg8Id::L => self.l,
        }
    }

    pub open spec fn with_reg8(self, reg: Reg8Id, value: u8) -> Registers {
        match reg {
            Reg8Id::A => Registers { a: value, ..self },
            Reg8Id::B => Registers { b: value, ..self },
            Reg8Id::C => Registers { c: value, ..self },
            Reg8Id::D => Registers { d: value, ..self },
            Reg8Id::E => Registers { e: value, ..self },
            Reg8Id::H => Registers { h: value, ..self },
            Reg8Id::L => Registers { l: value, ..self },
        }
    }

    pub open spec fn pair(self, reg: Reg16Pair) -> u16 {
        match reg {
            Reg16Pair::Bc => self.bc(),
            Reg16Pair::De => self.de(),
            Reg16Pair::Hl => self.hl(),
            Reg16Pair::Sp => self.sp,
        }
    }

    pub open spec fn with_pair(self, reg: Reg16Pair, value: u16) -> Registers {
        match reg {
            Reg16Pair::Bc => self.with_bc(value),
            Reg16Pair::De => self.with_de(value),
            Reg16Pair::Hl => self.with_hl(value),
            Reg16Pair::Sp => Registers { sp: value, ..self },
        }
    }

    pub open spec fn stack_pair(self, reg: StackReg16) -> u16 {
        match reg {
            StackReg16::Bc => self.bc(),
            StackReg16::De => self.de(),
            StackReg16::Hl => self.hl(),
            StackReg16::Af => self.af(),
        }
    }

    pub open spec fn with_stack_pair(self, reg: StackReg16, value: u16) -> Registers {
        match reg {
            StackReg16::Bc => self.with_bc(value),
            StackReg16::De => self.with_de(value),
            StackReg16::Hl => self.with_hl(value),
            StackReg16::Af => self.with_af(value),
        }
    }

    pub open spec fn condition(self, condition: Condition) -> bool {
        match condition {
            Condition::Nz => !self.flag_z(),
            Condition::Z => self.flag_z(),
            Condition::Nc => !self.flag_c(),
            Condition::C => self.flag_c(),
        }
    }

    pub fn read_reg8(&self, reg: Reg8Id) -> (value: u8)
        ensures
            value == self.reg8(reg),
    {
        match reg {
            Reg8Id::A => self.a,
            Reg8Id::B => self.b,
            Reg8Id::C => self.c,
            Reg8Id::D => self.d,
            Reg8Id::E => self.e,
            Reg8Id::H => self.h,
            Reg8Id::L => self.l,
        }
    }

    pub fn write_reg8(&mut self, reg: Reg8Id, value: u8)
        ensures
            *final(self) == old(self).with_reg8(reg, value),
    {
        match reg {
            Reg8Id::A => self.a = value,
            Reg8Id::B => self.b = value,
            Reg8Id::C => self.c = value,
            Reg8Id::D => self.d = value,
            Reg8Id::E => self.e = value,
            Reg8Id::H => self.h = value,
            Reg8Id::L => self.l = value,
        }
    }

    pub fn read_reg16_pair(&self, reg: Reg16Pair) -> (value: u16)
        ensures
            value == self.pair(reg),
    {
        match reg {
            Reg16Pair::Bc => self.bc(),
            Reg16Pair::De => self.de(),
            Reg16Pair::Hl => self.hl(),
            Reg16Pair::Sp => self.sp,
        }
    }

    pub fn write_reg16_pair(&mut self, reg: Reg16Pair, value: u16)
        ensures
            *final(self) == old(self).with_pair(reg, value),
    {
        match reg {
            Reg16Pair::Bc => self.set_bc(value),
            Reg16Pair::De => self.set_de(value),
            Reg16Pair::Hl => self.set_hl(value),
            Reg16Pair::Sp => self.sp = value,
        }
    }

    pub fn read_stack_reg16(&self, reg: StackReg16) -> (value: u16)
        ensures
            value == self.stack_pair(reg),
    {
        match reg {
            StackReg16::Bc => self.bc(),
            StackReg16::De => self.de(),
            StackReg16::Hl => self.hl(),
            StackReg16::Af => self.af(),
        }
    }

    pub fn write_stack_reg16(&mut self, reg: StackReg16, value: u16)
        ensures
            *final(self) == old(self).with_stack_pair(reg, value),
    {
        match reg {
            StackReg16::Bc => self.set_bc(value),
            StackReg16::De => self.set_de(value),
            StackReg16::Hl => self.set_hl(value),
            StackReg16::Af => self.set_af(value),
        }
    }

    pub fn condition_true(&self, condition: Condition) -> (holds: bool)
        ensures
            holds == self.condition(condition),
    {
        match condition {
            Condition::Nz => !self.flag_z(),
            Condition::Z => self.flag_z(),
            Condition::Nc => !self.flag_c(),
            Condition::C => self.flag_c(),
        }
    }
}

impl MachineState {
    /// No more bytes were sent than machine cycles passed.
    pub open spec fn sends_in_time(self, before: MachineState) -> bool {
        4 * (self.serial_output.len() - before.serial_output.len()) <= self.cycle_counter
            - before.cycle_counter
    }

    /// What work of the processor keeps, and that it took whole machine cycles, with one byte sent
    /// in each at most.
    pub open spec fn worked(self, before: MachineState) -> bool {
        &&& self.keeps(before)
        &&& self.sends_in_time(before)
        &&& self.same_log(before)
        &&& before.registers.flags_clean() ==> self.registers.flags_clean()
        &&& (self.cycle_counter - before.cycle_counter) % 4 == 0
    }

    /// Work of at least one machine cycle, if of any, and of no more clock cycles than given.
    pub open spec fn ran(self, before: MachineState, cycles: int) -> bool {
        &&& self.worked(before)
        &&& self.cycle_counter <= before.cycle_counter + cycles
        &&& cycles > 0 ==> self.cycle_counter >= before.cycle_counter + 4
    }

    pub open spec fn with_registers(self, registers: Registers) -> MachineState {
        MachineState { registers, ..self }
    }

    pub open spec fn with_pc(self, pc: u16) -> MachineState {
        self.with_registers(Registers { pc, ..self.registers })
    }

    pub open spec fn with_sp(self, sp: u16) -> MachineState {
        self.with_registers(Registers { sp, ..self.registers })
    }

    pub open spec fn with_exec_state(self, exec_state: ExecState) -> MachineState {
        MachineState { exec_state, ..self }
    }

    /// The address of the next instruction.
    pub open spec fn logical_pc(self) -> u16 {
        match self.prefetched_pc {
            Some(pc) => pc,
            None => self.registers.pc,
        }
    }

    /// The opcode of the next instruction.
    pub open spec fn logical_opcode(self) -> u8 {
        match self.prefetched_opcode {
            Some(opcode) => opcode,
            None => self.peek8(self.registers.pc),
        }
    }

    pub open spec fn snapshot_registers(self) -> CpuRegisters {
        Registers { pc: self.logical_pc(), ..self.registers }.snapshot()
    }

    /// A machine cycle in which the processor does not use the bus.
    #[verifier::opaque]
    pub open spec fn tick_mcycle(self) -> MachineState {
        self.tick_timers(4).flush_pending_t34_interrupts()
    }

    /// The byte that a read gets at the end of its machine cycle.
    #[verifier::opaque]
    pub open spec fn read_cycle(self, address: u16) -> u8 {
        self.tick_timers(4).read8(address)
    }

    #[verifier::opaque]
    pub open spec fn after_read_cycle(self, address: u16) -> MachineState {
        self.tick_timers(4).after_read8(address).flush_pending_t34_interrupts()
    }

    #[verifier::opaque]
    pub open spec fn write_cycle(self, address: u16, value: u8) -> MachineState {
        self.tick_timers(4).write8(address, value).flush_pending_t34_interrupts()
    }

    /// The byte at the program counter.
    #[verifier::opaque]
    pub open spec fn fetch8(self) -> u8 {
        self.read_cycle(self.registers.pc)
    }

    #[verifier::opaque]
    pub open spec fn after_fetch8(self) -> MachineState {
        let read = self.after_read_cycle(self.registers.pc);
        read.with_pc(wrapped16(read.registers.pc + 1))
    }

    /// The two bytes at the program counter, low byte first.
    #[verifier::opaque]
    pub open spec fn fetch16(self) -> u16 {
        word(self.after_fetch8().fetch8(), self.fetch8())
    }

    #[verifier::opaque]
    pub open spec fn after_fetch16(self) -> MachineState {
        self.after_fetch8().after_fetch8()
    }

    /// The last cycle of an instruction reads the next opcode; where interrupts are seen there,
    /// the opcode is left for after the dispatch.
    #[verifier::opaque]
    pub open spec fn prefetch(
        self,
        address: u16,
        advance_pc: bool,
        allow_interrupt_dispatch: bool,
    ) -> MachineState {
        let ticked = self.tick_timers(4);
        let read = MachineState {
            prefetched_pc: Some(address),
            prefetched_opcode: Some(ticked.read8(address)),
            ..ticked.after_read8(address)
        };
        let flushed = read.flush_pending_t34_interrupts();
        if allow_interrupt_dispatch && flushed.ime && read.pending_interrupts() != 0 {
            flushed.with_pc(address).with_exec_state(ExecState::InterruptDispatch)
        } else {
            flushed.with_pc(
                if advance_pc {
                    wrapped16(address + 1)
                } else {
                    address
                },
            ).with_exec_state(ExecState::Running)
        }
    }

    /// The next instruction, which follows in memory.
    pub open spec fn prefetch_next(self) -> MachineState {
        self.prefetch(self.registers.pc, true, true)
    }

    /// The instruction that was prefetched, or else is fetched now.
    pub open spec fn next_opcode(self) -> (u16, u8) {
        match (self.prefetched_pc, self.prefetched_opcode) {
            (Some(pc), Some(opcode)) => (pc, opcode),
            _ => (
                self.registers.pc,
                MachineState { prefetched_pc: None, prefetched_opcode: None, ..self }.fetch8(),
            ),
        }
    }

    pub open spec fn after_next_opcode(self) -> MachineState {
        let taken = MachineState { prefetched_pc: None, prefetched_opcode: None, ..self };
        if self.prefetched_pc is Some && self.prefetched_opcode is Some {
            taken
        } else {
            taken.after_fetch8()
        }
    }

    pub open spec fn address_of(self, mode: AddrMode8) -> u16 {
        match mode {
            AddrMode8::Bc => self.registers.bc(),
            AddrMode8::De => self.registers.de(),
            AddrMode8::Hl | AddrMode8::Hli | AddrMode8::Hld => self.registers.hl(),
            AddrMode8::Direct => self.fetch16(),
            AddrMode8::ZeroPageImm => (0xFF00 + self.fetch8()) as u16,
            AddrMode8::ZeroPageC => (0xFF00 + self.registers.c) as u16,
        }
    }

    pub open spec fn after_address_of(self, mode: AddrMode8) -> MachineState {
        match mode {
            AddrMode8::Direct => self.after_fetch16(),
            AddrMode8::ZeroPageImm => self.after_fetch8(),
            _ => self,
        }
    }

    /// `HL` moves on after an access that counts it; the move can disturb object memory.
    pub open spec fn after_counting(self, mode: AddrMode8, address: u16) -> MachineState {
        let disturbed = self.maybe_trigger_oam_bug(address, OamCorruptionKind::Write);
        match mode {
            AddrMode8::Hli => disturbed.with_registers(
                disturbed.registers.with_hl(wrapped16(address + 1)),
            ),
            AddrMode8::Hld => disturbed.with_registers(
                disturbed.registers.with_hl(wrapped16(address - 1)),
            ),
            _ => self,
        }
    }

    #[verifier::opaque]
    pub open spec fn read_addr_mode8(self, mode: AddrMode8) -> u8 {
        self.after_address_of(mode).read_cycle(self.address_of(mode))
    }

    #[verifier::opaque]
    pub open spec fn after_read_addr_mode8(self, mode: AddrMode8) -> MachineState {
        let address = self.address_of(mode);
        self.after_address_of(mode).after_read_cycle(address).after_counting(mode, address)
    }

    #[verifier::opaque]
    pub open spec fn write_addr_mode8(self, mode: AddrMode8, value: u8) -> MachineState {
        let address = self.address_of(mode);
        self.after_address_of(mode).write_cycle(address, value).after_counting(mode, address)
    }

    #[verifier::opaque]
    pub open spec fn read_in8(self, operand: In8) -> u8 {
        match operand {
            In8::Reg(reg) => self.registers.reg8(reg),
            In8::Addr(mode) => self.read_addr_mode8(mode),
            In8::Imm8 => self.fetch8(),
        }
    }

    #[verifier::opaque]
    pub open spec fn after_read_in8(self, operand: In8) -> MachineState {
        match operand {
            In8::Reg(reg) => self,
            In8::Addr(mode) => self.after_read_addr_mode8(mode),
            In8::Imm8 => self.after_fetch8(),
        }
    }

    #[verifier::opaque]
    pub open spec fn write_out8(self, operand: Out8, value: u8) -> MachineState {
        match operand {
            Out8::Reg(reg) => self.with_registers(self.registers.with_reg8(reg, value)),
            Out8::Addr(mode) => self.write_addr_mode8(mode, value),
        }
    }

    /// The stack pointer moves down, which can disturb object memory, and a byte is written.
    #[verifier::opaque]
    pub open spec fn push8(self, value: u8) -> MachineState {
        let disturbed = self.maybe_trigger_oam_bug(self.registers.sp, OamCorruptionKind::Write);
        let sp = wrapped16(self.registers.sp - 1);
        disturbed.with_sp(sp).write_cycle(sp, value)
    }

    /// High byte first.
    #[verifier::opaque]
    pub open spec fn push16(self, value: u16) -> MachineState {
        self.push8(high(value)).push8(low(value))
    }

    /// The byte on top of the stack.
    #[verifier::opaque]
    pub open spec fn pop8(self) -> u8 {
        self.tick_timers(4).read8(self.registers.sp)
    }

    #[verifier::opaque]
    pub open spec fn after_pop8(self) -> MachineState {
        let read = self.tick_timers(4).after_read8(
            self.registers.sp,
        ).flush_pending_t34_interrupts();
        let disturbed = read.maybe_trigger_oam_bug(self.registers.sp, OamCorruptionKind::Write);
        disturbed.with_sp(wrapped16(self.registers.sp + 1))
    }

    #[verifier::opaque]
    pub open spec fn pop16(self) -> u16 {
        word(self.after_pop8().pop8(), self.pop8())
    }

    #[verifier::opaque]
    pub open spec fn after_pop16(self) -> MachineState {
        self.after_pop8().after_pop8()
    }
}

impl GbMachine {
    pub fn logical_pc(&self) -> (pc: u16)
        ensures
            pc == self@.logical_pc(),
    {
        match self.prefetched_pc {
            Some(pc) => pc,
            None => self.registers.pc,
        }
    }

    pub fn logical_opcode(&self) -> (opcode: u8)
        requires
            self@.wf(),
        ensures
            opcode == self@.logical_opcode(),
    {
        match self.prefetched_opcode {
            Some(opcode) => opcode,
            None => self.peek8(self.registers.pc),
        }
    }

    pub fn snapshot_registers(&self) -> (registers: CpuRegisters)
        ensures
            registers == self@.snapshot_registers(),
    {
        let mut registers: Registers = self.registers;
        registers.pc = self.logical_pc();
        registers.as_snapshot()
    }

    pub fn set_exec_state(&mut self, state: ExecState)
        ensures
            final(self)@ == old(self)@.with_exec_state(state),
    {
        self.exec_state = state;
    }

    pub(crate) fn tick_mcycle(&mut self)
        requires
            old(self)@.ready(4),
        ensures
            final(self)@ == old(self)@.tick_mcycle(),
            final(self)@.ran(old(self)@, 4),
            final(self)@.same_cpu(old(self)@),
    {
        proof {
            reveal(MachineState::tick_mcycle);
        }
        self.tick_timers(4);
        self.flush_pending_t34_interrupts();
    }

    pub(crate) fn read_cycle(&mut self, address: u16) -> (value: u8)
        requires
            old(self)@.ready(4),
        ensures
            value == old(self)@.read_cycle(address),
            final(self)@ == old(self)@.after_read_cycle(address),
            final(self)@.ran(old(self)@, 4),
            final(self)@.same_cpu(old(self)@),
    {
        proof {
            reveal(MachineState::read_cycle);
            reveal(MachineState::after_read_cycle);
        }
        self.tick_timers(4);
        let value: u8 = self.read8(address);
        self.flush_pending_t34_interrupts();
        value
    }

    pub(crate) fn write_cycle(&mut self, address: u16, value: u8)
        requires
            old(self)@.ready(4),
        ensures
            final(self)@ == old(self)@.write_cycle(address, value),
            final(self)@.ran(old(self)@, 4),
            final(self)@.same_cpu(old(self)@),
    {
        proof {
            reveal(MachineState::write_cycle);
        }
        self.tick_timers(4);
        self.write8(address, value);
        self.flush_pending_t34_interrupts();
    }

    pub(crate) fn fetch8_cycle(&mut self) -> (value: u8)
        requires
            old(self)@.ready(4),
        ensures
            value == old(self)@.fetch8(),
            final(self)@ == old(self)@.after_fetch8(),
            final(self)@.ran(old(self)@, 4),
            final(self)@.ime == old(self)@.ime,
    {
        proof {
            reveal(MachineState::fetch8);
            reveal(MachineState::after_fetch8);
        }
        let value: u8 = self.read_cycle(self.registers.pc);
        self.registers.pc = self.registers.pc.wrapping_add(1);
        value
    }

    pub(crate) fn fetch16_timed_late(&mut self) -> (value: u16)
        requires
            old(self)@.ready(8),
        ensures
            value == old(self)@.fetch16(),
            final(self)@ == old(self)@.after_fetch16(),
            final(self)@.ran(old(self)@, 8),
    {
        proof {
            reveal(MachineState::fetch16);
            reveal(MachineState::after_fetch16);
        }
        let lo: u8 = self.fetch8_cycle();
        let hi: u8 = self.fetch8_cycle();
        join_bytes(hi, lo)
    }

    pub(crate) fn prefetch_opcode_cycle(
        &mut self,
        address: u16,
        advance_pc: bool,
        allow_interrupt_dispatch: bool,
    )
        requires
            old(self)@.ready(4),
        ensures
            final(self)@ == old(self)@.prefetch(address, advance_pc, allow_interrupt_dispatch),
            final(self)@.ran(old(self)@, 4),
    {
        proof {
            reveal(MachineState::prefetch);
        }
        self.tick_timers(4);
        let opcode: u8 = self.read8(address);
        self.prefetched_pc = Some(address);
        self.prefetched_opcode = Some(opcode);
        let sampled_interrupts: u8 = self.pending_interrupts();
        self.flush_pending_t34_interrupts();
        if allow_interrupt_dispatch && self.ime && sampled_interrupts != 0 {
            self.registers.pc = address;
            self.set_exec_state(ExecState::InterruptDispatch);
        } else {
            self.registers.pc =
            if advance_pc {
                address.wrapping_add(1)
            } else {
                address
            };
            self.set_exec_state(ExecState::Running);
        }
    }

    pub(crate) fn prefetch_next_cycle(&mut self)
        requires
            old(self)@.ready(4),
        ensures
            final(self)@ == old(self)@.prefetch_next(),
            final(self)@.ran(old(self)@, 4),
    {
        self.prefetch_opcode_cycle(self.registers.pc, true, true);
    }

    pub(crate) fn consume_opcode(&mut self) -> (next: (u16, u8))
        requires
            old(self)@.ready(4),
        ensures
            next == old(self)@.next_opcode(),
            final(self)@ == old(self)@.after_next_opcode(),
            final(self)@.worked(old(self)@),
            final(self)@.cycle_counter <= old(self)@.cycle_counter + 4,
    {
        let prefetched_pc: Option<u16> = self.prefetched_pc;
        let prefetched_opcode: Option<u8> = self.prefetched_opcode;
        self.prefetched_pc = None;
        self.prefetched_opcode = None;
        match (prefetched_pc, prefetched_opcode) {
            (Some(pc), Some(opcode)) => (pc, opcode),
            _ => {
                let opcode_pc: u16 = self.registers.pc;
                let opcode: u8 = self.fetch8_cycle();
                (opcode_pc, opcode)
            },
        }
    }

    fn address_of(&mut self, mode: AddrMode8) -> (address: u16)
        requires
            old(self)@.ready(access_cycles(mode) - 4),
        ensures
            address == old(self)@.address_of(mode),
            final(self)@ == old(self)@.after_address_of(mode),
            final(self)@.ran(old(self)@, access_cycles(mode) - 4),
    {
        match mode {
            AddrMode8::Bc => self.registers.bc(),
            AddrMode8::De => self.registers.de(),
            AddrMode8::Hl | AddrMode8::Hli | AddrMode8::Hld => self.registers.hl(),
            AddrMode8::Direct => self.fetch16_timed_late(),
            AddrMode8::ZeroPageImm => {
                let offset: u8 = self.fetch8_cycle();
                0xFF00 + (offset as u16)
            },
            AddrMode8::ZeroPageC => 0xFF00 + (self.registers.c as u16),
        }
    }

    fn count_address(&mut self, mode: AddrMode8, address: u16)
        requires
            old(self)@.wf(),
        ensures
            final(self)@ == old(self)@.after_counting(mode, address),
            final(self)@.ran(old(self)@, 0),
    {
        match mode {
            AddrMode8::Hli => {
                self.maybe_trigger_oam_bug(address, OamCorruptionKind::Write);
                self.registers.set_hl(address.wrapping_add(1));
            },
            AddrMode8::Hld => {
                self.maybe_trigger_oam_bug(address, OamCorruptionKind::Write);
                self.registers.set_hl(address.wrapping_sub(1));
            },
            _ => {},
        }
    }

    pub(crate) fn read_addr_mode8(&mut self, mode: AddrMode8) -> (value: u8)
        requires
            old(self)@.ready(access_cycles(mode)),
        ensures
            value == old(self)@.read_addr_mode8(mode),
            final(self)@ == old(self)@.after_read_addr_mode8(mode),
            final(self)@.ran(old(self)@, access_cycles(mode)),
    {
        proof {
            reveal(MachineState::read_addr_mode8);
            reveal(MachineState::after_read_addr_mode8);
        }
        let address: u16 = self.address_of(mode);
        let value: u8 = self.read_cycle(address);
        self.count_address(mode, address);
        value
    }

    pub(crate) fn write_addr_mode8(&mut self, mode: AddrMode8, value: u8)
        requires
            old(self)@.ready(access_cycles(mode)),
        ensures
            final(self)@ == old(self)@.write_addr_mode8(mode, value),
            final(self)@.ran(old(self)@, access_cycles(mode)),
    {
        proof {
            reveal(MachineState::write_addr_mode8);
        }
        let address: u16 = self.address_of(mode);
        self.write_cycle(address, value);
        self.count_address(mode, address);
    }

    pub(crate) fn read_in8(&mut self, operand: In8) -> (value: u8)
        requires
            old(self)@.ready(in_cycles(operand)),
        ensures
            value == old(self)@.read_in8(operand),
            final(self)@ == old(self)@.after_read_in8(operand),
            final(self)@.ran(old(self)@, in_cycles(operand)),
    {
        proof {
            reveal(MachineState::read_in8);
            reveal(MachineState::after_read_in8);
        }
        match operand {
            In8::Reg(reg) => self.registers.read_reg8(reg),
            In8::Addr(mode) => self.read_addr_mode8(mode),
            In8::Imm8 => self.fetch8_cycle(),
        }
    }

    pub(crate) fn write_out8(&mut self, operand: Out8, value: u8)
        requires
            old(self)@.ready(out_cycles(operand)),
        ensures
            final(self)@ == old(self)@.write_out8(operand, value),
            final(self)@.ran(old(self)@, out_cycles(operand)),
    {
        proof {
            reveal(MachineState::write_out8);
        }
        match operand {
            Out8::Reg(reg) => self.registers.write_reg8(reg, value),
            Out8::Addr(mode) => self.write_addr_mode8(mode, value),
        }
    }

    fn push8(&mut self, value: u8)
        requires
            old(self)@.ready(4),
        ensures
            final(self)@ == old(self)@.push8(value),
            final(self)@.ran(old(self)@, 4),
    {
        proof {
            reveal(MachineState::push8);
        }
        self.maybe_trigger_oam_bug(self.registers.sp, OamCorruptionKind::Write);
        self.registers.sp = self.registers.sp.wrapping_sub(1);
        self.write_cycle(self.registers.sp, value);
    }

    pub(crate) fn push16(&mut self, value: u16)
        requires
            old(self)@.ready(8),
        ensures
            final(self)@ == old(self)@.push16(value),
            final(self)@.ran(old(self)@, 8),
    {
        proof {
            reveal(MachineState::push16);
        }
        self.push8(high_byte(value));
        self.push8(low_byte(value));
    }

    fn pop8(&mut self) -> (value: u8)
        requires
            old(self)@.ready(4),
        ensures
            value == old(self)@.pop8(),
            final(self)@ == old(self)@.after_pop8(),
            final(self)@.ran(old(self)@, 4),
    {
        proof {
            reveal(MachineState::pop8);
            reveal(MachineState::after_pop8);
        }
        self.tick_timers(4);
        let value: u8 = self.read8(self.registers.sp);
        self.flush_pending_t34_interrupts();
        self.maybe_trigger_oam_bug(self.registers.sp, OamCorruptionKind::Write);
        self.registers.sp = self.registers.sp.wrapping_add(1);
        value
    }

    pub(crate) fn pop16(&mut self) -> (value: u16)
        requires
            old(self)@.ready(8),
        ensures
            value == old(self)@.pop16(),
            final(self)@ == old(self)@.after_pop16(),
            final(self)@.ran(old(self)@, 8),
    {
        proof {
            reveal(MachineState::pop16);
            reveal(MachineState::after_pop16);
        }
        let lo: u8 = self.pop8();
        let hi: u8 = self.pop8();
        join_bytes(hi, lo)
    }
}

} // verus!
