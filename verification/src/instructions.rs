//! The instruction set: what each instruction does to registers, memory and time, in numbers.

use vstd::prelude::*;

use crate::alu::{alu8, decremented8, incremented8, shift_flags, shifted};
use crate::cpu::AddrMode8;
use crate::execute::{alu_op, condition_code, r16_indirect, r8_in, r8_out, shift_op};
use crate::machine::MachineState;
use crate::quiet::{group_bus, lemma_proceeds};
use crate::registers::Registers;

verus! {

/// A flag byte: zero, subtract, half carry, carry, and four bits that are never set.
pub open spec fn flag_byte(z: bool, n: bool, h: bool, c: bool) -> u8 {
    (bit(z) * 128 + bit(n) * 64 + bit(h) * 32 + bit(c) * 16) as u8
}

pub open spec fn bit(on: bool) -> int {
    if on {
        1
    } else {
        0
    }
}

/// The carry bit of a flag byte.
pub open spec fn carry_bit(f: u8) -> int {
    f as int / 16 % 2
}

/// The zero bit of a flag byte.
pub open spec fn zero_bit(f: u8) -> int {
    f as int / 128
}

impl MachineState {
    /// The address in `HL`.
    pub open spec fn hl_address(self) -> int {
        256 * self.registers.h + self.registers.l
    }

    /// The operand that three bits of an opcode name: `B`, `C`, `D`, `E`, `H`, `L`, the byte at
    /// `HL`, `A`.
    pub open spec fn operand8(self, index: int) -> u8 {
        seq![
            self.registers.b,
            self.registers.c,
            self.registers.d,
            self.registers.e,
            self.registers.h,
            self.registers.l,
            self.held(self.hl_address()),
            self.registers.a,
        ][index]
    }

    /// With that operand replaced.
    pub open spec fn with_operand8(self, index: int, value: u8) -> MachineState {
        if index == 6 {
            self.holding(self.hl_address(), value)
        } else {
            MachineState {
                registers: Registers {
                    b: if index == 0 { value } else { self.registers.b },
                    c: if index == 1 { value } else { self.registers.c },
                    d: if index == 2 { value } else { self.registers.d },
                    e: if index == 3 { value } else { self.registers.e },
                    h: if index == 4 { value } else { self.registers.h },
                    l: if index == 5 { value } else { self.registers.l },
                    a: if index == 7 { value } else { self.registers.a },
                    ..self.registers
                },
                ..self
            }
        }
    }

    /// A machine on plain memory that has read the opcode of an instruction, and has time for it.
    pub open spec fn executing(self) -> bool {
        self.at_ease() && self.cycle_counter + 24 <= u64::MAX
    }
}

proof fn lemma_operand_read(machine: MachineState, index: int)
    requires
        machine.at_ease(),
        machine.cycle_counter + 4 <= u64::MAX,
        0 <= index < 8,
        index == 6 ==> machine.plain(machine.hl_address()),
    ensures
        machine.read_in8(r8_in(index)) == machine.operand8(index),
        machine.after_read_in8(r8_in(index)).rested(
            machine,
            if index == 6 { 4 } else { 0 },
        ),
{
    broadcast use group_bus;

    reveal(MachineState::read_in8);
    reveal(MachineState::after_read_in8);
    reveal(MachineState::read_addr_mode8);
    reveal(MachineState::after_read_addr_mode8);
}

proof fn lemma_operand_written(machine: MachineState, index: int, value: u8)
    requires
        machine.at_ease(),
        machine.cycle_counter + 4 <= u64::MAX,
        0 <= index < 8,
        index == 6 ==> machine.writable(machine.hl_address()),
    ensures
        machine.write_out8(r8_out(index), value).rested(
            machine.with_operand8(index, value),
            if index == 6 { 4 } else { 0 },
        ),
{
    broadcast use group_bus;

    reveal(MachineState::write_out8);
    reveal(MachineState::write_addr_mode8);
}

/// Moving a byte from one operand to another takes four clock cycles, and four more where one of
/// them is in memory.
pub proof fn law_load_moves_a_byte(machine: MachineState, to: int, from: int)
    requires
        machine.executing(),
        0 <= to < 8,
        0 <= from < 8,
        to != 6 || from != 6,
        from == 6 ==> machine.plain(machine.hl_address()),
        to == 6 ==> machine.writable(machine.hl_address()),
    ensures
        ({
            let loaded = machine.with_operand8(to, machine.operand8(from));
            machine.execute_opcode((0x40 + 8 * to + from) as u8).proceeds(
                loaded,
                loaded.registers,
                if to == 6 || from == 6 { 8 } else { 4 },
            )
        }),
{
    broadcast use group_bus;

    reveal(MachineState::execute_opcode);
    reveal(MachineState::execute_opcode_40_bf);
    reveal(MachineState::exec_load8);
    let opcode = (0x40 + 8 * to + from) as u8;
    assert(opcode % 8 == from && opcode / 8 % 8 == to);
    lemma_operand_read(machine, from);
    lemma_operand_written(
        machine.after_read_in8(r8_in(from)),
        to,
        machine.operand8(from),
    );
}

/// The byte after the opcode is loaded into an operand.
pub proof fn law_immediate_byte_is_loaded(machine: MachineState, to: int)
    requires
        machine.executing(),
        0 <= to < 8,
        machine.plain(machine.registers.pc as int),
        to == 6 ==> machine.writable(machine.hl_address()),
    ensures
        ({
            let pc = machine.registers.pc;
            let loaded = machine.with_operand8(to, machine.held(pc as int));
            machine.execute_opcode((0x06 + 8 * to) as u8).proceeds(
                loaded,
                Registers { pc: ((pc + 1) % 0x10000) as u16, ..loaded.registers },
                if to == 6 { 12 } else { 8 },
            )
        }),
{
    broadcast use group_bus;

    reveal(MachineState::execute_opcode);
    reveal(MachineState::execute_opcode_00_3f);
    reveal(MachineState::exec_load8);
    reveal(MachineState::read_in8);
    reveal(MachineState::after_read_in8);
    reveal(MachineState::write_out8);
    reveal(MachineState::write_addr_mode8);
    let opcode = (0x06 + 8 * to) as u8;
    assert(opcode % 8 == 6 && opcode / 8 == to);
}

/// What an operation between the accumulator and a byte leaves: the sum or difference modulo 256
/// with the carries out of both halves, or the bits combined.
pub open spec fn combined(op: int, r: Registers, value: u8) -> Registers {
    let carry = carry_bit(r.f);
    let up = r.a + value + (if op == 1 { carry } else { 0 });
    let down = r.a - value - (if op == 3 { carry } else { 0 });
    let sum_half = r.a % 16 + value % 16 + (if op == 1 { carry } else { 0 }) >= 16;
    let difference_half = r.a % 16 - value % 16 - (if op == 3 { carry } else { 0 }) < 0;
    if op <= 1 {
        Registers {
            a: (up % 256) as u8,
            f: flag_byte(up % 256 == 0, false, sum_half, up >= 256),
            ..r
        }
    } else if op <= 3 {
        Registers {
            a: (down % 256) as u8,
            f: flag_byte(down % 256 == 0, true, difference_half, down < 0),
            ..r
        }
    } else if op == 4 {
        Registers { a: r.a & value, f: flag_byte(r.a & value == 0, false, true, false), ..r }
    } else if op == 5 {
        Registers { a: r.a ^ value, f: flag_byte(r.a ^ value == 0, false, false, false), ..r }
    } else if op == 6 {
        Registers { a: r.a | value, f: flag_byte(r.a | value == 0, false, false, false), ..r }
    } else {
        Registers { f: flag_byte(r.a == value, true, difference_half, r.a < value), ..r }
    }
}

proof fn lemma_combined(op: int, r: Registers, value: u8)
    requires
        0 <= op < 8,
    ensures
        alu8(r, alu_op(op), value) == combined(op, r, value),
{
}

/// `ADD`, `ADC`, `SUB`, `SBC`, `AND`, `XOR`, `OR` and `CP` with an operand.
pub proof fn law_arithmetic_with_an_operand(machine: MachineState, op: int, from: int)
    requires
        machine.executing(),
        0 <= op < 8,
        0 <= from < 8,
        from == 6 ==> machine.plain(machine.hl_address()),
    ensures
        machine.execute_opcode((0x80 + 8 * op + from) as u8).proceeds(
            machine,
            combined(op, machine.registers, machine.operand8(from)),
            if from == 6 { 8 } else { 4 },
        ),
{
    broadcast use group_bus;

    reveal(MachineState::execute_opcode);
    reveal(MachineState::execute_opcode_40_bf);
    reveal(MachineState::exec_alu);
    let opcode = (0x80 + 8 * op + from) as u8;
    assert(opcode % 8 == from && opcode / 8 % 8 == op);
    lemma_operand_read(machine, from);
    lemma_combined(op, machine.registers, machine.operand8(from));
}

/// The same eight with the byte after the opcode.
pub proof fn law_arithmetic_with_an_immediate_byte(machine: MachineState, op: int)
    requires
        machine.executing(),
        0 <= op < 8,
        machine.plain(machine.registers.pc as int),
    ensures
        ({
            let pc = machine.registers.pc;
            machine.execute_opcode((0xC6 + 8 * op) as u8).proceeds(
                machine,
                Registers {
                    pc: ((pc + 1) % 0x10000) as u16,
                    ..combined(op, machine.registers, machine.held(pc as int))
                },
                8,
            )
        }),
{
    broadcast use group_bus;

    reveal(MachineState::execute_opcode);
    reveal(MachineState::execute_opcode_c0_ff);
    reveal(MachineState::exec_alu);
    reveal(MachineState::read_in8);
    reveal(MachineState::after_read_in8);
    let opcode = (0xC6 + 8 * op) as u8;
    assert(opcode % 8 == 6 && opcode / 8 % 8 == op);
    let value = machine.held(machine.registers.pc as int);
    let moved = Registers { pc: ((machine.registers.pc + 1) % 0x10000) as u16, ..machine.registers };
    lemma_combined(op, moved, value);
}

/// `INC` and `DEC` of an operand: its value moves by one modulo 256, and the carry flag stays.
pub proof fn law_operand_counts(machine: MachineState, index: int, down: bool)
    requires
        machine.executing(),
        0 <= index < 8,
        index == 6 ==> machine.writable(machine.hl_address()),
    ensures
        ({
            let value = machine.operand8(index);
            let result = ((value + (if down { -1int } else { 1 })) % 256) as u8;
            let half = if down { value % 16 == 0 } else { value % 16 == 15 };
            let counted = machine.with_operand8(index, result);
            machine.execute_opcode(((if down { 0x05int } else { 0x04 }) + 8 * index) as u8).proceeds(
                counted,
                Registers {
                    f: flag_byte(result == 0, down, half, carry_bit(machine.registers.f) == 1),
                    ..counted.registers
                },
                if index == 6 { 12 } else { 4 },
            )
        }),
{
    broadcast use group_bus;

    reveal(MachineState::execute_opcode);
    reveal(MachineState::execute_opcode_00_3f);
    reveal(MachineState::exec_inc8);
    reveal(MachineState::exec_dec8);
    let opcode = ((if down { 0x05int } else { 0x04 }) + 8 * index) as u8;
    assert(opcode % 8 == (if down { 5int } else { 4 }) && opcode / 8 == index);
    let value = machine.operand8(index);
    let result = ((value + (if down { -1int } else { 1 })) % 256) as u8;
    lemma_operand_read(machine, index);
    let read = machine.after_read_in8(r8_in(index));
    let flagged = read.with_registers(
        if down {
            decremented8(read.registers, value)
        } else {
            incremented8(read.registers, value)
        },
    );
    lemma_operand_written(flagged, index, result);
}

/// A byte in two's complement.
pub open spec fn offset_of(value: u8) -> int {
    if value < 128 {
        value as int
    } else {
        value - 256
    }
}

/// Whether a flag byte meets one of the four conditions: not zero, zero, no carry, carry.
pub open spec fn met(condition: int, f: u8) -> bool {
    condition % 2 == (if condition < 2 { zero_bit(f) } else { carry_bit(f) })
}

/// The address of the next instruction where the current one is followed by so many more bytes.
pub open spec fn past(pc: u16, bytes: int) -> u16 {
    ((pc + bytes) % 0x10000) as u16
}

proof fn lemma_condition(r: Registers, condition: int)
    requires
        0 <= condition < 4,
    ensures
        r.condition(condition_code(condition)) == met(condition, r.f),
{
}

/// `JR` and its conditional forms: where the condition is met the program goes on so many bytes
/// further on or back, counted from the next instruction; else with the next instruction.
pub proof fn law_relative_jump(machine: MachineState, condition: int)
    requires
        machine.executing(),
        0 <= condition < 4,
        machine.plain(machine.registers.pc as int),
    ensures
        ({
            let r = machine.registers;
            let target = ((r.pc + 1 + offset_of(machine.held(r.pc as int))) % 0x10000) as u16;
            &&& machine.execute_opcode(0x18).proceeds(machine, Registers { pc: target, ..r }, 12)
            &&& met(condition, r.f) ==> machine.execute_opcode(
                (0x20 + 8 * condition) as u8,
            ).proceeds(machine, Registers { pc: target, ..r }, 12)
            &&& !met(condition, r.f) ==> machine.execute_opcode(
                (0x20 + 8 * condition) as u8,
            ).proceeds(machine, Registers { pc: past(r.pc, 1), ..r }, 8)
        }),
{
    broadcast use group_bus;

    reveal(MachineState::execute_opcode);
    reveal(MachineState::execute_opcode_00_3f);
    reveal(MachineState::exec_jr_if);
    lemma_condition(machine.registers, condition);
    let opcode = (0x20 + 8 * condition) as u8;
    assert(opcode % 8 == 0 && opcode / 8 - 4 == condition);
}

/// `JP` and its conditional forms go to the address after the opcode, low byte first; `JP HL` to the
/// address in `HL`.
pub proof fn law_jump(machine: MachineState, condition: int)
    requires
        machine.executing(),
        0 <= condition < 4,
        machine.plain(machine.registers.pc as int),
        machine.plain(machine.registers.pc + 1),
    ensures
        ({
            let r = machine.registers;
            let target = (256 * machine.held(r.pc + 1) + machine.held(r.pc as int)) as u16;
            &&& machine.execute_opcode(0xC3).proceeds(machine, Registers { pc: target, ..r }, 16)
            &&& met(condition, r.f) ==> machine.execute_opcode(
                (0xC2 + 8 * condition) as u8,
            ).proceeds(machine, Registers { pc: target, ..r }, 16)
            &&& !met(condition, r.f) ==> machine.execute_opcode(
                (0xC2 + 8 * condition) as u8,
            ).proceeds(machine, Registers { pc: past(r.pc, 2), ..r }, 12)
            &&& machine.execute_opcode(0xE9).proceeds(
                machine,
                Registers { pc: machine.hl_address() as u16, ..r },
                4,
            )
        }),
{
    broadcast use group_bus;

    reveal(MachineState::execute_opcode);
    reveal(MachineState::execute_opcode_c0_ff);
    reveal(MachineState::execute_single_opcode);
    reveal(MachineState::exec_jp_if);
    lemma_condition(machine.registers, condition);
    let opcode = (0xC2 + 8 * condition) as u8;
    assert(opcode % 8 == 2 && opcode / 8 % 8 == condition);
}

impl MachineState {
    /// With a word on the stack, low byte at the lower address.
    pub open spec fn pushed(self, value: u16) -> MachineState {
        self.holding(self.registers.sp - 1, (value / 256) as u8).holding(
            self.registers.sp - 2,
            (value % 256) as u8,
        )
    }

    /// The word on top of the stack.
    pub open spec fn top_word(self) -> u16 {
        (256 * self.held(self.registers.sp + 1) + self.held(self.registers.sp as int)) as u16
    }

    /// There is room in RAM for another word on the stack.
    pub open spec fn can_push(self) -> bool {
        self.writable(self.registers.sp - 1) && self.writable(self.registers.sp - 2)
    }

    pub open spec fn can_pop(self) -> bool {
        self.plain(self.registers.sp as int) && self.plain(self.registers.sp + 1)
    }
}

/// `CALL` and its conditional forms put the address of the next instruction on the stack and go to
/// the address after the opcode.
pub proof fn law_call(machine: MachineState, condition: int)
    requires
        machine.executing(),
        0 <= condition < 4,
        machine.plain(machine.registers.pc as int),
        machine.plain(machine.registers.pc + 1),
        machine.can_push(),
    ensures
        ({
            let r = machine.registers;
            let target = (256 * machine.held(r.pc + 1) + machine.held(r.pc as int)) as u16;
            let called = Registers { pc: target, sp: (r.sp - 2) as u16, ..r };
            let stacked = machine.pushed(past(r.pc, 2));
            &&& machine.execute_opcode(0xCD).proceeds(stacked, called, 24)
            &&& met(condition, r.f) ==> machine.execute_opcode(
                (0xC4 + 8 * condition) as u8,
            ).proceeds(stacked, called, 24)
            &&& !met(condition, r.f) ==> machine.execute_opcode(
                (0xC4 + 8 * condition) as u8,
            ).proceeds(machine, Registers { pc: past(r.pc, 2), ..r }, 12)
        }),
{
    broadcast use group_bus;

    reveal(MachineState::execute_opcode);
    reveal(MachineState::execute_opcode_c0_ff);
    reveal(MachineState::execute_single_opcode);
    reveal(MachineState::exec_call_if);
    lemma_condition(machine.registers, condition);
    let opcode = (0xC4 + 8 * condition) as u8;
    assert(opcode % 8 == 4 && opcode / 8 % 8 == condition);
}

/// `RST` is a call of one of eight fixed addresses.
pub proof fn law_restart(machine: MachineState, index: int)
    requires
        machine.executing(),
        0 <= index < 8,
        machine.can_push(),
    ensures
        machine.execute_opcode((0xC7 + 8 * index) as u8).proceeds(
            machine.pushed(machine.registers.pc),
            Registers {
                pc: (8 * index) as u16,
                sp: (machine.registers.sp - 2) as u16,
                ..machine.registers
            },
            16,
        ),
{
    broadcast use group_bus;

    reveal(MachineState::execute_opcode);
    reveal(MachineState::execute_opcode_c0_ff);
    reveal(MachineState::exec_push);
    let opcode = (0xC7 + 8 * index) as u8;
    assert(opcode % 8 == 7 && opcode / 8 % 8 == index);
}

/// `RET` and its conditional forms go to the address on the stack; `RETI` does too, and enables
/// interrupts, whether they were enabled or not.
pub proof fn law_return(machine: MachineState, condition: int)
    requires
        machine.executing(),
        0 <= condition < 4,
        machine.can_pop(),
    ensures
        ({
            let r = machine.registers;
            let returned = Registers { pc: machine.top_word(), sp: past(r.sp, 2), ..r };
            &&& machine.execute_opcode(0xC9).proceeds(machine, returned, 16)
            &&& met(condition, r.f) ==> machine.execute_opcode(
                (0xC0 + 8 * condition) as u8,
            ).proceeds(machine, returned, 20)
            &&& !met(condition, r.f) ==> machine.execute_opcode(
                (0xC0 + 8 * condition) as u8,
            ).proceeds(machine, r, 8)
            &&& machine.execute_opcode(0xD9).proceeds(
                MachineState { ime: true, ..machine },
                returned,
                16,
            )
        }),
{
    broadcast use group_bus;

    reveal(MachineState::execute_opcode);
    reveal(MachineState::execute_opcode_c0_ff);
    reveal(MachineState::execute_single_opcode);
    reveal(MachineState::exec_ret);
    reveal(MachineState::exec_reti);
    reveal(MachineState::exec_ret_if);
    reveal(MachineState::ctrl_ret);
    lemma_condition(machine.registers, condition);
    let opcode = (0xC0 + 8 * condition) as u8;
    assert(opcode % 8 == 0 && opcode / 8 % 8 == condition);
}

impl MachineState {
    /// The pair that two bits of an opcode name: `BC`, `DE`, `HL`, and last the stack pointer.
    pub open spec fn pair_value(self, index: int) -> u16 {
        let r = self.registers;
        seq![
            (256 * r.b + r.c) as u16,
            (256 * r.d + r.e) as u16,
            (256 * r.h + r.l) as u16,
            r.sp,
        ][index]
    }
}

/// With that pair replaced.
pub open spec fn with_pair_value(r: Registers, index: int, value: u16) -> Registers {
    let upper = (value / 256) as u8;
    let lower = (value % 256) as u8;
    if index == 0 {
        Registers { b: upper, c: lower, ..r }
    } else if index == 1 {
        Registers { d: upper, e: lower, ..r }
    } else if index == 2 {
        Registers { h: upper, l: lower, ..r }
    } else {
        Registers { sp: value, ..r }
    }
}

/// `LD rr,nn`: the two bytes after the opcode, low byte first.
pub proof fn law_immediate_word_is_loaded(machine: MachineState, index: int)
    requires
        machine.executing(),
        0 <= index < 4,
        machine.plain(machine.registers.pc as int),
        machine.plain(machine.registers.pc + 1),
    ensures
        ({
            let r = machine.registers;
            machine.execute_opcode((0x01 + 16 * index) as u8).proceeds(
                machine,
                Registers {
                    pc: past(r.pc, 2),
                    ..with_pair_value(
                        r,
                        index,
                        (256 * machine.held(r.pc + 1) + machine.held(r.pc as int)) as u16,
                    )
                },
                12,
            )
        }),
{
    broadcast use group_bus;

    reveal(MachineState::execute_opcode);
    reveal(MachineState::execute_opcode_00_3f);
    reveal(MachineState::exec_load16_immediate);
    let opcode = (0x01 + 16 * index) as u8;
    assert(opcode / 8 == 2 * index && opcode % 8 == 1);
}

/// `INC rr` and `DEC rr` count modulo 65536 and leave the flags alone.
pub proof fn law_pair_counts(machine: MachineState, index: int, down: bool)
    requires
        machine.executing(),
        0 <= index < 4,
    ensures
        machine.execute_opcode(((if down { 0x0Bint } else { 0x03 }) + 16 * index) as u8).proceeds(
            machine,
            with_pair_value(
                machine.registers,
                index,
                ((machine.pair_value(index) + (if down { -1int } else { 1 })) % 0x10000) as u16,
            ),
            8,
        ),
{
    broadcast use group_bus;

    reveal(MachineState::execute_opcode);
    reveal(MachineState::execute_opcode_00_3f);
    reveal(MachineState::exec_step16);
    let opcode = ((if down { 0x0Bint } else { 0x03 }) + 16 * index) as u8;
    assert(opcode / 8 == 2 * index + bit(down) && opcode % 8 == 3);
    assert(opcode / 8 % 2 == bit(down) && opcode / 8 / 2 == index);
}

/// `ADD HL,rr` adds modulo 65536, with the carries out of the low twelve bits and of all sixteen, and
/// leaves the zero flag alone.
pub proof fn law_pair_is_added(machine: MachineState, index: int)
    requires
        machine.executing(),
        0 <= index < 4,
    ensures
        ({
            let r = machine.registers;
            let value = machine.pair_value(index);
            let hl = machine.hl_address();
            machine.execute_opcode((0x09 + 16 * index) as u8).proceeds(
                machine,
                Registers {
                    f: flag_byte(
                        zero_bit(r.f) == 1,
                        false,
                        hl % 0x1000 + value % 0x1000 >= 0x1000,
                        hl + value >= 0x10000,
                    ),
                    ..with_pair_value(r, 2, ((hl + value) % 0x10000) as u16)
                },
                8,
            )
        }),
{
    broadcast use group_bus;

    reveal(MachineState::execute_opcode);
    reveal(MachineState::execute_opcode_00_3f);
    reveal(MachineState::exec_add_hl);
    let opcode = (0x09 + 16 * index) as u8;
    assert(opcode / 8 == 2 * index + 1 && opcode % 8 == 1);
    assert(opcode / 8 % 2 == 1 && opcode / 8 / 2 == index);
}

/// `PUSH` puts `BC`, `DE`, `HL` or `AF` on the stack; `POP` takes it off, but for the four bits of
/// the flags that are never set.
pub proof fn law_stack(machine: MachineState, index: int)
    requires
        machine.executing(),
        0 <= index < 4,
    ensures
        ({
            let r = machine.registers;
            let value = if index == 3 {
                (256 * r.a + r.f) as u16
            } else {
                machine.pair_value(index)
            };
            let top = machine.top_word();
            let taken = if index == 3 {
                Registers { a: (top / 256) as u8, f: (top % 256 / 16 * 16) as u8, ..r }
            } else {
                with_pair_value(r, index, top)
            };
            &&& machine.can_push() ==> machine.execute_opcode((0xC5 + 16 * index) as u8).proceeds(
                machine.pushed(value),
                Registers { sp: (r.sp - 2) as u16, ..r },
                16,
            )
            &&& machine.can_pop() ==> machine.execute_opcode((0xC1 + 16 * index) as u8).proceeds(
                machine,
                Registers { sp: past(r.sp, 2), ..taken },
                12,
            )
        }),
{
    broadcast use group_bus;

    reveal(MachineState::execute_opcode);
    reveal(MachineState::execute_opcode_c0_ff);
    reveal(MachineState::exec_push);
    reveal(MachineState::exec_pop);
    assert(((0xC5 + 16 * index) as u8) % 8 == 5 && ((0xC5 + 16 * index) as u8) / 8 % 8 == 2
        * index);
    assert(((0xC1 + 16 * index) as u8) % 8 == 1 && ((0xC1 + 16 * index) as u8) / 8 % 8 == 2
        * index);
}

/// The address by which `LD (rr),A` and `LD A,(rr)` go: `BC`, `DE`, or `HL`, which then counts up or
/// down.
pub open spec fn indirect_address(r: Registers, index: int) -> int {
    if index == 0 {
        256 * r.b + r.c
    } else if index == 1 {
        256 * r.d + r.e
    } else {
        256 * r.h + r.l
    }
}

/// The registers after such a load.
pub open spec fn indirect_counted(r: Registers, index: int) -> Registers {
    let hl = 256 * r.h + r.l;
    if index == 2 {
        with_pair_value(r, 2, ((hl + 1) % 0x10000) as u16)
    } else if index == 3 {
        with_pair_value(r, 2, ((hl - 1) % 0x10000) as u16)
    } else {
        r
    }
}

proof fn lemma_indirect(machine: MachineState, index: int, value: u8)
    requires
        machine.executing(),
        0 <= index < 4,
    ensures
        ({
            let mode = r16_indirect(index);
            let address = indirect_address(machine.registers, index);
            let counted = machine.with_registers(indirect_counted(machine.registers, index));
            &&& machine.plain(address) ==> machine.read_addr_mode8(mode) == machine.held(address)
            &&& machine.after_read_addr_mode8(mode).rested(counted, 4)
            &&& machine.writable(address) ==> machine.write_addr_mode8(mode, value).rested(
                counted.holding(address, value),
                4,
            )
        }),
{
    broadcast use group_bus;

    reveal(MachineState::read_addr_mode8);
    reveal(MachineState::after_read_addr_mode8);
    reveal(MachineState::write_addr_mode8);
}

/// Loads and stores of the accumulator by a pair of registers.
pub proof fn law_accumulator_goes_by_a_pair(machine: MachineState, index: int)
    requires
        machine.executing(),
        0 <= index < 4,
    ensures
        ({
            let r = machine.registers;
            let address = indirect_address(r, index);
            &&& machine.writable(address) ==> machine.execute_opcode(
                (0x02 + 16 * index) as u8,
            ).proceeds(machine.holding(address, r.a), indirect_counted(r, index), 8)
            &&& machine.plain(address) ==> machine.execute_opcode(
                (0x0A + 16 * index) as u8,
            ).proceeds(
                machine,
                Registers { a: machine.held(address), ..indirect_counted(r, index) },
                8,
            )
        }),
{
    broadcast use group_bus;

    reveal(MachineState::execute_opcode);
    reveal(MachineState::execute_opcode_00_3f);
    reveal(MachineState::exec_load8);
    reveal(MachineState::read_in8);
    reveal(MachineState::after_read_in8);
    reveal(MachineState::write_out8);
    lemma_indirect(machine, index, machine.registers.a);
    let store = (0x02 + 16 * index) as u8;
    let load = (0x0A + 16 * index) as u8;
    assert(store / 8 == 2 * index && store % 8 == 2);
    assert(load / 8 == 2 * index + 1 && load % 8 == 2);
    assert(load / 8 % 2 == 1 && load / 8 / 2 == index);
}

/// The bytes after the opcode that name an address.
spec fn mode_bytes(mode: AddrMode8) -> int {
    if mode is Direct {
        2
    } else if mode is ZeroPageImm {
        1
    } else {
        0
    }
}

proof fn lemma_addressed(machine: MachineState, mode: AddrMode8, address: int, value: u8)
    requires
        machine.executing(),
        mode is Direct || mode is ZeroPageImm || mode is ZeroPageC,
        mode is ZeroPageImm ==> machine.plain(machine.registers.pc as int) && address == 0xFF00
            + machine.held(machine.registers.pc as int),
        mode is ZeroPageC ==> address == 0xFF00 + machine.registers.c,
        mode is Direct ==> machine.plain(machine.registers.pc as int) && machine.plain(
            machine.registers.pc + 1,
        ) && address == 256 * machine.held(machine.registers.pc + 1) + machine.held(
            machine.registers.pc as int,
        ),
        machine.plain(address),
    ensures
        ({
            let moved = machine.with_pc(past(machine.registers.pc, mode_bytes(mode)));
            let cycles = 4 + 4 * mode_bytes(mode);
            &&& machine.read_addr_mode8(mode) == machine.held(address)
            &&& machine.after_read_addr_mode8(mode).rested(moved, cycles)
            &&& machine.writable(address) ==> machine.write_addr_mode8(mode, value).rested(
                moved.holding(address, value),
                cycles,
            )
        }),
{
    broadcast use group_bus;

    reveal(MachineState::read_addr_mode8);
    reveal(MachineState::after_read_addr_mode8);
    reveal(MachineState::write_addr_mode8);
    assert(machine.address_of(mode) == address);
}

/// Loads and stores of the accumulator in the last page, by the byte after the opcode or by `C`, and
/// anywhere by the two bytes after the opcode.
pub proof fn law_accumulator_goes_by_an_address(machine: MachineState, opcode: u8, address: int)
    requires
        machine.executing(),
        opcode == 0xE0 || opcode == 0xF0 || opcode == 0xE2 || opcode == 0xF2 || opcode == 0xEA
            || opcode == 0xFA,
        opcode == 0xE0 || opcode == 0xF0 ==> machine.plain(machine.registers.pc as int) && address
            == 0xFF00 + machine.held(machine.registers.pc as int),
        opcode == 0xE2 || opcode == 0xF2 ==> address == 0xFF00 + machine.registers.c,
        opcode == 0xEA || opcode == 0xFA ==> machine.plain(machine.registers.pc as int)
            && machine.plain(machine.registers.pc + 1) && address == 256 * machine.held(
            machine.registers.pc + 1,
        ) + machine.held(machine.registers.pc as int),
        machine.plain(address),
        opcode < 0xF0 ==> machine.writable(address),
    ensures
        ({
            let r = machine.registers;
            let bytes: int = if opcode % 16 == 0 {
                1
            } else if opcode % 16 == 2 {
                0
            } else {
                2
            };
            let next = Registers { pc: past(r.pc, bytes), ..r };
            let after = machine.execute_opcode(opcode);
            if opcode < 0xF0 {
                after.proceeds(machine.holding(address, r.a), next, 8 + 4 * bytes)
            } else {
                after.proceeds(
                    machine,
                    Registers { a: machine.held(address), ..next },
                    8 + 4 * bytes,
                )
            }
        }),
{
    broadcast use group_bus;

    reveal(MachineState::execute_opcode);
    reveal(MachineState::execute_opcode_c0_ff);
    reveal(MachineState::execute_single_opcode);
    reveal(MachineState::exec_load8);
    reveal(MachineState::read_in8);
    reveal(MachineState::after_read_in8);
    reveal(MachineState::write_out8);
    let mode = if opcode % 16 == 0 {
        AddrMode8::ZeroPageImm
    } else if opcode % 16 == 2 {
        AddrMode8::ZeroPageC
    } else {
        AddrMode8::Direct
    };
    lemma_addressed(machine, mode, address, machine.registers.a);
}

/// `LD (nn),SP`, low byte first.
pub proof fn law_stack_pointer_is_stored(machine: MachineState, address: int)
    requires
        machine.executing(),
        machine.plain(machine.registers.pc as int),
        machine.plain(machine.registers.pc + 1),
        address == 256 * machine.held(machine.registers.pc + 1) + machine.held(
            machine.registers.pc as int,
        ),
        machine.writable(address),
        machine.writable(address + 1),
    ensures
        machine.execute_opcode(0x08).proceeds(
            machine.holding(address, (machine.registers.sp % 256) as u8).holding(
                address + 1,
                (machine.registers.sp / 256) as u8,
            ),
            Registers { pc: past(machine.registers.pc, 2), ..machine.registers },
            20,
        ),
{
    broadcast use group_bus;

    reveal(MachineState::execute_opcode);
    reveal(MachineState::execute_opcode_00_3f);
    reveal(MachineState::exec_store_sp);
}

/// `LD SP,HL`, `ADD SP,e` and `LD HL,SP+e`: the offset is signed, and the flags are the carries of the
/// unsigned sum of the low bytes.
pub proof fn law_stack_pointer_moves(machine: MachineState)
    requires
        machine.executing(),
        machine.plain(machine.registers.pc as int),
    ensures
        ({
            let r = machine.registers;
            let byte = machine.held(r.pc as int);
            let sum = ((r.sp + offset_of(byte)) % 0x10000) as u16;
            let f = flag_byte(
                false,
                false,
                r.sp % 16 + byte % 16 >= 16,
                r.sp % 256 + byte >= 256,
            );
            &&& machine.execute_opcode(0xF9).proceeds(
                machine,
                Registers { sp: machine.hl_address() as u16, ..r },
                8,
            )
            &&& machine.execute_opcode(0xE8).proceeds(
                machine,
                Registers { pc: past(r.pc, 1), sp: sum, f, ..r },
                16,
            )
            &&& machine.execute_opcode(0xF8).proceeds(
                machine,
                Registers { pc: past(r.pc, 1), f, ..with_pair_value(r, 2, sum) },
                12,
            )
        }),
{
    broadcast use group_bus;

    reveal(MachineState::execute_opcode);
    reveal(MachineState::execute_opcode_c0_ff);
    reveal(MachineState::execute_single_opcode);
    reveal(MachineState::exec_add_sp_signed);
    reveal(MachineState::exec_load_hl_sp_plus_signed);
    reveal(MachineState::exec_load_sp_from_hl);
}

/// A byte rotated or shifted by one place, or with its halves exchanged, in the order of the
/// opcodes: both rotations around, both through the carry, left, right with its sign, the halves,
/// and right.
pub open spec fn moved_bits(op: int, value: u8, carry: int) -> u8 {
    let left = value % 128 * 2;
    let right = value as int / 2;
    (if op == 0 {
        left + value / 128
    } else if op == 1 {
        right + 128 * (value % 2)
    } else if op == 2 {
        left + carry
    } else if op == 3 {
        right + 128 * carry
    } else if op == 4 {
        left
    } else if op == 5 {
        right + 128 * (value / 128)
    } else if op == 6 {
        value % 16 * 16 + value / 16
    } else {
        right
    }) as u8
}

/// Whether the bit that falls out is set.
pub open spec fn lost_bit(op: int, value: u8) -> bool {
    if op == 6 {
        false
    } else if op == 0 || op == 2 || op == 4 {
        value / 128 == 1
    } else {
        value % 2 == 1
    }
}

/// `RLCA`, `RRCA`, `RLA`, `RRA` rotate the accumulator and always clear the zero flag; `CPL`, `SCF`
/// and `CCF` complement the accumulator, set the carry and invert it.
pub proof fn law_accumulator_operations(machine: MachineState, op: int)
    requires
        machine.executing(),
        0 <= op < 4,
    ensures
        ({
            let r = machine.registers;
            let carry = carry_bit(r.f);
            let zero = zero_bit(r.f) == 1;
            &&& machine.execute_opcode((0x07 + 8 * op) as u8).proceeds(
                machine,
                Registers {
                    a: moved_bits(op, r.a, carry),
                    f: flag_byte(false, false, false, lost_bit(op, r.a)),
                    ..r
                },
                4,
            )
            &&& machine.execute_opcode(0x2F).proceeds(
                machine,
                Registers {
                    a: (255 - r.a) as u8,
                    f: flag_byte(zero, true, true, carry == 1),
                    ..r
                },
                4,
            )
            &&& machine.execute_opcode(0x37).proceeds(
                machine,
                Registers { f: flag_byte(zero, false, false, true), ..r },
                4,
            )
            &&& machine.execute_opcode(0x3F).proceeds(
                machine,
                Registers { f: flag_byte(zero, false, false, carry == 0), ..r },
                4,
            )
            &&& machine.execute_opcode(0x00).proceeds(machine, r, 4)
        }),
{
    broadcast use group_bus;

    reveal(MachineState::execute_opcode);
    reveal(MachineState::execute_opcode_00_3f);
    reveal(MachineState::exec_accumulator_op);
    let opcode = (0x07 + 8 * op) as u8;
    assert(opcode / 8 == op && opcode % 8 == 7);
}

/// The value of a bit.
pub open spec fn place(bit: int) -> int {
    seq![1int, 2, 4, 8, 16, 32, 64, 128][bit]
}

pub proof fn lemma_single_bit(value: u8, bit: u8)
    requires
        bit < 8,
    ensures
        value & (1u8 << bit) == 0 <==> value as int / place(bit as int) % 2 == 0,
        value & !(1u8 << bit) == value - value as int / place(bit as int) % 2 * place(bit as int),
        value | (1u8 << bit) == value + (1 - value as int / place(bit as int) % 2) * place(
            bit as int,
        ),
{
    let p: u8 = 1u8 << bit;
    let digit: u8 = (value / p) % 2;
    assert((value & p == 0 <==> digit == 0) && (value & !p == value - digit * p) && (value | p
        == value + (1 - digit) * p) && (bit == 0 ==> p == 1) && (bit == 1 ==> p == 2) && (bit == 2
        ==> p == 4) && (bit == 3 ==> p == 8) && (bit == 4 ==> p == 16) && (bit == 5 ==> p == 32)
        && (bit == 6 ==> p == 64) && (bit == 7 ==> p == 128)) by (bit_vector)
        requires
            bit < 8,
            p == 1u8 << bit,
            digit == (value / p) % 2,
    ;
    assert(p == place(bit as int));
    assert(digit == value as int / p as int % 2);
}

proof fn lemma_prefixed(machine: MachineState, kind: int, bit: int, index: int)
    requires
        machine.executing(),
        0 <= kind <= 3,
        0 <= bit < 8,
        0 <= index < 8,
        machine.plain(machine.registers.pc as int),
        machine.held(machine.registers.pc as int) == 64 * kind + 8 * bit + index,
    ensures
        machine.after_fetch8().rested(machine.with_pc(past(machine.registers.pc, 1)), 4),
        machine.execute_opcode(0xCB) == (if kind == 0 {
            machine.after_fetch8().exec_cb_shift(index, shift_op(bit))
        } else if kind == 1 {
            machine.after_fetch8().exec_cb_bit(index, bit as u8)
        } else if kind == 2 {
            machine.after_fetch8().exec_cb_res(index, bit as u8)
        } else {
            machine.after_fetch8().exec_cb_set(index, bit as u8)
        }),
{
    broadcast use group_bus;

    reveal(MachineState::execute_opcode);
    reveal(MachineState::execute_opcode_c0_ff);
    reveal(MachineState::execute_single_opcode);
    reveal(MachineState::execute_cb_prefixed);
    let opcode = (64 * kind + 8 * bit + index) as u8;
    assert(opcode % 8 == index && opcode / 8 % 8 == bit && opcode / 64 == kind);
}

/// The rotates and shifts behind the prefix: an operand's bits move, and the carry takes the bit
/// that falls out.
pub proof fn law_bits_move(machine: MachineState, op: int, index: int)
    requires
        machine.executing(),
        0 <= op < 8,
        0 <= index < 8,
        machine.plain(machine.registers.pc as int),
        machine.held(machine.registers.pc as int) == 8 * op + index,
        index == 6 ==> machine.writable(machine.hl_address()),
    ensures
        ({
            let r = machine.registers;
            let value = machine.operand8(index);
            let result = moved_bits(op, value, carry_bit(r.f));
            let moved = machine.with_operand8(index, result);
            machine.execute_opcode(0xCB).proceeds(
                moved,
                Registers {
                    pc: past(r.pc, 1),
                    f: flag_byte(result == 0, false, false, lost_bit(op, value)),
                    ..moved.registers
                },
                if index == 6 { 16 } else { 8 },
            )
        }),
{
    broadcast use lemma_proceeds;

    reveal(MachineState::exec_cb_shift);
    lemma_prefixed(machine, 0, op, index);
    let fetched = machine.after_fetch8();
    let value = machine.operand8(index);
    lemma_operand_read(fetched, index);
    let read = fetched.after_read_in8(r8_in(index));
    lemma_moved_bits(op, value, read.registers);
    let flagged = read.with_registers(shift_flags(read.registers, shift_op(op), value));
    lemma_operand_written(flagged, index, shifted(shift_op(op), value, read.registers.flag_c()));
}

proof fn lemma_moved_bits(op: int, value: u8, r: Registers)
    requires
        0 <= op < 8,
    ensures
        shifted(shift_op(op), value, r.flag_c()) == moved_bits(op, value, carry_bit(r.f)),
        shift_flags(r, shift_op(op), value) == (Registers {
            f: flag_byte(
                moved_bits(op, value, carry_bit(r.f)) == 0,
                false,
                false,
                lost_bit(op, value),
            ),
            ..r
        }),
{
}

/// `BIT` sets the zero flag exactly where a bit of an operand is clear.
pub proof fn law_bit_is_tested(machine: MachineState, bit: int, index: int)
    requires
        machine.executing(),
        0 <= bit < 8,
        0 <= index < 8,
        machine.plain(machine.registers.pc as int),
        machine.held(machine.registers.pc as int) == 0x40 + 8 * bit + index,
        index == 6 ==> machine.plain(machine.hl_address()),
    ensures
        ({
            let r = machine.registers;
            let digit = machine.operand8(index) as int / place(bit) % 2;
            machine.execute_opcode(0xCB).proceeds(
                machine,
                Registers {
                    pc: past(r.pc, 1),
                    f: flag_byte(digit == 0, false, true, carry_bit(r.f) == 1),
                    ..r
                },
                if index == 6 { 12 } else { 8 },
            )
        }),
{
    broadcast use lemma_proceeds;

    reveal(MachineState::exec_cb_bit);
    lemma_prefixed(machine, 1, bit, index);
    lemma_operand_read(machine.after_fetch8(), index);
    lemma_single_bit(machine.operand8(index), bit as u8);
}

/// `RES` clears a bit of an operand, `SET` sets it, and neither changes a flag.
pub proof fn law_bit_is_changed(machine: MachineState, on: bool, bit: int, index: int)
    requires
        machine.executing(),
        0 <= bit < 8,
        0 <= index < 8,
        machine.plain(machine.registers.pc as int),
        machine.held(machine.registers.pc as int) == (if on { 0xC0int } else { 0x80 }) + 8 * bit
            + index,
        index == 6 ==> machine.writable(machine.hl_address()),
    ensures
        ({
            let r = machine.registers;
            let value = machine.operand8(index);
            let digit = value as int / place(bit) % 2;
            let changed = machine.with_operand8(
                index,
                (value + ((if on { 1int } else { 0 }) - digit) * place(bit)) as u8,
            );
            machine.execute_opcode(0xCB).proceeds(
                changed,
                Registers { pc: past(r.pc, 1), ..changed.registers },
                if index == 6 { 16 } else { 8 },
            )
        }),
{
    broadcast use lemma_proceeds;

    reveal(MachineState::exec_cb_res);
    reveal(MachineState::exec_cb_set);
    lemma_prefixed(machine, if on { 3 } else { 2 }, bit, index);
    let value = machine.operand8(index);
    let digit = value as int / place(bit) % 2;
    lemma_operand_read(machine.after_fetch8(), index);
    lemma_single_bit(value, bit as u8);
    let read = machine.after_fetch8().after_read_in8(r8_in(index));
    let result = if on {
        value | (1u8 << (bit as u8))
    } else {
        value & !(1u8 << (bit as u8))
    };
    assert((0 - digit) * place(bit) == -(digit * place(bit))) by (nonlinear_arith);
    assert(result == value + ((if on { 1int } else { 0 }) - digit) * place(bit));
    lemma_operand_written(read, index, result);
}

/// `DAA` after an addition or a subtraction of bytes: six goes to, or from, each half that left the
/// decimal digits.
pub proof fn law_decimal_adjustment(machine: MachineState)
    requires
        machine.executing(),
    ensures
        ({
            let r = machine.registers;
            let subtracted = r.f as int / 64 % 2 == 1;
            let half = r.f as int / 32 % 2 == 1;
            let carry = carry_bit(r.f) == 1;
            let high = carry || !subtracted && r.a > 0x99;
            let low = half || !subtracted && r.a % 16 > 9;
            let amount = bit(high) * 0x60 + bit(low) * 0x06;
            let a = ((if subtracted { r.a - amount } else { r.a + amount }) % 256) as u8;
            machine.execute_opcode(0x27).proceeds(
                machine,
                Registers { a, f: flag_byte(a == 0, subtracted, false, high), ..r },
                4,
            )
        }),
{
    broadcast use group_bus;

    reveal(MachineState::execute_opcode);
    reveal(MachineState::execute_opcode_00_3f);
    reveal(MachineState::exec_accumulator_op);
}

proof fn lemma_compared(machine: MachineState)
    requires
        machine.at_ease(),
        machine.cycle_counter + 48 <= u64::MAX,
        !machine.ime,
        machine.registers.pc <= 0xFF00,
        machine.plain(machine.registers.pc as int),
        machine.plain(machine.registers.pc + 1),
    ensures
        ({
            let r = machine.registers;
            let n = machine.held(r.pc as int);
            let compared = machine.execute_opcode(0xFE);
            &&& compared.prefetched_pc == Some((r.pc + 1) as u16)
            &&& compared.prefetched_opcode == Some(machine.held(r.pc + 1))
            &&& compared.executing()
            &&& compared.registers.pc == r.pc + 2
            &&& compared.registers.sp == r.sp
            &&& compared.bootrom_active == machine.bootrom_active
            &&& forall|address: int| #[trigger] compared.held(address) == machine.held(address)
            &&& carry_bit(compared.registers.f) == bit(r.a < n)
            &&& zero_bit(compared.registers.f) == bit(r.a == n)
        }),
{
    law_arithmetic_with_an_immediate_byte(machine, 7);
    let r = machine.registers;
    let n = machine.held(r.pc as int);
    let half = r.a % 16 - n % 16 < 0;
    let f = flag_byte(r.a == n, true, half, r.a < n);
    assert(carry_bit(f) == bit(r.a < n) && zero_bit(f) == bit(r.a == n));
}

/// After a comparison with a byte, the jump on carry is taken exactly where the accumulator is less,
/// the one on no carry where it is not, and those on the zero flag where it is equal or not.
pub proof fn law_comparison_decides_the_jump(machine: MachineState, condition: int, opcode: u8)
    requires
        machine.at_ease(),
        machine.cycle_counter + 48 <= u64::MAX,
        !machine.ime,
        0 <= condition < 4,
        opcode == 0x20 + 8 * condition || opcode == 0xC2 + 8 * condition || opcode == 0xC4 + 8
            * condition || opcode == 0xC0 + 8 * condition,
        machine.registers.pc <= 0xFF00,
        machine.plain(machine.registers.pc as int),
        machine.plain(machine.registers.pc + 1),
        machine.plain(machine.registers.pc + 2),
        machine.plain(machine.registers.pc + 3),
        machine.held(machine.registers.pc + 1) == opcode,
        machine.can_push(),
        machine.can_pop(),
    ensures
        ({
            let r = machine.registers;
            let n = machine.held(r.pc as int);
            let compared = machine.execute_opcode(0xFE);
            let taken = seq![r.a != n, r.a == n, r.a >= n, r.a < n][condition];
            let relative = ((r.pc + 3 + offset_of(machine.held(r.pc + 2))) % 0x10000) as u16;
            let absolute = (256 * machine.held(r.pc + 3) + machine.held(r.pc + 2)) as u16;
            let after = MachineState {
                prefetched_pc: None,
                prefetched_opcode: None,
                ..compared
            }.execute_opcode(opcode);
            &&& compared.prefetched_pc == Some((r.pc + 1) as u16)
            &&& compared.prefetched_opcode == Some(opcode)
            &&& after.prefetched_pc == Some(
                if opcode < 0xC0 {
                    if taken {
                        relative
                    } else {
                        (r.pc + 3) as u16
                    }
                } else if opcode % 8 == 0 {
                    if taken {
                        machine.top_word()
                    } else {
                        (r.pc + 2) as u16
                    }
                } else {
                    if taken {
                        absolute
                    } else {
                        (r.pc + 4) as u16
                    }
                },
            )
        }),
{
    lemma_compared(machine);
    let compared = machine.execute_opcode(0xFE);
    let next = MachineState { prefetched_pc: None, prefetched_opcode: None, ..compared };
    assert(forall|address: int| #[trigger] next.held(address) == compared.held(address));
    let r = machine.registers;
    let n = machine.held(r.pc as int);
    let taken = seq![r.a != n, r.a == n, r.a >= n, r.a < n][condition];
    assert(met(condition, next.registers.f) == taken);
    if opcode < 0xC0 {
        law_relative_jump(next, condition);
    } else if opcode % 8 == 0 {
        law_return(next, condition);
    } else if opcode % 8 == 2 {
        law_jump(next, condition);
    } else {
        law_call(next, condition);
    }
}

} // verus!
