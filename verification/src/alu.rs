//! Arithmetic and logic on the register file.

use vstd::prelude::*;

use crate::registers::{flags, law_flags_read_back, Registers, FLAG_C, FLAG_H, FLAG_N, FLAG_Z};

verus! {

/// The eight operations between the accumulator and an operand.
#[derive(Debug, Clone, Copy, PartialEq, Eq, Structural)]
pub enum AluOp8 {
    Add,
    Adc,
    Sub,
    Sbc,
    And,
    Xor,
    Or,
    Cp,
}

/// The one-byte operations on the accumulator and the flags.
#[derive(Debug, Clone, Copy, PartialEq, Eq, Structural)]
pub enum AccumulatorOp {
    Rlca,
    Rrca,
    Rla,
    Rra,
    Daa,
    Cpl,
    Scf,
    Ccf,
}

/// The rotates and shifts behind the `CB` prefix.
#[derive(Debug, Clone, Copy, PartialEq, Eq, Structural)]
pub enum ShiftOp {
    Rlc,
    Rrc,
    Rl,
    Rr,
    Sla,
    Sra,
    Swap,
    Srl,
}

/// 0 or 1.
pub open spec fn bit_value(on: bool) -> int {
    if on {
        1
    } else {
        0
    }
}

/// The signed value of a byte in two's complement.
pub open spec fn signed(value: u8) -> int {
    if value < 128 {
        value as int
    } else {
        value - 256
    }
}

/// The accumulator plus an operand and a carry of 0 or 1.
pub open spec fn sum8(r: Registers, value: u8, carry: int) -> Registers {
    let total = r.a + value + carry;
    Registers {
        a: (total % 256) as u8,
        f: flags(total % 256 == 0, false, r.a % 16 + value % 16 + carry > 15, total > 255),
        ..r
    }
}

/// The accumulator minus an operand and a borrow of 0 or 1.
pub open spec fn difference8(r: Registers, value: u8, borrow: int) -> Registers {
    let total = r.a - value - borrow;
    Registers {
        a: (total % 256) as u8,
        f: flags(total % 256 == 0, true, r.a % 16 < value % 16 + borrow, total < 0),
        ..r
    }
}

/// One operation between the accumulator and an operand.
pub open spec fn alu8(r: Registers, op: AluOp8, value: u8) -> Registers {
    match op {
        AluOp8::Add => sum8(r, value, 0),
        AluOp8::Adc => sum8(r, value, bit_value(r.flag_c())),
        AluOp8::Sub => difference8(r, value, 0),
        AluOp8::Sbc => difference8(r, value, bit_value(r.flag_c())),
        AluOp8::And => Registers {
            a: r.a & value,
            f: flags(r.a & value == 0, false, true, false),
            ..r
        },
        AluOp8::Xor => Registers {
            a: r.a ^ value,
            f: flags(r.a ^ value == 0, false, false, false),
            ..r
        },
        AluOp8::Or => Registers {
            a: r.a | value,
            f: flags(r.a | value == 0, false, false, false),
            ..r
        },
        AluOp8::Cp => Registers { a: r.a, ..difference8(r, value, 0) },
    }
}

/// The flags after a byte was incremented; the carry stays.
pub open spec fn incremented8(r: Registers, value: u8) -> Registers {
    r.with_f(flags(value == 255, false, value % 16 == 15, r.flag_c()))
}

/// The flags after a byte was decremented; the carry stays.
pub open spec fn decremented8(r: Registers, value: u8) -> Registers {
    r.with_f(flags(value == 1, true, value % 16 == 0, r.flag_c()))
}

/// `HL` plus a 16-bit operand; the zero flag stays.
pub open spec fn sum16(r: Registers, value: u16) -> Registers {
    let total = r.hl() + value;
    r.with_f(
        flags(r.flag_z(), false, r.hl() % 4096 + value % 4096 > 4095, total > 65535),
    ).with_hl((total % 65536) as u16)
}

/// `SP` plus a signed byte.
pub open spec fn sp_plus(r: Registers, value: u8) -> u16 {
    ((r.sp + signed(value)) % 65536) as u16
}

/// The flags after a signed byte was added to `SP`: carries out of the low nibble and byte.
pub open spec fn sp_plus_flags(r: Registers, value: u8) -> Registers {
    r.with_f(flags(false, false, r.sp % 16 + value % 16 > 15, r.sp % 256 + value > 255))
}

/// What `DAA` adds or subtracts, and the carry after it.
pub open spec fn daa_adjustment(r: Registers) -> (int, bool) {
    if r.flag_n() {
        (
            (if r.flag_c() {
                0x60int
            } else {
                0
            }) + (if r.flag_h() {
                0x06int
            } else {
                0
            }),
            r.flag_c(),
        )
    } else {
        let high = r.flag_c() || r.a > 0x99;
        (
            (if high {
                0x60int
            } else {
                0
            }) + (if r.flag_h() || r.a % 16 > 9 {
                0x06int
            } else {
                0
            }),
            high,
        )
    }
}

/// The accumulator turned into two decimal digits.
pub open spec fn decimal_adjusted(r: Registers) -> Registers {
    let (adjust, carry) = daa_adjustment(r);
    let a = (if r.flag_n() {
        (r.a - adjust) % 256
    } else {
        (r.a + adjust) % 256
    }) as u8;
    Registers { a, f: flags(a == 0, r.flag_n(), false, carry), ..r }
}

/// A rotated or shifted byte.
pub open spec fn shifted(op: ShiftOp, value: u8, carry: bool) -> u8 {
    (match op {
        ShiftOp::Rlc => value % 128 * 2 + value / 128,
        ShiftOp::Rrc => value / 2 + value % 2 * 128,
        ShiftOp::Rl => value % 128 * 2 + bit_value(carry),
        ShiftOp::Rr => value / 2 + bit_value(carry) * 128,
        ShiftOp::Sla => value % 128 * 2,
        ShiftOp::Sra => value / 2 + value / 128 * 128,
        ShiftOp::Swap => value % 16 * 16 + value / 16,
        ShiftOp::Srl => (value / 2) as int,
    }) as u8
}

/// The bit that a rotate or shift moves into the carry.
pub open spec fn shifted_out(op: ShiftOp, value: u8) -> bool {
    match op {
        ShiftOp::Rlc | ShiftOp::Rl | ShiftOp::Sla => value >= 128,
        ShiftOp::Rrc | ShiftOp::Rr | ShiftOp::Sra | ShiftOp::Srl => value % 2 == 1,
        ShiftOp::Swap => false,
    }
}

/// The flags after a rotate or shift.
pub open spec fn shift_flags(r: Registers, op: ShiftOp, value: u8) -> Registers {
    r.with_f(
        flags(shifted(op, value, r.flag_c()) == 0, false, false, shifted_out(op, value)),
    )
}

/// A rotate of the accumulator, which always clears the zero flag.
pub open spec fn accumulator_rotated(r: Registers, op: ShiftOp) -> Registers {
    Registers {
        a: shifted(op, r.a, r.flag_c()),
        f: flags(false, false, false, shifted_out(op, r.a)),
        ..r
    }
}

/// One operation on the accumulator and the flags.
pub open spec fn accumulator(r: Registers, op: AccumulatorOp) -> Registers {
    match op {
        AccumulatorOp::Rlca => accumulator_rotated(r, ShiftOp::Rlc),
        AccumulatorOp::Rrca => accumulator_rotated(r, ShiftOp::Rrc),
        AccumulatorOp::Rla => accumulator_rotated(r, ShiftOp::Rl),
        AccumulatorOp::Rra => accumulator_rotated(r, ShiftOp::Rr),
        AccumulatorOp::Daa => decimal_adjusted(r),
        AccumulatorOp::Cpl => Registers {
            a: (255 - r.a) as u8,
            f: flags(r.flag_z(), true, true, r.flag_c()),
            ..r
        },
        AccumulatorOp::Scf => r.with_f(flags(r.flag_z(), false, false, true)),
        AccumulatorOp::Ccf => r.with_f(flags(r.flag_z(), false, false, !r.flag_c())),
    }
}

/// The flags after a bit test; the carry stays.
pub open spec fn bit_tested(r: Registers, value: u8, bit: u8) -> Registers {
    r.with_f(flags(value & (1u8 << bit) == 0, false, true, r.flag_c()))
}

/// Masks of the low bits are remainders.
proof fn lemma_low_bits(value: u8)
    ensures
        value & 0x0F == value % 16,
{
    assert(value & 0x0F == value % 16) by (bit_vector);
}

proof fn lemma_low_bits16(value: u16)
    ensures
        value & 0x000F == value % 16,
        value & 0x00FF == value % 256,
        value & 0x0FFF == value % 4096,
{
    assert(value & 0x000F == value % 16 && value & 0x00FF == value % 256 && value & 0x0FFF == value
        % 4096) by (bit_vector);
}

/// The shifts and rotates in arithmetic.
proof fn lemma_shifts(value: u8, carry: u8)
    requires
        carry <= 1,
    ensures
        (value << 1) | (value >> 7) == value % 128 * 2 + value / 128,
        (value >> 1) | (value << 7) == value / 2 + value % 2 * 128,
        (value << 1) | carry == value % 128 * 2 + carry,
        (value >> 1) | (carry << 7) == value / 2 + carry * 128,
        value << 1 == value % 128 * 2,
        (value >> 1) | (value & 0x80) == value / 2 + value / 128 * 128,
        (value << 4) | (value >> 4) == value % 16 * 16 + value / 16,
        value >> 1 == value / 2,
        value & 0x80 != 0 <==> value >= 128,
        value & 0x01 != 0 <==> value % 2 == 1,
        !value == 255 - value,
{
    assert((value << 1) | (value >> 7) == value % 128 * 2 + value / 128 && (value >> 1) | (value
        << 7) == value / 2 + value % 2 * 128 && (value << 1) | carry == value % 128 * 2 + carry && (
    value >> 1) | (carry << 7) == value / 2 + carry * 128 && value << 1 == value % 128 * 2 && (value
        >> 1) | (value & 0x80) == value / 2 + value / 128 * 128 && (value << 4) | (value >> 4)
        == value % 16 * 16 + value / 16 && value >> 1 == value / 2 && (value & 0x80 != 0 <==> value
        >= 128) && (value & 0x01 != 0 <==> value % 2 == 1) && !value == 255 - value) by (bit_vector)
        requires
            carry <= 1,
    ;
}

impl Registers {
    fn carry_in(&self) -> (carry: u8)
        ensures
            carry == bit_value(self.flag_c()),
    {
        if self.flag_c() {
            1
        } else {
            0
        }
    }

    fn set_flags(&mut self, z: bool, n: bool, h: bool, c: bool)
        ensures
            *final(self) == old(self).with_f(flags(z, n, h, c)),
    {
        self.set_flag(FLAG_Z, z);
        self.set_flag(FLAG_N, n);
        self.set_flag(FLAG_H, h);
        self.set_flag(FLAG_C, c);
    }

    /// Flags for an incremented byte, and the byte.
    pub fn inc8(&mut self, value: u8) -> (result: u8)
        ensures
            *final(self) == incremented8(*old(self), value),
            result == (value + 1) % 256,
    {
        proof {
            lemma_low_bits(value);
        }
        let result: u8 = value.wrapping_add(1);
        self.set_flag(FLAG_Z, result == 0);
        self.set_flag(FLAG_N, false);
        self.set_flag(FLAG_H, (value & 0x0F) + 1 > 0x0F);
        result
    }

    /// Flags for a decremented byte, and the byte.
    pub fn dec8(&mut self, value: u8) -> (result: u8)
        ensures
            *final(self) == decremented8(*old(self), value),
            result == (value - 1) % 256,
    {
        proof {
            lemma_low_bits(value);
        }
        let result: u8 = value.wrapping_sub(1);
        self.set_flag(FLAG_Z, result == 0);
        self.set_flag(FLAG_N, true);
        self.set_flag(FLAG_H, (value & 0x0F) == 0);
        result
    }

    pub fn add16_hl(&mut self, value: u16)
        ensures
            *final(self) == sum16(*old(self), value),
    {
        let hl: u16 = self.hl();
        proof {
            lemma_low_bits16(hl);
            lemma_low_bits16(value);
        }
        let result: u16 = hl.wrapping_add(value);
        self.set_flag(FLAG_N, false);
        self.set_flag(FLAG_H, ((hl & 0x0FFF) + (value & 0x0FFF)) > 0x0FFF);
        self.set_flag(FLAG_C, (hl as u32) + (value as u32) > 0xFFFF);
        self.set_hl(result);
    }

    /// `SP` plus a signed byte, and its flags; `SP` itself stays.
    pub fn add_sp_signed(&mut self, value: u8) -> (result: u16)
        ensures
            *final(self) == sp_plus_flags(*old(self), value),
            result == sp_plus(*old(self), value),
    {
        let sp: u16 = self.sp;
        proof {
            lemma_low_bits16(sp);
            lemma_low_bits(value);
        }
        let result: u16 = sp.wrapping_add_signed(signed_byte(value) as i16);
        self.set_flags(
            false,
            false,
            ((sp & 0x000F) + ((value & 0x0F) as u16)) > 0x000F,
            ((sp & 0x00FF) + (value as u16)) > 0x00FF,
        );
        result
    }

    pub fn and8(&mut self, value: u8)
        ensures
            *final(self) == alu8(*old(self), AluOp8::And, value),
    {
        self.a &= value;
        self.set_flags(self.a == 0, false, true, false);
    }

    pub fn or8(&mut self, value: u8)
        ensures
            *final(self) == alu8(*old(self), AluOp8::Or, value),
    {
        self.a |= value;
        self.set_flags(self.a == 0, false, false, false);
    }

    pub fn xor8(&mut self, value: u8)
        ensures
            *final(self) == alu8(*old(self), AluOp8::Xor, value),
    {
        self.a ^= value;
        self.set_flags(self.a == 0, false, false, false);
    }

    pub fn cp8(&mut self, value: u8)
        ensures
            *final(self) == alu8(*old(self), AluOp8::Cp, value),
    {
        let a: u8 = self.a;
        proof {
            lemma_low_bits(a);
            lemma_low_bits(value);
        }
        let result: u8 = a.wrapping_sub(value);
        self.set_flags(result == 0, true, (a & 0x0F) < (value & 0x0F), a < value);
    }

    pub fn sub8(&mut self, value: u8)
        ensures
            *final(self) == alu8(*old(self), AluOp8::Sub, value),
    {
        let a: u8 = self.a;
        proof {
            lemma_low_bits(a);
            lemma_low_bits(value);
        }
        let result: u8 = a.wrapping_sub(value);
        self.a = result;
        self.set_flags(result == 0, true, (a & 0x0F) < (value & 0x0F), a < value);
    }

    pub fn sbc8(&mut self, value: u8)
        ensures
            *final(self) == alu8(*old(self), AluOp8::Sbc, value),
    {
        let carry: u8 = self.carry_in();
        let a: u8 = self.a;
        proof {
            lemma_low_bits(a);
            lemma_low_bits(value);
        }
        let result: u8 = a.wrapping_sub(value).wrapping_sub(carry);
        self.a = result;
        self.set_flags(
            result == 0,
            true,
            (a & 0x0F) < ((value & 0x0F) + carry),
            (a as u16) < (value as u16) + (carry as u16),
        );
    }

    pub fn add8(&mut self, value: u8)
        ensures
            *final(self) == alu8(*old(self), AluOp8::Add, value),
    {
        let a: u8 = self.a;
        proof {
            lemma_low_bits(a);
            lemma_low_bits(value);
        }
        let result: u8 = a.wrapping_add(value);
        self.a = result;
        self.set_flags(
            result == 0,
            false,
            ((a & 0x0F) + (value & 0x0F)) > 0x0F,
            (a as u16) + (value as u16) > 0xFF,
        );
    }

    pub fn adc8(&mut self, value: u8)
        ensures
            *final(self) == alu8(*old(self), AluOp8::Adc, value),
    {
        let carry: u8 = self.carry_in();
        let a: u8 = self.a;
        proof {
            lemma_low_bits(a);
            lemma_low_bits(value);
        }
        let result: u8 = a.wrapping_add(value).wrapping_add(carry);
        self.a = result;
        self.set_flags(
            result == 0,
            false,
            ((a & 0x0F) + (value & 0x0F) + carry) > 0x0F,
            (a as u16) + (value as u16) + (carry as u16) > 0xFF,
        );
    }

    /// The operation that a decoded opcode selects.
    pub fn apply_alu(&mut self, op: AluOp8, value: u8)
        ensures
            *final(self) == alu8(*old(self), op, value),
    {
        match op {
            AluOp8::Add => self.add8(value),
            AluOp8::Adc => self.adc8(value),
            AluOp8::Sub => self.sub8(value),
            AluOp8::Sbc => self.sbc8(value),
            AluOp8::And => self.and8(value),
            AluOp8::Xor => self.xor8(value),
            AluOp8::Or => self.or8(value),
            AluOp8::Cp => self.cp8(value),
        }
    }

    pub fn daa(&mut self)
        ensures
            *final(self) == accumulator(*old(self), AccumulatorOp::Daa),
    {
        let mut a: u8 = self.a;
        let mut adjust: u8 = 0;
        let mut carry: bool = self.flag_c();
        let n: bool = self.flag_n();
        let h: bool = self.flag_h();
        proof {
            lemma_low_bits(a);
        }
        if !n {
            if carry || a > 0x99 {
                adjust = adjust + 0x60;
                carry = true;
            }
            if h || (a & 0x0F) > 0x09 {
                adjust = adjust + 0x06;
            }
            a = a.wrapping_add(adjust);
        } else {
            if carry {
                adjust = adjust + 0x60;
            }
            if h {
                adjust = adjust + 0x06;
            }
            a = a.wrapping_sub(adjust);
        }
        self.a = a;
        self.set_flag(FLAG_Z, a == 0);
        self.set_flag(FLAG_H, false);
        self.set_flag(FLAG_C, carry);
    }

    pub fn rotate_a_left_circular(&mut self)
        ensures
            *final(self) == accumulator(*old(self), AccumulatorOp::Rlca),
    {
        let a: u8 = self.a;
        proof {
            lemma_shifts(a, 0);
        }
        self.a = (a << 1) | (a >> 7);
        self.set_flags(false, false, false, a & 0x80 != 0);
    }

    pub fn rotate_a_right_circular(&mut self)
        ensures
            *final(self) == accumulator(*old(self), AccumulatorOp::Rrca),
    {
        let a: u8 = self.a;
        proof {
            lemma_shifts(a, 0);
        }
        self.a = (a >> 1) | (a << 7);
        self.set_flags(false, false, false, a & 0x01 != 0);
    }

    pub fn rotate_a_left_through_carry(&mut self)
        ensures
            *final(self) == accumulator(*old(self), AccumulatorOp::Rla),
    {
        let carry: u8 = self.carry_in();
        let a: u8 = self.a;
        proof {
            lemma_shifts(a, carry);
        }
        self.a = (a << 1) | carry;
        self.set_flags(false, false, false, a & 0x80 != 0);
    }

    pub fn rotate_a_right_through_carry(&mut self)
        ensures
            *final(self) == accumulator(*old(self), AccumulatorOp::Rra),
    {
        let carry: u8 = self.carry_in();
        let a: u8 = self.a;
        proof {
            lemma_shifts(a, carry);
        }
        self.a = (a >> 1) | (carry << 7);
        self.set_flags(false, false, false, a & 0x01 != 0);
    }

    pub fn complement_a(&mut self)
        ensures
            *final(self) == accumulator(*old(self), AccumulatorOp::Cpl),
    {
        let a: u8 = self.a;
        proof {
            lemma_shifts(a, 0);
        }
        self.a = !a;
        self.set_flag(FLAG_N, true);
        self.set_flag(FLAG_H, true);
    }

    pub fn complement_carry_flag(&mut self)
        ensures
            *final(self) == accumulator(*old(self), AccumulatorOp::Ccf),
    {
        let carry: bool = !self.flag_c();
        self.set_flag(FLAG_N, false);
        self.set_flag(FLAG_H, false);
        self.set_flag(FLAG_C, carry);
    }

    pub fn set_carry_flag(&mut self)
        ensures
            *final(self) == accumulator(*old(self), AccumulatorOp::Scf),
    {
        self.set_flag(FLAG_N, false);
        self.set_flag(FLAG_H, false);
        self.set_flag(FLAG_C, true);
    }

    /// The operation that a decoded opcode selects.
    pub fn apply_accumulator_op(&mut self, op: AccumulatorOp)
        ensures
            *final(self) == accumulator(*old(self), op),
    {
        match op {
            AccumulatorOp::Rlca => self.rotate_a_left_circular(),
            AccumulatorOp::Rrca => self.rotate_a_right_circular(),
            AccumulatorOp::Rla => self.rotate_a_left_through_carry(),
            AccumulatorOp::Rra => self.rotate_a_right_through_carry(),
            AccumulatorOp::Daa => self.daa(),
            AccumulatorOp::Cpl => self.complement_a(),
            AccumulatorOp::Scf => self.set_carry_flag(),
            AccumulatorOp::Ccf => self.complement_carry_flag(),
        }
    }

    /// A rotated or shifted byte, and its flags.
    pub fn shift8(&mut self, op: ShiftOp, value: u8) -> (result: u8)
        ensures
            *final(self) == shift_flags(*old(self), op, value),
            result == shifted(op, value, old(self).flag_c()),
    {
        let carry: u8 = self.carry_in();
        proof {
            lemma_shifts(value, carry);
        }
        let (result, carry_out): (u8, bool) = match op {
            ShiftOp::Rlc => ((value << 1) | (value >> 7), value & 0x80 != 0),
            ShiftOp::Rrc => ((value >> 1) | (value << 7), value & 0x01 != 0),
            ShiftOp::Rl => ((value << 1) | carry, value & 0x80 != 0),
            ShiftOp::Rr => ((value >> 1) | (carry << 7), value & 0x01 != 0),
            ShiftOp::Sla => (value << 1, value & 0x80 != 0),
            ShiftOp::Sra => ((value >> 1) | (value & 0x80), value & 0x01 != 0),
            ShiftOp::Swap => ((value << 4) | (value >> 4), false),
            ShiftOp::Srl => (value >> 1, value & 0x01 != 0),
        };
        self.set_flags(result == 0, false, false, carry_out);
        result
    }

    /// The flags of a bit test.
    pub fn test_bit(&mut self, value: u8, bit: u8)
        requires
            bit < 8,
        ensures
            *final(self) == bit_tested(*old(self), value, bit),
    {
        self.set_flag(FLAG_Z, value & (1u8 << bit) == 0);
        self.set_flag(FLAG_N, false);
        self.set_flag(FLAG_H, true);
    }
}

/// A byte as a signed number.
pub fn signed_byte(value: u8) -> (result: i8)
    ensures
        result == signed(value),
{
    assert(value < 128 ==> value as i8 == value) by (bit_vector);
    assert(value >= 128 ==> value as i8 == value - 256) by (bit_vector);
    value as i8
}

/// After two bytes of two decimal digits each were added, `DAA` leaves the two decimal digits of
/// their sum, and a carry where it reaches a hundred.
pub proof fn law_daa_adds_decimals(r: Registers, tens: int, ones: int, tens2: int, ones2: int)
    requires
        0 <= tens < 10,
        0 <= ones < 10,
        0 <= tens2 < 10,
        0 <= ones2 < 10,
        r.a == tens * 16 + ones,
    ensures
        ({
            let value = (tens2 * 16 + ones2) as u8;
            let sum = tens * 10 + ones + tens2 * 10 + ones2;
            let done = accumulator(alu8(r, AluOp8::Add, value), AccumulatorOp::Daa);
            &&& done.a == sum % 100 / 10 * 16 + sum % 10
            &&& done.flag_c() == (sum >= 100)
        }),
{
    let value = (tens2 * 16 + ones2) as u8;
    let low = ones + ones2;
    let high = tens + tens2;
    let total = high * 16 + low;
    let mid = alu8(r, AluOp8::Add, value);
    assert(r.a % 16 == ones && value % 16 == ones2 && r.a + value == total);
    law_flags_read_back(total % 256 == 0, false, low > 15, total > 255);
    lemma_decimal_sum(high, low);
    let (adjust, carry) = daa_adjustment(mid);
    let done = decimal_adjusted(mid);
    law_flags_read_back(done.a == 0, false, false, carry);
}

/// The adjustment of a sum of decimal digits that was made in hexadecimal.
proof fn lemma_decimal_sum(high: int, low: int)
    requires
        0 <= high <= 18,
        0 <= low <= 18,
    ensures
        ({
            let total = high * 16 + low;
            let carry = total > 255 || total % 256 > 0x99;
            let adjust = (if carry {
                0x60int
            } else {
                0
            }) + (if low > 15 || total % 256 % 16 > 9 {
                0x06int
            } else {
                0
            });
            let sum = high * 10 + low;
            &&& (total % 256 + adjust) % 256 == sum % 100 / 10 * 16 + sum % 10
            &&& carry == (sum >= 100)
        }),
{
    let total = high * 16 + low;
    let sum = high * 10 + low;
    let carried: int = if low > 9 {
        1
    } else {
        0
    };
    let tens = high + carried;
    let units = low - 10 * carried;
    assert(total % 256 % 16 == total % 16);
    assert(total % 16 == (if low > 15 {
        low - 16
    } else {
        low
    }));
    assert(sum == tens * 10 + units && 0 <= units <= 9);
    assert(sum % 10 == units);
    let hundreds: int = if tens > 9 {
        1
    } else {
        0
    };
    assert(sum % 100 == (tens - 10 * hundreds) * 10 + units);
    assert(sum % 100 / 10 == tens - 10 * hundreds);
    let wrap: int = if total > 255 {
        1
    } else {
        0
    };
    assert(total % 256 == total - 256 * wrap);
}

/// Rotating a byte left and then right, or the other way round, gives it back; so does exchanging
/// its halves twice.
pub proof fn law_rotations_invert(value: u8, carry: bool)
    ensures
        shifted(ShiftOp::Rrc, shifted(ShiftOp::Rlc, value, carry), carry) == value,
        shifted(ShiftOp::Rlc, shifted(ShiftOp::Rrc, value, carry), carry) == value,
        shifted(ShiftOp::Swap, shifted(ShiftOp::Swap, value, carry), carry) == value,
        shifted(
            ShiftOp::Rr,
            shifted(ShiftOp::Rl, value, carry),
            shifted_out(ShiftOp::Rl, value),
        ) == value,
{
    let left = shifted(ShiftOp::Rlc, value, carry);
    assert(left == value % 128 * 2 + value / 128);
    assert(left / 2 == value % 128 && left % 2 == value / 128);
    let right = shifted(ShiftOp::Rrc, value, carry);
    assert(right == value / 2 + value % 2 * 128);
    assert(right % 128 == value / 2 && right / 128 == value % 2);
    let swapped = shifted(ShiftOp::Swap, value, carry);
    assert(swapped % 16 == value / 16 && swapped / 16 == value % 16);
    let through = shifted(ShiftOp::Rl, value, carry);
    assert(through / 2 == value % 128);
}

/// `CPL` twice gives the accumulator back.
pub proof fn law_complement_inverts(r: Registers)
    ensures
        accumulator(accumulator(r, AccumulatorOp::Cpl), AccumulatorOp::Cpl).a == r.a,
{
}

/// A comparison sets the flags of a subtraction and leaves the accumulator alone.
pub proof fn law_compare_is_subtract(r: Registers, value: u8)
    ensures
        alu8(r, AluOp8::Cp, value).f == alu8(r, AluOp8::Sub, value).f,
        alu8(r, AluOp8::Cp, value).a == r.a,
{
}

/// No operation of this module sets one of the four unused bits of `f`.
pub proof fn law_alu_keeps_flags_clean(
    r: Registers,
    op: AluOp8,
    accumulator_op: AccumulatorOp,
    shift: ShiftOp,
    value: u8,
    wide: u16,
    bit: u8,
)
    ensures
        alu8(r, op, value).flags_clean(),
        accumulator(r, accumulator_op).flags_clean(),
        shift_flags(r, shift, value).flags_clean(),
        incremented8(r, value).flags_clean(),
        decremented8(r, value).flags_clean(),
        sum16(r, wide).flags_clean(),
        sp_plus_flags(r, value).flags_clean(),
        bit_tested(r, value, bit).flags_clean(),
{
}

} // verus!
