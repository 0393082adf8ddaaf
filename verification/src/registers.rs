//! The CPU register file: register pairs and flags.

use vstd::prelude::*;

use crate::interface::CpuRegisters;

verus! {

/// Zero flag in `f`.
pub const FLAG_Z: u8 = 0x80;

/// Subtract flag in `f`.
pub const FLAG_N: u8 = 0x40;

/// Half-carry flag in `f`.
pub const FLAG_H: u8 = 0x20;

/// Carry flag in `f`.
pub const FLAG_C: u8 = 0x10;

#[derive(Debug, Clone, Copy, PartialEq, Eq, Structural)]
pub struct Registers {
    pub a: u8,
    pub f: u8,
    pub b: u8,
    pub c: u8,
    pub d: u8,
    pub e: u8,
    pub h: u8,
    pub l: u8,
    pub sp: u16,
    pub pc: u16,
}

/// The 16-bit value of a high and a low byte.
pub open spec fn word(hi: u8, lo: u8) -> u16 {
    (hi * 256 + lo) as u16
}

/// The high byte of a 16-bit value.
pub open spec fn high(value: u16) -> u8 {
    (value / 256) as u8
}

/// The low byte of a 16-bit value.
pub open spec fn low(value: u16) -> u8 {
    (value % 256) as u8
}

/// The flag byte that holds exactly the four given flags.
pub open spec fn flags(z: bool, n: bool, h: bool, c: bool) -> u8 {
    ((if z {
        128int
    } else {
        0
    }) + (if n {
        64int
    } else {
        0
    }) + (if h {
        32int
    } else {
        0
    }) + (if c {
        16int
    } else {
        0
    })) as u8
}

pub open spec fn zero_of(f: u8) -> bool {
    f >= 128
}

pub open spec fn subtract_of(f: u8) -> bool {
    f / 64 % 2 == 1
}

pub open spec fn half_of(f: u8) -> bool {
    f / 32 % 2 == 1
}

pub open spec fn carry_of(f: u8) -> bool {
    f / 16 % 2 == 1
}

/// The flag byte with one flag replaced; the low four bits become zero.
pub open spec fn with_flag(f: u8, mask: u8, enabled: bool) -> u8 {
    flags(
        if mask == FLAG_Z {
            enabled
        } else {
            zero_of(f)
        },
        if mask == FLAG_N {
            enabled
        } else {
            subtract_of(f)
        },
        if mask == FLAG_H {
            enabled
        } else {
            half_of(f)
        },
        if mask == FLAG_C {
            enabled
        } else {
            carry_of(f)
        },
    )
}

/// Splits and joins 16-bit values.
pub fn high_byte(value: u16) -> (byte: u8)
    ensures
        byte == high(value),
{
    (value / 256) as u8
}

pub fn low_byte(value: u16) -> (byte: u8)
    ensures
        byte == low(value),
{
    (value % 256) as u8
}

pub fn join_bytes(hi: u8, lo: u8) -> (value: u16)
    ensures
        value == word(hi, lo),
{
    (hi as u16) * 256 + (lo as u16)
}

impl Registers {
    pub open spec fn cleared() -> Registers {
        Registers { a: 0, f: 0, b: 0, c: 0, d: 0, e: 0, h: 0, l: 0, sp: 0, pc: 0 }
    }

    pub open spec fn with_hl(self, value: u16) -> Registers {
        Registers { h: high(value), l: low(value), ..self }
    }

    pub open spec fn with_bc(self, value: u16) -> Registers {
        Registers { b: high(value), c: low(value), ..self }
    }

    pub open spec fn with_de(self, value: u16) -> Registers {
        Registers { d: high(value), e: low(value), ..self }
    }

    /// The low four bits of `f` cannot be written.
    pub open spec fn with_af(self, value: u16) -> Registers {
        Registers { a: high(value), f: (low(value) - low(value) % 16) as u8, ..self }
    }

    pub open spec fn with_f(self, f: u8) -> Registers {
        Registers { f, ..self }
    }

    /// Whether the four unused bits of `f` are zero.
    pub open spec fn flags_clean(self) -> bool {
        self.f % 16 == 0
    }

    pub open spec fn snapshot(self) -> CpuRegisters {
        CpuRegisters {
            pc: self.pc as u32,
            sp: self.sp as u32,
            a: self.a as u32,
            b: self.b as u32,
            c: self.c as u32,
            d: self.d as u32,
            e: self.e as u32,
            f: self.f as u32,
            h: self.h as u32,
            l: self.l as u32,
        }
    }

    pub fn as_snapshot(self) -> (registers: CpuRegisters)
        ensures
            registers == self.snapshot(),
    {
        CpuRegisters {
            pc: self.pc as u32,
            sp: self.sp as u32,
            a: self.a as u32,
            b: self.b as u32,
            c: self.c as u32,
            d: self.d as u32,
            e: self.e as u32,
            f: self.f as u32,
            h: self.h as u32,
            l: self.l as u32,
        }
    }

    pub fn set_hl(&mut self, value: u16)
        ensures
            *final(self) == old(self).with_hl(value),
    {
        self.h = high_byte(value);
        self.l = low_byte(value);
    }

    #[verifier::allow_in_spec]
    pub fn hl(self) -> u16
        returns
            word(self.h, self.l),
    {
        join_bytes(self.h, self.l)
    }

    pub fn set_bc(&mut self, value: u16)
        ensures
            *final(self) == old(self).with_bc(value),
    {
        self.b = high_byte(value);
        self.c = low_byte(value);
    }

    #[verifier::allow_in_spec]
    pub fn bc(self) -> u16
        returns
            word(self.b, self.c),
    {
        join_bytes(self.b, self.c)
    }

    pub fn set_de(&mut self, value: u16)
        ensures
            *final(self) == old(self).with_de(value),
    {
        self.d = high_byte(value);
        self.e = low_byte(value);
    }

    #[verifier::allow_in_spec]
    pub fn de(self) -> u16
        returns
            word(self.d, self.e),
    {
        join_bytes(self.d, self.e)
    }

    pub fn set_af(&mut self, value: u16)
        ensures
            *final(self) == old(self).with_af(value),
    {
        let lo: u8 = low_byte(value);
        assert(lo & 0xF0 == lo - lo % 16) by (bit_vector);
        self.a = high_byte(value);
        self.f = lo & 0xF0;
    }

    #[verifier::allow_in_spec]
    pub fn af(self) -> u16
        returns
            word(self.a, self.f),
    {
        join_bytes(self.a, self.f)
    }

    /// Sets or clears one flag; the low four bits of `f` read as zero afterwards.
    pub fn set_flag(&mut self, mask: u8, enabled: bool)
        requires
            mask == FLAG_Z || mask == FLAG_N || mask == FLAG_H || mask == FLAG_C,
        ensures
            *final(self) == old(self).with_f(with_flag(old(self).f, mask, enabled)),
    {
        let f: u8 = self.f;
        proof {
            lemma_masks(f, mask);
        }
        if enabled {
            self.f |= mask;
        } else {
            self.f &= !mask;
        }
        self.f &= 0xF0;
    }

    #[verifier::allow_in_spec]
    pub fn flag_z(&self) -> bool
        returns
            zero_of(self.f),
    {
        let f: u8 = self.f;
        assert(f & 0x80 != 0 <==> f >= 128) by (bit_vector);
        self.f & FLAG_Z != 0
    }

    #[verifier::allow_in_spec]
    pub fn flag_n(&self) -> bool
        returns
            subtract_of(self.f),
    {
        let f: u8 = self.f;
        assert(f & 0x40 != 0 <==> f / 64 % 2 == 1) by (bit_vector);
        self.f & FLAG_N != 0
    }

    #[verifier::allow_in_spec]
    pub fn flag_h(&self) -> bool
        returns
            half_of(self.f),
    {
        let f: u8 = self.f;
        assert(f & 0x20 != 0 <==> f / 32 % 2 == 1) by (bit_vector);
        self.f & FLAG_H != 0
    }

    #[verifier::allow_in_spec]
    pub fn flag_c(&self) -> bool
        returns
            carry_of(self.f),
    {
        let f: u8 = self.f;
        assert(f & 0x10 != 0 <==> f / 16 % 2 == 1) by (bit_vector);
        self.f & FLAG_C != 0
    }
}

impl Default for Registers {
    fn default() -> (registers: Self)
        ensures
            registers == Registers::cleared(),
    {
        Registers { a: 0, f: 0, b: 0, c: 0, d: 0, e: 0, h: 0, l: 0, sp: 0, pc: 0 }
    }
}

/// Setting or clearing a mask and dropping the low four bits replaces one flag.
proof fn lemma_masks(f: u8, mask: u8)
    requires
        mask == FLAG_Z || mask == FLAG_N || mask == FLAG_H || mask == FLAG_C,
    ensures
        (f | mask) & 0xF0 == with_flag(f, mask, true),
        (f & !mask) & 0xF0 == with_flag(f, mask, false),
{
    assert((f | mask) & 0xF0 == with_flag(f, mask, true) && (f & !mask) & 0xF0 == with_flag(
        f,
        mask,
        false,
    )) by (bit_vector)
        requires
            mask == FLAG_Z || mask == FLAG_N || mask == FLAG_H || mask == FLAG_C,
    ;
}

/// What is written to a register pair is read back, but for the unused bits of `f`.
pub proof fn law_register_pairs_read_back(registers: Registers, value: u16)
    ensures
        registers.with_hl(value).hl() == value,
        registers.with_bc(value).bc() == value,
        registers.with_de(value).de() == value,
        registers.with_af(value).af() == value - value % 16,
{
}

/// A flag byte reads back the four flags it was made of, and has no other bit set.
pub proof fn law_flags_read_back(z: bool, n: bool, h: bool, c: bool)
    ensures
        zero_of(flags(z, n, h, c)) == z,
        subtract_of(flags(z, n, h, c)) == n,
        half_of(flags(z, n, h, c)) == h,
        carry_of(flags(z, n, h, c)) == c,
        flags(z, n, h, c) % 16 == 0,
{
}

} // verus!
