//! Power on: the state after a reset, and the boot ROM that stands in where none is given.

use std::collections::VecDeque;

use vstd::prelude::*;

use crate::bytes::filled;
use crate::cartridge::{header_fault, title_bytes, Cartridge, CartridgeState};
use crate::machine::{
    ExecState, GbMachine, JoypadState, MachineState, PpuMode, PPU_ACCESS_OAM_CYCLES, TRACE_CAPACITY,
};
use crate::model::{GbError, GbModel};
use crate::registers::Registers;

verus! {

/// The registers with which a cartridge's program is entered.
pub open spec fn boot_registers(model: GbModel) -> Registers {
    match model {
        GbModel::Dmg0 => Registers {
            a: 0x01,
            f: 0x00,
            b: 0xFF,
            c: 0x13,
            d: 0x00,
            e: 0xC1,
            h: 0x84,
            l: 0x03,
            sp: 0xFFFE,
            pc: 0x0100,
        },
        GbModel::Dmg | GbModel::Mgb => Registers {
            a: if model is Mgb {
                0xFF
            } else {
                0x01
            },
            f: 0xB0,
            b: 0x00,
            c: 0x13,
            d: 0x00,
            e: 0xD8,
            h: 0x01,
            l: 0x4D,
            sp: 0xFFFE,
            pc: 0x0100,
        },
        GbModel::Sgb | GbModel::Sgb2 => Registers {
            a: if model is Sgb2 {
                0xFF
            } else {
                0x01
            },
            f: 0x00,
            b: 0x00,
            c: 0x14,
            d: 0x00,
            e: 0x00,
            h: 0xC0,
            l: 0x60,
            sp: 0xFFFE,
            pc: 0x0100,
        },
    }
}

/// Whether a model is a cartridge for a larger console.
pub open spec fn is_super(model: GbModel) -> bool {
    model is Sgb || model is Sgb2
}

pub open spec fn boot_p1(model: GbModel) -> u8 {
    if is_super(model) {
        0xFF
    } else {
        0xCF
    }
}

/// The divider when a cartridge's program is entered.
pub open spec fn boot_div_counter(model: GbModel) -> u16 {
    match model {
        GbModel::Dmg0 => 0x0634,
        GbModel::Dmg => 0x2AF4,
        GbModel::Mgb => 0x2AF4,
        GbModel::Sgb => 0x3634,
        GbModel::Sgb2 => 0x3634,
    }
}

/// The clock cycles between switching the display on and entering the program.
pub open spec fn boot_lcdc_to_entry_cycles(model: GbModel) -> u16 {
    if model is Dmg0 {
        540
    } else {
        256
    }
}

/// The registers that the boot ROM writes, as offsets in their page, in its order; the display is
/// switched on last.
pub open spec fn boot_offsets() -> Seq<u8> {
    seq![
        0x00u8, 0x0F, 0x10, 0x11, 0x12, 0x13, 0x14, 0x16, 0x17, 0x18, 0x19, 0x1A, 0x1B, 0x1C, 0x1D,
        0x1E, 0x20, 0x21, 0x22, 0x23, 0x24, 0x25, 0x26, 0x41, 0x45, 0x47, 0x48, 0x49, 0x4A, 0x4B,
        0x40,
    ]
}

pub const BOOT_WRITES: usize = 31;

/// What the boot ROM writes to those registers.
pub open spec fn boot_values(model: GbModel) -> Seq<u8> {
    seq![
        boot_p1(model), 0xE1, 0x80, 0xBF, 0xF3, 0xFF, 0xBF, 0x3F, 0x00, 0xFF, 0xBF, 0x7F, 0xFF, 0x9F,
        0xFF, 0xBF, 0xFF, 0x00, 0x00, 0xBF, 0x77, 0xF3, if is_super(model) { 0xF0 } else { 0xF1 },
        if model is Dmg0 { 0x83 } else { 0x80 }, 0x00, 0xFC,
        if is_super(model) { 0x00 } else { 0xFF }, 0xFF, 0x00, 0x00, 0x91,
    ]
}

/// The clock cycles that the delay routine takes, with its counters set and its call.
pub open spec fn delay_call_cycles(outer: int, inner: int) -> int {
    16 * outer * inner + 12 * outer + 52
}

/// Counters for which the delay routine does not take too long.
pub open spec fn delay_fits(cycles: u16, outer: u8, inner: u8) -> bool {
    &&& outer >= 1
    &&& inner >= 1
    &&& delay_call_cycles(outer as int, inner as int) <= cycles
}

/// The single-byte instructions that fill the rest of a delay.
pub open spec fn delay_nops(cycles: u16, outer: u8, inner: u8) -> int {
    (cycles - delay_call_cycles(outer as int, inner as int)) / 4
}

/// Whether counters leave fewer instructions than others, or as many and come first.
pub open spec fn delay_precedes(cycles: u16, best: (u8, u8), other: (u8, u8)) -> bool {
    let (outer, inner) = best;
    let (other_outer, other_inner) = other;
    ||| delay_nops(cycles, outer, inner) < delay_nops(cycles, other_outer, other_inner)
    ||| {
        &&& delay_nops(cycles, outer, inner) == delay_nops(cycles, other_outer, other_inner)
        &&& outer < other_outer || (outer == other_outer && inner <= other_inner)
    }
}

/// The counters with the shortest code.
pub open spec fn is_best_delay(cycles: u16, best: (u8, u8)) -> bool {
    &&& delay_fits(cycles, best.0, best.1)
    &&& forall|outer: u8, inner: u8| #[trigger]
        delay_fits(cycles, outer, inner) ==> delay_precedes(cycles, best, (outer, inner))
}

/// Code that lets clock cycles pass: a call of the delay routine and single-byte instructions.
pub open spec fn delay_code(cycles: u16) -> Seq<u8> {
    if exists|best: (u8, u8)| is_best_delay(cycles, best) {
        let best = choose|best: (u8, u8)| is_best_delay(cycles, best);
        seq![0x06u8, best.0, 0x16, best.1, 0xCD, 0x02, 0x00] + filled(
            delay_nops(cycles, best.0, best.1) as nat,
            0,
        )
    } else {
        filled((cycles / 4) as nat, 0)
    }
}

/// Code that writes the registers: load the accumulator, store it.
pub open spec fn write_code(model: GbModel, count: nat) -> Seq<u8> {
    Seq::new(
        4 * count,
        |i: int|
            if i % 4 == 0 {
                0x3E
            } else if i % 4 == 1 {
                boot_values(model)[i / 4]
            } else if i % 4 == 2 {
                0xE0
            } else {
                boot_offsets()[i / 4]
            },
    )
}

/// The clock cycles of the boot ROM outside its delays.
pub open spec fn boot_fixed_cycles(model: GbModel) -> int {
    12 + BOOT_WRITES * 20 + 48 + (if boot_registers(model).f == 0xB0 {
        52int
    } else {
        44
    })
}

/// The delay that makes the divider come out right.
pub open spec fn boot_startup_delay(model: GbModel) -> u16 {
    (boot_div_counter(model) - boot_fixed_cycles(model) - boot_lcdc_to_entry_cycles(model)) as u16
}

/// A jump over the delay routine, and the routine.
pub open spec fn boot_prologue() -> Seq<u8> {
    seq![0x18u8, 0x08, 0x4A, 0x0D, 0x20, 0xFD, 0x05, 0x20, 0xF9, 0xC9]
}

/// The registers are loaded, the boot ROM takes itself away, and the program is entered.
pub open spec fn boot_epilogue(model: GbModel) -> Seq<u8> {
    let target = boot_registers(model);
    seq![
        0x31u8, 0xFE, 0xFF, 0x01, target.c, target.b, 0x11, target.e, target.d, 0x21, target.l,
        target.h,
    ] + (if target.f == 0xB0 {
        seq![0xAFu8, 0x37, 0xCB, 0x47]
    } else {
        seq![0xAFu8, 0x3C]
    }) + seq![0x3Eu8, target.a, 0xE0, 0x50, 0xC3, 0x00, 0x01]
}

pub open spec fn boot_code(model: GbModel) -> Seq<u8> {
    boot_prologue() + delay_code(boot_startup_delay(model)) + write_code(model, BOOT_WRITES as nat)
        + delay_code(boot_lcdc_to_entry_cycles(model)) + boot_epilogue(model)
}

/// The boot ROM that brings a model to its entry state.
pub open spec fn synthetic_bootrom(model: GbModel) -> Seq<u8> {
    boot_code(model) + filled((0x100 - boot_code(model).len()) as nat, 0)
}

/// A hardware register at power on.
pub open spec fn power_on_register(model: GbModel, index: int) -> u8 {
    if index == 0x00 {
        boot_p1(model)
    } else if index == 0x02 {
        0x7E
    } else if index == 0x07 {
        0xF8
    } else if index == 0x0F {
        0xE0
    } else if index == 0x26 {
        0x70
    } else if index == 0x01 || 0x04 <= index <= 0x06 || 0x10 <= index <= 0x14 || 0x16 <= index
        <= 0x1E || 0x20 <= index <= 0x25 || 0x40 <= index <= 0x45 || index == 0x4A || index
        == 0x4B {
        0x00
    } else {
        0xFF
    }
}

impl MachineState {
    /// A machine with power just on.
    pub open spec fn power_on(
        cartridge: CartridgeState,
        bootrom: Option<Seq<u8>>,
        model: GbModel,
    ) -> MachineState {
        MachineState {
            cartridge,
            bootrom,
            bootrom_active: bootrom is Some,
            model,
            joypad: JoypadState { pressed: 0 },
            vram: filled(0x2000, 0),
            wram: filled(0x2000, 0),
            oam: filled(0xA0, 0),
            io: Seq::new(0x80, |i: int| power_on_register(model, i)),
            hram: filled(0x7F, 0),
            ie: 0,
            registers: Registers::cleared(),
            prefetched_pc: Some(0),
            prefetched_opcode: Some(0),
            breakpoints: Seq::empty(),
            ime: false,
            exec_state: ExecState::Running,
            instruction_counter: 0,
            cycle_counter: 0,
            div_counter: 0,
            tima_reload_state: None,
            ppu_cycle_counter: 0,
            ppu_mode: PpuMode::AccessOam,
            ppu_mode_cycles_remaining: PPU_ACCESS_OAM_CYCLES,
            dma_source: 0,
            dma_active: false,
            dma_requested_source: None,
            dma_starting_source: None,
            dma_next_byte: 0,
            pending_t34_interrupts: 0,
            pending_watchpoint: None,
            trace: Seq::empty(),
            serial_output: Seq::empty(),
        }
    }

    /// Power on again: the cartridge keeps its RAM and clock.
    pub open spec fn reset(self) -> MachineState {
        MachineState::power_on(self.cartridge.after_reset(), self.bootrom, self.model)
    }
}

/// Why a machine cannot be made, if it cannot: the first reason, in this order.
pub open spec fn machine_fault(rom: Seq<u8>, bootrom: Option<Seq<u8>>) -> Option<GbError> {
    if rom.len() == 0 {
        Some(GbError::EmptyRom)
    } else if bootrom is Some && bootrom->0.len() != 0x100 {
        Some(GbError::InvalidBootromSize(bootrom->0.len() as usize))
    } else {
        header_fault(rom)
    }
}

/// The bytes of an optional vector.
pub open spec fn optional_bytes(bytes: Option<Vec<u8>>) -> Option<Seq<u8>> {
    match bytes {
        Some(found) => Some(found@),
        None => None,
    }
}

/// The machine of a ROM image, a model and a boot ROM.
pub open spec fn new_machine(
    rom: Seq<u8>,
    model: GbModel,
    bootrom: Option<Seq<u8>>,
) -> MachineState {
    MachineState::power_on(
        CartridgeState::fresh(rom),
        match bootrom {
            Some(bytes) => Some(bytes),
            None => Some(synthetic_bootrom(model)),
        },
        model,
    )
}

/// No two counters are both best.
proof fn lemma_best_delay_is_unique(cycles: u16, first: (u8, u8), second: (u8, u8))
    requires
        is_best_delay(cycles, first),
        is_best_delay(cycles, second),
    ensures
        first == second,
{
    assert(delay_fits(cycles, first.0, first.1));
    assert(delay_fits(cycles, second.0, second.1));
}

/// The best counters leave no more instructions than others that fit.
proof fn lemma_delay_len(cycles: u16, best: (u8, u8), outer: u8, inner: u8)
    requires
        is_best_delay(cycles, best),
        delay_fits(cycles, outer, inner),
    ensures
        delay_code(cycles).len() <= 7 + delay_nops(cycles, outer, inner),
{
    let chosen = choose|best: (u8, u8)| is_best_delay(cycles, best);
    lemma_best_delay_is_unique(cycles, best, chosen);
    assert(delay_fits(cycles, outer, inner));
}

fn delay_cycles(outer: u8, inner: u8) -> (cycles: u32)
    ensures
        cycles == delay_call_cycles(outer as int, inner as int),
{
    let o: u32 = outer as u32;
    let i: u32 = inner as u32;
    proof {
        assert(16 * o * i <= 16 * 255 * 255) by (nonlinear_arith)
            requires
                o <= 255,
                i <= 255,
        ;
    }
    16 * o * i + 12 * o + 52
}

/// Whether counters come before others in the order of the search.
spec fn searched(outer: u8, inner: u8, next_outer: int, next_inner: int) -> bool {
    outer < next_outer || (outer == next_outer && inner < next_inner)
}

/// Whether a result is the best of the counters that were searched.
spec fn best_so_far(
    cycles: u16,
    best: Option<(u8, u8)>,
    next_outer: int,
    next_inner: int,
) -> bool {
    match best {
        Some(found) => {
            &&& delay_fits(cycles, found.0, found.1)
            &&& searched(found.0, found.1, next_outer, next_inner)
            &&& forall|outer: u8, inner: u8| #[trigger]
                delay_fits(cycles, outer, inner) && searched(
                    outer,
                    inner,
                    next_outer,
                    next_inner,
                ) ==> delay_precedes(cycles, found, (outer, inner))
        },
        None => forall|outer: u8, inner: u8| #[trigger]
            delay_fits(cycles, outer, inner) ==> !searched(outer, inner, next_outer, next_inner),
    }
}

/// The counters with the shortest code, if any fit.
fn find_delay(cycles: u16) -> (found: Option<(u8, u8)>)
    ensures
        match found {
            Some(best) => is_best_delay(cycles, best),
            None => forall|outer: u8, inner: u8| !delay_fits(cycles, outer, inner),
        },
{
    let mut best: Option<(u8, u8)> = None;
    let mut outer: u16 = 1;
    while outer <= 255
        invariant
            1 <= outer <= 256,
            best_so_far(cycles, best, outer as int, 1),
        decreases 256 - outer,
    {
        let mut inner: u16 = 1;
        while inner <= 255
            invariant
                1 <= outer <= 255,
                1 <= inner <= 256,
                best_so_far(cycles, best, outer as int, inner as int),
            decreases 256 - inner,
        {
            let o: u8 = outer as u8;
            let i: u8 = inner as u8;
            let delay: u32 = delay_cycles(o, i);
            if delay <= cycles as u32 {
                assert(delay_fits(cycles, o, i));
                let nops: u32 = (cycles as u32 - delay) / 4;
                match best {
                    Some((best_outer, best_inner)) => {
                        let best_nops: u32 = (cycles as u32 - delay_cycles(best_outer, best_inner))
                            / 4;
                        if nops < best_nops {
                            best = Some((o, i));
                        }
                    },
                    None => {
                        best = Some((o, i));
                    },
                }
            }
            inner = inner + 1;
        }
        outer = outer + 1;
    }
    best
}

fn emit(code: &mut Vec<u8>, bytes: &[u8])
    ensures
        final(code)@ == old(code)@ + bytes@,
{
    code.extend_from_slice(bytes);
}

fn emit_nops(code: &mut Vec<u8>, count: u32)
    ensures
        final(code)@ == old(code)@ + filled(count as nat, 0),
{
    let ghost start = code@;
    let mut done: u32 = 0;
    while done < count
        invariant
            done <= count,
            code@ == start + filled(done as nat, 0),
        decreases count - done,
    {
        code.push(0);
        done = done + 1;
        assert(code@ =~= start + filled(done as nat, 0));
    }
}

fn emit_delay(code: &mut Vec<u8>, cycles: u16)
    ensures
        final(code)@ == old(code)@ + delay_code(cycles),
{
    match find_delay(cycles) {
        Some((outer, inner)) => {
            proof {
                lemma_best_delay_is_unique(
                    cycles,
                    (outer, inner),
                    choose|best: (u8, u8)| is_best_delay(cycles, best),
                );
            }
            let nops: u32 = (cycles as u32 - delay_cycles(outer, inner)) / 4;
            emit(code, &[0x06, outer, 0x16, inner, 0xCD, 0x02, 0x00]);
            emit_nops(code, nops);
            assert(code@ =~= old(code)@ + delay_code(cycles));
        },
        None => {
            emit_nops(code, (cycles / 4) as u32);
        },
    }
}

fn emit_ldh_write(code: &mut Vec<u8>, offset: u8, value: u8)
    ensures
        final(code)@ == old(code)@ + seq![0x3Eu8, value, 0xE0, offset],
{
    emit(code, &[0x3E, value, 0xE0, offset]);
    assert(code@ =~= old(code)@ + seq![0x3Eu8, value, 0xE0, offset]);
}

/// A fixed-size copy of 256 bytes.
fn boot_array(bytes: &Vec<u8>) -> (data: Box<[u8; 0x100]>)
    requires
        bytes@.len() == 0x100,
    ensures
        data@ == bytes@,
{
    let mut data: [u8; 0x100] = [0u8; 0x100];
    let mut i: usize = 0;
    while i < 0x100
        invariant
            i <= 0x100,
            bytes@.len() == 0x100,
            forall|j: int| 0 <= j < i ==> data@[j] == bytes@[j],
        decreases 0x100 - i,
    {
        data[i] = bytes[i];
        i = i + 1;
    }
    assert(data@ =~= bytes@);
    Box::new(data)
}

impl GbMachine {
    pub fn model_boot_registers(model: GbModel) -> (registers: Registers)
        ensures
            registers == boot_registers(model),
    {
        match model {
            GbModel::Dmg0 => Registers {
                a: 0x01,
                f: 0x00,
                b: 0xFF,
                c: 0x13,
                d: 0x00,
                e: 0xC1,
                h: 0x84,
                l: 0x03,
                sp: 0xFFFE,
                pc: 0x0100,
            },
            GbModel::Dmg => Registers {
                a: 0x01,
                f: 0xB0,
                b: 0x00,
                c: 0x13,
                d: 0x00,
                e: 0xD8,
                h: 0x01,
                l: 0x4D,
                sp: 0xFFFE,
                pc: 0x0100,
            },
            GbModel::Mgb => Registers {
                a: 0xFF,
                f: 0xB0,
                b: 0x00,
                c: 0x13,
                d: 0x00,
                e: 0xD8,
                h: 0x01,
                l: 0x4D,
                sp: 0xFFFE,
                pc: 0x0100,
            },
            GbModel::Sgb => Registers {
                a: 0x01,
                f: 0x00,
                b: 0x00,
                c: 0x14,
                d: 0x00,
                e: 0x00,
                h: 0xC0,
                l: 0x60,
                sp: 0xFFFE,
                pc: 0x0100,
            },
            GbModel::Sgb2 => Registers {
                a: 0xFF,
                f: 0x00,
                b: 0x00,
                c: 0x14,
                d: 0x00,
                e: 0x00,
                h: 0xC0,
                l: 0x60,
                sp: 0xFFFE,
                pc: 0x0100,
            },
        }
    }

    pub fn model_boot_p1(model: GbModel) -> (value: u8)
        ensures
            value == boot_p1(model),
    {
        match model {
            GbModel::Dmg0 | GbModel::Dmg | GbModel::Mgb => 0xCF,
            GbModel::Sgb | GbModel::Sgb2 => 0xFF,
        }
    }

    fn model_boot_stat(model: GbModel) -> (value: u8)
        ensures
            value == boot_values(model)[23],
    {
        match model {
            GbModel::Dmg0 => 0x83,
            _ => 0x80,
        }
    }

    fn model_boot_obp0(model: GbModel) -> (value: u8)
        ensures
            value == boot_values(model)[26],
    {
        match model {
            GbModel::Sgb | GbModel::Sgb2 => 0x00,
            _ => 0xFF,
        }
    }

    fn model_boot_nr52(model: GbModel) -> (value: u8)
        ensures
            value == boot_values(model)[22],
    {
        match model {
            GbModel::Sgb | GbModel::Sgb2 => 0xF0,
            _ => 0xF1,
        }
    }

    pub fn model_boot_div_counter(model: GbModel) -> (value: u16)
        ensures
            value == boot_div_counter(model),
    {
        match model {
            GbModel::Dmg0 => 0x0634,
            GbModel::Dmg | GbModel::Mgb => 0x2AF4,
            GbModel::Sgb | GbModel::Sgb2 => 0x3634,
        }
    }

    pub fn model_boot_lcdc_to_entry_cycles(model: GbModel) -> (cycles: u16)
        ensures
            cycles == boot_lcdc_to_entry_cycles(model),
    {
        match model {
            GbModel::Dmg0 => 540,
            _ => 256,
        }
    }

    /// The register that the boot ROM writes at a place of its order, and the value.
    fn boot_write(model: GbModel, index: usize) -> (write: (u8, u8))
        requires
            index < BOOT_WRITES,
        ensures
            write.0 == boot_offsets()[index as int],
            write.1 == boot_values(model)[index as int],
    {
        match index {
            0 => (0x00, Self::model_boot_p1(model)),
            1 => (0x0F, 0xE1),
            2 => (0x10, 0x80),
            3 => (0x11, 0xBF),
            4 => (0x12, 0xF3),
            5 => (0x13, 0xFF),
            6 => (0x14, 0xBF),
            7 => (0x16, 0x3F),
            8 => (0x17, 0x00),
            9 => (0x18, 0xFF),
            10 => (0x19, 0xBF),
            11 => (0x1A, 0x7F),
            12 => (0x1B, 0xFF),
            13 => (0x1C, 0x9F),
            14 => (0x1D, 0xFF),
            15 => (0x1E, 0xBF),
            16 => (0x20, 0xFF),
            17 => (0x21, 0x00),
            18 => (0x22, 0x00),
            19 => (0x23, 0xBF),
            20 => (0x24, 0x77),
            21 => (0x25, 0xF3),
            22 => (0x26, Self::model_boot_nr52(model)),
            23 => (0x41, Self::model_boot_stat(model)),
            24 => (0x45, 0x00),
            25 => (0x47, 0xFC),
            26 => (0x48, Self::model_boot_obp0(model)),
            27 => (0x49, 0xFF),
            28 => (0x4A, 0x00),
            29 => (0x4B, 0x00),
            _ => (0x40, 0x91),
        }
    }

    fn emit_boot_writes(code: &mut Vec<u8>, model: GbModel)
        ensures
            final(code)@ == old(code)@ + write_code(model, BOOT_WRITES as nat),
    {
        let ghost start = code@;
        let mut index: usize = 0;
        assert(code@ =~= start + write_code(model, 0));
        while index < BOOT_WRITES
            invariant
                index <= BOOT_WRITES,
                code@ == start + write_code(model, index as nat),
            decreases BOOT_WRITES - index,
        {
            let (offset, value): (u8, u8) = Self::boot_write(model, index);
            emit_ldh_write(code, offset, value);
            index = index + 1;
            assert(code@ =~= start + write_code(model, index as nat));
        }
    }

    fn emit_boot_epilogue(code: &mut Vec<u8>, model: GbModel)
        ensures
            final(code)@ == old(code)@ + boot_epilogue(model),
    {
        let target: Registers = Self::model_boot_registers(model);
        emit(code, &[0x31, 0xFE, 0xFF]);
        emit(code, &[0x01, target.c, target.b]);
        emit(code, &[0x11, target.e, target.d]);
        emit(code, &[0x21, target.l, target.h]);
        if target.f == 0xB0 {
            emit(code, &[0xAF, 0x37, 0xCB, 0x47]);
        } else {
            emit(code, &[0xAF, 0x3C]);
        }
        emit(code, &[0x3E, target.a]);
        emit(code, &[0xE0, 0x50]);
        emit(code, &[0xC3, 0x00, 0x01]);
        assert(code@ =~= old(code)@ + boot_epilogue(model));
    }

    /// A boot ROM that brings a model to its entry state.
    pub fn synthetic_bootrom(model: GbModel) -> (data: Box<[u8; 0x100]>)
        ensures
            data@ == synthetic_bootrom(model),
            boot_code(model).len() <= 0x100,
    {
        let target: Registers = Self::model_boot_registers(model);
        let flag_cycles: u16 = if target.f == 0xB0 {
            52
        } else {
            44
        };
        let fixed_cycles: u16 = 12 + (BOOT_WRITES as u16) * 20 + 48 + flag_cycles;
        let entry_cycles: u16 = Self::model_boot_lcdc_to_entry_cycles(model);
        let startup_delay_cycles: u16 = Self::model_boot_div_counter(model).saturating_sub(
            fixed_cycles + entry_cycles,
        );
        let mut code: Vec<u8> = Vec::new();
        emit(&mut code, &[0x18, 0x08]);
        emit(&mut code, &[0x4A, 0x0D, 0x20, 0xFD, 0x05, 0x20, 0xF9, 0xC9]);
        assert(code@ =~= boot_prologue());
        emit_delay(&mut code, startup_delay_cycles);
        Self::emit_boot_writes(&mut code, model);
        emit_delay(&mut code, entry_cycles);
        Self::emit_boot_epilogue(&mut code, model);
        assert(code@ == boot_code(model));
        proof {
            lemma_boot_code_fits(model);
        }
        let padding: u32 = (0x100 - code.len()) as u32;
        emit_nops(&mut code, padding);
        boot_array(&code)
    }

    fn power_on_register(model: GbModel, index: usize) -> (value: u8)
        requires
            index < 0x80,
        ensures
            value == power_on_register(model, index as int),
    {
        match index {
            0x00 => Self::model_boot_p1(model),
            0x02 => 0x7E,
            0x07 => 0xF8,
            0x0F => 0xE0,
            0x26 => 0x70,
            0x01
            | 0x04..=0x06
            | 0x10..=0x14
            | 0x16..=0x1E
            | 0x20..=0x25
            | 0x40..=0x45
            | 0x4A
            | 0x4B => 0x00,
            _ => 0xFF,
        }
    }

    fn power_on_registers(model: GbModel) -> (io: [u8; 0x80])
        ensures
            io@ == Seq::new(0x80, |i: int| power_on_register(model, i)),
    {
        let mut io: [u8; 0x80] = [0xFFu8; 0x80];
        let mut index: usize = 0;
        while index < 0x80
            invariant
                index <= 0x80,
                forall|i: int| 0 <= i < index ==> io@[i] == power_on_register(model, i),
            decreases 0x80 - index,
        {
            io[index] = Self::power_on_register(model, index);
            index = index + 1;
        }
        assert(io@ =~= Seq::new(0x80, |i: int| power_on_register(model, i)));
        io
    }

    /// Brings the machine to its state at power on.
    pub fn reset_state(&mut self)
        requires
            old(self)@.wf(),
        ensures
            final(self)@ == old(self)@.reset(),
            final(self)@.wf(),
    {
        let bootrom_active: bool = self.bootrom.is_some();
        self.cartridge.reset();
        self.vram = [0u8; 0x2000];
        self.wram = [0u8; 0x2000];
        self.oam = [0u8; 0xA0];
        self.io = Self::power_on_registers(self.model);
        self.hram = [0u8; 0x7F];
        self.ie = 0;
        self.registers = Registers::default();
        self.joypad = JoypadState { pressed: 0 };
        self.prefetched_pc = Some(self.registers.pc);
        self.prefetched_opcode = Some(0x00);
        self.breakpoints.clear();
        self.ime = false;
        self.exec_state = ExecState::Running;
        self.instruction_counter = 0;
        self.cycle_counter = 0;
        self.div_counter = 0;
        self.tima_reload_state = None;
        self.ppu_cycle_counter = 0;
        self.ppu_mode = PpuMode::AccessOam;
        self.ppu_mode_cycles_remaining = PPU_ACCESS_OAM_CYCLES;
        self.bootrom_active = bootrom_active;
        self.dma_source = 0;
        self.dma_active = false;
        self.dma_requested_source = None;
        self.dma_starting_source = None;
        self.dma_next_byte = 0;
        self.pending_t34_interrupts = 0;
        self.pending_watchpoint = None;
        self.trace.clear();
        self.serial_output.clear();
        proof {
            lemma_power_on_display();
        }
        assert(self@ =~= old(self)@.reset());
    }

    /// A machine of the common model, with its own boot ROM.
    pub fn new(rom: Vec<u8>) -> (machine: Result<Self, GbError>)
        ensures
            match machine_fault(rom@, None) {
                Some(fault) => machine == Err::<GbMachine, GbError>(fault),
                None => {
                    &&& machine is Ok
                    &&& machine->Ok_0@ == new_machine(rom@, GbModel::Dmg, None)
                    &&& machine->Ok_0@.wf()
                    &&& vstd::utf8::valid_utf8(title_bytes(rom@)) ==> machine->Ok_0@.cartridge.title
                        == vstd::utf8::decode_utf8(title_bytes(rom@))
                },
            },
    {
        Self::new_with_model(rom, GbModel::Dmg)
    }

    /// A machine of a model, with its own boot ROM.
    pub fn new_with_model(rom: Vec<u8>, model: GbModel) -> (machine: Result<Self, GbError>)
        ensures
            match machine_fault(rom@, None) {
                Some(fault) => machine == Err::<GbMachine, GbError>(fault),
                None => {
                    &&& machine is Ok
                    &&& machine->Ok_0@ == new_machine(rom@, model, None)
                    &&& machine->Ok_0@.wf()
                    &&& vstd::utf8::valid_utf8(title_bytes(rom@)) ==> machine->Ok_0@.cartridge.title
                        == vstd::utf8::decode_utf8(title_bytes(rom@))
                },
            },
    {
        Self::new_with_model_and_bootrom(rom, model, None)
    }

    /// A machine of a model, with a given boot ROM or its own.
    pub fn new_with_model_and_bootrom(
        rom: Vec<u8>,
        model: GbModel,
        bootrom: Option<Vec<u8>>,
    ) -> (machine: Result<Self, GbError>)
        ensures
            match machine_fault(rom@, optional_bytes(bootrom)) {
                Some(fault) => machine == Err::<GbMachine, GbError>(fault),
                None => {
                    &&& machine is Ok
                    &&& machine->Ok_0@ == new_machine(rom@, model, optional_bytes(bootrom))
                    &&& machine->Ok_0@.wf()
                    &&& vstd::utf8::valid_utf8(title_bytes(rom@)) ==> machine->Ok_0@.cartridge.title
                        == vstd::utf8::decode_utf8(title_bytes(rom@))
                },
            },
    {
        if rom.is_empty() {
            return Err(GbError::EmptyRom);
        }
        let bootrom: Option<Box<[u8; 0x100]>> = match bootrom {
            Some(bytes) => {
                if bytes.len() != 0x100 {
                    return Err(GbError::InvalidBootromSize(bytes.len()));
                }
                Some(boot_array(&bytes))
            },
            None => Some(Self::synthetic_bootrom(model)),
        };
        let cartridge: Cartridge = match Cartridge::new(rom) {
            Ok(cartridge) => cartridge,
            Err(error) => return Err(error),
        };
        let mut machine: GbMachine = GbMachine {
            cartridge,
            bootrom_active: bootrom.is_some(),
            bootrom,
            model,
            joypad: JoypadState { pressed: 0 },
            vram: [0u8; 0x2000],
            wram: [0u8; 0x2000],
            oam: [0u8; 0xA0],
            io: [0u8; 0x80],
            hram: [0u8; 0x7F],
            ie: 0,
            registers: Registers::default(),
            prefetched_pc: None,
            prefetched_opcode: None,
            breakpoints: Vec::new(),
            ime: false,
            exec_state: ExecState::Running,
            instruction_counter: 0,
            cycle_counter: 0,
            div_counter: 0,
            tima_reload_state: None,
            ppu_cycle_counter: 0,
            ppu_mode: PpuMode::AccessOam,
            ppu_mode_cycles_remaining: PPU_ACCESS_OAM_CYCLES,
            dma_source: 0,
            dma_active: false,
            dma_requested_source: None,
            dma_starting_source: None,
            dma_next_byte: 0,
            pending_t34_interrupts: 0,
            pending_watchpoint: None,
            trace: VecDeque::with_capacity(TRACE_CAPACITY),
            serial_output: Vec::new(),
        };
        proof {
            lemma_power_on_display();
        }
        machine.reset_state();
        Ok(machine)
    }
}

/// The display is off at power on.
proof fn lemma_power_on_display()
    ensures
        0x00u8 & 0x80 == 0,
{
    assert(0x00u8 & 0x80 == 0) by (bit_vector);
}

/// The boot ROM's code leaves room in its 256 bytes.
pub proof fn lemma_boot_code_fits(model: GbModel)
    ensures
        boot_code(model).len() <= 0x100,
{
    let startup = boot_startup_delay(model);
    let entry = boot_lcdc_to_entry_cycles(model);
    let witness: (u8, u8) = match model {
        GbModel::Dmg0 => (1, 16),
        GbModel::Dmg => (19, 32),
        GbModel::Mgb => (19, 32),
        GbModel::Sgb => (13, 61),
        GbModel::Sgb2 => (13, 61),
    };
    let entry_witness: (u8, u8) = if model is Dmg0 {
        (1, 29)
    } else {
        (1, 12)
    };
    lemma_delay_bound(startup, witness.0, witness.1);
    lemma_delay_bound(entry, entry_witness.0, entry_witness.1);
    assert(boot_epilogue(model).len() <= 23);
}

/// Counters that fit bound the length of a delay's code.
proof fn lemma_delay_bound(cycles: u16, outer: u8, inner: u8)
    requires
        delay_fits(cycles, outer, inner),
    ensures
        delay_code(cycles).len() <= 7 + delay_nops(cycles, outer, inner),
{
    if exists|best: (u8, u8)| is_best_delay(cycles, best) {
        let best = choose|best: (u8, u8)| is_best_delay(cycles, best);
        lemma_delay_len(cycles, best, outer, inner);
    } else {
        lemma_some_delay_is_best(cycles, (outer, inner));
    }
}

/// Where counters fit, some are best.
proof fn lemma_some_delay_is_best(cycles: u16, found: (u8, u8))
    requires
        delay_fits(cycles, found.0, found.1),
    ensures
        exists|best: (u8, u8)| is_best_delay(cycles, best),
    decreases delay_nops(cycles, found.0, found.1), found.0, found.1,
{
    if !is_best_delay(cycles, found) {
        let (outer, inner) = choose|outer: u8, inner: u8| #[trigger]
            delay_fits(cycles, outer, inner) && !delay_precedes(cycles, found, (outer, inner));
        lemma_some_delay_is_best(cycles, (outer, inner));
    }
}

} // verus!
