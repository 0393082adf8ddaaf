//! The machine: its state, what every operation keeps of it, and its interrupt requests.

use std::collections::VecDeque;

use vstd::prelude::*;

use crate::cartridge::{Cartridge, CartridgeState};
use crate::interface::{Breakpoint, TraceEntry, WatchpointHit};
use crate::model::GbModel;
use crate::registers::Registers;

verus! {

pub const ROM_BANK_0_END: u16 = 0x3FFF;

pub const ROM_BANK_N_END: u16 = 0x7FFF;

pub const VRAM_START: u16 = 0x8000;

pub const VRAM_END: u16 = 0x9FFF;

pub const WRAM_START: u16 = 0xC000;

pub const WRAM_END: u16 = 0xDFFF;

pub const ECHO_START: u16 = 0xE000;

pub const ECHO_END: u16 = 0xFDFF;

pub const OAM_START: u16 = 0xFE00;

pub const OAM_END: u16 = 0xFE9F;

pub const IO_START: u16 = 0xFF00;

pub const IO_END: u16 = 0xFF7F;

pub const SERIAL_SB: u16 = 0xFF01;

pub const SERIAL_SC: u16 = 0xFF02;

pub const TIMER_DIV: u16 = 0xFF04;

pub const TIMER_TIMA: u16 = 0xFF05;

pub const TIMER_TMA: u16 = 0xFF06;

pub const TIMER_TAC: u16 = 0xFF07;

pub const IF_REGISTER: u16 = 0xFF0F;

pub const APU_STATUS: u16 = 0xFF26;

pub const LCDC_REGISTER: u16 = 0xFF40;

pub const STAT_REGISTER: u16 = 0xFF41;

pub const SCROLL_X: u16 = 0xFF43;

pub const LY_REGISTER: u16 = 0xFF44;

pub const LYC_REGISTER: u16 = 0xFF45;

pub const DMA_REGISTER: u16 = 0xFF46;

pub const HRAM_START: u16 = 0xFF80;

pub const HRAM_END: u16 = 0xFFFE;

pub const IE_REGISTER: u16 = 0xFFFF;

pub const DEFAULT_RUN_LIMIT: usize = 1_000_000;

pub const FRAME_WIDTH: u32 = 160;

pub const FRAME_HEIGHT: u32 = 144;

pub const TRACE_CAPACITY: usize = 512;

pub const PPU_ACCESS_OAM_CYCLES: u16 = 20;

pub const PPU_ACCESS_VRAM_CYCLES: u16 = 43;

pub const PPU_HBLANK_CYCLES: u16 = 50;

pub const PPU_VBLANK_LINE_CYCLES: u16 = 114;

/// The bus that an access goes over.
#[derive(Debug, Clone, Copy, PartialEq, Eq, Structural)]
pub enum Bus {
    External,
    Internal,
    ExternalVideo,
    InternalVideo,
}

/// The access that disturbs a row of object memory.
#[derive(Debug, Clone, Copy, PartialEq, Eq, Structural)]
pub enum OamCorruptionKind {
    Read,
    Write,
}

/// What the picture unit does.
#[derive(Debug, Clone, Copy, PartialEq, Eq, Structural)]
pub enum PpuMode {
    HBlank,
    VBlank,
    AccessOam,
    AccessVram,
}

impl PpuMode {
    /// The mode's number in the status register.
    pub open spec fn number(self) -> u8 {
        match self {
            PpuMode::HBlank => 0,
            PpuMode::VBlank => 1,
            PpuMode::AccessOam => 2,
            PpuMode::AccessVram => 3,
        }
    }

    pub fn bits(self) -> (bits: u8)
        ensures
            bits == self.number(),
    {
        match self {
            PpuMode::HBlank => 0,
            PpuMode::VBlank => 1,
            PpuMode::AccessOam => 2,
            PpuMode::AccessVram => 3,
        }
    }
}

/// Where the timer is between an overflow and the end of the reload.
#[derive(Debug, Clone, Copy, PartialEq, Eq, Structural)]
pub enum TimaReloadState {
    OverflowDelay(u8),
    ReloadWindow(u8),
}

/// The buttons that are held, one bit each.
#[derive(Debug, Clone, Copy, PartialEq, Eq, Structural)]
pub struct JoypadState {
    pub pressed: u8,
}

impl Default for JoypadState {
    fn default() -> (joypad: Self)
        ensures
            joypad.pressed == 0,
    {
        JoypadState { pressed: 0 }
    }
}

/// What the processor does next.
#[derive(Debug, Clone, Copy, PartialEq, Eq, Structural)]
pub enum ExecState {
    Running,
    Halt,
    Stop,
    InterruptDispatch,
}

/// The machine.
pub struct GbMachine {
    pub cartridge: Cartridge,
    pub bootrom: Option<Box<[u8; 0x100]>>,
    pub bootrom_active: bool,
    pub model: GbModel,
    pub joypad: JoypadState,
    pub vram: [u8; 0x2000],
    pub wram: [u8; 0x2000],
    pub oam: [u8; 0xA0],
    pub io: [u8; 0x80],
    pub hram: [u8; 0x7F],
    pub ie: u8,
    pub registers: Registers,
    pub prefetched_pc: Option<u16>,
    pub prefetched_opcode: Option<u8>,
    pub breakpoints: Vec<Breakpoint>,
    pub ime: bool,
    pub exec_state: ExecState,
    pub instruction_counter: u64,
    pub cycle_counter: u64,
    pub div_counter: u16,
    pub tima_reload_state: Option<TimaReloadState>,
    pub ppu_cycle_counter: u16,
    pub ppu_mode: PpuMode,
    pub ppu_mode_cycles_remaining: u16,
    pub dma_source: u16,
    pub dma_active: bool,
    pub dma_requested_source: Option<u16>,
    pub dma_starting_source: Option<u16>,
    pub dma_next_byte: u16,
    pub pending_t34_interrupts: u8,
    pub pending_watchpoint: Option<WatchpointHit>,
    pub trace: VecDeque<TraceEntry>,
    pub serial_output: Vec<u8>,
}

/// What a machine holds.
#[verifier::ext_equal]
pub struct MachineState {
    pub cartridge: CartridgeState,
    pub bootrom: Option<Seq<u8>>,
    pub bootrom_active: bool,
    pub model: GbModel,
    pub joypad: JoypadState,
    pub vram: Seq<u8>,
    pub wram: Seq<u8>,
    pub oam: Seq<u8>,
    pub io: Seq<u8>,
    pub hram: Seq<u8>,
    pub ie: u8,
    pub registers: Registers,
    pub prefetched_pc: Option<u16>,
    pub prefetched_opcode: Option<u8>,
    pub breakpoints: Seq<Breakpoint>,
    pub ime: bool,
    pub exec_state: ExecState,
    pub instruction_counter: u64,
    pub cycle_counter: u64,
    pub div_counter: u16,
    pub tima_reload_state: Option<TimaReloadState>,
    pub ppu_cycle_counter: u16,
    pub ppu_mode: PpuMode,
    pub ppu_mode_cycles_remaining: u16,
    pub dma_source: u16,
    pub dma_active: bool,
    pub dma_requested_source: Option<u16>,
    pub dma_starting_source: Option<u16>,
    pub dma_next_byte: u16,
    pub pending_t34_interrupts: u8,
    pub pending_watchpoint: Option<WatchpointHit>,
    pub trace: Seq<TraceEntry>,
    pub serial_output: Seq<u8>,
}

impl View for GbMachine {
    type V = MachineState;

    open spec fn view(&self) -> MachineState {
        MachineState {
            cartridge: self.cartridge@,
            bootrom: match self.bootrom {
                Some(data) => Some(data@),
                None => None,
            },
            bootrom_active: self.bootrom_active,
            model: self.model,
            joypad: self.joypad,
            vram: self.vram@,
            wram: self.wram@,
            oam: self.oam@,
            io: self.io@,
            hram: self.hram@,
            ie: self.ie,
            registers: self.registers,
            prefetched_pc: self.prefetched_pc,
            prefetched_opcode: self.prefetched_opcode,
            breakpoints: self.breakpoints@,
            ime: self.ime,
            exec_state: self.exec_state,
            instruction_counter: self.instruction_counter,
            cycle_counter: self.cycle_counter,
            div_counter: self.div_counter,
            tima_reload_state: self.tima_reload_state,
            ppu_cycle_counter: self.ppu_cycle_counter,
            ppu_mode: self.ppu_mode,
            ppu_mode_cycles_remaining: self.ppu_mode_cycles_remaining,
            dma_source: self.dma_source,
            dma_active: self.dma_active,
            dma_requested_source: self.dma_requested_source,
            dma_starting_source: self.dma_starting_source,
            dma_next_byte: self.dma_next_byte,
            pending_t34_interrupts: self.pending_t34_interrupts,
            pending_watchpoint: self.pending_watchpoint,
            trace: self.trace@,
            serial_output: self.serial_output@,
        }
    }
}

impl MachineState {
    /// The byte of a hardware register.
    pub open spec fn reg(self, address: u16) -> u8 {
        self.io[address - IO_START]
    }

    pub open spec fn with_reg(self, address: u16, value: u8) -> MachineState {
        MachineState { io: self.io.update(address - IO_START, value), ..self }
    }

    pub open spec fn lcd_enabled(self) -> bool {
        self.reg(LCDC_REGISTER) & 0x80 != 0
    }

    /// While the display is on, the status register shows the mode of the picture unit.
    pub open spec fn stat_shows_mode(self) -> bool {
        self.lcd_enabled() ==> self.reg(STAT_REGISTER) == shown_stat(
            self.reg(STAT_REGISTER),
            self.ppu_mode,
        )
    }

    /// The memories have their sizes.
    pub open spec fn sized(self) -> bool {
        &&& self.bootrom is Some
        &&& self.bootrom->0.len() == 0x100
        &&& self.vram.len() == 0x2000
        &&& self.wram.len() == 0x2000
        &&& self.oam.len() == 0xA0
        &&& self.io.len() == 0x80
        &&& self.hram.len() == 0x7F
    }

    /// What holds of every machine between two operations.
    pub open spec fn wf(self) -> bool {
        &&& self.sized()
        &&& self.cartridge.wf()
        &&& self.ppu_cycle_counter + 4 <= u16::MAX
        &&& self.stat_shows_mode()
    }

    /// A machine that can count so many more clock cycles.
    pub open spec fn ready(self, cycles: int) -> bool {
        &&& self.wf()
        &&& self.cycle_counter + cycles <= u64::MAX
    }

    /// What no operation of the running machine changes or takes back.
    pub open spec fn keeps(self, before: MachineState) -> bool {
        &&& self.wf()
        &&& self.cartridge.same_cartridge(before.cartridge)
        &&& self.bootrom == before.bootrom
        &&& self.bootrom_active ==> before.bootrom_active
        &&& self.model == before.model
        &&& self.joypad == before.joypad
        &&& self.breakpoints == before.breakpoints
        &&& self.cycle_counter >= before.cycle_counter
        &&& self.extends_serial(before)
    }

    /// The serial output of before is still there.
    pub open spec fn extends_serial(self, before: MachineState) -> bool {
        &&& before.serial_output.len() <= self.serial_output.len()
        &&& forall|i: int|
            0 <= i < before.serial_output.len() ==> #[trigger] self.serial_output[i]
                == before.serial_output[i]
    }

    /// The processor's own state is as before.
    pub open spec fn same_cpu(self, before: MachineState) -> bool {
        &&& self.registers == before.registers
        &&& self.prefetched_pc == before.prefetched_pc
        &&& self.prefetched_opcode == before.prefetched_opcode
        &&& self.ime == before.ime
        &&& self.exec_state == before.exec_state
        &&& self.same_log(before)
    }

    /// What hardware does within one clock cycle.
    pub open spec fn at_once(self, before: MachineState) -> bool {
        &&& self.keeps(before)
        &&& self.same_cpu(before)
        &&& self.cycle_counter == before.cycle_counter
        &&& self.serial_output == before.serial_output
    }

    /// What a write does: no time passes, and one byte at most is sent.
    pub open spec fn written(self, before: MachineState) -> bool {
        &&& self.keeps(before)
        &&& self.same_cpu(before)
        &&& self.cycle_counter == before.cycle_counter
        &&& self.serial_output.len() <= before.serial_output.len() + 1
    }

    /// Instruction count and trace are as before.
    pub open spec fn same_log(self, before: MachineState) -> bool {
        &&& self.instruction_counter == before.instruction_counter
        &&& self.trace == before.trace
    }

    pub open spec fn request_interrupt(self, mask: u8) -> MachineState {
        self.with_reg(IF_REGISTER, self.reg(IF_REGISTER) | mask | 0xE0)
    }

    pub open spec fn request_interrupt_t34(self, mask: u8) -> MachineState {
        MachineState { pending_t34_interrupts: self.pending_t34_interrupts | mask, ..self }
    }

    /// Requests that were held back are raised.
    pub open spec fn flush_pending_t34_interrupts(self) -> MachineState {
        if self.pending_t34_interrupts != 0 {
            MachineState { pending_t34_interrupts: 0, ..self }.request_interrupt(
                self.pending_t34_interrupts,
            )
        } else {
            self
        }
    }

    /// The requests that are raised and enabled.
    pub open spec fn pending_interrupts(self) -> u8 {
        self.ie & self.reg(IF_REGISTER) & 0x1F
    }

    /// The lines of the selected button groups: a held button pulls its line low.
    pub open spec fn current_joypad_bits(self) -> u8 {
        joypad_lines(self.reg(IO_START), self.joypad.pressed)
    }

    pub open spec fn set_pressed_buttons_mask(self, pressed: u8) -> MachineState {
        let after = MachineState { joypad: JoypadState { pressed }, ..self };
        after.with_joypad_request(self.current_joypad_bits())
    }

    /// A line that went low requests the joypad interrupt.
    pub open spec fn with_joypad_request(self, previous: u8) -> MachineState {
        if previous & !self.current_joypad_bits() != 0 {
            self.request_interrupt(0x10)
        } else {
            self
        }
    }
}

/// A status register with the mode bits replaced and the unused bit set.
pub open spec fn shown_stat(stat: u8, mode: PpuMode) -> u8 {
    ((stat & 0xFC) | 0x80) | mode.number()
}

pub open spec fn joypad_lines(select: u8, pressed: u8) -> u8 {
    let directions: u8 = if select & 0x10 == 0 {
        pressed & 0x0F
    } else {
        0
    };
    let buttons: u8 = if select & 0x20 == 0 {
        pressed >> 4
    } else {
        0
    };
    0x0F & !(directions | buttons)
}

/// The pending request of the highest priority, which is the lowest bit, and its vector.
pub open spec fn highest_priority_interrupt(pending: u8) -> Option<(u8, u16)> {
    if pending & 0x01 != 0 {
        Some((0x01, 0x0040))
    } else if pending & 0x02 != 0 {
        Some((0x02, 0x0048))
    } else if pending & 0x04 != 0 {
        Some((0x04, 0x0050))
    } else if pending & 0x08 != 0 {
        Some((0x08, 0x0058))
    } else if pending & 0x10 != 0 {
        Some((0x10, 0x0060))
    } else {
        None
    }
}

/// Showing the mode again changes nothing, and the coincidence bit is independent of it.
pub proof fn lemma_shown_stat(stat: u8, mode: PpuMode)
    ensures
        shown_stat(shown_stat(stat, mode), mode) == shown_stat(stat, mode),
        shown_stat(stat | 0x04, mode) == shown_stat(stat, mode) | 0x04,
        shown_stat(stat & !0x04, mode) == shown_stat(stat, mode) & !0x04,
{
    let bits = mode.number();
    assert((((((stat & 0xFC) | 0x80) | bits) & 0xFC) | 0x80) | bits == ((stat & 0xFC) | 0x80) | bits
        && (((stat | 0x04) & 0xFC) | 0x80) | bits == (((stat & 0xFC) | 0x80) | bits) | 0x04 && (((
    stat & !0x04) & 0xFC) | 0x80) | bits == (((stat & 0xFC) | 0x80) | bits) & !0x04) by (bit_vector)
        requires
            bits <= 3,
    ;
}

impl GbMachine {
    /// Reads a hardware register.
    pub fn register(&self, address: u16) -> (value: u8)
        requires
            IO_START <= address <= IO_END,
        ensures
            value == self@.reg(address),
    {
        self.io[(address - IO_START) as usize]
    }

    /// Writes a hardware register.
    pub fn set_register(&mut self, address: u16, value: u8)
        requires
            IO_START <= address <= IO_END,
        ensures
            final(self)@ == old(self)@.with_reg(address, value),
    {
        self.io[(address - IO_START) as usize] = value;
    }

    pub fn request_interrupt(&mut self, mask: u8)
        requires
            old(self)@.wf(),
        ensures
            final(self)@ == old(self)@.request_interrupt(mask),
            final(self)@.at_once(old(self)@),
    {
        let value: u8 = self.register(IF_REGISTER) | mask | 0xE0;
        self.set_register(IF_REGISTER, value);
    }

    pub fn request_interrupt_t34(&mut self, mask: u8)
        requires
            old(self)@.wf(),
        ensures
            final(self)@ == old(self)@.request_interrupt_t34(mask),
            final(self)@.at_once(old(self)@),
    {
        self.pending_t34_interrupts = self.pending_t34_interrupts | mask;
    }

    pub fn flush_pending_t34_interrupts(&mut self)
        requires
            old(self)@.wf(),
        ensures
            final(self)@ == old(self)@.flush_pending_t34_interrupts(),
            final(self)@.at_once(old(self)@),
    {
        if self.pending_t34_interrupts != 0 {
            let mask: u8 = self.pending_t34_interrupts;
            self.pending_t34_interrupts = 0;
            self.request_interrupt(mask);
        }
    }

    pub fn pending_interrupts(&self) -> (pending: u8)
        ensures
            pending == self@.pending_interrupts(),
    {
        self.ie & self.register(IF_REGISTER) & 0x1F
    }

    pub fn highest_priority_interrupt(pending: u8) -> (found: Option<(u8, u16)>)
        ensures
            found == highest_priority_interrupt(pending),
    {
        if pending & 0x01 != 0 {
            Some((0x01, 0x0040))
        } else if pending & 0x02 != 0 {
            Some((0x02, 0x0048))
        } else if pending & 0x04 != 0 {
            Some((0x04, 0x0050))
        } else if pending & 0x08 != 0 {
            Some((0x08, 0x0058))
        } else if pending & 0x10 != 0 {
            Some((0x10, 0x0060))
        } else {
            None
        }
    }

    pub fn lcd_enabled(&self) -> (enabled: bool)
        ensures
            enabled == self@.lcd_enabled(),
    {
        self.register(LCDC_REGISTER) & 0x80 != 0
    }

    pub fn current_joypad_bits(&self) -> (bits: u8)
        ensures
            bits == self@.current_joypad_bits(),
    {
        let select: u8 = self.register(IO_START);
        let directions: u8 = if select & 0x10 == 0 {
            self.joypad.pressed & 0x0F
        } else {
            0
        };
        let buttons: u8 = if select & 0x20 == 0 {
            self.joypad.pressed >> 4
        } else {
            0
        };
        0x0F & !(directions | buttons)
    }

    /// Holds exactly the buttons of a mask.
    pub fn set_pressed_buttons_mask(&mut self, pressed: u8)
        requires
            old(self)@.wf(),
        ensures
            final(self)@ == old(self)@.set_pressed_buttons_mask(pressed),
            final(self)@.wf(),
    {
        let previous: u8 = self.current_joypad_bits();
        self.joypad.pressed = pressed;
        let current: u8 = self.current_joypad_bits();
        if previous & !current != 0 {
            self.request_interrupt(0x10);
        }
    }
}

} // verus!
