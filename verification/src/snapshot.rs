//! Saved states of the whole machine.

use std::collections::VecDeque;

use vstd::prelude::*;

use crate::boot::{machine_fault, optional_bytes, synthetic_bootrom};
use crate::bytes::copy_bytes;
use crate::cartridge::Cartridge;
use crate::interface::{Breakpoint, StopReason, TraceEntry, WatchpointHit};
use crate::machine::{
    ExecState, GbMachine, JoypadState, MachineState, PpuMode, TimaReloadState,
};
use crate::model::{GbError, GbModel};
use crate::registers::Registers;

verus! {

/// A breakpoint in a saved state.
#[derive(Debug, Clone, Copy, PartialEq, Eq, Structural)]
pub enum SnapshotBreakpoint {
    ProgramCounter(u32),
    Opcode(u8),
    MemoryRead(u32),
    MemoryWrite(u32),
}

/// A trace entry in a saved state, with its stop reason as a number.
#[derive(Debug, Clone, Copy, PartialEq, Eq, Structural)]
pub struct SnapshotTraceEntry {
    pub instruction_counter: u64,
    pub pc: u16,
    pub opcode: u8,
    pub a: u8,
    pub f: u8,
    pub b: u8,
    pub c: u8,
    pub d: u8,
    pub e: u8,
    pub h: u8,
    pub l: u8,
    pub sp: u16,
    pub stop_reason: u8,
}

/// A saved state.
#[derive(Debug)]
pub struct SnapshotState {
    pub cartridge: Cartridge,
    pub bootrom: Option<Vec<u8>>,
    pub bootrom_active: bool,
    pub model: GbModel,
    pub joypad: JoypadState,
    pub vram: Vec<u8>,
    pub wram: Vec<u8>,
    pub oam: Vec<u8>,
    pub io: Vec<u8>,
    pub hram: Vec<u8>,
    pub ie: u8,
    pub registers: Registers,
    pub prefetched_pc: Option<u16>,
    pub prefetched_opcode: Option<u8>,
    pub breakpoints: Vec<SnapshotBreakpoint>,
    pub ime: bool,
    pub ime_enable_delay: u8,
    pub exec_state: ExecState,
    pub halted: bool,
    pub halt_bug: bool,
    pub instruction_counter: u64,
    pub cycle_counter: u64,
    pub div_counter: u16,
    pub tima_reload_state: Option<TimaReloadState>,
    pub ppu_cycle_counter: u16,
    pub ppu_mode: PpuMode,
    pub ppu_mode_cycles_remaining: u16,
    pub dma_source: u16,
    pub dma_active: bool,
    pub dma_requested_source: Option<u16>,
    pub dma_starting_source: Option<u16>,
    pub dma_next_byte: u16,
    pub pending_t34_interrupts: u8,
    pub pending_watchpoint: Option<WatchpointHit>,
    pub deferred_interrupt_flags: u8,
    pub deferred_interrupt_delay: u8,
    pub trace: Vec<SnapshotTraceEntry>,
    pub serial_output: Vec<u8>,
}

pub open spec fn saved_breakpoint(breakpoint: Breakpoint) -> SnapshotBreakpoint {
    match breakpoint {
        Breakpoint::ProgramCounter(value) => SnapshotBreakpoint::ProgramCounter(value),
        Breakpoint::Opcode(value) => SnapshotBreakpoint::Opcode(value),
        Breakpoint::MemoryRead(value) => SnapshotBreakpoint::MemoryRead(value),
        Breakpoint::MemoryWrite(value) => SnapshotBreakpoint::MemoryWrite(value),
    }
}

pub open spec fn loaded_breakpoint(breakpoint: SnapshotBreakpoint) -> Breakpoint {
    match breakpoint {
        SnapshotBreakpoint::ProgramCounter(value) => Breakpoint::ProgramCounter(value),
        SnapshotBreakpoint::Opcode(value) => Breakpoint::Opcode(value),
        SnapshotBreakpoint::MemoryRead(value) => Breakpoint::MemoryRead(value),
        SnapshotBreakpoint::MemoryWrite(value) => Breakpoint::MemoryWrite(value),
    }
}

/// The number of a stop reason in a saved state.
pub open spec fn stop_reason_number(reason: StopReason) -> u8 {
    match reason {
        StopReason::StepComplete => 0,
        StopReason::BreakpointHit => 1,
        StopReason::WatchpointHit => 2,
        StopReason::Halted => 3,
        StopReason::FrameComplete => 4,
        StopReason::RunLimitReached => 5,
    }
}

/// The stop reason of a number; numbers that no reason has stand for the last.
pub open spec fn numbered_stop_reason(number: u8) -> StopReason {
    if number == 0 {
        StopReason::StepComplete
    } else if number == 1 {
        StopReason::BreakpointHit
    } else if number == 2 {
        StopReason::WatchpointHit
    } else if number == 3 {
        StopReason::Halted
    } else if number == 4 {
        StopReason::FrameComplete
    } else {
        StopReason::RunLimitReached
    }
}

pub open spec fn saved_entry(entry: TraceEntry) -> SnapshotTraceEntry {
    SnapshotTraceEntry {
        instruction_counter: entry.instruction_counter,
        pc: entry.pc,
        opcode: entry.opcode,
        a: entry.a,
        f: entry.f,
        b: entry.b,
        c: entry.c,
        d: entry.d,
        e: entry.e,
        h: entry.h,
        l: entry.l,
        sp: entry.sp,
        stop_reason: stop_reason_number(entry.stop_reason),
    }
}

pub open spec fn loaded_entry(entry: SnapshotTraceEntry) -> TraceEntry {
    TraceEntry {
        instruction_counter: entry.instruction_counter,
        pc: entry.pc,
        opcode: entry.opcode,
        a: entry.a,
        f: entry.f,
        b: entry.b,
        c: entry.c,
        d: entry.d,
        e: entry.e,
        h: entry.h,
        l: entry.l,
        sp: entry.sp,
        stop_reason: numbered_stop_reason(entry.stop_reason),
    }
}

impl From<Breakpoint> for SnapshotBreakpoint {
    fn from(value: Breakpoint) -> (breakpoint: Self) {
        match value {
            Breakpoint::ProgramCounter(value) => SnapshotBreakpoint::ProgramCounter(value),
            Breakpoint::Opcode(value) => SnapshotBreakpoint::Opcode(value),
            Breakpoint::MemoryRead(value) => SnapshotBreakpoint::MemoryRead(value),
            Breakpoint::MemoryWrite(value) => SnapshotBreakpoint::MemoryWrite(value),
        }
    }
}

impl vstd::std_specs::convert::FromSpecImpl<Breakpoint> for SnapshotBreakpoint {
    open spec fn obeys_from_spec() -> bool {
        true
    }

    open spec fn from_spec(value: Breakpoint) -> Self {
        saved_breakpoint(value)
    }
}

impl From<SnapshotBreakpoint> for Breakpoint {
    fn from(value: SnapshotBreakpoint) -> (breakpoint: Self) {
        match value {
            SnapshotBreakpoint::ProgramCounter(value) => Breakpoint::ProgramCounter(value),
            SnapshotBreakpoint::Opcode(value) => Breakpoint::Opcode(value),
            SnapshotBreakpoint::MemoryRead(value) => Breakpoint::MemoryRead(value),
            SnapshotBreakpoint::MemoryWrite(value) => Breakpoint::MemoryWrite(value),
        }
    }
}

impl vstd::std_specs::convert::FromSpecImpl<SnapshotBreakpoint> for Breakpoint {
    open spec fn obeys_from_spec() -> bool {
        true
    }

    open spec fn from_spec(value: SnapshotBreakpoint) -> Self {
        loaded_breakpoint(value)
    }
}

impl From<TraceEntry> for SnapshotTraceEntry {
    fn from(value: TraceEntry) -> (entry: Self) {
        SnapshotTraceEntry {
            instruction_counter: value.instruction_counter,
            pc: value.pc,
            opcode: value.opcode,
            a: value.a,
            f: value.f,
            b: value.b,
            c: value.c,
            d: value.d,
            e: value.e,
            h: value.h,
            l: value.l,
            sp: value.sp,
            stop_reason: match value.stop_reason {
                StopReason::StepComplete => 0,
                StopReason::BreakpointHit => 1,
                StopReason::WatchpointHit => 2,
                StopReason::Halted => 3,
                StopReason::FrameComplete => 4,
                StopReason::RunLimitReached => 5,
            },
        }
    }
}

impl vstd::std_specs::convert::FromSpecImpl<TraceEntry> for SnapshotTraceEntry {
    open spec fn obeys_from_spec() -> bool {
        true
    }

    open spec fn from_spec(value: TraceEntry) -> Self {
        saved_entry(value)
    }
}

impl From<SnapshotTraceEntry> for TraceEntry {
    fn from(value: SnapshotTraceEntry) -> (entry: Self) {
        TraceEntry {
            instruction_counter: value.instruction_counter,
            pc: value.pc,
            opcode: value.opcode,
            a: value.a,
            f: value.f,
            b: value.b,
            c: value.c,
            d: value.d,
            e: value.e,
            h: value.h,
            l: value.l,
            sp: value.sp,
            stop_reason: match value.stop_reason {
                0 => StopReason::StepComplete,
                1 => StopReason::BreakpointHit,
                2 => StopReason::WatchpointHit,
                3 => StopReason::Halted,
                4 => StopReason::FrameComplete,
                _ => StopReason::RunLimitReached,
            },
        }
    }
}

impl vstd::std_specs::convert::FromSpecImpl<SnapshotTraceEntry> for TraceEntry {
    open spec fn obeys_from_spec() -> bool {
        true
    }

    open spec fn from_spec(value: SnapshotTraceEntry) -> Self {
        loaded_entry(value)
    }
}

impl SnapshotState {
    /// Whether a saved state holds exactly what a machine holds.
    pub open spec fn describes(self, machine: MachineState) -> bool {
        &&& self.cartridge@ == machine.cartridge
        &&& optional_bytes(self.bootrom) == machine.bootrom
        &&& self.bootrom_active == machine.bootrom_active
        &&& self.model == machine.model
        &&& self.joypad == machine.joypad
        &&& self.vram@ == machine.vram
        &&& self.wram@ == machine.wram
        &&& self.oam@ == machine.oam
        &&& self.io@ == machine.io
        &&& self.hram@ == machine.hram
        &&& self.ie == machine.ie
        &&& self.registers == machine.registers
        &&& self.prefetched_pc == machine.prefetched_pc
        &&& self.prefetched_opcode == machine.prefetched_opcode
        &&& self.breakpoints@ == machine.breakpoints.map_values(
            |breakpoint: Breakpoint| saved_breakpoint(breakpoint),
        )
        &&& self.ime == machine.ime
        &&& self.ime_enable_delay == 0
        &&& self.exec_state == machine.exec_state
        &&& self.halted == machine.halted()
        &&& !self.halt_bug
        &&& self.instruction_counter == machine.instruction_counter
        &&& self.cycle_counter == machine.cycle_counter
        &&& self.div_counter == machine.div_counter
        &&& self.tima_reload_state == machine.tima_reload_state
        &&& self.ppu_cycle_counter == machine.ppu_cycle_counter
        &&& self.ppu_mode == machine.ppu_mode
        &&& self.ppu_mode_cycles_remaining == machine.ppu_mode_cycles_remaining
        &&& self.dma_source == machine.dma_source
        &&& self.dma_active == machine.dma_active
        &&& self.dma_requested_source == machine.dma_requested_source
        &&& self.dma_starting_source == machine.dma_starting_source
        &&& self.dma_next_byte == machine.dma_next_byte
        &&& self.pending_t34_interrupts == machine.pending_t34_interrupts
        &&& self.pending_watchpoint == machine.pending_watchpoint
        &&& self.deferred_interrupt_flags == 0
        &&& self.deferred_interrupt_delay == 0
        &&& self.trace@ == machine.trace.map_values(|entry: TraceEntry| saved_entry(entry))
        &&& self.serial_output@ == machine.serial_output
    }

    /// Whether two saved states hold the same.
    pub open spec fn same_state(self, other: SnapshotState) -> bool {
        &&& self.cartridge@ == other.cartridge@
        &&& optional_bytes(self.bootrom) == optional_bytes(other.bootrom)
        &&& self.bootrom_active == other.bootrom_active
        &&& self.model == other.model
        &&& self.joypad == other.joypad
        &&& self.vram@ == other.vram@
        &&& self.wram@ == other.wram@
        &&& self.oam@ == other.oam@
        &&& self.io@ == other.io@
        &&& self.hram@ == other.hram@
        &&& self.ie == other.ie
        &&& self.registers == other.registers
        &&& self.prefetched_pc == other.prefetched_pc
        &&& self.prefetched_opcode == other.prefetched_opcode
        &&& self.breakpoints@ == other.breakpoints@
        &&& self.ime == other.ime
        &&& self.ime_enable_delay == other.ime_enable_delay
        &&& self.exec_state == other.exec_state
        &&& self.halted == other.halted
        &&& self.halt_bug == other.halt_bug
        &&& self.instruction_counter == other.instruction_counter
        &&& self.cycle_counter == other.cycle_counter
        &&& self.div_counter == other.div_counter
        &&& self.tima_reload_state == other.tima_reload_state
        &&& self.ppu_cycle_counter == other.ppu_cycle_counter
        &&& self.ppu_mode == other.ppu_mode
        &&& self.ppu_mode_cycles_remaining == other.ppu_mode_cycles_remaining
        &&& self.dma_source == other.dma_source
        &&& self.dma_active == other.dma_active
        &&& self.dma_requested_source == other.dma_requested_source
        &&& self.dma_starting_source == other.dma_starting_source
        &&& self.dma_next_byte == other.dma_next_byte
        &&& self.pending_t34_interrupts == other.pending_t34_interrupts
        &&& self.pending_watchpoint == other.pending_watchpoint
        &&& self.deferred_interrupt_flags == other.deferred_interrupt_flags
        &&& self.deferred_interrupt_delay == other.deferred_interrupt_delay
        &&& self.trace@ == other.trace@
        &&& self.serial_output@ == other.serial_output@
    }

    /// Whether the memories of a saved state have all their bytes.
    pub open spec fn complete(self) -> bool {
        &&& self.vram@.len() >= 0x2000
        &&& self.wram@.len() >= 0x2000
        &&& self.oam@.len() >= 0xA0
        &&& self.io@.len() >= 0x80
        &&& self.hram@.len() >= 0x7F
    }

    /// Whether the numbers of a saved state are such that a machine can go on with them.
    pub open spec fn sound(self) -> bool {
        &&& self.cartridge@.sound()
        &&& self.ppu_cycle_counter + 4 <= u16::MAX
    }

    /// Why no machine can be made of a saved state, if none can.
    pub open spec fn fault(self) -> Option<GbError> {
        machine_fault(self.cartridge@.rom, optional_bytes(self.bootrom))
    }

    /// What the processor does next. A state that is marked as halted is halted or stopped.
    pub open spec fn resumed_exec_state(self) -> ExecState {
        if self.halted && self.exec_state != ExecState::Stop {
            ExecState::Halt
        } else {
            self.exec_state
        }
    }

    /// The machine of a saved state.
    pub open spec fn machine(self) -> MachineState {
        MachineState {
            cartridge: self.cartridge@,
            bootrom: match self.bootrom {
                Some(bytes) => Some(bytes@),
                None => Some(synthetic_bootrom(self.model)),
            },
            bootrom_active: self.bootrom_active,
            model: self.model,
            joypad: self.joypad,
            vram: self.vram@.take(0x2000),
            wram: self.wram@.take(0x2000),
            oam: self.oam@.take(0xA0),
            io: self.io@.take(0x80),
            hram: self.hram@.take(0x7F),
            ie: self.ie,
            registers: self.registers,
            prefetched_pc: self.prefetched_pc,
            prefetched_opcode: self.prefetched_opcode,
            breakpoints: self.breakpoints@.map_values(
                |breakpoint: SnapshotBreakpoint| loaded_breakpoint(breakpoint),
            ),
            ime: self.ime,
            exec_state: self.resumed_exec_state(),
            instruction_counter: self.instruction_counter,
            cycle_counter: self.cycle_counter,
            div_counter: self.div_counter,
            tima_reload_state: self.tima_reload_state,
            ppu_cycle_counter: self.ppu_cycle_counter,
            ppu_mode: self.ppu_mode,
            ppu_mode_cycles_remaining: self.ppu_mode_cycles_remaining,
            dma_source: self.dma_source,
            dma_active: self.dma_active,
            dma_requested_source: self.dma_requested_source,
            dma_starting_source: self.dma_starting_source,
            dma_next_byte: self.dma_next_byte,
            pending_t34_interrupts: self.pending_t34_interrupts,
            pending_watchpoint: self.pending_watchpoint,
            trace: self.trace@.map_values(|entry: SnapshotTraceEntry| loaded_entry(entry)),
            serial_output: self.serial_output@,
        }.refresh_stat()
    }
}

impl SnapshotState {
    /// Whether a machine can be made of a saved state, and can go on.
    pub fn is_usable(&self) -> (usable: bool)
        ensures
            usable == (self.complete() && self.sound()),
    {
        self.vram.len() >= 0x2000 && self.wram.len() >= 0x2000 && self.oam.len() >= 0xA0
            && self.io.len() >= 0x80 && self.hram.len() >= 0x7F && self.cartridge.is_sound()
            && self.ppu_cycle_counter <= 0xFFFF - 4
    }
}

fn first_bytes<const N: usize>(bytes: &Vec<u8>, mut data: [u8; N]) -> (result: [u8; N])
    requires
        bytes@.len() >= N,
    ensures
        result@ == bytes@.take(N as int),
{
    let mut i: usize = 0;
    while i < N
        invariant
            i <= N,
            bytes@.len() >= N,
            forall|j: int| 0 <= j < i ==> data@[j] == bytes@[j],
        decreases N - i,
    {
        data[i] = bytes[i];
        i = i + 1;
    }
    assert(data@ =~= bytes@.take(N as int));
    data
}

fn save_breakpoints(breakpoints: &Vec<Breakpoint>) -> (saved: Vec<SnapshotBreakpoint>)
    ensures
        saved@ == breakpoints@.map_values(|breakpoint: Breakpoint| saved_breakpoint(breakpoint)),
{
    let mut saved: Vec<SnapshotBreakpoint> = Vec::new();
    let mut i: usize = 0;
    while i < breakpoints.len()
        invariant
            i <= breakpoints@.len(),
            saved@.len() == i,
            forall|j: int| 0 <= j < i ==> saved@[j] == saved_breakpoint(breakpoints@[j]),
        decreases breakpoints@.len() - i,
    {
        saved.push(SnapshotBreakpoint::from(breakpoints[i]));
        i = i + 1;
    }
    assert(saved@ =~= breakpoints@.map_values(
        |breakpoint: Breakpoint| saved_breakpoint(breakpoint),
    ));
    saved
}

fn load_breakpoints(saved: &Vec<SnapshotBreakpoint>) -> (breakpoints: Vec<Breakpoint>)
    ensures
        breakpoints@ == saved@.map_values(
            |breakpoint: SnapshotBreakpoint| loaded_breakpoint(breakpoint),
        ),
{
    let mut breakpoints: Vec<Breakpoint> = Vec::new();
    let mut i: usize = 0;
    while i < saved.len()
        invariant
            i <= saved@.len(),
            breakpoints@.len() == i,
            forall|j: int| 0 <= j < i ==> breakpoints@[j] == loaded_breakpoint(saved@[j]),
        decreases saved@.len() - i,
    {
        breakpoints.push(Breakpoint::from(saved[i]));
        i = i + 1;
    }
    assert(breakpoints@ =~= saved@.map_values(
        |breakpoint: SnapshotBreakpoint| loaded_breakpoint(breakpoint),
    ));
    breakpoints
}

fn save_trace(trace: &VecDeque<TraceEntry>) -> (saved: Vec<SnapshotTraceEntry>)
    ensures
        saved@ == trace@.map_values(|entry: TraceEntry| saved_entry(entry)),
{
    let mut saved: Vec<SnapshotTraceEntry> = Vec::new();
    let mut i: usize = 0;
    while i < trace.len()
        invariant
            i <= trace@.len(),
            saved@.len() == i,
            forall|j: int| 0 <= j < i ==> saved@[j] == saved_entry(trace@[j]),
        decreases trace@.len() - i,
    {
        saved.push(SnapshotTraceEntry::from(trace[i]));
        i = i + 1;
    }
    assert(saved@ =~= trace@.map_values(|entry: TraceEntry| saved_entry(entry)));
    saved
}

fn load_trace(saved: &Vec<SnapshotTraceEntry>) -> (trace: VecDeque<TraceEntry>)
    ensures
        trace@ == saved@.map_values(|entry: SnapshotTraceEntry| loaded_entry(entry)),
{
    let mut trace: VecDeque<TraceEntry> = VecDeque::new();
    let mut i: usize = 0;
    while i < saved.len()
        invariant
            i <= saved@.len(),
            trace@.len() == i,
            forall|j: int| 0 <= j < i ==> trace@[j] == loaded_entry(saved@[j]),
        decreases saved@.len() - i,
    {
        trace.push_back(TraceEntry::from(saved[i]));
        i = i + 1;
    }
    assert(trace@ =~= saved@.map_values(|entry: SnapshotTraceEntry| loaded_entry(entry)));
    trace
}

fn copy_optional_bytes(bytes: &Option<Vec<u8>>) -> (copy: Option<Vec<u8>>)
    ensures
        optional_bytes(copy) == optional_bytes(*bytes),
{
    match bytes {
        Some(found) => Some(copy_bytes(found)),
        None => None,
    }
}

impl GbMachine {
    fn bootrom_bytes(&self) -> (bytes: Option<Vec<u8>>)
        ensures
            optional_bytes(bytes) == self@.bootrom,
    {
        match &self.bootrom {
            Some(data) => Some(vstd::slice::slice_to_vec(data.as_slice())),
            None => None,
        }
    }

    /// Everything that the machine holds.
    pub fn save_state(&self) -> (state: Result<SnapshotState, GbError>)
        ensures
            state is Ok,
            state->Ok_0.describes(self@),
    {
        Ok(
            SnapshotState {
                cartridge: self.cartridge.clone(),
                bootrom: self.bootrom_bytes(),
                bootrom_active: self.bootrom_active,
                model: self.model,
                joypad: self.joypad,
                vram: vstd::slice::slice_to_vec(&self.vram),
                wram: vstd::slice::slice_to_vec(&self.wram),
                oam: vstd::slice::slice_to_vec(&self.oam),
                io: vstd::slice::slice_to_vec(&self.io),
                hram: vstd::slice::slice_to_vec(&self.hram),
                ie: self.ie,
                registers: self.registers,
                prefetched_pc: self.prefetched_pc,
                prefetched_opcode: self.prefetched_opcode,
                breakpoints: save_breakpoints(&self.breakpoints),
                ime: self.ime,
                ime_enable_delay: 0,
                exec_state: self.exec_state,
                halted: matches!(self.exec_state, ExecState::Halt | ExecState::Stop),
                halt_bug: false,
                instruction_counter: self.instruction_counter,
                cycle_counter: self.cycle_counter,
                div_counter: self.div_counter,
                tima_reload_state: self.tima_reload_state,
                ppu_cycle_counter: self.ppu_cycle_counter,
                ppu_mode: self.ppu_mode,
                ppu_mode_cycles_remaining: self.ppu_mode_cycles_remaining,
                dma_source: self.dma_source,
                dma_active: self.dma_active,
                dma_requested_source: self.dma_requested_source,
                dma_starting_source: self.dma_starting_source,
                dma_next_byte: self.dma_next_byte,
                pending_t34_interrupts: self.pending_t34_interrupts,
                pending_watchpoint: self.pending_watchpoint,
                deferred_interrupt_flags: 0,
                deferred_interrupt_delay: 0,
                trace: save_trace(&self.trace),
                serial_output: copy_bytes(&self.serial_output),
            },
        )
    }

    /// The machine of a saved state.
    pub fn load_state(state: &SnapshotState) -> (machine: Result<Self, GbError>)
        requires
            state.complete(),
        ensures
            match state.fault() {
                Some(fault) => machine == Err::<GbMachine, GbError>(fault),
                None => {
                    &&& machine is Ok
                    &&& machine->Ok_0@ == state.machine()
                    &&& state.sound() ==> machine->Ok_0@.wf()
                },
            },
    {
        let mut machine: GbMachine = match GbMachine::new_with_model_and_bootrom(
            copy_bytes(&state.cartridge.rom),
            state.model,
            copy_optional_bytes(&state.bootrom),
        ) {
            Ok(machine) => machine,
            Err(error) => return Err(error),
        };
        machine.cartridge = state.cartridge.clone();
        machine.bootrom_active = state.bootrom_active;
        machine.joypad = state.joypad;
        machine.vram = first_bytes(&state.vram, [0u8; 0x2000]);
        machine.wram = first_bytes(&state.wram, [0u8; 0x2000]);
        machine.oam = first_bytes(&state.oam, [0u8; 0xA0]);
        machine.io = first_bytes(&state.io, [0u8; 0x80]);
        machine.hram = first_bytes(&state.hram, [0u8; 0x7F]);
        machine.ie = state.ie;
        machine.registers = state.registers;
        machine.prefetched_pc = state.prefetched_pc;
        machine.prefetched_opcode = state.prefetched_opcode;
        machine.breakpoints = load_breakpoints(&state.breakpoints);
        machine.ime = state.ime;
        machine.exec_state =
        if state.halted {
            match state.exec_state {
                ExecState::Stop => ExecState::Stop,
                _ => ExecState::Halt,
            }
        } else {
            state.exec_state
        };
        machine.instruction_counter = state.instruction_counter;
        machine.cycle_counter = state.cycle_counter;
        machine.div_counter = state.div_counter;
        machine.tima_reload_state = state.tima_reload_state;
        machine.ppu_cycle_counter = state.ppu_cycle_counter;
        machine.ppu_mode = state.ppu_mode;
        machine.ppu_mode_cycles_remaining = state.ppu_mode_cycles_remaining;
        machine.dma_source = state.dma_source;
        machine.dma_active = state.dma_active;
        machine.dma_requested_source = state.dma_requested_source;
        machine.dma_starting_source = state.dma_starting_source;
        machine.dma_next_byte = state.dma_next_byte;
        machine.pending_t34_interrupts = state.pending_t34_interrupts;
        machine.pending_watchpoint = state.pending_watchpoint;
        machine.trace = load_trace(&state.trace);
        machine.serial_output = copy_bytes(&state.serial_output);
        machine.refresh_stat();
        Ok(machine)
    }
}

/// A saved state brings back the machine that it was saved of, whole.
pub proof fn law_saved_state_restores_the_machine(state: SnapshotState, machine: MachineState)
    requires
        machine.wf(),
        state.describes(machine),
    ensures
        state.complete(),
        state.sound(),
        state.fault() is None,
        state.machine() == machine,
{
    let breakpoints = state.machine().breakpoints;
    assert(breakpoints =~= machine.breakpoints);
    assert(state.machine().trace =~= machine.trace);
    assert(state.machine().vram =~= machine.vram);
    assert(state.machine().wram =~= machine.wram);
    assert(state.machine().oam =~= machine.oam);
    assert(state.machine().hram =~= machine.hram);
    assert(state.io@.take(0x80) =~= machine.io);
    assert(state.machine().io =~= machine.io);
}

} // verus!
