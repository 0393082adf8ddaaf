//! Types shared by every machine: stop reasons, breakpoints, register snapshots, traces and
//! frame buffers, and the two traits through which tools drive a machine.

use vstd::prelude::*;

verus! {

/// Platform families.
#[derive(Debug, Clone, Copy, PartialEq, Eq, Structural)]
pub enum Platform {
    Gb,
    Gbc,
    Gba,
}

/// Inspection of a machine, as tools need it.
pub trait Machine {
    type Error;

    /// Whether the machine is in a state in which it can be inspected.
    spec fn valid(&self) -> bool;

    fn platform(&self) -> Platform;

    fn model_name(&self) -> &'static str;

    fn snapshot(&self) -> MachineSnapshot;

    fn inspect_memory(&self, region: MemoryRegion, address: u32, len: usize) -> Option<Vec<u8>>
        requires
            self.valid(),
    ;

    fn read_address(&mut self, address: u16) -> (byte: u8)
        requires
            old(self).valid(),
        ensures
            final(self).valid(),
    ;

    fn write_address(&mut self, address: u16, value: u8)
        requires
            old(self).valid(),
        ensures
            final(self).valid(),
    ;

    fn trace_entries(&self) -> Vec<TraceEntry>;

    fn clear_trace(&mut self)
        requires
            old(self).valid(),
        ensures
            final(self).valid(),
    ;

    fn serial_output(&self) -> &[u8];

    fn clear_serial_output(&mut self)
        requires
            old(self).valid(),
        ensures
            final(self).valid(),
    ;

    fn cartridge_info(&self) -> CartridgeInfo;

    fn pressed_buttons_mask(&self) -> u8;

    fn set_pressed_buttons_mask(&mut self, pressed: u8)
        requires
            old(self).valid(),
        ensures
            final(self).valid(),
    ;

    fn last_watchpoint_hit(&self) -> Option<WatchpointHit>;

    fn disassemble_range(&self, start: u16, count: usize) -> Vec<DisassembledInstruction>
        requires
            self.valid(),
    ;

    fn save_cartridge_ram(&self) -> Vec<u8>;

    fn load_cartridge_ram(&mut self, bytes: &[u8]) -> (result: Result<(), Self::Error>)
        requires
            old(self).valid(),
        ensures
            final(self).valid(),
    ;

    fn render_frame(&self, target: RenderTarget) -> Result<FrameBuffer, Self::Error>;
}

/// Control of a machine, as tools need it.
pub trait MachineControl {
    type Error;

    /// Whether the machine is in a state in which it can be driven.
    spec fn drivable(&self) -> bool;

    /// Whether its counters have room for one step.
    spec fn can_step(&self) -> bool;

    /// Whether its counters have room for a run.
    spec fn can_run(&self) -> bool;

    /// Whether its counters have room for a run of so many clock cycles.
    spec fn can_run_for_cycles(&self, cycles: u64) -> bool;

    fn reset(&mut self) -> (result: Result<(), Self::Error>)
        requires
            old(self).drivable(),
        ensures
            final(self).drivable(),
    ;

    fn run(&mut self) -> (result: Result<RunResult, Self::Error>)
        requires
            old(self).drivable(),
            old(self).can_run(),
        ensures
            final(self).drivable(),
    ;

    fn run_for_cycles(&mut self, cycles: u64) -> (result: Result<RunResult, Self::Error>)
        requires
            old(self).drivable(),
            old(self).can_run_for_cycles(cycles),
        ensures
            final(self).drivable(),
    ;

    fn step_instruction(&mut self) -> (result: Result<RunResult, Self::Error>)
        requires
            old(self).drivable(),
            old(self).can_step(),
        ensures
            final(self).drivable(),
    ;

    fn add_breakpoint(&mut self, breakpoint: Breakpoint) -> (result: Result<(), Self::Error>)
        requires
            old(self).drivable(),
        ensures
            final(self).drivable(),
    ;

    fn clear_breakpoints(&mut self) -> (result: Result<(), Self::Error>)
        requires
            old(self).drivable(),
        ensures
            final(self).drivable(),
    ;
}

/// View of machine state at a stop point.
#[derive(Debug, Clone, PartialEq, Eq, Default)]
pub struct MachineSnapshot {
    pub registers: CpuRegisters,
    pub halted: bool,
    pub instruction_counter: u64,
}

/// Low-level timing and debug counters, for machines that also count frames.
#[derive(Debug, Clone, Copy, PartialEq, Eq, Default)]
pub struct DebugState {
    pub cycle_counter: u64,
    pub div_counter: u16,
    pub ppu_cycle_counter: u16,
    pub frame_counter: u64,
    pub ppu_mode: u8,
    pub ime: bool,
    pub ie: u8,
    pub if_reg: u8,
    pub lcdc: u8,
    pub stat: u8,
    pub ly: u8,
}

/// CPU register file, widened to a size that fits every platform.
#[derive(Debug, Clone, PartialEq, Eq, Default)]
pub struct CpuRegisters {
    pub pc: u32,
    pub sp: u32,
    pub a: u32,
    pub b: u32,
    pub c: u32,
    pub d: u32,
    pub e: u32,
    pub f: u32,
    pub h: u32,
    pub l: u32,
}

/// Regions that can be inspected.
#[derive(Debug, Clone, Copy, PartialEq, Eq, Structural)]
pub enum MemoryRegion {
    Rom,
    Ram,
    Vram,
    Oam,
    AddressSpace(AddressSpace),
}

/// Full-system address spaces.
#[derive(Debug, Clone, Copy, PartialEq, Eq, Structural)]
pub enum AddressSpace {
    System,
}

/// Why a run or step operation returned.
#[derive(Debug, Clone, Copy, PartialEq, Eq, Structural)]
pub enum StopReason {
    StepComplete,
    BreakpointHit,
    WatchpointHit,
    Halted,
    FrameComplete,
    RunLimitReached,
}

/// Result of a run-control operation.
#[derive(Debug, Clone, Copy, PartialEq, Eq, Structural)]
pub struct RunResult {
    pub stop_reason: StopReason,
}

/// One executed instruction: where it stood, and the registers after it.
#[derive(Debug, Clone, Copy, PartialEq, Eq, Structural)]
pub struct TraceEntry {
    pub instruction_counter: u64,
    pub pc: u16,
    pub opcode: u8,
    pub a: u8,
    pub f: u8,
    pub b: u8,
    pub c: u8,
    pub d: u8,
    pub e: u8,
    pub h: u8,
    pub l: u8,
    pub sp: u16,
    pub stop_reason: StopReason,
}

/// Cartridge metadata.
#[derive(Debug, Clone, PartialEq, Eq)]
pub struct CartridgeInfo {
    pub title: String,
    pub type_code: u8,
    pub has_battery: bool,
    pub has_rtc: bool,
}

/// One decoded instruction.
#[derive(Debug, Clone, PartialEq, Eq)]
pub struct DisassembledInstruction {
    pub address: u16,
    pub bytes: Vec<u8>,
    pub text: String,
    pub len: u8,
}

/// A memory access that matched a watchpoint.
#[derive(Debug, Clone, Copy, PartialEq, Eq, Structural)]
pub struct WatchpointHit {
    pub kind: WatchpointKind,
    pub address: u16,
}

/// Kind of access that a watchpoint looks for.
#[derive(Debug, Clone, Copy, PartialEq, Eq, Structural)]
pub enum WatchpointKind {
    Read,
    Write,
}

/// Breakpoints and watchpoints.
#[derive(Debug, Clone, Copy, PartialEq, Eq, Structural)]
pub enum Breakpoint {
    ProgramCounter(u32),
    Opcode(u8),
    MemoryRead(u32),
    MemoryWrite(u32),
}

/// Display paths.
#[derive(Debug, Clone, Copy, PartialEq, Eq, Structural)]
pub enum RenderTarget {
    Main,
}

/// Raw frame output, four bytes (red, green, blue, alpha) for each pixel, row by row.
#[derive(Debug, Clone, PartialEq, Eq)]
pub struct FrameBuffer {
    pub width: u32,
    pub height: u32,
    pub pixels_rgba8: Vec<u8>,
}

impl FrameBuffer {
    /// A frame of zero bytes; it holds no bytes at all where their number does not fit 32 bits.
    pub fn new_rgba(width: u32, height: u32) -> (frame: Self)
        ensures
            frame.width == width,
            frame.height == height,
            frame.pixels_rgba8@ == Seq::new(
                if width * height * 4 <= u32::MAX {
                    (width * height * 4) as nat
                } else {
                    0nat
                },
                |i: int| 0u8,
            ),
    {
        let len: usize = match width.checked_mul(height) {
            Some(px) => match px.checked_mul(4) {
                Some(bytes) => bytes as usize,
                None => 0,
            },
            None => 0,
        };
        proof {
            if width * height > u32::MAX {
                assert(width * height * 4 > u32::MAX);
            }
        }
        let pixels: Vec<u8> = vec![0u8; len];
        assert(pixels@ =~= Seq::new(len as nat, |i: int| 0u8));
        FrameBuffer { width, height, pixels_rgba8: pixels }
    }
}

/// Named register value.
#[derive(Debug, Clone, PartialEq, Eq)]
pub struct RegisterValue {
    pub name: &'static str,
    pub value: u32,
}

/// Error of a machine whose behavior is not there yet.
#[derive(Debug, Clone, Copy, PartialEq, Eq, Structural)]
pub struct UnimplementedMachine;

impl UnimplementedMachine {
    /// The error's text.
    pub fn message(&self) -> (text: String)
        ensures
            text@ == "machine behavior not implemented yet"@,
    {
        "machine behavior not implemented yet".to_owned()
    }
}

} // verus!
