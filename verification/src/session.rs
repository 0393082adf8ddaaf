//! A debugging session: requests to a machine, and what is answered.

use vstd::prelude::*;
use vstd::string::*;

use crate::boot::{machine_fault, new_machine, optional_bytes};
use crate::cartridge::{
    persistent_fault, saved_cartridge, title_bytes, CartridgeState, PersistentState,
};
use crate::control::{names_of, DebugState};
use crate::encoding::{
    base64_decode, base64_decoded, base64_encode, base64_len, base64_text, lossy_text,
    text_from_utf8_lossy,
};
use crate::interface::{
    AddressSpace, Breakpoint, CartridgeInfo, DisassembledInstruction, FrameBuffer, Machine,
    MachineSnapshot, MemoryRegion, RenderTarget, StopReason, TraceEntry, WatchpointHit,
};
use crate::machine::{
    GbMachine, MachineState, DEFAULT_RUN_LIMIT, FRAME_HEIGHT, FRAME_WIDTH, IO_START,
};
use crate::model::{error_text, named_model, GbError, GbModel};
use crate::snapshot::SnapshotState;
use crate::step::Stepped;
use crate::text::{decimal, decimal_text, joined, joined3, same_text};

verus! {

/// What a request asks for. Where it takes the contents of a file or decoded data, it brings them
/// along.
#[derive(Debug)]
#[allow(inconsistent_fields)]
pub enum Request {
    Ping,
    Help,
    LoadRom {
        path: String,
        rom: Vec<u8>,
        model: Option<String>,
        bootrom: Option<Vec<u8>>,
        cart_state_path: Option<String>,
    },
    CartridgeInfo,
    Reset,
    Step { count: Option<u64> },
    RunForCycles { cycles: u64 },
    RunForInstructions { count: u64 },
    Run { max_instructions: Option<u64> },
    Snapshot,
    InspectMemory { region: String, address: u32, len: usize },
    ReadAddress { address: u16 },
    WriteAddress { address: u16, value: u8 },
    SetInput { buttons: Vec<String> },
    GetInput,
    Disassemble { address: u32, count: Option<usize> },
    SaveSnapshot,
    LoadSnapshot { state: SnapshotState },
    SaveCartState,
    LoadCartState { state: PersistentState },
    ExportSaveRam,
    ImportSaveRam { bytes: Vec<u8> },
    AddBreakpoint { kind: String, address: u32 },
    ClearBreakpoints,
    GetTrace { limit: Option<usize> },
    ClearTrace,
    GetSerialOutput { encoding: Option<String> },
    ClearSerialOutput,
    RenderFrame { target: Option<String>, encoding: Option<String> },
    Shutdown,
}

/// What a machine reports at a stop.
#[derive(Debug, Clone, PartialEq, Eq)]
pub struct MachineReport {
    pub snapshot: MachineSnapshot,
    pub debug: DebugState,
}

/// Why a run ended.
#[derive(Debug, Clone, Copy, PartialEq, Eq, Structural)]
pub enum RunStop {
    Reason(StopReason),
    CyclesSpent,
}

/// What a run did.
#[derive(Debug)]
pub struct RunReport {
    pub stop: RunStop,
    pub cycles_elapsed: Option<u64>,
    pub instructions_retired: u64,
    pub watchpoint: Option<WatchpointHit>,
    pub report: MachineReport,
}

/// Cartridge state that is to be written to a file.
#[derive(Debug)]
pub struct CartSave {
    pub path: String,
    pub state: PersistentState,
}

/// What is answered.
#[derive(Debug)]
#[allow(inconsistent_fields)]
pub enum Response {
    Pong,
    Help {
        commands: Vec<&'static str>,
        breakpoint_kinds: Vec<&'static str>,
        models: Vec<&'static str>,
    },
    RomLoaded {
        rom_path: String,
        cartridge: CartridgeInfo,
        cart_state_path: Option<String>,
        report: MachineReport,
    },
    Cartridge(CartridgeInfo),
    Report(MachineReport),
    Ran(RunReport),
    Memory { region: MemoryRegion, address: u32, bytes: Vec<u8> },
    Byte { address: u16, value: u8 },
    Input { buttons: Vec<&'static str>, p1: u8 },
    Instructions(Vec<DisassembledInstruction>),
    State(SnapshotState),
    CartState(PersistentState),
    SaveRam(Vec<u8>),
    Loaded,
    BreakpointAdded { kind: String, address: u32 },
    Cleared,
    Trace(Vec<TraceEntry>),
    SerialText(String),
    SerialBytes(Vec<u8>),
    SerialBase64(String),
    FrameBase64 { width: u32, height: u32, bytes_base64: String },
    FrameSummary { width: u32, height: u32, byte_len: usize },
    Shutdown { save: Option<CartSave> },
}

/// The session: the machine, the path of its ROM, and the path of its cartridge state.
pub struct SessionState {
    pub machine: Option<GbMachine>,
    pub rom_path: Option<String>,
    pub cart_state_path: Option<String>,
}

/// What a session holds.
pub struct SessionView {
    pub machine: Option<MachineState>,
    pub rom_path: Option<Seq<char>>,
    pub cart_state_path: Option<Seq<char>>,
}

/// The characters of an optional text.
pub open spec fn optional_text(text: Option<String>) -> Option<Seq<char>> {
    match text {
        Some(found) => Some(found@),
        None => None,
    }
}

impl View for SessionState {
    type V = SessionView;

    open spec fn view(&self) -> SessionView {
        SessionView {
            machine: match self.machine {
                Some(machine) => Some(machine@),
                None => None,
            },
            rom_path: optional_text(self.rom_path),
            cart_state_path: optional_text(self.cart_state_path),
        }
    }
}

impl Default for SessionState {
    fn default() -> (session: Self)
        ensures
            session@ == (SessionView { machine: None, rom_path: None, cart_state_path: None }),
    {
        SessionState { machine: None, rom_path: None, cart_state_path: None }
    }
}

pub open spec fn stop_reason_text(reason: StopReason) -> Seq<char> {
    match reason {
        StopReason::StepComplete => "step_complete"@,
        StopReason::BreakpointHit => "breakpoint_hit"@,
        StopReason::WatchpointHit => "watchpoint_hit"@,
        StopReason::Halted => "halted"@,
        StopReason::FrameComplete => "frame_complete"@,
        StopReason::RunLimitReached => "instruction_budget_exhausted"@,
    }
}

pub fn stop_reason_name(reason: StopReason) -> (name: &'static str)
    ensures
        name@ == stop_reason_text(reason),
{
    match reason {
        StopReason::StepComplete => "step_complete",
        StopReason::BreakpointHit => "breakpoint_hit",
        StopReason::WatchpointHit => "watchpoint_hit",
        StopReason::Halted => "halted",
        StopReason::FrameComplete => "frame_complete",
        StopReason::RunLimitReached => "instruction_budget_exhausted",
    }
}

pub fn run_stop_name(stop: RunStop) -> (name: &'static str)
    ensures
        name@ == (match stop {
            RunStop::Reason(reason) => stop_reason_text(reason),
            RunStop::CyclesSpent => "cycle_budget_exhausted"@,
        }),
{
    match stop {
        RunStop::Reason(reason) => stop_reason_name(reason),
        RunStop::CyclesSpent => "cycle_budget_exhausted",
    }
}

/// The region that a name stands for.
pub open spec fn named_region(name: Seq<char>) -> Option<MemoryRegion> {
    if name == "rom"@ {
        Some(MemoryRegion::Rom)
    } else if name == "ram"@ {
        Some(MemoryRegion::Ram)
    } else if name == "vram"@ {
        Some(MemoryRegion::Vram)
    } else if name == "oam"@ {
        Some(MemoryRegion::Oam)
    } else if name == "system"@ {
        Some(MemoryRegion::AddressSpace(AddressSpace::System))
    } else {
        None
    }
}

/// Whether a call failed with a text.
pub open spec fn fails<T>(result: Result<T, String>, text: Seq<char>) -> bool {
    result is Err && result->Err_0@ == text
}

pub fn parse_memory_region(region: &str) -> (parsed: Result<MemoryRegion, String>)
    ensures
        match named_region(region@) {
            Some(found) => parsed is Ok && parsed->Ok_0 == found,
            None => fails(parsed, "unsupported memory region: "@ + region@),
        },
{
    if same_text(region, "rom") {
        Ok(MemoryRegion::Rom)
    } else if same_text(region, "ram") {
        Ok(MemoryRegion::Ram)
    } else if same_text(region, "vram") {
        Ok(MemoryRegion::Vram)
    } else if same_text(region, "oam") {
        Ok(MemoryRegion::Oam)
    } else if same_text(region, "system") {
        Ok(MemoryRegion::AddressSpace(AddressSpace::System))
    } else {
        Err(joined("unsupported memory region: ", region))
    }
}

pub open spec fn region_text(region: MemoryRegion) -> Seq<char> {
    match region {
        MemoryRegion::Rom => "rom"@,
        MemoryRegion::Ram => "ram"@,
        MemoryRegion::Vram => "vram"@,
        MemoryRegion::Oam => "oam"@,
        MemoryRegion::AddressSpace(_) => "system"@,
    }
}

pub fn memory_region_name(region: MemoryRegion) -> (name: &'static str)
    ensures
        name@ == region_text(region),
{
    match region {
        MemoryRegion::Rom => "rom",
        MemoryRegion::Ram => "ram",
        MemoryRegion::Vram => "vram",
        MemoryRegion::Oam => "oam",
        MemoryRegion::AddressSpace(_) => "system",
    }
}

/// A region is parsed from its own name.
pub proof fn law_region_names_parse(region: MemoryRegion)
    ensures
        named_region(region_text(region)) == Some(region),
{
    reveal_strlit("rom");
    reveal_strlit("ram");
    reveal_strlit("vram");
    reveal_strlit("oam");
    reveal_strlit("system");
    assert("rom"@.len() == 3 && "ram"@.len() == 3 && "vram"@.len() == 4 && "oam"@.len() == 3
        && "system"@.len() == 6);
    assert("rom"@[0] == 'r' && "ram"@[0] == 'r' && "oam"@[0] == 'o');
    assert("rom"@[1] == 'o' && "ram"@[1] == 'a');
}

/// The breakpoint that a kind and an address stand for, or why they stand for none.
pub open spec fn named_breakpoint(kind: Seq<char>, address: u32) -> Result<Breakpoint, Seq<char>> {
    if kind == "pc"@ {
        Ok(Breakpoint::ProgramCounter(address))
    } else if kind == "opcode"@ {
        if address <= 0xFF {
            Ok(Breakpoint::Opcode(address as u8))
        } else {
            Err("opcode breakpoint out of range: "@ + decimal(address as nat))
        }
    } else if kind == "memory_read"@ || kind == "read"@ {
        Ok(Breakpoint::MemoryRead(address))
    } else if kind == "memory_write"@ || kind == "write"@ {
        Ok(Breakpoint::MemoryWrite(address))
    } else {
        Err("unsupported breakpoint kind: "@ + kind)
    }
}

pub fn parse_breakpoint(kind: &str, address: u32) -> (parsed: Result<Breakpoint, String>)
    ensures
        match named_breakpoint(kind@, address) {
            Ok(found) => parsed is Ok && parsed->Ok_0 == found,
            Err(text) => fails(parsed, text),
        },
{
    if same_text(kind, "pc") {
        Ok(Breakpoint::ProgramCounter(address))
    } else if same_text(kind, "opcode") {
        if address <= 0xFF {
            Ok(Breakpoint::Opcode(address as u8))
        } else {
            Err(
                joined("opcode breakpoint out of range: ", decimal_text(address as u64).as_str()),
            )
        }
    } else if same_text(kind, "memory_read") || same_text(kind, "read") {
        Ok(Breakpoint::MemoryRead(address))
    } else if same_text(kind, "memory_write") || same_text(kind, "write") {
        Ok(Breakpoint::MemoryWrite(address))
    } else {
        Err(joined("unsupported breakpoint kind: ", kind))
    }
}

pub fn parse_render_target(target: &str) -> (parsed: Result<RenderTarget, String>)
    ensures
        target@ == "main"@ ==> parsed is Ok && parsed->Ok_0 == RenderTarget::Main,
        target@ != "main"@ ==> fails(parsed, "unsupported render target: "@ + target@),
{
    if same_text(target, "main") {
        Ok(RenderTarget::Main)
    } else {
        Err(joined("unsupported render target: ", target))
    }
}

/// The model that a request names: the common one where it names none.
pub open spec fn requested_model(name: Option<Seq<char>>) -> Option<GbModel> {
    match name {
        None => Some(GbModel::Dmg),
        Some(found) => named_model(found),
    }
}

pub fn parse_model(name: &Option<String>) -> (parsed: Result<GbModel, String>)
    ensures
        match requested_model(optional_text(*name)) {
            Some(model) => parsed is Ok && parsed->Ok_0 == model,
            None => fails(parsed, "unsupported model: "@ + optional_text(*name)->0),
        },
{
    match name {
        None => Ok(GbModel::Dmg),
        Some(found) => match GbModel::from_name(found.as_str()) {
            Some(model) => Ok(model),
            None => Err(joined("unsupported model: ", found.as_str())),
        },
    }
}

/// The button that a name stands for, as its bit.
pub open spec fn named_button(name: Seq<char>) -> Option<u8> {
    if name == "right"@ {
        Some(0x01)
    } else if name == "left"@ {
        Some(0x02)
    } else if name == "up"@ {
        Some(0x04)
    } else if name == "down"@ {
        Some(0x08)
    } else if name == "a"@ {
        Some(0x10)
    } else if name == "b"@ {
        Some(0x20)
    } else if name == "select"@ {
        Some(0x40)
    } else if name == "start"@ {
        Some(0x80)
    } else {
        None
    }
}

fn button_bit(name: &str) -> (bit: Option<u8>)
    ensures
        bit == named_button(name@),
{
    if same_text(name, "right") {
        Some(0x01)
    } else if same_text(name, "left") {
        Some(0x02)
    } else if same_text(name, "up") {
        Some(0x04)
    } else if same_text(name, "down") {
        Some(0x08)
    } else if same_text(name, "a") {
        Some(0x10)
    } else if same_text(name, "b") {
        Some(0x20)
    } else if same_text(name, "select") {
        Some(0x40)
    } else if same_text(name, "start") {
        Some(0x80)
    } else {
        None
    }
}

/// The mask of the first so many named buttons, or the first name that no button has.
pub open spec fn button_mask(names: Seq<String>, count: nat) -> Result<u8, Seq<char>>
    decreases count,
{
    if count == 0 {
        Ok(0)
    } else {
        match button_mask(names, (count - 1) as nat) {
            Err(name) => Err(name),
            Ok(mask) => match named_button(names[count - 1]@) {
                Some(bit) => Ok(mask | bit),
                None => Err(names[count - 1]@),
            },
        }
    }
}

/// An unknown name stays the first one, however many names follow.
proof fn lemma_button_mask_fault(names: Seq<String>, first: nat, count: nat)
    requires
        first <= count,
        button_mask(names, first) is Err,
    ensures
        button_mask(names, count) == button_mask(names, first),
    decreases count,
{
    if first < count {
        lemma_button_mask_fault(names, first, (count - 1) as nat);
    }
}

pub fn parse_buttons(names: &Vec<String>) -> (parsed: Result<u8, String>)
    ensures
        match button_mask(names@, names@.len()) {
            Ok(mask) => parsed is Ok && parsed->Ok_0 == mask,
            Err(name) => fails(parsed, "unsupported button: "@ + name),
        },
{
    let mut mask: u8 = 0;
    let mut i: usize = 0;
    while i < names.len()
        invariant
            i <= names@.len(),
            button_mask(names@, i as nat) == Ok::<u8, Seq<char>>(mask),
        decreases names@.len() - i,
    {
        match button_bit(names[i].as_str()) {
            Some(bit) => {
                mask = mask | bit;
            },
            None => {
                proof {
                    assert(button_mask(names@, (i + 1) as nat) is Err);
                    lemma_button_mask_fault(names@, (i + 1) as nat, names@.len());
                }
                return Err(joined("unsupported button: ", names[i].as_str()));
            },
        }
        i = i + 1;
    }
    Ok(mask)
}

/// Where cartridge state is kept that no path was given for: next to the ROM.
pub open spec fn default_cart_state_path(rom_path: Seq<char>) -> Seq<char> {
    rom_path + ".gbbrain-cart.json"@
}

/// Whether a cartridge has something to keep.
pub open spec fn keeps_state(cartridge: CartridgeState) -> bool {
    cartridge.kind.battery_backed() || cartridge.kind.has_clock()
}

pub open spec fn report_of(machine: MachineState) -> MachineReport {
    MachineReport { snapshot: machine.snapshot(), debug: machine.debug_state() }
}

pub open spec fn info_of(info: CartridgeInfo, cartridge: CartridgeState) -> bool {
    &&& info.title@ == cartridge.title
    &&& info.type_code == cartridge.cartridge_type_code
    &&& info.has_battery == cartridge.kind.battery_backed()
    &&& info.has_rtc == cartridge.kind.has_clock()
}

/// The commands of the protocol.
pub open spec fn command_names() -> Seq<Seq<char>> {
    seq![
        "ping"@, "help"@, "load_rom"@, "cartridge_info"@, "reset"@, "step"@, "run_for_cycles"@,
        "run_for_instructions"@, "run"@, "snapshot"@, "inspect_memory"@, "read_address"@,
        "write_address"@, "set_input"@, "get_input"@, "disassemble"@, "save_snapshot"@,
        "load_snapshot"@, "save_cart_state"@, "load_cart_state"@, "save_cart_state_file"@,
        "load_cart_state_file"@, "export_save_ram"@, "import_save_ram"@, "add_breakpoint"@,
        "clear_breakpoints"@, "get_trace"@, "clear_trace"@, "get_serial_output"@,
        "clear_serial_output"@, "render_frame"@, "shutdown"@,
    ]
}

pub open spec fn breakpoint_kind_names() -> Seq<Seq<char>> {
    seq!["pc"@, "opcode"@, "memory_read"@, "memory_write"@]
}

pub open spec fn model_names() -> Seq<Seq<char>> {
    seq!["dmg0"@, "dmg"@, "mgb"@, "sgb"@, "sgb2"@]
}

/// A response to a run: the stop reason of the steps, and what passed since the start.
pub open spec fn run_answer(
    start: MachineState,
    stepped: Stepped,
    stop: RunStop,
    counts_cycles: bool,
    result: Result<Response, String>,
) -> bool {
    match stepped.outcome {
        Err(error) => fails(result, error_text(error)),
        Ok(_) => {
            &&& result matches Ok(Response::Ran(run))
            &&& run.stop == stop
            &&& run.cycles_elapsed == (if counts_cycles {
                Some((stepped.machine.cycle_counter - start.cycle_counter) as u64)
            } else {
                None
            })
            &&& run.instructions_retired == stepped.machine.instruction_counter
                - start.instruction_counter
            &&& run.watchpoint == stepped.machine.pending_watchpoint
            &&& run.report == report_of(stepped.machine)
        },
    }
}

/// Why a step request ended: counting its steps to the end is no stop.
pub open spec fn step_stop(stepped: Stepped) -> RunStop {
    match stepped.outcome {
        Ok(StopReason::RunLimitReached) => RunStop::Reason(StopReason::StepComplete),
        Ok(reason) => RunStop::Reason(reason),
        Err(_) => RunStop::CyclesSpent,
    }
}

pub open spec fn instruction_stop(stepped: Stepped) -> RunStop {
    match stepped.outcome {
        Ok(reason) => RunStop::Reason(reason),
        Err(_) => RunStop::CyclesSpent,
    }
}

pub open spec fn cycle_stop(stepped: Stepped) -> RunStop {
    match stepped.outcome {
        Ok(StopReason::RunLimitReached) => RunStop::CyclesSpent,
        Ok(reason) => RunStop::Reason(reason),
        Err(_) => RunStop::CyclesSpent,
    }
}

impl SessionView {
    pub open spec fn with_machine(self, machine: MachineState) -> SessionView {
        SessionView { machine: Some(machine), ..self }
    }

    /// Whether the session's machine is well formed.
    pub open spec fn wf(self) -> bool {
        self.machine matches Some(machine) ==> machine.wf()
    }

    /// The session after a ROM was loaded.
    pub open spec fn with_rom(
        self,
        machine: MachineState,
        path: Seq<char>,
        cart_state_path: Option<Seq<char>>,
    ) -> SessionView {
        SessionView {
            machine: Some(machine),
            rom_path: Some(path),
            cart_state_path: if cart_state_path is None && keeps_state(machine.cartridge) {
                Some(default_cart_state_path(path))
            } else {
                cart_state_path
            },
        }
    }
}

/// The steps that a run takes at most.
pub open spec fn run_limit(max_instructions: Option<u64>) -> nat {
    match max_instructions {
        Some(limit) => limit as nat,
        None => DEFAULT_RUN_LIMIT as nat,
    }
}

/// The answer to the load of a ROM.
pub open spec fn rom_loaded(
    before: SessionView,
    after: SessionView,
    path: Seq<char>,
    rom: Seq<u8>,
    model: Option<Seq<char>>,
    bootrom: Option<Seq<u8>>,
    cart_state_path: Option<Seq<char>>,
    result: Result<Response, String>,
) -> bool {
    match (requested_model(model), machine_fault(rom, bootrom)) {
        (None, _) => after == before && fails(result, "unsupported model: "@ + model->0),
        (_, Some(fault)) => after == before && fails(result, error_text(fault)),
        (Some(found), None) => {
            let machine = new_machine(rom, found, bootrom);
            &&& after == before.with_rom(machine, path, cart_state_path)
            &&& result matches Ok(Response::RomLoaded {
                rom_path,
                cartridge,
                cart_state_path: kept,
                report,
            })
            &&& rom_path@ == path
            &&& info_of(cartridge, machine.cartridge)
            &&& vstd::utf8::valid_utf8(title_bytes(rom)) ==> cartridge.title@
                == vstd::utf8::decode_utf8(title_bytes(rom))
            &&& optional_text(kept) == after.cart_state_path
            &&& report == report_of(machine)
        },
    }
}

/// The machine in a state with saved cartridge state taken over.
pub open spec fn with_cart_state(machine: MachineState, state: PersistentState) -> MachineState {
    MachineState {
        cartridge: CartridgeState { ram: state.ram@, rtc: state.rtc, ..machine.cartridge },
        ..machine
    }
}

/// The last entries of a trace.
pub open spec fn last_entries(trace: Seq<TraceEntry>, limit: Option<usize>) -> Seq<TraceEntry> {
    match limit {
        Some(count) if count < trace.len() => trace.skip(trace.len() - count),
        _ => trace,
    }
}

/// The answer to a request for the serial output.
pub open spec fn serial_answer(
    bytes: Seq<u8>,
    encoding: Option<Seq<char>>,
    result: Result<Response, String>,
) -> bool {
    let wanted = match encoding {
        Some(found) => found,
        None => "text"@,
    };
    if wanted == "text"@ {
        &&& result matches Ok(Response::SerialText(text))
        &&& text@ == lossy_text(bytes)
        &&& vstd::utf8::valid_utf8(bytes) ==> text@ == vstd::utf8::decode_utf8(bytes)
    } else if wanted == "bytes"@ {
        result matches Ok(Response::SerialBytes(output)) && output@ == bytes
    } else if wanted == "base64"@ {
        result matches Ok(Response::SerialBase64(text)) && text@ == base64_text(bytes)
    } else {
        fails(result, "unsupported serial encoding: "@ + wanted)
    }
}

/// The answer to a request for a picture.
pub open spec fn frame_answer(
    machine: MachineState,
    target: Option<Seq<char>>,
    encoding: Option<Seq<char>>,
    result: Result<Response, String>,
) -> bool {
    let place = match target {
        Some(found) => found,
        None => "main"@,
    };
    let wanted = match encoding {
        Some(found) => found,
        None => "base64"@,
    };
    let bytes = machine.frame_bytes(4 * 160 * 144);
    if place != "main"@ {
        fails(result, "unsupported render target: "@ + place)
    } else if wanted == "base64"@ {
        &&& result matches Ok(Response::FrameBase64 { width, height, bytes_base64 })
        &&& width == FRAME_WIDTH
        &&& height == FRAME_HEIGHT
        &&& bytes_base64@ == base64_text(bytes)
    } else if wanted == "summary"@ {
        &&& result matches Ok(Response::FrameSummary { width, height, byte_len })
        &&& width == FRAME_WIDTH
        &&& height == FRAME_HEIGHT
        &&& byte_len == bytes.len()
    } else {
        fails(result, "unsupported frame encoding: "@ + wanted)
    }
}

/// The answer to a listing of instructions.
pub open spec fn listing_answer(
    machine: MachineState,
    address: u32,
    count: Option<usize>,
    result: Result<Response, String>,
) -> bool {
    let wanted: nat = match count {
        Some(found) => found as nat,
        None => 8,
    };
    if address > 0xFFFF {
        fails(result, "address out of range: "@ + decimal(address as nat))
    } else {
        &&& result matches Ok(Response::Instructions(listing))
        &&& listing@.len() == wanted
        &&& forall|i: int|
            0 <= i < wanted ==> (#[trigger] listing@[i])@ == machine.disassemble_one(
                machine.listing_address(address as u16, i as nat),
            )
        &&& forall|i: int| 0 <= i < wanted ==> 1 <= (#[trigger] listing@[i]).len <= 3
    }
}

/// The answer to an inspection of memory.
pub open spec fn memory_answer(
    machine: MachineState,
    region: Seq<char>,
    address: u32,
    len: usize,
    result: Result<Response, String>,
) -> bool {
    match named_region(region) {
        None => fails(result, "unsupported memory region: "@ + region),
        Some(found) => match machine.inspect_memory(found, address as int, len as int) {
            None => fails(result, "requested memory range is unavailable"@),
            Some(shown) => {
                &&& result matches Ok(
                    Response::Memory { region: answered, address: place, bytes },
                )
                &&& answered == found
                &&& place == address
                &&& bytes@ == shown
            },
        },
    }
}

/// The answer to a request that reads or drives the machine.
pub open spec fn machine_answer(
    request: Request,
    machine: MachineState,
    before: SessionView,
    after: SessionView,
    result: Result<Response, String>,
) -> bool {
    match request {
        Request::CartridgeInfo => {
            &&& after == before
            &&& result matches Ok(Response::Cartridge(info)) && info_of(info, machine.cartridge)
        },
        Request::Reset => {
            &&& after == before.with_machine(machine.reset())
            &&& result matches Ok(Response::Report(report)) && report == report_of(machine.reset())
        },
        Request::Step { count } => {
            let stepped = machine.run(
                match count {
                    Some(found) => found as nat,
                    None => 1,
                },
            );
            &&& after == before.with_machine(stepped.machine)
            &&& run_answer(machine, stepped, step_stop(stepped), false, result)
        },
        Request::RunForCycles { cycles } => {
            let stepped = machine.run_for_cycles(machine.cycle_counter, cycles);
            &&& after == before.with_machine(stepped.machine)
            &&& run_answer(machine, stepped, cycle_stop(stepped), true, result)
        },
        Request::RunForInstructions { count } => {
            let stepped = machine.run(count as nat);
            &&& after == before.with_machine(stepped.machine)
            &&& run_answer(machine, stepped, instruction_stop(stepped), false, result)
        },
        Request::Run { max_instructions } => {
            let stepped = machine.run(run_limit(max_instructions));
            &&& after == before.with_machine(stepped.machine)
            &&& run_answer(machine, stepped, instruction_stop(stepped), false, result)
        },
        Request::Snapshot => {
            &&& after == before
            &&& result matches Ok(Response::Report(report)) && report == report_of(machine)
        },
        Request::InspectMemory { region, address, len } => {
            &&& after == before
            &&& memory_answer(machine, region@, address, len, result)
        },
        Request::ReadAddress { address } => {
            &&& after == before.with_machine(machine.after_read8(address))
            &&& result matches Ok(Response::Byte { address: place, value }) && place == address
                && value == machine.read8(address)
        },
        Request::WriteAddress { address, value } => {
            &&& after == before.with_machine(machine.write8(address, value))
            &&& result matches Ok(Response::Byte { address: place, value: written }) && place
                == address && written == value
        },
        Request::SetInput { buttons } => match button_mask(buttons@, buttons@.len()) {
            Ok(mask) => {
                let held = machine.set_pressed_buttons_mask(mask);
                &&& after == before.with_machine(held)
                &&& result matches Ok(Response::Input { buttons: names, p1 }) && names_of(names@)
                    == held.held_buttons(8) && p1 == held.read_io_value(IO_START)
            },
            Err(name) => after == before && fails(result, "unsupported button: "@ + name),
        },
        Request::GetInput => {
            &&& after == before
            &&& result matches Ok(Response::Input { buttons: names, p1 }) && names_of(names@)
                == machine.held_buttons(8) && p1 == machine.read_io_value(IO_START)
        },
        Request::Disassemble { address, count } => {
            &&& after == before
            &&& listing_answer(machine, address, count, result)
        },
        Request::SaveSnapshot => {
            &&& after == before
            &&& result matches Ok(Response::State(state)) && state.describes(machine)
        },
        Request::SaveCartState => {
            &&& after == before
            &&& result matches Ok(Response::CartState(state)) && saved_cartridge(
                state,
                machine.cartridge,
            )
        },
        Request::LoadCartState { state } => match persistent_fault(machine.cartridge, state) {
            Some(fault) => after == before && fails(result, error_text(fault)),
            None => {
                &&& after == before.with_machine(with_cart_state(machine, state))
                &&& result matches Ok(Response::Loaded)
            },
        },
        Request::ExportSaveRam => {
            &&& after == before
            &&& result matches Ok(Response::SaveRam(bytes)) && bytes@ == machine.cartridge.ram
        },
        Request::ImportSaveRam { bytes } => if bytes@.len() == machine.cartridge.ram.len() {
            &&& after == before.with_machine(
                MachineState {
                    cartridge: CartridgeState { ram: bytes@, ..machine.cartridge },
                    ..machine
                },
            )
            &&& result matches Ok(Response::Loaded)
        } else {
            &&& after == before
            &&& fails(
                result,
                error_text(
                    GbError::PersistentStateRamSizeMismatch {
                        expected: machine.cartridge.ram.len() as usize,
                        actual: bytes@.len() as usize,
                    },
                ),
            )
        },
        Request::AddBreakpoint { kind, address } => match named_breakpoint(kind@, address) {
            Err(text) => after == before && fails(result, text),
            Ok(breakpoint) => {
                &&& after == before.with_machine(
                    MachineState {
                        breakpoints: machine.breakpoints.push(breakpoint),
                        ..machine
                    },
                )
                &&& result matches Ok(
                    Response::BreakpointAdded { kind: answered, address: place },
                ) && answered@ == kind@ && place == address
            },
        },
        Request::ClearBreakpoints => {
            &&& after == before.with_machine(
                MachineState { breakpoints: Seq::empty(), ..machine },
            )
            &&& result matches Ok(Response::Cleared)
        },
        Request::GetTrace { limit } => {
            &&& after == before
            &&& result matches Ok(Response::Trace(entries)) && entries@ == last_entries(
                machine.trace,
                limit,
            )
        },
        Request::ClearTrace => {
            &&& after == before.with_machine(MachineState { trace: Seq::empty(), ..machine })
            &&& result matches Ok(Response::Cleared)
        },
        Request::GetSerialOutput { encoding } => {
            &&& after == before
            &&& serial_answer(machine.serial_output, optional_text(encoding), result)
        },
        Request::ClearSerialOutput => {
            &&& after == before.with_machine(
                MachineState { serial_output: Seq::empty(), ..machine },
            )
            &&& result matches Ok(Response::Cleared)
        },
        Request::RenderFrame { target, encoding } => {
            &&& after == before
            &&& frame_answer(machine, optional_text(target), optional_text(encoding), result)
        },
        _ => true,
    }
}

/// The answer to a request. Without a machine, most requests fail.
pub open spec fn answered(
    request: Request,
    before: SessionView,
    after: SessionView,
    result: Result<Response, String>,
) -> bool {
    match request {
        Request::Ping => after == before && result matches Ok(Response::Pong),
        Request::Help => {
            &&& after == before
            &&& result matches Ok(Response::Help { commands, breakpoint_kinds, models })
            &&& names_of(commands@) == command_names()
            &&& names_of(breakpoint_kinds@) == breakpoint_kind_names()
            &&& names_of(models@) == model_names()
        },
        Request::LoadRom { path, rom, model, bootrom, cart_state_path } => rom_loaded(
            before,
            after,
            path@,
            rom@,
            optional_text(model),
            optional_bytes(bootrom),
            optional_text(cart_state_path),
            result,
        ),
        Request::LoadSnapshot { state } => match state.fault() {
            Some(fault) => after == before && fails(result, error_text(fault)),
            None => {
                &&& after == before.with_machine(state.machine())
                &&& result matches Ok(Response::Report(report)) && report == report_of(
                    state.machine(),
                )
            },
        },
        Request::Shutdown => {
            &&& after == before
            &&& result matches Ok(Response::Shutdown { save })
            &&& match (before.machine, before.cart_state_path) {
                (Some(machine), Some(path)) => save matches Some(kept) && kept.path@ == path
                    && saved_cartridge(kept.state, machine.cartridge),
                _ => save is None,
            }
        },
        _ => match before.machine {
            None => after == before && fails(result, "no ROM loaded"@),
            Some(machine) => machine_answer(request, machine, before, after, result),
        },
    }
}

/// How far a request lets the machine's counters and output come at most.
pub open spec fn paced(request: Request, earlier: MachineState, later: MachineState) -> bool {
    match request {
        Request::Step { count } => {
            &&& later.runs_on(earlier)
            &&& later.within(
                earlier,
                match count {
                    Some(found) => found as int,
                    None => 1,
                },
            )
        },
        Request::RunForCycles { cycles } => {
            &&& later.runs_on(earlier)
            &&& later.within_cycles(earlier, cycles)
        },
        Request::RunForInstructions { count } => {
            &&& later.runs_on(earlier)
            &&& later.within(earlier, count as int)
        },
        Request::Run { max_instructions } => {
            &&& later.runs_on(earlier)
            &&& later.within(earlier, run_limit(max_instructions) as int)
        },
        _ => {
            &&& later.within(earlier, 0)
            &&& later.serial_output.len() <= earlier.serial_output.len() + 1
        },
    }
}

/// Whether a request stays within the machine's limits: counters with room for a run, saved states
/// that a machine can go on with, and output that has room as text.
pub open spec fn answerable(request: Request, session: SessionView) -> bool {
    match request {
        Request::LoadSnapshot { state } => state.complete() && state.sound(),
        Request::LoadCartState { state } => state.sound(),
        Request::Step { count } => session.machine matches Some(machine) ==> machine.room_for(
            match count {
                Some(found) => found as nat,
                None => 1,
            },
        ),
        Request::RunForCycles { cycles } => session.machine matches Some(machine)
            ==> machine.room_for_cycles(machine.cycle_counter, cycles),
        Request::RunForInstructions { count } => session.machine matches Some(machine)
            ==> machine.room_for(count as nat),
        Request::Run { max_instructions } => session.machine matches Some(machine)
            ==> machine.room_for(run_limit(max_instructions)),
        Request::GetSerialOutput { encoding } => session.machine matches Some(machine)
            ==> machine.serial_output.len() * 3 <= isize::MAX,
        _ => true,
    }
}

fn push_name(names: &mut Vec<&'static str>, name: &'static str)
    ensures
        names_of(final(names)@) == names_of(old(names)@).push(name@),
{
    names.push(name);
    assert(names_of(names@) =~= names_of(old(names)@).push(name@));
}

fn command_list() -> (names: Vec<&'static str>)
    ensures
        names_of(names@) == command_names(),
{
    let mut names: Vec<&'static str> = Vec::new();
    push_name(&mut names, "ping");
    push_name(&mut names, "help");
    push_name(&mut names, "load_rom");
    push_name(&mut names, "cartridge_info");
    push_name(&mut names, "reset");
    push_name(&mut names, "step");
    push_name(&mut names, "run_for_cycles");
    push_name(&mut names, "run_for_instructions");
    push_name(&mut names, "run");
    push_name(&mut names, "snapshot");
    push_name(&mut names, "inspect_memory");
    push_name(&mut names, "read_address");
    push_name(&mut names, "write_address");
    push_name(&mut names, "set_input");
    push_name(&mut names, "get_input");
    push_name(&mut names, "disassemble");
    push_name(&mut names, "save_snapshot");
    push_name(&mut names, "load_snapshot");
    push_name(&mut names, "save_cart_state");
    push_name(&mut names, "load_cart_state");
    push_name(&mut names, "save_cart_state_file");
    push_name(&mut names, "load_cart_state_file");
    push_name(&mut names, "export_save_ram");
    push_name(&mut names, "import_save_ram");
    push_name(&mut names, "add_breakpoint");
    push_name(&mut names, "clear_breakpoints");
    push_name(&mut names, "get_trace");
    push_name(&mut names, "clear_trace");
    push_name(&mut names, "get_serial_output");
    push_name(&mut names, "clear_serial_output");
    push_name(&mut names, "render_frame");
    push_name(&mut names, "shutdown");
    assert(names_of(names@) =~= command_names());
    names
}

fn breakpoint_kind_list() -> (names: Vec<&'static str>)
    ensures
        names_of(names@) == breakpoint_kind_names(),
{
    let mut names: Vec<&'static str> = Vec::new();
    push_name(&mut names, "pc");
    push_name(&mut names, "opcode");
    push_name(&mut names, "memory_read");
    push_name(&mut names, "memory_write");
    assert(names_of(names@) =~= breakpoint_kind_names());
    names
}

fn model_list() -> (names: Vec<&'static str>)
    ensures
        names_of(names@) == model_names(),
{
    let mut names: Vec<&'static str> = Vec::new();
    push_name(&mut names, "dmg0");
    push_name(&mut names, "dmg");
    push_name(&mut names, "mgb");
    push_name(&mut names, "sgb");
    push_name(&mut names, "sgb2");
    assert(names_of(names@) =~= model_names());
    names
}

fn no_rom() -> (error: String)
    ensures
        error@ == "no ROM loaded"@,
{
    "no ROM loaded".to_owned()
}

/// What a machine reports.
pub fn machine_report(machine: &GbMachine) -> (report: MachineReport)
    ensures
        report == report_of(machine@),
{
    MachineReport { snapshot: machine.snapshot(), debug: machine.debug_state() }
}

/// The response to a run that went as its contract says.
fn run_report(
    machine: &GbMachine,
    stop: RunStop,
    start_instructions: u64,
    start_cycles: Option<u64>,
) -> (run: RunReport)
    requires
        start_instructions <= machine@.instruction_counter,
        start_cycles matches Some(cycles) ==> cycles <= machine@.cycle_counter,
    ensures
        run.stop == stop,
        run.cycles_elapsed == (match start_cycles {
            Some(cycles) => Some((machine@.cycle_counter - cycles) as u64),
            None => None,
        }),
        run.instructions_retired == machine@.instruction_counter - start_instructions,
        run.watchpoint == machine@.pending_watchpoint,
        run.report == report_of(machine@),
{
    RunReport {
        stop,
        cycles_elapsed: match start_cycles {
            Some(cycles) => Some(machine.cycle_counter - cycles),
            None => None,
        },
        instructions_retired: machine.instruction_counter - start_instructions,
        watchpoint: machine.last_watchpoint_hit(),
        report: machine_report(machine),
    }
}

/// Steps a machine so many times, or until something stops it.
fn step(machine: &mut GbMachine, count: u64) -> (result: Result<Response, String>)
    requires
        old(machine)@.wf(),
        old(machine)@.room_for(count as nat),
    ensures
        final(machine)@ == old(machine)@.run(count as nat).machine,
        final(machine)@.runs_on(old(machine)@),
        final(machine)@.within(old(machine)@, count as int),
        run_answer(
            old(machine)@,
            old(machine)@.run(count as nat),
            step_stop(old(machine)@.run(count as nat)),
            false,
            result,
        ),
{
    let start: u64 = machine.instruction_counter;
    match machine.run_steps(count) {
        Err(error) => Err(error.message()),
        Ok(run) => {
            let reason: StopReason = match run.stop_reason {
                StopReason::RunLimitReached => StopReason::StepComplete,
                other => other,
            };
            Ok(Response::Ran(run_report(machine, RunStop::Reason(reason), start, None)))
        },
    }
}

/// Runs a machine for so many instructions, or until something stops it.
fn run_for_instructions(machine: &mut GbMachine, count: u64) -> (result: Result<Response, String>)
    requires
        old(machine)@.wf(),
        old(machine)@.room_for(count as nat),
    ensures
        final(machine)@ == old(machine)@.run(count as nat).machine,
        final(machine)@.runs_on(old(machine)@),
        final(machine)@.within(old(machine)@, count as int),
        run_answer(
            old(machine)@,
            old(machine)@.run(count as nat),
            instruction_stop(old(machine)@.run(count as nat)),
            false,
            result,
        ),
{
    let start: u64 = machine.instruction_counter;
    match machine.run_steps(count) {
        Err(error) => Err(error.message()),
        Ok(run) => Ok(
            Response::Ran(run_report(machine, RunStop::Reason(run.stop_reason), start, None)),
        ),
    }
}

/// Runs a machine for so many clock cycles, or until something other than sleep stops it.
fn run_for_cycles(machine: &mut GbMachine, cycles: u64) -> (result: Result<Response, String>)
    requires
        old(machine)@.wf(),
        old(machine)@.room_for_cycles(old(machine)@.cycle_counter, cycles),
    ensures
        final(machine)@ == old(machine)@.run_for_cycles(
            old(machine)@.cycle_counter,
            cycles,
        ).machine,
        final(machine)@.runs_on(old(machine)@),
        final(machine)@.within_cycles(old(machine)@, cycles),
        run_answer(
            old(machine)@,
            old(machine)@.run_for_cycles(old(machine)@.cycle_counter, cycles),
            cycle_stop(old(machine)@.run_for_cycles(old(machine)@.cycle_counter, cycles)),
            true,
            result,
        ),
{
    let start: u64 = machine.instruction_counter;
    let start_cycles: u64 = machine.cycle_counter;
    match machine.run_cycles(cycles) {
        Err(error) => Err(error.message()),
        Ok(run) => {
            let stop: RunStop = match run.stop_reason {
                StopReason::RunLimitReached => RunStop::CyclesSpent,
                other => RunStop::Reason(other),
            };
            Ok(Response::Ran(run_report(machine, stop, start, Some(start_cycles))))
        },
    }
}

fn inspect_memory(machine: &GbMachine, region: &str, address: u32, len: usize) -> (result: Result<
    Response,
    String,
>)
    requires
        machine@.wf(),
    ensures
        memory_answer(machine@, region@, address, len, result),
{
    let region: MemoryRegion = match parse_memory_region(region) {
        Ok(region) => region,
        Err(error) => return Err(error),
    };
    match machine.inspect_memory(region, address, len) {
        Some(bytes) => Ok(Response::Memory { region, address, bytes }),
        None => Err("requested memory range is unavailable".to_owned()),
    }
}

fn disassemble(machine: &GbMachine, address: u32, count: Option<usize>) -> (result: Result<
    Response,
    String,
>)
    requires
        machine@.wf(),
    ensures
        listing_answer(machine@, address, count, result),
{
    if address > 0xFFFF {
        return Err(joined("address out of range: ", decimal_text(address as u64).as_str()));
    }
    let count: usize = match count {
        Some(count) => count,
        None => 8,
    };
    Ok(Response::Instructions(GbMachine::disassemble_range(machine, address as u16, count)))
}

fn serial_output(machine: &GbMachine, encoding: &Option<String>) -> (result: Result<
    Response,
    String,
>)
    requires
        machine@.serial_output.len() * 3 <= isize::MAX,
    ensures
        serial_answer(machine@.serial_output, optional_text(*encoding), result),
{
    let bytes: &[u8] = GbMachine::serial_output(machine);
    let encoding: &str = match encoding {
        Some(encoding) => encoding.as_str(),
        None => "text",
    };
    if same_text(encoding, "text") {
        Ok(Response::SerialText(text_from_utf8_lossy(bytes)))
    } else if same_text(encoding, "bytes") {
        Ok(Response::SerialBytes(vstd::slice::slice_to_vec(bytes)))
    } else if same_text(encoding, "base64") {
        Ok(Response::SerialBase64(base64_encode(bytes)))
    } else {
        Err(joined("unsupported serial encoding: ", encoding))
    }
}

fn render_frame(machine: &GbMachine, target: &Option<String>, encoding: &Option<String>) -> (result:
    Result<Response, String>)
    ensures
        frame_answer(machine@, optional_text(*target), optional_text(*encoding), result),
{
    let target: &str = match target {
        Some(target) => target.as_str(),
        None => "main",
    };
    match parse_render_target(target) {
        Ok(_) => {},
        Err(error) => return Err(error),
    }
    let encoding: &str = match encoding {
        Some(encoding) => encoding.as_str(),
        None => "base64",
    };
    let frame: FrameBuffer = machine.draw_frame();
    if same_text(encoding, "base64") {
        Ok(
            Response::FrameBase64 {
                width: frame.width,
                height: frame.height,
                bytes_base64: base64_encode(frame.pixels_rgba8.as_slice()),
            },
        )
    } else if same_text(encoding, "summary") {
        Ok(
            Response::FrameSummary {
                width: frame.width,
                height: frame.height,
                byte_len: frame.pixels_rgba8.len(),
            },
        )
    } else {
        Err(joined("unsupported frame encoding: ", encoding))
    }
}

fn recent_trace(machine: &GbMachine, limit: Option<usize>) -> (entries: Vec<TraceEntry>)
    ensures
        entries@ == last_entries(machine@.trace, limit),
{
    let trace: Vec<TraceEntry> = GbMachine::trace_entries(machine);
    let take: usize = match limit {
        Some(limit) => limit,
        None => trace.len(),
    };
    let start: usize = trace.len().saturating_sub(take);
    let entries: Vec<TraceEntry> = vstd::slice::slice_to_vec(
        vstd::slice::slice_subrange(trace.as_slice(), start, trace.len()),
    );
    assert(entries@ =~= last_entries(machine@.trace, limit));
    entries
}

fn input_report(machine: &GbMachine) -> (response: Response)
    ensures
        response matches Response::Input { buttons, p1 } && names_of(buttons@)
            == machine@.held_buttons(8) && p1 == machine@.read_io_value(IO_START),
{
    Response::Input { buttons: machine.pressed_button_names(), p1: machine.read_io_value(IO_START) }
}

impl SessionState {
    fn load_rom(
        &mut self,
        path: String,
        rom: Vec<u8>,
        model: Option<String>,
        bootrom: Option<Vec<u8>>,
        cart_state_path: Option<String>,
    ) -> (result: Result<Response, String>)
        requires
            old(self)@.wf(),
        ensures
            final(self)@.wf(),
            rom_loaded(
                old(self)@,
                final(self)@,
                path@,
                rom@,
                optional_text(model),
                optional_bytes(bootrom),
                optional_text(cart_state_path),
                result,
            ),
    {
        let model: GbModel = match parse_model(&model) {
            Ok(model) => model,
            Err(error) => return Err(error),
        };
        let machine: GbMachine = match GbMachine::new_with_model_and_bootrom(rom, model, bootrom) {
            Ok(machine) => machine,
            Err(error) => return Err(error.message()),
        };
        let kept: Option<String> = match cart_state_path {
            Some(path) => Some(path),
            None => {
                if machine.cartridge_has_battery() || machine.cartridge_has_rtc() {
                    Some(joined(path.as_str(), ".gbbrain-cart.json"))
                } else {
                    None
                }
            },
        };
        let response: Response = Response::RomLoaded {
            rom_path: path.clone(),
            cartridge: machine.cartridge_info(),
            cart_state_path: kept.clone(),
            report: machine_report(&machine),
        };
        self.machine = Some(machine);
        self.rom_path = Some(path);
        self.cart_state_path = kept;
        Ok(response)
    }

    fn load_snapshot(&mut self, state: &SnapshotState) -> (result: Result<Response, String>)
        requires
            old(self)@.wf(),
            state.complete(),
            state.sound(),
        ensures
            final(self)@.wf(),
            match state.fault() {
                Some(fault) => final(self)@ == old(self)@ && fails(result, error_text(fault)),
                None => {
                    &&& final(self)@ == old(self)@.with_machine(state.machine())
                    &&& result matches Ok(Response::Report(report)) && report == report_of(
                        state.machine(),
                    )
                },
            },
    {
        let machine: GbMachine = match GbMachine::load_state(state) {
            Ok(machine) => machine,
            Err(error) => return Err(error.message()),
        };
        let report: MachineReport = machine_report(&machine);
        self.machine = Some(machine);
        Ok(Response::Report(report))
    }

    /// What is left to do when the session ends: cartridge state that is to be written.
    fn shutdown(&self) -> (save: Option<CartSave>)
        requires
            self@.wf(),
        ensures
            match (self@.machine, self@.cart_state_path) {
                (Some(machine), Some(path)) => save matches Some(kept) && kept.path@ == path
                    && saved_cartridge(kept.state, machine.cartridge),
                _ => save is None,
            },
    {
        match (&self.machine, &self.cart_state_path) {
            (Some(machine), Some(path)) => match machine.save_cartridge_state() {
                Ok(state) => Some(CartSave { path: path.clone(), state }),
                Err(_) => None,
            },
            _ => None,
        }
    }

    /// Answers a request.
    pub fn handle(&mut self, request: Request) -> (result: Result<Response, String>)
        requires
            old(self)@.wf(),
            answerable(request, old(self)@),
        ensures
            final(self)@.wf(),
            answered(request, old(self)@, final(self)@, result),
            old(self)@.machine is Some && needs_machine(request) ==> final(self)@.machine is Some
                && paced(request, old(self)@.machine->0, final(self)@.machine->0),
    {
        match request {
            Request::Ping => Ok(Response::Pong),
            Request::Help => Ok(
                Response::Help {
                    commands: command_list(),
                    breakpoint_kinds: breakpoint_kind_list(),
                    models: model_list(),
                },
            ),
            Request::LoadRom { path, rom, model, bootrom, cart_state_path } => self.load_rom(
                path,
                rom,
                model,
                bootrom,
                cart_state_path,
            ),
            Request::LoadSnapshot { state } => self.load_snapshot(&state),
            Request::Shutdown => Ok(Response::Shutdown { save: self.shutdown() }),
            request => match self.machine.take() {
                None => Err(no_rom()),
                Some(machine) => {
                    let mut machine: GbMachine = machine;
                    let ghost asked = request;
                    assert forall|session: SessionView|
                        session.machine == Some(machine@) implies #[trigger] answerable(
                        asked,
                        session,
                    ) by {
                        assert(answerable(asked, old(self)@));
                    }
                    let result: Result<Response, String> = drive(&mut machine, request);
                    self.machine = Some(machine);
                    proof {
                        let start = old(self)@.machine->0;
                        assert(machine_answer(
                            asked,
                            start,
                            old(self)@,
                            old(self)@.with_machine(self@.machine->0),
                            result,
                        ));
                        assert(self@ == old(self)@.with_machine(self@.machine->0));
                    }
                    result
                },
            },
        }
    }
}

/// Whether a request reads or drives the machine.
pub open spec fn needs_machine(request: Request) -> bool {
    !(request is Ping || request is Help || request is LoadRom || request is LoadSnapshot
        || request is Shutdown)
}

/// Answers a request that reads or drives the machine.
fn drive(machine: &mut GbMachine, request: Request) -> (result: Result<Response, String>)
    requires
        old(machine)@.wf(),
        needs_machine(request),
        forall|session: SessionView|
            session.machine == Some(old(machine)@) ==> #[trigger] answerable(request, session),
    ensures
        final(machine)@.wf(),
        paced(request, old(machine)@, final(machine)@),
        forall|session: SessionView|
            session.machine == Some(old(machine)@) ==> #[trigger] machine_answer(
                request,
                old(machine)@,
                session,
                session.with_machine(final(machine)@),
                result,
            ),
{
    let ghost start = SessionView {
        machine: Some(machine@),
        rom_path: None,
        cart_state_path: None,
    };
    assert(answerable(request, start));
    match request {
        Request::CartridgeInfo => Ok(Response::Cartridge(machine.cartridge_info())),
        Request::Reset => {
            machine.reset_state();
            Ok(Response::Report(machine_report(machine)))
        },
        Request::Step { count } => step(
            machine,
            match count {
                Some(count) => count,
                None => 1,
            },
        ),
        Request::RunForCycles { cycles } => run_for_cycles(machine, cycles),
        Request::RunForInstructions { count } => run_for_instructions(machine, count),
        Request::Run { max_instructions } => run_for_instructions(
            machine,
            match max_instructions {
                Some(limit) => limit,
                None => DEFAULT_RUN_LIMIT as u64,
            },
        ),
        Request::Snapshot => Ok(Response::Report(machine_report(machine))),
        Request::InspectMemory { region, address, len } => inspect_memory(
            machine,
            region.as_str(),
            address,
            len,
        ),
        Request::ReadAddress { address } => {
            let value: u8 = machine.read_system_address(address);
            Ok(Response::Byte { address, value })
        },
        Request::WriteAddress { address, value } => {
            machine.write_system_address(address, value);
            Ok(Response::Byte { address, value })
        },
        Request::SetInput { buttons } => match parse_buttons(&buttons) {
            Ok(mask) => {
                GbMachine::set_pressed_buttons_mask(machine, mask);
                Ok(input_report(machine))
            },
            Err(error) => Err(error),
        },
        Request::GetInput => Ok(input_report(machine)),
        Request::Disassemble { address, count } => disassemble(machine, address, count),
        Request::SaveSnapshot => match machine.save_state() {
            Ok(state) => Ok(Response::State(state)),
            Err(error) => Err(error.message()),
        },
        Request::SaveCartState => match machine.save_cartridge_state() {
            Ok(state) => Ok(Response::CartState(state)),
            Err(error) => Err(error.message()),
        },
        Request::LoadCartState { state } => match machine.load_cartridge_state(&state) {
            Ok(()) => Ok(Response::Loaded),
            Err(error) => Err(error.message()),
        },
        Request::ExportSaveRam => Ok(Response::SaveRam(GbMachine::save_cartridge_ram(machine))),
        Request::ImportSaveRam { bytes } => match GbMachine::load_cartridge_ram(
            machine,
            bytes.as_slice(),
        ) {
            Ok(()) => Ok(Response::Loaded),
            Err(error) => Err(error.message()),
        },
        Request::AddBreakpoint { kind, address } => match parse_breakpoint(kind.as_str(), address) {
            Ok(breakpoint) => {
                machine.breakpoints.push(breakpoint);
                Ok(Response::BreakpointAdded { kind, address })
            },
            Err(error) => Err(error),
        },
        Request::ClearBreakpoints => {
            machine.breakpoints.clear();
            Ok(Response::Cleared)
        },
        Request::GetTrace { limit } => Ok(Response::Trace(recent_trace(machine, limit))),
        Request::ClearTrace => {
            GbMachine::clear_trace(machine);
            Ok(Response::Cleared)
        },
        Request::GetSerialOutput { encoding } => serial_output(machine, &encoding),
        Request::ClearSerialOutput => {
            GbMachine::clear_serial_output(machine);
            Ok(Response::Cleared)
        },
        Request::RenderFrame { target, encoding } => render_frame(machine, &target, &encoding),
        _ => Err(no_rom()),
    }
}

/// The format of an encoded machine state.
pub fn state_format() -> (format: &'static str)
    ensures
        format@ == "gbbrain.gb.state.v1+json"@,
{
    "gbbrain.gb.state.v1+json"
}

/// The text of encoded state.
pub fn encode_state(bytes: &[u8]) -> (text: String)
    requires
        base64_len(bytes@.len()) <= isize::MAX,
    ensures
        text@ == base64_text(bytes@),
        base64_decoded(text@) is Ok && base64_decoded(text@)->Ok_0 == bytes@,
{
    base64_encode(bytes)
}

/// What text of encoded state decodes to, of what the decoder made of it.
pub open spec fn decoded_state(decoded: Result<Seq<u8>, Seq<char>>, what: Seq<char>) -> Result<
    Seq<u8>,
    Seq<char>,
> {
    match decoded {
        Ok(bytes) => Ok(bytes),
        Err(error) => Err("invalid base64 "@ + what + ": "@ + error),
    }
}

/// The result of a decoding, with the error's text completed by what was decoded.
pub fn name_decoding(decoded: Result<Vec<u8>, String>, what: &str) -> (result: Result<
    Vec<u8>,
    String,
>)
    ensures
        match decoded {
            Ok(bytes) => result is Ok && result->Ok_0@ == bytes@,
            Err(error) => fails(result, "invalid base64 "@ + what@ + ": "@ + error@),
        },
{
    match decoded {
        Ok(bytes) => Ok(bytes),
        Err(error) => {
            let mut text: String = joined3("invalid base64 ", what, ": ");
            text.append(error.as_str());
            Err(text)
        },
    }
}

/// The bytes of encoded state, such as a snapshot.
pub fn decode_state(text: &str, what: &str) -> (result: Result<Vec<u8>, String>)
    ensures
        match decoded_state(base64_decoded(text@), what@) {
            Ok(bytes) => result is Ok && result->Ok_0@ == bytes,
            Err(error) => fails(result, error),
        },
{
    name_decoding(base64_decode(text), what)
}

/// Why a ROM file could not be read.
pub fn rom_read_error(path: &str, error: &str) -> (text: String)
    ensures
        text@ == "failed to read ROM '"@ + path@ + "': "@ + error@,
{
    let mut text: String = joined3("failed to read ROM '", path, "': ");
    text.append(error);
    text
}

} // verus!
