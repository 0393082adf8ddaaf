//! Driving and inspecting the machine, and what it reports of itself.

use vstd::prelude::*;

use crate::bytes::slice_range;
use crate::cartridge::{persistent_fault, saved_cartridge, CartridgeState, PersistentState};
use crate::interface::{
    AddressSpace, Breakpoint, CartridgeInfo, DisassembledInstruction, FrameBuffer, Machine,
    MachineControl, MachineSnapshot, MemoryRegion, Platform, RenderTarget, RunResult, TraceEntry,
    WatchpointHit, WatchpointKind,
};
use crate::machine::{
    ExecState, GbMachine, MachineState, DEFAULT_RUN_LIMIT, FRAME_HEIGHT, FRAME_WIDTH, IF_REGISTER,
    LCDC_REGISTER, LY_REGISTER, STAT_REGISTER,
};
use crate::model::{model_name, GbError, GbModel};
use crate::step::run_result;

verus! {

/// Timing and debug counters of this machine.
#[derive(Debug, Clone, Copy, PartialEq, Eq, Structural)]
pub struct DebugState {
    pub cycle_counter: u64,
    pub div_counter: u16,
    pub ppu_cycle_counter: u16,
    pub ppu_mode: u8,
    pub ime: bool,
    pub ie: u8,
    pub if_reg: u8,
    pub lcdc: u8,
    pub stat: u8,
    pub ly: u8,
}

/// The bytes of a part of a memory, where all of it is there.
pub open spec fn part(bytes: Seq<u8>, start: int, len: int) -> Option<Seq<u8>> {
    if start + len <= bytes.len() {
        Some(bytes.subrange(start, start + len))
    } else {
        None
    }
}

/// The first of two answers that is one.
pub open spec fn either(first: Option<Seq<u8>>, second: Option<Seq<u8>>) -> Option<Seq<u8>> {
    match first {
        Some(bytes) => Some(bytes),
        None => second,
    }
}

impl MachineState {
    pub open spec fn halted(self) -> bool {
        self.exec_state == ExecState::Halt || self.exec_state == ExecState::Stop
    }

    pub open spec fn snapshot(self) -> MachineSnapshot {
        MachineSnapshot {
            registers: self.snapshot_registers(),
            halted: self.halted(),
            instruction_counter: self.instruction_counter,
        }
    }

    pub open spec fn debug_state(self) -> DebugState {
        DebugState {
            cycle_counter: self.cycle_counter,
            div_counter: self.div_counter,
            ppu_cycle_counter: self.ppu_cycle_counter,
            ppu_mode: self.ppu_mode.number(),
            ime: self.ime,
            ie: self.ie,
            if_reg: self.reg(IF_REGISTER),
            lcdc: self.reg(LCDC_REGISTER),
            stat: self.reg(STAT_REGISTER),
            ly: self.reg(LY_REGISTER),
        }
    }

    /// So many bytes of the address space, where they do not go past its end. Asking for none
    /// gives the byte at the address, too.
    pub open spec fn system_bytes(self, address: int, len: int) -> Option<Seq<u8>> {
        let count = if len == 0 {
            1
        } else {
            len
        };
        if len <= 0xFFFF && address + count <= 0x10000 {
            Some(Seq::new(count as nat, |i: int| self.peek8((address + i) as u16)))
        } else {
            None
        }
    }

    /// What an inspection shows: of RAM, work RAM, and the cartridge's RAM where the range does
    /// not lie in it.
    pub open spec fn inspect_memory(self, region: MemoryRegion, address: int, len: int) -> Option<
        Seq<u8>,
    > {
        match region {
            MemoryRegion::Rom => part(self.cartridge.rom, address, len),
            MemoryRegion::Ram => either(
                part(self.wram, address, len),
                part(self.cartridge.ram, address, len),
            ),
            MemoryRegion::Vram => part(self.vram, address, len),
            MemoryRegion::Oam => part(self.oam, address, len),
            MemoryRegion::AddressSpace(AddressSpace::System) => self.system_bytes(address, len),
        }
    }

    /// The names of the buttons of the first so many bits that are held.
    pub open spec fn held_buttons(self, bits: nat) -> Seq<Seq<char>>
        decreases bits,
    {
        if bits == 0 {
            Seq::empty()
        } else {
            let before = self.held_buttons((bits - 1) as nat);
            if self.joypad.pressed & (1u8 << ((bits - 1) as u8)) != 0 {
                before.push(button_name(bits - 1))
            } else {
                before
            }
        }
    }
}

/// The name of a button.
pub open spec fn button_name(bit: int) -> Seq<char> {
    if bit == 0 {
        "right"@
    } else if bit == 1 {
        "left"@
    } else if bit == 2 {
        "up"@
    } else if bit == 3 {
        "down"@
    } else if bit == 4 {
        "a"@
    } else if bit == 5 {
        "b"@
    } else if bit == 6 {
        "select"@
    } else {
        "start"@
    }
}

/// The one button that a mask holds.
pub open spec fn single_button(pressed: u8) -> Option<int> {
    if pressed == 0x01 {
        Some(0)
    } else if pressed == 0x02 {
        Some(1)
    } else if pressed == 0x04 {
        Some(2)
    } else if pressed == 0x08 {
        Some(3)
    } else if pressed == 0x10 {
        Some(4)
    } else if pressed == 0x20 {
        Some(5)
    } else if pressed == 0x40 {
        Some(6)
    } else if pressed == 0x80 {
        Some(7)
    } else {
        None
    }
}

/// The characters of each of some names.
pub open spec fn names_of(names: Seq<&'static str>) -> Seq<Seq<char>> {
    names.map_values(|name: &'static str| name@)
}

fn button_text(bit: u8) -> (name: &'static str)
    ensures
        name@ == button_name(bit as int),
{
    match bit {
        0 => "right",
        1 => "left",
        2 => "up",
        3 => "down",
        4 => "a",
        5 => "b",
        6 => "select",
        _ => "start",
    }
}

impl GbMachine {
    /// The recent instructions, oldest first.
    pub fn trace_entries(&self) -> (entries: Vec<TraceEntry>)
        ensures
            entries@ == self@.trace,
    {
        let mut entries: Vec<TraceEntry> = Vec::new();
        let mut i: usize = 0;
        while i < self.trace.len()
            invariant
                i <= self.trace@.len(),
                entries@ == self.trace@.take(i as int),
            decreases self.trace@.len() - i,
        {
            entries.push(self.trace[i]);
            i = i + 1;
            assert(entries@ =~= self.trace@.take(i as int));
        }
        assert(entries@ =~= self.trace@);
        entries
    }

    pub fn clear_trace(&mut self)
        ensures
            final(self)@ == (MachineState { trace: Seq::empty(), ..old(self)@ }),
    {
        self.trace.clear();
    }

    /// What the program sent over the serial port.
    pub fn serial_output(&self) -> (bytes: &[u8])
        ensures
            bytes@ == self@.serial_output,
    {
        self.serial_output.as_slice()
    }

    pub fn clear_serial_output(&mut self)
        ensures
            final(self)@ == (MachineState { serial_output: Seq::empty(), ..old(self)@ }),
    {
        self.serial_output.clear();
    }

    /// The watchpoint that the last step hit: the kind of access, and the address.
    pub fn last_watchpoint(&self) -> (hit: Option<(&'static str, u16)>)
        ensures
            match self@.pending_watchpoint {
                Some(found) => hit matches Some((kind, address)) && kind@ == watchpoint_kind_name(
                    found.kind,
                ) && address == found.address,
                None => hit is None,
            },
    {
        match self.pending_watchpoint {
            Some(hit) => {
                let kind: &'static str = match hit.kind {
                    WatchpointKind::Read => "read",
                    WatchpointKind::Write => "write",
                };
                Some((kind, hit.address))
            },
            None => None,
        }
    }

    pub fn debug_state(&self) -> (state: DebugState)
        ensures
            state == self@.debug_state(),
    {
        DebugState {
            cycle_counter: self.cycle_counter,
            div_counter: self.div_counter,
            ppu_cycle_counter: self.ppu_cycle_counter,
            ppu_mode: self.ppu_mode.bits(),
            ime: self.ime,
            ie: self.ie,
            if_reg: self.register(IF_REGISTER),
            lcdc: self.register(LCDC_REGISTER),
            stat: self.register(STAT_REGISTER),
            ly: self.register(LY_REGISTER),
        }
    }

    pub fn model(&self) -> (model: GbModel)
        ensures
            model == self@.model,
    {
        self.model
    }

    pub fn cartridge_title(&self) -> (title: &str)
        ensures
            title@ == self@.cartridge.title,
    {
        self.cartridge.title()
    }

    pub fn cartridge_type_code(&self) -> (code: u8)
        ensures
            code == self@.cartridge.cartridge_type_code,
    {
        self.cartridge.cartridge_type_code()
    }

    pub fn cartridge_has_battery(&self) -> (battery: bool)
        ensures
            battery == self@.cartridge.kind.battery_backed(),
    {
        self.cartridge.has_battery()
    }

    pub fn cartridge_has_rtc(&self) -> (rtc: bool)
        ensures
            rtc == self@.cartridge.kind.has_clock(),
    {
        self.cartridge.has_rtc()
    }

    /// What of the cartridge outlives the machine.
    pub fn save_cartridge_state(&self) -> (state: Result<PersistentState, GbError>)
        requires
            self@.wf(),
        ensures
            state is Ok,
            saved_cartridge(state->Ok_0, self@.cartridge),
    {
        Ok(self.cartridge.save_persistent_state())
    }

    /// Takes over a saved state, if it is one of the inserted cartridge.
    pub fn load_cartridge_state(&mut self, state: &PersistentState) -> (result: Result<(), GbError>)
        requires
            old(self)@.wf(),
            state.sound(),
        ensures
            final(self)@.wf(),
            match persistent_fault(old(self)@.cartridge, *state) {
                Some(fault) => result == Err::<(), GbError>(fault) && final(self)@ == old(self)@,
                None => result is Ok && final(self)@ == (MachineState {
                    cartridge: CartridgeState {
                        ram: state.ram@,
                        rtc: state.rtc,
                        ..old(self)@.cartridge
                    },
                    ..old(self)@
                }),
            },
    {
        self.cartridge.load_persistent_state(state)
    }

    /// The cartridge's RAM.
    pub fn save_cartridge_ram(&self) -> (bytes: Vec<u8>)
        ensures
            bytes@ == self@.cartridge.ram,
    {
        vstd::slice::slice_to_vec(self.cartridge.ram_data())
    }

    /// Replaces the cartridge's RAM, by as many bytes as it has.
    pub fn load_cartridge_ram(&mut self, bytes: &[u8]) -> (result: Result<(), GbError>)
        requires
            old(self)@.wf(),
        ensures
            final(self)@.wf(),
            bytes@.len() == old(self)@.cartridge.ram.len() ==> {
                &&& result is Ok
                &&& final(self)@ == (MachineState {
                    cartridge: CartridgeState { ram: bytes@, ..old(self)@.cartridge },
                    ..old(self)@
                })
            },
            bytes@.len() != old(self)@.cartridge.ram.len() ==> {
                &&& result == Err::<(), GbError>(
                    GbError::PersistentStateRamSizeMismatch {
                        expected: old(self)@.cartridge.ram.len() as usize,
                        actual: bytes@.len() as usize,
                    },
                )
                &&& final(self)@ == old(self)@
            },
    {
        self.cartridge.load_ram_data(bytes)
    }

    /// The button that is held, if it is the only one.
    pub fn pressed_buttons(&self) -> (names: &'static [&'static str])
        ensures
            match single_button(self@.joypad.pressed) {
                Some(bit) => names@.len() == 1 && names@[0]@ == button_name(bit),
                None => names@.len() == 0,
            },
    {
        match self.joypad.pressed {
            0x01 => &["right"],
            0x02 => &["left"],
            0x04 => &["up"],
            0x08 => &["down"],
            0x10 => &["a"],
            0x20 => &["b"],
            0x40 => &["select"],
            0x80 => &["start"],
            _ => &[],
        }
    }

    /// The buttons that are held.
    pub fn pressed_button_names(&self) -> (names: Vec<&'static str>)
        ensures
            names_of(names@) == self@.held_buttons(8),
    {
        let mut names: Vec<&'static str> = Vec::new();
        let mut bit: u8 = 0;
        assert(names_of(names@) =~= self@.held_buttons(0));
        while bit < 8
            invariant
                bit <= 8,
                names_of(names@) == self@.held_buttons(bit as nat),
            decreases 8 - bit,
        {
            if self.joypad.pressed & (1u8 << bit) != 0 {
                let name: &'static str = button_text(bit);
                let ghost before = names@;
                names.push(name);
                assert(names_of(names@) =~= names_of(before).push(button_name(bit as int)));
            }
            bit = bit + 1;
        }
        names
    }

    fn system_memory_slice(&self, address: u16, len: usize) -> (bytes: Option<Vec<u8>>)
        requires
            self@.wf(),
        ensures
            match bytes {
                Some(found) => self@.system_bytes(address as int, len as int) == Some(found@),
                None => self@.system_bytes(address as int, len as int) is None,
            },
    {
        if len > 0xFFFF {
            return None;
        }
        let extra: u16 = (len as u16).saturating_sub(1);
        let end: u16 = match address.checked_add(extra) {
            Some(end) => end,
            None => return None,
        };
        let mut bytes: Vec<u8> = Vec::with_capacity(len);
        let mut offset: u16 = 0;
        let mut current: u16 = address;
        while current < end
            invariant
                self@.wf(),
                address <= current <= end,
                offset == current - address,
                bytes@ == Seq::new(offset as nat, |i: int| self@.peek8((address + i) as u16)),
            decreases end - current,
        {
            bytes.push(self.peek8(current));
            current = current + 1;
            offset = offset + 1;
            assert(bytes@ =~= Seq::new(
                offset as nat,
                |i: int| self@.peek8((address + i) as u16),
            ));
        }
        bytes.push(self.peek8(end));
        assert(bytes@ =~= self@.system_bytes(address as int, len as int)->0);
        Some(bytes)
    }
}

/// The name of a kind of access.
pub open spec fn watchpoint_kind_name(kind: WatchpointKind) -> Seq<char> {
    match kind {
        WatchpointKind::Read => "read"@,
        WatchpointKind::Write => "write"@,
    }
}

impl Machine for GbMachine {
    type Error = GbError;

    open spec fn valid(&self) -> bool {
        self@.wf()
    }

    fn platform(&self) -> (platform: Platform)
        ensures
            platform == Platform::Gb,
    {
        Platform::Gb
    }

    fn model_name(&self) -> (name: &'static str)
        ensures
            name@ == model_name(self@.model),
    {
        self.model.as_name()
    }

    fn snapshot(&self) -> (snapshot: MachineSnapshot)
        ensures
            snapshot == self@.snapshot(),
    {
        MachineSnapshot {
            registers: self.snapshot_registers(),
            halted: matches!(self.exec_state, ExecState::Halt | ExecState::Stop),
            instruction_counter: self.instruction_counter,
        }
    }

    fn inspect_memory(&self, region: MemoryRegion, address: u32, len: usize) -> (bytes: Option<
        Vec<u8>,
    >)
        ensures
            match bytes {
                Some(found) => self@.inspect_memory(region, address as int, len as int) == Some(
                    found@,
                ),
                None => self@.inspect_memory(region, address as int, len as int) is None,
            },
    {
        let start: usize = address as usize;
        match region {
            MemoryRegion::Rom => slice_range(self.cartridge.rom_data(), start, len),
            MemoryRegion::Ram => match slice_range(&self.wram, start, len) {
                Some(bytes) => Some(bytes),
                None => slice_range(self.cartridge.ram_data(), start, len),
            },
            MemoryRegion::Vram => slice_range(&self.vram, start, len),
            MemoryRegion::Oam => slice_range(&self.oam, start, len),
            MemoryRegion::AddressSpace(AddressSpace::System) => {
                if address > 0xFFFF {
                    None
                } else {
                    self.system_memory_slice(address as u16, len)
                }
            },
        }
    }

    fn read_address(&mut self, address: u16) -> (byte: u8)
        ensures
            byte == old(self)@.read8(address),
            final(self)@ == old(self)@.after_read8(address),
    {
        self.read8(address)
    }

    fn write_address(&mut self, address: u16, value: u8)
        ensures
            final(self)@ == old(self)@.write8(address, value),
    {
        self.write8(address, value);
    }

    fn trace_entries(&self) -> (entries: Vec<TraceEntry>)
        ensures
            entries@ == self@.trace,
    {
        GbMachine::trace_entries(self)
    }

    fn clear_trace(&mut self)
        ensures
            final(self)@ == (MachineState { trace: Seq::empty(), ..old(self)@ }),
    {
        GbMachine::clear_trace(self);
    }

    fn serial_output(&self) -> (bytes: &[u8])
        ensures
            bytes@ == self@.serial_output,
    {
        GbMachine::serial_output(self)
    }

    fn clear_serial_output(&mut self)
        ensures
            final(self)@ == (MachineState { serial_output: Seq::empty(), ..old(self)@ }),
    {
        GbMachine::clear_serial_output(self);
    }

    fn cartridge_info(&self) -> (info: CartridgeInfo)
        ensures
            info.title@ == self@.cartridge.title,
            info.type_code == self@.cartridge.cartridge_type_code,
            info.has_battery == self@.cartridge.kind.battery_backed(),
            info.has_rtc == self@.cartridge.kind.has_clock(),
    {
        CartridgeInfo {
            title: self.cartridge.title().to_owned(),
            type_code: self.cartridge.cartridge_type_code(),
            has_battery: self.cartridge.has_battery(),
            has_rtc: self.cartridge.has_rtc(),
        }
    }

    fn pressed_buttons_mask(&self) -> (pressed: u8)
        ensures
            pressed == self@.joypad.pressed,
    {
        self.joypad.pressed
    }

    fn set_pressed_buttons_mask(&mut self, pressed: u8)
        ensures
            final(self)@ == old(self)@.set_pressed_buttons_mask(pressed),
    {
        GbMachine::set_pressed_buttons_mask(self, pressed);
    }

    fn last_watchpoint_hit(&self) -> (hit: Option<WatchpointHit>)
        ensures
            hit == self@.pending_watchpoint,
    {
        self.pending_watchpoint
    }

    fn disassemble_range(&self, start: u16, count: usize) -> (listing: Vec<DisassembledInstruction>)
        ensures
            listing@.len() == count,
            forall|i: int|
                0 <= i < count ==> (#[trigger] listing@[i])@ == self@.disassemble_one(
                    self@.listing_address(start, i as nat),
                ),
            forall|i: int| 0 <= i < count ==> 1 <= (#[trigger] listing@[i]).len <= 3,
    {
        GbMachine::disassemble_range(self, start, count)
    }

    fn save_cartridge_ram(&self) -> (bytes: Vec<u8>)
        ensures
            bytes@ == self@.cartridge.ram,
    {
        GbMachine::save_cartridge_ram(self)
    }

    fn load_cartridge_ram(&mut self, bytes: &[u8]) -> (result: Result<(), GbError>)
        ensures
            bytes@.len() == old(self)@.cartridge.ram.len() ==> {
                &&& result is Ok
                &&& final(self)@ == (MachineState {
                    cartridge: CartridgeState { ram: bytes@, ..old(self)@.cartridge },
                    ..old(self)@
                })
            },
            bytes@.len() != old(self)@.cartridge.ram.len() ==> {
                &&& result == Err::<(), GbError>(
                    GbError::PersistentStateRamSizeMismatch {
                        expected: old(self)@.cartridge.ram.len() as usize,
                        actual: bytes@.len() as usize,
                    },
                )
                &&& final(self)@ == old(self)@
            },
    {
        GbMachine::load_cartridge_ram(self, bytes)
    }

    fn render_frame(&self, target: RenderTarget) -> (frame: Result<FrameBuffer, GbError>)
        ensures
            frame is Ok,
            frame->Ok_0.width == FRAME_WIDTH,
            frame->Ok_0.height == FRAME_HEIGHT,
            frame->Ok_0.pixels_rgba8@ == self@.frame_bytes(4 * 160 * 144),
    {
        Ok(self.draw_frame())
    }
}

impl MachineControl for GbMachine {
    type Error = GbError;

    open spec fn drivable(&self) -> bool {
        self@.wf()
    }

    open spec fn can_step(&self) -> bool {
        self@.steppable(1)
    }

    open spec fn can_run(&self) -> bool {
        self@.room_for(DEFAULT_RUN_LIMIT as nat)
    }

    fn reset(&mut self) -> (result: Result<(), GbError>)
        ensures
            result is Ok,
            final(self)@ == old(self)@.reset(),
    {
        self.reset_state();
        Ok(())
    }

    fn run(&mut self) -> (result: Result<RunResult, GbError>)
        ensures
            final(self)@ == old(self)@.run(DEFAULT_RUN_LIMIT as nat).machine,
            result == run_result(old(self)@.run(DEFAULT_RUN_LIMIT as nat).outcome),
            final(self)@.runs_on(old(self)@),
            final(self)@.within(old(self)@, DEFAULT_RUN_LIMIT as int),
    {
        self.run_steps(DEFAULT_RUN_LIMIT as u64)
    }

    open spec fn can_run_for_cycles(&self, cycles: u64) -> bool {
        self@.room_for_cycles(self@.cycle_counter, cycles)
    }

    fn run_for_cycles(&mut self, cycles: u64) -> (result: Result<RunResult, GbError>)
        ensures
            final(self)@ == old(self)@.run_for_cycles(old(self)@.cycle_counter, cycles).machine,
            result == run_result(
                old(self)@.run_for_cycles(old(self)@.cycle_counter, cycles).outcome,
            ),
            final(self)@.runs_on(old(self)@),
            final(self)@.within_cycles(old(self)@, cycles),
    {
        self.run_cycles(cycles)
    }

    fn step_instruction(&mut self) -> (result: Result<RunResult, GbError>)
        ensures
            final(self)@ == old(self)@.step().machine,
            result == run_result(old(self)@.step().outcome),
            final(self)@.runs_on(old(self)@),
            final(self)@.within(old(self)@, 1),
            final(self)@.logged(old(self)@),
    {
        self.execute_next_instruction()
    }

    fn add_breakpoint(&mut self, breakpoint: Breakpoint) -> (result: Result<(), GbError>)
        ensures
            result is Ok,
            final(self)@ == (MachineState {
                breakpoints: old(self)@.breakpoints.push(breakpoint),
                ..old(self)@
            }),
    {
        self.breakpoints.push(breakpoint);
        Ok(())
    }

    fn clear_breakpoints(&mut self) -> (result: Result<(), GbError>)
        ensures
            result is Ok,
            final(self)@ == (MachineState { breakpoints: Seq::empty(), ..old(self)@ }),
    {
        self.breakpoints.clear();
        Ok(())
    }
}

} // verus!
