//! Memory as the processor sees it: the address map, what blocks an access, watchpoints, and the
//! disturbance of object memory.

use vstd::prelude::*;

use crate::interface::{Breakpoint, WatchpointHit, WatchpointKind};
use crate::io::unmapped_io;
use crate::machine::{
    Bus, GbMachine, MachineState, OamCorruptionKind, ECHO_START, HRAM_START, OAM_END, OAM_START,
    VRAM_END, VRAM_START, WRAM_START,
};
use crate::registers::{high, high_byte, join_bytes, low, low_byte, word};

verus! {

/// The bus that the processor uses for an address.
pub open spec fn cpu_bus(address: u16) -> Bus {
    if address <= 0x7FFF || 0xA000 <= address <= 0xFDFF {
        Bus::External
    } else if address <= 0x9FFF {
        Bus::ExternalVideo
    } else if address <= OAM_END {
        Bus::InternalVideo
    } else {
        Bus::Internal
    }
}

/// The addresses whose use can disturb object memory.
pub open spec fn oam_bug_applies(address: u16) -> bool {
    0xFE00 <= address <= 0xFEFF
}

pub open spec fn is_video_memory(address: u16) -> bool {
    VRAM_START <= address <= VRAM_END || OAM_START <= address <= OAM_END
}

/// The word of a row of object memory.
pub open spec fn oam_word_of(oam: Seq<u8>, row: int, index: int) -> u16 {
    word(oam[row * 8 + index * 2 + 1], oam[row * 8 + index * 2])
}

/// The first word of a disturbed row, of the row's own first word and of the first and third of
/// the row before.
pub open spec fn corrupted_word(kind: OamCorruptionKind, a: u16, b: u16, c: u16) -> u16 {
    match kind {
        OamCorruptionKind::Write => ((a ^ c) & (b ^ c)) ^ c,
        OamCorruptionKind::Read => b | (a & c),
    }
}

/// A disturbed row takes over the row before, but for its first word.
pub open spec fn corrupted_oam(oam: Seq<u8>, row: int, kind: OamCorruptionKind) -> Seq<u8> {
    let first = corrupted_word(
        kind,
        oam_word_of(oam, row, 0),
        oam_word_of(oam, row - 1, 0),
        oam_word_of(oam, row - 1, 2),
    );
    Seq::new(
        oam.len(),
        |i: int|
            if i == row * 8 {
                low(first)
            } else if i == row * 8 + 1 {
                high(first)
            } else if row * 8 + 2 <= i < row * 8 + 8 {
                oam[i - 8]
            } else {
                oam[i]
            },
    )
}

impl MachineState {
    pub open spec fn matching_watchpoint(self, kind: WatchpointKind, address: u16) -> bool {
        match kind {
            WatchpointKind::Read => self.breakpoints.contains(
                Breakpoint::MemoryRead(address as u32),
            ),
            WatchpointKind::Write => self.breakpoints.contains(
                Breakpoint::MemoryWrite(address as u32),
            ),
        }
    }

    #[verifier::opaque]
    pub open spec fn record_watchpoint(self, kind: WatchpointKind, address: u16) -> MachineState {
        if self.matching_watchpoint(kind, address) {
            MachineState { pending_watchpoint: Some(WatchpointHit { kind, address }), ..self }
        } else {
            self
        }
    }

    /// The bus that an active copy reads from.
    pub open spec fn dma_source_bus(self) -> Option<Bus> {
        if !self.dma_active {
            None
        } else if 0x8000 <= self.dma_source <= 0x9FFF {
            Some(Bus::ExternalVideo)
        } else {
            Some(Bus::External)
        }
    }

    /// A copy keeps the processor off the bus it reads from and off object memory.
    pub open spec fn dma_blocks_cpu_access(self, address: u16) -> bool {
        if cpu_bus(address) == Bus::InternalVideo {
            self.dma_active
        } else {
            self.dma_source_bus() == Some(cpu_bus(address))
        }
    }

    /// Whether the picture unit has the memory at an address to itself.
    pub open spec fn hidden_by_ppu(self, address: u16) -> bool {
        ||| self.visible_mode() == 2 && oam_bug_applies(address)
        ||| self.visible_mode() == 3 && is_video_memory(address)
    }

    /// The byte that the address map shows, with no effect.
    #[verifier::opaque]
    pub open spec fn peek8(self, address: u16) -> u8 {
        if self.dma_blocks_cpu_access(address) {
            0xFF
        } else if address <= 0x00FF && self.bootrom_active {
            self.bootrom_byte(address)
        } else if address <= 0x3FFF {
            self.cartridge.lower_rom_byte(address)
        } else if address <= 0x7FFF {
            self.cartridge.upper_rom_byte(address)
        } else if address <= 0x9FFF {
            self.vram[address - VRAM_START]
        } else if address <= 0xBFFF {
            self.cartridge.external_byte(address)
        } else if address <= 0xDFFF {
            self.wram[address - WRAM_START]
        } else if address <= 0xFDFF {
            self.wram[address - ECHO_START]
        } else if address <= 0xFE9F {
            self.oam[address - OAM_START]
        } else if address <= 0xFEFF {
            0xFF
        } else if address <= 0xFF7F {
            if unmapped_io(address) {
                0xFF
            } else {
                self.read_io_value(address)
            }
        } else if address <= 0xFFFE {
            self.hram[address - HRAM_START]
        } else {
            self.ie
        }
    }

    /// What a read leaves behind.
    #[verifier::opaque]
    pub open spec fn after_read8(self, address: u16) -> MachineState {
        self.record_watchpoint(WatchpointKind::Read, address)
    }

    /// The byte that a read gets.
    #[verifier::opaque]
    pub open spec fn read8(self, address: u16) -> u8 {
        if self.hidden_by_ppu(address) {
            0xFF
        } else {
            self.peek8(address)
        }
    }

    /// The row of object memory that the picture unit reads.
    pub open spec fn oam_bug_row(self) -> Option<int> {
        if self.visible_mode() == 2 {
            Some(
                if self.ppu_cycle_counter / 4 < 19 {
                    (self.ppu_cycle_counter / 4) as int
                } else {
                    19
                },
            )
        } else {
            None
        }
    }

    pub open spec fn apply_oam_row_corruption(
        self,
        row: int,
        kind: OamCorruptionKind,
    ) -> MachineState {
        if 0 < row < 20 {
            MachineState { oam: corrupted_oam(self.oam, row, kind), ..self }
        } else {
            self
        }
    }

    #[verifier::opaque]
    pub open spec fn maybe_trigger_oam_bug(
        self,
        address: u16,
        kind: OamCorruptionKind,
    ) -> MachineState {
        match self.oam_bug_row() {
            Some(row) if oam_bug_applies(address) => self.apply_oam_row_corruption(row, kind),
            _ => self,
        }
    }

    /// What a write does that nothing blocks.
    #[verifier::opaque]
    pub open spec fn store8(self, address: u16, value: u8) -> MachineState {
        if address <= 0x7FFF {
            MachineState { cartridge: self.cartridge.after_control(address, value), ..self }
        } else if address <= 0x9FFF {
            MachineState { vram: self.vram.update(address - VRAM_START, value), ..self }
        } else if address <= 0xBFFF {
            MachineState { cartridge: self.cartridge.with_external_byte(address, value), ..self }
        } else if address <= 0xDFFF {
            MachineState { wram: self.wram.update(address - WRAM_START, value), ..self }
        } else if address <= 0xFDFF {
            MachineState { wram: self.wram.update(address - ECHO_START, value), ..self }
        } else if address <= 0xFE9F {
            MachineState { oam: self.oam.update(address - OAM_START, value), ..self }
        } else if address <= 0xFEFF {
            self
        } else if address <= 0xFF7F {
            self.write_io(address, value)
        } else if address <= 0xFFFE {
            MachineState { hram: self.hram.update(address - HRAM_START, value), ..self }
        } else {
            MachineState { ie: value, ..self }
        }
    }

    /// What a write does.
    #[verifier::opaque]
    pub open spec fn write8(self, address: u16, value: u8) -> MachineState {
        let watched = self.record_watchpoint(WatchpointKind::Write, address);
        if watched.visible_mode() == 2 && oam_bug_applies(address) {
            watched.maybe_trigger_oam_bug(address, OamCorruptionKind::Write)
        } else if watched.hidden_by_ppu(address) || watched.dma_blocks_cpu_access(address) {
            watched
        } else {
            watched.store8(address, value)
        }
    }
}

impl GbMachine {
    pub fn matching_watchpoint(&self, kind: WatchpointKind, address: u16) -> (matching: bool)
        ensures
            matching == self@.matching_watchpoint(kind, address),
    {
        let wanted: Breakpoint = match kind {
            WatchpointKind::Read => Breakpoint::MemoryRead(address as u32),
            WatchpointKind::Write => Breakpoint::MemoryWrite(address as u32),
        };
        self.has_breakpoint(wanted)
    }

    /// Whether a breakpoint is set.
    pub fn has_breakpoint(&self, wanted: Breakpoint) -> (found: bool)
        ensures
            found == self@.breakpoints.contains(wanted),
    {
        let mut i: usize = 0;
        while i < self.breakpoints.len()
            invariant
                i <= self.breakpoints@.len(),
                forall|j: int| 0 <= j < i ==> self.breakpoints@[j] != wanted,
            decreases self.breakpoints@.len() - i,
        {
            if self.breakpoints[i] == wanted {
                return true;
            }
            i = i + 1;
        }
        false
    }

    pub fn record_watchpoint(&mut self, kind: WatchpointKind, address: u16)
        requires
            old(self)@.wf(),
        ensures
            final(self)@ == old(self)@.record_watchpoint(kind, address),
            final(self)@ == (MachineState {
                pending_watchpoint: final(self)@.pending_watchpoint,
                ..old(self)@
            }),
            final(self)@.at_once(old(self)@),
    {
        proof {
            reveal(MachineState::record_watchpoint);
        }
        if self.matching_watchpoint(kind, address) {
            self.pending_watchpoint = Some(WatchpointHit { kind, address });
        }
    }

    pub fn cpu_bus(address: u16) -> (bus: Bus)
        ensures
            bus == cpu_bus(address),
    {
        match address {
            0x0000..=0x7FFF | 0xA000..=0xBFFF | 0xC000..=0xDFFF | 0xE000..=0xFDFF => Bus::External,
            0x8000..=0x9FFF => Bus::ExternalVideo,
            0xFE00..=0xFE9F => Bus::InternalVideo,
            _ => Bus::Internal,
        }
    }

    pub fn dma_source_bus(&self) -> (bus: Option<Bus>)
        ensures
            bus == self@.dma_source_bus(),
    {
        if !self.dma_active {
            return None;
        }
        match high_byte(self.dma_source) {
            0x80..=0x9F => Some(Bus::ExternalVideo),
            _ => Some(Bus::External),
        }
    }

    pub fn dma_blocks_cpu_access(&self, address: u16) -> (blocked: bool)
        ensures
            blocked == self@.dma_blocks_cpu_access(address),
    {
        let cpu_bus: Bus = Self::cpu_bus(address);
        if cpu_bus == Bus::InternalVideo {
            return self.dma_active;
        }
        match self.dma_source_bus() {
            Some(source_bus) => source_bus == cpu_bus,
            None => false,
        }
    }

    fn hidden_by_ppu(&self, address: u16) -> (hidden: bool)
        ensures
            hidden == self@.hidden_by_ppu(address),
    {
        let mode: u8 = self.visible_mode();
        if Self::oam_bug_applies(address) && mode == 2 {
            return true;
        }
        mode == 3 && matches!(address, 0x8000..=0x9FFF | 0xFE00..=0xFE9F)
    }

    pub fn oam_bug_applies(address: u16) -> (applies: bool)
        ensures
            applies == oam_bug_applies(address),
    {
        0xFE00 <= address && address <= 0xFEFF
    }

    /// The byte at an address, read without effect.
    pub fn peek8(&self, address: u16) -> (byte: u8)
        requires
            self@.wf(),
        ensures
            byte == self@.peek8(address),
    {
        proof {
            reveal(MachineState::peek8);
        }
        if self.dma_blocks_cpu_access(address) {
            return 0xFF;
        }
        match address {
            0x0000..=0x00FF if self.bootrom_active => self.bootrom_byte(address),
            0x0000..=0x3FFF => self.cartridge.read_lower_rom(address),
            0x4000..=0x7FFF => self.cartridge.read_upper_rom(address),
            0xA000..=0xBFFF => self.cartridge.read_ram(address),
            0x8000..=0x9FFF => self.vram[(address - VRAM_START) as usize],
            0xC000..=0xDFFF => self.wram[(address - WRAM_START) as usize],
            0xE000..=0xFDFF => self.wram[(address - ECHO_START) as usize],
            0xFE00..=0xFE9F => self.oam[(address - OAM_START) as usize],
            0xFF00..=0xFF7F => {
                if Self::is_unmapped_io(address) {
                    0xFF
                } else {
                    self.read_io_value(address)
                }
            },
            0xFF80..=0xFFFE => self.hram[(address - HRAM_START) as usize],
            0xFFFF => self.ie,
            _ => 0xFF,
        }
    }

    /// Reads a byte as the processor does.
    pub fn read8(&mut self, address: u16) -> (byte: u8)
        requires
            old(self)@.wf(),
        ensures
            byte == old(self)@.read8(address),
            final(self)@ == old(self)@.after_read8(address),
            final(self)@.at_once(old(self)@),
    {
        proof {
            reveal(MachineState::read8);
            reveal(MachineState::after_read8);
        }
        let ghost before = self@;
        self.record_watchpoint(WatchpointKind::Read, address);
        proof {
            lemma_peek_ignores_watchpoint(before, self@, address);
        }
        if self.hidden_by_ppu(address) {
            return 0xFF;
        }
        self.peek8(address)
    }

    fn oam_bug_row(&self) -> (row: Option<usize>)
        ensures
            match row {
                Some(found) => self@.oam_bug_row() == Some(found as int),
                None => self@.oam_bug_row() is None,
            },
    {
        if self.visible_mode() == 2 {
            let row: u16 = self.ppu_cycle_counter / 4;
            if row < 19 {
                Some(row as usize)
            } else {
                Some(19)
            }
        } else {
            None
        }
    }

    fn oam_word(&self, row: usize, index: usize) -> (value: u16)
        requires
            row < 20,
            index < 4,
        ensures
            value == oam_word_of(self@.oam, row as int, index as int),
    {
        let base: usize = row * 8 + index * 2;
        join_bytes(self.oam[base + 1], self.oam[base])
    }

    fn set_oam_word(&mut self, row: usize, index: usize, value: u16)
        requires
            row < 20,
            index < 4,
        ensures
            final(self)@ == (MachineState {
                oam: old(self)@.oam.update(row * 8 + index * 2, low(value)).update(
                    row * 8 + index * 2 + 1,
                    high(value),
                ),
                ..old(self)@
            }),
    {
        let base: usize = row * 8 + index * 2;
        self.oam[base] = low_byte(value);
        self.oam[base + 1] = high_byte(value);
    }

    fn apply_oam_row_corruption(&mut self, row: usize, kind: OamCorruptionKind)
        requires
            old(self)@.wf(),
        ensures
            final(self)@ == old(self)@.apply_oam_row_corruption(row as int, kind),
            final(self)@.at_once(old(self)@),
    {
        if row == 0 || row >= 20 {
            return;
        }
        let ghost before = self@;
        let a: u16 = self.oam_word(row, 0);
        let b: u16 = self.oam_word(row - 1, 0);
        let c: u16 = self.oam_word(row - 1, 2);
        let first: u16 = match kind {
            OamCorruptionKind::Write => ((a ^ c) & (b ^ c)) ^ c,
            OamCorruptionKind::Read => b | (a & c),
        };
        self.set_oam_word(row, 0, first);
        let mut index: usize = 1;
        while index < 4
            invariant
                0 < row < 20,
                1 <= index <= 4,
                before.sized(),
                first == corrupted_word(
                    kind,
                    oam_word_of(before.oam, row as int, 0),
                    oam_word_of(before.oam, row - 1, 0),
                    oam_word_of(before.oam, row - 1, 2),
                ),
                self@ == (MachineState { oam: self@.oam, ..before }),
                self@.oam.len() == before.oam.len(),
                forall|i: int|
                    0 <= i < 0xA0 ==> #[trigger] self@.oam[i] == (if i == row * 8 {
                        low(first)
                    } else if i == row * 8 + 1 {
                        high(first)
                    } else if row * 8 + 2 <= i < row * 8 + index * 2 {
                        before.oam[i - 8]
                    } else {
                        before.oam[i]
                    }),
            decreases 4 - index,
        {
            let value: u16 = self.oam_word(row - 1, index);
            self.set_oam_word(row, index, value);
            index = index + 1;
        }
        assert(self@.oam =~= corrupted_oam(before.oam, row as int, kind));
    }

    pub fn maybe_trigger_oam_bug(&mut self, address: u16, kind: OamCorruptionKind)
        requires
            old(self)@.wf(),
        ensures
            final(self)@ == old(self)@.maybe_trigger_oam_bug(address, kind),
            final(self)@.at_once(old(self)@),
    {
        proof {
            reveal(MachineState::maybe_trigger_oam_bug);
        }
        if !Self::oam_bug_applies(address) {
            return;
        }
        if let Some(row) = self.oam_bug_row() {
            self.apply_oam_row_corruption(row, kind);
        }
    }

    fn store8(&mut self, address: u16, value: u8)
        requires
            old(self)@.wf(),
        ensures
            final(self)@ == old(self)@.store8(address, value),
            final(self)@.written(old(self)@),
    {
        proof {
            reveal(MachineState::store8);
        }
        match address {
            0x0000..=0x7FFF => self.cartridge.write_control(address, value),
            0xA000..=0xBFFF => self.cartridge.write_ram(address, value),
            0x8000..=0x9FFF => self.vram[(address - VRAM_START) as usize] = value,
            0xC000..=0xDFFF => self.wram[(address - WRAM_START) as usize] = value,
            0xE000..=0xFDFF => self.wram[(address - ECHO_START) as usize] = value,
            0xFE00..=0xFE9F => self.oam[(address - OAM_START) as usize] = value,
            0xFF00..=0xFF7F => self.write_io(address, value),
            0xFF80..=0xFFFE => self.hram[(address - HRAM_START) as usize] = value,
            0xFFFF => self.ie = value,
            _ => {},
        }
    }

    /// Writes a byte as the processor does.
    pub fn write8(&mut self, address: u16, value: u8)
        requires
            old(self)@.wf(),
        ensures
            final(self)@ == old(self)@.write8(address, value),
            final(self)@.written(old(self)@),
    {
        proof {
            reveal(MachineState::write8);
        }
        self.record_watchpoint(WatchpointKind::Write, address);
        if Self::oam_bug_applies(address) && self.visible_mode() == 2 {
            self.maybe_trigger_oam_bug(address, OamCorruptionKind::Write);
            return;
        }
        if self.hidden_by_ppu(address) {
            return;
        }
        if self.dma_blocks_cpu_access(address) {
            return;
        }
        self.store8(address, value);
    }

    /// Reads a byte of the address space.
    pub fn read_system_address(&mut self, address: u16) -> (byte: u8)
        requires
            old(self)@.wf(),
        ensures
            byte == old(self)@.read8(address),
            final(self)@ == old(self)@.after_read8(address),
            final(self)@.at_once(old(self)@),
    {
        self.read8(address)
    }

    /// Writes a byte of the address space.
    pub fn write_system_address(&mut self, address: u16, value: u8)
        requires
            old(self)@.wf(),
        ensures
            final(self)@ == old(self)@.write8(address, value),
            final(self)@.written(old(self)@),
    {
        self.write8(address, value);
    }
}

/// What the address map shows does not depend on the recorded watchpoint.
proof fn lemma_peek_ignores_watchpoint(first: MachineState, second: MachineState, address: u16)
    requires
        second == (MachineState { pending_watchpoint: second.pending_watchpoint, ..first }),
    ensures
        second.peek8(address) == first.peek8(address),
        second.hidden_by_ppu(address) == first.hidden_by_ppu(address),
        second.dma_blocks_cpu_access(address) == first.dma_blocks_cpu_access(address),
{
    reveal(MachineState::peek8);
    reveal(MachineState::read_io_value);
}

} // verus!
