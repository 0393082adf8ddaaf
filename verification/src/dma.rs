//! The copy into object memory, and the clock that drives timer, picture unit and copy.

use vstd::prelude::*;

use crate::machine::{GbMachine, MachineState};

verus! {

impl MachineState {
    /// What the low page shows while the boot ROM is mapped.
    pub open spec fn bootrom_byte(self, address: u16) -> u8 {
        match self.bootrom {
            Some(data) => data[address as int],
            None => 0xFF,
        }
    }

    /// What the copy reads: above 0xDFFF it sees work RAM again.
    pub open spec fn dma_source_byte(self, address: u16) -> u8 {
        if address <= 0x00FF && self.bootrom_active {
            self.bootrom_byte(address)
        } else if address <= 0x3FFF {
            self.cartridge.lower_rom_byte(address)
        } else if address <= 0x7FFF {
            self.cartridge.upper_rom_byte(address)
        } else if address <= 0x9FFF {
            self.vram[address - 0x8000]
        } else if address <= 0xBFFF {
            self.cartridge.external_byte(address)
        } else {
            self.wram[address as int % 0x2000]
        }
    }

    /// An active copy moves one byte, and ends with the last.
    pub open spec fn copy_dma_byte(self) -> MachineState {
        if self.dma_active && self.dma_next_byte < 0xA0 {
            MachineState {
                oam: self.oam.update(
                    self.dma_next_byte as int,
                    self.dma_source_byte(
                        ((self.dma_source + self.dma_next_byte) % 0x10000) as u16,
                    ),
                ),
                dma_next_byte: (self.dma_next_byte + 1) as u16,
                dma_active: self.dma_next_byte + 1 < 0xA0,
                ..self
            }
        } else {
            MachineState { dma_active: false, ..self }
        }
    }

    /// One machine cycle of the copy; a requested copy starts one cycle late.
    #[verifier::opaque]
    pub open spec fn step_dma_mcycle(self) -> MachineState {
        let copied = self.copy_dma_byte();
        MachineState {
            dma_starting_source: self.dma_requested_source,
            dma_requested_source: None,
            ..match self.dma_starting_source {
                Some(source) => MachineState {
                    dma_source: source,
                    dma_active: true,
                    dma_next_byte: 0,
                    ..copied
                },
                None => copied,
            }
        }
    }

    /// One clock cycle; every fourth ends a machine cycle.
    #[verifier::opaque]
    pub open spec fn tick(self) -> MachineState {
        let counted = MachineState { cycle_counter: (self.cycle_counter + 1) as u64, ..self };
        if counted.cycle_counter % 4 == 0 {
            counted.step_dma_mcycle().step_ppu_cycle().step_timer_cycle()
        } else {
            counted
        }
    }

    pub open spec fn ticks(self, cycles: nat) -> MachineState
        decreases cycles,
    {
        if cycles == 0 {
            self
        } else {
            self.ticks((cycles - 1) as nat).tick()
        }
    }

    /// So many clock cycles, of the cartridge's clock too.
    #[verifier::opaque]
    pub open spec fn tick_timers(self, cycles: u16) -> MachineState {
        MachineState {
            cartridge: self.cartridge.after_cycles(cycles),
            ..self
        }.ticks(cycles as nat)
    }
}

impl GbMachine {
    pub fn bootrom_byte(&self, address: u16) -> (byte: u8)
        requires
            address <= 0x00FF,
        ensures
            byte == self@.bootrom_byte(address),
    {
        match &self.bootrom {
            Some(data) => data[address as usize],
            None => 0xFF,
        }
    }

    pub fn dma_source_byte(&self, address: u16) -> (byte: u8)
        requires
            self@.wf(),
        ensures
            byte == self@.dma_source_byte(address),
    {
        match address {
            0x0000..=0x00FF if self.bootrom_active => self.bootrom_byte(address),
            0x0000..=0x3FFF => self.cartridge.read_lower_rom(address),
            0x4000..=0x7FFF => self.cartridge.read_upper_rom(address),
            0x8000..=0x9FFF => self.vram[(address - 0x8000) as usize],
            0xA000..=0xBFFF => self.cartridge.read_ram(address),
            0xC000..=0xDFFF => self.wram[(address - 0xC000) as usize],
            0xE000..=0xFFFF => self.wram[(address - 0xE000) as usize],
        }
    }

    pub fn step_dma_mcycle(&mut self)
        requires
            old(self)@.wf(),
        ensures
            final(self)@ == old(self)@.step_dma_mcycle(),
            final(self)@.at_once(old(self)@),
    {
        proof {
            reveal(MachineState::step_dma_mcycle);
        }
        if self.dma_active {
            if self.dma_next_byte < 0xA0 {
                let byte: u8 = self.dma_source_byte(
                    self.dma_source.wrapping_add(self.dma_next_byte),
                );
                self.oam[self.dma_next_byte as usize] = byte;
                self.dma_next_byte = self.dma_next_byte + 1;
            }
            if self.dma_next_byte >= 0xA0 {
                self.dma_active = false;
            }
        }
        if let Some(source) = self.dma_starting_source {
            self.dma_source = source;
            self.dma_active = true;
            self.dma_next_byte = 0;
        }
        self.dma_starting_source = self.dma_requested_source;
        self.dma_requested_source = None;
    }

    fn tick(&mut self)
        requires
            old(self)@.ready(1),
        ensures
            final(self)@ == old(self)@.tick(),
            final(self)@.keeps(old(self)@),
            final(self)@.same_cpu(old(self)@),
            final(self)@.serial_output == old(self)@.serial_output,
            final(self)@.cycle_counter == old(self)@.cycle_counter + 1,
    {
        proof {
            reveal(MachineState::tick);
        }
        self.cycle_counter = self.cycle_counter + 1;
        if self.cycle_counter % 4 == 0 {
            self.step_dma_mcycle();
            self.step_ppu_cycle();
            self.step_timer_cycle();
        }
    }

    /// Lets so many clock cycles pass.
    pub fn tick_timers(&mut self, cycles: u16)
        requires
            old(self)@.ready(cycles as int),
        ensures
            final(self)@ == old(self)@.tick_timers(cycles),
            final(self)@.keeps(old(self)@),
            final(self)@.same_cpu(old(self)@),
            final(self)@.serial_output == old(self)@.serial_output,
            final(self)@.cycle_counter == old(self)@.cycle_counter + cycles,
    {
        proof {
            reveal(MachineState::tick_timers);
        }
        self.cartridge.tick(cycles);
        let ghost start = self@;
        let mut done: u16 = 0;
        while done < cycles
            invariant
                done <= cycles,
                self@ == start.ticks(done as nat),
                self@.keeps(start),
                self@.same_cpu(start),
                self@.serial_output == start.serial_output,
                self@.cycle_counter == start.cycle_counter + done,
                start.cycle_counter + cycles <= u64::MAX,
            decreases cycles - done,
        {
            self.tick();
            done = done + 1;
        }
    }
}

} // verus!
