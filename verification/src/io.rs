//! The hardware registers: what reads of them show and what writes to them do.

use vstd::prelude::*;

use crate::machine::{
    GbMachine, MachineState, PpuMode, TimaReloadState, APU_STATUS, DMA_REGISTER, IF_REGISTER,
    IO_END, IO_START, LCDC_REGISTER, LYC_REGISTER, LY_REGISTER, PPU_ACCESS_OAM_CYCLES, SERIAL_SB,
    SERIAL_SC, STAT_REGISTER, TIMER_DIV, TIMER_TAC, TIMER_TIMA, TIMER_TMA,
};

verus! {

/// The register that takes the boot ROM away.
pub const BOOT_REGISTER: u16 = 0xFF50;

/// Addresses in the register area that no register answers.
pub open spec fn unmapped_io(address: u16) -> bool {
    ||| address == 0xFF03
    ||| 0xFF08 <= address <= 0xFF0E
    ||| address == 0xFF15
    ||| address == 0xFF1F
    ||| 0xFF27 <= address <= 0xFF29
    ||| 0xFF4C <= address <= 0xFF4F
    ||| 0xFF51 <= address <= 0xFF7F
}

/// The bits of a register that always read as one.
pub open spec fn unreadable_bits(address: u16) -> u8 {
    if address == 0xFF10 {
        0x80
    } else if address == 0xFF11 || address == 0xFF16 {
        0x3F
    } else if address == 0xFF14 || address == 0xFF19 || address == 0xFF1E || address == 0xFF23 {
        0xBF
    } else if address == 0xFF1A {
        0x7F
    } else if address == 0xFF1C {
        0x9F
    } else {
        0x00
    }
}

/// Registers that cannot be read at all.
pub open spec fn write_only(address: u16) -> bool {
    ||| address == 0xFF13
    ||| address == 0xFF18
    ||| address == 0xFF1B
    ||| address == 0xFF1D
    ||| address == 0xFF20
}

/// What a register without side effects stores of a written byte.
pub open spec fn stored_byte(address: u16, value: u8) -> u8 {
    if address == IF_REGISTER {
        value | 0xE0
    } else if address == 0xFF10 {
        value | 0x80
    } else if address == 0xFF1A {
        (value & 0x80) | 0x7F
    } else if address == 0xFF1C {
        (value & 0x60) | 0x9F
    } else if address == 0xFF20 {
        value | 0xC0
    } else {
        value
    }
}

/// The channel whose trigger register an address is, as its bit in the status register, and the
/// bits that its trigger register always stores.
pub open spec fn trigger_channel(address: u16) -> Option<(u8, u8)> {
    if address == 0xFF14 {
        Some((0x01, 0x07))
    } else if address == 0xFF19 {
        Some((0x02, 0x3F))
    } else if address == 0xFF1E {
        Some((0x04, 0x3F))
    } else if address == 0xFF23 {
        Some((0x08, 0x3F))
    } else {
        None
    }
}

impl MachineState {
    /// What a read of a register shows.
    #[verifier::opaque]
    pub open spec fn read_io_value(self, address: u16) -> u8 {
        let raw = self.reg(address);
        if address == IO_START {
            0xC0 | (raw & 0x30) | self.current_joypad_bits()
        } else if address == STAT_REGISTER && !self.lcd_enabled() {
            0x80
        } else if write_only(address) {
            0xFF
        } else {
            raw | unreadable_bits(address)
        }
    }

    pub open spec fn apu_enabled(self) -> bool {
        self.reg(APU_STATUS) & 0x80 != 0
    }

    pub open spec fn set_apu_channel_status(self, mask: u8) -> MachineState {
        self.with_reg(APU_STATUS, ((self.reg(APU_STATUS) | mask) & 0x8F) | 0x70)
    }

    pub open spec fn write_joypad_select(self, value: u8) -> MachineState {
        self.with_reg(IO_START, 0xC0 | (value & 0x30) | 0x0F).with_joypad_request(
            self.current_joypad_bits(),
        )
    }

    /// Switching the display on or off starts its timing over.
    pub open spec fn write_lcdc(self, value: u8) -> MachineState {
        let written = self.with_reg(LCDC_REGISTER, value);
        (if !self.lcd_enabled() && written.lcd_enabled() {
            MachineState {
                ppu_mode: PpuMode::HBlank,
                ppu_mode_cycles_remaining: PPU_ACCESS_OAM_CYCLES,
                ppu_cycle_counter: 0,
                ..written
            }.set_stat_lyc_flag(true)
        } else if self.lcd_enabled() && !written.lcd_enabled() {
            MachineState {
                ppu_mode: PpuMode::AccessOam,
                ppu_mode_cycles_remaining: PPU_ACCESS_OAM_CYCLES,
                ppu_cycle_counter: 0,
                ..written
            }.with_reg(LY_REGISTER, 0)
        } else {
            written
        }).refresh_stat()
    }

    pub open spec fn write_stat(self, value: u8) -> MachineState {
        self.with_reg(
            STAT_REGISTER,
            (self.reg(STAT_REGISTER) & 0x04) | (value & 0x78),
        ).refresh_stat()
    }

    /// Any write sets the line to 0.
    pub open spec fn write_ly(self) -> MachineState {
        let written = self.with_reg(LY_REGISTER, 0);
        let compared = written.set_stat_lyc_flag(written.at_compared_line());
        if written.at_compared_line() && !self.at_compared_line() && compared.reg(STAT_REGISTER)
            & 0x40 != 0 {
            compared.request_interrupt(0x02)
        } else {
            compared
        }
    }

    /// Any write sets the divider to 0.
    pub open spec fn write_div(self) -> MachineState {
        self.with_divider(0).counted_edge(self.timer_signal())
    }

    /// A write cancels a reload that is due, and has no effect during a reload.
    pub open spec fn write_tima(self, value: u8) -> MachineState {
        match self.tima_reload_state {
            Some(TimaReloadState::OverflowDelay(_)) => MachineState {
                tima_reload_state: None,
                ..self
            }.with_reg(TIMER_TIMA, value),
            Some(TimaReloadState::ReloadWindow(_)) => self,
            None => self.with_reg(TIMER_TIMA, value),
        }
    }

    /// A write during a reload reaches the counter too.
    pub open spec fn write_tma(self, value: u8) -> MachineState {
        let written = self.with_reg(TIMER_TMA, value);
        if written.tima_reload_state matches Some(TimaReloadState::ReloadWindow(_)) {
            written.with_reg(TIMER_TIMA, value)
        } else {
            written
        }
    }

    pub open spec fn write_tac(self, value: u8) -> MachineState {
        self.with_reg(TIMER_TAC, value | 0xF8).counted_edge(self.timer_signal())
    }

    /// A started transfer is done at once: the byte is sent and the interrupt requested.
    pub open spec fn write_serial_control(self, value: u8) -> MachineState {
        if value == 0x81 {
            MachineState {
                serial_output: self.serial_output.push(self.reg(SERIAL_SB)),
                ..self
            }.with_reg(SERIAL_SC, 0x7F).request_interrupt(0x08)
        } else {
            self.with_reg(SERIAL_SC, value | 0x7E)
        }
    }

    pub open spec fn write_apu_status(self, value: u8) -> MachineState {
        self.with_reg(
            APU_STATUS,
            (value & 0x80) | 0x70 | (if value & 0x80 != 0 {
                self.reg(APU_STATUS) & 0x0F
            } else {
                0
            }),
        )
    }

    pub open spec fn write_trigger(
        self,
        address: u16,
        value: u8,
        channel: u8,
        stored: u8,
    ) -> MachineState {
        let written = self.with_reg(address, (value & 0xC0) | stored);
        if self.apu_enabled() && value & 0x80 != 0 {
            written.set_apu_channel_status(channel)
        } else {
            written
        }
    }

    /// What a write to a register does.
    #[verifier::opaque]
    pub open spec fn write_io(self, address: u16, value: u8) -> MachineState {
        if unmapped_io(address) {
            self
        } else if address == IO_START {
            self.write_joypad_select(value)
        } else if address == LCDC_REGISTER {
            self.write_lcdc(value)
        } else if address == STAT_REGISTER {
            self.write_stat(value)
        } else if address == LY_REGISTER {
            self.write_ly()
        } else if address == TIMER_DIV {
            self.write_div()
        } else if address == TIMER_TIMA {
            self.write_tima(value)
        } else if address == TIMER_TMA {
            self.write_tma(value)
        } else if address == TIMER_TAC {
            self.write_tac(value)
        } else if address == DMA_REGISTER {
            MachineState {
                dma_requested_source: Some((value * 256) as u16),
                ..self.with_reg(DMA_REGISTER, value)
            }
        } else if address == BOOT_REGISTER {
            MachineState {
                bootrom_active: self.bootrom_active && value & 0x01 == 0,
                ..self
            }
        } else if address == SERIAL_SC {
            self.write_serial_control(value)
        } else if address == APU_STATUS {
            self.write_apu_status(value)
        } else {
            match trigger_channel(address) {
                Some((channel, stored)) => self.write_trigger(address, value, channel, stored),
                None => self.with_reg(address, stored_byte(address, value)),
            }
        }
    }
}

impl GbMachine {
    pub fn is_unmapped_io(address: u16) -> (unmapped: bool)
        ensures
            unmapped == unmapped_io(address),
    {
        match address {
            0xFF03
            | 0xFF08..=0xFF0E
            | 0xFF15
            | 0xFF1F
            | 0xFF27..=0xFF29
            | 0xFF4C..=0xFF4F
            | 0xFF51..=0xFF7F => true,
            _ => false,
        }
    }

    pub fn read_io_value(&self, address: u16) -> (value: u8)
        requires
            IO_START <= address <= IO_END,
        ensures
            value == self@.read_io_value(address),
    {
        let raw: u8 = self.register(address);
        proof {
            reveal(MachineState::read_io_value);
            assert(raw | 0x00 == raw) by (bit_vector);
        }
        match address {
            0xFF00 => 0xC0 | (raw & 0x30) | self.current_joypad_bits(),
            0xFF41 if !self.lcd_enabled() => 0x80,
            0xFF10 => raw | 0x80,
            0xFF11 => raw | 0x3F,
            0xFF13 => 0xFF,
            0xFF14 => raw | 0xBF,
            0xFF16 => raw | 0x3F,
            0xFF18 => 0xFF,
            0xFF19 => raw | 0xBF,
            0xFF1A => raw | 0x7F,
            0xFF1B => 0xFF,
            0xFF1C => raw | 0x9F,
            0xFF1D => 0xFF,
            0xFF1E => raw | 0xBF,
            0xFF20 => 0xFF,
            0xFF23 => raw | 0xBF,
            _ => raw,
        }
    }

    pub fn apu_enabled(&self) -> (enabled: bool)
        ensures
            enabled == self@.apu_enabled(),
    {
        self.register(APU_STATUS) & 0x80 != 0
    }

    /// Marks a sound channel as playing.
    pub fn set_apu_channel_status(&mut self, mask: u8)
        requires
            old(self)@.wf(),
        ensures
            final(self)@ == old(self)@.set_apu_channel_status(mask),
            final(self)@.at_once(old(self)@),
    {
        let next: u8 = self.register(APU_STATUS) | mask;
        self.set_register(APU_STATUS, (next & 0x8F) | 0x70);
    }

    fn write_joypad_select(&mut self, value: u8)
        requires
            old(self)@.wf(),
        ensures
            final(self)@ == old(self)@.write_joypad_select(value),
            final(self)@.at_once(old(self)@),
    {
        let previous: u8 = self.current_joypad_bits();
        self.set_register(IO_START, 0xC0 | (value & 0x30) | 0x0F);
        let current: u8 = self.current_joypad_bits();
        if previous & !current != 0 {
            self.request_interrupt(0x10);
        }
    }

    fn write_lcdc(&mut self, value: u8)
        requires
            old(self)@.wf(),
        ensures
            final(self)@ == old(self)@.write_lcdc(value),
            final(self)@.at_once(old(self)@),
    {
        let was_enabled: bool = self.lcd_enabled();
        self.set_register(LCDC_REGISTER, value);
        let now_enabled: bool = value & 0x80 != 0;
        if !was_enabled && now_enabled {
            self.ppu_mode = PpuMode::HBlank;
            self.ppu_mode_cycles_remaining = self.ppu_mode_duration(PpuMode::AccessOam);
            self.ppu_cycle_counter = 0;
            self.set_stat_lyc_flag(true);
        } else if was_enabled && !now_enabled {
            self.ppu_mode = PpuMode::AccessOam;
            self.ppu_mode_cycles_remaining = PPU_ACCESS_OAM_CYCLES;
            self.ppu_cycle_counter = 0;
            self.set_register(LY_REGISTER, 0);
        }
        self.refresh_stat();
    }

    fn write_stat(&mut self, value: u8)
        requires
            old(self)@.wf(),
        ensures
            final(self)@ == old(self)@.write_stat(value),
            final(self)@.at_once(old(self)@),
    {
        let preserved: u8 = self.register(STAT_REGISTER) & 0x04;
        self.set_register(STAT_REGISTER, preserved | (value & 0x78));
        self.refresh_stat();
    }

    fn write_ly(&mut self)
        requires
            old(self)@.wf(),
        ensures
            final(self)@ == old(self)@.write_ly(),
            final(self)@.at_once(old(self)@),
    {
        let old_match: bool = self.register(LY_REGISTER) == self.register(LYC_REGISTER);
        self.set_register(LY_REGISTER, 0);
        let new_match: bool = self.register(LY_REGISTER) == self.register(LYC_REGISTER);
        self.set_stat_lyc_flag(new_match);
        if new_match && !old_match && self.register(STAT_REGISTER) & 0x40 != 0 {
            self.request_interrupt(0x02);
        }
    }

    fn write_div(&mut self)
        requires
            old(self)@.wf(),
        ensures
            final(self)@ == old(self)@.write_div(),
            final(self)@.at_once(old(self)@),
    {
        let old_signal: bool = self.timer_signal();
        self.div_counter = 0;
        self.set_register(TIMER_DIV, 0);
        if old_signal && !self.timer_signal() {
            self.increment_tima();
        }
    }

    fn write_tima(&mut self, value: u8)
        requires
            old(self)@.wf(),
        ensures
            final(self)@ == old(self)@.write_tima(value),
            final(self)@.at_once(old(self)@),
    {
        match self.tima_reload_state {
            Some(TimaReloadState::OverflowDelay(_)) => {
                self.tima_reload_state = None;
            },
            Some(TimaReloadState::ReloadWindow(_)) => {
                return;
            },
            None => {},
        }
        self.set_register(TIMER_TIMA, value);
    }

    fn write_tma(&mut self, value: u8)
        requires
            old(self)@.wf(),
        ensures
            final(self)@ == old(self)@.write_tma(value),
            final(self)@.at_once(old(self)@),
    {
        self.set_register(TIMER_TMA, value);
        if let Some(TimaReloadState::ReloadWindow(_)) = self.tima_reload_state {
            self.set_register(TIMER_TIMA, value);
        }
    }

    fn write_tac(&mut self, value: u8)
        requires
            old(self)@.wf(),
        ensures
            final(self)@ == old(self)@.write_tac(value),
            final(self)@.at_once(old(self)@),
    {
        let old_signal: bool = self.timer_signal();
        self.set_register(TIMER_TAC, value | 0xF8);
        if old_signal && !self.timer_signal() {
            self.increment_tima();
        }
    }

    fn write_serial_control(&mut self, value: u8)
        requires
            old(self)@.wf(),
        ensures
            final(self)@ == old(self)@.write_serial_control(value),
            final(self)@.written(old(self)@),
    {
        if value == 0x81 {
            let byte: u8 = self.register(SERIAL_SB);
            self.serial_output.push(byte);
            self.set_register(SERIAL_SC, 0x7F);
            self.request_interrupt(0x08);
        } else {
            self.set_register(SERIAL_SC, value | 0x7E);
        }
    }

    fn write_apu_status(&mut self, value: u8)
        requires
            old(self)@.wf(),
        ensures
            final(self)@ == old(self)@.write_apu_status(value),
            final(self)@.at_once(old(self)@),
    {
        let low_status: u8 = if value & 0x80 != 0 {
            self.register(APU_STATUS) & 0x0F
        } else {
            0
        };
        self.set_register(APU_STATUS, (value & 0x80) | 0x70 | low_status);
    }

    fn write_trigger(&mut self, address: u16, value: u8, channel: u8, stored: u8)
        requires
            old(self)@.wf(),
            0xFF14 <= address <= 0xFF23,
        ensures
            final(self)@ == old(self)@.write_trigger(address, value, channel, stored),
            final(self)@.at_once(old(self)@),
    {
        self.set_register(address, (value & 0xC0) | stored);
        if self.apu_enabled() && value & 0x80 != 0 {
            self.set_apu_channel_status(channel);
        }
    }

    /// Writes a register, with all that the write sets off.
    pub fn write_io(&mut self, address: u16, value: u8)
        requires
            old(self)@.wf(),
            IO_START <= address <= IO_END,
        ensures
            final(self)@ == old(self)@.write_io(address, value),
            final(self)@.written(old(self)@),
    {
        proof {
            reveal(MachineState::write_io);
        }
        if Self::is_unmapped_io(address) {
            return;
        }
        match address {
            0xFF00 => self.write_joypad_select(value),
            0xFF40 => self.write_lcdc(value),
            0xFF41 => self.write_stat(value),
            0xFF44 => self.write_ly(),
            0xFF04 => self.write_div(),
            0xFF05 => self.write_tima(value),
            0xFF06 => self.write_tma(value),
            0xFF07 => self.write_tac(value),
            0xFF46 => {
                self.set_register(DMA_REGISTER, value);
                self.dma_requested_source = Some((value as u16) * 256);
            },
            0xFF50 => {
                if self.bootrom_active && value & 0x01 != 0 {
                    self.bootrom_active = false;
                }
            },
            0xFF02 => self.write_serial_control(value),
            0xFF0F => self.set_register(address, value | 0xE0),
            0xFF10 => self.set_register(address, value | 0x80),
            0xFF1A => self.set_register(address, (value & 0x80) | 0x7F),
            0xFF1C => self.set_register(address, (value & 0x60) | 0x9F),
            0xFF20 => self.set_register(address, value | 0xC0),
            0xFF26 => self.write_apu_status(value),
            0xFF14 => self.write_trigger(address, value, 0x01, 0x07),
            0xFF19 => self.write_trigger(address, value, 0x02, 0x3F),
            0xFF1E => self.write_trigger(address, value, 0x04, 0x3F),
            0xFF23 => self.write_trigger(address, value, 0x08, 0x3F),
            _ => self.set_register(address, value),
        }
    }
}

} // verus!
