//! The timing of the picture unit: its modes, the line counter, and its interrupts.

use vstd::prelude::*;

use crate::machine::{
    lemma_shown_stat, shown_stat, GbMachine, MachineState, PpuMode, LCDC_REGISTER, LYC_REGISTER,
    LY_REGISTER, PPU_ACCESS_OAM_CYCLES, PPU_ACCESS_VRAM_CYCLES, PPU_HBLANK_CYCLES,
    PPU_VBLANK_LINE_CYCLES, SCROLL_X, STAT_REGISTER,
};

verus! {

impl MachineState {
    /// The number of the mode that an access meets; 0 while the display is off.
    pub open spec fn visible_mode(self) -> u8 {
        if self.lcd_enabled() {
            self.ppu_mode.number()
        } else {
            0
        }
    }

    pub open spec fn refresh_stat(self) -> MachineState {
        if self.lcd_enabled() {
            self.with_reg(STAT_REGISTER, shown_stat(self.reg(STAT_REGISTER), self.ppu_mode))
        } else {
            self
        }
    }

    pub open spec fn set_stat_lyc_flag(self, matches: bool) -> MachineState {
        self.with_reg(
            STAT_REGISTER,
            if matches {
                self.reg(STAT_REGISTER) | 0x04
            } else {
                self.reg(STAT_REGISTER) & !0x04
            },
        )
    }

    pub open spec fn at_compared_line(self) -> bool {
        self.reg(LY_REGISTER) == self.reg(LYC_REGISTER)
    }

    /// The machine cycles that a mode lasts; fine scrolling moves time from the horizontal blank
    /// to the drawing.
    pub open spec fn ppu_mode_duration(self, mode: PpuMode) -> u16 {
        let fine = self.reg(SCROLL_X) % 8;
        let adjust: int = if fine == 0 {
            0
        } else if fine <= 4 {
            1
        } else {
            2
        };
        match mode {
            PpuMode::AccessOam => PPU_ACCESS_OAM_CYCLES,
            PpuMode::AccessVram => (PPU_ACCESS_VRAM_CYCLES + adjust) as u16,
            PpuMode::HBlank => (PPU_HBLANK_CYCLES - adjust) as u16,
            PpuMode::VBlank => PPU_VBLANK_LINE_CYCLES,
        }
    }

    /// A mode begins, with the requests that its begin makes.
    #[verifier::opaque]
    pub open spec fn switch_ppu_mode(self, mode: PpuMode) -> MachineState {
        let stat = self.reg(STAT_REGISTER);
        let switched = MachineState {
            ppu_mode: mode,
            ppu_mode_cycles_remaining: self.ppu_mode_duration(mode),
            ..self
        };
        match mode {
            PpuMode::AccessOam => if stat & 0x20 != 0 {
                switched.request_interrupt_t34(0x02)
            } else {
                switched
            },
            PpuMode::VBlank => if stat & 0x30 != 0 {
                switched.request_interrupt_t34(0x01).request_interrupt_t34(0x02)
            } else {
                switched.request_interrupt_t34(0x01)
            },
            PpuMode::HBlank => switched,
            PpuMode::AccessVram => switched,
        }
    }

    /// The coincidence flag, and the request where the line has come to be the compared one.
    #[verifier::opaque]
    pub open spec fn update_lyc_compare_interrupt(self, old_match: bool) -> MachineState {
        let compared = self.set_stat_lyc_flag(self.at_compared_line());
        if self.at_compared_line() && !old_match && compared.reg(STAT_REGISTER) & 0x40 != 0 {
            compared.request_interrupt_t34(0x02)
        } else {
            compared
        }
    }

    /// The mode that follows, and the line it is on.
    #[verifier::opaque]
    pub open spec fn next_ppu_mode(self, old_match: bool) -> MachineState {
        let next_ly = ((self.reg(LY_REGISTER) + 1) % 256) as u8;
        match self.ppu_mode {
            PpuMode::AccessOam => self.switch_ppu_mode(PpuMode::AccessVram),
            PpuMode::AccessVram => self.switch_ppu_mode(PpuMode::HBlank),
            PpuMode::HBlank => self.with_reg(LY_REGISTER, next_ly).switch_ppu_mode(
                if next_ly < 144 {
                    PpuMode::AccessOam
                } else {
                    PpuMode::VBlank
                },
            ).update_lyc_compare_interrupt(old_match),
            PpuMode::VBlank => (if next_ly > 153 {
                self.with_reg(LY_REGISTER, 0).switch_ppu_mode(PpuMode::AccessOam)
            } else {
                MachineState {
                    ppu_mode_cycles_remaining: PPU_VBLANK_LINE_CYCLES,
                    ..self.with_reg(LY_REGISTER, next_ly)
                }
            }).update_lyc_compare_interrupt(old_match),
        }
    }

    /// The position in the line and the time left in the mode, one machine cycle on; the request
    /// for the horizontal blank comes one cycle early.
    pub open spec fn count_ppu_cycle(self) -> MachineState {
        let counted = MachineState {
            ppu_cycle_counter: ((self.ppu_cycle_counter + 4) % 456) as u16,
            ppu_mode_cycles_remaining: if self.ppu_mode_cycles_remaining == 0 {
                0
            } else {
                (self.ppu_mode_cycles_remaining - 1) as u16
            },
            ..self
        };
        if counted.ppu_mode == PpuMode::AccessVram && counted.ppu_mode_cycles_remaining == 1
            && counted.reg(STAT_REGISTER) & 0x08 != 0 {
            counted.request_interrupt_t34(0x02)
        } else {
            counted
        }
    }

    /// One machine cycle of the picture unit.
    #[verifier::opaque]
    pub open spec fn step_ppu_cycle(self) -> MachineState {
        let counted = self.count_ppu_cycle();
        if !self.lcd_enabled() {
            self
        } else if counted.ppu_mode_cycles_remaining > 0 {
            counted.refresh_stat()
        } else {
            counted.next_ppu_mode(self.at_compared_line()).refresh_stat()
        }
    }

    /// Well formed, but for the mode that the status register shows.
    pub open spec fn wf_but_stat(self) -> bool {
        &&& self.sized()
        &&& self.cartridge.wf()
        &&& self.ppu_cycle_counter + 4 <= u16::MAX
    }

    /// What the picture unit leaves alone.
    pub open spec fn ppu_only(self, before: MachineState) -> bool {
        &&& self.wf_but_stat()
        &&& self.cartridge == before.cartridge
        &&& self.bootrom == before.bootrom
        &&& self.bootrom_active == before.bootrom_active
        &&& self.model == before.model
        &&& self.joypad == before.joypad
        &&& self.breakpoints == before.breakpoints
        &&& self.cycle_counter == before.cycle_counter
        &&& self.serial_output == before.serial_output
        &&& self.same_cpu(before)
    }
}

impl GbMachine {
    pub fn visible_mode(&self) -> (mode: u8)
        ensures
            mode == self@.visible_mode(),
    {
        if !self.lcd_enabled() {
            return 0;
        }
        self.ppu_mode.bits()
    }

    pub fn refresh_stat(&mut self)
        ensures
            final(self)@ == old(self)@.refresh_stat(),
            old(self)@.wf_but_stat() ==> final(self)@.wf() && final(self)@.ppu_only(old(self)@),
    {
        if !self.lcd_enabled() {
            return;
        }
        let stat: u8 = self.register(STAT_REGISTER);
        let ghost mode = self.ppu_mode;
        let bits: u8 = self.visible_mode();
        proof {
            assert(bits & 0x03 == bits) by (bit_vector)
                requires
                    bits <= 3,
            ;
            lemma_shown_stat(stat, mode);
        }
        self.set_register(STAT_REGISTER, ((stat & 0xFC) | 0x80) | (bits & 0x03));
    }

    pub fn set_stat_lyc_flag(&mut self, matches: bool)
        requires
            old(self)@.wf_but_stat(),
        ensures
            final(self)@ == old(self)@.set_stat_lyc_flag(matches),
            final(self)@.ppu_only(old(self)@),
            old(self)@.stat_shows_mode() ==> final(self)@.stat_shows_mode(),
    {
        let stat: u8 = self.register(STAT_REGISTER);
        proof {
            lemma_shown_stat(stat, self.ppu_mode);
        }
        if matches {
            self.set_register(STAT_REGISTER, stat | 0x04);
        } else {
            self.set_register(STAT_REGISTER, stat & !0x04);
        }
    }

    fn at_compared_line(&self) -> (matches: bool)
        ensures
            matches == self@.at_compared_line(),
    {
        self.register(LY_REGISTER) == self.register(LYC_REGISTER)
    }

    pub fn ppu_mode_duration(&self, mode: PpuMode) -> (cycles: u16)
        ensures
            cycles == self@.ppu_mode_duration(mode),
    {
        let scroll_adjust: u16 = match self.register(SCROLL_X) % 8 {
            5..=7 => 2,
            1..=4 => 1,
            _ => 0,
        };
        match mode {
            PpuMode::AccessOam => PPU_ACCESS_OAM_CYCLES,
            PpuMode::AccessVram => PPU_ACCESS_VRAM_CYCLES + scroll_adjust,
            PpuMode::HBlank => PPU_HBLANK_CYCLES - scroll_adjust,
            PpuMode::VBlank => PPU_VBLANK_LINE_CYCLES,
        }
    }

    fn hold_request(&mut self, mask: u8)
        requires
            old(self)@.wf_but_stat(),
        ensures
            final(self)@ == old(self)@.request_interrupt_t34(mask),
            final(self)@.ppu_only(old(self)@),
    {
        self.pending_t34_interrupts = self.pending_t34_interrupts | mask;
    }

    fn switch_ppu_mode(&mut self, mode: PpuMode)
        requires
            old(self)@.wf_but_stat(),
        ensures
            final(self)@ == old(self)@.switch_ppu_mode(mode),
            final(self)@.ppu_only(old(self)@),
    {
        proof {
            reveal(MachineState::switch_ppu_mode);
        }
        self.ppu_mode = mode;
        self.ppu_mode_cycles_remaining = self.ppu_mode_duration(mode);
        let stat: u8 = self.register(STAT_REGISTER);
        match mode {
            PpuMode::AccessOam => {
                if stat & 0x20 != 0 {
                    self.hold_request(0x02);
                }
            },
            PpuMode::VBlank => {
                proof {
                    assert((stat & 0x30 != 0) == (stat & 0x10 != 0 || stat & 0x20 != 0))
                        by (bit_vector);
                }
                self.hold_request(0x01);
                if stat & 0x10 != 0 || stat & 0x20 != 0 {
                    self.hold_request(0x02);
                }
            },
            PpuMode::HBlank | PpuMode::AccessVram => {},
        }
    }

    fn update_lyc_compare_interrupt(&mut self, old_match: bool)
        requires
            old(self)@.wf_but_stat(),
        ensures
            final(self)@ == old(self)@.update_lyc_compare_interrupt(old_match),
            final(self)@.ppu_only(old(self)@),
    {
        proof {
            reveal(MachineState::update_lyc_compare_interrupt);
        }
        let new_match: bool = self.at_compared_line();
        self.set_stat_lyc_flag(new_match);
        if new_match && !old_match && self.register(STAT_REGISTER) & 0x40 != 0 {
            self.hold_request(0x02);
        }
    }

    fn next_ppu_mode(&mut self, old_match: bool)
        requires
            old(self)@.wf_but_stat(),
        ensures
            final(self)@ == old(self)@.next_ppu_mode(old_match),
            final(self)@.ppu_only(old(self)@),
    {
        proof {
            reveal(MachineState::next_ppu_mode);
        }
        match self.ppu_mode {
            PpuMode::AccessOam => self.switch_ppu_mode(PpuMode::AccessVram),
            PpuMode::AccessVram => self.switch_ppu_mode(PpuMode::HBlank),
            PpuMode::HBlank => {
                let next_ly: u8 = self.register(LY_REGISTER).wrapping_add(1);
                self.set_register(LY_REGISTER, next_ly);
                if next_ly < 144 {
                    self.switch_ppu_mode(PpuMode::AccessOam);
                } else {
                    self.switch_ppu_mode(PpuMode::VBlank);
                }
                self.update_lyc_compare_interrupt(old_match);
            },
            PpuMode::VBlank => {
                let next_ly: u8 = self.register(LY_REGISTER).wrapping_add(1);
                if next_ly > 153 {
                    self.set_register(LY_REGISTER, 0);
                    self.switch_ppu_mode(PpuMode::AccessOam);
                } else {
                    self.set_register(LY_REGISTER, next_ly);
                    self.ppu_mode_cycles_remaining = PPU_VBLANK_LINE_CYCLES;
                }
                self.update_lyc_compare_interrupt(old_match);
            },
        }
    }

    pub fn step_ppu_cycle(&mut self)
        requires
            old(self)@.wf(),
        ensures
            final(self)@ == old(self)@.step_ppu_cycle(),
            final(self)@.at_once(old(self)@),
    {
        proof {
            reveal(MachineState::step_ppu_cycle);
        }
        if self.register(LCDC_REGISTER) & 0x80 == 0 {
            return;
        }
        let old_match: bool = self.at_compared_line();
        self.ppu_cycle_counter = (self.ppu_cycle_counter + 4) % 456;
        self.ppu_mode_cycles_remaining = self.ppu_mode_cycles_remaining.saturating_sub(1);
        if self.ppu_mode == PpuMode::AccessVram && self.ppu_mode_cycles_remaining == 1
            && self.register(STAT_REGISTER) & 0x08 != 0 {
            self.hold_request(0x02);
        }
        if self.ppu_mode_cycles_remaining > 0 {
            self.refresh_stat();
            return;
        }
        self.next_ppu_mode(old_match);
        self.refresh_stat();
    }
}

} // verus!
