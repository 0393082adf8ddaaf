//! The timer: divider, counter, and the reload after an overflow.

use vstd::prelude::*;

use crate::machine::{
    GbMachine, MachineState, TimaReloadState, TIMER_DIV, TIMER_TAC, TIMER_TIMA, TIMER_TMA,
};

verus! {

impl MachineState {
    /// The divider bit that the timer counts by.
    pub open spec fn timer_bit_mask(self) -> u16 {
        let select = self.reg(TIMER_TAC) & 0x03;
        if select == 0 {
            0x80
        } else if select == 1 {
            0x02
        } else if select == 2 {
            0x08
        } else {
            0x20
        }
    }

    /// The timer counts where this falls.
    pub open spec fn timer_signal(self) -> bool {
        self.reg(TIMER_TAC) & 0x04 != 0 && self.div_counter & self.timer_bit_mask() != 0
    }

    pub open spec fn increment_tima(self) -> MachineState {
        if self.reg(TIMER_TIMA) == 0xFF {
            MachineState {
                tima_reload_state: Some(TimaReloadState::OverflowDelay(1)),
                ..self.with_reg(TIMER_TIMA, 0)
            }
        } else {
            self.with_reg(TIMER_TIMA, (self.reg(TIMER_TIMA) + 1) as u8)
        }
    }

    /// The timer counts once if its signal was up and is down now.
    pub open spec fn counted_edge(self, old_signal: bool) -> MachineState {
        if old_signal && !self.timer_signal() {
            self.increment_tima()
        } else {
            self
        }
    }

    /// The reload moves on: the delay ends with the reload and the request, then the window ends.
    pub open spec fn step_reload(self) -> MachineState {
        match self.tima_reload_state {
            None => self,
            Some(TimaReloadState::OverflowDelay(remaining)) => if remaining <= 1 {
                MachineState {
                    tima_reload_state: Some(TimaReloadState::ReloadWindow(1)),
                    ..self.with_reg(TIMER_TIMA, self.reg(TIMER_TMA)).request_interrupt(0x04)
                }
            } else {
                MachineState {
                    tima_reload_state: Some(
                        TimaReloadState::OverflowDelay((remaining - 1) as u8),
                    ),
                    ..self
                }
            },
            Some(TimaReloadState::ReloadWindow(remaining)) => MachineState {
                tima_reload_state: if remaining <= 1 {
                    None
                } else {
                    Some(TimaReloadState::ReloadWindow((remaining - 1) as u8))
                },
                ..self
            },
        }
    }

    pub open spec fn with_divider(self, div_counter: u16) -> MachineState {
        MachineState { div_counter, ..self }.with_reg(TIMER_DIV, (div_counter / 64 % 256) as u8)
    }

    /// One machine cycle of the timer.
    #[verifier::opaque]
    pub open spec fn step_timer_cycle(self) -> MachineState {
        let reloaded = self.step_reload();
        reloaded.with_divider(
            ((reloaded.div_counter + 1) % 0x10000) as u16,
        ).counted_edge(reloaded.timer_signal())
    }
}

impl GbMachine {
    pub fn timer_bit_mask(&self) -> (mask: u16)
        ensures
            mask == self@.timer_bit_mask(),
    {
        match self.register(TIMER_TAC) & 0x03 {
            0 => 0x80,
            1 => 0x02,
            2 => 0x08,
            _ => 0x20,
        }
    }

    pub fn timer_signal(&self) -> (signal: bool)
        ensures
            signal == self@.timer_signal(),
    {
        let tac: u8 = self.register(TIMER_TAC);
        tac & 0x04 != 0 && (self.div_counter & self.timer_bit_mask()) != 0
    }

    pub fn increment_tima(&mut self)
        requires
            old(self)@.wf(),
        ensures
            final(self)@ == old(self)@.increment_tima(),
            final(self)@.at_once(old(self)@),
    {
        let tima: u8 = self.register(TIMER_TIMA);
        if tima == 0xFF {
            self.set_register(TIMER_TIMA, 0);
            self.tima_reload_state = Some(TimaReloadState::OverflowDelay(1));
        } else {
            self.set_register(TIMER_TIMA, tima + 1);
        }
    }

    fn step_reload(&mut self)
        requires
            old(self)@.wf(),
        ensures
            final(self)@ == old(self)@.step_reload(),
            final(self)@.at_once(old(self)@),
    {
        if let Some(state) = self.tima_reload_state {
            match state {
                TimaReloadState::OverflowDelay(remaining) => {
                    if remaining <= 1 {
                        let tma: u8 = self.register(TIMER_TMA);
                        self.set_register(TIMER_TIMA, tma);
                        self.request_interrupt(0x04);
                        self.tima_reload_state = Some(TimaReloadState::ReloadWindow(1));
                    } else {
                        self.tima_reload_state =
                        Some(TimaReloadState::OverflowDelay(remaining - 1));
                    }
                },
                TimaReloadState::ReloadWindow(remaining) => {
                    if remaining <= 1 {
                        self.tima_reload_state = None;
                    } else {
                        self.tima_reload_state = Some(TimaReloadState::ReloadWindow(remaining - 1));
                    }
                },
            }
        }
    }

    pub fn step_timer_cycle(&mut self)
        requires
            old(self)@.wf(),
        ensures
            final(self)@ == old(self)@.step_timer_cycle(),
            final(self)@.at_once(old(self)@),
    {
        proof {
            reveal(MachineState::step_timer_cycle);
        }
        self.step_reload();
        let old_signal: bool = self.timer_signal();
        self.div_counter = self.div_counter.wrapping_add(1);
        self.set_register(TIMER_DIV, divider_byte(self.div_counter));
        if old_signal && !self.timer_signal() {
            self.increment_tima();
        }
    }
}

/// The part of the divider that its register shows.
pub fn divider_byte(div_counter: u16) -> (byte: u8)
    ensures
        byte == (div_counter / 64 % 256) as u8,
{
    (div_counter / 64 % 256) as u8
}

} // verus!
