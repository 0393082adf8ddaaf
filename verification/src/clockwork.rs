//! Time: the divider, the timer, the picture unit's lines and the cartridge's clock, in clock cycles.

use vstd::prelude::*;

use crate::cpu::AddrMode8;
use crate::machine::{MachineState, PpuMode};
use crate::quiet::{lemma_fetch, lemma_fetch_rests, lemma_proceeds, lemma_read_cycle_rests};
use crate::registers::Registers;
use crate::rtc::{law_clock_counts_seconds, Mbc3Rtc};

verus! {

/// The machine cycles between two counts of the timer, for each of its four selections: 1024, 16, 64
/// and 256 clock cycles.
pub open spec fn timer_period(select: int) -> int {
    seq![256int, 4, 16, 64][select]
}

impl MachineState {
    /// The timer is on, counts at the selected rate, and has no reload under way.
    pub open spec fn timing(self, select: int) -> bool {
        &&& self.io.len() == 0x80
        &&& 0 <= select < 4
        &&& self.io[0x07] as int / 4 % 2 == 1
        &&& self.io[0x07] % 4 == select
        &&& self.tima_reload_state is None
    }

    /// The machine cycles that end within so many clock cycles.
    pub open spec fn machine_cycles(self, cycles: int) -> int {
        (self.cycle_counter + cycles) / 4 - self.cycle_counter as int / 4
    }
}

/// The bits of the timer's control, and where the bits of the divider fall.
proof fn lemma_timer_bits(tac: u8, div: u16, next: u16)
    requires
        next == (div + 1) % 0x10000,
    ensures
        tac & 0x03 == tac % 4,
        tac & 0x04 != 0 <==> tac as int / 4 % 2 == 1,
        div & 0x80 != 0 && next & 0x80 == 0 <==> (div + 1) % 256 == 0,
        div & 0x02 != 0 && next & 0x02 == 0 <==> (div + 1) % 4 == 0,
        div & 0x08 != 0 && next & 0x08 == 0 <==> (div + 1) % 16 == 0,
        div & 0x20 != 0 && next & 0x20 == 0 <==> (div + 1) % 64 == 0,
{
    assert((tac & 0x03 == tac % 4) && (tac & 0x04 != 0 <==> (tac / 4) % 2 == 1) && (div & 0x80 != 0
        && next & 0x80 == 0 <==> next % 256 == 0) && (div & 0x02 != 0 && next & 0x02 == 0 <==> next
        % 4 == 0) && (div & 0x08 != 0 && next & 0x08 == 0 <==> next % 16 == 0) && (div & 0x20 != 0
        && next & 0x20 == 0 <==> next % 64 == 0)) by (bit_vector)
        requires
            div < 0xFFFF && next == div + 1 || div == 0xFFFF && next == 0,
    ;
}

/// Whether the timer counts in a machine cycle.
proof fn lemma_timer_edge(machine: MachineState, select: int)
    requires
        machine.timing(select),
    ensures
        ({
            let next = ((machine.div_counter + 1) % 0x10000) as u16;
            let moved = machine.with_divider(next);
            machine.timer_signal() && !moved.timer_signal() <==> (machine.div_counter + 1)
                % timer_period(select) == 0
        }),
{
    let next = ((machine.div_counter + 1) % 0x10000) as u16;
    lemma_timer_bits(machine.io[0x07], machine.div_counter, next);
}

impl MachineState {
    /// The timer's part of the machine is as before.
    spec fn same_timer(self, before: MachineState) -> bool {
        &&& self.io.len() == before.io.len()
        &&& self.io[0x04] == before.io[0x04]
        &&& self.io[0x05] == before.io[0x05]
        &&& self.io[0x06] == before.io[0x06]
        &&& self.io[0x07] == before.io[0x07]
        &&& self.io[0x0F] == before.io[0x0F]
        &&& self.tima_reload_state == before.tima_reload_state
        &&& self.div_counter == before.div_counter
        &&& self.cycle_counter == before.cycle_counter
    }
}

proof fn lemma_others_leave_the_timer(machine: MachineState)
    requires
        machine.io.len() == 0x80,
    ensures
        machine.step_dma_mcycle().same_timer(machine),
        machine.step_ppu_cycle().same_timer(machine),
{
    reveal(MachineState::step_dma_mcycle);
    reveal(MachineState::step_ppu_cycle);
    reveal(MachineState::next_ppu_mode);
    reveal(MachineState::switch_ppu_mode);
    reveal(MachineState::update_lyc_compare_interrupt);
}

/// One machine cycle of a timer that does not run over.
proof fn lemma_timer_cycle(machine: MachineState, select: int)
    requires
        machine.timing(select),
        machine.io[0x05] < 255,
    ensures
        ({
            let after = machine.step_timer_cycle();
            let period = timer_period(select);
            &&& after.timing(select)
            &&& after.div_counter == (machine.div_counter + 1) % 0x10000
            &&& after.io[0x04] == after.div_counter / 64 % 256
            &&& after.io[0x05] == machine.io[0x05] + (if (machine.div_counter + 1) % period == 0 {
                1int
            } else {
                0
            })
            &&& after.cycle_counter == machine.cycle_counter
        }),
{
    reveal(MachineState::step_timer_cycle);
    lemma_timer_edge(machine, select);
}

/// What the timer shows after some machine cycles.
pub open spec fn counted(tima: int, div: int, cycles: int, period: int) -> int {
    tima + ((div + cycles) / period - div / period)
}

proof fn lemma_one_more(div: int, cycles: int, period: int)
    requires
        div >= 0,
        cycles >= 0,
        period == 256 || period == 4 || period == 16 || period == 64,
    ensures
        (div + cycles + 1) / period == (div + cycles) / period + (if (div + cycles + 1) % period
            == 0 {
            1int
        } else {
            0
        }),
        (div + cycles) / period <= (div + cycles + 1) / period,
        ((div + cycles) % 0x10000 + 1) % period == (div + cycles + 1) % period,
{
    let n = div + cycles;
    let rounds = n / 0x10000;
    if period == 256 {
        assert((n % 0x10000 + 1) % 256 == (n + 1) % 256);
    } else if period == 4 {
        assert((n % 0x10000 + 1) % 4 == (n + 1) % 4);
    } else if period == 16 {
        assert((n % 0x10000 + 1) % 16 == (n + 1) % 16);
    } else {
        assert((n % 0x10000 + 1) % 64 == (n + 1) % 64);
    }
}

proof fn lemma_timer_counts(machine: MachineState, select: int, cycles: nat)
    requires
        machine.timing(select),
        machine.cycle_counter + cycles <= u64::MAX,
        counted(
            machine.io[0x05] as int,
            machine.div_counter as int,
            machine.machine_cycles(cycles as int),
            timer_period(select),
        ) <= 255,
    ensures
        ({
            let after = machine.ticks(cycles);
            let passed = machine.machine_cycles(cycles as int);
            &&& after.timing(select)
            &&& after.cycle_counter == machine.cycle_counter + cycles
            &&& after.div_counter == (machine.div_counter + passed) % 0x10000
            &&& after.io[0x05] == counted(
                machine.io[0x05] as int,
                machine.div_counter as int,
                passed,
                timer_period(select),
            )
        }),
    decreases cycles,
{
    let period = timer_period(select);
    let div = machine.div_counter as int;
    let tima = machine.io[0x05] as int;
    if cycles > 0 {
        let fewer = (cycles - 1) as nat;
        let passed = machine.machine_cycles(fewer as int);
        let before = machine.ticks(fewer);
        lemma_one_more(div, passed, period);
        assert(machine.machine_cycles(cycles as int) == passed || machine.machine_cycles(
            cycles as int,
        ) == passed + 1);
        lemma_timer_counts(machine, select, fewer);
        let counted_up = MachineState {
            cycle_counter: (before.cycle_counter + 1) as u64,
            ..before
        };
        reveal(MachineState::tick);
        if counted_up.cycle_counter % 4 == 0 {
            assert(machine.machine_cycles(cycles as int) == passed + 1);
            lemma_others_leave_the_timer(counted_up);
            let copied = counted_up.step_dma_mcycle();
            lemma_others_leave_the_timer(copied);
            let drawn = copied.step_ppu_cycle();
            assert(((div + passed) % 0x10000 + 1) % 0x10000 == (div + passed + 1) % 0x10000);
            if drawn.io[0x05] == 255 {
                assert((div + passed + 1) % period != 0);
                lemma_full_timer_waits(drawn, select);
            } else {
                lemma_timer_cycle(drawn, select);
            }
        } else {
            assert(machine.machine_cycles(cycles as int) == passed);
        }
    }
}

/// A timer that is full does not change until its next count.
proof fn lemma_full_timer_waits(machine: MachineState, select: int)
    requires
        machine.timing(select),
        (machine.div_counter + 1) % timer_period(select) != 0,
    ensures
        ({
            let after = machine.step_timer_cycle();
            &&& after.timing(select)
            &&& after.div_counter == (machine.div_counter + 1) % 0x10000
            &&& after.io[0x05] == machine.io[0x05]
            &&& after.cycle_counter == machine.cycle_counter
        }),
{
    reveal(MachineState::step_timer_cycle);
    lemma_timer_edge(machine, select);
}

/// The timer counts once each time the divider passes a multiple of its period, which is 1024, 16, 64
/// or 256 clock cycles for the selections 0 to 3, whatever the divider was.
pub proof fn law_timer_counts_at_its_rate(machine: MachineState, select: int, cycles: u16)
    requires
        machine.timing(select),
        machine.cycle_counter + cycles <= u64::MAX,
        counted(
            machine.io[0x05] as int,
            machine.div_counter as int,
            machine.machine_cycles(cycles as int),
            timer_period(select),
        ) <= 255,
    ensures
        ({
            let after = machine.tick_timers(cycles);
            &&& after.div_counter == (machine.div_counter + machine.machine_cycles(cycles as int))
                % 0x10000
            &&& after.io[0x05] == counted(
                machine.io[0x05] as int,
                machine.div_counter as int,
                machine.machine_cycles(cycles as int),
                timer_period(select),
            )
        }),
{
    reveal(MachineState::tick_timers);
    lemma_timer_counts(
        MachineState { cartridge: machine.cartridge.after_cycles(cycles), ..machine },
        select,
        cycles as nat,
    );
}

/// Whole periods from a divider of 0 raise the timer by their number.
pub proof fn law_whole_periods_raise_the_timer(machine: MachineState, select: int, periods: nat)
    requires
        machine.timing(select),
        machine.div_counter == 0,
        machine.cycle_counter % 4 == 0,
        machine.io[0x05] + periods <= 255,
        machine.cycle_counter + periods * seq![1024int, 16, 64, 256][select] <= u64::MAX,
    ensures
        machine.ticks((periods * seq![1024int, 16, 64, 256][select]) as nat).io[0x05]
            == machine.io[0x05] + periods,
{
    let period = timer_period(select);
    let cycles = (periods * seq![1024int, 16, 64, 256][select]) as nat;
    assert(cycles == 4 * (periods * period)) by (nonlinear_arith)
        requires
            cycles == periods * seq![1024int, 16, 64, 256][select],
            seq![1024int, 16, 64, 256][select] == 4 * period,
    ;
    assert(machine.machine_cycles(cycles as int) == periods * period);
    assert((periods * period) / period == periods) by (nonlinear_arith)
        requires
            period > 0,
    ;
    lemma_timer_counts(machine, select, cycles);
}

/// A timer that is switched off stands still; the divider counts on, and its register shows it in
/// steps of 256 clock cycles.
pub proof fn law_divider_counts_always(machine: MachineState)
    requires
        machine.io.len() == 0x80,
        machine.cycle_counter % 4 == 3,
        machine.cycle_counter < u64::MAX,
    ensures
        ({
            let after = machine.tick();
            &&& after.div_counter == (machine.div_counter + 1) % 0x10000
            &&& after.io[0x04] == after.div_counter as int / 64 % 256
            &&& machine.io[0x07] as int / 4 % 2 == 0 && machine.tima_reload_state is None
                ==> after.io[0x05] == machine.io[0x05] && after.io[0x0F] == machine.io[0x0F]
        }),
{
    reveal(MachineState::tick);
    reveal(MachineState::step_timer_cycle);
    let counted_up = MachineState {
        cycle_counter: (machine.cycle_counter + 1) as u64,
        ..machine
    };
    lemma_others_leave_the_timer(counted_up);
    lemma_others_leave_the_timer(counted_up.step_dma_mcycle());
    lemma_timer_bits(
        machine.io[0x07],
        machine.div_counter,
        ((machine.div_counter + 1) % 0x10000) as u16,
    );
}

/// The count after 255 shows 0. A machine cycle later the timer shows its modulo, and its interrupt is
/// requested, not before.
pub proof fn law_timer_runs_over(machine: MachineState, select: int)
    requires
        machine.timing(select),
        machine.io[0x05] == 255,
        (machine.div_counter + 1) % timer_period(select) == 0,
    ensures
        ({
            let over = machine.step_timer_cycle();
            let reloaded = over.step_timer_cycle();
            &&& over.io[0x05] == 0
            &&& over.io[0x0F] == machine.io[0x0F]
            &&& reloaded.io[0x05] == machine.io[0x06]
            &&& reloaded.io[0x0F] as int / 4 % 2 == 1
            &&& reloaded.io[0x0F] >= 0xE0
            &&& reloaded.step_timer_cycle().tima_reload_state is None
        }),
{
    reveal(MachineState::step_timer_cycle);
    let period = timer_period(select);
    lemma_timer_edge(machine, select);
    let over = machine.step_timer_cycle();
    assert(over.div_counter == (machine.div_counter + 1) % 0x10000);
    lemma_after_a_period(machine.div_counter as int, period);
    let loaded = over.step_reload();
    assert((over.div_counter + 1) % period == 1);
    lemma_timer_edge(MachineState { tima_reload_state: None, ..loaded }, select);
    lemma_display_bits(0, machine.io[0x0F], 0);
    let reloaded = over.step_timer_cycle();
    assert(reloaded.io[0x05] == machine.io[0x06]);
    assert(reloaded.div_counter == over.div_counter + 1);
    assert((reloaded.div_counter + 1) % period == 2);
    let ended = reloaded.step_reload();
    lemma_timer_edge(ended, select);
}

proof fn lemma_after_a_period(div: int, period: int)
    requires
        0 <= div < 0x10000,
        period == 256 || period == 4 || period == 16 || period == 64,
        (div + 1) % period == 0,
    ensures
        (div + 1) % 0x10000 < 0xFFFD,
        ((div + 1) % 0x10000 + 1) % period == 1,
        ((div + 1) % 0x10000 + 2) % period == 2,
{
}

/// How many machine cycles the fine scroll moves from the horizontal blank to the drawing of a line.
pub open spec fn scroll_delay(scroll_x: u8) -> int {
    seq![0int, 1, 1, 1, 1, 2, 2, 2][scroll_x as int % 8]
}

impl MachineState {
    /// The display is on and memory has its size.
    pub open spec fn shows(self) -> bool {
        self.io.len() == 0x80 && self.io[0x40] >= 128
    }

    /// The mode in the status register, of its two low bits.
    pub open spec fn shown_mode(self) -> int {
        self.io[0x41] as int % 4
    }
}

/// The numbers of the modes in the status register.
pub open spec fn mode_number(mode: PpuMode) -> int {
    match mode {
        PpuMode::HBlank => 0,
        PpuMode::VBlank => 1,
        PpuMode::AccessOam => 2,
        PpuMode::AccessVram => 3,
    }
}

proof fn lemma_display_bits(lcdc: u8, stat: u8, mode: u8)
    requires
        mode <= 3,
    ensures
        lcdc & 0x80 != 0 <==> lcdc >= 128,
        (((stat & 0xFC) | 0x80) | mode) % 4 == mode,
        (((stat & 0xFC) | 0x80) | mode) as int / 4 % 2 == stat as int / 4 % 2,
        (((stat & 0xFC) | 0x80) | mode) as int / 8 % 16 == stat as int / 8 % 16,
        (stat | 0x04) as int / 4 % 2 == 1,
        (stat & !0x04) as int / 4 % 2 == 0,
        (stat | 0x04) as int / 8 == stat as int / 8,
        (stat & !0x04) as int / 8 == stat as int / 8,
        stat & 0x08 != 0 <==> stat as int / 8 % 2 == 1,
        stat & 0x20 != 0 <==> stat as int / 32 % 2 == 1,
        stat & 0x40 != 0 <==> stat as int / 64 % 2 == 1,
        stat & 0x30 != 0 <==> stat as int / 16 % 4 != 0,
        stat | 0x00 == stat,
        (stat | 0x04 | 0xE0) as int / 4 % 2 == 1,
        stat | 0x04 | 0xE0 >= 0xE0,
        stat | 0x01 == stat + 1 - stat % 2,
        stat | 0x02 == stat + 2 - 2 * (stat as int / 2 % 2),
{
    assert((lcdc & 0x80 != 0 <==> lcdc >= 128) && ((((stat & 0xFC) | 0x80) | mode) % 4 == mode) && (
    ((((stat & 0xFC) | 0x80) | mode) / 4) % 2 == (stat / 4) % 2) && (((((stat & 0xFC) | 0x80)
        | mode) / 8) % 16 == (stat / 8) % 16) && (((stat | 0x04) / 4) % 2 == 1) && (((stat & !0x04)
        / 4) % 2 == 0) && ((stat | 0x04) / 8 == stat / 8) && ((stat & !0x04) / 8 == stat / 8) && (
    stat & 0x08 != 0 <==> (stat / 8) % 2 == 1) && (stat & 0x20 != 0 <==> (stat / 32) % 2 == 1) && (
    stat & 0x40 != 0 <==> (stat / 64) % 2 == 1) && (stat & 0x30 != 0 <==> (stat / 16) % 4 != 0) && (
    stat | 0x00 == stat) && (((stat | 0x04 | 0xE0) / 4) % 2 == 1) && (stat | 0x04 | 0xE0 >= 0xE0) && (stat | 0x01 == stat + 1 - stat % 2) && (stat | 0x02 == stat + 2 - 2 * ((stat / 2) % 2)))
        by (bit_vector)
        requires
            mode <= 3,
    ;
}

/// Within a mode the line, the comparison and the mode stay, and the time left in the mode counts
/// down; one machine cycle before the drawing ends, the horizontal blank's interrupt is requested
/// where it is enabled.
pub proof fn law_mode_lasts(machine: MachineState)
    requires
        machine.shows(),
        machine.ppu_mode_cycles_remaining > 1,
    ensures
        ({
            let after = machine.step_ppu_cycle();
            &&& after.ppu_mode == machine.ppu_mode
            &&& after.ppu_mode_cycles_remaining == machine.ppu_mode_cycles_remaining - 1
            &&& after.ppu_cycle_counter == (machine.ppu_cycle_counter + 4) % 456
            &&& after.io[0x44] == machine.io[0x44]
            &&& after.shown_mode() == mode_number(after.ppu_mode)
            &&& after.io[0x41] as int / 4 % 2 == machine.io[0x41] as int / 4 % 2
            &&& after.pending_t34_interrupts == (if machine.ppu_mode is AccessVram
                && machine.ppu_mode_cycles_remaining == 2 && machine.io[0x41] as int / 8 % 2 == 1 {
                machine.pending_t34_interrupts | 0x02
            } else {
                machine.pending_t34_interrupts
            })
        }),
{
    reveal(MachineState::step_ppu_cycle);
    lemma_display_bits(machine.io[0x40], machine.io[0x41], machine.ppu_mode.number());
}

/// What begins with a mode: how long it lasts, and the requests.
proof fn lemma_mode_begins(machine: MachineState, mode: PpuMode)
    requires
        machine.io.len() == 0x80,
    ensures
        ({
            let after = machine.switch_ppu_mode(mode);
            let delay = scroll_delay(machine.io[0x43]);
            let stat = machine.io[0x41] as int;
            &&& after.io == machine.io
            &&& after.ppu_mode == mode
            &&& after.ppu_mode_cycles_remaining == (match mode {
                PpuMode::AccessOam => 20,
                PpuMode::AccessVram => 43 + delay,
                PpuMode::HBlank => 50 - delay,
                PpuMode::VBlank => 114,
            })
            &&& machine.pending_t34_interrupts == 0 ==> after.pending_t34_interrupts == (match mode {
                PpuMode::AccessOam => 2 * (stat / 32 % 2),
                PpuMode::VBlank => if stat / 16 % 4 != 0 {
                    3
                } else {
                    1
                },
                _ => 0,
            })
        }),
{
    reveal(MachineState::switch_ppu_mode);
    lemma_display_bits(0, machine.io[0x41], 0);
    lemma_display_bits(0, 0, 0);
    lemma_display_bits(0, 1, 0);
}

/// The comparison of the line.
proof fn lemma_line_is_compared(machine: MachineState, old_match: bool)
    requires
        machine.io.len() == 0x80,
        machine.pending_t34_interrupts <= 3,
    ensures
        ({
            let after = machine.update_lyc_compare_interrupt(old_match);
            let matches = machine.io[0x44] == machine.io[0x45];
            let held = machine.pending_t34_interrupts;
            let stat = machine.io[0x41] as int;
            &&& after.io.len() == 0x80
            &&& forall|i: int| 0 <= i < 0x80 && i != 0x41 ==> #[trigger] after.io[i] == machine.io[i]
            &&& (after.io[0x41] as int / 4 % 2 == 1) == matches
            &&& after.ppu_mode == machine.ppu_mode
            &&& after.ppu_mode_cycles_remaining == machine.ppu_mode_cycles_remaining
            &&& after.pending_t34_interrupts == (if matches && !old_match && stat / 64 % 2 == 1 {
                held % 2 + 2
            } else {
                held as int
            })
        }),
{
    reveal(MachineState::update_lyc_compare_interrupt);
    lemma_display_bits(0, machine.io[0x41], 0);
    lemma_display_bits(0, machine.io[0x41] | 0x04, 0);
    lemma_display_bits(0, machine.pending_t34_interrupts, 0);
}

impl MachineState {
    /// The mode and line that follow, with their requests.
    spec fn follows(self, before: MachineState) -> bool {
        let line = before.io[0x44];
        let lasts = self.ppu_mode_cycles_remaining;
        let delay = scroll_delay(before.io[0x43]);
        match before.ppu_mode {
            PpuMode::AccessOam => self.ppu_mode is AccessVram && lasts == 43 + delay
                && self.io[0x44] == line,
            PpuMode::AccessVram => self.ppu_mode is HBlank && lasts == 50 - delay && self.io[0x44]
                == line,
            PpuMode::HBlank => self.io[0x44] == line + 1 && if line < 143 {
                self.ppu_mode is AccessOam && lasts == 20
            } else {
                self.ppu_mode is VBlank && lasts == 114
            },
            PpuMode::VBlank => if line < 153 {
                self.ppu_mode is VBlank && lasts == 114 && self.io[0x44] == line + 1
            } else {
                self.ppu_mode is AccessOam && lasts == 20 && self.io[0x44] == 0
            },
        }
    }
}

proof fn lemma_next_mode(machine: MachineState, old_match: bool)
    requires
        machine.io.len() == 0x80,
        machine.ppu_mode is VBlank ==> machine.io[0x44] <= 153,
        !(machine.ppu_mode is VBlank) ==> machine.io[0x44] <= 143,
        machine.pending_t34_interrupts == 0,
    ensures
        ({
            let after = machine.next_ppu_mode(old_match);
            let stat = machine.io[0x41] as int;
            let begins = machine.ppu_mode is HBlank && machine.io[0x44] == 143;
            let compared = after.io[0x44] == machine.io[0x45];
            let asked = begins && stat / 16 % 4 != 0 || after.ppu_mode is AccessOam && stat / 32 % 2
                == 1 || compared && !old_match && stat / 64 % 2 == 1;
            &&& after.io.len() == 0x80
            &&& after.io[0x40] == machine.io[0x40]
            &&& after.follows(machine)
            &&& machine.ppu_mode is HBlank || machine.ppu_mode is VBlank ==> {
                &&& (after.io[0x41] as int / 4 % 2 == 1) == compared
                &&& after.pending_t34_interrupts == (if begins { 1int } else { 0 }) + (if asked {
                    2int
                } else {
                    0
                })
            }
        }),
{
    reveal(MachineState::next_ppu_mode);
    let line = machine.io[0x44];
    let next_line = ((line + 1) % 256) as u8;
    let moved = machine.with_reg(0xFF44, next_line);
    let top = machine.with_reg(0xFF44, 0);
    match machine.ppu_mode {
        PpuMode::AccessOam => lemma_mode_begins(machine, PpuMode::AccessVram),
        PpuMode::AccessVram => lemma_mode_begins(machine, PpuMode::HBlank),
        PpuMode::HBlank => {
            let mode = if next_line < 144 {
                PpuMode::AccessOam
            } else {
                PpuMode::VBlank
            };
            lemma_mode_begins(moved, mode);
            lemma_line_is_compared(moved.switch_ppu_mode(mode), old_match);
        },
        PpuMode::VBlank => {
            if line < 153 {
                lemma_line_is_compared(
                    MachineState { ppu_mode_cycles_remaining: 114, ..moved },
                    old_match,
                );
            } else {
                lemma_mode_begins(top, PpuMode::AccessOam);
                lemma_line_is_compared(top.switch_ppu_mode(PpuMode::AccessOam), old_match);
            }
        },
    }
}

/// The order of the modes: on each of the 144 lines of the picture the search of objects for 20
/// machine cycles, the drawing for 43 and the horizontal blank for 50, the fine scroll moving one or
/// two from the last to the one before; then the vertical blank on ten lines of 114 each. The line
/// counter counts 154 lines. The vertical blank requests its interrupt when it begins; the search of
/// objects, the vertical blank and a line that comes to be the compared one request the status
/// interrupt where it is enabled for them. The status register shows the mode, and whether the line
/// is the compared one.
pub proof fn law_modes_follow(machine: MachineState)
    requires
        machine.shows(),
        machine.ppu_mode_cycles_remaining == 1,
        machine.ppu_mode is VBlank ==> machine.io[0x44] <= 153,
        !(machine.ppu_mode is VBlank) ==> machine.io[0x44] <= 143,
        machine.pending_t34_interrupts == 0,
    ensures
        ({
            let after = machine.step_ppu_cycle();
            let line = machine.io[0x44];
            let delay = scroll_delay(machine.io[0x43]);
            let lasts = after.ppu_mode_cycles_remaining;
            let stat = machine.io[0x41] as int;
            let blank_begins = machine.ppu_mode is HBlank && line == 143;
            let compared = after.io[0x44] == machine.io[0x45];
            let asked = blank_begins && stat / 16 % 4 != 0 || after.ppu_mode is AccessOam && stat
                / 32 % 2 == 1 || compared && line != machine.io[0x45] && stat / 64 % 2 == 1;
            &&& after.shown_mode() == mode_number(after.ppu_mode)
            &&& machine.ppu_mode is AccessOam ==> after.ppu_mode is AccessVram && lasts == 43 + delay
                && after.io[0x44] == line
            &&& machine.ppu_mode is AccessVram ==> after.ppu_mode is HBlank && lasts == 50 - delay
                && after.io[0x44] == line
            &&& machine.ppu_mode is HBlank && line < 143 ==> after.ppu_mode is AccessOam && lasts
                == 20 && after.io[0x44] == line + 1
            &&& machine.ppu_mode is HBlank && line == 143 ==> after.ppu_mode is VBlank && lasts
                == 114 && after.io[0x44] == 144
            &&& machine.ppu_mode is VBlank && line < 153 ==> after.ppu_mode is VBlank && lasts
                == 114 && after.io[0x44] == line + 1
            &&& machine.ppu_mode is VBlank && line == 153 ==> after.ppu_mode is AccessOam && lasts
                == 20 && after.io[0x44] == 0
            &&& machine.ppu_mode is HBlank || machine.ppu_mode is VBlank ==> {
                &&& (after.io[0x41] as int / 4 % 2 == 1) == compared
                &&& after.pending_t34_interrupts == (if blank_begins { 1int } else { 0 }) + (
                if asked { 2int } else { 0 })
            }
        }),
{
    reveal(MachineState::step_ppu_cycle);
    lemma_display_bits(machine.io[0x40], machine.io[0x41], 0);
    let counted = machine.count_ppu_cycle();
    lemma_next_mode(counted, machine.at_compared_line());
    let next = counted.next_ppu_mode(machine.at_compared_line());
    lemma_display_bits(next.io[0x40], next.io[0x41], next.ppu_mode.number());
}

/// Requests of the picture unit that were held back come to be raised, and none is lost.
pub proof fn law_held_requests_are_raised(machine: MachineState, bit: int)
    requires
        machine.io.len() == 0x80,
        machine.pending_t34_interrupts <= 3,
        bit == 0 || bit == 1,
    ensures
        ({
            let after = machine.flush_pending_t34_interrupts();
            let value: int = if bit == 0 { 1 } else { 2 };
            &&& after.pending_t34_interrupts == 0
            &&& (after.io[0x0F] as int / value % 2 == 1) == (machine.io[0x0F] as int / value % 2 == 1
                || machine.pending_t34_interrupts as int / value % 2 == 1)
        }),
{
    let held = machine.pending_t34_interrupts;
    let requested = machine.io[0x0F];
    assert((((requested | held | 0xE0) % 2 == 1) == (requested % 2 == 1 || held % 2 == 1)) && (((((
    requested | held | 0xE0) / 2) % 2) == 1) == ((requested / 2) % 2 == 1 || (held / 2) % 2 == 1)))
        by (bit_vector);
}

/// The clock of a cartridge counts a second each 4194304 clock cycles, and stands still while it is
/// halted.
pub proof fn law_cartridge_clock_keeps_time(clock: Mbc3Rtc, cycles: u16)
    requires
        clock.live.seconds < 60,
        clock.live.minutes < 60,
        clock.live.hours < 24,
        clock.cycle_accumulator < 4_194_304,
    ensures
        ({
            let after = clock.after_cycles(cycles);
            let halted = clock.live.day_high as int / 64 % 2 == 1;
            let passed = clock.cycle_accumulator + cycles;
            &&& after.latched == clock.latched
            &&& halted ==> after == clock
            &&& !halted && passed < 4_194_304 ==> after.live == clock.live
                && after.cycle_accumulator == passed
            &&& !halted && passed >= 4_194_304 ==> {
                &&& after.cycle_accumulator == passed - 4_194_304
                &&& shown_seconds(after) == (shown_seconds(clock) + 1) % (512 * 86400int)
                &&& after.live.seconds < 60 && after.live.minutes < 60 && after.live.hours < 24
            }
        }),
{
    law_clock_counts_seconds(clock.live);
    reveal_with_fuel(crate::rtc::RtcRegisters::later, 2);
}

/// The seconds since day 0 that a clock's running registers show; bit 0 of the last one is the ninth
/// bit of the day.
pub open spec fn shown_seconds(clock: Mbc3Rtc) -> int {
    let day = clock.live.day_low + 256 * (clock.live.day_high % 2);
    86400 * day + 3600 * clock.live.hours + 60 * clock.live.minutes + clock.live.seconds
}

/// Every fourth clock cycle is the end of a machine cycle, in which the picture unit, the copy into
/// object memory and the divider each move on by one; on the others nothing but the count of cycles
/// moves.
pub proof fn law_clock_drives_the_hardware(machine: MachineState)
    requires
        machine.shows(),
        machine.cycle_counter < u64::MAX,
        machine.ppu_mode_cycles_remaining > 1,
    ensures
        ({
            let after = machine.tick();
            let ends = machine.cycle_counter % 4 == 3;
            &&& after.cycle_counter == machine.cycle_counter + 1
            &&& ends ==> {
                &&& after.ppu_mode_cycles_remaining == machine.ppu_mode_cycles_remaining - 1
                &&& after.div_counter == (machine.div_counter + 1) % 0x10000
                &&& machine.dma_active && machine.dma_starting_source is None
                    && machine.dma_next_byte < 0xA0 ==> after.dma_next_byte == machine.dma_next_byte
                    + 1
            }
            &&& !ends ==> after == (MachineState {
                cycle_counter: (machine.cycle_counter + 1) as u64,
                ..machine
            })
        }),
{
    reveal(MachineState::tick);
    let up = MachineState { cycle_counter: (machine.cycle_counter + 1) as u64, ..machine };
    let copied = up.step_dma_mcycle();
    assert(copied.io == machine.io && copied.ppu_mode_cycles_remaining
        == machine.ppu_mode_cycles_remaining && copied.cycle_counter == up.cycle_counter) by {
        reveal(MachineState::step_dma_mcycle);
    }
    assert(machine.dma_active && machine.dma_starting_source is None && machine.dma_next_byte < 0xA0
        ==> copied.dma_next_byte == machine.dma_next_byte + 1) by {
        reveal(MachineState::step_dma_mcycle);
    }
    law_mode_lasts(copied);
    lemma_others_leave_the_timer(up);
    lemma_others_leave_the_timer(copied);
    let drawn = copied.step_ppu_cycle();
    assert(drawn.dma_next_byte == copied.dma_next_byte) by {
        reveal(MachineState::step_ppu_cycle);
    }
    let timed = drawn.step_timer_cycle();
    assert(timed.ppu_mode_cycles_remaining == drawn.ppu_mode_cycles_remaining
        && timed.dma_next_byte == drawn.dma_next_byte && timed.div_counter == (drawn.div_counter + 1)
        % 0x10000 && timed.cycle_counter == drawn.cycle_counter) by {
        reveal(MachineState::step_timer_cycle);
    }
}

/// A machine cycle moves the divider on by one.
pub proof fn lemma_divider_moves(machine: MachineState)
    requires
        machine.io.len() == 0x80,
        machine.cycle_counter % 4 == 0,
        machine.cycle_counter + 4 <= u64::MAX,
    ensures
        ({
            let after = machine.tick_timers(4);
            &&& after.io.len() == 0x80
            &&& after.cycle_counter == machine.cycle_counter + 4
            &&& after.div_counter == (machine.div_counter + 1) % 0x10000
            &&& after.io[0x04] == after.div_counter as int / 64 % 256
        }),
{
    reveal(MachineState::tick_timers);
    let first = MachineState { cartridge: machine.cartridge.after_cycles(4), ..machine };
    reveal_with_fuel(MachineState::ticks, 5);
    let second = first.tick();
    let third = second.tick();
    let fourth = third.tick();
    assert(fourth == (MachineState {
        cycle_counter: (machine.cycle_counter + 3) as u64,
        ..first
    })) by {
        reveal(MachineState::tick);
    }
    law_divider_counts_always(fourth);
    assert(fourth.tick().cycle_counter == machine.cycle_counter + 4 && fourth.tick().io.len()
        == 0x80) by {
        reveal(MachineState::tick);
        let up = MachineState { cycle_counter: (fourth.cycle_counter + 1) as u64, ..fourth };
        lemma_others_leave_the_timer(up);
        lemma_others_leave_the_timer(up.step_dma_mcycle());
        reveal(MachineState::step_timer_cycle);
    }
}

proof fn lemma_divider_access(machine: MachineState)
    requires
        machine.executing(),
        machine.plain(machine.registers.pc as int),
        machine.held(machine.registers.pc as int) == 0x04,
    ensures
        ({
            let fetched = machine.after_fetch8();
            let loaded = fetched.after_read_cycle(0xFF04);
            let value = fetched.read_cycle(0xFF04);
            &&& machine.execute_opcode(0xF0) == loaded.with_registers(
                Registers { a: value, ..loaded.registers },
            ).prefetch_next()
            &&& machine.execute_opcode(0xE0) == fetched.write_cycle(
                0xFF04,
                machine.registers.a,
            ).prefetch_next()
        }),
{
    broadcast use {lemma_fetch, lemma_fetch_rests};

    reveal(MachineState::execute_opcode);
    reveal(MachineState::execute_opcode_c0_ff);
    reveal(MachineState::execute_single_opcode);
    reveal(MachineState::exec_load8);
    reveal(MachineState::read_in8);
    reveal(MachineState::after_read_in8);
    reveal(MachineState::write_out8);
    reveal(MachineState::read_addr_mode8);
    reveal(MachineState::after_read_addr_mode8);
    reveal(MachineState::write_addr_mode8);
    assert(machine.address_of(AddrMode8::ZeroPageImm) == 0xFF04);
}

proof fn lemma_fetch_moves_the_divider(machine: MachineState)
    requires
        machine.io.len() == 0x80,
        machine.cycle_counter % 4 == 0,
        machine.cycle_counter + 4 <= u64::MAX,
    ensures
        ({
            let after = machine.after_fetch8();
            &&& after.io.len() == 0x80
            &&& after.cycle_counter == machine.cycle_counter + 4
            &&& after.div_counter == (machine.div_counter + 1) % 0x10000
        }),
{
    reveal(MachineState::after_fetch8);
    reveal(MachineState::after_read_cycle);
    reveal(MachineState::after_read8);
    reveal(MachineState::record_watchpoint);
    lemma_divider_moves(machine);
}

proof fn lemma_divider_is_read(machine: MachineState)
    requires
        machine.io.len() == 0x80,
        machine.cycle_counter % 4 == 0,
        machine.cycle_counter + 4 <= u64::MAX,
    ensures
        machine.read_cycle(0xFF04) == (machine.div_counter + 1) % 0x10000 / 64 % 256,
{
    lemma_divider_moves(machine);
    reveal(MachineState::read_cycle);
    reveal(MachineState::read8);
    reveal(MachineState::peek8);
    reveal(MachineState::read_io_value);
    lemma_display_bits(0, machine.tick_timers(4).io[0x04], 0);
}

proof fn lemma_divider_is_written(machine: MachineState, value: u8)
    requires
        machine.io.len() == 0x80,
        machine.cycle_counter % 4 == 0,
        machine.cycle_counter + 8 <= u64::MAX,
    ensures
        machine.write_cycle(0xFF04, value).prefetch_next().div_counter == 1,
{
    lemma_divider_moves(machine);
    let written = machine.write_cycle(0xFF04, value);
    assert(written.div_counter == 0 && written.io.len() == 0x80 && written.cycle_counter
        == machine.cycle_counter + 4) by {
        reveal(MachineState::write_cycle);
        reveal(MachineState::write8);
        reveal(MachineState::record_watchpoint);
        reveal(MachineState::store8);
        reveal(MachineState::write_io);
    }
    lemma_divider_moves(written);
    reveal(MachineState::prefetch);
    reveal(MachineState::after_read8);
    reveal(MachineState::record_watchpoint);
}

/// An access comes at the end of its own machine cycle. A read of the divider sees it moved by the cycle
/// of the operand and by its own; a write clears it after them, so that it has counted just the cycle
/// in which the next opcode was read.
pub proof fn law_access_comes_at_the_end_of_its_cycle(machine: MachineState)
    requires
        machine.executing(),
        machine.cycle_counter % 4 == 0,
        machine.plain(machine.registers.pc as int),
        machine.held(machine.registers.pc as int) == 0x04,
    ensures
        machine.execute_opcode(0xF0).registers.a == (machine.div_counter + 2) % 0x10000 / 64 % 256,
        machine.execute_opcode(0xE0).div_counter == 1,
{
    lemma_divider_access(machine);
    lemma_fetch_moves_the_divider(machine);
    lemma_fetch_rests(machine);
    let fetched = machine.after_fetch8();
    lemma_divider_is_read(fetched);
    lemma_read_cycle_rests(fetched, 0xFF04);
    let loaded = fetched.after_read_cycle(0xFF04);
    let value = fetched.read_cycle(0xFF04);
    let with = loaded.with_registers(Registers { a: value, ..loaded.registers });
    lemma_proceeds(with, with.registers.pc, true);
    lemma_divider_is_written(fetched, machine.registers.a);
    let div = machine.div_counter as int;
    assert(((div + 1) % 0x10000 + 1) % 0x10000 == (div + 2) % 0x10000);
}

} // verus!
