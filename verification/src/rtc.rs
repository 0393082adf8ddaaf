//! The real-time clock of a cartridge.

use vstd::prelude::*;

verus! {

/// Machine clock cycles that make up a second.
pub const RTC_CYCLES_PER_SECOND: u64 = 4_194_304;

/// The clock's registers. Bit 0 of `day_high` is bit 8 of the day, bit 6 halts the clock, and
/// bit 7 records that the day ran over.
#[derive(Debug, Clone, Copy, PartialEq, Eq, Structural)]
pub struct RtcRegisters {
    pub seconds: u8,
    pub minutes: u8,
    pub hours: u8,
    pub day_low: u8,
    pub day_high: u8,
}

/// The clock: the running registers, the copy that is read, and the part of a second that has
/// passed, in cycles.
#[derive(Debug, Clone, Copy, PartialEq, Eq, Structural)]
pub struct Mbc3Rtc {
    pub live: RtcRegisters,
    pub latched: RtcRegisters,
    pub cycle_accumulator: u64,
}

impl RtcRegisters {
    pub open spec fn cleared() -> RtcRegisters {
        RtcRegisters { seconds: 0, minutes: 0, hours: 0, day_low: 0, day_high: 0 }
    }

    /// The day, of nine bits.
    pub open spec fn day(self) -> int {
        self.day_low + self.day_high % 2 * 256
    }

    pub open spec fn overflowed(self) -> bool {
        self.day_high >= 128
    }

    pub open spec fn halted(self) -> bool {
        self.day_high / 64 % 2 == 1
    }

    /// Whether seconds, minutes and hours are those of a clock.
    pub open spec fn is_time(self) -> bool {
        self.seconds < 60 && self.minutes < 60 && self.hours < 24
    }

    /// Seconds since day 0.
    pub open spec fn total_seconds(self) -> int {
        ((self.day() * 24 + self.hours) * 60 + self.minutes) * 60 + self.seconds
    }

    /// The registers on the next day, at midnight.
    pub open spec fn next_day(self) -> RtcRegisters {
        let rest = self.day_high - self.day_high % 2;
        let next = self.day() + 1;
        if next == 512 {
            RtcRegisters {
                seconds: 0,
                minutes: 0,
                hours: 0,
                day_low: 0,
                day_high: (if rest >= 128 {
                    rest
                } else {
                    rest + 128
                }) as u8,
            }
        } else {
            RtcRegisters {
                seconds: 0,
                minutes: 0,
                hours: 0,
                day_low: (next % 256) as u8,
                day_high: (rest + next / 256) as u8,
            }
        }
    }

    /// The registers a second later. A register that was set beyond its range runs over at its
    /// next step, or at 255.
    pub open spec fn next_second(self) -> RtcRegisters {
        let seconds = (self.seconds + 1) % 256;
        let minutes = (self.minutes + 1) % 256;
        let hours = (self.hours + 1) % 256;
        if seconds < 60 {
            RtcRegisters { seconds: seconds as u8, ..self }
        } else if minutes < 60 {
            RtcRegisters { seconds: 0, minutes: minutes as u8, ..self }
        } else if hours < 24 {
            RtcRegisters { seconds: 0, minutes: 0, hours: hours as u8, ..self }
        } else {
            self.next_day()
        }
    }

    /// The registers some seconds later.
    pub open spec fn later(self, seconds: nat) -> RtcRegisters
        decreases seconds,
    {
        if seconds == 0 {
            self
        } else {
            self.next_second().later((seconds - 1) as nat)
        }
    }
}

impl Mbc3Rtc {
    pub open spec fn cleared() -> Mbc3Rtc {
        Mbc3Rtc {
            live: RtcRegisters::cleared(),
            latched: RtcRegisters::cleared(),
            cycle_accumulator: 0,
        }
    }

    /// Room for one more tick of any length.
    pub open spec fn wf(self) -> bool {
        self.cycle_accumulator + u16::MAX <= u64::MAX
    }

    pub open spec fn latched_register(self, select: u8) -> u8 {
        if select == 0x08 {
            self.latched.seconds
        } else if select == 0x09 {
            self.latched.minutes
        } else if select == 0x0A {
            self.latched.hours
        } else if select == 0x0B {
            self.latched.day_low
        } else if select == 0x0C {
            self.latched.day_high
        } else {
            0xFF
        }
    }

    pub open spec fn with_live_register(self, select: u8, value: u8) -> Mbc3Rtc {
        let live = if select == 0x08 {
            RtcRegisters { seconds: value % 60, ..self.live }
        } else if select == 0x09 {
            RtcRegisters { minutes: value % 60, ..self.live }
        } else if select == 0x0A {
            RtcRegisters { hours: value % 24, ..self.live }
        } else if select == 0x0B {
            RtcRegisters { day_low: value, ..self.live }
        } else if select == 0x0C {
            RtcRegisters { day_high: value & 0xC1, ..self.live }
        } else {
            self.live
        };
        Mbc3Rtc { live, ..self }
    }

    pub open spec fn after_latch(self) -> Mbc3Rtc {
        Mbc3Rtc { latched: self.live, ..self }
    }

    /// The clock some cycles later; a halted clock stands still.
    pub open spec fn after_cycles(self, cycles: u16) -> Mbc3Rtc {
        if self.live.halted() {
            self
        } else {
            let total = self.cycle_accumulator + cycles;
            Mbc3Rtc {
                live: self.live.later((total / RTC_CYCLES_PER_SECOND as int) as nat),
                cycle_accumulator: (total % RTC_CYCLES_PER_SECOND as int) as u64,
                ..self
            }
        }
    }

    /// Whether the clock has room to count on.
    pub fn is_sound(&self) -> (sound: bool)
        ensures
            sound == self.wf(),
    {
        self.cycle_accumulator <= u64::MAX - 0xFFFF
    }

    /// The latched register that a map selection shows.
    pub fn latched_value(&self, select: u8) -> (value: u8)
        ensures
            value == self.latched_register(select),
    {
        match select {
            0x08 => self.latched.seconds,
            0x09 => self.latched.minutes,
            0x0A => self.latched.hours,
            0x0B => self.latched.day_low,
            0x0C => self.latched.day_high,
            _ => 0xFF,
        }
    }

    /// Sets the running register that a map selection names, brought into its range.
    pub fn write_live(&mut self, select: u8, value: u8)
        ensures
            *final(self) == old(self).with_live_register(select, value),
    {
        match select {
            0x08 => self.live.seconds = value % 60,
            0x09 => self.live.minutes = value % 60,
            0x0A => self.live.hours = value % 24,
            0x0B => self.live.day_low = value,
            0x0C => self.live.day_high = value & 0xC1,
            _ => {},
        }
    }

    /// Copies the running registers to the ones that are read.
    pub fn latch(&mut self)
        ensures
            *final(self) == old(self).after_latch(),
    {
        self.latched = self.live;
    }

    pub fn halted(&self) -> (halted: bool)
        ensures
            halted == self.live.halted(),
    {
        let day_high: u8 = self.live.day_high;
        assert(day_high & 0x40 != 0 <==> day_high / 64 % 2 == 1) by (bit_vector);
        self.live.day_high & 0x40 != 0
    }

    /// Lets cycles pass.
    pub fn tick(&mut self, cycles: u16)
        requires
            old(self).wf(),
        ensures
            *final(self) == old(self).after_cycles(cycles),
            final(self).wf(),
    {
        if self.halted() {
            return;
        }
        let ghost total = self.cycle_accumulator + cycles;
        let ghost rate = RTC_CYCLES_PER_SECOND as int;
        let ghost start = *self;
        self.cycle_accumulator = self.cycle_accumulator + (cycles as u64);
        while self.cycle_accumulator >= RTC_CYCLES_PER_SECOND
            invariant
                rate == RTC_CYCLES_PER_SECOND,
                self.cycle_accumulator % RTC_CYCLES_PER_SECOND == total % rate,
                self.live.later((self.cycle_accumulator as int / rate) as nat) == start.live.later(
                    (total / rate) as nat,
                ),
                self.latched == start.latched,
            decreases self.cycle_accumulator,
        {
            self.cycle_accumulator = self.cycle_accumulator - RTC_CYCLES_PER_SECOND;
            self.increment_second();
        }
    }

    /// Moves the running registers on by a second.
    pub fn increment_second(&mut self)
        ensures
            *final(self) == (Mbc3Rtc { live: old(self).live.next_second(), ..*old(self) }),
    {
        self.live.seconds = self.live.seconds.wrapping_add(1);
        if self.live.seconds < 60 {
            return;
        }
        self.live.seconds = 0;
        self.live.minutes = self.live.minutes.wrapping_add(1);
        if self.live.minutes < 60 {
            return;
        }
        self.live.minutes = 0;
        self.live.hours = self.live.hours.wrapping_add(1);
        if self.live.hours < 24 {
            return;
        }
        self.live.hours = 0;
        let day_high: u8 = self.live.day_high;
        proof {
            lemma_day_bits(day_high);
        }
        let day: u16 = (self.live.day_low as u16) + ((day_high & 0x01) as u16) * 256;
        let next_day: u16 = day + 1;
        if day == 0x01FF {
            self.live.day_high = (day_high & !0x01u8) | 0x80;
            self.live.day_low = 0;
        } else {
            self.live.day_low = (next_day % 256) as u8;
            self.live.day_high = (day_high & !0x01u8) + ((next_day / 256) as u8);
        }
    }
}

impl Default for Mbc3Rtc {
    fn default() -> (rtc: Self)
        ensures
            rtc == Mbc3Rtc::cleared(),
    {
        let registers: RtcRegisters = RtcRegisters {
            seconds: 0,
            minutes: 0,
            hours: 0,
            day_low: 0,
            day_high: 0,
        };
        Mbc3Rtc { live: registers, latched: registers, cycle_accumulator: 0 }
    }
}

proof fn lemma_day_bits(day_high: u8)
    ensures
        day_high & 0x01 == day_high % 2,
        day_high & !0x01u8 == day_high - day_high % 2,
        (day_high & !0x01u8) | 0x80 == (if day_high >= 128 {
            day_high - day_high % 2
        } else {
            day_high - day_high % 2 + 128
        }),
{
    assert(day_high & 0x01 == day_high % 2 && day_high & !0x01u8 == day_high - day_high % 2 && (
    day_high & !0x01u8) | 0x80 == (if day_high >= 128 {
        day_high - day_high % 2
    } else {
        day_high - day_high % 2 + 128
    })) by (bit_vector);
}

/// A clock that shows a time shows the next second's time, and its count of seconds rises by one,
/// or starts again after 512 days; exactly that records an overflow, and none is ever taken back.
pub proof fn law_clock_counts_seconds(registers: RtcRegisters)
    requires
        registers.is_time(),
    ensures
        registers.next_second().is_time(),
        registers.next_second().total_seconds() == (registers.total_seconds() + 1) % (512 * 86400int),
        registers.next_second().overflowed() == (registers.overflowed()
            || registers.total_seconds() + 1 == 512 * 86400),
        registers.next_second().halted() == registers.halted(),
{
    let next = registers.next_second();
    assert(0 <= registers.day() <= 511);
    assert(0 <= registers.total_seconds() < 512 * 86400);
    if registers.seconds < 59 || registers.minutes < 59 || registers.hours < 23 {
        assert(next.day() == registers.day());
        assert(next.total_seconds() == registers.total_seconds() + 1);
        assert(next.total_seconds() < 512 * 86400);
    } else {
        lemma_day_steps(registers);
    }
}

proof fn lemma_day_steps(registers: RtcRegisters)
    ensures
        registers.next_day().day() == (registers.day() + 1) % 512,
        registers.next_day().overflowed() == (registers.overflowed() || registers.day() == 511),
        registers.next_day().halted() == registers.halted(),
{
    let high = registers.day_high;
    let low = registers.day_low;
    let next = registers.next_day();
    if registers.day() == 511 {
        assert(high % 2 == 1);
        assert(next.day_high / 64 % 2 == high / 64 % 2);
    } else {
        let carry = (registers.day() + 1) / 256;
        assert(0 <= carry <= 1);
        let rest = high - high % 2;
        assert((rest + carry) % 2 == carry);
        assert((rest + carry) / 64 == high / 64);
    }
}

/// Setting a clock register through the cartridge leaves it in its range.
pub proof fn law_written_clock_shows_a_time(rtc: Mbc3Rtc, select: u8, value: u8)
    requires
        rtc.live.is_time(),
    ensures
        rtc.with_live_register(select, value).live.is_time(),
{
}

} // verus!
