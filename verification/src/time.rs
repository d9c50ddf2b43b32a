//! Time on the Game Boy, counted in ticks of the timer interrupt.
//!
//! The timer interrupt advances the system clock 16 times a second. An
//! `Instant` is a reading of that clock; spans of time are given in
//! milliseconds.

use vstd::prelude::*;

verus! {

/// The input clocks of the hardware timer.
#[derive(Clone, Copy, Debug, PartialEq, Eq, Structural)]
pub enum TimerClock {
    /// 4096 Hz.
    MCycle256,
    /// 262144 Hz.
    MCycle4,
    /// 65536 Hz.
    MCycle16,
    /// 16384 Hz.
    MCycle64,
}

impl TimerClock {
    /// The number that selects the clock in the timer control register.
    pub open spec fn code(self) -> u8 {
        match self {
            TimerClock::MCycle256 => 0x00,
            TimerClock::MCycle4 => 0x01,
            TimerClock::MCycle16 => 0x10,
            TimerClock::MCycle64 => 0x11,
        }
    }

    /// The value of the timer control register that starts the timer on this
    /// clock: the enable bit together with the clock's number.
    pub fn control(self) -> (value: u8)
        ensures
            value == 0x04 | self.code(),
    {
        let code: u8 = match self {
            TimerClock::MCycle256 => 0x00,
            TimerClock::MCycle4 => 0x01,
            TimerClock::MCycle16 => 0x10,
            TimerClock::MCycle64 => 0x11,
        };
        0x04 | code
    }
}

/// A reading of the system clock, in ticks.
#[derive(Clone, Copy, Debug, PartialEq, Eq, Structural)]
pub struct Instant(pub u32);

/// The milliseconds that `ticks` ticks stand for: whole seconds only.
pub open spec fn millis_of(ticks: int) -> int {
    ticks / 16 * 1000
}

/// The ticks that a span of `millis` milliseconds stands for. Only the low
/// 32 bits of the span count, and of those only the whole seconds.
pub open spec fn ticks_of(millis: int) -> int {
    (millis % 0x1_0000_0000) / 1000 * 16
}

impl Instant {
    /// The ticks of the system clock in one second.
    pub const FREQUENCY: u32 = 16;

    /// The milliseconds from `earlier` to this instant, or `None` where
    /// `earlier` is the later of the two.
    pub fn checked_duration_since(&self, earlier: Instant) -> (millis: Option<u64>)
        ensures
            self.0 < earlier.0 ==> millis is None,
            self.0 >= earlier.0 ==> millis == Some(millis_of(self.0 - earlier.0) as u64),
    {
        if self.0 < earlier.0 {
            None
        } else {
            let ticks: u32 = self.0 - earlier.0;
            let seconds: u64 = (ticks / 16) as u64;
            Some(seconds * 1000)
        }
    }

    /// The milliseconds from `earlier` to this instant; `earlier` must not
    /// be the later of the two.
    pub fn duration_since(&self, earlier: Instant) -> (millis: u64)
        requires
            earlier.0 <= self.0,
        ensures
            millis == millis_of(self.0 - earlier.0),
    {
        let ticks: u32 = self.0 - earlier.0;
        let seconds: u64 = (ticks / 16) as u64;
        seconds * 1000
    }

    /// The milliseconds from `earlier` to this instant, or zero where
    /// `earlier` is the later of the two.
    pub fn saturating_duration_since(&self, earlier: Instant) -> (millis: u64)
        ensures
            self.0 < earlier.0 ==> millis == 0,
            self.0 >= earlier.0 ==> millis == millis_of(self.0 - earlier.0),
    {
        match self.checked_duration_since(earlier) {
            Some(millis) => millis,
            None => 0,
        }
    }

    /// The milliseconds from this instant to `now`, which must not be
    /// earlier.
    pub fn elapsed(&self, now: Instant) -> (millis: u64)
        requires
            self.0 <= now.0,
        ensures
            millis == millis_of(now.0 - self.0),
    {
        now.duration_since(*self)
    }

    /// The ticks of a span of `millis` milliseconds.
    pub fn ticks(millis: u64) -> (ticks: u32)
        ensures
            ticks == ticks_of(millis as int),
    {
        let low: u32 = (millis % 0x1_0000_0000) as u32;
        low / 1000 * 16
    }

    /// The instant `millis` milliseconds behind this one, or `None` where
    /// the clock cannot count that far.
    pub fn checked_add(&self, millis: u64) -> (later: Option<Instant>)
        ensures
            self.0 + ticks_of(millis as int) <= u32::MAX ==> later == Some(
                Instant((self.0 + ticks_of(millis as int)) as u32),
            ),
            self.0 + ticks_of(millis as int) > u32::MAX ==> later is None,
    {
        let ticks: u32 = Instant::ticks(millis);
        if ticks > u32::MAX - self.0 {
            None
        } else {
            Some(Instant(self.0 + ticks))
        }
    }

    /// The instant `millis` milliseconds in front of this one, or `None`
    /// where that lies before the start of the clock.
    pub fn checked_sub(&self, millis: u64) -> (earlier: Option<Instant>)
        ensures
            ticks_of(millis as int) <= self.0 ==> earlier == Some(
                Instant((self.0 - ticks_of(millis as int)) as u32),
            ),
            ticks_of(millis as int) > self.0 ==> earlier is None,
    {
        let ticks: u32 = Instant::ticks(millis);
        if ticks > self.0 {
            None
        } else {
            Some(Instant(self.0 - ticks))
        }
    }
}

/// The instant until which a sleep of `millis` milliseconds that starts at
/// `now` lasts, or `None` where the clock cannot count that far.
pub fn sleep(now: Instant, millis: u64) -> (deadline: Option<Instant>)
    ensures
        now.0 + ticks_of(millis as int) <= u32::MAX ==> deadline == Some(
            Instant((now.0 + ticks_of(millis as int)) as u32),
        ),
        now.0 + ticks_of(millis as int) > u32::MAX ==> deadline is None,
{
    now.checked_add(millis)
}

/// The instant until which a sleep of `ms` milliseconds that starts at `now`
/// lasts, or `None` where the clock cannot count that far.
pub fn sleep_ms(now: Instant, ms: u32) -> (deadline: Option<Instant>)
    ensures
        now.0 + ticks_of(ms as int) <= u32::MAX ==> deadline == Some(
            Instant((now.0 + ticks_of(ms as int)) as u32),
        ),
        now.0 + ticks_of(ms as int) > u32::MAX ==> deadline is None,
{
    sleep(now, ms as u64)
}

/// Tells whether a sleep until `deadline` goes on at the instant `now`: it
/// does as long as a whole second or more lies between `deadline` and `now`.
pub fn sleep_until(deadline: Instant, now: Instant) -> (goes_on: bool)
    ensures
        goes_on == (now.0 >= deadline.0 && millis_of(now.0 - deadline.0) != 0),
{
    now.saturating_duration_since(deadline) != 0
}

} // verus!
