//! The time left to cook, and how it runs down.

use vstd::prelude::*;

verus! {

/// Largest number of minutes, and of seconds, that the display can show.
pub const MAX_PAIR: u8 = 99;

/// Seconds up to which a time is written as a clock writes it.
pub const MAX_CLOCK_SECONDS: u8 = 59;

/// A time in minutes and seconds.
#[derive(Clone, Copy, Debug, PartialEq, Eq, Structural)]
pub struct Time {
    pub minutes: u8,
    pub seconds: u8,
}

impl Time {
    /// The display can show the time: two places are enough for the minutes
    /// and for the seconds.
    pub open spec fn wf(self) -> bool {
        self.minutes <= MAX_PAIR && self.seconds <= MAX_PAIR
    }

    /// The time is written as a clock writes it: the seconds stay under a
    /// minute.
    pub open spec fn is_clock(self) -> bool {
        self.minutes <= MAX_PAIR && self.seconds <= MAX_CLOCK_SECONDS
    }

    /// The whole time in seconds.
    pub open spec fn total_seconds(self) -> int {
        60 * self.minutes + self.seconds
    }

    /// No time at all.
    pub open spec fn spec_is_zero(self) -> bool {
        self.minutes == 0 && self.seconds == 0
    }

    /// The time one second earlier in the countdown: the seconds go down by
    /// one, and from zero they borrow a minute.
    pub open spec fn spec_decrement(self) -> Time {
        if self.seconds == 0 {
            Time { minutes: (self.minutes - 1) as u8, seconds: MAX_CLOCK_SECONDS }
        } else {
            Time { minutes: self.minutes, seconds: (self.seconds - 1) as u8 }
        }
    }

    /// Whether no time is left.
    #[verifier::when_used_as_spec(spec_is_zero)]
    pub fn is_zero(self) -> (zero: bool)
        ensures
            zero == self.spec_is_zero(),
    {
        self.minutes == 0 && self.seconds == 0
    }

    /// Takes one second off. There must be one to take.
    pub fn decrement(self) -> (left: Time)
        requires
            !self.spec_is_zero(),
        ensures
            left == self.spec_decrement(),
            left.total_seconds() == self.total_seconds() - 1,
            left.minutes <= self.minutes,
            self.wf() ==> left.wf(),
            self.is_clock() ==> left.is_clock(),
    {
        if self.seconds == 0 {
            Time { minutes: self.minutes - 1, seconds: MAX_CLOCK_SECONDS }
        } else {
            Time { minutes: self.minutes, seconds: self.seconds - 1 }
        }
    }
}

/// The time after `n` seconds have been taken off, one by one.
pub open spec fn after_seconds(time: Time, n: nat) -> Time
    decreases n,
{
    if n == 0 {
        time
    } else {
        after_seconds(time, (n - 1) as nat).spec_decrement()
    }
}

/// Counting down second by second from any time that the display can show
/// reaches zero after exactly as many seconds as the time holds, and not
/// before.
pub proof fn lemma_countdown_reaches_zero(time: Time, n: nat)
    requires
        time.wf(),
        n <= time.total_seconds(),
    ensures
        after_seconds(time, n).wf(),
        after_seconds(time, n).total_seconds() == time.total_seconds() - n,
        after_seconds(time, n).spec_is_zero() <==> n == time.total_seconds(),
        time.is_clock() ==> after_seconds(time, n).is_clock(),
    decreases n,
{
    if n > 0 {
        lemma_countdown_reaches_zero(time, (n - 1) as nat);
    }
}

} // verus!
