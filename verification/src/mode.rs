//! The modes of the oven, what a poll reads, what the panel asks for, and
//! where the panel stands.

use crate::countdown::{Time, MAX_PAIR};
use crate::segments::{is_digits, BLANK, KEY_COUNT};
use crate::sounds::Sound;
use vstd::prelude::*;

verus! {

/// Milliseconds between two polls.
pub const POLL_MS: u32 = 50;

/// Milliseconds for which the end pattern shows, and for which it is dark, in
/// each flash.
pub const FLASH_MS: u32 = 500;

/// Flashes that announce the end of the cooking.
pub const FLASHES: u8 = 5;

/// Whole seconds without a key after which the idle panel goes to sleep.
pub const IDLE_TIMEOUT: u64 = 60;

/// Whole seconds after which keying in, and a pause, are given up.
pub const INPUT_TIMEOUT: u64 = 300;

/// What the oven is doing.
#[derive(Clone, Copy, Debug, PartialEq, Eq, Structural)]
pub enum Mode {
    /// Dark, waiting for a key.
    Idle,
    /// A time is being keyed in.
    UserInput,
    /// Cooking, with this much time left.
    Running { seconds: u8, minutes: u8 },
    /// The time has run out.
    Done,
    /// Cooking interrupted, with this much time left.
    Paused { seconds: u8, minutes: u8 },
    /// Nothing has happened for a minute. Sleep is over as soon as it is
    /// entered: what puts the oven to sleep, and wakes it, is not the
    /// panel's business.
    Sleep,
}

/// What one poll reads.
#[derive(Clone, Copy, Debug, PartialEq, Eq)]
pub struct Inputs {
    /// The timer's count. It never goes back.
    pub ticks: u64,
    /// The key that is down, if one is.
    pub key: Option<u8>,
    /// Whether the start button is down.
    pub start_pressed: bool,
    /// Whether the stop button is down.
    pub stop_pressed: bool,
    /// Whether the door is open.
    pub door_open: bool,
}

/// What the panel asks its owner to do.
#[derive(Clone, Copy, Debug, PartialEq, Eq)]
pub enum Action {
    /// Show these four bytes on the display, from the left.
    Display([u8; 4]),
    /// Start playing a sound, on top of what plays already.
    Play(Sound),
    /// Stop every sound.
    StopAudio,
    /// Wait this many milliseconds.
    DelayMs(u32),
}

/// Where the panel stands: the mode, and what the mode remembers from poll to
/// poll. `since` is the timer's count when the mode was entered.
#[derive(Clone, Copy, Debug, PartialEq, Eq)]
pub enum State {
    /// The mode has been chosen and not yet entered.
    Entering(Mode),
    Idle { since: u64 },
    /// `last_key` is what the poll before read on the key pad, `digits` the
    /// places keyed so far.
    UserInput { since: u64, last_key: Option<u8>, digits: [u8; 4] },
    /// `last_elapsed` is the number of whole seconds since `since` at the
    /// poll before, `left` the time still to cook.
    Running { since: u64, last_elapsed: u64, left: Time },
    Paused { since: u64, left: Time },
}

impl Mode {
    /// The time that a mode carries is one the display can show: neither its
    /// minutes nor its seconds go past 99. Seconds past 59 come about when
    /// they are keyed so.
    pub open spec fn wf(self) -> bool {
        match self {
            Mode::Running { seconds, minutes } => (Time { minutes, seconds }).wf(),
            Mode::Paused { seconds, minutes } => (Time { minutes, seconds }).wf(),
            _ => true,
        }
    }

    /// The time that a mode carries is written as a clock writes it.
    pub open spec fn is_clock(self) -> bool {
        match self {
            Mode::Running { seconds, minutes } => (Time { minutes, seconds }).is_clock(),
            Mode::Paused { seconds, minutes } => (Time { minutes, seconds }).is_clock(),
            _ => true,
        }
    }
}

impl Inputs {
    /// The key, if there is one, is a key of the pad.
    pub open spec fn wf(self) -> bool {
        self.key matches Some(key) ==> key < KEY_COUNT
    }

    /// The readings of one poll, from the levels of the three input lines.
    /// Each button pulls its line low while it is down, and the door switch
    /// pulls its line low while the door is shut.
    pub fn from_levels(
        ticks: u64,
        key: Option<u8>,
        start_high: bool,
        stop_high: bool,
        door_high: bool,
    ) -> (inputs: Inputs)
        ensures
            inputs == (Inputs {
                ticks,
                key,
                start_pressed: !start_high,
                stop_pressed: !stop_high,
                door_open: door_high,
            }),
    {
        Inputs {
            ticks,
            key,
            start_pressed: !start_high,
            stop_pressed: !stop_high,
            door_open: door_high,
        }
    }
}

impl State {
    /// The time that the state carries is one the display can show, and the
    /// places keyed hold digits or blanks.
    pub open spec fn wf(self) -> bool {
        match self {
            State::Entering(mode) => mode.wf(),
            State::Idle { .. } => true,
            State::UserInput { digits, .. } => is_digits(digits),
            State::Running { left, .. } => left.wf(),
            State::Paused { left, .. } => left.wf(),
        }
    }

    /// The mode that the panel is in.
    pub open spec fn spec_mode(self) -> Mode {
        match self {
            State::Entering(mode) => mode,
            State::Idle { .. } => Mode::Idle,
            State::UserInput { .. } => Mode::UserInput,
            State::Running { left, .. } => Mode::Running {
                seconds: left.seconds,
                minutes: left.minutes,
            },
            State::Paused { left, .. } => Mode::Paused {
                seconds: left.seconds,
                minutes: left.minutes,
            },
        }
    }

    /// The mode that the panel is in.
    #[verifier::when_used_as_spec(spec_mode)]
    pub fn mode(self) -> (mode: Mode)
        ensures
            mode == self.spec_mode(),
    {
        match self {
            State::Entering(mode) => mode,
            State::Idle { .. } => Mode::Idle,
            State::UserInput { .. } => Mode::UserInput,
            State::Running { left, .. } => Mode::Running {
                seconds: left.seconds,
                minutes: left.minutes,
            },
            State::Paused { left, .. } => Mode::Paused {
                seconds: left.seconds,
                minutes: left.minutes,
            },
        }
    }

    /// Whether the state is well formed.
    pub fn is_wf(&self) -> (ok: bool)
        ensures
            ok == self.wf(),
    {
        match *self {
            State::Entering(Mode::Running { seconds, minutes }) => minutes <= MAX_PAIR && seconds
                <= MAX_PAIR,
            State::Entering(Mode::Paused { seconds, minutes }) => minutes <= MAX_PAIR && seconds
                <= MAX_PAIR,
            State::Entering(_) => true,
            State::Idle { .. } => true,
            State::UserInput { digits, .. } => {
                let ok = digits[0] <= BLANK && digits[1] <= BLANK && digits[2] <= BLANK && digits[3]
                    <= BLANK;
                assert(ok ==> is_digits(digits));
                ok
            },
            State::Running { left, .. } => left.minutes <= MAX_PAIR && left.seconds <= MAX_PAIR,
            State::Paused { left, .. } => left.minutes <= MAX_PAIR && left.seconds <= MAX_PAIR,
        }
    }
}

} // verus!
