//! The steps of the panel, as rules: from where the panel stands and what a
//! poll reads to where it stands next and what is to be done.
//!
//! The first step in a mode enters it. Every later one is one poll, and the
//! rules of a poll are tried in the order in which they are written here.

use crate::countdown::Time;
use crate::mode::{
    Action, Inputs, Mode, State, FLASHES, FLASH_MS, IDLE_TIMEOUT, INPUT_TIMEOUT, POLL_MS,
};
use crate::segments::{
    spec_blank_leading_zeros, spec_compose_time, spec_key_digit, spec_push_digit, spec_render,
    spec_time_digits, BLANK,
};
use crate::sounds::{Cue, Sound};
use vstd::prelude::*;

verus! {

/// Whole seconds that have passed between two counts of a timer that makes
/// `tick_hz` ticks in a second.
pub open spec fn elapsed_seconds(since: u64, now: u64, tick_hz: u64) -> int {
    (now - since) / (tick_hz as int)
}

/// The display with every segment dark.
pub open spec fn blank_display() -> [u8; 4] {
    [0u8, 0u8, 0u8, 0u8]
}

/// The pattern that flashes when the cooking is done.
pub open spec fn end_display() -> [u8; 4] {
    [0x7Fu8, 0x79u8, 0x79u8, 0x73u8]
}

/// How the time left is shown: minutes, separator, seconds, without leading
/// zeros.
pub open spec fn countdown_display(left: Time) -> [u8; 4] {
    spec_render(spec_blank_leading_zeros(spec_time_digits(left)))
}

/// One flash of the end pattern: a beep, the pattern for `FLASH_MS`, then
/// darkness for as long.
pub open spec fn flash() -> Seq<Action> {
    seq![
        Action::Play(Sound { cue: Cue::Beep, looping: false }),
        Action::Display(end_display()),
        Action::DelayMs(FLASH_MS),
        Action::Display(blank_display()),
        Action::DelayMs(FLASH_MS),
    ]
}

/// `count` flashes, one after the other.
pub open spec fn flashes(count: nat) -> Seq<Action>
    decreases count,
{
    if count == 0 {
        Seq::empty()
    } else {
        flashes((count - 1) as nat) + flash()
    }
}

/// The short tone.
pub open spec fn beep() -> Action {
    Action::Play(Sound { cue: Cue::Beep, looping: false })
}

/// Entering a mode. `now` is the timer's count.
pub open spec fn enter_step(mode: Mode, now: u64) -> (State, Seq<Action>) {
    match mode {
        Mode::Idle => (State::Idle { since: now }, seq![Action::Display(blank_display())]),
        Mode::UserInput => (
            State::UserInput { since: now, last_key: None, digits: [BLANK, BLANK, BLANK, BLANK] },
            seq![Action::Display(blank_display())],
        ),
        Mode::Running { seconds, minutes } => (
            State::Running { since: now, last_elapsed: 0, left: Time { minutes, seconds } },
            seq![Action::Play(Sound { cue: Cue::Running, looping: true })],
        ),
        Mode::Done => (State::Entering(Mode::Idle), flashes(FLASHES as nat)),
        Mode::Paused { seconds, minutes } => (
            State::Paused { since: now, left: Time { minutes, seconds } },
            Seq::empty(),
        ),
        Mode::Sleep => (State::Entering(Mode::Idle), Seq::empty()),
    }
}

/// One poll while idle. A key wakes the panel; without one it goes to sleep
/// once more than `IDLE_TIMEOUT` whole seconds have passed.
pub open spec fn idle_step(since: u64, inputs: Inputs, tick_hz: u64) -> (State, Seq<Action>) {
    if inputs.key is Some {
        (State::Entering(Mode::UserInput), Seq::empty())
    } else if elapsed_seconds(since, inputs.ticks, tick_hz) > IDLE_TIMEOUT {
        (State::Entering(Mode::Sleep), Seq::empty())
    } else {
        (State::Idle { since }, seq![Action::DelayMs(POLL_MS)])
    }
}

/// Whether a poll takes what the key pad reads as a new key stroke: a key is
/// down, and the poll before did not read the same.
pub open spec fn is_stroke(last_key: Option<u8>, key: Option<u8>) -> bool {
    key is Some && key != last_key
}

/// The places after a poll: a key stroke adds its digit.
pub open spec fn keyed_digits(last_key: Option<u8>, digits: [u8; 4], key: Option<u8>) -> [u8; 4] {
    if is_stroke(last_key, key) {
        spec_push_digit(digits, spec_key_digit(key->0))
    } else {
        digits
    }
}

/// What a poll does about the key pad: a key stroke is shown and answered
/// with a beep.
pub open spec fn keyed_actions(last_key: Option<u8>, digits: [u8; 4], key: Option<u8>) -> Seq<
    Action,
> {
    if is_stroke(last_key, key) {
        seq![Action::Display(spec_render(keyed_digits(last_key, digits, key))), beep()]
    } else {
        Seq::empty()
    }
}

/// One poll while a time is keyed in. The key pad comes first. Then the
/// start button, which counts only with the door shut, starts the cooking
/// with the time keyed so far; else the stop button, or more than
/// `INPUT_TIMEOUT` whole seconds in this mode, lead back to idle.
pub open spec fn user_input_step(
    since: u64,
    last_key: Option<u8>,
    digits: [u8; 4],
    inputs: Inputs,
    tick_hz: u64,
) -> (State, Seq<Action>) {
    let keyed = keyed_digits(last_key, digits, inputs.key);
    let shown = keyed_actions(last_key, digits, inputs.key);
    if inputs.start_pressed && !inputs.door_open {
        let time = spec_compose_time(keyed);
        (
            State::Entering(Mode::Running { seconds: time.seconds, minutes: time.minutes }),
            shown.push(Action::Play(Sound { cue: Cue::Start, looping: false })),
        )
    } else if inputs.stop_pressed {
        (State::Entering(Mode::Idle), shown.push(beep()))
    } else if elapsed_seconds(since, inputs.ticks, tick_hz) > INPUT_TIMEOUT {
        (State::Entering(Mode::Idle), shown.push(beep()))
    } else {
        (
            State::UserInput { since, last_key: inputs.key, digits: keyed },
            shown.push(Action::DelayMs(POLL_MS)),
        )
    }
}

/// Whether a poll while cooking finds that the count of whole seconds has
/// changed since the poll before.
pub open spec fn has_ticked(since: u64, last_elapsed: u64, inputs: Inputs, tick_hz: u64) -> bool {
    elapsed_seconds(since, inputs.ticks, tick_hz) != last_elapsed
}

/// The time left after a poll while cooking: one second less if the count of
/// whole seconds has changed, however far.
pub open spec fn time_left(
    since: u64,
    last_elapsed: u64,
    left: Time,
    inputs: Inputs,
    tick_hz: u64,
) -> Time {
    if has_ticked(since, last_elapsed, inputs, tick_hz) {
        left.spec_decrement()
    } else {
        left
    }
}

/// One poll while cooking. A new second comes first: it takes a second off
/// the time, and either that was the last one, or the new time is shown.
/// Then an open door pauses, with the time as it now is; else the stop
/// button leads back to idle.
pub open spec fn running_step(
    since: u64,
    last_elapsed: u64,
    left: Time,
    inputs: Inputs,
    tick_hz: u64,
) -> (State, Seq<Action>) {
    let ticked = has_ticked(since, last_elapsed, inputs, tick_hz);
    let now_left = time_left(since, last_elapsed, left, inputs, tick_hz);
    let shown = if ticked {
        seq![Action::Display(countdown_display(now_left))]
    } else {
        Seq::empty()
    };
    if ticked && now_left.spec_is_zero() {
        (State::Entering(Mode::Done), seq![Action::StopAudio])
    } else if inputs.door_open {
        (
            State::Entering(Mode::Paused { seconds: now_left.seconds, minutes: now_left.minutes }),
            shown.push(Action::StopAudio),
        )
    } else if inputs.stop_pressed {
        (State::Entering(Mode::Idle), shown.push(Action::StopAudio).push(beep()))
    } else {
        (
            State::Running {
                since,
                last_elapsed: elapsed_seconds(since, inputs.ticks, tick_hz) as u64,
                left: now_left,
            },
            shown.push(Action::DelayMs(POLL_MS)),
        )
    }
}

/// One poll while paused. The start button, which counts only with the door
/// shut, takes the cooking up again with the time that was left; else the
/// stop button, or more than `INPUT_TIMEOUT` whole seconds in this mode, lead
/// back to idle.
pub open spec fn paused_step(since: u64, left: Time, inputs: Inputs, tick_hz: u64) -> (
    State,
    Seq<Action>,
) {
    if inputs.start_pressed && !inputs.door_open {
        (
            State::Entering(Mode::Running { seconds: left.seconds, minutes: left.minutes }),
            seq![beep()],
        )
    } else if inputs.stop_pressed {
        (State::Entering(Mode::Idle), seq![beep()])
    } else if elapsed_seconds(since, inputs.ticks, tick_hz) > INPUT_TIMEOUT {
        (State::Entering(Mode::Idle), seq![beep()])
    } else {
        (State::Paused { since, left }, seq![Action::DelayMs(POLL_MS)])
    }
}

/// One step of the panel: where it stands afterwards, and what is to be done.
pub open spec fn step(state: State, inputs: Inputs, tick_hz: u64) -> (State, Seq<Action>) {
    match state {
        State::Entering(mode) => enter_step(mode, inputs.ticks),
        State::Idle { since } => idle_step(since, inputs, tick_hz),
        State::UserInput { since, last_key, digits } => user_input_step(
            since,
            last_key,
            digits,
            inputs,
            tick_hz,
        ),
        State::Running { since, last_elapsed, left } => running_step(
            since,
            last_elapsed,
            left,
            inputs,
            tick_hz,
        ),
        State::Paused { since, left } => paused_step(since, left, inputs, tick_hz),
    }
}

/// The timer's count when the mode was entered, where it has been.
pub open spec fn entered_at(state: State) -> Option<u64> {
    match state {
        State::Entering(_) => None,
        State::Idle { since } => Some(since),
        State::UserInput { since, .. } => Some(since),
        State::Running { since, .. } => Some(since),
        State::Paused { since, .. } => Some(since),
    }
}

/// What a step asks of the readings: the key is one of the pad, the timer has
/// not gone back since the mode was entered, and a second that has passed
/// while cooking can be taken off the time left.
pub open spec fn accepts(state: State, inputs: Inputs, tick_hz: u64) -> bool {
    &&& inputs.wf()
    &&& entered_at(state) matches Some(since) ==> since <= inputs.ticks
    &&& state matches State::Running { since, last_elapsed, left } ==> !(left.spec_is_zero()
        && has_ticked(since, last_elapsed, inputs, tick_hz))
}

} // verus!
