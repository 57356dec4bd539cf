//! What holds of the panel over its steps.

use crate::countdown::{after_seconds, lemma_countdown_reaches_zero, Time};
use crate::mode::{
    Action, Inputs, Mode, State, FLASHES, FLASH_MS, IDLE_TIMEOUT, INPUT_TIMEOUT, POLL_MS,
};
use crate::segments::{
    is_digits, spec_compose_time, spec_push_digit, spec_render, BLANK, KEY_COUNT,
};
use crate::sounds::{Cue, Sound};
use crate::step::{
    accepts, beep, blank_display, countdown_display, end_display, enter_step, entered_at, flash,
    flashes, has_ticked, idle_step, is_stroke, keyed_actions, keyed_digits, paused_step,
    running_step, step, time_left,
};
use vstd::prelude::*;

verus! {

/// Where the panel stands after a run of steps, one for each reading.
pub open spec fn after_steps(state: State, readings: Seq<Inputs>, tick_hz: u64) -> State
    decreases readings.len(),
{
    if readings.len() == 0 {
        state
    } else {
        step(after_steps(state, readings.drop_last(), tick_hz), readings.last(), tick_hz).0
    }
}

/// Whether a step starts the cooking with seconds that no clock shows: the
/// start button is taken while the third place keyed holds six or more.
pub open spec fn starts_off_clock(state: State, inputs: Inputs) -> bool {
    &&& state matches State::UserInput { last_key, digits, .. }
    &&& inputs.start_pressed && !inputs.door_open
    &&& !spec_compose_time(keyed_digits(last_key, digits, inputs.key)).is_clock()
}

/// A step leaves a well-formed state well formed: the time that a mode
/// carries never exceeds what the display can show.
pub proof fn lemma_step_keeps_wf(state: State, inputs: Inputs, tick_hz: u64)
    requires
        tick_hz > 0,
        state.wf(),
        accepts(state, inputs, tick_hz),
    ensures
        step(state, inputs, tick_hz).0.wf(),
{
    match state {
        State::UserInput { since, last_key, digits } => {
            lemma_keyed_digits(last_key, digits, inputs.key);
        },
        _ => {},
    }
}

/// What a poll makes of the key pad is again four places, and the time they
/// stand for is one the display can show.
pub proof fn lemma_keyed_digits(last_key: Option<u8>, digits: [u8; 4], key: Option<u8>)
    requires
        is_digits(digits),
        key matches Some(k) ==> k < KEY_COUNT,
    ensures
        is_digits(keyed_digits(last_key, digits, key)),
        spec_compose_time(keyed_digits(last_key, digits, key)).wf(),
{
    let keyed = keyed_digits(last_key, digits, key);
    assert(is_digits(keyed)) by {
        assert forall|i: int| 0 <= i < 4 implies #[trigger] keyed[i] <= BLANK by {
            assert(digits[i] <= BLANK);
        }
    }
    assert(keyed[0] <= BLANK && keyed[1] <= BLANK && keyed[2] <= BLANK && keyed[3] <= BLANK);
}

/// The time on the panel stays on the clock. If the time that the mode
/// carries has its seconds under a minute, so has the time after a step,
/// unless that step starts the cooking with seconds keyed past the clock.
pub proof fn lemma_step_keeps_clock(state: State, inputs: Inputs, tick_hz: u64)
    requires
        tick_hz > 0,
        state.wf(),
        accepts(state, inputs, tick_hz),
        state.spec_mode().is_clock(),
        !starts_off_clock(state, inputs),
    ensures
        step(state, inputs, tick_hz).0.wf(),
        step(state, inputs, tick_hz).0.spec_mode().is_clock(),
{
    lemma_step_keeps_wf(state, inputs, tick_hz);
}

/// From the first step on, through every mode: as long as no step starts
/// the cooking with seconds keyed past the clock, every time that the panel
/// carries while cooking or paused has at most 59 seconds and at most 99
/// minutes.
pub proof fn lemma_clock_invariant(state: State, readings: Seq<Inputs>, tick_hz: u64)
    requires
        tick_hz > 0,
        state.wf(),
        state.spec_mode().is_clock(),
        forall|i: int|
            0 <= i < readings.len() ==> {
                let before = #[trigger] after_steps(state, readings.take(i), tick_hz);
                accepts(before, readings[i], tick_hz) && !starts_off_clock(before, readings[i])
            },
    ensures
        after_steps(state, readings, tick_hz).wf(),
        after_steps(state, readings, tick_hz).spec_mode().is_clock(),
    decreases readings.len(),
{
    if readings.len() > 0 {
        let earlier = readings.drop_last();
        assert forall|i: int| 0 <= i < earlier.len() implies {
            let before = #[trigger] after_steps(state, earlier.take(i), tick_hz);
            accepts(before, earlier[i], tick_hz) && !starts_off_clock(before, earlier[i])
        } by {
            assert(earlier.take(i) =~= readings.take(i));
            assert(earlier[i] == readings[i]);
        }
        lemma_clock_invariant(state, earlier, tick_hz);
        assert(readings.take(readings.len() - 1) =~= earlier);
        let before = after_steps(state, readings.take(readings.len() - 1), tick_hz);
        lemma_step_keeps_clock(before, readings.last(), tick_hz);
    }
}

/// Whether a reading leaves the cooking alone while a second passes: at a
/// state that is cooking, a new second has come, the door is shut and the
/// stop button is up.
pub open spec fn is_quiet_second(state: State, inputs: Inputs, tick_hz: u64) -> bool {
    state matches State::Running { since, last_elapsed, .. } ==> {
        &&& has_ticked(since, last_elapsed, inputs, tick_hz)
        &&& !inputs.door_open
        &&& !inputs.stop_pressed
    }
}

/// Left alone, the cooking ends on time. From a state that is cooking with
/// `n` seconds left, `n` being at least one, polls that each find a new
/// second, the door shut and the stop button up lead through states that are
/// cooking with one second less each, and the `n`-th of them ends the
/// cooking.
pub proof fn lemma_cooking_ends_on_time(state: State, readings: Seq<Inputs>, tick_hz: u64)
    requires
        state is Running,
        state.wf(),
        state->Running_left.total_seconds() > 0,
        readings.len() <= state->Running_left.total_seconds(),
        forall|i: int|
            0 <= i < readings.len() ==> is_quiet_second(
                #[trigger] after_steps(state, readings.take(i), tick_hz),
                readings[i],
                tick_hz,
            ),
    ensures
        readings.len() < state->Running_left.total_seconds() ==> {
            let now = after_steps(state, readings, tick_hz);
            &&& now is Running
            &&& now->Running_since == state->Running_since
            &&& now->Running_left == after_seconds(state->Running_left, readings.len())
            &&& now->Running_left.total_seconds() == state->Running_left.total_seconds()
                - readings.len()
        },
        readings.len() == state->Running_left.total_seconds() ==> after_steps(
            state,
            readings,
            tick_hz,
        ) == State::Entering(Mode::Done),
    decreases readings.len(),
{
    let left = state->Running_left;
    if readings.len() > 0 {
        let earlier = readings.drop_last();
        assert forall|i: int| 0 <= i < earlier.len() implies is_quiet_second(
            #[trigger] after_steps(state, earlier.take(i), tick_hz),
            earlier[i],
            tick_hz,
        ) by {
            assert(earlier.take(i) =~= readings.take(i));
            assert(earlier[i] == readings[i]);
        }
        lemma_cooking_ends_on_time(state, earlier, tick_hz);
        lemma_countdown_reaches_zero(left, earlier.len());
        lemma_countdown_reaches_zero(left, readings.len());
        assert(readings.take(readings.len() - 1) =~= earlier);
        let before = after_steps(state, earlier, tick_hz);
        assert(is_quiet_second(before, readings[readings.len() - 1], tick_hz));
        assert(after_seconds(left, readings.len()) == after_seconds(
            left,
            earlier.len(),
        ).spec_decrement());
    }
}

/// Whether a sound that repeats is on once these actions are carried out,
/// given whether one was on before: playing a sound that repeats turns it
/// on, and only stopping all sound turns it off.
pub open spec fn loops_after(looping: bool, actions: Seq<Action>) -> bool
    decreases actions.len(),
{
    if actions.len() == 0 {
        looping
    } else {
        let earlier = loops_after(looping, actions.drop_last());
        match actions.last() {
            Action::Play(sound) => earlier || sound.looping,
            Action::StopAudio => false,
            _ => earlier,
        }
    }
}

/// Whether a sound that repeats is on after a run of steps whose actions
/// have all been carried out.
pub open spec fn loops_after_steps(
    state: State,
    looping: bool,
    readings: Seq<Inputs>,
    tick_hz: u64,
) -> bool
    decreases readings.len(),
{
    if readings.len() == 0 {
        looping
    } else {
        loops_after(
            loops_after_steps(state, looping, readings.drop_last(), tick_hz),
            step(after_steps(state, readings.drop_last(), tick_hz), readings.last(), tick_hz).1,
        )
    }
}

/// Carrying out one more action.
proof fn lemma_loops_after_push(looping: bool, actions: Seq<Action>, action: Action)
    ensures
        loops_after(looping, actions.push(action)) == match action {
            Action::Play(sound) => loops_after(looping, actions) || sound.looping,
            Action::StopAudio => false,
            _ => loops_after(looping, actions),
        },
{
    assert(actions.push(action).drop_last() =~= actions);
}

/// Carrying out one run of actions after another.
proof fn lemma_loops_after_concat(looping: bool, first: Seq<Action>, second: Seq<Action>)
    ensures
        loops_after(looping, first + second) == loops_after(loops_after(looping, first), second),
    decreases second.len(),
{
    if second.len() == 0 {
        assert(first + second =~= first);
    } else {
        assert((first + second).drop_last() =~= first + second.drop_last());
        lemma_loops_after_concat(looping, first, second.drop_last());
    }
}

/// Flashes turn no repeating sound on or off.
proof fn lemma_flashes_keep_loops(looping: bool, count: nat)
    ensures
        loops_after(looping, flashes(count)) == looping,
    decreases count,
{
    if count > 0 {
        let earlier = flashes((count - 1) as nat);
        lemma_flashes_keep_loops(looping, (count - 1) as nat);
        lemma_loops_after_concat(looping, earlier, flash());
        let none = Seq::<Action>::empty();
        let a = Action::Play(Sound { cue: Cue::Beep, looping: false });
        let b = Action::Display(end_display());
        let c = Action::DelayMs(FLASH_MS);
        let d = Action::Display(blank_display());
        lemma_loops_after_push(looping, none, a);
        lemma_loops_after_push(looping, none.push(a), b);
        lemma_loops_after_push(looping, none.push(a).push(b), c);
        lemma_loops_after_push(looping, none.push(a).push(b).push(c), d);
        lemma_loops_after_push(looping, none.push(a).push(b).push(c).push(d), c);
        assert(flash() =~= none.push(a).push(b).push(c).push(d).push(c));
    }
}

/// The hum is on exactly while the panel cooks, step by step. If a sound
/// that repeats is on exactly when the panel stands in the cooking, the same
/// holds once the actions of the next step are carried out.
pub proof fn lemma_step_keeps_hum_to_cooking(
    state: State,
    looping: bool,
    inputs: Inputs,
    tick_hz: u64,
)
    requires
        looping <==> state is Running,
    ensures
        loops_after(looping, step(state, inputs, tick_hz).1) <==> step(state, inputs, tick_hz).0
            is Running,
{
    let none = Seq::<Action>::empty();
    let stop = Action::StopAudio;
    let wait = Action::DelayMs(POLL_MS);
    match state {
        State::Entering(mode) => {
            match mode {
                Mode::Done => {
                    lemma_flashes_keep_loops(looping, FLASHES as nat);
                },
                Mode::Running { .. } => {
                    lemma_loops_after_push(
                        looping,
                        none,
                        Action::Play(Sound { cue: Cue::Running, looping: true }),
                    );
                },
                _ => {
                    lemma_loops_after_push(looping, none, Action::Display(blank_display()));
                },
            }
        },
        State::Idle { .. } => {
            lemma_loops_after_push(looping, none, wait);
        },
        State::UserInput { last_key, digits, .. } => {
            let shown = keyed_actions(last_key, digits, inputs.key);
            if is_stroke(last_key, inputs.key) {
                let display = Action::Display(
                    spec_render(keyed_digits(last_key, digits, inputs.key)),
                );
                lemma_loops_after_push(looping, none, display);
                lemma_loops_after_push(looping, none.push(display), beep());
                assert(shown =~= none.push(display).push(beep()));
            } else {
                assert(shown =~= none);
            }
            assert(!loops_after(looping, shown));
            lemma_loops_after_push(
                looping,
                shown,
                Action::Play(Sound { cue: Cue::Start, looping: false }),
            );
            lemma_loops_after_push(looping, shown, beep());
            lemma_loops_after_push(looping, shown, wait);
        },
        State::Running { since, last_elapsed, left } => {
            let shown = if has_ticked(since, last_elapsed, inputs, tick_hz) {
                seq![
                    Action::Display(
                        countdown_display(time_left(since, last_elapsed, left, inputs, tick_hz)),
                    ),
                ]
            } else {
                none
            };
            if has_ticked(since, last_elapsed, inputs, tick_hz) {
                let display = Action::Display(
                    countdown_display(time_left(since, last_elapsed, left, inputs, tick_hz)),
                );
                lemma_loops_after_push(looping, none, display);
                assert(shown =~= none.push(display));
            }
            assert(loops_after(looping, shown));
            lemma_loops_after_push(looping, none, stop);
            lemma_loops_after_push(looping, shown, stop);
            lemma_loops_after_push(looping, shown.push(stop), beep());
            lemma_loops_after_push(looping, shown, wait);
        },
        State::Paused { .. } => {
            lemma_loops_after_push(looping, none, beep());
            lemma_loops_after_push(looping, none, wait);
        },
    }
}

/// The hum is on exactly while the panel cooks. From power-on, or from any
/// state at which a sound that repeats is on exactly if the panel stands in
/// the cooking: after any run of steps, each carried out in full, a sound
/// that repeats is on exactly if the panel stands in the cooking. So the
/// hum never outlasts the cooking, and nothing cooks in silence.
pub proof fn lemma_hum_only_while_cooking(
    state: State,
    looping: bool,
    readings: Seq<Inputs>,
    tick_hz: u64,
)
    requires
        looping <==> state is Running,
    ensures
        loops_after_steps(state, looping, readings, tick_hz) <==> after_steps(
            state,
            readings,
            tick_hz,
        ) is Running,
    decreases readings.len(),
{
    if readings.len() > 0 {
        let earlier = readings.drop_last();
        lemma_hum_only_while_cooking(state, looping, earlier, tick_hz);
        lemma_step_keeps_hum_to_cooking(
            after_steps(state, earlier, tick_hz),
            loops_after_steps(state, looping, earlier, tick_hz),
            readings.last(),
            tick_hz,
        );
    }
}

/// Whether two states are polls of the same stay in the same mode.
pub open spec fn is_same_stay(before: State, after: State) -> bool {
    &&& entered_at(before) is Some
    &&& entered_at(after) == entered_at(before)
    &&& before is Idle <==> after is Idle
    &&& before is UserInput <==> after is UserInput
    &&& before is Running <==> after is Running
    &&& before is Paused <==> after is Paused
}

/// The pace of the polls. A poll either stays in its mode, and then ends
/// with a wait of `POLL_MS`; or it leaves its mode, and then waits for
/// nothing, so that the next mode is entered at once.
pub proof fn lemma_polls_are_paced(state: State, inputs: Inputs, tick_hz: u64)
    requires
        !(state is Entering),
    ensures
        ({
            let (next, actions) = step(state, inputs, tick_hz);
            if next is Entering {
                forall|i: int| 0 <= i < actions.len() ==> !(#[trigger] actions[i] is DelayMs)
            } else {
                &&& is_same_stay(state, next)
                &&& actions.len() > 0
                &&& actions.last() == Action::DelayMs(POLL_MS)
            }
        }),
{
}

/// The last second. When a poll while cooking finds a new second, and that
/// second was the last of the time, the cooking is done and the sound stops,
/// whatever the door and the buttons read.
pub proof fn lemma_last_second_ends(
    since: u64,
    last_elapsed: u64,
    left: Time,
    inputs: Inputs,
    tick_hz: u64,
)
    requires
        left.total_seconds() == 1,
        has_ticked(since, last_elapsed, inputs, tick_hz),
    ensures
        left.spec_decrement() == (Time { minutes: 0, seconds: 0 }),
        running_step(since, last_elapsed, left, inputs, tick_hz) == (
            State::Entering(Mode::Done),
            seq![Action::StopAudio],
        ),
{
}

/// An open door keeps the time. A poll while cooking that finds the door
/// open pauses with the time as it is after that poll: the very time that
/// was left if no new second has come, one second less if one has and it
/// was not the last. Entering the pause keeps that time, and so does every
/// poll of the pause.
pub proof fn lemma_open_door_keeps_time(
    since: u64,
    last_elapsed: u64,
    left: Time,
    inputs: Inputs,
    tick_hz: u64,
)
    requires
        inputs.door_open,
    ensures
        !has_ticked(since, last_elapsed, inputs, tick_hz) ==> running_step(
            since,
            last_elapsed,
            left,
            inputs,
            tick_hz,
        ) == (
            State::Entering(Mode::Paused { seconds: left.seconds, minutes: left.minutes }),
            seq![Action::StopAudio],
        ),
        has_ticked(since, last_elapsed, inputs, tick_hz) && !left.spec_decrement().spec_is_zero()
            ==> running_step(since, last_elapsed, left, inputs, tick_hz).0 == State::Entering(
            Mode::Paused {
                seconds: left.spec_decrement().seconds,
                minutes: left.spec_decrement().minutes,
            },
        ),
        forall|now: u64|
            (#[trigger] enter_step(
                Mode::Paused { seconds: left.seconds, minutes: left.minutes },
                now,
            )).0 == (State::Paused { since: now, left }),
        forall|start: u64, later: Inputs|
            (#[trigger] paused_step(start, left, later, tick_hz)).0.spec_mode() is Paused
                ==> paused_step(start, left, later, tick_hz).0 == (State::Paused {
                since: start,
                left,
            }),
{
    assert(Seq::<Action>::empty().push(Action::StopAudio) =~= seq![Action::StopAudio]);
}

/// Four key strokes fill the four places from the left, and the start
/// button then starts the cooking with the first two as minutes and the last
/// two as seconds. A fifth stroke would push the first digit out.
pub proof fn lemma_four_strokes(d1: u8, d2: u8, d3: u8, d4: u8, d5: u8)
    requires
        d1 <= 9,
        d2 <= 9,
        d3 <= 9,
        d4 <= 9,
        d5 <= 9,
    ensures
        ({
            let none = [BLANK, BLANK, BLANK, BLANK];
            let four = spec_push_digit(
                spec_push_digit(spec_push_digit(spec_push_digit(none, d1), d2), d3),
                d4,
            );
            &&& four == [d1, d2, d3, d4]
            &&& spec_compose_time(four) == (Time {
                minutes: (10 * d1 + d2) as u8,
                seconds: (10 * d3 + d4) as u8,
            })
            &&& spec_push_digit(four, d5) == [d2, d3, d4, d5]
        }),
{
    let none = [BLANK, BLANK, BLANK, BLANK];
    let one = spec_push_digit(none, d1);
    assert(one =~= [d1, BLANK, BLANK, BLANK]);
    let two = spec_push_digit(one, d2);
    assert(two =~= [d1, d2, BLANK, BLANK]);
    let three = spec_push_digit(two, d3);
    assert(three =~= [d1, d2, d3, BLANK]);
    let four = spec_push_digit(three, d4);
    assert(four =~= [d1, d2, d3, d4]);
    assert(spec_push_digit(four, d5) =~= [d2, d3, d4, d5]);
}

/// The idle panel and the clock. With no key down, a poll sends the panel to
/// sleep if at least `IDLE_TIMEOUT + 1` seconds' worth of ticks have passed
/// since it became idle, and leaves it idle if fewer have.
pub proof fn lemma_idle_timeout(since: u64, inputs: Inputs, tick_hz: u64)
    requires
        tick_hz > 0,
        since <= inputs.ticks,
        inputs.key is None,
    ensures
        inputs.ticks - since >= (IDLE_TIMEOUT + 1) * tick_hz ==> idle_step(since, inputs, tick_hz)
            == (State::Entering(Mode::Sleep), Seq::<Action>::empty()),
        inputs.ticks - since < (IDLE_TIMEOUT + 1) * tick_hz ==> idle_step(since, inputs, tick_hz)
            == (State::Idle { since }, seq![Action::DelayMs(POLL_MS)]),
{
    lemma_whole_seconds(inputs.ticks - since, tick_hz as int, IDLE_TIMEOUT as int);
}

/// More than `limit` whole seconds have passed exactly when the ticks of
/// `limit + 1` seconds have.
pub proof fn lemma_whole_seconds(ticks: int, tick_hz: int, limit: int)
    requires
        ticks >= 0,
        tick_hz > 0,
        limit >= 0,
    ensures
        ticks / tick_hz > limit <==> ticks >= (limit + 1) * tick_hz,
{
    assert(ticks / tick_hz > limit <==> ticks >= (limit + 1) * tick_hz) by (nonlinear_arith)
        requires
            ticks >= 0,
            tick_hz > 0,
            limit >= 0,
    ;
}

/// Keying in and pausing are given up in time. With the start and stop
/// buttons up, a poll in either mode leads back to idle, with a beep, if at
/// least `INPUT_TIMEOUT + 1` seconds' worth of ticks have passed since the
/// mode was entered, and stays in the mode if fewer have.
pub proof fn lemma_input_timeout(state: State, inputs: Inputs, tick_hz: u64)
    requires
        tick_hz > 0,
        state is UserInput || state is Paused,
        accepts(state, inputs, tick_hz),
        !inputs.start_pressed,
        !inputs.stop_pressed,
    ensures
        inputs.ticks - entered_at(state)->0 >= (INPUT_TIMEOUT + 1) * tick_hz ==> step(
            state,
            inputs,
            tick_hz,
        ).0 == State::Entering(Mode::Idle) && step(state, inputs, tick_hz).1.last() == beep(),
        inputs.ticks - entered_at(state)->0 < (INPUT_TIMEOUT + 1) * tick_hz ==> step(
            state,
            inputs,
            tick_hz,
        ).0.spec_mode() == state.spec_mode(),
{
    lemma_whole_seconds(inputs.ticks - entered_at(state)->0, tick_hz as int, INPUT_TIMEOUT as int);
}

/// The end of the cooking is five flashes and nothing else: five times a
/// beep, the end pattern for half a second and darkness for half a second.
pub proof fn lemma_done_flashes()
    ensures
        enter_step(Mode::Done, 0).0 == State::Entering(Mode::Idle),
        enter_step(Mode::Done, 0).1 == flash() + flash() + flash() + flash() + flash(),
        enter_step(Mode::Done, 0).1.len() == 25,
{
    reveal_with_fuel(flashes, 6);
    assert(flashes(5) =~= flash() + flash() + flash() + flash() + flash());
}

} // verus!
