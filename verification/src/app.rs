//! The panel as its owner drives it.
//!
//! `App` holds where the panel stands. Its owner reads the timer, the key
//! pad, the two buttons and the door, hands the readings to `run`, and
//! carries out the actions that `run` hands back, in their order, before it
//! reads again.

use crate::countdown::Time;
use crate::mode::{
    Action, Inputs, Mode, State, FLASHES, FLASH_MS, IDLE_TIMEOUT, INPUT_TIMEOUT, POLL_MS,
};
use crate::segments::{
    blank_leading_zeros, compose_time, is_digits, key_digit, push_digit, render, time_digits, BLANK,
    KEY_COUNT,
};
use crate::sounds::Sound;
use crate::step::{
    accepts, beep, elapsed_seconds, enter_step, flash, flashes, has_ticked, idle_step,
    keyed_actions, keyed_digits, paused_step, running_step, step, user_input_step,
};
use vstd::prelude::*;

verus! {

/// The panel.
pub struct App {
    tick_hz: u64,
    state: State,
}

impl App {
    /// Ticks that the timer makes in a second.
    pub closed spec fn spec_tick_hz(&self) -> u64 {
        self.tick_hz
    }

    /// Where the panel stands.
    pub closed spec fn spec_state(&self) -> State {
        self.state
    }

    /// The timer ticks, and the state is well formed.
    pub open spec fn wf(&self) -> bool {
        self.spec_tick_hz() > 0 && self.spec_state().wf()
    }

    /// A panel that is about to enter the idle mode, on a timer that makes
    /// `tick_hz` ticks in a second.
    pub fn new(tick_hz: u64) -> (app: Self)
        requires
            tick_hz > 0,
        ensures
            app.wf(),
            app.spec_tick_hz() == tick_hz,
            app.spec_state() == State::Entering(Mode::Idle),
    {
        App { tick_hz, state: State::Entering(Mode::Idle) }
    }

    /// A panel that stands where `state` says, if that is a place to stand
    /// and the timer ticks; `None` if not.
    pub fn from_state(tick_hz: u64, state: State) -> (app: Option<Self>)
        ensures
            app is Some <==> tick_hz > 0 && state.wf(),
            app matches Some(app) ==> app.wf() && app.spec_tick_hz() == tick_hz
                && app.spec_state() == state,
    {
        if tick_hz > 0 && state.is_wf() {
            Some(App { tick_hz, state })
        } else {
            None
        }
    }

    /// Ticks that the timer makes in a second.
    #[verifier::when_used_as_spec(spec_tick_hz)]
    pub fn tick_hz(&self) -> (tick_hz: u64)
        ensures
            tick_hz == self.spec_tick_hz(),
    {
        self.tick_hz
    }

    /// Where the panel stands.
    #[verifier::when_used_as_spec(spec_state)]
    pub fn state(&self) -> (state: State)
        ensures
            state == self.spec_state(),
    {
        self.state
    }

    /// The mode that the panel is in.
    pub fn mode(&self) -> (mode: Mode)
        ensures
            mode == self.spec_state().spec_mode(),
    {
        self.state.mode()
    }

    /// Whether `run` may be called with these readings.
    pub fn accepts(&self, inputs: &Inputs) -> (ok: bool)
        requires
            self.wf(),
        ensures
            ok == accepts(self.spec_state(), *inputs, self.spec_tick_hz()),
    {
        let key_ok = match inputs.key {
            Some(key) => key < KEY_COUNT,
            None => true,
        };
        let state_ok = match self.state {
            State::Entering(_) => true,
            State::Idle { since } => since <= inputs.ticks,
            State::UserInput { since, .. } => since <= inputs.ticks,
            State::Running { since, last_elapsed, left } => {
                since <= inputs.ticks && !(left.is_zero() && self.seconds_elapsed(
                    since,
                    inputs.ticks,
                ) != last_elapsed)
            },
            State::Paused { since, .. } => since <= inputs.ticks,
        };
        key_ok && state_ok
    }

    /// One step: enters the mode if that is still to do, else polls once.
    /// Hands back what is to be done, in order, before the next step.
    ///
    /// The readings must be ones that `accepts` admits. The timer must not
    /// have gone back since the mode was entered. And while cooking with no
    /// time left, which is where a start with nothing keyed leads, no new
    /// second may have come: there is none to take off.
    pub fn run(&mut self, inputs: &Inputs) -> (actions: Vec<Action>)
        requires
            old(self).wf(),
            accepts(old(self).spec_state(), *inputs, old(self).spec_tick_hz()),
        ensures
            final(self).wf(),
            final(self).spec_tick_hz() == old(self).spec_tick_hz(),
            final(self).spec_state() == step(
                old(self).spec_state(),
                *inputs,
                old(self).spec_tick_hz(),
            ).0,
            actions@ == step(old(self).spec_state(), *inputs, old(self).spec_tick_hz()).1,
    {
        let (next, actions) = match self.state {
            State::Entering(mode) => self.enter(mode, inputs.ticks),
            State::Idle { since } => self.run_idle(since, inputs),
            State::UserInput { since, last_key, digits } => self.run_user_input(
                since,
                last_key,
                digits,
                inputs,
            ),
            State::Running { since, last_elapsed, left } => self.run_running(
                since,
                last_elapsed,
                left,
                inputs,
            ),
            State::Paused { since, left } => self.run_paused(since, left, inputs),
        };
        self.state = next;
        actions
    }

    /// Whole seconds since the timer counted `since`.
    fn seconds_elapsed(&self, since: u64, now: u64) -> (seconds: u64)
        requires
            self.spec_tick_hz() > 0,
            since <= now,
        ensures
            seconds == elapsed_seconds(since, now, self.spec_tick_hz()),
    {
        (now - since) / self.tick_hz
    }

    /// Enters a mode. `now` is the timer's count.
    pub fn enter(&self, mode: Mode, now: u64) -> (next: (State, Vec<Action>))
        requires
            mode.wf(),
        ensures
            next.0 == enter_step(mode, now).0,
            next.1@ == enter_step(mode, now).1,
            next.0.wf(),
    {
        match mode {
            Mode::Idle => {
                let mut actions = Vec::new();
                actions.push(Action::Display([0, 0, 0, 0]));
                assert(actions@ =~= enter_step(mode, now).1);
                (State::Idle { since: now }, actions)
            },
            Mode::UserInput => {
                let mut actions = Vec::new();
                actions.push(Action::Display([0, 0, 0, 0]));
                assert(actions@ =~= enter_step(mode, now).1);
                (
                    State::UserInput {
                        since: now,
                        last_key: None,
                        digits: [BLANK, BLANK, BLANK, BLANK],
                    },
                    actions,
                )
            },
            Mode::Running { seconds, minutes } => {
                let mut actions = Vec::new();
                actions.push(Action::Play(Sound::running()));
                assert(actions@ =~= enter_step(mode, now).1);
                (
                    State::Running { since: now, last_elapsed: 0, left: Time { minutes, seconds } },
                    actions,
                )
            },
            Mode::Done => self.run_done(),
            Mode::Paused { seconds, minutes } => (
                State::Paused { since: now, left: Time { minutes, seconds } },
                Vec::new(),
            ),
            Mode::Sleep => self.run_sleep(),
        }
    }

    /// One poll while idle.
    pub fn run_idle(&self, since: u64, inputs: &Inputs) -> (next: (State, Vec<Action>))
        requires
            self.spec_tick_hz() > 0,
            since <= inputs.ticks,
        ensures
            next.0 == idle_step(since, *inputs, self.spec_tick_hz()).0,
            next.1@ == idle_step(since, *inputs, self.spec_tick_hz()).1,
            next.0.wf(),
    {
        if inputs.key.is_some() {
            return (State::Entering(Mode::UserInput), Vec::new());
        }
        if self.seconds_elapsed(since, inputs.ticks) > IDLE_TIMEOUT {
            return (State::Entering(Mode::Sleep), Vec::new());
        }
        let mut actions = Vec::new();
        actions.push(Action::DelayMs(POLL_MS));
        assert(actions@ =~= seq![Action::DelayMs(POLL_MS)]);
        (State::Idle { since }, actions)
    }

    /// One poll while a time is keyed in.
    pub fn run_user_input(
        &self,
        since: u64,
        last_key: Option<u8>,
        digits: [u8; 4],
        inputs: &Inputs,
    ) -> (next: (State, Vec<Action>))
        requires
            self.spec_tick_hz() > 0,
            since <= inputs.ticks,
            is_digits(digits),
            inputs.wf(),
        ensures
            next.0 == user_input_step(since, last_key, digits, *inputs, self.spec_tick_hz()).0,
            next.1@ == user_input_step(since, last_key, digits, *inputs, self.spec_tick_hz()).1,
            next.0.wf(),
    {
        let mut actions = Vec::new();
        let mut keyed = digits;
        if inputs.key != last_key {
            if let Some(key) = inputs.key {
                keyed = push_digit(digits, key_digit(key));
                actions.push(Action::Display(render(keyed)));
                actions.push(Action::Play(Sound::beep()));
            }
        }
        assert(keyed == keyed_digits(last_key, digits, inputs.key));
        assert(actions@ =~= keyed_actions(last_key, digits, inputs.key));
        if inputs.start_pressed && !inputs.door_open {
            actions.push(Action::Play(Sound::start()));
            let time = compose_time(keyed);
            return (
                State::Entering(Mode::Running { seconds: time.seconds, minutes: time.minutes }),
                actions,
            );
        }
        if inputs.stop_pressed {
            actions.push(Action::Play(Sound::beep()));
            return (State::Entering(Mode::Idle), actions);
        }
        if self.seconds_elapsed(since, inputs.ticks) > INPUT_TIMEOUT {
            actions.push(Action::Play(Sound::beep()));
            return (State::Entering(Mode::Idle), actions);
        }
        actions.push(Action::DelayMs(POLL_MS));
        (State::UserInput { since, last_key: inputs.key, digits: keyed }, actions)
    }

    /// One poll while cooking.
    pub fn run_running(
        &self,
        since: u64,
        last_elapsed: u64,
        left: Time,
        inputs: &Inputs,
    ) -> (next: (State, Vec<Action>))
        requires
            self.spec_tick_hz() > 0,
            since <= inputs.ticks,
            left.wf(),
            !(left.spec_is_zero() && has_ticked(since, last_elapsed, *inputs, self.spec_tick_hz())),
        ensures
            next.0 == running_step(since, last_elapsed, left, *inputs, self.spec_tick_hz()).0,
            next.1@ == running_step(since, last_elapsed, left, *inputs, self.spec_tick_hz()).1,
            next.0.wf(),
    {
        let mut actions = Vec::new();
        let mut left = left;
        let elapsed = self.seconds_elapsed(since, inputs.ticks);
        if elapsed != last_elapsed {
            left = left.decrement();
            if left.is_zero() {
                actions.push(Action::StopAudio);
                assert(actions@ =~= seq![Action::StopAudio]);
                return (State::Entering(Mode::Done), actions);
            }
            let shown = render(blank_leading_zeros(time_digits(left)));
            actions.push(Action::Display(shown));
        }
        if inputs.door_open {
            actions.push(Action::StopAudio);
            return (
                State::Entering(Mode::Paused { seconds: left.seconds, minutes: left.minutes }),
                actions,
            );
        }
        if inputs.stop_pressed {
            actions.push(Action::StopAudio);
            actions.push(Action::Play(Sound::beep()));
            return (State::Entering(Mode::Idle), actions);
        }
        actions.push(Action::DelayMs(POLL_MS));
        (State::Running { since, last_elapsed: elapsed, left }, actions)
    }

    /// The end of the cooking: `FLASHES` flashes, then on to idle.
    pub fn run_done(&self) -> (next: (State, Vec<Action>))
        ensures
            next.0 == State::Entering(Mode::Idle),
            next.1@ == flashes(FLASHES as nat),
    {
        let mut actions = Vec::new();
        let mut done: u8 = 0;
        while done < FLASHES
            invariant
                0 <= done <= FLASHES,
                actions@ == flashes(done as nat),
            decreases FLASHES - done,
        {
            let ghost before = actions@;
            actions.push(Action::Play(Sound::beep()));
            actions.push(Action::Display([0x7F, 0x79, 0x79, 0x73]));
            actions.push(Action::DelayMs(FLASH_MS));
            actions.push(Action::Display([0, 0, 0, 0]));
            actions.push(Action::DelayMs(FLASH_MS));
            assert(actions@ =~= before + flash());
            done += 1;
        }
        (State::Entering(Mode::Idle), actions)
    }

    /// One poll while paused.
    pub fn run_paused(&self, since: u64, left: Time, inputs: &Inputs) -> (next: (
        State,
        Vec<Action>,
    ))
        requires
            self.spec_tick_hz() > 0,
            since <= inputs.ticks,
            left.wf(),
        ensures
            next.0 == paused_step(since, left, *inputs, self.spec_tick_hz()).0,
            next.1@ == paused_step(since, left, *inputs, self.spec_tick_hz()).1,
            next.0.wf(),
    {
        let mut actions = Vec::new();
        if inputs.start_pressed && !inputs.door_open {
            actions.push(Action::Play(Sound::beep()));
            assert(actions@ =~= seq![beep()]);
            return (
                State::Entering(Mode::Running { seconds: left.seconds, minutes: left.minutes }),
                actions,
            );
        }
        if inputs.stop_pressed {
            actions.push(Action::Play(Sound::beep()));
            assert(actions@ =~= seq![beep()]);
            return (State::Entering(Mode::Idle), actions);
        }
        if self.seconds_elapsed(since, inputs.ticks) > INPUT_TIMEOUT {
            actions.push(Action::Play(Sound::beep()));
            assert(actions@ =~= seq![beep()]);
            return (State::Entering(Mode::Idle), actions);
        }
        actions.push(Action::DelayMs(POLL_MS));
        assert(actions@ =~= seq![Action::DelayMs(POLL_MS)]);
        (State::Paused { since, left }, actions)
    }

    /// Sleep ends at once: on to idle, with nothing to do.
    pub fn run_sleep(&self) -> (next: (State, Vec<Action>))
        ensures
            next.0 == State::Entering(Mode::Idle),
            next.1@ == Seq::<Action>::empty(),
    {
        (State::Entering(Mode::Idle), Vec::new())
    }
}

} // verus!
