//! Control logic of a microwave oven's front panel.
//!
//! The panel has a four-digit display on two wires, a key pad of twelve
//! keys, a start and a stop button, a door switch, a timer and a speaker.
//! This library decides; it touches none of them. Its owner reads the
//! inputs, hands them over as plain values, and carries out what comes back:
//!
//! - `segments`: digits, the segment patterns that show them, and the time
//!   that keyed digits stand for;
//! - `countdown`: the time left, and how it runs down;
//! - `seven_segment`: the line operations that carry four bytes to the
//!   display, and `receiver`: what the display makes of them;
//! - `keypad`: which key a scan of the pad means;
//! - `sounds`: the sounds there are, and the samples in a waveform;
//! - `mode`, `step` and `app`: the modes of the oven, the rules that lead
//!   from one to the next, and the panel that follows them;
//! - `laws`: what holds of the panel over its steps.

pub mod countdown;
pub mod segments;
pub mod seven_segment;
pub mod receiver;
pub mod keypad;
pub mod sounds;
pub mod mode;
pub mod step;
pub mod app;
pub mod laws;
