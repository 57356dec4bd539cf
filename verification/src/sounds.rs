//! The sounds of the panel: what there is to play, and the samples of each.
//!
//! Playing is somebody else's work. The panel names a cue and says whether it
//! is to repeat; whoever plays it finds the samples in the `SoundPack`.

use vstd::prelude::*;

verus! {

/// Bytes at the front of a waveform that describe it and are no samples.
pub const WAV_HEADER_LEN: usize = 44;

/// Samples per second of every waveform.
pub const SAMPLE_RATE: u32 = 16000;

/// Channels of every waveform.
pub const CHANNEL_COUNT: u16 = 1;

/// The sounds there are.
#[derive(Clone, Copy, Debug, PartialEq, Eq, Structural)]
pub enum Cue {
    /// A short tone that acknowledges a key or ends a mode.
    Beep,
    /// The tone that starts the cooking.
    Start,
    /// The hum while cooking.
    Running,
}

/// A sound to be played: which one, and whether it starts again each time it
/// ends until all sound is stopped.
#[derive(Clone, Copy, Debug, PartialEq, Eq, Structural)]
pub struct Sound {
    pub cue: Cue,
    pub looping: bool,
}

impl Sound {
    /// The short tone, once.
    pub fn beep() -> (sound: Sound)
        ensures
            sound == (Sound { cue: Cue::Beep, looping: false }),
    {
        Sound { cue: Cue::Beep, looping: false }
    }

    /// The start tone, once.
    pub fn start() -> (sound: Sound)
        ensures
            sound == (Sound { cue: Cue::Start, looping: false }),
    {
        Sound { cue: Cue::Start, looping: false }
    }

    /// The hum, over and over.
    pub fn running() -> (sound: Sound)
        ensures
            sound == (Sound { cue: Cue::Running, looping: true }),
    {
        Sound { cue: Cue::Running, looping: true }
    }
}

/// The signed 16-bit number whose low byte is `low` and whose high byte is
/// `high`, in two's complement.
pub open spec fn le_i16(low: u8, high: u8) -> int {
    let unsigned = low + 256 * high;
    if unsigned < 0x8000 {
        unsigned
    } else {
        unsigned - 0x1_0000
    }
}

/// Two bytes make a sample, and a sample is made of no other two bytes.
pub proof fn lemma_le_i16(low: u8, high: u8)
    ensures
        i16::MIN <= le_i16(low, high) <= i16::MAX,
        le_i16(low, high) % 256 == low,
        le_i16(low, high) >= 0 <==> high < 0x80,
        forall|other_low: u8, other_high: u8|
            le_i16(other_low, other_high) == le_i16(low, high) ==> other_low == low && other_high
                == high,
{
}

/// How many samples a waveform of `len` bytes holds. A last odd byte is no
/// sample.
pub open spec fn sample_count(len: int) -> int {
    (len - WAV_HEADER_LEN) / 2
}

/// The samples of a waveform: what follows the header, two bytes to a
/// sample, low byte first.
pub open spec fn wav_samples(wav: Seq<u8>) -> Seq<i16> {
    Seq::new(
        sample_count(wav.len() as int) as nat,
        |i: int| le_i16(wav[WAV_HEADER_LEN + 2 * i], wav[WAV_HEADER_LEN + 2 * i + 1]) as i16,
    )
}

/// The samples of every cue.
pub struct SoundPack {
    beep: Vec<i16>,
    start: Vec<i16>,
    running: Vec<i16>,
}

impl SoundPack {
    /// The samples of a cue.
    pub closed spec fn spec_samples(&self, cue: Cue) -> Seq<i16> {
        match cue {
            Cue::Beep => self.beep@,
            Cue::Start => self.start@,
            Cue::Running => self.running@,
        }
    }

    /// Takes the samples of each cue out of its waveform.
    pub fn new(beep_wav: &[u8], start_wav: &[u8], running_wav: &[u8]) -> (pack: Self)
        requires
            beep_wav.len() >= WAV_HEADER_LEN,
            start_wav.len() >= WAV_HEADER_LEN,
            running_wav.len() >= WAV_HEADER_LEN,
        ensures
            pack.spec_samples(Cue::Beep) == wav_samples(beep_wav@),
            pack.spec_samples(Cue::Start) == wav_samples(start_wav@),
            pack.spec_samples(Cue::Running) == wav_samples(running_wav@),
    {
        SoundPack {
            beep: Self::convert_wav_to_samples(beep_wav),
            start: Self::convert_wav_to_samples(start_wav),
            running: Self::convert_wav_to_samples(running_wav),
        }
    }

    /// The samples of a waveform, without its header.
    pub fn convert_wav_to_samples(wav: &[u8]) -> (samples: Vec<i16>)
        requires
            wav.len() >= WAV_HEADER_LEN,
        ensures
            samples@ == wav_samples(wav@),
    {
        let count: usize = (wav.len() - WAV_HEADER_LEN) / 2;
        let mut samples: Vec<i16> = Vec::with_capacity(count);
        let mut i: usize = 0;
        while i < count
            invariant
                0 <= i <= count,
                count == sample_count(wav.len() as int),
                wav.len() >= WAV_HEADER_LEN,
                samples.len() == i,
                forall|j: int| 0 <= j < i ==> #[trigger] samples[j] == wav_samples(wav@)[j],
            decreases count - i,
        {
            let at: usize = WAV_HEADER_LEN + 2 * i;
            samples.push(sample_of(wav[at], wav[at + 1]));
            i += 1;
        }
        assert(samples@ =~= wav_samples(wav@));
        samples
    }

    /// The samples of a cue.
    pub fn samples(&self, cue: Cue) -> (samples: &Vec<i16>)
        ensures
            samples@ == self.spec_samples(cue),
    {
        match cue {
            Cue::Beep => &self.beep,
            Cue::Start => &self.start,
            Cue::Running => &self.running,
        }
    }
}

/// Puts two bytes together into a sample.
fn sample_of(low: u8, high: u8) -> (sample: i16)
    ensures
        sample == le_i16(low, high),
{
    let unsigned: u16 = low as u16 + 256 * (high as u16);
    if unsigned < 0x8000 {
        unsigned as i16
    } else {
        (unsigned - 0x8000) as i16 + i16::MIN
    }
}

} // verus!
