//! The two-wire protocol of the four-digit display.
//!
//! The display listens on a clock line and a data line, both open-drain and
//! idle high. `SevenSegment` does not hold the lines: it writes down, in
//! order, what is to be done to them, and its owner carries that out. What
//! goes over the wires for one update is fixed by `update_ops`.

use vstd::prelude::*;

verus! {

/// One thing done to, or for, the two lines.
#[derive(Clone, Copy, Debug, PartialEq, Eq, Structural)]
pub enum LineOp {
    /// Pull the clock line low.
    ClockLow,
    /// Let the clock line go high.
    ClockHigh,
    /// Pull the data line low.
    DataLow,
    /// Let the data line go high.
    DataHigh,
    /// Read the data line, on which the display acknowledges a byte. What is
    /// read decides nothing.
    SampleAck,
    /// Wait this many microseconds.
    DelayUs(u32),
}

/// Microseconds for which the lines are left alone between the steps of the
/// protocol: the bit delay.
pub const BIT_DELAY_US: u32 = 100;

/// The wait of one bit delay.
pub open spec fn bit_delay_op() -> LineOp {
    LineOp::DelayUs(BIT_DELAY_US)
}

/// Command byte that opens an update: data will be written, the address
/// counting up by itself.
pub const DATA_COMMAND: u8 = 0x40;

/// Command byte that sets the address to the first digit.
pub const ADDRESS_COMMAND: u8 = 0xC0;

/// Command byte that switches the display on at full brightness.
pub const CONTROL_COMMAND: u8 = 0x8F;

/// Bit `i` of a byte, bit 0 being the least significant.
pub open spec fn bit_at(byte: u8, i: u8) -> bool {
    (byte >> i) & 1 == 1
}

/// The start condition: the data line falls while the clock is high.
pub open spec fn start_ops() -> Seq<LineOp> {
    seq![LineOp::DataLow, bit_delay_op()]
}

/// The stop condition: with the data line held low the clock rises, then the
/// data line rises.
pub open spec fn stop_ops() -> Seq<LineOp> {
    seq![
        LineOp::DataLow,
        bit_delay_op(),
        LineOp::ClockHigh,
        bit_delay_op(),
        LineOp::DataHigh,
        bit_delay_op(),
    ]
}

/// One bit: the data line is set while the clock is low and read by the
/// display when the clock rises.
pub open spec fn bit_ops(bit: bool) -> Seq<LineOp> {
    seq![
        LineOp::ClockLow,
        bit_delay_op(),
        if bit { LineOp::DataHigh } else { LineOp::DataLow },
        bit_delay_op(),
        LineOp::ClockHigh,
        bit_delay_op(),
    ]
}

/// The ninth clock of a byte. The data line is let go for the display to
/// acknowledge on, sampled while the clock is high, and then pulled low
/// whatever the sample was.
pub open spec fn ack_ops() -> Seq<LineOp> {
    seq![
        LineOp::ClockLow,
        LineOp::DataHigh,
        bit_delay_op(),
        LineOp::ClockHigh,
        bit_delay_op(),
        LineOp::SampleAck,
        LineOp::DataLow,
        bit_delay_op(),
        LineOp::ClockLow,
        bit_delay_op(),
    ]
}

/// The lowest `count` bits of a byte, least significant first.
pub open spec fn bits_ops(byte: u8, count: nat) -> Seq<LineOp>
    decreases count,
{
    if count == 0 {
        Seq::empty()
    } else {
        bits_ops(byte, (count - 1) as nat) + bit_ops(bit_at(byte, (count - 1) as u8))
    }
}

/// One byte: its eight bits, least significant first, then the acknowledge
/// clock.
pub open spec fn byte_ops(byte: u8) -> Seq<LineOp> {
    bits_ops(byte, 8) + ack_ops()
}

/// Several bytes, one after the other.
pub open spec fn bytes_ops(bytes: Seq<u8>) -> Seq<LineOp>
    decreases bytes.len(),
{
    if bytes.len() == 0 {
        Seq::empty()
    } else {
        bytes_ops(bytes.drop_last()) + byte_ops(bytes.last())
    }
}

/// One frame: the bytes between a start and a stop condition.
pub open spec fn frame_ops(bytes: Seq<u8>) -> Seq<LineOp> {
    start_ops() + bytes_ops(bytes) + stop_ops()
}

/// The three frames that carry a display update.
pub open spec fn update_frames(segments: Seq<u8>) -> Seq<Seq<u8>> {
    seq![seq![DATA_COMMAND], seq![ADDRESS_COMMAND] + segments, seq![CONTROL_COMMAND]]
}

/// All that goes over the wires for one display update: the data command in a
/// frame of its own, the address followed by the four segment bytes in a
/// second, the control command in a third.
pub open spec fn update_ops(segments: Seq<u8>) -> Seq<LineOp> {
    frame_ops(update_frames(segments)[0]) + frame_ops(update_frames(segments)[1]) + frame_ops(
        update_frames(segments)[2],
    )
}

/// Driver of the display. It holds the line operations that were asked for
/// and not yet taken.
pub struct SevenSegment {
    pending: Vec<LineOp>,
}

impl View for SevenSegment {
    type V = Seq<LineOp>;

    /// The operations that wait to be carried out, oldest first.
    closed spec fn view(&self) -> Seq<LineOp> {
        self.pending@
    }
}

impl SevenSegment {
    /// A driver with nothing pending. Both lines are taken to idle high.
    pub fn new() -> (display: Self)
        ensures
            display@ == Seq::<LineOp>::empty(),
    {
        SevenSegment { pending: Vec::new() }
    }

    /// Opens a frame.
    pub fn start(&mut self)
        ensures
            final(self)@ == old(self)@ + start_ops(),
    {
        self.pending.push(LineOp::DataLow);
        self.bit_delay();
        assert(self@ =~= old(self)@ + start_ops());
    }

    /// Closes a frame.
    pub fn stop(&mut self)
        ensures
            final(self)@ == old(self)@ + stop_ops(),
    {
        self.pending.push(LineOp::DataLow);
        self.bit_delay();
        self.pending.push(LineOp::ClockHigh);
        self.bit_delay();
        self.pending.push(LineOp::DataHigh);
        self.bit_delay();
        assert(self@ =~= old(self)@ + stop_ops());
    }

    /// Waits for one bit delay.
    pub fn bit_delay(&mut self)
        ensures
            final(self)@ == old(self)@.push(LineOp::DelayUs(BIT_DELAY_US)),
    {
        self.pending.push(LineOp::DelayUs(BIT_DELAY_US));
    }

    /// Updates all four digits: `segments` holds the byte of each, from the
    /// left. Every update is the whole of `update_ops`; there is no way to
    /// change one digit alone.
    pub fn set_segments(&mut self, segments: [u8; 4])
        ensures
            final(self)@ == old(self)@ + update_ops(segments@),
    {
        let ghost before = self@;
        self.start();
        self.write_byte(DATA_COMMAND);
        self.stop();
        proof {
            lemma_bytes_ops_one(DATA_COMMAND);
            assert(self@ =~= before + frame_ops(seq![DATA_COMMAND]));
        }

        let ghost first = self@;
        self.start();
        self.write_byte(ADDRESS_COMMAND);
        proof {
            lemma_bytes_ops_one(ADDRESS_COMMAND);
        }
        let mut i: usize = 0;
        while i < 4
            invariant
                0 <= i <= 4,
                self@ == first + start_ops() + bytes_ops(
                    seq![ADDRESS_COMMAND] + segments@.take(i as int),
                ),
            decreases 4 - i,
        {
            let ghost sent = seq![ADDRESS_COMMAND] + segments@.take(i as int);
            self.write_byte(segments[i]);
            proof {
                let longer = seq![ADDRESS_COMMAND] + segments@.take(i + 1);
                assert(longer.drop_last() =~= sent);
                assert(longer.last() == segments[i as int]);
            }
            i += 1;
        }
        self.stop();
        proof {
            assert(segments@.take(4) =~= segments@);
            assert(self@ =~= first + frame_ops(seq![ADDRESS_COMMAND] + segments@));
        }

        let ghost second = self@;
        self.start();
        self.write_byte(CONTROL_COMMAND);
        self.stop();
        proof {
            lemma_bytes_ops_one(CONTROL_COMMAND);
            assert(self@ =~= second + frame_ops(seq![CONTROL_COMMAND]));
            assert(self@ =~= before + update_ops(segments@));
        }
    }

    /// Sends one byte and clocks its acknowledge.
    fn write_byte(&mut self, data: u8)
        ensures
            final(self)@ == old(self)@ + byte_ops(data),
    {
        let mut rest = data;
        let mut i: u8 = 0;
        assert(data == data >> 0u8) by (bit_vector);
        while i < 8
            invariant
                0 <= i <= 8,
                rest == data >> i,
                self@ == old(self)@ + bits_ops(data, i as nat),
            decreases 8 - i,
        {
            let ghost sent = self@;
            self.pending.push(LineOp::ClockLow);
            self.bit_delay();
            if rest & 1 != 0 {
                self.pending.push(LineOp::DataHigh);
            } else {
                self.pending.push(LineOp::DataLow);
            }
            self.bit_delay();
            self.pending.push(LineOp::ClockHigh);
            self.bit_delay();
            proof {
                assert((rest & 1 != 0) == ((data >> i) & 1 == 1)) by (bit_vector)
                    requires
                        rest == data >> i,
                ;
                assert((data >> i) >> 1u8 == data >> ((i + 1) as u8)) by (bit_vector)
                    requires
                        i < 8,
                ;
                assert(self@ =~= sent + bit_ops(bit_at(data, i)));
            }
            rest = rest >> 1;
            i += 1;
        }

        let ghost sent = self@;
        self.pending.push(LineOp::ClockLow);
        self.pending.push(LineOp::DataHigh);
        self.bit_delay();
        self.pending.push(LineOp::ClockHigh);
        self.bit_delay();
        self.pending.push(LineOp::SampleAck);
        self.pending.push(LineOp::DataLow);
        self.bit_delay();
        self.pending.push(LineOp::ClockLow);
        self.bit_delay();
        assert(self@ =~= sent + ack_ops());
    }

    /// Hands out what is pending, oldest first, and leaves nothing pending.
    pub fn take_ops(&mut self) -> (ops: Vec<LineOp>)
        ensures
            ops@ == old(self)@,
            final(self)@ == Seq::<LineOp>::empty(),
    {
        let mut ops: Vec<LineOp> = Vec::new();
        core::mem::swap(&mut self.pending, &mut ops);
        ops
    }
}

/// A single byte is sent as itself.
pub proof fn lemma_bytes_ops_one(byte: u8)
    ensures
        bytes_ops(seq![byte]) == byte_ops(byte),
{
    let one = seq![byte];
    assert(one.drop_last() =~= Seq::<u8>::empty());
    assert(bytes_ops(one.drop_last()) =~= Seq::<LineOp>::empty());
    assert(bytes_ops(one) =~= byte_ops(byte));
}

} // verus!
