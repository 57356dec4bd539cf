//! The other end of the two wires: what the display makes of the line
//! operations that the driver asks for.
//!
//! The display reads the data line whenever the clock rises. After eight bits
//! it holds the data line low from the fall of the clock through the ninth
//! clock, to acknowledge the byte. The data line falling while the clock is
//! high opens a frame; the data line rising while the clock is high closes
//! it. Nothing here is executable: `Receiver` is the yardstick that the
//! driver's output is held to.

use crate::seven_segment::{
    ack_ops, bit_at, bit_delay_op, bit_ops, bits_ops, byte_ops, bytes_ops, frame_ops, start_ops,
    stop_ops, update_frames, update_ops, LineOp,
};
use vstd::prelude::*;

verus! {

/// What the display has seen so far.
pub struct Receiver {
    /// Level of the clock line.
    pub clock: bool,
    /// Whether the driver lets the data line go high. Both ends can pull the
    /// line low, and it is high only when neither does.
    pub data: bool,
    /// Whether the display holds the data line low to acknowledge a byte.
    pub acking: bool,
    /// Whether a frame is open.
    pub in_frame: bool,
    /// How many bits of the byte under way have arrived.
    pub bits: u8,
    /// Those bits, the first in bit 0.
    pub byte: u8,
    /// The bytes of the open frame that are complete.
    pub frame: Seq<u8>,
    /// The frames that are complete.
    pub frames: Seq<Seq<u8>>,
}

impl Receiver {
    /// Level of the data line.
    pub open spec fn line(self) -> bool {
        self.data && !self.acking
    }

    /// Between frames: both lines high and nothing under way.
    pub open spec fn is_idle(self) -> bool {
        &&& self.clock
        &&& self.data
        &&& !self.acking
        &&& !self.in_frame
        &&& self.bits == 0
        &&& self.byte == 0
        &&& self.frame == Seq::<u8>::empty()
    }

    /// Inside a frame, at the start of a byte.
    pub open spec fn awaits_byte(self) -> bool {
        &&& self.in_frame
        &&& !self.acking
        &&& self.bits == 0
        &&& self.byte == 0
    }

    /// What one line operation does to the display.
    pub open spec fn step(self, op: LineOp) -> Receiver {
        match op {
            LineOp::ClockLow => {
                if self.clock && self.in_frame && self.acking {
                    Receiver {
                        clock: false,
                        acking: false,
                        bits: 0,
                        byte: 0,
                        frame: self.frame.push(self.byte),
                        ..self
                    }
                } else if self.clock && self.in_frame && self.bits == 8 {
                    Receiver { clock: false, acking: true, ..self }
                } else {
                    Receiver { clock: false, ..self }
                }
            },
            LineOp::ClockHigh => {
                if !self.clock && self.in_frame && !self.acking && self.bits < 8 {
                    Receiver {
                        clock: true,
                        bits: (self.bits + 1) as u8,
                        byte: if self.line() {
                            self.byte | (1u8 << self.bits)
                        } else {
                            self.byte
                        },
                        ..self
                    }
                } else {
                    Receiver { clock: true, ..self }
                }
            },
            LineOp::DataLow => {
                if self.clock && self.line() {
                    Receiver {
                        data: false,
                        in_frame: true,
                        bits: 0,
                        byte: 0,
                        frame: Seq::empty(),
                        ..self
                    }
                } else {
                    Receiver { data: false, ..self }
                }
            },
            LineOp::DataHigh => {
                if self.clock && !self.data && !self.acking && self.in_frame {
                    Receiver {
                        data: true,
                        in_frame: false,
                        bits: 0,
                        byte: 0,
                        frame: Seq::empty(),
                        frames: self.frames.push(self.frame),
                        ..self
                    }
                } else {
                    Receiver { data: true, ..self }
                }
            },
            LineOp::SampleAck => self,
            LineOp::DelayUs(_) => self,
        }
    }

    /// What a run of line operations does to the display.
    pub open spec fn receive(self, ops: Seq<LineOp>) -> Receiver
        decreases ops.len(),
    {
        if ops.len() == 0 {
            self
        } else {
            self.receive(ops.drop_last()).step(ops.last())
        }
    }
}

/// The lowest `count` bits of a byte, as they gather in the display.
pub open spec fn low_bits(byte: u8, count: u8) -> u8
    decreases count,
{
    if count == 0 {
        0
    } else {
        low_bits(byte, (count - 1) as u8) | (if bit_at(byte, (count - 1) as u8) {
            1u8 << ((count - 1) as u8)
        } else {
            0u8
        })
    }
}

/// All eight bits make the byte.
pub proof fn lemma_low_bits_all(byte: u8)
    ensures
        low_bits(byte, 8) == byte,
{
    reveal_with_fuel(low_bits, 9);
    let t0 = if (byte >> 0u8) & 1 == 1 { 1u8 << 0u8 } else { 0u8 };
    let t1 = if (byte >> 1u8) & 1 == 1 { 1u8 << 1u8 } else { 0u8 };
    let t2 = if (byte >> 2u8) & 1 == 1 { 1u8 << 2u8 } else { 0u8 };
    let t3 = if (byte >> 3u8) & 1 == 1 { 1u8 << 3u8 } else { 0u8 };
    let t4 = if (byte >> 4u8) & 1 == 1 { 1u8 << 4u8 } else { 0u8 };
    let t5 = if (byte >> 5u8) & 1 == 1 { 1u8 << 5u8 } else { 0u8 };
    let t6 = if (byte >> 6u8) & 1 == 1 { 1u8 << 6u8 } else { 0u8 };
    let t7 = if (byte >> 7u8) & 1 == 1 { 1u8 << 7u8 } else { 0u8 };
    assert(low_bits(byte, 8) == (((((((0u8 | t0) | t1) | t2) | t3) | t4) | t5) | t6) | t7);
    assert((((((((0u8 | t0) | t1) | t2) | t3) | t4) | t5) | t6) | t7 == byte) by (bit_vector)
        requires
            t0 == (if (byte >> 0u8) & 1 == 1 { 1u8 << 0u8 } else { 0u8 }),
            t1 == (if (byte >> 1u8) & 1 == 1 { 1u8 << 1u8 } else { 0u8 }),
            t2 == (if (byte >> 2u8) & 1 == 1 { 1u8 << 2u8 } else { 0u8 }),
            t3 == (if (byte >> 3u8) & 1 == 1 { 1u8 << 3u8 } else { 0u8 }),
            t4 == (if (byte >> 4u8) & 1 == 1 { 1u8 << 4u8 } else { 0u8 }),
            t5 == (if (byte >> 5u8) & 1 == 1 { 1u8 << 5u8 } else { 0u8 }),
            t6 == (if (byte >> 6u8) & 1 == 1 { 1u8 << 6u8 } else { 0u8 }),
            t7 == (if (byte >> 7u8) & 1 == 1 { 1u8 << 7u8 } else { 0u8 }),
    ;
}

/// Receiving one run after another is receiving them joined.
pub proof fn lemma_receive_concat(r: Receiver, first: Seq<LineOp>, second: Seq<LineOp>)
    ensures
        r.receive(first + second) == r.receive(first).receive(second),
    decreases second.len(),
{
    if second.len() == 0 {
        assert(first + second =~= first);
    } else {
        assert((first + second).drop_last() =~= first + second.drop_last());
        assert((first + second).last() == second.last());
        lemma_receive_concat(r, first, second.drop_last());
    }
}

/// Receiving six operations, one by one.
proof fn lemma_receive_six(r: Receiver, ops: Seq<LineOp>)
    requires
        ops.len() == 6,
    ensures
        r.receive(ops) == r.step(ops[0]).step(ops[1]).step(ops[2]).step(ops[3]).step(ops[4]).step(
            ops[5],
        ),
{
    reveal_with_fuel(Receiver::receive, 7);
    let o5 = ops.drop_last();
    let o4 = o5.drop_last();
    let o3 = o4.drop_last();
    let o2 = o3.drop_last();
    let o1 = o2.drop_last();
    let o0 = o1.drop_last();
    assert(o0.len() == 0);
    assert(r.receive(o0) == r);
    assert(r.receive(o1) == r.step(ops[0]));
    assert(r.receive(o2) == r.step(ops[0]).step(ops[1]));
    assert(r.receive(o3) == r.step(ops[0]).step(ops[1]).step(ops[2]));
}

/// The start condition opens a frame.
pub proof fn lemma_receive_start(r: Receiver)
    requires
        r.is_idle(),
    ensures
        r.receive(start_ops()) == (Receiver { data: false, in_frame: true, ..r }),
        r.receive(start_ops()).awaits_byte(),
        !r.receive(start_ops()).data,
{
    reveal_with_fuel(Receiver::receive, 3);
    let ops = start_ops();
    assert(ops.drop_last().drop_last().len() == 0);
    assert(r.receive(ops) == r.step(LineOp::DataLow).step(bit_delay_op()));
}

/// One bit arrives when the clock rises.
pub proof fn lemma_receive_bit(r: Receiver, bit: bool)
    requires
        r.in_frame,
        !r.acking,
        r.bits < 8,
    ensures
        r.receive(bit_ops(bit)) == (Receiver {
            clock: true,
            data: bit,
            bits: (r.bits + 1) as u8,
            byte: if bit {
                r.byte | (1u8 << r.bits)
            } else {
                r.byte
            },
            ..r
        }),
{
    lemma_receive_six(r, bit_ops(bit));
}

/// The first bits of a byte gather in the display, least significant first.
pub proof fn lemma_receive_bits(r: Receiver, byte: u8, count: u8)
    requires
        r.awaits_byte(),
        1 <= count <= 8,
    ensures
        r.receive(bits_ops(byte, count as nat)) == (Receiver {
            clock: true,
            data: bit_at(byte, (count - 1) as u8),
            bits: count,
            byte: low_bits(byte, count),
            ..r
        }),
    decreases count,
{
    let earlier = bits_ops(byte, (count - 1) as nat);
    let bit = bit_at(byte, (count - 1) as u8);
    lemma_receive_concat(r, earlier, bit_ops(bit));
    let gathered = low_bits(byte, (count - 1) as u8);
    assert(gathered | 0u8 == gathered) by (bit_vector);
    if count == 1 {
        assert(earlier =~= Seq::<LineOp>::empty());
        assert(r.receive(earlier) == r);
        lemma_receive_bit(r, bit);
    } else {
        lemma_receive_bits(r, byte, (count - 1) as u8);
        lemma_receive_bit(r.receive(earlier), bit);
    }
}

/// The ninth clock: the display acknowledges, and the byte is complete when
/// the clock falls again. The driver pulling the data line low while the
/// clock is high opens no frame, because the display holds the line low
/// already.
pub proof fn lemma_receive_ack(r: Receiver)
    requires
        r.clock,
        r.in_frame,
        !r.acking,
        r.bits == 8,
    ensures
        r.receive(ack_ops()) == (Receiver {
            clock: false,
            data: false,
            bits: 0,
            byte: 0,
            frame: r.frame.push(r.byte),
            ..r
        }),
{
    let ops = ack_ops();
    let head = ops.subrange(0, 4);
    let tail = ops.subrange(4, 10);
    assert(ops =~= head + tail);
    lemma_receive_concat(r, head, tail);
    reveal_with_fuel(Receiver::receive, 5);
    assert(head.drop_last().drop_last().drop_last().drop_last().len() == 0);
    assert(r.receive(head) == r.step(LineOp::ClockLow).step(LineOp::DataHigh).step(
        bit_delay_op(),
    ).step(LineOp::ClockHigh));
    lemma_receive_six(r.receive(head), tail);
}

/// A whole byte arrives as it was sent.
pub proof fn lemma_receive_byte(r: Receiver, byte: u8)
    requires
        r.awaits_byte(),
    ensures
        r.receive(byte_ops(byte)) == (Receiver {
            clock: false,
            data: false,
            frame: r.frame.push(byte),
            ..r
        }),
        r.receive(byte_ops(byte)).awaits_byte(),
{
    lemma_receive_concat(r, bits_ops(byte, 8), ack_ops());
    lemma_receive_bits(r, byte, 8);
    lemma_low_bits_all(byte);
    lemma_receive_ack(r.receive(bits_ops(byte, 8)));
}

/// Bytes arrive in the order in which they were sent.
pub proof fn lemma_receive_bytes(r: Receiver, bytes: Seq<u8>)
    requires
        r.awaits_byte(),
        !r.data,
    ensures
        r.receive(bytes_ops(bytes)) == (Receiver {
            clock: if bytes.len() == 0 {
                r.clock
            } else {
                false
            },
            frame: r.frame + bytes,
            ..r
        }),
    decreases bytes.len(),
{
    if bytes.len() == 0 {
        assert(r.frame + bytes =~= r.frame);
    } else {
        let earlier = bytes.drop_last();
        lemma_receive_bytes(r, earlier);
        lemma_receive_concat(r, bytes_ops(earlier), byte_ops(bytes.last()));
        lemma_receive_byte(r.receive(bytes_ops(earlier)), bytes.last());
        assert((r.frame + earlier).push(bytes.last()) =~= r.frame + bytes);
    }
}

/// The stop condition closes the frame, and the display is idle again.
pub proof fn lemma_receive_stop(r: Receiver)
    requires
        r.awaits_byte(),
        !r.data,
    ensures
        r.receive(stop_ops()) == (Receiver {
            clock: true,
            data: true,
            in_frame: false,
            frame: Seq::empty(),
            frames: r.frames.push(r.frame),
            ..r
        }),
{
    lemma_receive_six(r, stop_ops());
    assert(0u8 | (1u8 << 0u8) == 1u8) by (bit_vector);
}

/// A frame arrives as it was sent: the idle display that is shown
/// `frame_ops(bytes)` has received one more frame, which holds those bytes,
/// and is idle again.
pub proof fn lemma_frame_received(r: Receiver, bytes: Seq<u8>)
    requires
        r.is_idle(),
    ensures
        r.receive(frame_ops(bytes)) == (Receiver { frames: r.frames.push(bytes), ..r }),
        r.receive(frame_ops(bytes)).is_idle(),
{
    let opened = r.receive(start_ops());
    lemma_receive_start(r);
    lemma_receive_concat(r, start_ops(), bytes_ops(bytes));
    lemma_receive_bytes(opened, bytes);
    let filled = opened.receive(bytes_ops(bytes));
    assert(opened.frame + bytes =~= bytes);
    lemma_receive_concat(r, start_ops() + bytes_ops(bytes), stop_ops());
    lemma_receive_stop(filled);
}

/// The display receives exactly what an update means to send. Shown the
/// line operations of one update, an idle display has received three more
/// frames: the data command; the address command and the four segment bytes
/// in their order; the control command. It is idle afterwards, so the next
/// update meets it as this one did.
pub proof fn lemma_update_received(r: Receiver, segments: Seq<u8>)
    requires
        r.is_idle(),
    ensures
        r.receive(update_ops(segments)) == (Receiver {
            frames: r.frames + update_frames(segments),
            ..r
        }),
        r.receive(update_ops(segments)).is_idle(),
{
    let frames = update_frames(segments);
    let first = frame_ops(frames[0]);
    let second = frame_ops(frames[1]);
    let third = frame_ops(frames[2]);
    lemma_frame_received(r, frames[0]);
    let one = r.receive(first);
    lemma_frame_received(one, frames[1]);
    let two = one.receive(second);
    lemma_frame_received(two, frames[2]);
    lemma_receive_concat(r, first, second);
    lemma_receive_concat(r, first + second, third);
    assert(r.frames.push(frames[0]).push(frames[1]).push(frames[2]) =~= r.frames + frames);
}

} // verus!
