use microwave::seven_segment::{
    LineOp, SevenSegment, ADDRESS_COMMAND, BIT_DELAY_US, CONTROL_COMMAND, DATA_COMMAND,
};

/// What a display on the two lines makes of a run of line operations: the
/// frames it receives, each a run of bytes. It reads the data line when the
/// clock rises, holds the line low for the ninth clock of each byte, and
/// takes a change of the data line while the clock is high as a start or a
/// stop.
struct Receiver {
    clock: bool,
    data: bool,
    acking: bool,
    in_frame: bool,
    bits: u32,
    byte: u8,
    frame: Vec<u8>,
    frames: Vec<Vec<u8>>,
    acks_seen: usize,
}

impl Receiver {
    fn new() -> Receiver {
        Receiver {
            clock: true,
            data: true,
            acking: false,
            in_frame: false,
            bits: 0,
            byte: 0,
            frame: Vec::new(),
            frames: Vec::new(),
            acks_seen: 0,
        }
    }

    fn line(&self) -> bool {
        self.data && !self.acking
    }

    fn take(&mut self, op: LineOp) {
        match op {
            LineOp::ClockLow => {
                if self.clock && self.in_frame {
                    if self.acking {
                        self.acking = false;
                        self.frame.push(self.byte);
                        self.byte = 0;
                        self.bits = 0;
                    } else if self.bits == 8 {
                        self.acking = true;
                    }
                }
                self.clock = false;
            }
            LineOp::ClockHigh => {
                if !self.clock && self.in_frame && !self.acking && self.bits < 8 {
                    if self.line() {
                        self.byte |= 1 << self.bits;
                    }
                    self.bits += 1;
                }
                self.clock = true;
            }
            LineOp::DataLow => {
                let before: bool = self.line();
                self.data = false;
                if self.clock && before {
                    assert!(!self.in_frame, "start inside a frame");
                    self.in_frame = true;
                    self.bits = 0;
                    self.byte = 0;
                    self.frame = Vec::new();
                }
            }
            LineOp::DataHigh => {
                let before: bool = self.line();
                self.data = true;
                if self.clock && !before && self.line() {
                    assert!(self.in_frame, "stop outside a frame");
                    self.in_frame = false;
                    self.frames.push(self.frame.clone());
                }
            }
            LineOp::SampleAck => {
                assert!(self.clock, "acknowledge sampled with the clock low");
                assert!(!self.line(), "byte not acknowledged");
                self.acks_seen += 1;
            }
            LineOp::DelayUs(_) => {}
        }
    }

    fn receive(ops: &[LineOp]) -> Receiver {
        let mut receiver: Receiver = Receiver::new();
        for op in ops {
            receiver.take(*op);
        }
        receiver
    }
}

fn bit(high: bool) -> Vec<LineOp> {
    vec![
        LineOp::ClockLow,
        LineOp::DelayUs(100),
        if high { LineOp::DataHigh } else { LineOp::DataLow },
        LineOp::DelayUs(100),
        LineOp::ClockHigh,
        LineOp::DelayUs(100),
    ]
}

fn byte(value: u8) -> Vec<LineOp> {
    let mut ops: Vec<LineOp> = Vec::new();
    for i in 0u32..8 {
        ops.extend(bit(value >> i & 1 == 1));
    }
    ops.extend(vec![
        LineOp::ClockLow,
        LineOp::DataHigh,
        LineOp::DelayUs(100),
        LineOp::ClockHigh,
        LineOp::DelayUs(100),
        LineOp::SampleAck,
        LineOp::DataLow,
        LineOp::DelayUs(100),
        LineOp::ClockLow,
        LineOp::DelayUs(100),
    ]);
    ops
}

fn start() -> Vec<LineOp> {
    vec![LineOp::DataLow, LineOp::DelayUs(100)]
}

fn stop() -> Vec<LineOp> {
    vec![
        LineOp::DataLow,
        LineOp::DelayUs(100),
        LineOp::ClockHigh,
        LineOp::DelayUs(100),
        LineOp::DataHigh,
        LineOp::DelayUs(100),
    ]
}

#[test]
fn the_protocol_constants() {
    assert_eq!(DATA_COMMAND, 0x40);
    assert_eq!(ADDRESS_COMMAND, 0xC0);
    assert_eq!(CONTROL_COMMAND, 0x8F);
    assert_eq!(BIT_DELAY_US, 100);
}

#[test]
fn a_new_driver_has_nothing_pending() {
    let mut display: SevenSegment = SevenSegment::new();
    assert_eq!(display.take_ops(), Vec::<LineOp>::new());
}

#[test]
fn start_pulls_the_data_line_low() {
    let mut display: SevenSegment = SevenSegment::new();
    display.start();
    assert_eq!(display.take_ops(), start());
}

#[test]
fn stop_raises_the_clock_then_the_data_line() {
    let mut display: SevenSegment = SevenSegment::new();
    display.stop();
    assert_eq!(display.take_ops(), stop());
}

#[test]
fn a_bit_delay_is_one_operation() {
    let mut display: SevenSegment = SevenSegment::new();
    display.bit_delay();
    display.bit_delay();
    assert_eq!(display.take_ops(), vec![LineOp::DelayUs(100), LineOp::DelayUs(100)]);
}

#[test]
fn taking_empties_the_driver() {
    let mut display: SevenSegment = SevenSegment::new();
    display.start();
    display.stop();
    let mut expected: Vec<LineOp> = start();
    expected.extend(stop());
    assert_eq!(display.take_ops(), expected);
    assert_eq!(display.take_ops(), Vec::<LineOp>::new());
}

#[test]
fn an_update_is_three_frames() {
    let mut display: SevenSegment = SevenSegment::new();
    display.set_segments([0x06, 0xDB, 0x4F, 0x66]);
    let mut expected: Vec<LineOp> = Vec::new();
    expected.extend(start());
    expected.extend(byte(0x40));
    expected.extend(stop());
    expected.extend(start());
    expected.extend(byte(0xC0));
    expected.extend(byte(0x06));
    expected.extend(byte(0xDB));
    expected.extend(byte(0x4F));
    expected.extend(byte(0x66));
    expected.extend(stop());
    expected.extend(start());
    expected.extend(byte(0x8F));
    expected.extend(stop());
    let ops: Vec<LineOp> = display.take_ops();
    assert_eq!(ops.len(), 430);
    assert_eq!(ops, expected);
}

#[test]
fn bits_go_out_least_significant_first() {
    let mut display: SevenSegment = SevenSegment::new();
    display.set_segments([0x01, 0x80, 0x00, 0xFF]);
    let ops: Vec<LineOp> = display.take_ops();
    // First frame: start, then the data command 0x40, whose only set bit is
    // bit 6.
    let command: &[LineOp] = &ops[2..2 + 48];
    for i in 0usize..8 {
        let level: LineOp = command[6 * i + 2];
        assert_eq!(level, if i == 6 { LineOp::DataHigh } else { LineOp::DataLow });
    }
    // Second frame: its first segment byte, 0x01, starts after the stop of
    // the first frame, a start and the address byte.
    let first: usize = 2 + 58 + 6 + 2 + 58;
    assert_eq!(ops[first + 2], LineOp::DataHigh);
    for i in 1usize..8 {
        assert_eq!(ops[first + 6 * i + 2], LineOp::DataLow);
    }
    let second: usize = first + 58;
    for i in 0usize..7 {
        assert_eq!(ops[second + 6 * i + 2], LineOp::DataLow);
    }
    assert_eq!(ops[second + 6 * 7 + 2], LineOp::DataHigh);
}

#[test]
fn the_display_receives_what_was_sent() {
    let samples: [[u8; 4]; 5] = [
        [0x00, 0x00, 0x00, 0x00],
        [0x06, 0xDB, 0x4F, 0x66],
        [0xFF, 0xFF, 0xFF, 0xFF],
        [0x01, 0x02, 0x40, 0x80],
        [0x7F, 0x79, 0x79, 0x73],
    ];
    for segments in samples {
        let mut display: SevenSegment = SevenSegment::new();
        display.set_segments(segments);
        let receiver: Receiver = Receiver::receive(&display.take_ops());
        assert_eq!(
            receiver.frames,
            vec![
                vec![0x40],
                vec![0xC0, segments[0], segments[1], segments[2], segments[3]],
                vec![0x8F],
            ]
        );
        assert!(!receiver.in_frame);
        assert!(receiver.clock && receiver.data);
        assert_eq!(receiver.acks_seen, 7);
    }
}

#[test]
fn every_byte_value_arrives() {
    for value in 0u16..256 {
        let mut display: SevenSegment = SevenSegment::new();
        display.set_segments([value as u8, !(value as u8), 0, value as u8]);
        let receiver: Receiver = Receiver::receive(&display.take_ops());
        assert_eq!(receiver.frames[1], vec![0xC0, value as u8, !(value as u8), 0, value as u8]);
    }
}

#[test]
fn updates_queue_up_in_order() {
    let mut display: SevenSegment = SevenSegment::new();
    display.set_segments([1, 2, 3, 4]);
    display.set_segments([5, 6, 7, 8]);
    let ops: Vec<LineOp> = display.take_ops();
    assert_eq!(ops.len(), 2 * 430);
    let receiver: Receiver = Receiver::receive(&ops);
    assert_eq!(
        receiver.frames,
        vec![
            vec![0x40],
            vec![0xC0, 1, 2, 3, 4],
            vec![0x8F],
            vec![0x40],
            vec![0xC0, 5, 6, 7, 8],
            vec![0x8F],
        ]
    );
}

#[test]
fn the_data_line_changes_only_while_the_clock_is_low_inside_a_byte() {
    let mut display: SevenSegment = SevenSegment::new();
    display.set_segments([0xA5, 0x5A, 0x0F, 0xF0]);
    let ops: Vec<LineOp> = display.take_ops();
    let mut clock: bool = true;
    let mut starts: usize = 0;
    let mut stops: usize = 0;
    let mut acking: bool = false;
    for (i, op) in ops.iter().enumerate() {
        match op {
            LineOp::ClockLow => clock = false,
            LineOp::ClockHigh => clock = true,
            LineOp::SampleAck => acking = true,
            LineOp::DataLow => {
                if clock && !acking {
                    starts += 1;
                    assert_eq!(ops[i + 1], LineOp::DelayUs(100));
                }
                acking = false;
            }
            LineOp::DataHigh => {
                if clock {
                    stops += 1;
                }
            }
            LineOp::DelayUs(_) => {}
        }
    }
    assert_eq!(starts, 3);
    assert_eq!(stops, 3);
}
