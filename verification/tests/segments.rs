use microwave::countdown::Time;
use microwave::segments::{
    blank_leading_zeros, compose_time, key_digit, push_digit, render, segment_pattern, time_digits,
    BLANK, SEPARATOR,
};

#[test]
fn pattern_of_each_digit() {
    let expected: [u8; 11] = [
        0b0011_1111,
        0b0000_0110,
        0b0101_1011,
        0b0100_1111,
        0b0110_0110,
        0b0110_1101,
        0b0111_1101,
        0b0000_0111,
        0b0111_1111,
        0b0110_1111,
        0b0000_0000,
    ];
    for digit in 0u8..=10 {
        assert_eq!(segment_pattern(digit), expected[digit as usize]);
    }
}

#[test]
fn no_pattern_lights_the_separator() {
    for digit in 0u8..=10 {
        assert_eq!(segment_pattern(digit) & SEPARATOR, 0);
    }
}

#[test]
fn patterns_tell_digits_apart() {
    for a in 0u8..=10 {
        for b in 0u8..=10 {
            if a != b {
                assert_ne!(segment_pattern(a), segment_pattern(b));
            }
        }
    }
}

#[test]
fn keys_enter_their_labels() {
    let expected: [u8; 12] = [1, 2, 3, 4, 5, 6, 7, 8, 9, 0, 1, 2];
    for key in 0u8..12 {
        assert_eq!(key_digit(key), expected[key as usize]);
    }
}

#[test]
fn time_is_shown_as_four_digits() {
    assert_eq!(time_digits(Time { minutes: 12, seconds: 34 }), [1, 2, 3, 4]);
    assert_eq!(time_digits(Time { minutes: 0, seconds: 5 }), [0, 0, 0, 5]);
    assert_eq!(time_digits(Time { minutes: 99, seconds: 99 }), [9, 9, 9, 9]);
    assert_eq!(time_digits(Time { minutes: 7, seconds: 0 }), [0, 7, 0, 0]);
}

#[test]
fn leading_zeros_go_dark() {
    assert_eq!(blank_leading_zeros([0, 0, 0, 5]), [BLANK, BLANK, BLANK, 5]);
    assert_eq!(blank_leading_zeros([0, 0, 4, 5]), [BLANK, BLANK, 4, 5]);
    assert_eq!(blank_leading_zeros([0, 3, 0, 5]), [BLANK, 3, 0, 5]);
    assert_eq!(blank_leading_zeros([0, 3, 0, 0]), [BLANK, 3, 0, 0]);
}

#[test]
fn nothing_to_blank() {
    assert_eq!(blank_leading_zeros([1, 2, 3, 4]), [1, 2, 3, 4]);
    assert_eq!(blank_leading_zeros([1, 0, 0, 0]), [1, 0, 0, 0]);
}

#[test]
fn zero_keeps_its_last_digit() {
    assert_eq!(blank_leading_zeros([0, 0, 0, 0]), [10, 10, 10, 0]);
}

#[test]
fn blanking_stops_at_a_blank() {
    assert_eq!(blank_leading_zeros([0, BLANK, 0, 1]), [BLANK, BLANK, 0, 1]);
}

#[test]
fn render_sets_the_separator_on_the_second_byte_only() {
    let segments: [u8; 4] = render([1, 2, 3, 4]);
    assert_eq!(segments, [0x06, 0x5B | 0x80, 0x4F, 0x66]);
    let dark: [u8; 4] = render([BLANK, BLANK, BLANK, BLANK]);
    assert_eq!(dark, [0x00, 0x80, 0x00, 0x00]);
    for a in 0u8..=10 {
        for b in 0u8..=10 {
            let bytes: [u8; 4] = render([a, b, b, a]);
            assert_eq!(bytes[0] & 0x80, 0);
            assert_eq!(bytes[1] & 0x80, 0x80);
            assert_eq!(bytes[2] & 0x80, 0);
            assert_eq!(bytes[3] & 0x80, 0);
            assert_eq!(bytes[1] & 0x7F, segment_pattern(b));
        }
    }
}

#[test]
fn compose_reads_minutes_then_seconds() {
    assert_eq!(compose_time([1, 2, 3, 4]), Time { minutes: 12, seconds: 34 });
    assert_eq!(compose_time([0, 0, 0, 5]), Time { minutes: 0, seconds: 5 });
    assert_eq!(compose_time([9, 9, 9, 9]), Time { minutes: 99, seconds: 99 });
}

#[test]
fn compose_counts_a_blank_as_zero() {
    assert_eq!(compose_time([BLANK, BLANK, BLANK, BLANK]), Time { minutes: 0, seconds: 0 });
    assert_eq!(compose_time([BLANK, 5, BLANK, 7]), Time { minutes: 5, seconds: 7 });
    assert_eq!(compose_time([5, BLANK, 7, BLANK]), Time { minutes: 50, seconds: 70 });
    assert_eq!(compose_time([1, BLANK, BLANK, BLANK]), Time { minutes: 10, seconds: 0 });
}

#[test]
fn compose_agrees_with_its_formula_everywhere() {
    let value = |d: u8| -> u8 { if d == 10 { 0 } else { d } };
    for a in 0u8..=10 {
        for b in 0u8..=10 {
            for c in 0u8..=10 {
                for d in 0u8..=10 {
                    let time: Time = compose_time([a, b, c, d]);
                    assert_eq!(time.minutes, value(a) * 10 + value(b));
                    assert_eq!(time.seconds, value(c) * 10 + value(d));
                }
            }
        }
    }
}

#[test]
fn digits_fill_from_the_left() {
    let none: [u8; 4] = [BLANK; 4];
    let one: [u8; 4] = push_digit(none, 1);
    assert_eq!(one, [1, BLANK, BLANK, BLANK]);
    let two: [u8; 4] = push_digit(one, 2);
    assert_eq!(two, [1, 2, BLANK, BLANK]);
    let three: [u8; 4] = push_digit(two, 3);
    assert_eq!(three, [1, 2, 3, BLANK]);
    let four: [u8; 4] = push_digit(three, 4);
    assert_eq!(four, [1, 2, 3, 4]);
}

#[test]
fn a_full_buffer_shifts_left() {
    assert_eq!(push_digit([1, 2, 3, 4], 5), [2, 3, 4, 5]);
    assert_eq!(push_digit([0, 0, 0, 0], 9), [0, 0, 0, 9]);
}

#[test]
fn a_zero_digit_fills_a_place() {
    assert_eq!(push_digit([BLANK; 4], 0), [0, BLANK, BLANK, BLANK]);
    assert_eq!(push_digit([0, BLANK, BLANK, BLANK], 0), [0, 0, BLANK, BLANK]);
}
