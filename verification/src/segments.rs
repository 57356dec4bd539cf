//! Digits of the four-digit display and the segment patterns that show them.
//!
//! A digit value is one of the ten digits or `BLANK`. Four of them, from the
//! left, are what the display shows: minutes in the first two places, seconds
//! in the last two.

use crate::countdown::{Time, MAX_PAIR};
use vstd::prelude::*;

verus! {

/// Digit value that lights no segment.
pub const BLANK: u8 = 10;

/// Bit of a display byte that lights the separator between minutes and
/// seconds. Only the second place of the display has one.
pub const SEPARATOR: u8 = 0x80;

/// Key indices run from 0 up to, but not including, this.
pub const KEY_COUNT: u8 = 12;

/// The segment pattern of each digit value, by value: the ten digits, then
/// the blank. Bit 0 is the top segment, the bits go round clockwise, bit 6 is
/// the middle bar.
pub open spec fn segment_table() -> Seq<u8> {
    seq![0x3Fu8, 0x06u8, 0x5Bu8, 0x4Fu8, 0x66u8, 0x6Du8, 0x7Du8, 0x07u8, 0x7Fu8, 0x6Fu8, 0x00u8]
}

/// Every one of four places holds a digit or the blank.
pub open spec fn is_digits(digits: [u8; 4]) -> bool {
    forall|i: int| 0 <= i < 4 ==> #[trigger] digits[i] <= BLANK
}

/// What a place counts for in a number: the blank counts as zero.
pub open spec fn place_value(digit: u8) -> int {
    if digit == BLANK {
        0
    } else {
        digit as int
    }
}

/// The digit that a key enters: keys are labelled from one where their
/// indices count from zero, and past nine the digits start again at zero.
pub open spec fn spec_key_digit(key: u8) -> u8 {
    ((key + 1) % 10) as u8
}

/// The four digits that show a time.
pub open spec fn spec_time_digits(time: Time) -> [u8; 4] {
    [time.minutes / 10, time.minutes % 10, time.seconds / 10, time.seconds % 10]
}

/// Whether the places from the left up to and including `i` all hold zero,
/// and `i` is not the last place: such a zero is not shown.
pub open spec fn is_leading_zero(digits: [u8; 4], i: int) -> bool {
    &&& 0 <= i < 3
    &&& forall|j: int| 0 <= j <= i ==> digits[j] == 0
}

/// The digits with every leading zero replaced by the blank.
pub open spec fn spec_blank_leading_zeros(digits: [u8; 4]) -> [u8; 4] {
    [
        if digits[0] == 0 { BLANK } else { digits[0] },
        if digits[0] == 0 && digits[1] == 0 { BLANK } else { digits[1] },
        if digits[0] == 0 && digits[1] == 0 && digits[2] == 0 { BLANK } else { digits[2] },
        digits[3],
    ]
}

/// The four bytes that show four digit values.
pub open spec fn spec_render(digits: [u8; 4]) -> [u8; 4] {
    [
        segment_table()[digits[0] as int],
        segment_table()[digits[1] as int] | SEPARATOR,
        segment_table()[digits[2] as int],
        segment_table()[digits[3] as int],
    ]
}

/// The time that four keyed places stand for.
pub open spec fn spec_compose_time(digits: [u8; 4]) -> Time {
    Time {
        minutes: (place_value(digits[0]) * 10 + place_value(digits[1])) as u8,
        seconds: (place_value(digits[2]) * 10 + place_value(digits[3])) as u8,
    }
}

/// The leftmost place that is blank, or 4 where none is.
pub open spec fn leftmost_blank(digits: [u8; 4]) -> int {
    if digits[0] == BLANK {
        0
    } else if digits[1] == BLANK {
        1
    } else if digits[2] == BLANK {
        2
    } else if digits[3] == BLANK {
        3
    } else {
        4
    }
}

/// The places after one more digit is keyed in. While a place is blank the
/// digit goes into the leftmost blank one. Once none is, every digit moves
/// one place left, the oldest drops out and the new one takes the right end.
pub open spec fn spec_push_digit(digits: [u8; 4], digit: u8) -> [u8; 4] {
    let at = leftmost_blank(digits);
    if at == 4 {
        [digits[1], digits[2], digits[3], digit]
    } else {
        [
            if at == 0 { digit } else { digits[0] },
            if at == 1 { digit } else { digits[1] },
            if at == 2 { digit } else { digits[2] },
            if at == 3 { digit } else { digits[3] },
        ]
    }
}

/// The segment pattern that shows `digit`.
pub fn segment_pattern(digit: u8) -> (pattern: u8)
    requires
        digit <= BLANK,
    ensures
        pattern == segment_table()[digit as int],
{
    let table: [u8; 11] = [0x3F, 0x06, 0x5B, 0x4F, 0x66, 0x6D, 0x7D, 0x07, 0x7F, 0x6F, 0x00];
    table[digit as usize]
}

/// The digit that the key with index `key` enters.
pub fn key_digit(key: u8) -> (digit: u8)
    requires
        key < KEY_COUNT,
    ensures
        digit == spec_key_digit(key),
        digit <= 9,
{
    (key + 1) % 10
}

/// The four digits that show a time: tens and ones of the minutes, then tens
/// and ones of the seconds.
pub fn time_digits(time: Time) -> (digits: [u8; 4])
    requires
        time.minutes <= MAX_PAIR,
        time.seconds <= MAX_PAIR,
    ensures
        digits == spec_time_digits(time),
        forall|i: int| 0 <= i < 4 ==> #[trigger] digits[i] <= 9,
        10 * digits[0] + digits[1] == time.minutes,
        10 * digits[2] + digits[3] == time.seconds,
{
    [time.minutes / 10, time.minutes % 10, time.seconds / 10, time.seconds % 10]
}

/// Replaces the zeros that lead a four-digit number by blanks. The last
/// digit is never blanked, so that zero itself still shows one digit.
pub fn blank_leading_zeros(digits: [u8; 4]) -> (blanked: [u8; 4])
    ensures
        blanked == spec_blank_leading_zeros(digits),
        forall|i: int|
            0 <= i < 4 ==> #[trigger] blanked[i] == (if is_leading_zero(digits, i) {
                BLANK
            } else {
                digits[i]
            }),
{
    let mut blanked = digits;
    let mut i: usize = 0;
    while i < 3 && digits[i] == 0
        invariant
            0 <= i <= 3,
            forall|j: int| 0 <= j < i ==> digits[j] == 0,
            forall|j: int| 0 <= j < i ==> #[trigger] blanked[j] == BLANK,
            forall|j: int| i <= j < 4 ==> #[trigger] blanked[j] == digits[j],
        decreases 3 - i,
    {
        blanked[i] = BLANK;
        i += 1;
    }
    assert(blanked =~= spec_blank_leading_zeros(digits));
    blanked
}

/// The four bytes that show four digit values: the pattern of each, and on
/// the second the separator besides. The separator bit is set in the second
/// byte and in no other.
pub fn render(digits: [u8; 4]) -> (segments: [u8; 4])
    requires
        is_digits(digits),
    ensures
        segments == spec_render(digits),
        segments[1] & SEPARATOR == SEPARATOR,
        forall|i: int| 0 <= i < 4 && i != 1 ==> #[trigger] segments[i] & SEPARATOR == 0,
{
    proof {
        lemma_render_separator(digits);
    }
    [
        segment_pattern(digits[0]),
        segment_pattern(digits[1]) | SEPARATOR,
        segment_pattern(digits[2]),
        segment_pattern(digits[3]),
    ]
}

/// The time that four keyed places stand for: the first two are the minutes,
/// the last two the seconds, and a blank place counts as zero.
pub fn compose_time(digits: [u8; 4]) -> (time: Time)
    requires
        is_digits(digits),
    ensures
        time == spec_compose_time(digits),
        time.minutes == place_value(digits[0]) * 10 + place_value(digits[1]),
        time.seconds == place_value(digits[2]) * 10 + place_value(digits[3]),
        time.minutes <= MAX_PAIR,
        time.seconds <= MAX_PAIR,
{
    Time {
        minutes: pair_value(digits[0], digits[1]),
        seconds: pair_value(digits[2], digits[3]),
    }
}

/// The number that two places show side by side.
fn pair_value(tens: u8, ones: u8) -> (value: u8)
    requires
        tens <= BLANK,
        ones <= BLANK,
    ensures
        value == place_value(tens) * 10 + place_value(ones),
        value <= MAX_PAIR,
{
    let high: u8 = if tens == BLANK { 0 } else { tens * 10 };
    let low: u8 = if ones == BLANK { 0 } else { ones };
    high + low
}

/// Keys one more digit into the four places.
pub fn push_digit(digits: [u8; 4], digit: u8) -> (pushed: [u8; 4])
    requires
        is_digits(digits),
        digit <= 9,
    ensures
        pushed == spec_push_digit(digits, digit),
        is_digits(pushed),
{
    let mut at: usize = 0;
    while at < 4 && digits[at] != BLANK
        invariant
            0 <= at <= 4,
            forall|j: int| 0 <= j < at ==> digits[j] != BLANK,
        decreases 4 - at,
    {
        at += 1;
    }
    assert(at == leftmost_blank(digits));
    if at < 4 {
        let mut pushed = digits;
        pushed[at] = digit;
        assert(pushed =~= spec_push_digit(digits, digit));
        pushed
    } else {
        [digits[1], digits[2], digits[3], digit]
    }
}

/// No pattern of the table lights the separator.
pub proof fn lemma_table_leaves_separator_dark(digit: u8)
    requires
        digit <= BLANK,
    ensures
        segment_table()[digit as int] & SEPARATOR == 0,
{
    assert(0x3Fu8 & 0x80u8 == 0 && 0x06u8 & 0x80u8 == 0 && 0x5Bu8 & 0x80u8 == 0 && 0x4Fu8 & 0x80u8
        == 0 && 0x66u8 & 0x80u8 == 0 && 0x6Du8 & 0x80u8 == 0 && 0x7Du8 & 0x80u8 == 0 && 0x07u8
        & 0x80u8 == 0 && 0x7Fu8 & 0x80u8 == 0 && 0x6Fu8 & 0x80u8 == 0 && 0x00u8 & 0x80u8 == 0)
        by (bit_vector);
}

/// Of the four bytes that `spec_render` gives, the second has the separator
/// bit set and the others have it clear; and with that bit masked out each
/// byte is the table's pattern of its digit.
pub proof fn lemma_render_separator(digits: [u8; 4])
    requires
        is_digits(digits),
    ensures
        spec_render(digits)[1] & SEPARATOR == SEPARATOR,
        forall|i: int| 0 <= i < 4 && i != 1 ==> #[trigger] spec_render(digits)[i] & SEPARATOR == 0,
        forall|i: int|
            0 <= i < 4 ==> #[trigger] spec_render(digits)[i] & !SEPARATOR
                == segment_table()[digits[i] as int],
{
    let rendered = spec_render(digits);
    assert forall|i: int| 0 <= i < 4 implies #[trigger] rendered[i] & !SEPARATOR
        == segment_table()[digits[i] as int] && (i != 1 ==> rendered[i] & SEPARATOR == 0) by {
        let pattern = segment_table()[digits[i] as int];
        lemma_table_leaves_separator_dark(digits[i]);
        assert(pattern & !0x80u8 == pattern && (pattern | 0x80u8) & !0x80u8 == pattern)
            by (bit_vector)
            requires
                pattern & 0x80u8 == 0,
        ;
    }
    let second = segment_table()[digits[1] as int];
    assert((second | 0x80u8) & 0x80u8 == 0x80u8) by (bit_vector);
}

/// Two digit values share a pattern only if they are the same value: what
/// the display shows tells the values apart, the blank included.
pub proof fn lemma_patterns_differ(a: u8, b: u8)
    requires
        a <= BLANK,
        b <= BLANK,
        segment_table()[a as int] == segment_table()[b as int],
    ensures
        a == b,
{
}

/// What is shown reads back as the time. The digits of a time, with their
/// leading zeros blanked, are four digit values, and keyed in as they stand
/// they would give the same time again: blanking hides zeros and nothing
/// else.
pub proof fn lemma_shown_time_reads_back(time: Time)
    requires
        time.wf(),
    ensures
        is_digits(spec_blank_leading_zeros(spec_time_digits(time))),
        spec_compose_time(spec_blank_leading_zeros(spec_time_digits(time))) == time,
{
    let digits = spec_time_digits(time);
    let blanked = spec_blank_leading_zeros(digits);
    assert(digits[0] <= 9 && digits[1] <= 9 && digits[2] <= 9 && digits[3] <= 9);
    assert forall|i: int| 0 <= i < 4 implies #[trigger] blanked[i] <= BLANK && place_value(
        blanked[i],
    ) == digits[i] by {}
    assert(place_value(blanked[0]) == digits[0] && place_value(blanked[1]) == digits[1]
        && place_value(blanked[2]) == digits[2] && place_value(blanked[3]) == digits[3]);
}

} // verus!
