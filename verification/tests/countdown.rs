use microwave::countdown::Time;

#[test]
fn a_second_comes_off() {
    assert_eq!(Time { minutes: 3, seconds: 12 }.decrement(), Time { minutes: 3, seconds: 11 });
    assert_eq!(Time { minutes: 0, seconds: 59 }.decrement(), Time { minutes: 0, seconds: 58 });
}

#[test]
fn zero_seconds_borrow_a_minute() {
    assert_eq!(Time { minutes: 1, seconds: 0 }.decrement(), Time { minutes: 0, seconds: 59 });
    assert_eq!(Time { minutes: 99, seconds: 0 }.decrement(), Time { minutes: 98, seconds: 59 });
}

#[test]
fn the_last_second_leaves_nothing() {
    let left: Time = Time { minutes: 0, seconds: 1 }.decrement();
    assert_eq!(left, Time { minutes: 0, seconds: 0 });
    assert!(left.is_zero());
}

#[test]
fn seconds_past_the_clock_count_down_too() {
    assert_eq!(Time { minutes: 0, seconds: 99 }.decrement(), Time { minutes: 0, seconds: 98 });
    assert_eq!(Time { minutes: 2, seconds: 60 }.decrement(), Time { minutes: 2, seconds: 59 });
}

#[test]
fn only_nothing_is_zero() {
    assert!(Time { minutes: 0, seconds: 0 }.is_zero());
    assert!(!Time { minutes: 0, seconds: 1 }.is_zero());
    assert!(!Time { minutes: 1, seconds: 0 }.is_zero());
}

#[test]
fn a_countdown_takes_as_many_seconds_as_it_holds() {
    let mut left: Time = Time { minutes: 2, seconds: 5 };
    let mut taken: u32 = 0;
    while !left.is_zero() {
        assert!(left.seconds <= 59 && left.minutes <= 99);
        left = left.decrement();
        taken += 1;
    }
    assert_eq!(taken, 125);
}
