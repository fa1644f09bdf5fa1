use game_state::clock::Timestamp;

fn at(sec: i64, nsec: i32) -> Timestamp {
    Timestamp { sec, nsec }
}

#[test]
fn whole_microseconds_between_two_times() {
    assert_eq!(at(10, 0).micros_until(&at(10, 0)), 0);
    assert_eq!(at(10, 0).micros_until(&at(10, 1_000)), 1);
    assert_eq!(at(10, 0).micros_until(&at(11, 0)), 1_000_000);
    assert_eq!(at(10, 500_000_000).micros_until(&at(11, 250_000_000)), 750_000);
    assert_eq!(at(1, 999_999_999).micros_until(&at(2, 0)), 0);
    assert_eq!(at(1, 999_999_000).micros_until(&at(2, 0)), 1);
    assert_eq!(at(0, 0).micros_until(&at(0, 16_666_667)), 16_666);
}

#[test]
fn a_clock_that_went_back_gives_a_negative_span() {
    assert_eq!(at(11, 0).micros_until(&at(10, 0)), -1_000_000);
    assert_eq!(at(10, 1_000).micros_until(&at(10, 0)), -1);
    // Rounded towards zero, not down.
    assert_eq!(at(10, 1_999).micros_until(&at(10, 0)), -1);
    assert_eq!(at(10, 999).micros_until(&at(10, 0)), 0);
    assert_eq!(at(-5, 0).micros_until(&at(-6, 500_000_000)), -500_000);
}

#[test]
fn a_span_that_does_not_fit_is_zero() {
    assert_eq!(at(i64::MIN, 0).micros_until(&at(i64::MAX, 0)), 0);
    assert_eq!(at(i64::MAX, 0).micros_until(&at(i64::MIN, 0)), 0);
    assert_eq!(at(0, 0).micros_until(&at(i64::MAX, 0)), 0);
    // The largest span that fits, and the first that does not.
    let edge = i64::MAX / 1_000_000;
    let rest = (i64::MAX % 1_000_000) as i32 * 1_000;
    assert_eq!(at(0, 0).micros_until(&at(edge, rest)), i64::MAX);
    assert_eq!(at(0, 0).micros_until(&at(edge, rest + 999)), i64::MAX);
    assert_eq!(at(0, 0).micros_until(&at(edge, rest + 1_000)), 0);
}

#[test]
fn nanoseconds_outside_a_second_are_counted_as_given() {
    assert_eq!(at(0, 0).micros_until(&at(0, 2_000_000_000)), 2_000_000);
    assert_eq!(at(0, 0).micros_until(&at(0, -2_000_000_000)), -2_000_000);
    assert_eq!(at(0, i32::MIN).micros_until(&at(0, i32::MAX)), 4_294_967);
}

#[test]
fn the_wall_clock_reads_a_time_of_this_century() {
    let first = Timestamp::now();
    let second = Timestamp::now();
    assert!(first.nsec >= 0 && first.nsec < 1_000_000_000);
    assert!(second.nsec >= 0 && second.nsec < 1_000_000_000);
    // After 2020 and before 2100.
    assert!(first.sec > 1_577_836_800);
    assert!(first.sec < 4_102_444_800);
    // Two readings lie within a minute of each other.
    let apart = first.micros_until(&second);
    assert!(apart > -60_000_000 && apart < 60_000_000);
}
