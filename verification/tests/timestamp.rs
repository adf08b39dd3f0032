use std::convert::TryFrom;
use swaply_identity::timestamp::{CalendarTime, OutOfRange, RegistrationTimestamp};
use time::Timespec;

fn at(sec: i64, nsec: i32) -> RegistrationTimestamp {
    RegistrationTimestamp::from(Timespec { sec, nsec })
}

#[test]
fn timestamp_from_native_keeps_both_parts() {
    let t = at(1_600_000_000, 123_456_789);
    assert_eq!(t.seconds(), 1_600_000_000);
    assert_eq!(t.nanoseconds(), 123_456_789);
    let odd = at(-5, -7);
    assert_eq!(odd.seconds(), -5);
    assert_eq!(odd.nanoseconds(), -7);
}

#[test]
fn timestamp_to_native_is_lossless() {
    let native = Timespec { sec: 42, nsec: 999_999_999 };
    let t = RegistrationTimestamp::from(native);
    assert_eq!(Timespec::from(&t), native);
    assert_eq!(Timespec::from(t), native);
}

#[test]
fn timestamp_default_is_the_epoch() {
    let t = RegistrationTimestamp::default();
    assert_eq!(t.seconds(), 0);
    assert_eq!(t.nanoseconds(), 0);
}

#[test]
fn timestamp_equality_ignores_what_lies_below_the_millisecond() {
    assert_eq!(at(10, 123_000_000), at(10, 123_999_999));
    assert_eq!(at(10, 0), at(10, 999_999));
    assert_eq!(at(10, 123_456_789), at(10, 123_000_000));
}

#[test]
fn timestamp_equality_tells_milliseconds_and_seconds_apart() {
    assert_ne!(at(10, 123_999_999), at(10, 124_000_000));
    assert_ne!(at(10, 999_999), at(10, 1_000_000));
    assert_ne!(at(10, 5), at(11, 5));
}

#[test]
fn timestamp_equality_rounds_negative_nanoseconds_towards_zero() {
    assert_eq!(at(3, -1), at(3, 999_999));
    assert_eq!(at(3, -999_999), at(3, 0));
    assert_ne!(at(3, -1_000_000), at(3, 0));
    assert_eq!(at(3, -1_000_000), at(3, -1_999_999));
}

#[test]
fn timestamp_from_calendar_time_splits_seconds_and_nanoseconds() {
    let t = RegistrationTimestamp::try_from(CalendarTime {
        seconds: 1_431_648_000,
        subsec_nanos: 987_654_321,
    })
    .unwrap();
    assert_eq!(t.seconds(), 1_431_648_000);
    assert_eq!(t.nanoseconds(), 987_654_321);
}

#[test]
fn timestamp_from_calendar_time_takes_a_leap_second() {
    let t = RegistrationTimestamp::try_from(CalendarTime { seconds: 7, subsec_nanos: 1_999_999_999 })
        .unwrap();
    assert_eq!(t.nanoseconds(), 1_999_999_999);
    let most = RegistrationTimestamp::try_from(CalendarTime { seconds: 7, subsec_nanos: 2_147_483_647 })
        .unwrap();
    assert_eq!(most.nanoseconds(), i32::MAX);
}

#[test]
fn timestamp_from_calendar_time_out_of_range() {
    let r = RegistrationTimestamp::try_from(CalendarTime { seconds: 7, subsec_nanos: 2_147_483_648 });
    assert_eq!(r.unwrap_err(), OutOfRange { subsec_nanos: 2_147_483_648 });
    let r = RegistrationTimestamp::try_from(CalendarTime { seconds: 7, subsec_nanos: u32::MAX });
    assert_eq!(r.unwrap_err(), OutOfRange { subsec_nanos: u32::MAX });
}

#[test]
fn timestamp_calendar_time_round_trip_is_exact() {
    for (seconds, subsec_nanos) in
        [(0i64, 0u32), (1, 1), (-86_400, 500), (i64::MAX, 999_999_999), (i64::MIN, i32::MAX as u32)]
    {
        let time = CalendarTime { seconds, subsec_nanos };
        let t = RegistrationTimestamp::try_from(time).unwrap();
        assert_eq!(CalendarTime::from(&t), time);
        assert_eq!(CalendarTime::from(t), time);
        let again = RegistrationTimestamp::try_from(CalendarTime::from(t)).unwrap();
        assert_eq!(again.seconds(), t.seconds());
        assert_eq!(again.nanoseconds(), t.nanoseconds());
    }
}

#[test]
fn timestamp_calendar_time_of_negative_nanoseconds_is_the_unsigned_number() {
    assert_eq!(
        CalendarTime::from(at(9, -1)),
        CalendarTime { seconds: 9, subsec_nanos: u32::MAX }
    );
    assert_eq!(
        CalendarTime::from(at(9, i32::MIN)),
        CalendarTime { seconds: 9, subsec_nanos: 2_147_483_648 }
    );
}
