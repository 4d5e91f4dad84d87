use chrono::Datelike;
use rust_iss::time::{Date, Timestamp, EPOCH_DAY, MAX_DAY, MAX_SECONDS, MIN_DAY, MIN_SECONDS};

fn at(secs: i64, nanos: u32) -> Timestamp {
    Timestamp::from_parts(secs, nanos).unwrap()
}

#[test]
fn range_of_seconds_is_that_of_chrono() {
    assert_eq!(chrono::DateTime::<chrono::Utc>::MIN_UTC.timestamp(), MIN_SECONDS);
    assert_eq!(chrono::DateTime::<chrono::Utc>::MAX_UTC.timestamp(), MAX_SECONDS);
    assert!(chrono::DateTime::from_timestamp(MIN_SECONDS, 0).is_some());
    assert!(chrono::DateTime::from_timestamp(MIN_SECONDS - 1, 0).is_none());
    assert!(chrono::DateTime::from_timestamp(MAX_SECONDS, 999_999_999).is_some());
    assert!(chrono::DateTime::from_timestamp(MAX_SECONDS + 1, 0).is_none());
}

#[test]
fn range_of_days_is_that_of_chrono() {
    assert_eq!(chrono::NaiveDate::MIN.num_days_from_ce(), MIN_DAY);
    assert_eq!(chrono::NaiveDate::MAX.num_days_from_ce(), MAX_DAY);
    assert_eq!(
        chrono::NaiveDate::from_ymd_opt(1970, 1, 1).unwrap().num_days_from_ce(),
        EPOCH_DAY
    );
    assert!(chrono::NaiveDate::from_num_days_from_ce_opt(MIN_DAY - 1).is_none());
    assert!(chrono::NaiveDate::from_num_days_from_ce_opt(MAX_DAY + 1).is_none());
}

#[test]
fn parts_within_range_are_taken() {
    let t = at(12, 34);
    assert_eq!(t.seconds(), 12);
    assert_eq!(t.nanos(), 34);
    assert!(Timestamp::from_parts(MIN_SECONDS, 0).is_some());
    assert!(Timestamp::from_parts(MAX_SECONDS, 999_999_999).is_some());
}

#[test]
fn parts_out_of_range_are_refused() {
    assert!(Timestamp::from_parts(MIN_SECONDS - 1, 0).is_none());
    assert!(Timestamp::from_parts(MAX_SECONDS + 1, 0).is_none());
    assert!(Timestamp::from_parts(0, 2_000_000_000).is_none());
    assert!(Timestamp::from_parts(MAX_SECONDS, 1_000_000_000).is_none());
    assert!(Timestamp::from_parts(i64::MAX, 0).is_none());
    assert!(Timestamp::from_parts(i64::MIN, 1_500_000_000).is_none());
}

#[test]
fn leap_nanoseconds_carry_into_the_next_second() {
    let t = at(59, 1_250_000_000);
    assert_eq!(t.seconds(), 60);
    assert_eq!(t.nanos(), 250_000_000);
    let u = at(MIN_SECONDS - 1, 1_000_000_000);
    assert_eq!(u.seconds(), MIN_SECONDS);
    assert_eq!(u.nanos(), 0);
}

#[test]
fn unix_seconds_within_range() {
    assert_eq!(Timestamp::from_unix_seconds(0).unwrap().seconds(), 0);
    assert_eq!(Timestamp::from_unix_seconds(MAX_SECONDS).unwrap().seconds(), MAX_SECONDS);
    assert_eq!(Timestamp::from_unix_seconds(MIN_SECONDS).unwrap().nanos(), 0);
    assert!(Timestamp::from_unix_seconds(MAX_SECONDS + 1).is_none());
    assert!(Timestamp::from_unix_seconds(MIN_SECONDS - 1).is_none());
}

#[test]
fn milliseconds_between_two_instants() {
    assert_eq!(at(160, 0).millis_between(&at(100, 0)), 60_000);
    assert_eq!(at(100, 0).millis_between(&at(160, 0)), -60_000);
    assert_eq!(at(5, 0).millis_between(&at(5, 0)), 0);
    assert_eq!(at(1, 500_000_000).millis_between(&at(0, 0)), 1_500);
}

#[test]
fn milliseconds_round_towards_zero() {
    assert_eq!(at(0, 1_999_999).millis_between(&at(0, 0)), 1);
    assert_eq!(at(0, 0).millis_between(&at(0, 1_999_999)), -1);
    assert_eq!(at(0, 999_999).millis_between(&at(0, 0)), 0);
    assert_eq!(at(0, 0).millis_between(&at(0, 999_999)), 0);
    assert_eq!(at(-1, 999_000_000).millis_between(&at(0, 0)), -1);
}

#[test]
fn milliseconds_agree_with_chrono() {
    let cases = [(0i64, 0u32, 0i64, 0u32), (10, 5_000_000, 3, 999_999_999), (-7, 1, 7, 2), (3, 999_999_999, 10, 5_000_000)];
    for (s2, n2, s1, n1) in cases {
        let later = chrono::DateTime::from_timestamp(s2, n2).unwrap();
        let earlier = chrono::DateTime::from_timestamp(s1, n1).unwrap();
        assert_eq!(at(s2, n2).millis_between(&at(s1, n1)), (later - earlier).num_milliseconds());
    }
}

#[test]
fn milliseconds_over_the_whole_range() {
    let whole = at(MAX_SECONDS, 999_999_999).millis_between(&at(MIN_SECONDS, 0));
    assert_eq!(whole, (MAX_SECONDS - MIN_SECONDS) * 1000 + 999);
}

#[test]
fn instants_compare() {
    assert!(at(1, 0).same(&at(1, 0)));
    assert!(at(0, 1_000_000_000).same(&at(1, 0)));
    assert!(!at(1, 0).same(&at(1, 1)));
    assert!(at(1, 0).before(&at(1, 1)));
    assert!(at(0, 999_999_999).before(&at(1, 0)));
    assert!(!at(1, 0).before(&at(1, 0)));
    assert!(!at(2, 0).before(&at(1, 5)));
}

#[test]
fn day_of_an_instant() {
    assert_eq!(at(0, 0).date().day_number(), EPOCH_DAY);
    assert_eq!(at(86_399, 999_999_999).date().day_number(), EPOCH_DAY);
    assert_eq!(at(86_400, 0).date().day_number(), EPOCH_DAY + 1);
    assert_eq!(at(-1, 0).date().day_number(), EPOCH_DAY - 1);
    assert_eq!(at(-86_400, 0).date().day_number(), EPOCH_DAY - 1);
    assert_eq!(at(-86_401, 0).date().day_number(), EPOCH_DAY - 2);
    assert_eq!(at(MIN_SECONDS, 0).date().day_number(), MIN_DAY);
    assert_eq!(at(MAX_SECONDS, 0).date().day_number(), MAX_DAY);
    assert_eq!(at(1_704_164_645, 0).date().text(), "2024-01-02");
}

#[test]
fn days_by_number() {
    assert_eq!(Date::from_day_number(EPOCH_DAY).unwrap().text(), "1970-01-01");
    assert_eq!(Date::from_day_number(1).unwrap().text(), "0001-01-01");
    assert!(Date::from_day_number(MIN_DAY).is_some());
    assert!(Date::from_day_number(MAX_DAY).is_some());
    assert!(Date::from_day_number(MIN_DAY - 1).is_none());
    assert!(Date::from_day_number(MAX_DAY + 1).is_none());
}

#[test]
fn days_before_a_day() {
    let d = Date::from_day_number(EPOCH_DAY).unwrap();
    assert_eq!(d.minus_days(1).unwrap().text(), "1969-12-31");
    assert_eq!(d.minus_days(0).unwrap().day_number(), EPOCH_DAY);
    assert_eq!(d.minus_days(-31).unwrap().text(), "1970-02-01");
    assert!(d.minus_days(i64::MAX).is_none());
    assert!(d.minus_days(i64::MIN).is_none());
    let first = Date::from_day_number(MIN_DAY).unwrap();
    assert!(first.minus_days(1).is_none());
    assert!(first.minus_days(0).is_some());
}

#[test]
fn the_clock_reads_after_the_epoch() {
    let now = Timestamp::now();
    assert!(now.seconds() > 1_600_000_000);
    assert!(now.nanos() < 1_000_000_000);
    let later = Timestamp::now();
    assert!(!later.before(&now));
}
