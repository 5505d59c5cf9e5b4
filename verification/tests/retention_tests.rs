use delve::clock::{now_moment, now_rfc3339};
use delve::config::SessionRetention;
use delve::retention::{
    is_expired, parse_session_timestamp, retention_cutoff, subtract_months, CalendarDate, UtcMoment,
};

const HOUR: u64 = 3_600_000_000_000;

fn date(year: i32, month: u8, day: u8) -> CalendarDate {
    CalendarDate { year, month, day }
}

fn at(year: i32, month: u8, day: u8, hour: u64) -> UtcMoment {
    UtcMoment::from_utc(date(year, month, day), hour * HOUR)
}

#[test]
fn days_retention_cutoff() {
    let now = at(2026, 8, 25, 12);
    let cutoff = retention_cutoff(SessionRetention::Days(180), &now).expect("cutoff");
    assert_eq!(cutoff, at(2026, 2, 26, 12).unix_nanos);
}

#[test]
fn months_retention_uses_calendar_months() {
    let now = at(2026, 8, 25, 12);
    let cutoff = retention_cutoff(SessionRetention::Months(6), &now).expect("cutoff");
    assert_eq!(cutoff, at(2026, 2, 25, 12).unix_nanos);
    assert_eq!(subtract_months(date(2026, 8, 25), 6), date(2026, 2, 25));
}

#[test]
fn months_retention_clamps_end_of_month() {
    let now = at(2026, 3, 31, 10);
    let cutoff = retention_cutoff(SessionRetention::Months(1), &now).expect("cutoff");
    assert_eq!(cutoff, at(2026, 2, 28, 10).unix_nanos);
    assert_eq!(subtract_months(date(2024, 3, 31), 1), date(2024, 2, 29));
    assert_eq!(subtract_months(date(2026, 1, 15), 13), date(2024, 12, 15));
}

#[test]
fn never_retention_never_expires() {
    let now = at(2026, 8, 25, 12);
    assert!(retention_cutoff(SessionRetention::Never, &now).is_none());
    assert_eq!(is_expired("2020-01-01T00:00:00Z", SessionRetention::Never, &now), None);
}

#[test]
fn recently_updated_session_survives_retention() {
    let now = at(2026, 8, 25, 12);
    assert_eq!(is_expired("2026-08-24T00:00:00Z", SessionRetention::Days(30), &now), Some(false));
}

#[test]
fn untouched_old_session_is_purged() {
    let now = at(2026, 8, 25, 12);
    assert_eq!(is_expired("2020-01-01T00:00:00Z", SessionRetention::Days(30), &now), Some(true));
    assert_eq!(is_expired("not a time", SessionRetention::Days(30), &now), None);
}

#[test]
fn timestamps_and_clock_agree_on_unix_time() {
    assert_eq!(parse_session_timestamp("1970-01-01T00:00:00Z"), Some(0));
    assert_eq!(at(1970, 1, 1, 0).unix_nanos, 0);
    assert_eq!(
        parse_session_timestamp("2026-08-25T12:00:00Z"),
        Some(at(2026, 8, 25, 12).unix_nanos)
    );
    assert_eq!(parse_session_timestamp("2026-08-25T14:00:00+02:00"), Some(at(2026, 8, 25, 12).unix_nanos));
    let now = now_moment();
    assert!(now.unix_nanos > at(2020, 1, 1, 0).unix_nanos);
    assert_eq!(UtcMoment::from_utc(now.date, now.nanos_of_day).unix_nanos, now.unix_nanos);
}

#[test]
fn now_rfc3339_has_the_utc_shape() {
    let text = now_rfc3339();
    let b = text.as_bytes();
    assert!(text.len() >= 20);
    assert!(text.ends_with('Z'));
    assert_eq!(b[4], b'-');
    assert_eq!(b[7], b'-');
    assert_eq!(b[10], b'T');
    assert_eq!(b[13], b':');
    assert_eq!(b[16], b':');
    assert!(b[..4].iter().all(|c| c.is_ascii_digit()));
    if text.len() > 20 {
        assert_eq!(b[19], b'.');
        assert_ne!(b[text.len() - 2], b'0');
    }
}

#[test]
fn calendar_dates_map_to_unix_days() {
    let day = 86_400_000_000_000i128;
    assert_eq!(UtcMoment::from_utc(date(1970, 1, 1), 0).unix_nanos, 0);
    assert_eq!(UtcMoment::from_utc(date(2000, 1, 1), 0).unix_nanos, 10_957 * day);
    assert_eq!(UtcMoment::from_utc(date(2019, 12, 31), 0).unix_nanos, 18_261 * day);
    assert_eq!(UtcMoment::from_utc(date(2024, 3, 1), 0).unix_nanos, 19_783 * day);
    assert_eq!(UtcMoment::from_utc(date(1969, 12, 31), 0).unix_nanos, -day);
    assert_eq!(UtcMoment::from_utc(date(-4713, 11, 24), 0).unix_nanos, -2_440_588 * day);
}
