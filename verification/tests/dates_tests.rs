use theguardian_rss_bot::dates::{
    chrono_min_utc, db_time_text, is_not_later, parse_date, parse_rss_date, rfc2822_text, Instant,
};

const MAY_FIRST_NOON: i64 = 1714564800;

#[test]
fn rfc3339_dates_are_read() {
    let t = parse_date("  2024-05-01T12:00:00Z ").unwrap();
    assert_eq!(t, Instant { secs: MAY_FIRST_NOON, nanos: 0 });
    let t = parse_date("2024-05-01T14:00:00+02:00").unwrap();
    assert_eq!(t.secs, MAY_FIRST_NOON);
}

#[test]
fn rfc2822_dates_are_read() {
    let t = parse_rss_date("Wed, 01 May 2024 12:00:00 GMT").unwrap();
    assert_eq!(t, Instant { secs: MAY_FIRST_NOON, nanos: 0 });
}

#[test]
fn stored_dates_are_read_as_utc() {
    assert_eq!(parse_date("2024-05-01 12:00:00").unwrap().secs, MAY_FIRST_NOON);
    assert_eq!(parse_date("2024-05-01T12:00:00").unwrap().secs, MAY_FIRST_NOON);
}

#[test]
fn other_text_is_no_date() {
    assert_eq!(parse_date("yesterday"), None);
    assert_eq!(parse_date(""), None);
}

#[test]
fn stored_text_reads_back() {
    let t = Instant { secs: MAY_FIRST_NOON + 59, nanos: 0 };
    let text = db_time_text(t).unwrap();
    assert_eq!(text, "2024-05-01 12:00:59");
    assert_eq!(parse_date(&text), Some(t));
}

#[test]
fn rfc2822_text_of_an_instant() {
    let text = rfc2822_text(Instant { secs: MAY_FIRST_NOON, nanos: 0 }).unwrap();
    assert_eq!(text, "Wed, 1 May 2024 12:00:00 +0000");
}

#[test]
fn instants_compare_by_seconds_then_nanoseconds() {
    let a = Instant { secs: 5, nanos: 10 };
    let b = Instant { secs: 5, nanos: 20 };
    let c = Instant { secs: 6, nanos: 0 };
    assert!(is_not_later(a, b));
    assert!(!is_not_later(b, a));
    assert!(is_not_later(a, a));
    assert!(is_not_later(b, c));
    assert!(is_not_later(chrono_min_utc(), a));
    assert_eq!(chrono_min_utc().secs, chrono::DateTime::<chrono::Utc>::MIN_UTC.timestamp());
}
