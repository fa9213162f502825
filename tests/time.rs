use lib_auth::time::{TimeRfc3339, RFC3339_FIRST_SECS, RFC3339_LAST_SECS};

#[test]
fn vaild_rfc3339_string() {
    const TIME: &str = "2020-09-08T13:10:08.511Z";
    let _ = TimeRfc3339::try_from(TIME).unwrap();
}

#[test]
fn parse_utc_reads_seconds_and_nanos() {
    let t = TimeRfc3339::parse_utc("2020-09-08T13:10:08.511Z").unwrap();
    assert_eq!(t.secs, 1_599_570_608);
    assert_eq!(t.nanos, 511_000_000);
    let shifted = TimeRfc3339::parse_utc("2020-09-08T15:10:08.511+02:00").unwrap();
    assert_eq!(shifted, t);
}

#[test]
fn parse_utc_refuses_non_rfc3339() {
    let e = TimeRfc3339::parse_utc("yesterday").unwrap_err();
    assert_eq!(e.0, "yesterday");
}

#[test]
fn format_time_writes_rfc3339_utc() {
    let t = TimeRfc3339 { secs: 0, nanos: 0 };
    assert_eq!(t.format_time().unwrap(), "1970-01-01T00:00:00+00:00");
}

#[test]
fn plus_sec_str_adds_seconds() {
    let t = TimeRfc3339 { secs: 0, nanos: 0 };
    assert_eq!(t.plus_sec_str(60).unwrap(), "1970-01-01T00:01:00+00:00");
    assert!(t.plus_sec_str(i64::MAX).is_err());
    let late = TimeRfc3339 { secs: i64::MAX - 10, nanos: 0 };
    assert!(late.plus_sec_str(100).is_err());
}

#[test]
fn is_before_orders_instants() {
    let a = TimeRfc3339 { secs: 10, nanos: 5 };
    let b = TimeRfc3339 { secs: 10, nanos: 6 };
    let c = TimeRfc3339 { secs: 11, nanos: 0 };
    assert!(a.is_before(&b));
    assert!(b.is_before(&c));
    assert!(!b.is_before(&a));
    assert!(!a.is_before(&a));
    assert_eq!(a.checked_add_secs(1), Some(TimeRfc3339 { secs: 11, nanos: 5 }));
    assert_eq!(c.checked_add_secs(i64::MAX), None);
}

#[test]
fn format_then_parse_reads_back() {
    for t in [
        TimeRfc3339 { secs: 1_700_000_060, nanos: 123_456_789 },
        TimeRfc3339 { secs: 1_700_000_060, nanos: 120_000_000 },
        TimeRfc3339 { secs: RFC3339_FIRST_SECS, nanos: 0 },
        TimeRfc3339 { secs: RFC3339_LAST_SECS, nanos: 999_999_999 },
        TimeRfc3339 { secs: -1, nanos: 5_000 },
    ] {
        let text = t.format_time().unwrap();
        assert_eq!(TimeRfc3339::parse_utc(&text).unwrap(), t, "{text}");
    }
    assert_eq!(TimeRfc3339 { secs: RFC3339_FIRST_SECS, nanos: 0 }.format_time().unwrap(), "0000-01-01T00:00:00+00:00");
    assert_eq!(TimeRfc3339 { secs: RFC3339_LAST_SECS, nanos: 0 }.format_time().unwrap(), "9999-12-31T23:59:59+00:00");
}

#[test]
fn now_utc_reads_the_clock() {
    let a = TimeRfc3339::now_utc().unwrap();
    assert!(a.secs > 1_600_000_000);
    assert!(a.nanos < 1_000_000_000);
    assert!(TimeRfc3339::now_utc_plus_sec_str(60).is_ok());
}
