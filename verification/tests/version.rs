use markdown_versions::version::{CalendarDate, Timestamp, VersionRecord};

fn text(v: Vec<char>) -> String {
    v.into_iter().collect()
}

#[test]
fn date_text_is_padded() {
    assert_eq!(text(CalendarDate { year: 2023, month: 1, day: 1 }.to_text()), "2023-01-01");
    assert_eq!(text(CalendarDate { year: 1999, month: 12, day: 31 }.to_text()), "1999-12-31");
    assert_eq!(text(CalendarDate { year: 7, month: 3, day: 9 }.to_text()), "0007-03-09");
    assert_eq!(text(CalendarDate { year: 0, month: 10, day: 10 }.to_text()), "0000-10-10");
    assert_eq!(text(CalendarDate { year: -44, month: 3, day: 15 }.to_text()), "-0044-03-15");
}

#[test]
fn date_text_agrees_with_time() {
    let cases = [(2023, 1, 1), (1970, 1, 1), (9999, 12, 31), (-9999, 1, 1), (1, 2, 3), (-1, 11, 30), (800, 6, 15)];
    for (year, month, day) in cases {
        let date = time::Date::from_calendar_date(year, time::Month::try_from(month).unwrap(), day).unwrap();
        assert_eq!(text(CalendarDate { year, month, day }.to_text()), date.to_string());
    }
}

#[test]
fn from_unix_gives_the_utc_day() {
    let t = Timestamp::from_unix(1672531200).unwrap();
    assert_eq!(t, Timestamp { seconds: 1672531200, nanosecond: 0, date: CalendarDate { year: 2023, month: 1, day: 1 } });
    let t = Timestamp::from_unix(1672531199).unwrap();
    assert_eq!(t.date, CalendarDate { year: 2022, month: 12, day: 31 });
    let t = Timestamp::from_unix(0).unwrap();
    assert_eq!(t.date, CalendarDate { year: 1970, month: 1, day: 1 });
    let t = Timestamp::from_unix(-1).unwrap();
    assert_eq!(t.date, CalendarDate { year: 1969, month: 12, day: 31 });
    assert_eq!(t.seconds, -1);
}

#[test]
fn from_unix_refuses_what_cannot_be_represented() {
    assert_eq!(Timestamp::from_unix(i64::MAX), None);
    assert_eq!(Timestamp::from_unix(i64::MIN), None);
    assert!(Timestamp::from_unix(253402300799).is_some());
    assert_eq!(Timestamp::from_unix(253402300800), None);
}

#[test]
fn parse_rfc3339_reads_instant_and_local_day() {
    let t = Timestamp::parse_rfc3339("1985-04-12T23:20:50.52Z").unwrap();
    assert_eq!(t.seconds, 482196050);
    assert_eq!(t.nanosecond, 520_000_000);
    assert_eq!(t.date, CalendarDate { year: 1985, month: 4, day: 12 });

    let t = Timestamp::parse_rfc3339("2023-01-01T00:30:00+02:00").unwrap();
    assert_eq!(t.seconds, 1672525800);
    assert_eq!(t.date, CalendarDate { year: 2023, month: 1, day: 1 });
}

#[test]
fn parse_rfc3339_refuses_other_text() {
    assert_eq!(Timestamp::parse_rfc3339(""), None);
    assert_eq!(Timestamp::parse_rfc3339("2023-01-01"), None);
    assert_eq!(Timestamp::parse_rfc3339("yesterday"), None);
    assert_eq!(Timestamp::parse_rfc3339("2023-13-01T00:00:00Z"), None);
}

#[test]
fn not_before_compares_instants() {
    let date = CalendarDate { year: 2000, month: 1, day: 1 };
    let a = Timestamp { seconds: 10, nanosecond: 5, date };
    let b = Timestamp { seconds: 10, nanosecond: 6, date };
    let c = Timestamp { seconds: -3, nanosecond: 999_999_999, date };
    assert!(a.not_before(&a));
    assert!(b.not_before(&a));
    assert!(!a.not_before(&b));
    assert!(a.not_before(&c));
    assert!(!c.not_before(&a));
    let far = Timestamp { seconds: i64::MAX, nanosecond: u32::MAX, date };
    let near = Timestamp { seconds: i64::MIN, nanosecond: 0, date };
    assert!(far.not_before(&near));
    assert!(!near.not_before(&far));
}

#[test]
fn not_before_agrees_with_time() {
    let texts = ["2020-01-01T00:00:00Z", "2020-01-01T01:00:00+01:00", "2019-12-31T23:59:59.5-05:00", "2020-01-01T00:00:00.000000001Z"];
    for a in texts {
        for b in texts {
            let ta = time::OffsetDateTime::parse(a, &time::format_description::well_known::Rfc3339).unwrap();
            let tb = time::OffsetDateTime::parse(b, &time::format_description::well_known::Rfc3339).unwrap();
            let la = Timestamp::parse_rfc3339(a).unwrap();
            let lb = Timestamp::parse_rfc3339(b).unwrap();
            assert_eq!(la.not_before(&lb), ta >= tb);
        }
    }
}

#[test]
fn duplicate_copies_the_record() {
    let r = VersionRecord {
        version: "1.0.0".to_string(),
        creation: Timestamp { seconds: 1, nanosecond: 2, date: CalendarDate { year: 3, month: 4, day: 5 } },
    };
    let d = r.duplicate();
    assert_eq!(d.version, "1.0.0");
    assert_eq!(d.creation, r.creation);
}
