use markdown_versions::configuration::VersionsGatherer;
use markdown_versions::error::FailureKind;
use markdown_versions::git::{commit_record, gather_from_tags, TagEntry};
use markdown_versions::order::sort_newest_first;
use markdown_versions::version::{CalendarDate, Timestamp, VersionRecord};

fn tag(name: &str, commit_seconds: Option<i64>) -> TagEntry {
    TagEntry { name: name.as_bytes().to_vec(), commit_seconds }
}

fn pattern() -> regex::Regex {
    VersionsGatherer::Git { tags_pattern: None }.unwrap_git_tags_pattern("foo").unwrap()
}

fn versions(records: &Vec<VersionRecord>) -> Vec<&str> {
    records.iter().map(|r| r.version.as_str()).collect()
}

fn at(version: &str, seconds: i64, nanosecond: u32) -> VersionRecord {
    VersionRecord {
        version: version.to_string(),
        creation: Timestamp { seconds, nanosecond, date: CalendarDate { year: 2000, month: 1, day: 1 } },
    }
}

#[test]
fn tags_come_out_newest_first() {
    let tags = vec![
        tag("refs/tags/foo-v1.0.0", Some(1640995200)),
        tag("refs/tags/foo-v3.0.0", Some(1704067200)),
        tag("refs/tags/foo-v2.0.0", Some(1672531200)),
    ];
    let records = gather_from_tags(&pattern(), &tags).unwrap();
    assert_eq!(versions(&records), vec!["3.0.0", "2.0.0", "1.0.0"]);
    assert_eq!(records[0].creation.date, CalendarDate { year: 2024, month: 1, day: 1 });
    assert_eq!(records[2].creation.seconds, 1640995200);
}

#[test]
fn order_of_the_tags_does_not_matter() {
    let a = vec![
        tag("foo-v1.0.0", Some(10)),
        tag("foo-v2.0.0", Some(20)),
        tag("foo-v3.0.0", Some(30)),
    ];
    let b = vec![
        tag("foo-v3.0.0", Some(30)),
        tag("foo-v1.0.0", Some(10)),
        tag("foo-v2.0.0", Some(20)),
    ];
    let ra = gather_from_tags(&pattern(), &a).unwrap();
    let rb = gather_from_tags(&pattern(), &b).unwrap();
    assert_eq!(versions(&ra), vec!["3.0.0", "2.0.0", "1.0.0"]);
    assert_eq!(versions(&ra), versions(&rb));
}

#[test]
fn tags_that_do_not_match_are_passed_over() {
    let tags = vec![
        tag("refs/tags/bar-v1.0.0", Some(5)),
        tag("refs/tags/foo-v1.0.0", Some(6)),
        tag("refs/tags/nightly", None),
        TagEntry { name: vec![0xff, 0xfe], commit_seconds: None },
    ];
    let records = gather_from_tags(&pattern(), &tags).unwrap();
    assert_eq!(versions(&records), vec!["1.0.0"]);
}

#[test]
fn two_tags_with_one_version_give_two_records() {
    let tags = vec![tag("foo-v1.0.0", Some(5)), tag("refs/tags/foo-v1.0.0", Some(9))];
    let records = gather_from_tags(&pattern(), &tags).unwrap();
    assert_eq!(versions(&records), vec!["1.0.0", "1.0.0"]);
    assert_eq!(records[0].creation.seconds, 9);
}

#[test]
fn matching_tag_without_commit_fails_the_run() {
    let tags = vec![tag("foo-v1.0.0", Some(5)), tag("foo-v2.0.0", None)];
    let e = gather_from_tags(&pattern(), &tags).unwrap_err();
    assert_eq!(e.kind, FailureKind::Repository);
    assert_eq!(e.message(), "tag does not lead to a commit");
}

#[test]
fn matching_tag_with_unrepresentable_time_fails_the_run() {
    let tags = vec![tag("foo-v1.0.0", Some(i64::MAX))];
    let e = gather_from_tags(&pattern(), &tags).unwrap_err();
    assert_eq!(e.kind, FailureKind::Repository);
    assert_eq!(e.message(), "commit time is out of range");
}

#[test]
fn no_tags_give_no_records() {
    assert!(gather_from_tags(&pattern(), &Vec::new()).unwrap().is_empty());
}

#[test]
fn commit_record_by_case() {
    let r = commit_record("1.0.0".to_string(), Some(86400)).unwrap();
    assert_eq!(r.version, "1.0.0");
    assert_eq!(r.creation, Timestamp { seconds: 86400, nanosecond: 0, date: CalendarDate { year: 1970, month: 1, day: 2 } });
    assert_eq!(commit_record("1.0.0".to_string(), None).unwrap_err().kind, FailureKind::Repository);
    assert_eq!(commit_record("1.0.0".to_string(), Some(i64::MIN)).unwrap_err().kind, FailureKind::Repository);
}

#[test]
fn sort_orders_by_instant_descending() {
    let records = vec![at("a", 1, 0), at("b", 3, 0), at("c", 2, 5), at("d", 2, 6), at("e", -7, 0)];
    let sorted = sort_newest_first(&records);
    assert_eq!(versions(&sorted), vec!["b", "d", "c", "a", "e"]);
}

#[test]
fn sort_keeps_the_order_of_equal_instants() {
    let records = vec![at("a", 5, 0), at("b", 9, 0), at("c", 5, 0), at("d", 9, 0), at("e", 5, 0)];
    let sorted = sort_newest_first(&records);
    assert_eq!(versions(&sorted), vec!["b", "d", "a", "c", "e"]);
}

#[test]
fn sort_agrees_with_std_stable_sort() {
    let mut seed: u64 = 12345;
    for len in 0..40usize {
        let mut records = Vec::new();
        for i in 0..len {
            seed = seed.wrapping_mul(6364136223846793005).wrapping_add(1442695040888963407);
            let seconds = ((seed >> 33) % 7) as i64 - 3;
            let nanosecond = ((seed >> 20) % 3) as u32;
            records.push(at(&format!("v{}", i), seconds, nanosecond));
        }
        let sorted = sort_newest_first(&records);
        let mut expected: Vec<&VersionRecord> = records.iter().collect();
        expected.sort_by(|l, r| (r.creation.seconds, r.creation.nanosecond).cmp(&(l.creation.seconds, l.creation.nanosecond)));
        let expected: Vec<&str> = expected.iter().map(|r| r.version.as_str()).collect();
        assert_eq!(versions(&sorted), expected);
    }
}
