use markdown_versions::configuration::{Configuration, TitleConfiguration, VersionsGatherer};
use markdown_versions::document::{find, holds_only, same_text, Entry, Lookup, Value};
use markdown_versions::error::{Failure, FailureKind};
use markdown_versions::options::Options;

fn options(default_configuration: bool) -> Options {
    Options { manifest_path: None, package: None, default_configuration }
}

fn text(s: &str) -> Value {
    Value::Text(s.to_string())
}

fn table(entries: Vec<(&str, Value)>) -> Value {
    Value::Table(entries.into_iter().map(|(k, v)| Entry { key: k.to_string(), value: v }).collect())
}

fn config_failure(raw: Value) -> Failure {
    let e = Configuration::load(&raw).unwrap_err();
    assert_eq!(e.kind, FailureKind::Config);
    e
}

#[test]
fn defaults_of_the_parts() {
    assert!(Configuration::default_readme());
    assert_eq!(Configuration::default_doc_pattern(), "https://docs.rs/{crate}/{version}/{crate_underscore}/");
    assert_eq!(TitleConfiguration::default_label(), "Versions");
    assert_eq!(TitleConfiguration::default_size(), 2);
    assert_eq!(VersionsGatherer::default_registry_api_base_url(), "https://crates.io/api/v1");
}

#[test]
fn default_configuration_uses_the_registry() {
    let c = Configuration::default();
    assert!(c.readme);
    assert_eq!(c.title.label, "Versions");
    assert_eq!(c.title.size, 2);
    assert_eq!(c.doc_pattern, "https://docs.rs/{crate}/{version}/{crate_underscore}/");
    match c.versions_gatherer {
        VersionsGatherer::Registry { api_base_url } => assert_eq!(api_base_url, "https://crates.io/api/v1"),
        VersionsGatherer::Git { .. } => panic!("the default source is the registry"),
    }
}

#[test]
fn default_title_and_gatherer() {
    let t = TitleConfiguration::default();
    assert_eq!((t.label.as_str(), t.size), ("Versions", 2));
    assert!(matches!(VersionsGatherer::default(), VersionsGatherer::Registry { .. }));
}

#[test]
fn load_registry_with_defaults() {
    let c = Configuration::load(&table(vec![("method", text("registry"))])).unwrap();
    assert!(matches!(c.versions_gatherer, VersionsGatherer::Registry { api_base_url } if api_base_url == "https://crates.io/api/v1"));
    assert!(c.readme);
    assert_eq!(c.title.label, "Versions");
    assert_eq!(c.title.size, 2);
    assert_eq!(c.doc_pattern, "https://docs.rs/{crate}/{version}/{crate_underscore}/");
}

#[test]
fn load_registry_with_every_field() {
    let raw = table(vec![
        ("method", text("registry")),
        ("api-base-url", text("http://localhost/api")),
        ("readme", Value::Bool(false)),
        ("title", table(vec![("label", text("History")), ("size", Value::Natural(3))])),
        ("doc-pattern", text("https://example.org/{crate}/{version}")),
    ]);
    let c = Configuration::load(&raw).unwrap();
    assert!(matches!(c.versions_gatherer, VersionsGatherer::Registry { api_base_url } if api_base_url == "http://localhost/api"));
    assert!(!c.readme);
    assert_eq!(c.title.label, "History");
    assert_eq!(c.title.size, 3);
    assert_eq!(c.doc_pattern, "https://example.org/{crate}/{version}");
}

#[test]
fn load_accepts_the_short_names() {
    let raw = table(vec![("method", text("registry")), ("api", text("http://a")), ("pattern", text("p"))]);
    let c = Configuration::load(&raw).unwrap();
    assert!(matches!(c.versions_gatherer, VersionsGatherer::Registry { api_base_url } if api_base_url == "http://a"));
    assert_eq!(c.doc_pattern, "p");
    let raw = table(vec![("method", text("git")), ("tags", text("v(.*)"))]);
    let c = Configuration::load(&raw).unwrap();
    assert!(matches!(c.versions_gatherer, VersionsGatherer::Git { tags_pattern: Some(p) } if p == "v(.*)"));
}

#[test]
fn load_git_with_and_without_pattern() {
    let c = Configuration::load(&table(vec![("method", text("git"))])).unwrap();
    assert!(matches!(c.versions_gatherer, VersionsGatherer::Git { tags_pattern: None }));
    let c = Configuration::load(&table(vec![("method", text("git")), ("tags-pattern", Value::Null)])).unwrap();
    assert!(matches!(c.versions_gatherer, VersionsGatherer::Git { tags_pattern: None }));
    let c = Configuration::load(&table(vec![("method", text("git")), ("tags-pattern", text("v(.*)"))])).unwrap();
    assert!(matches!(c.versions_gatherer, VersionsGatherer::Git { tags_pattern: Some(p) } if p == "v(.*)"));
}

#[test]
fn load_reads_only_the_fields_of_the_chosen_source() {
    let raw = table(vec![("method", text("registry")), ("tags-pattern", Value::Natural(5))]);
    assert!(Configuration::load(&raw).is_ok());
    let raw = table(vec![("method", text("git")), ("api-base-url", Value::Bool(true))]);
    assert!(Configuration::load(&raw).is_ok());
}

#[test]
fn load_passes_over_unknown_fields_outside_title() {
    let raw = table(vec![("method", text("git")), ("colour", text("blue")), ("depth", Value::Other)]);
    assert!(Configuration::load(&raw).is_ok());
}

#[test]
fn load_refuses_unknown_method() {
    config_failure(table(vec![("method", text("svn"))]));
    config_failure(table(vec![("method", text("Registry"))]));
    config_failure(table(vec![("method", Value::Natural(1))]));
}

#[test]
fn load_refuses_missing_method() {
    config_failure(table(vec![]));
    config_failure(table(vec![("readme", Value::Bool(true))]));
}

#[test]
fn load_refuses_what_is_no_table() {
    config_failure(Value::Null);
    config_failure(text("registry"));
    config_failure(Value::Other);
    config_failure(Value::Bool(true));
    config_failure(Value::Natural(0));
}

#[test]
fn load_refuses_size_that_is_no_whole_number_of_at_least_one() {
    let with_size = |size: Value| table(vec![("method", text("git")), ("title", table(vec![("size", size)]))]);
    config_failure(with_size(text("3")));
    config_failure(with_size(Value::Other));
    config_failure(with_size(Value::Null));
    config_failure(with_size(Value::Bool(true)));
    config_failure(with_size(Value::Natural(0)));
    assert_eq!(Configuration::load(&with_size(Value::Natural(1))).unwrap().title.size, 1);
    assert_eq!(Configuration::load(&with_size(Value::Natural(6))).unwrap().title.size, 6);
}

#[test]
fn load_title_is_strict() {
    let raw = table(vec![("method", text("git")), ("title", table(vec![("label", text("L")), ("colour", text("red"))]))]);
    config_failure(raw);
    let raw = table(vec![("method", text("git")), ("title", table(vec![]))]);
    let c = Configuration::load(&raw).unwrap();
    assert_eq!((c.title.label.as_str(), c.title.size), ("Versions", 2));
    let raw = table(vec![("method", text("git")), ("title", table(vec![("label", text("L"))]))]);
    let c = Configuration::load(&raw).unwrap();
    assert_eq!((c.title.label.as_str(), c.title.size), ("L", 2));
    config_failure(table(vec![("method", text("git")), ("title", text("L"))]));
    config_failure(table(vec![("method", text("git")), ("title", Value::Null)]));
}

#[test]
fn load_refuses_fields_of_the_wrong_kind() {
    config_failure(table(vec![("method", text("git")), ("readme", text("yes"))]));
    config_failure(table(vec![("method", text("git")), ("readme", Value::Null)]));
    config_failure(table(vec![("method", text("git")), ("doc-pattern", Value::Natural(1))]));
    config_failure(table(vec![("method", text("git")), ("tags-pattern", Value::Bool(false))]));
    config_failure(table(vec![("method", text("registry")), ("api", Value::Null)]));
    config_failure(table(vec![("method", text("git")), ("title", table(vec![("label", Value::Natural(1))]))]));
}

#[test]
fn load_refuses_a_field_under_both_names() {
    config_failure(table(vec![("method", text("git")), ("pattern", text("a")), ("doc-pattern", text("b"))]));
    config_failure(table(vec![("method", text("registry")), ("api", text("a")), ("api-base-url", text("b"))]));
    config_failure(table(vec![("method", text("git")), ("tags", text("a")), ("tags-pattern", text("b"))]));
    config_failure(table(vec![("method", text("git")), ("method", text("git"))]));
}

#[test]
fn missing_configuration_without_defaults_fails() {
    let e = options(false).resolve_configuration(None).unwrap_err();
    assert_eq!(e.kind, FailureKind::Config);
    assert_eq!(e.message(), "missing `package.metadata.markdown-versions` field");
}

#[test]
fn missing_configuration_with_defaults_is_the_default() {
    let c = options(true).resolve_configuration(None).unwrap();
    assert_eq!(c.title.label, "Versions");
    assert_eq!(c.title.size, 2);
    assert!(c.readme);
    assert!(matches!(c.versions_gatherer, VersionsGatherer::Registry { .. }));
}

#[test]
fn found_configuration_is_used_whatever_the_flag() {
    for flag in [false, true] {
        let raw = table(vec![
            ("method", text("git")),
            ("tags", text("v(.*)")),
            ("readme", Value::Bool(false)),
            ("title", table(vec![("label", text("Log")), ("size", Value::Natural(4))])),
            ("pattern", text("x")),
        ]);
        let c = options(flag).resolve_configuration(Some(&raw)).unwrap();
        assert!(!c.readme);
        assert_eq!(c.title.label, "Log");
        assert_eq!(c.title.size, 4);
        assert_eq!(c.doc_pattern, "x");
        assert!(matches!(c.versions_gatherer, VersionsGatherer::Git { tags_pattern: Some(p) } if p == "v(.*)"));
    }
}

#[test]
fn malformed_configuration_fails_whatever_the_flag() {
    for flag in [false, true] {
        let raw = table(vec![("method", text("hg"))]);
        let e = options(flag).resolve_configuration(Some(&raw)).unwrap_err();
        assert_eq!(e.kind, FailureKind::Config);
    }
}

#[test]
fn failure_keeps_kind_and_message() {
    let e = Failure::new(FailureKind::Network, "connection refused");
    assert_eq!(e.kind, FailureKind::Network);
    assert_eq!(e.message(), "connection refused");
}

#[test]
fn find_tells_absent_present_and_twice() {
    let entries = vec![
        Entry { key: "a".to_string(), value: Value::Natural(1) },
        Entry { key: "b".to_string(), value: Value::Natural(2) },
        Entry { key: "c".to_string(), value: Value::Natural(3) },
    ];
    assert!(matches!(find(&entries, "x", "y"), Lookup::Absent));
    assert!(matches!(find(&entries, "b", "y"), Lookup::Present(Value::Natural(2))));
    assert!(matches!(find(&entries, "x", "c"), Lookup::Present(Value::Natural(3))));
    assert!(matches!(find(&entries, "a", "c"), Lookup::Twice));
    assert!(matches!(find(&Vec::new(), "a", "a"), Lookup::Absent));
}

#[test]
fn holds_only_and_same_text() {
    let entries = vec![
        Entry { key: "label".to_string(), value: Value::Null },
        Entry { key: "size".to_string(), value: Value::Null },
    ];
    assert!(holds_only(&entries, "label", "size"));
    assert!(!holds_only(&entries, "label", "label"));
    assert!(holds_only(&Vec::new(), "a", "b"));
    assert!(same_text("a", "a"));
    assert!(!same_text("a", "A"));
}
