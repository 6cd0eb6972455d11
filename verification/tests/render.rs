use markdown_versions::configuration::{Configuration, TitleConfiguration, VersionsGatherer};
use markdown_versions::render::{apply_patter, render};
use markdown_versions::version::{CalendarDate, Timestamp, VersionRecord};

fn record(version: &str, seconds: i64, year: i32, month: u8, day: u8) -> VersionRecord {
    VersionRecord {
        version: version.to_string(),
        creation: Timestamp { seconds, nanosecond: 0, date: CalendarDate { year, month, day } },
    }
}

fn history() -> Configuration {
    Configuration {
        versions_gatherer: VersionsGatherer::Git { tags_pattern: None },
        readme: true,
        title: TitleConfiguration { label: "History".to_string(), size: 3 },
        doc_pattern: "https://docs.rs/{crate}/{version}/{crate_underscore}/".to_string(),
    }
}

#[test]
fn apply_pattern_fills_all_three_placeholders() {
    let url = apply_patter("{crate}|{crate_underscore}|{version}|{crate}", "my-crate", "1.2.3");
    assert_eq!(url, "my-crate|my_crate|1.2.3|my-crate");
}

#[test]
fn apply_pattern_default_template() {
    let url = apply_patter(&Configuration::default_doc_pattern(), "my-crate", "1.2.3");
    assert_eq!(url, "https://docs.rs/my-crate/1.2.3/my_crate/");
}

#[test]
fn apply_pattern_same_inputs_same_url() {
    let a = apply_patter("x/{crate}/{version}", "foo", "0.1.0");
    let b = apply_patter("x/{crate}/{version}", "foo", "0.1.0");
    assert_eq!(a, b);
    assert_eq!(a, "x/foo/0.1.0");
}

#[test]
fn apply_pattern_without_placeholders_is_unchanged() {
    assert_eq!(apply_patter("https://example.org/", "foo", "1.0.0"), "https://example.org/");
    assert_eq!(apply_patter("", "foo", "1.0.0"), "");
}

#[test]
fn apply_pattern_agrees_with_chained_std_replace() {
    let cases = [
        ("{crate}{crate_underscore}{version}", "a-b-c", "1.0.0-rc.1+x"),
        ("{{crate}}", "{version}", "9"),
        ("{crate_underscore", "a-b", "1"),
        ("{version}{version}", "p", "{crate}"),
    ];
    for (pattern, name, version) in cases {
        let expected = pattern
            .replace("{crate}", name)
            .replace("{crate_underscore}", &name.replace('-', "_"))
            .replace("{version}", version);
        assert_eq!(apply_patter(pattern, name, version), expected);
    }
}

#[test]
fn apply_pattern_does_not_escape() {
    assert_eq!(apply_patter("[{crate}]({version})", "a*b", "1_0"), "[a*b](1_0)");
}

#[test]
fn render_heading_and_items_in_given_order() {
    let records = vec![
        record("2.0.0", 1672531200, 2023, 1, 1),
        record("1.0.0", 1640995200, 2022, 1, 1),
    ];
    let out = render(None, &history(), "my-crate", &records);
    assert_eq!(
        out,
        "### History\n\n\
         - [2.0.0 - 2023-01-01](https://docs.rs/my-crate/2.0.0/my_crate/)\n\
         - [1.0.0 - 2022-01-01](https://docs.rs/my-crate/1.0.0/my_crate/)\n"
    );
    assert!(out.starts_with("### History\n\n"));
    assert!(out.find("2.0.0").unwrap() < out.find("1.0.0").unwrap());
}

#[test]
fn render_does_not_sort() {
    let records = vec![
        record("1.0.0", 1640995200, 2022, 1, 1),
        record("3.0.0", 1704067200, 2024, 1, 1),
        record("2.0.0", 1672531200, 2023, 1, 1),
    ];
    let out = render(None, &history(), "p", &records);
    let first = out.find("[1.0.0").unwrap();
    let second = out.find("[3.0.0").unwrap();
    let third = out.find("[2.0.0").unwrap();
    assert!(first < second && second < third);
}

#[test]
fn render_places_trimmed_readme_above() {
    let out = render(Some("# My crate\n\nText.\n\n\n  "), &history(), "p", &Vec::new());
    assert_eq!(out, "# My crate\n\nText.\n\n### History\n\n");
}

#[test]
fn render_leaves_readme_out_when_not_wanted() {
    let mut configuration = history();
    configuration.readme = false;
    let out = render(Some("# My crate\n"), &configuration, "p", &Vec::new());
    assert_eq!(out, "### History\n\n");
}

#[test]
fn render_with_defaults() {
    let records = vec![record("0.1.0", 0, 1970, 1, 1)];
    let out = render(None, &Configuration::default(), "a-b", &records);
    assert_eq!(out, "## Versions\n\n- [0.1.0 - 1970-01-01](https://docs.rs/a-b/0.1.0/a_b/)\n");
}

#[test]
fn render_empty_readme_still_gives_blank_line() {
    let out = render(Some(""), &Configuration::default(), "p", &Vec::new());
    assert_eq!(out, "\n\n## Versions\n\n");
}

#[test]
fn render_keeps_duplicates() {
    let records = vec![record("1.0.0", 5, 1970, 1, 1), record("1.0.0", 5, 1970, 1, 1)];
    let out = render(None, &history(), "p", &records);
    assert_eq!(out.matches("- [1.0.0 - 1970-01-01]").count(), 2);
}

#[test]
fn render_is_the_same_for_the_same_inputs() {
    let records = vec![record("1.0.0", 5, 1970, 1, 1)];
    let a = render(Some("r"), &history(), "p", &records);
    let b = render(Some("r"), &history(), "p", &records);
    assert_eq!(a, b);
}
