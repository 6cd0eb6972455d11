//! The configuration of a run: where versions come from and how the list
//! is headed and linked.

use vstd::prelude::*;
use regex::Regex;
use crate::document::{find, holds_only, lookup, only_named, same_text, Entry, Lookup, Value};
use crate::error::{fails_as, fails_with, Failure, FailureKind};
use crate::pattern::{
    compiled_group_count,
    escaped,
    has_version_group,
    is_usable_pattern,
    regex_source,
    usable_pattern,
};
use crate::text::{push_str, text_of};

verus! {

/// A semantic version: three dotted numbers, then an optional pre-release
/// and optional build metadata.
pub const SEMVER_REGEX: &'static str =
    r#"(0|[1-9]\d*)\.(0|[1-9]\d*)\.(0|[1-9]\d*)(?:-((?:0|[1-9]\d*|\d*[a-zA-Z-][0-9a-zA-Z-]*)(?:\.(?:0|[1-9]\d*|\d*[a-zA-Z-][0-9a-zA-Z-]*))*))?(?:\+([0-9a-zA-Z-]+(?:\.[0-9a-zA-Z-]+)*))?"#;

/// The heading above the list.
#[derive(Debug)]
pub struct TitleConfiguration {
    /// The heading's text.
    pub label: String,
    /// The heading's level: the number of `#` in front of it.
    pub size: usize,
}

/// Where the versions come from.
#[derive(Debug)]
pub enum VersionsGatherer {
    /// The version history that a registry serves.
    Registry { api_base_url: String },
    /// The tags of the local repository that match a pattern.
    Git { tags_pattern: Option<String> },
}

/// Everything a run is configured with.
#[derive(Debug)]
pub struct Configuration {
    pub versions_gatherer: VersionsGatherer,
    /// Whether the existing readme is placed above the list.
    pub readme: bool,
    pub title: TitleConfiguration,
    /// The template of each version's documentation link, with the
    /// placeholders `{crate}`, `{crate_underscore}` and `{version}`.
    pub doc_pattern: String,
}

impl TitleConfiguration {
    /// A heading has at least level one.
    pub open spec fn wf(&self) -> bool {
        self.size >= 1
    }

    /// Whether this is the heading used where none is configured.
    pub open spec fn is_default(&self) -> bool {
        self.label@ == "Versions"@ && self.size == 2
    }

    /// The heading's text where none is configured.
    pub fn default_label() -> (label: String)
        ensures
            label@ == "Versions"@,
    {
        "Versions".to_owned()
    }

    /// The heading's level where none is configured.
    pub fn default_size() -> (size: usize)
        ensures
            size == 2,
    {
        2
    }
}

impl Default for TitleConfiguration {
    fn default() -> (title: Self)
        ensures
            title.is_default(),
            title.wf(),
    {
        Self { label: Self::default_label(), size: Self::default_size() }
    }
}

impl VersionsGatherer {
    /// Whether this is the source used where none is configured: the public
    /// registry.
    pub open spec fn is_default(&self) -> bool {
        self matches VersionsGatherer::Registry { api_base_url } && api_base_url@
            == "https://crates.io/api/v1"@
    }

    /// The expression that tag names are matched against for `package`,
    /// anchored at both ends. Without a configured pattern it is the
    /// package's name, escaped so that it stands for itself and nothing
    /// else, then `-v` and a semantic version, which is the capture group. A
    /// configured pattern is taken as it is, and the package's name plays no
    /// part.
    pub open spec fn anchored_pattern(&self, package: Seq<char>) -> Seq<char> {
        match self {
            VersionsGatherer::Git { tags_pattern: Some(pattern) } => "^"@ + pattern@ + "$"@,
            _ => "^"@ + escaped(package) + "-v("@ + SEMVER_REGEX@ + ")$"@,
        }
    }

    /// The API of the public registry.
    pub fn default_registry_api_base_url() -> (url: String)
        ensures
            url@ == "https://crates.io/api/v1"@,
    {
        "https://crates.io/api/v1".to_owned()
    }

    /// Writes out the anchored expression for `package`.
    pub fn tags_pattern_text(&self, package: &str) -> (text: String)
        ensures
            text@ == self.anchored_pattern(package@),
    {
        let mut out: Vec<char> = Vec::new();
        push_str(&mut out, "^");
        match self {
            VersionsGatherer::Git { tags_pattern: Some(pattern) } => {
                push_str(&mut out, pattern.as_str());
                push_str(&mut out, "$");
            },
            _ => {
                let name = regex::escape(package);
                push_str(&mut out, name.as_str());
                push_str(&mut out, "-v(");
                push_str(&mut out, SEMVER_REGEX);
                push_str(&mut out, ")$");
            },
        }
        text_of(&out)
    }

    /// Compiles the expression that tag names are matched against.
    ///
    /// Fails on the registry source, which has no tags to match. On the
    /// repository source it succeeds exactly where `anchored_pattern`
    /// compiles to an expression with a capture group, and returns that
    /// expression. A pattern that does not compile, and one without a
    /// capture group, are pattern failures.
    pub fn unwrap_git_tags_pattern(&self, package: &str) -> (r: Result<Regex, Failure>)
        ensures
            self is Registry ==> fails_with(r, FailureKind::Config, "unexpected registry gatherer"),
            self is Git ==> (r is Ok <==> is_usable_pattern(self.anchored_pattern(package@))),
            self is Git ==> match r {
                Ok(re) => regex_source(re) == self.anchored_pattern(package@) && has_version_group(
                    re,
                ),
                Err(e) => e.kind == FailureKind::Pattern && (compiled_group_count(
                    self.anchored_pattern(package@),
                ) is Some ==> e.message@ == "tags pattern has no capture group"@),
            },
    {
        match self {
            VersionsGatherer::Registry { .. } => Err(
                Failure::new(FailureKind::Config, "unexpected registry gatherer"),
            ),
            VersionsGatherer::Git { .. } => {
                let text = self.tags_pattern_text(package);
                usable_pattern(Regex::new(text.as_str()))
            },
        }
    }
}

impl Default for VersionsGatherer {
    fn default() -> (gatherer: Self)
        ensures
            gatherer.is_default(),
    {
        Self::Registry { api_base_url: Self::default_registry_api_base_url() }
    }
}

impl Configuration {
    /// Whether the configuration is one that a run accepts.
    pub open spec fn wf(&self) -> bool {
        self.title.wf()
    }

    /// Whether this is the configuration used where a package brings none.
    pub open spec fn is_default(&self) -> bool {
        &&& self.versions_gatherer.is_default()
        &&& self.readme
        &&& self.title.is_default()
        &&& self.doc_pattern@ == "https://docs.rs/{crate}/{version}/{crate_underscore}/"@
    }

    /// The existing readme is kept unless the configuration says otherwise.
    pub fn default_readme() -> (readme: bool)
        ensures
            readme,
    {
        true
    }

    /// The link template where none is configured: the version's page on
    /// the public documentation site.
    pub fn default_doc_pattern() -> (pattern: String)
        ensures
            pattern@ == "https://docs.rs/{crate}/{version}/{crate_underscore}/"@,
    {
        "https://docs.rs/{crate}/{version}/{crate_underscore}/".to_owned()
    }
}

impl Default for Configuration {
    fn default() -> (configuration: Self)
        ensures
            configuration.is_default(),
            configuration.wf(),
    {
        Self {
            versions_gatherer: VersionsGatherer::default(),
            readme: Self::default_readme(),
            title: TitleConfiguration::default(),
            doc_pattern: Self::default_doc_pattern(),
        }
    }
}

/// What a heading says.
pub struct TitleView {
    pub label: Seq<char>,
    pub size: usize,
}

/// What a source of versions says.
pub enum GathererView {
    Registry { api_base_url: Seq<char> },
    Git { tags_pattern: Option<Seq<char>> },
}

/// What a configuration says.
pub struct ConfigurationView {
    pub versions_gatherer: GathererView,
    pub readme: bool,
    pub title: TitleView,
    pub doc_pattern: Seq<char>,
}

impl View for TitleConfiguration {
    type V = TitleView;

    open spec fn view(&self) -> TitleView {
        TitleView { label: self.label@, size: self.size }
    }
}

impl View for VersionsGatherer {
    type V = GathererView;

    open spec fn view(&self) -> GathererView {
        match self {
            VersionsGatherer::Registry { api_base_url } => GathererView::Registry {
                api_base_url: api_base_url@,
            },
            VersionsGatherer::Git { tags_pattern: Some(pattern) } => GathererView::Git {
                tags_pattern: Some(pattern@),
            },
            VersionsGatherer::Git { tags_pattern: None } => GathererView::Git { tags_pattern: None },
        }
    }
}

impl View for Configuration {
    type V = ConfigurationView;

    open spec fn view(&self) -> ConfigurationView {
        ConfigurationView {
            versions_gatherer: self.versions_gatherer@,
            readme: self.readme,
            title: self.title@,
            doc_pattern: self.doc_pattern@,
        }
    }
}

/// The text of an optional field: the default where the field is absent,
/// nothing where it is there twice or holds no text.
pub open spec fn loaded_text(found: Lookup<'_>, default: Seq<char>) -> Option<Seq<char>> {
    match found {
        Lookup::Absent => Some(default),
        Lookup::Present(Value::Text(text)) => Some(text@),
        _ => None,
    }
}

/// Whether the existing readme is wanted: yes where the field is absent.
pub open spec fn loaded_readme(found: Lookup<'_>) -> Option<bool> {
    match found {
        Lookup::Absent => Some(true),
        Lookup::Present(Value::Bool(wanted)) => Some(*wanted),
        _ => None,
    }
}

/// The level of the heading: 2 where the field is absent, else a whole number
/// of at least 1.
pub open spec fn loaded_size(found: Lookup<'_>) -> Option<usize> {
    match found {
        Lookup::Absent => Some(2usize),
        Lookup::Present(Value::Natural(size)) => if 1 <= *size <= usize::MAX {
            Some(*size as usize)
        } else {
            None
        },
        _ => None,
    }
}

/// The heading: the default where the field is absent, else a table that
/// holds nothing but `label` and `size`.
pub open spec fn loaded_title(found: Lookup<'_>) -> Option<TitleView> {
    match found {
        Lookup::Absent => Some(TitleView { label: "Versions"@, size: 2 }),
        Lookup::Present(Value::Table(entries)) => if only_named(entries@, "label"@, "size"@) {
            match (
                loaded_text(lookup(entries@, "label"@, "label"@), "Versions"@),
                loaded_size(lookup(entries@, "size"@, "size"@)),
            ) {
                (Some(label), Some(size)) => Some(TitleView { label, size }),
                _ => None,
            }
        } else {
            None
        },
        _ => None,
    }
}

/// The pattern of the tags: none where the field is absent or null.
pub open spec fn loaded_tags_pattern(found: Lookup<'_>) -> Option<Option<Seq<char>>> {
    match found {
        Lookup::Absent => Some(None),
        Lookup::Present(Value::Null) => Some(None),
        Lookup::Present(Value::Text(pattern)) => Some(Some(pattern@)),
        _ => None,
    }
}

/// The source of versions: `method` must be there and name one of the two
/// sources. Only the fields of that source are read.
pub open spec fn loaded_gatherer(entries: Seq<Entry>) -> Option<GathererView> {
    match lookup(entries, "method"@, "method"@) {
        Lookup::Present(Value::Text(method)) => if method@ == "registry"@ {
            match loaded_text(lookup(entries, "api-base-url"@, "api"@), "https://crates.io/api/v1"@) {
                Some(api_base_url) => Some(GathererView::Registry { api_base_url }),
                None => None,
            }
        } else if method@ == "git"@ {
            match loaded_tags_pattern(lookup(entries, "tags-pattern"@, "tags"@)) {
                Some(tags_pattern) => Some(GathererView::Git { tags_pattern }),
                None => None,
            }
        } else {
            None
        },
        _ => None,
    }
}

/// The configuration that the metadata `raw` describes, if it describes
/// one.
///
/// The metadata is a table. Its fields are `method`, `api-base-url` (or
/// `api`), `tags-pattern` (or `tags`), `readme`, `title` and `doc-pattern`
/// (or `pattern`). A field given under both of its names, or holding a value
/// of another kind than it is declared with, describes nothing. Other
/// fields are passed over, except under `title`.
pub open spec fn loaded(raw: &Value) -> Option<ConfigurationView> {
    match raw {
        Value::Table(entries) => match (
            loaded_gatherer(entries@),
            loaded_readme(lookup(entries@, "readme"@, "readme"@)),
            loaded_title(lookup(entries@, "title"@, "title"@)),
            loaded_text(
                lookup(entries@, "doc-pattern"@, "pattern"@),
                "https://docs.rs/{crate}/{version}/{crate_underscore}/"@,
            ),
        ) {
            (Some(versions_gatherer), Some(readme), Some(title), Some(doc_pattern)) => Some(
                ConfigurationView { versions_gatherer, readme, title, doc_pattern },
            ),
            _ => None,
        },
        _ => None,
    }
}

/// Reads a text field.
fn read_text(found: Lookup<'_>, default: &str) -> (r: Result<String, Failure>)
    ensures
        match loaded_text(found, default@) {
            Some(text) => r matches Ok(t) && t@ == text,
            None => fails_as(r, FailureKind::Config),
        },
{
    match found {
        Lookup::Absent => Ok(default.to_owned()),
        Lookup::Present(Value::Text(text)) => Ok(text.clone()),
        Lookup::Twice => Err(Failure::new(FailureKind::Config, "a field is given twice")),
        _ => Err(Failure::new(FailureKind::Config, "a field that holds text holds something else")),
    }
}

/// Reads `readme`.
fn read_readme(found: Lookup<'_>) -> (r: Result<bool, Failure>)
    ensures
        match loaded_readme(found) {
            Some(wanted) => r == Ok::<bool, Failure>(wanted),
            None => fails_as(r, FailureKind::Config),
        },
{
    match found {
        Lookup::Absent => Ok(Configuration::default_readme()),
        Lookup::Present(Value::Bool(wanted)) => Ok(*wanted),
        _ => Err(Failure::new(FailureKind::Config, "`readme` must be given once, as true or false")),
    }
}

/// Reads `title.size`.
fn read_size(found: Lookup<'_>) -> (r: Result<usize, Failure>)
    ensures
        match loaded_size(found) {
            Some(size) => r == Ok::<usize, Failure>(size),
            None => fails_as(r, FailureKind::Config),
        },
{
    match found {
        Lookup::Absent => Ok(TitleConfiguration::default_size()),
        Lookup::Present(Value::Natural(size)) => {
            if 1 <= *size && *size <= usize::MAX as u64 {
                Ok(*size as usize)
            } else {
                Err(Failure::new(FailureKind::Config, "`title.size` must be at least 1"))
            }
        },
        _ => Err(
            Failure::new(FailureKind::Config, "`title.size` must be given once, as a whole number"),
        ),
    }
}

/// Reads `title`.
fn read_title(found: Lookup<'_>) -> (r: Result<TitleConfiguration, Failure>)
    ensures
        match loaded_title(found) {
            Some(title) => r matches Ok(t) && t@ == title && t.wf(),
            None => fails_as(r, FailureKind::Config),
        },
{
    match found {
        Lookup::Absent => Ok(TitleConfiguration::default()),
        Lookup::Present(Value::Table(entries)) => {
            if !holds_only(entries, "label", "size") {
                return Err(Failure::new(FailureKind::Config, "`title` holds an unknown field"));
            }
            let label = match read_text(find(entries, "label", "label"), "Versions") {
                Ok(label) => label,
                Err(e) => {
                    return Err(e);
                },
            };
            let size = match read_size(find(entries, "size", "size")) {
                Ok(size) => size,
                Err(e) => {
                    return Err(e);
                },
            };
            Ok(TitleConfiguration { label, size })
        },
        _ => Err(Failure::new(FailureKind::Config, "`title` must be given once, as a table")),
    }
}

/// Reads the source of versions.
fn read_gatherer(entries: &Vec<Entry>) -> (r: Result<VersionsGatherer, Failure>)
    ensures
        match loaded_gatherer(entries@) {
            Some(gatherer) => r matches Ok(g) && g@ == gatherer,
            None => fails_as(r, FailureKind::Config),
        },
{
    match find(entries, "method", "method") {
        Lookup::Present(Value::Text(method)) => {
            if same_text(method.as_str(), "registry") {
                match read_text(find(entries, "api-base-url", "api"), "https://crates.io/api/v1") {
                    Ok(api_base_url) => Ok(VersionsGatherer::Registry { api_base_url }),
                    Err(e) => Err(e),
                }
            } else if same_text(method.as_str(), "git") {
                match find(entries, "tags-pattern", "tags") {
                    Lookup::Absent => Ok(VersionsGatherer::Git { tags_pattern: None }),
                    Lookup::Present(Value::Null) => Ok(VersionsGatherer::Git { tags_pattern: None }),
                    Lookup::Present(Value::Text(pattern)) => Ok(
                        VersionsGatherer::Git { tags_pattern: Some(pattern.clone()) },
                    ),
                    _ => Err(
                        Failure::new(
                            FailureKind::Config,
                            "`tags-pattern` must be given once, as text",
                        ),
                    ),
                }
            } else {
                Err(Failure::new(FailureKind::Config, "`method` must be `registry` or `git`"))
            }
        },
        _ => Err(Failure::new(FailureKind::Config, "`method` must be given once, as text")),
    }
}

impl Configuration {
    /// Reads the configuration that a package's metadata describes.
    ///
    /// Succeeds exactly where `loaded` finds a configuration, and returns
    /// that one; every other metadata is a configuration failure.
    pub fn load(raw: &Value) -> (r: Result<Configuration, Failure>)
        ensures
            match loaded(raw) {
                Some(configuration) => r matches Ok(c) && c@ == configuration && c.wf(),
                None => fails_as(r, FailureKind::Config),
            },
    {
        match raw {
            Value::Table(entries) => {
                let versions_gatherer = match read_gatherer(entries) {
                    Ok(gatherer) => gatherer,
                    Err(e) => {
                        return Err(e);
                    },
                };
                let readme = match read_readme(find(entries, "readme", "readme")) {
                    Ok(readme) => readme,
                    Err(e) => {
                        return Err(e);
                    },
                };
                let title = match read_title(find(entries, "title", "title")) {
                    Ok(title) => title,
                    Err(e) => {
                        return Err(e);
                    },
                };
                let doc_pattern = match read_text(
                    find(entries, "doc-pattern", "pattern"),
                    "https://docs.rs/{crate}/{version}/{crate_underscore}/",
                ) {
                    Ok(pattern) => pattern,
                    Err(e) => {
                        return Err(e);
                    },
                };
                Ok(Configuration { versions_gatherer, readme, title, doc_pattern })
            },
            _ => Err(Failure::new(FailureKind::Config, "the configuration must be a table")),
        }
    }
}

} // verus!
