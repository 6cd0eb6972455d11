//! Renders the version list as markdown.

use vstd::prelude::*;
use crate::configuration::{Configuration, TitleConfiguration};
use crate::text::{
    chars_of,
    optional_text,
    push_all,
    push_repeated,
    push_str,
    repeated,
    replace_all,
    replaced,
    text_of,
    trim_end,
    trimmed_end,
};
use crate::version::{views, Record, VersionRecord};

verus! {

/// The documentation link of one version: `doc_pattern` with `{crate}`
/// replaced by the package's name, then `{crate_underscore}` by the name
/// with `_` for each `-`, then `{version}` by the version. Nothing is
/// escaped.
pub open spec fn doc_url(doc_pattern: Seq<char>, crate_name: Seq<char>, version: Seq<char>) -> Seq<
    char,
> {
    replaced(
        replaced(
            replaced(doc_pattern, "{crate}"@, crate_name),
            "{crate_underscore}"@,
            replaced(crate_name, "-"@, "_"@),
        ),
        "{version}"@,
        version,
    )
}

/// Fills a link template in for one version of a package.
pub fn apply_patter(doc_pattern: &str, crate_name: &str, version: &str) -> (url: String)
    ensures
        url@ == doc_url(doc_pattern@, crate_name@, version@),
{
    let name = chars_of(crate_name);
    let underscored = replace_all(&name, &chars_of("-"), &chars_of("_"));
    let named = replace_all(&chars_of(doc_pattern), &chars_of("{crate}"), &name);
    let both = replace_all(&named, &chars_of("{crate_underscore}"), &underscored);
    let all = replace_all(&both, &chars_of("{version}"), &chars_of(version));
    text_of(&all)
}

/// Equal templates, names and versions give equal links: the link is a
/// function of those three texts and of nothing else.
pub proof fn lemma_doc_url_deterministic(
    pattern_a: Seq<char>,
    name_a: Seq<char>,
    version_a: Seq<char>,
    pattern_b: Seq<char>,
    name_b: Seq<char>,
    version_b: Seq<char>,
)
    requires
        pattern_a == pattern_b,
        name_a == name_b,
        version_a == version_b,
    ensures
        doc_url(pattern_a, name_a, version_a) == doc_url(pattern_b, name_b, version_b),
{
}

/// What stands above the heading: the existing readme without its trailing
/// whitespace, and one blank line, where there is a readme and it is
/// wanted; nothing otherwise.
pub open spec fn preamble(existing_readme: Option<Seq<char>>, wanted: bool) -> Seq<char> {
    match existing_readme {
        Some(readme) => if wanted {
            trimmed_end(readme) + "\n\n"@
        } else {
            Seq::<char>::empty()
        },
        None => Seq::<char>::empty(),
    }
}

/// The heading line and the blank line under it.
pub open spec fn heading(title: &TitleConfiguration) -> Seq<char> {
    repeated('#', title.size as nat) + " "@ + title.label@ + "\n\n"@
}

/// The list item of one record: the version and the day it was created,
/// linked to the version's documentation.
pub open spec fn item(doc_pattern: Seq<char>, package_name: Seq<char>, record: Record) -> Seq<
    char,
> {
    "- ["@ + record.version + " - "@ + record.creation.date.text() + "]("@ + doc_url(
        doc_pattern,
        package_name,
        record.version,
    ) + ")\n"@
}

/// The items of `records`, one after the other in the order of `records`.
pub open spec fn listing(
    doc_pattern: Seq<char>,
    package_name: Seq<char>,
    records: Seq<Record>,
) -> Seq<char>
    decreases records.len(),
{
    if records.len() == 0 {
        Seq::<char>::empty()
    } else {
        listing(doc_pattern, package_name, records.drop_last()) + item(
            doc_pattern,
            package_name,
            records.last(),
        )
    }
}

/// The whole document.
pub open spec fn rendered(
    existing_readme: Option<Seq<char>>,
    configuration: &Configuration,
    package_name: Seq<char>,
    records: Seq<Record>,
) -> Seq<char> {
    preamble(existing_readme, configuration.readme) + heading(&configuration.title) + listing(
        configuration.doc_pattern@,
        package_name,
        records,
    )
}

/// Appends the list item of `record` to `out`.
fn push_item(out: &mut Vec<char>, doc_pattern: &str, package_name: &str, record: &VersionRecord)
    ensures
        final(out)@ == old(out)@ + item(doc_pattern@, package_name@, record@),
{
    let url = apply_patter(doc_pattern, package_name, record.version.as_str());
    let date = record.creation.date.to_text();
    push_str(out, "- [");
    push_str(out, record.version.as_str());
    push_str(out, " - ");
    push_all(out, &date);
    push_str(out, "](");
    push_str(out, url.as_str());
    push_str(out, ")\n");
    assert(final(out)@ == old(out)@ + item(doc_pattern@, package_name@, record@)) by {
        let a = "- ["@;
        let b = record.version@;
        let c = " - "@;
        let d = record.creation.date.text();
        let e = "]("@;
        let f = url@;
        let g = ")\n"@;
        assert(old(out)@ + a + b + c + d + e + f + g == old(out)@ + (a + b + c + d + e + f + g));
    }
}

/// Renders the document: the existing readme where it is there and wanted,
/// the heading, and one item per record in the order of `records`.
pub fn render(
    existing_readme: Option<&str>,
    configuration: &Configuration,
    package_name: &str,
    records: &Vec<VersionRecord>,
) -> (document: String)
    ensures
        document@ == rendered(
            optional_text(existing_readme),
            configuration,
            package_name@,
            views(records@),
        ),
{
    let mut out: Vec<char> = Vec::new();
    if configuration.readme {
        if let Some(readme) = existing_readme {
            let kept = trim_end(&chars_of(readme));
            push_all(&mut out, &kept);
            push_str(&mut out, "\n\n");
        }
    }
    assert(out@ == preamble(optional_text(existing_readme), configuration.readme));
    let ghost above = out@;
    push_repeated(&mut out, '#', configuration.title.size);
    push_str(&mut out, " ");
    push_str(&mut out, configuration.title.label.as_str());
    push_str(&mut out, "\n\n");
    let ghost top = above + heading(&configuration.title);
    assert(out@ == top) by {
        let a = repeated('#', configuration.title.size as nat);
        let b = " "@;
        let c = configuration.title.label@;
        let d = "\n\n"@;
        assert(above + a + b + c + d == above + (a + b + c + d));
    }
    let mut i: usize = 0;
    let ghost said = views(records@);
    assert(said.take(0) == Seq::<Record>::empty());
    while i < records.len()
        invariant
            i <= records.len(),
            said == views(records@),
            out@ == top + listing(configuration.doc_pattern@, package_name@, said.take(i as int)),
        decreases records.len() - i,
    {
        let ghost before = listing(
            configuration.doc_pattern@,
            package_name@,
            said.take(i as int),
        );
        push_item(&mut out, configuration.doc_pattern.as_str(), package_name, &records[i]);
        proof {
            let next = said.take(i + 1);
            assert(next.drop_last() == said.take(i as int));
            assert(next.last() == records@[i as int]@);
            assert((top + before) + item(configuration.doc_pattern@, package_name@, said[i as int])
                == top + (before + item(
                configuration.doc_pattern@,
                package_name@,
                said[i as int],
            )));
        }
        i += 1;
    }
    assert(said.take(records.len() as int) == said);
    text_of(&out)
}

/// The items of two lists, one after the other, are the items of the lists
/// joined: the listing neither sorts nor drops.
pub proof fn lemma_listing_concat(
    doc_pattern: Seq<char>,
    package_name: Seq<char>,
    first: Seq<Record>,
    second: Seq<Record>,
)
    ensures
        listing(doc_pattern, package_name, first + second) == listing(
            doc_pattern,
            package_name,
            first,
        ) + listing(doc_pattern, package_name, second),
    decreases second.len(),
{
    if second.len() == 0 {
        assert(first + second == first);
    } else {
        lemma_listing_concat(doc_pattern, package_name, first, second.drop_last());
        assert((first + second).drop_last() == first + second.drop_last());
        assert((first + second).last() == second.last());
    }
}

/// The document keeps the order of the records: the item of each record
/// stands behind the items of all records before it and in front of the
/// items of all records after it.
pub proof fn lemma_render_keeps_order(
    existing_readme: Option<Seq<char>>,
    configuration: &Configuration,
    package_name: Seq<char>,
    records: Seq<Record>,
    at: int,
)
    requires
        0 <= at < records.len(),
    ensures
        rendered(existing_readme, configuration, package_name, records) == preamble(
            existing_readme,
            configuration.readme,
        ) + heading(&configuration.title) + listing(
            configuration.doc_pattern@,
            package_name,
            records.take(at),
        ) + item(configuration.doc_pattern@, package_name, records[at]) + listing(
            configuration.doc_pattern@,
            package_name,
            records.skip(at + 1),
        ),
{
    let pattern = configuration.doc_pattern@;
    let upto = records.take(at + 1);
    assert(records == upto + records.skip(at + 1));
    lemma_listing_concat(pattern, package_name, upto, records.skip(at + 1));
    assert(upto.drop_last() == records.take(at));
    assert(upto.last() == records[at]);
    let top = preamble(existing_readme, configuration.readme) + heading(&configuration.title);
    let a = listing(pattern, package_name, records.take(at));
    let b = item(pattern, package_name, records[at]);
    let c = listing(pattern, package_name, records.skip(at + 1));
    assert(top + ((a + b) + c) == top + a + b + c);
}

} // verus!
