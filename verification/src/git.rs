//! The repository strategy: the versions that the tags of a repository
//! stand for.
//!
//! Reading the repository is the caller's part: it lists every tag with its
//! reference name and, where the tag leads to a commit, that commit's time.
//! This module picks the tags that match the pattern, takes the version out
//! of each name, and orders the records from the newest to the oldest.

use vstd::prelude::*;
use vstd::seq_lib::*;
use vstd::utf8::*;
use regex::Regex;
use crate::error::{fails_with, Failure, FailureKind};
use crate::order::{
    distinct_instants,
    lemma_sorted_ignores_order,
    newest_first,
    sort_newest_first,
    sorted_newest_first,
    strictly_newest_first,
};
use crate::pattern::{tag_version_of_bytes, version_of_tag};
use crate::version::{utc_date, views, Record, Timestamp, VersionRecord};

verus! {

/// A tag as the repository lists it.
#[derive(Debug)]
pub struct TagEntry {
    /// The reference name, such as `refs/tags/foo-v1.0.0`.
    pub name: Vec<u8>,
    /// The time of the commit that the tag leads to, directly or through an
    /// annotated tag, in seconds since 1970-01-01T00:00:00Z; `None` where
    /// the tag leads to no commit.
    pub commit_seconds: Option<i64>,
}

/// The version that a tag stands for; `None` where its name does not match
/// the pattern or is no text at all.
pub open spec fn entry_version(re: Regex, tag: TagEntry) -> Option<Seq<char>> {
    if valid_utf8(tag.name@) {
        version_of_tag(re, decode_utf8(tag.name@))
    } else {
        None
    }
}

/// The moment of a commit, in UTC; `None` where there is no commit or its
/// time cannot be represented.
pub open spec fn commit_creation(commit_seconds: Option<i64>) -> Option<Timestamp> {
    match commit_seconds {
        Some(seconds) => match utc_date(seconds as int) {
            Some(date) => Some(Timestamp { seconds, nanosecond: 0, date }),
            None => None,
        },
        None => None,
    }
}

/// Whether a tag matches the pattern but has no commit time to go with its
/// version: the repository is damaged.
pub open spec fn tag_is_broken(re: Regex, tag: TagEntry) -> bool {
    entry_version(re, tag) is Some && commit_creation(tag.commit_seconds) is None
}

/// Whether any of the tags is broken.
pub open spec fn any_broken(re: Regex, tags: Seq<TagEntry>) -> bool {
    exists|i: int| 0 <= i < tags.len() && #[trigger] tag_is_broken(re, tags[i])
}

/// Whether the tag at `at` is the first broken one.
pub open spec fn first_broken(re: Regex, tags: Seq<TagEntry>, at: int) -> bool {
    &&& 0 <= at < tags.len()
    &&& tag_is_broken(re, tags[at])
    &&& forall|k: int| 0 <= k < at ==> !#[trigger] tag_is_broken(re, tags[k])
}

/// What is reported of a broken tag.
pub open spec fn broken_message(tag: TagEntry) -> Seq<char> {
    if tag.commit_seconds is None {
        "tag does not lead to a commit"@
    } else {
        "commit time is out of range"@
    }
}

/// The records of the matching tags, one per tag, in the order of the
/// tags. Two tags with one version give two records.
pub open spec fn tag_records(re: Regex, tags: Seq<TagEntry>) -> Seq<Record>
    decreases tags.len(),
{
    if tags.len() == 0 {
        Seq::<Record>::empty()
    } else {
        let front = tag_records(re, tags.drop_last());
        match (entry_version(re, tags.last()), commit_creation(tags.last().commit_seconds)) {
            (Some(version), Some(creation)) => front.push(Record { version, creation }),
            _ => front,
        }
    }
}

/// Makes the record of a matching tag from the time of its commit.
///
/// A tag that leads to no commit, or to one whose time cannot be
/// represented, is a failure of the repository.
pub fn commit_record(version: String, commit_seconds: Option<i64>) -> (r: Result<
    VersionRecord,
    Failure,
>)
    ensures
        match commit_creation(commit_seconds) {
            Some(creation) => r == Ok::<VersionRecord, Failure>(VersionRecord { version, creation }),
            None => if commit_seconds is None {
                fails_with(r, FailureKind::Repository, "tag does not lead to a commit")
            } else {
                fails_with(r, FailureKind::Repository, "commit time is out of range")
            },
        },
{
    match commit_seconds {
        Some(seconds) => match Timestamp::from_unix(seconds) {
            Some(creation) => Ok(VersionRecord { version, creation }),
            None => Err(Failure::new(FailureKind::Repository, "commit time is out of range")),
        },
        None => Err(Failure::new(FailureKind::Repository, "tag does not lead to a commit")),
    }
}

/// Gathers the version records from the tags of a repository.
///
/// Tags that do not match `re` are passed over. Every matching tag gives
/// one record, with the version that the first capture group holds and the
/// time of the tag's commit. The records are ordered from the newest to the
/// oldest, whatever the order of `tags`. A matching tag without a commit
/// time fails the whole run; the failure reports the first such tag.
pub fn gather_from_tags(re: &Regex, tags: &Vec<TagEntry>) -> (r: Result<Vec<VersionRecord>, Failure>)
    ensures
        match r {
            Ok(records) => {
                &&& !any_broken(*re, tags@)
                &&& views(records@) == sorted_newest_first(tag_records(*re, tags@))
                &&& newest_first(views(records@))
            },
            Err(e) => {
                &&& any_broken(*re, tags@)
                &&& e.kind == FailureKind::Repository
                &&& exists|at: int| #[trigger]
                    first_broken(*re, tags@, at) && e.message@ == broken_message(tags@[at])
            },
        },
{
    let mut found: Vec<VersionRecord> = Vec::new();
    let mut i: usize = 0;
    assert(tags@.take(0) =~= Seq::<TagEntry>::empty());
    assert(views(found@) =~= Seq::<Record>::empty());
    while i < tags.len()
        invariant
            i <= tags.len(),
            forall|k: int| 0 <= k < i ==> !#[trigger] tag_is_broken(*re, tags@[k]),
            views(found@) == tag_records(*re, tags@.take(i as int)),
        decreases tags.len() - i,
    {
        let ghost before = views(found@);
        proof {
            assert(tags@.take(i + 1).drop_last() =~= tags@.take(i as int));
            assert(tags@.take(i + 1).last() == tags@[i as int]);
        }
        match tag_version_of_bytes(re, tags[i].name.as_slice()) {
            Some(version) => {
                match commit_record(version, tags[i].commit_seconds) {
                    Ok(record) => {
                        found.push(record);
                        assert(views(found@) =~= before.push(record@));
                    },
                    Err(e) => {
                        assert(first_broken(*re, tags@, i as int));
                        return Err(e);
                    },
                }
            },
            None => {},
        }
        i += 1;
    }
    assert(tags@.take(tags.len() as int) =~= tags@);
    Ok(sort_newest_first(&found))
}

/// The records of two lists of tags, one after the other, are the records
/// of the lists joined.
pub proof fn lemma_tag_records_concat(re: Regex, first: Seq<TagEntry>, second: Seq<TagEntry>)
    ensures
        tag_records(re, first + second) == tag_records(re, first) + tag_records(re, second),
    decreases second.len(),
{
    if second.len() == 0 {
        assert(first + second =~= first);
        assert(tag_records(re, first) + tag_records(re, second) =~= tag_records(re, first));
    } else {
        lemma_tag_records_concat(re, first, second.drop_last());
        assert((first + second).drop_last() =~= first + second.drop_last());
        assert((first + second).last() == second.last());
        let joined = tag_records(re, first) + tag_records(re, second.drop_last());
        match (entry_version(re, second.last()), commit_creation(second.last().commit_seconds)) {
            (Some(version), Some(creation)) => {
                let record = Record { version, creation };
                assert(joined.push(record) =~= tag_records(re, first) + tag_records(
                    re,
                    second.drop_last(),
                ).push(record));
            },
            _ => {},
        }
    }
}

/// The same tags give the same records, whatever the order of the tags.
pub proof fn lemma_tag_records_of_same_tags(re: Regex, first: Seq<TagEntry>, second: Seq<TagEntry>)
    requires
        first.to_multiset() == second.to_multiset(),
    ensures
        tag_records(re, first).to_multiset() == tag_records(re, second).to_multiset(),
    decreases first.len(),
{
    to_multiset_len(first);
    to_multiset_len(second);
    if first.len() == 0 {
        assert(first =~= second);
    } else {
        let tag = first.last();
        to_multiset_contains(first, tag);
        to_multiset_contains(second, tag);
        assert(first.contains(tag)) by {
            assert(first[first.len() - 1] == tag);
        }
        let at = choose|k: int| 0 <= k < second.len() && second[k] == tag;
        let front = first.drop_last();
        let rest = second.remove(at);
        assert(first =~= front.push(tag));
        to_multiset_build(front, tag);
        to_multiset_remove(second, at);
        assert(front.to_multiset() =~= first.to_multiset().remove(tag));
        lemma_tag_records_of_same_tags(re, front, rest);

        let before = second.take(at);
        let after = second.skip(at + 1);
        let one = seq![tag];
        assert(second =~= before + one + after);
        assert(rest =~= before + after);
        assert(first =~= front + one);
        lemma_tag_records_concat(re, front, one);
        lemma_tag_records_concat(re, before, one);
        lemma_tag_records_concat(re, before + one, after);
        lemma_tag_records_concat(re, before, after);
        let b = tag_records(re, before);
        let o = tag_records(re, one);
        let a = tag_records(re, after);
        let f = tag_records(re, front);
        lemma_multiset_commutative(f, o);
        lemma_multiset_commutative(b, o);
        lemma_multiset_commutative(b + o, a);
        lemma_multiset_commutative(b, a);
        assert((f + o).to_multiset() =~= ((b + o) + a).to_multiset());
    }
}

/// Whether a tag is broken does not depend on where it stands in the list.
pub proof fn lemma_broken_in_any_order(re: Regex, first: Seq<TagEntry>, second: Seq<TagEntry>)
    requires
        first.to_multiset() == second.to_multiset(),
    ensures
        any_broken(re, first) == any_broken(re, second),
{
    if any_broken(re, first) {
        let i = choose|i: int| 0 <= i < first.len() && #[trigger] tag_is_broken(re, first[i]);
        to_multiset_contains(first, first[i]);
        to_multiset_contains(second, first[i]);
        assert(first.contains(first[i]));
        let k = choose|k: int| 0 <= k < second.len() && second[k] == first[i];
        assert(tag_is_broken(re, second[k]));
    }
    if any_broken(re, second) {
        let i = choose|i: int| 0 <= i < second.len() && #[trigger] tag_is_broken(re, second[i]);
        to_multiset_contains(first, second[i]);
        to_multiset_contains(second, second[i]);
        assert(second.contains(second[i]));
        let k = choose|k: int| 0 <= k < first.len() && first[k] == second[i];
        assert(tag_is_broken(re, first[k]));
    }
}

/// The order in which a repository lists its tags does not show in what is
/// gathered: two lists of the same tags fail together, and where the records
/// were created at instants of their own, both give the same list, each
/// record newer than all that follow it.
pub proof fn lemma_gathering_ignores_order(re: Regex, first: Seq<TagEntry>, second: Seq<TagEntry>)
    requires
        first.to_multiset() == second.to_multiset(),
        distinct_instants(tag_records(re, first)),
    ensures
        any_broken(re, first) == any_broken(re, second),
        sorted_newest_first(tag_records(re, first)) == sorted_newest_first(
            tag_records(re, second),
        ),
        strictly_newest_first(sorted_newest_first(tag_records(re, first))),
{
    lemma_broken_in_any_order(re, first, second);
    lemma_tag_records_of_same_tags(re, first, second);
    lemma_sorted_ignores_order(tag_records(re, first), tag_records(re, second));
}

} // verus!
