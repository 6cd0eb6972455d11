//! The registry strategy: the versions as a registry's API lists them.
//!
//! Asking the registry is the caller's part. This module says which address
//! to ask, and turns the entries of the answer into records, in the order of
//! the answer: nothing is sorted, filtered or dropped.

use vstd::prelude::*;
use crate::error::{fails_with, Failure, FailureKind};
use crate::text::{chars_of, push_str, text_of, trim_trailing, without_trailing};
use crate::version::{rfc3339_reading, views, Record, Timestamp, VersionRecord};

verus! {

/// One entry of the registry's answer, as it was sent.
#[derive(Debug)]
pub struct RegistryEntry {
    /// The version, from the field `num`.
    pub num: String,
    /// The time of publication, from the field `created_at`.
    pub created_at: String,
}

/// The address that lists the versions of `package_name`: the API's base
/// without trailing slashes, then `/crates/`, the name and `/versions`.
pub open spec fn versions_url(api_base_url: Seq<char>, package_name: Seq<char>) -> Seq<char> {
    without_trailing(api_base_url, '/') + "/crates/"@ + package_name + "/versions"@
}

/// Writes out the address that lists the versions of `package_name`.
pub fn registry_versions_url(api_base_url: &str, package_name: &str) -> (url: String)
    ensures
        url@ == versions_url(api_base_url@, package_name@),
{
    let mut out = trim_trailing(&chars_of(api_base_url), '/');
    push_str(&mut out, "/crates/");
    push_str(&mut out, package_name);
    push_str(&mut out, "/versions");
    text_of(&out)
}

/// What an entry says, where its time of publication can be read.
pub open spec fn entry_record(entry: RegistryEntry) -> Option<Record> {
    match rfc3339_reading(entry.created_at@) {
        Some(creation) => Some(Record { version: entry.num@, creation }),
        None => None,
    }
}

/// Whether the time of publication of every entry can be read.
pub open spec fn all_readable(entries: Seq<RegistryEntry>) -> bool {
    forall|i: int| 0 <= i < entries.len() ==> (#[trigger] entry_record(entries[i])) is Some
}

/// What the entries say, one record per entry, in the order of the entries.
pub open spec fn entry_records(entries: Seq<RegistryEntry>) -> Seq<Record> {
    Seq::new(entries.len(), |i: int| entry_record(entries[i]).unwrap())
}

/// Makes the record of a version from what was read of its time of
/// publication. Where nothing could be read, the answer is malformed.
pub fn record_of_reading(version: String, reading: Option<Timestamp>) -> (r: Result<
    VersionRecord,
    Failure,
>)
    ensures
        match reading {
            Some(creation) => r == Ok::<VersionRecord, Failure>(VersionRecord { version, creation }),
            None => fails_with(r, FailureKind::Parse, "created_at is not an RFC 3339 timestamp"),
        },
{
    match reading {
        Some(creation) => Ok(VersionRecord { version, creation }),
        None => Err(Failure::new(FailureKind::Parse, "created_at is not an RFC 3339 timestamp")),
    }
}

/// Turns the entries of the registry's answer into records.
///
/// Succeeds exactly where every time of publication can be read, and then
/// returns one record per entry, in the registry's order.
pub fn registry_records(entries: &Vec<RegistryEntry>) -> (r: Result<Vec<VersionRecord>, Failure>)
    ensures
        match r {
            Ok(records) => all_readable(entries@) && views(records@) == entry_records(entries@),
            Err(_) => !all_readable(entries@) && fails_with(
                r,
                FailureKind::Parse,
                "created_at is not an RFC 3339 timestamp",
            ),
        },
{
    let mut records: Vec<VersionRecord> = Vec::new();
    let mut i: usize = 0;
    while i < entries.len()
        invariant
            i <= entries.len(),
            records.len() == i,
            forall|k: int| 0 <= k < i ==> (#[trigger] entry_record(entries@[k])) is Some,
            forall|k: int| 0 <= k < i ==> Some(records@[k]@) == #[trigger] entry_record(entries@[k]),
        decreases entries.len() - i,
    {
        let reading = Timestamp::parse_rfc3339(entries[i].created_at.as_str());
        match record_of_reading(entries[i].num.clone(), reading) {
            Ok(record) => {
                records.push(record);
            },
            Err(e) => {
                assert(entry_record(entries@[i as int]) is None);
                return Err(e);
            },
        }
        i += 1;
    }
    assert(views(records@) =~= entry_records(entries@));
    Ok(records)
}

/// The records come out in the order in which the registry sent the
/// entries: the record at each place is the one of the entry at that place.
pub proof fn lemma_registry_keeps_order(entries: Seq<RegistryEntry>, at: int)
    requires
        all_readable(entries),
        0 <= at < entries.len(),
    ensures
        entry_records(entries).len() == entries.len(),
        Some(entry_records(entries)[at]) == entry_record(entries[at]),
        entry_records(entries)[at].version == entries[at].num@,
{
    assert(entry_record(entries[at]) is Some);
}

} // verus!
