//! Structured data as a package's metadata holds it, as far as a
//! configuration is read from it.

use vstd::prelude::*;

verus! {

/// A value of the metadata.
#[derive(Debug)]
pub enum Value {
    /// The explicit absence of a value.
    Null,
    Bool(bool),
    /// A whole number that is not negative.
    Natural(u64),
    Text(String),
    /// Named values. A well-formed document names each only once.
    Table(Vec<Entry>),
    /// Anything that no configuration field accepts: a negative or
    /// fractional number, or a list.
    Other,
}

/// A named value of a table.
#[derive(Debug)]
pub struct Entry {
    pub key: String,
    pub value: Value,
}

/// What a table holds under a name.
pub enum Lookup<'a> {
    /// No entry has the name.
    Absent,
    /// Exactly one entry has the name, with this value.
    Present(&'a Value),
    /// More than one entry has the name.
    Twice,
}

/// Whether `entry` is named `name` or `alias`.
pub open spec fn is_named(entry: Entry, name: Seq<char>, alias: Seq<char>) -> bool {
    entry.key@ == name || entry.key@ == alias
}

/// What `entries` hold under `name`, which may also be written `alias`.
pub open spec fn lookup(entries: Seq<Entry>, name: Seq<char>, alias: Seq<char>) -> Lookup<'static>
    decreases entries.len(),
{
    if entries.len() == 0 {
        Lookup::Absent
    } else {
        let front = lookup(entries.drop_last(), name, alias);
        if is_named(entries.last(), name, alias) {
            match front {
                Lookup::Absent => Lookup::Present(&entries.last().value),
                _ => Lookup::Twice,
            }
        } else {
            front
        }
    }
}

/// Whether every entry of `entries` is named `first` or `second`.
pub open spec fn only_named(entries: Seq<Entry>, first: Seq<char>, second: Seq<char>) -> bool {
    forall|i: int| 0 <= i < entries.len() ==> is_named(#[trigger] entries[i], first, second)
}

/// Tells whether two texts are the same.
pub fn same_text(a: &str, b: &str) -> (same: bool)
    ensures
        same == (a@ == b@),
{
    a.to_owned() == b.to_owned()
}

/// Looks up `name`, which may also be written `alias`, in a table.
pub fn find<'a>(entries: &'a Vec<Entry>, name: &str, alias: &str) -> (found: Lookup<'a>)
    ensures
        found == lookup(entries@, name@, alias@),
{
    let mut found: Lookup<'a> = Lookup::Absent;
    let mut i: usize = 0;
    assert(entries@.take(0) =~= Seq::<Entry>::empty());
    while i < entries.len()
        invariant
            i <= entries.len(),
            found == lookup(entries@.take(i as int), name@, alias@),
        decreases entries.len() - i,
    {
        proof {
            assert(entries@.take(i + 1).drop_last() =~= entries@.take(i as int));
            assert(entries@.take(i + 1).last() == entries@[i as int]);
        }
        let key = entries[i].key.as_str();
        if same_text(key, name) || same_text(key, alias) {
            found =
            match found {
                Lookup::Absent => Lookup::Present(&entries[i].value),
                _ => Lookup::Twice,
            };
        }
        i += 1;
    }
    assert(entries@.take(entries.len() as int) =~= entries@);
    found
}

/// Tells whether a table holds nothing but entries named `first` or
/// `second`.
pub fn holds_only(entries: &Vec<Entry>, first: &str, second: &str) -> (only: bool)
    ensures
        only == only_named(entries@, first@, second@),
{
    let mut i: usize = 0;
    while i < entries.len()
        invariant
            i <= entries.len(),
            forall|k: int| 0 <= k < i ==> is_named(#[trigger] entries@[k], first@, second@),
        decreases entries.len() - i,
    {
        let key = entries[i].key.as_str();
        if !(same_text(key, first) || same_text(key, second)) {
            return false;
        }
        i += 1;
    }
    true
}

} // verus!
