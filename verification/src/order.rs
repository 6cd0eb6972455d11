//! The order of the version list: newest first.

use vstd::prelude::*;
use vstd::seq_lib::*;
use crate::version::{views, Record, VersionRecord};

verus! {

/// Whether no record stands in front of a newer one.
pub open spec fn newest_first(records: Seq<Record>) -> bool {
    forall|i: int, j: int|
        0 <= i < j < records.len() ==> records[i].creation.instant()
            >= records[j].creation.instant()
}

/// Whether every record is newer than all that follow it.
pub open spec fn strictly_newest_first(records: Seq<Record>) -> bool {
    forall|i: int, j: int|
        0 <= i < j < records.len() ==> records[i].creation.instant()
            > records[j].creation.instant()
}

/// Whether no two records were created at the same instant.
pub open spec fn distinct_instants(records: Seq<Record>) -> bool {
    forall|i: int, j: int|
        0 <= i < j < records.len() ==> records[i].creation.instant()
            != records[j].creation.instant()
}

/// `sorted` with `record` put behind the last record that is not older
/// than it.
pub open spec fn inserted(sorted: Seq<Record>, record: Record) -> Seq<Record>
    decreases sorted.len(),
{
    if sorted.len() == 0 {
        seq![record]
    } else if sorted.last().creation.instant() >= record.creation.instant() {
        sorted.push(record)
    } else {
        inserted(sorted.drop_last(), record).push(sorted.last())
    }
}

/// The records of `records` from the newest to the oldest. Records created
/// at the same instant keep the order they have in `records`.
pub open spec fn sorted_newest_first(records: Seq<Record>) -> Seq<Record>
    decreases records.len(),
{
    if records.len() == 0 {
        Seq::<Record>::empty()
    } else {
        inserted(sorted_newest_first(records.drop_last()), records.last())
    }
}

/// Where `inserted` puts a record: at the position behind which all
/// records are older and in front of which the nearest is not.
pub proof fn lemma_inserted_at(sorted: Seq<Record>, record: Record, at: int)
    requires
        0 <= at <= sorted.len(),
        forall|k: int|
            at <= k < sorted.len() ==> sorted[k].creation.instant() < record.creation.instant(),
        at > 0 ==> sorted[at - 1].creation.instant() >= record.creation.instant(),
    ensures
        inserted(sorted, record) == sorted.insert(at, record),
    decreases sorted.len(),
{
    if sorted.len() == 0 {
        assert(sorted.insert(at, record) =~= seq![record]);
    } else if at == sorted.len() {
        assert(sorted.insert(at, record) =~= sorted.push(record));
    } else {
        lemma_inserted_at(sorted.drop_last(), record, at);
        assert(sorted.insert(at, record) =~= sorted.drop_last().insert(at, record).push(
            sorted.last(),
        ));
    }
}

/// Inserting keeps exactly the records that were there, and adds the one.
pub proof fn lemma_inserted_holds(sorted: Seq<Record>, record: Record)
    ensures
        inserted(sorted, record).to_multiset() == sorted.to_multiset().insert(record),
        inserted(sorted, record).len() == sorted.len() + 1,
    decreases sorted.len(),
{
    broadcast use to_multiset_build;

    if sorted.len() == 0 {
        assert(seq![record] =~= Seq::<Record>::empty().push(record));
        assert(sorted =~= Seq::<Record>::empty());
    } else if sorted.last().creation.instant() >= record.creation.instant() {
    } else {
        lemma_inserted_holds(sorted.drop_last(), record);
        assert(sorted =~= sorted.drop_last().push(sorted.last()));
        assert(inserted(sorted, record).to_multiset() =~= sorted.to_multiset().insert(record));
    }
}

/// Every record of `inserted(sorted, record)` is `record` or one of `sorted`.
proof fn lemma_inserted_members(sorted: Seq<Record>, record: Record, k: int)
    requires
        0 <= k < inserted(sorted, record).len(),
    ensures
        inserted(sorted, record)[k] == record || exists|m: int|
            0 <= m < sorted.len() && sorted[m] == inserted(sorted, record)[k],
    decreases sorted.len(),
{
    lemma_inserted_holds(sorted, record);
    if sorted.len() == 0 {
    } else if sorted.last().creation.instant() >= record.creation.instant() {
        if k < sorted.len() {
            assert(sorted[k] == inserted(sorted, record)[k]);
        }
    } else {
        lemma_inserted_holds(sorted.drop_last(), record);
        if k < sorted.len() {
            lemma_inserted_members(sorted.drop_last(), record, k);
            let front = inserted(sorted.drop_last(), record);
            if front[k] != record {
                let m = choose|m: int| 0 <= m < sorted.drop_last().len() && sorted.drop_last()[m] == front[k];
                assert(sorted[m] == inserted(sorted, record)[k]);
            }
        } else {
            assert(sorted[sorted.len() - 1] == inserted(sorted, record)[k]);
        }
    }
}

/// Inserting into an ordered list leaves it ordered.
pub proof fn lemma_inserted_ordered(sorted: Seq<Record>, record: Record)
    requires
        newest_first(sorted),
    ensures
        newest_first(inserted(sorted, record)),
    decreases sorted.len(),
{
    let out = inserted(sorted, record);
    lemma_inserted_holds(sorted, record);
    if sorted.len() == 0 {
    } else if sorted.last().creation.instant() >= record.creation.instant() {
        assert forall|i: int, j: int| 0 <= i < j < out.len() implies out[i].creation.instant()
            >= out[j].creation.instant() by {
            if j == sorted.len() {
                if i < sorted.len() - 1 {
                    assert(sorted[i].creation.instant() >= sorted[sorted.len() - 1].creation.instant());
                }
            }
        }
    } else {
        let front = inserted(sorted.drop_last(), record);
        assert(newest_first(sorted.drop_last()));
        lemma_inserted_ordered(sorted.drop_last(), record);
        lemma_inserted_holds(sorted.drop_last(), record);
        assert forall|i: int, j: int| 0 <= i < j < out.len() implies out[i].creation.instant()
            >= out[j].creation.instant() by {
            if j == out.len() - 1 {
                lemma_inserted_members(sorted.drop_last(), record, i);
                if front[i] != record {
                    let m = choose|m: int|
                        0 <= m < sorted.drop_last().len() && sorted.drop_last()[m] == front[i];
                    assert(sorted[m].creation.instant() >= sorted[sorted.len() - 1].creation.instant());
                }
            } else {
                assert(front[i].creation.instant() >= front[j].creation.instant());
            }
        }
    }
}

/// Sorting yields a list in which no record stands in front of a newer one,
/// whatever the order of the records that went in.
pub proof fn lemma_sorted_is_ordered(records: Seq<Record>)
    ensures
        newest_first(sorted_newest_first(records)),
    decreases records.len(),
{
    if records.len() > 0 {
        lemma_sorted_is_ordered(records.drop_last());
        lemma_inserted_ordered(sorted_newest_first(records.drop_last()), records.last());
    }
}

/// Sorting keeps every record, as often as it was there, and adds none.
pub proof fn lemma_sorted_is_permutation(records: Seq<Record>)
    ensures
        sorted_newest_first(records).to_multiset() == records.to_multiset(),
        sorted_newest_first(records).len() == records.len(),
    decreases records.len(),
{
    broadcast use to_multiset_build;

    if records.len() == 0 {
        assert(records =~= Seq::<Record>::empty());
    } else {
        let front = records.drop_last();
        lemma_sorted_is_permutation(front);
        lemma_inserted_holds(sorted_newest_first(front), records.last());
        assert(records =~= front.push(records.last()));
        assert(front.push(records.last()).to_multiset() =~= front.to_multiset().insert(
            records.last(),
        ));
    }
}

/// Every record of the sorted list is one of the records that went in.
pub proof fn lemma_sorted_members(records: Seq<Record>, k: int)
    requires
        0 <= k < sorted_newest_first(records).len(),
    ensures
        exists|m: int| 0 <= m < records.len() && records[m] == sorted_newest_first(records)[k],
    decreases records.len(),
{
    lemma_sorted_is_permutation(records);
    let front = records.drop_last();
    let sorted = sorted_newest_first(front);
    lemma_sorted_is_permutation(front);
    lemma_inserted_members(sorted, records.last(), k);
    if inserted(sorted, records.last())[k] == records.last() {
        assert(records[records.len() - 1] == sorted_newest_first(records)[k]);
    } else {
        let n = choose|n: int| 0 <= n < sorted.len() && sorted[n] == inserted(sorted, records.last())[k];
        lemma_sorted_members(front, n);
        let m = choose|m: int| 0 <= m < front.len() && front[m] == sorted[n];
        assert(records[m] == sorted_newest_first(records)[k]);
    }
}

/// Inserting a record created at an instant of its own into a strictly
/// ordered list leaves it strictly ordered.
proof fn lemma_inserted_strict(sorted: Seq<Record>, record: Record)
    requires
        strictly_newest_first(sorted),
        forall|k: int|
            0 <= k < sorted.len() ==> sorted[k].creation.instant() != record.creation.instant(),
    ensures
        strictly_newest_first(inserted(sorted, record)),
    decreases sorted.len(),
{
    let out = inserted(sorted, record);
    lemma_inserted_holds(sorted, record);
    if sorted.len() == 0 {
    } else if sorted.last().creation.instant() >= record.creation.instant() {
        assert forall|i: int, j: int| 0 <= i < j < out.len() implies out[i].creation.instant()
            > out[j].creation.instant() by {
            if j == sorted.len() {
                if i < sorted.len() - 1 {
                    assert(sorted[i].creation.instant() > sorted[sorted.len() - 1].creation.instant());
                }
            }
        }
    } else {
        let front = inserted(sorted.drop_last(), record);
        assert(strictly_newest_first(sorted.drop_last()));
        lemma_inserted_strict(sorted.drop_last(), record);
        lemma_inserted_holds(sorted.drop_last(), record);
        assert forall|i: int, j: int| 0 <= i < j < out.len() implies out[i].creation.instant()
            > out[j].creation.instant() by {
            if j == out.len() - 1 {
                lemma_inserted_members(sorted.drop_last(), record, i);
                if front[i] != record {
                    let m = choose|m: int|
                        0 <= m < sorted.drop_last().len() && sorted.drop_last()[m] == front[i];
                    assert(sorted[m].creation.instant() > sorted[sorted.len() - 1].creation.instant());
                }
            } else {
                assert(front[i].creation.instant() > front[j].creation.instant());
            }
        }
    }
}

/// Where no two records were created at the same instant, every record of
/// the sorted list is newer than all that follow it.
pub proof fn lemma_sorted_is_strict(records: Seq<Record>)
    requires
        distinct_instants(records),
    ensures
        strictly_newest_first(sorted_newest_first(records)),
    decreases records.len(),
{
    if records.len() > 0 {
        let front = records.drop_last();
        let sorted = sorted_newest_first(front);
        assert(distinct_instants(front));
        lemma_sorted_is_strict(front);
        assert forall|k: int| 0 <= k < sorted.len() implies sorted[k].creation.instant()
            != records.last().creation.instant() by {
            lemma_sorted_members(front, k);
            let m = choose|m: int| 0 <= m < front.len() && front[m] == sorted[k];
            assert(records[m].creation.instant() != records[records.len() - 1].creation.instant());
        }
        lemma_inserted_strict(sorted, records.last());
    }
}

/// A record of `from` stands somewhere in every list that holds the same
/// records.
proof fn lemma_member_of_both(from: Seq<Record>, to: Seq<Record>, at: int) -> (found: int)
    requires
        from.to_multiset() == to.to_multiset(),
        0 <= at < from.len(),
    ensures
        0 <= found < to.len(),
        to[found] == from[at],
{
    to_multiset_contains(from, from[at]);
    to_multiset_contains(to, from[at]);
    assert(from.contains(from[at]));
    choose|k: int| 0 <= k < to.len() && to[k] == from[at]
}

/// Records created at instants of their own stay so in whatever order
/// they are listed.
proof fn lemma_distinct_in_any_order(first: Seq<Record>, second: Seq<Record>)
    requires
        first.to_multiset() == second.to_multiset(),
        distinct_instants(first),
    ensures
        distinct_instants(second),
{
    assert(first.no_duplicates()) by {
        assert forall|i: int, j: int|
            0 <= i < first.len() && 0 <= j < first.len() && i != j implies first[i] != first[j] by {
            if i < j {
                assert(first[i].creation.instant() != first[j].creation.instant());
            } else {
                assert(first[j].creation.instant() != first[i].creation.instant());
            }
        }
    }
    first.lemma_multiset_has_no_duplicates();
    second.lemma_multiset_has_no_duplicates_conv();
    assert forall|i: int, j: int| 0 <= i < j < second.len() implies second[i].creation.instant()
        != second[j].creation.instant() by {
        let p = lemma_member_of_both(second, first, i);
        let q = lemma_member_of_both(second, first, j);
        assert(second[i] != second[j]);
        if p < q {
            assert(first[p].creation.instant() != first[q].creation.instant());
        } else {
            assert(first[q].creation.instant() != first[p].creation.instant());
        }
    }
}

/// There is only one way to list given records so that each is newer than
/// all that follow it.
proof fn lemma_strict_order_is_unique(first: Seq<Record>, second: Seq<Record>)
    requires
        first.to_multiset() == second.to_multiset(),
        strictly_newest_first(first),
        strictly_newest_first(second),
    ensures
        first == second,
    decreases first.len(),
{
    to_multiset_len(first);
    to_multiset_len(second);
    if first.len() == 0 {
        assert(first =~= second);
    } else {
        let m = lemma_member_of_both(second, first, second.len() - 1);
        let k = lemma_member_of_both(first, second, first.len() - 1);
        if m < first.len() - 1 {
            assert(first[m].creation.instant() > first[first.len() - 1].creation.instant());
            if k < second.len() - 1 {
                assert(second[k].creation.instant() > second[second.len() - 1].creation.instant());
            }
        }
        assert(first.last() == second.last());
        let oldest = first.last();
        assert(first =~= first.drop_last().push(oldest));
        assert(second =~= second.drop_last().push(oldest));
        to_multiset_build(first.drop_last(), oldest);
        to_multiset_build(second.drop_last(), oldest);
        assert(first.drop_last().to_multiset() =~= first.to_multiset().remove(oldest));
        assert(second.drop_last().to_multiset() =~= second.to_multiset().remove(oldest));
        lemma_strict_order_is_unique(first.drop_last(), second.drop_last());
    }
}

/// The order in which the records come in does not show in the sorted
/// list: where no two records were created at the same instant, two lists
/// of the same records sort to the same list.
pub proof fn lemma_sorted_ignores_order(first: Seq<Record>, second: Seq<Record>)
    requires
        first.to_multiset() == second.to_multiset(),
        distinct_instants(first),
    ensures
        sorted_newest_first(first) == sorted_newest_first(second),
        strictly_newest_first(sorted_newest_first(first)),
{
    lemma_distinct_in_any_order(first, second);
    lemma_sorted_is_strict(first);
    lemma_sorted_is_strict(second);
    lemma_sorted_is_permutation(first);
    lemma_sorted_is_permutation(second);
    lemma_strict_order_is_unique(sorted_newest_first(first), sorted_newest_first(second));
}

/// Sorts the records from the newest to the oldest. Records created at the
/// same instant keep their order.
pub fn sort_newest_first(records: &Vec<VersionRecord>) -> (out: Vec<VersionRecord>)
    ensures
        views(out@) == sorted_newest_first(views(records@)),
        newest_first(views(out@)),
        views(out@).to_multiset() == views(records@).to_multiset(),
        out.len() == records.len(),
{
    let mut out: Vec<VersionRecord> = Vec::new();
    let ghost said = views(records@);
    let mut i: usize = 0;
    assert(said.take(0) =~= Seq::<Record>::empty());
    assert(views(out@) =~= Seq::<Record>::empty());
    while i < records.len()
        invariant
            i <= records.len(),
            said == views(records@),
            views(out@) == sorted_newest_first(said.take(i as int)),
            out.len() == i,
        decreases records.len() - i,
    {
        let record = records[i].duplicate();
        let mut at: usize = out.len();
        while at > 0 && !out[at - 1].creation.not_before(&record.creation)
            invariant
                at <= out.len(),
                forall|k: int|
                    at <= k < out.len() ==> out@[k].creation.instant()
                        < record.creation.instant(),
            decreases at,
        {
            at -= 1;
        }
        let ghost before = views(out@);
        proof {
            assert forall|k: int| at <= k < before.len() implies before[k].creation.instant()
                < record@.creation.instant() by {
                assert(before[k] == out@[k]@);
            }
            if at > 0 {
                assert(before[at - 1] == out@[at - 1]@);
            }
            lemma_inserted_at(before, record@, at as int);
            assert(said.take(i + 1).drop_last() =~= said.take(i as int));
            assert(said.take(i + 1).last() == records@[i as int]@);
        }
        out.insert(at, record);
        assert(views(out@) =~= before.insert(at as int, record@));
        i += 1;
    }
    proof {
        assert(said.take(records.len() as int) =~= said);
        lemma_sorted_is_ordered(said);
        lemma_sorted_is_permutation(said);
    }
    out
}

} // verus!
