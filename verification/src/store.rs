//! A model of the keyed record store: a sequence of records with at most one
//! record per owner, its `get` and `put`, and what `put` does to sums.

use vstd::prelude::*;
use crate::state::Identity;
use crate::sums::{lemma_total_push, lemma_total_update, total};

verus! {

/// Whether `user` owns one of `records`.
pub open spec fn holds<T>(records: Seq<T>, owner: spec_fn(T) -> Identity, user: Identity) -> bool {
    exists|i: int| 0 <= i < records.len() && owner(#[trigger] records[i]) == user
}

/// Where the record of `user` stands, if there is one.
pub open spec fn index_of<T>(records: Seq<T>, owner: spec_fn(T) -> Identity, user: Identity) -> int {
    choose|i: int| 0 <= i < records.len() && owner(#[trigger] records[i]) == user
}

/// The record of `user`, if there is one.
pub open spec fn get<T>(records: Seq<T>, owner: spec_fn(T) -> Identity, user: Identity) -> Option<T> {
    if holds(records, owner, user) {
        Some(records[index_of(records, owner, user)])
    } else {
        None
    }
}

/// `record` in the place of its owner's record, or as a new record where the
/// owner had none.
pub open spec fn put<T>(records: Seq<T>, owner: spec_fn(T) -> Identity, record: T) -> Seq<T> {
    if holds(records, owner, owner(record)) {
        records.update(index_of(records, owner, owner(record)), record)
    } else {
        records.push(record)
    }
}

/// No owner has two records.
pub open spec fn distinct<T>(records: Seq<T>, owner: spec_fn(T) -> Identity) -> bool {
    forall|i: int, j: int| 0 <= i < j < records.len() ==> owner(#[trigger] records[i]) != owner(#[trigger] records[j])
}

/// Writing a record back in its owner's place replaces that record and no
/// other, and changes a sum by the difference of the two weights.
pub proof fn lemma_put_existing<T>(records: Seq<T>, owner: spec_fn(T) -> Identity, record: T, weight: spec_fn(T) -> int)
    requires
        holds(records, owner, owner(record)),
    ensures
        0 <= index_of(records, owner, owner(record)) < records.len(),
        owner(records[index_of(records, owner, owner(record))]) == owner(record),
        get(records, owner, owner(record)) == Some(records[index_of(records, owner, owner(record))]),
        put(records, owner, record) == records.update(index_of(records, owner, owner(record)), record),
        total(put(records, owner, record), weight) == total(records, weight) - weight(
            records[index_of(records, owner, owner(record))],
        ) + weight(record),
{
    lemma_total_update(records, index_of(records, owner, owner(record)), record, weight);
}

/// Writing an owner's first record appends it and adds its weight to a sum.
pub proof fn lemma_put_new<T>(records: Seq<T>, owner: spec_fn(T) -> Identity, record: T, weight: spec_fn(T) -> int)
    requires
        !holds(records, owner, owner(record)),
    ensures
        put(records, owner, record) == records.push(record),
        forall|i: int| 0 <= i < records.len() ==> owner(#[trigger] records[i]) != owner(record),
        total(put(records, owner, record), weight) == total(records, weight) + weight(record),
{
    lemma_total_push(records, record, weight);
}

/// `put` keeps the owners distinct.
pub proof fn lemma_put_keeps_distinct<T>(records: Seq<T>, owner: spec_fn(T) -> Identity, record: T)
    requires
        distinct(records, owner),
    ensures
        distinct(put(records, owner, record), owner),
{
    let after = put(records, owner, record);
    if holds(records, owner, owner(record)) {
        let at = index_of(records, owner, owner(record));
        assert forall|i: int, j: int| 0 <= i < j < after.len() implies owner(#[trigger] after[i]) != owner(#[trigger] after[j]) by {
            assert(owner(after[i]) == owner(records[i]));
            assert(owner(after[j]) == owner(records[j]));
        }
    } else {
        assert forall|i: int, j: int| 0 <= i < j < after.len() implies owner(#[trigger] after[i]) != owner(#[trigger] after[j]) by {
            assert(after[i] == records[i]);
            if j < records.len() {
                assert(after[j] == records[j]);
            }
        }
    }
}

/// In a store with distinct owners, `get` finds the record at the place
/// where it stands.
pub proof fn lemma_get_at<T>(records: Seq<T>, owner: spec_fn(T) -> Identity, i: int)
    requires
        distinct(records, owner),
        0 <= i < records.len(),
    ensures
        holds(records, owner, owner(records[i])),
        index_of(records, owner, owner(records[i])) == i,
        get(records, owner, owner(records[i])) == Some(records[i]),
{
    let user = owner(records[i]);
    assert(holds(records, owner, user));
    let at = index_of(records, owner, user);
    if at < i {
        assert(owner(records[at]) != owner(records[i]));
    } else if i < at {
        assert(owner(records[i]) != owner(records[at]));
    }
}

} // verus!
