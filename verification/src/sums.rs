//! Sums over sequences of records, and how they move when a record is
//! appended or replaced.

use vstd::prelude::*;

verus! {

/// The sum of `weight` over the items of `items`.
pub open spec fn total<T>(items: Seq<T>, weight: spec_fn(T) -> int) -> int
    decreases items.len(),
{
    if items.len() == 0 {
        0
    } else {
        total(items.drop_last(), weight) + weight(items.last())
    }
}

/// Appending an item adds its weight.
pub proof fn lemma_total_push<T>(items: Seq<T>, item: T, weight: spec_fn(T) -> int)
    ensures
        total(items.push(item), weight) == total(items, weight) + weight(item),
{
    assert(items.push(item).drop_last() =~= items);
    assert(items.push(item).last() == item);
}

/// Replacing an item exchanges its weight for that of its replacement.
pub proof fn lemma_total_update<T>(items: Seq<T>, i: int, item: T, weight: spec_fn(T) -> int)
    requires
        0 <= i < items.len(),
    ensures
        total(items.update(i, item), weight) == total(items, weight) - weight(items[i]) + weight(item),
    decreases items.len(),
{
    let updated = items.update(i, item);
    if i == items.len() - 1 {
        assert(updated.drop_last() =~= items.drop_last());
    } else {
        assert(updated.drop_last() =~= items.drop_last().update(i, item));
        lemma_total_update(items.drop_last(), i, item, weight);
    }
}

/// Where `c` times one weight never exceeds `d` times another, item by item,
/// the same holds of their sums.
pub proof fn lemma_total_scaled<T>(items: Seq<T>, first: spec_fn(T) -> int, c: int, second: spec_fn(T) -> int, d: int)
    requires
        forall|i: int| 0 <= i < items.len() ==> c * first(#[trigger] items[i]) <= d * second(items[i]),
    ensures
        c * total(items, first) <= d * total(items, second),
    decreases items.len(),
{
    if items.len() == 0 {
        assert(c * 0 == 0) by (nonlinear_arith);
        assert(d * 0 == 0) by (nonlinear_arith);
    } else {
        let rest = items.drop_last();
        assert forall|i: int| 0 <= i < rest.len() implies c * first(#[trigger] rest[i]) <= d * second(rest[i]) by {
            assert(rest[i] == items[i]);
        }
        lemma_total_scaled(rest, first, c, second, d);
        let last = items.last();
        assert(last == items[items.len() - 1]);
        assert(c * (total(rest, first) + first(last)) == c * total(rest, first) + c * first(last)) by (nonlinear_arith);
        assert(d * (total(rest, second) + second(last)) == d * total(rest, second) + d * second(last)) by (nonlinear_arith);
    }
}

/// A sum of non-negative weights is non-negative.
pub proof fn lemma_total_nonnegative<T>(items: Seq<T>, weight: spec_fn(T) -> int)
    requires
        forall|i: int| 0 <= i < items.len() ==> 0 <= weight(#[trigger] items[i]),
    ensures
        0 <= total(items, weight),
    decreases items.len(),
{
    if items.len() > 0 {
        let rest = items.drop_last();
        assert forall|i: int| 0 <= i < rest.len() implies 0 <= weight(#[trigger] rest[i]) by {
            assert(rest[i] == items[i]);
        }
        lemma_total_nonnegative(rest, weight);
        assert(items.last() == items[items.len() - 1]);
    }
}

/// The sum of a difference of weights is the difference of their sums.
pub proof fn lemma_total_difference<T>(items: Seq<T>, first: spec_fn(T) -> int, second: spec_fn(T) -> int, difference: spec_fn(T) -> int)
    requires
        forall|i: int| 0 <= i < items.len() ==> difference(#[trigger] items[i]) == first(items[i]) - second(items[i]),
    ensures
        total(items, difference) == total(items, first) - total(items, second),
    decreases items.len(),
{
    if items.len() > 0 {
        let rest = items.drop_last();
        assert forall|i: int| 0 <= i < rest.len() implies difference(#[trigger] rest[i]) == first(rest[i]) - second(rest[i]) by {
            assert(rest[i] == items[i]);
        }
        lemma_total_difference(rest, first, second, difference);
        assert(items.last() == items[items.len() - 1]);
    }
}

/// A sum of non-negative weights is at least each of them.
pub proof fn lemma_total_covers_item<T>(items: Seq<T>, weight: spec_fn(T) -> int, i: int)
    requires
        0 <= i < items.len(),
        forall|k: int| 0 <= k < items.len() ==> 0 <= weight(#[trigger] items[k]),
    ensures
        weight(items[i]) <= total(items, weight),
    decreases items.len(),
{
    let rest = items.drop_last();
    assert forall|k: int| 0 <= k < rest.len() implies 0 <= weight(#[trigger] rest[k]) by {
        assert(rest[k] == items[k]);
    }
    assert(items.last() == items[items.len() - 1]);
    if i == items.len() - 1 {
        lemma_total_nonnegative(rest, weight);
    } else {
        lemma_total_covers_item(rest, weight, i);
        assert(rest[i] == items[i]);
    }
}

} // verus!
