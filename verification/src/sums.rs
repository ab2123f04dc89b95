//! Sums of counts.
use vstd::prelude::*;

verus! {

/// The sum of the counts.
pub open spec fn total(counts: Seq<nat>) -> nat
    decreases counts.len(),
{
    if counts.len() == 0 {
        0
    } else {
        total(counts.drop_last()) + counts.last()
    }
}

/// Replacing one count changes the sum by the difference.
pub proof fn lemma_total_update(counts: Seq<nat>, i: int, value: nat)
    requires
        0 <= i < counts.len(),
    ensures
        total(counts.update(i, value)) == total(counts) - counts[i] + value,
        counts[i] <= total(counts),
    decreases counts.len(),
{
    let changed = counts.update(i, value);
    if i == counts.len() - 1 {
        assert(changed.drop_last() =~= counts.drop_last());
    } else {
        assert(changed.drop_last() =~= counts.drop_last().update(i, value));
        lemma_total_update(counts.drop_last(), i, value);
    }
}

/// Smaller counts have a smaller sum.
pub proof fn lemma_total_monotone(smaller: Seq<nat>, larger: Seq<nat>)
    requires
        smaller.len() == larger.len(),
        forall|i: int| 0 <= i < smaller.len() ==> #[trigger] smaller[i] <= larger[i],
    ensures
        total(smaller) <= total(larger),
    decreases smaller.len(),
{
    if smaller.len() > 0 {
        assert forall|i: int| 0 <= i < smaller.drop_last().len() implies #[trigger] smaller.drop_last()[i]
            <= larger.drop_last()[i] by {
            assert(smaller[i] <= larger[i]);
        }
        lemma_total_monotone(smaller.drop_last(), larger.drop_last());
        assert(smaller[smaller.len() - 1] <= larger[smaller.len() - 1]);
    }
}

/// A beginning has no larger sum than the whole.
pub proof fn lemma_total_take(counts: Seq<nat>, count: int)
    requires
        0 <= count <= counts.len(),
    ensures
        total(counts.take(count)) <= total(counts),
    decreases counts.len() - count,
{
    if count < counts.len() {
        assert(counts.take(count + 1).drop_last() =~= counts.take(count));
        lemma_total_take(counts, count + 1);
    } else {
        assert(counts.take(count) =~= counts);
    }
}

/// Inserting a count adds it to the sum.
pub proof fn lemma_total_insert(counts: Seq<nat>, i: int, value: nat)
    requires
        0 <= i <= counts.len(),
    ensures
        total(counts.insert(i, value)) == total(counts) + value,
    decreases counts.len(),
{
    let longer = counts.insert(i, value);
    if i == counts.len() {
        assert(longer.drop_last() =~= counts);
    } else {
        assert(longer.last() == counts.last());
        assert(longer.drop_last() =~= counts.drop_last().insert(i, value));
        lemma_total_insert(counts.drop_last(), i, value);
    }
}

/// The sum of two lists of counts, taken place by place.
pub proof fn lemma_total_plus(a: Seq<nat>, b: Seq<nat>, sum: Seq<nat>)
    requires
        a.len() == b.len(),
        sum.len() == a.len(),
        forall|i: int| 0 <= i < a.len() ==> #[trigger] sum[i] == a[i] + b[i],
    ensures
        total(sum) == total(a) + total(b),
    decreases a.len(),
{
    if a.len() > 0 {
        assert forall|i: int| 0 <= i < a.drop_last().len() implies #[trigger] sum.drop_last()[i]
            == a.drop_last()[i] + b.drop_last()[i] by {
            assert(sum[i] == a[i] + b[i]);
        }
        lemma_total_plus(a.drop_last(), b.drop_last(), sum.drop_last());
        assert(sum[sum.len() - 1] == a[a.len() - 1] + b[b.len() - 1]);
    }
}

} // verus!
