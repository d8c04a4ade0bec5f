//! Rows that are made by picking items of another row.
use vstd::prelude::*;

verus! {

/// The row holds what the picked items stand for: the items at the given places, which rise, and
/// every item that stands for something is at one of them.
pub open spec fn picked_at<A, B>(
    items: Seq<A>,
    f: spec_fn(A) -> Option<B>,
    out: Seq<B>,
    at: Seq<int>,
) -> bool {
    &&& at.len() == out.len()
    &&& forall|j: int, k: int| 0 <= j < k < at.len() ==> #[trigger] at[j] < #[trigger] at[k]
    &&& forall|k: int|
        0 <= k < at.len() ==> 0 <= #[trigger] at[k] < items.len() && f(items[at[k]]) == Some(out[k])
    &&& forall|i: int|
        0 <= i < items.len() && f(#[trigger] items[i]) is Some ==> at.contains(i)
}

/// The row holds what the items stand for, in their order: each item that stands for something
/// once, and nothing else.
pub open spec fn picks<A, B>(items: Seq<A>, f: spec_fn(A) -> Option<B>, out: Seq<B>) -> bool {
    exists|at: Seq<int>| picked_at(items, f, out, at)
}

pub proof fn lemma_picks_none<A, B>(items: Seq<A>, f: spec_fn(A) -> Option<B>, out: Seq<B>)
    requires
        items.len() == 0,
        out.len() == 0,
    ensures
        picks(items, f, out),
{
    assert(picked_at(items, f, out, Seq::<int>::empty()));
}

/// One more item adds what it stands for at the end, or nothing.
pub proof fn lemma_picks_next<A, B>(
    items: Seq<A>,
    f: spec_fn(A) -> Option<B>,
    before: Seq<B>,
    out: Seq<B>,
)
    requires
        items.len() > 0,
        picks(items.drop_last(), f, before),
        out == (match f(items.last()) {
            Some(b) => before.push(b),
            None => before,
        }),
    ensures
        picks(items, f, out),
{
    let rest = items.drop_last();
    let at = choose|at: Seq<int>| picked_at(rest, f, before, at);
    let n = rest.len() as int;
    assert forall|i: int| 0 <= i < n implies rest[i] == #[trigger] items[i] by {}
    if f(items.last()) is Some {
        let more = at.push(n);
        assert forall|i: int|
            0 <= i < items.len() && f(#[trigger] items[i]) is Some implies more.contains(i) by {
            if i < n {
                assert(f(rest[i]) is Some);
                let k = choose|k: int| 0 <= k < at.len() && at[k] == i;
                assert(more[k] == i);
            } else {
                assert(more[at.len() as int] == i);
            }
        }
        assert forall|k: int| 0 <= k < more.len() implies 0 <= #[trigger] more[k] < items.len() && f(
            items[more[k]],
        ) == Some(out[k]) by {
            if k < at.len() {
                assert(more[k] == at[k]);
                assert(rest[at[k]] == items[at[k]]);
            }
        }
        assert(picked_at(items, f, out, more));
    } else {
        assert forall|i: int|
            0 <= i < items.len() && f(#[trigger] items[i]) is Some implies at.contains(i) by {
            assert(f(rest[i]) is Some);
        }
        assert forall|k: int| 0 <= k < at.len() implies 0 <= #[trigger] at[k] < items.len() && f(
            items[at[k]],
        ) == Some(out[k]) by {
            assert(rest[at[k]] == items[at[k]]);
        }
        assert(picked_at(items, f, out, at));
    }
}

/// Each item that stands for something is found in the row, and each entry of the row is what some
/// item stands for.
pub proof fn lemma_picks_all<A, B>(items: Seq<A>, f: spec_fn(A) -> Option<B>, out: Seq<B>)
    requires
        picks(items, f, out),
    ensures
        out.len() <= items.len(),
        forall|i: int|
            0 <= i < items.len() && f(#[trigger] items[i]) is Some ==> out.contains(f(items[i])->0),
        forall|k: int|
            0 <= k < out.len() ==> exists|i: int|
                0 <= i < items.len() && f(#[trigger] items[i]) == Some(#[trigger] out[k]),
{
    let at = choose|at: Seq<int>| picked_at(items, f, out, at);
    assert forall|i: int| 0 <= i < items.len() && f(#[trigger] items[i]) is Some implies out.contains(
        f(items[i])->0,
    ) by {
        let k = choose|k: int| 0 <= k < at.len() && at[k] == i;
        assert(out[k] == f(items[i])->0);
    }
    assert forall|k: int| 0 <= k < out.len() implies exists|i: int|
        0 <= i < items.len() && f(#[trigger] items[i]) == Some(#[trigger] out[k]) by {
        assert(f(items[at[k]]) == Some(out[k]));
    }
    lemma_rising(at, at.len() as int, items.len() as int);
}

proof fn lemma_rising(at: Seq<int>, n: int, bound: int)
    requires
        0 <= n <= at.len(),
        forall|j: int, k: int| 0 <= j < k < at.len() ==> #[trigger] at[j] < #[trigger] at[k],
        forall|k: int| 0 <= k < at.len() ==> 0 <= #[trigger] at[k] < bound,
        bound >= 0,
    ensures
        n <= bound,
        n > 0 ==> at[n - 1] >= n - 1,
    decreases n,
{
    if n > 0 {
        lemma_rising(at, n - 1, bound);
        assert(at[n - 1] < bound);
        if n > 1 {
            assert(at[n - 2] < at[n - 1]);
        }
    }
}

} // verus!
