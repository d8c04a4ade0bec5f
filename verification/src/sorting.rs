//! Stable sorting, stated once for every kind of item and order.

use vstd::prelude::*;

verus! {

/// Where `x` goes into a sorted row: before the first item that comes after it.
pub open spec fn place<A>(s: Seq<A>, x: A, lt: spec_fn(A, A) -> bool) -> int
    decreases s.len(),
{
    if s.len() == 0 || lt(x, s[0]) {
        0
    } else {
        1 + place(s.drop_first(), x, lt)
    }
}

/// The items in their order; items of which none comes before the other keep their places.
pub open spec fn sorted<A>(s: Seq<A>, lt: spec_fn(A, A) -> bool) -> Seq<A>
    decreases s.len(),
{
    if s.len() == 0 {
        s
    } else {
        let t = sorted(s.drop_last(), lt);
        t.insert(place(t, s.last(), lt), s.last())
    }
}

/// No item comes before one that stands further left.
pub open spec fn in_order<A>(s: Seq<A>, lt: spec_fn(A, A) -> bool) -> bool {
    forall|i: int, j: int| 0 <= i < j < s.len() ==> !lt(#[trigger] s[j], #[trigger] s[i])
}

/// A strict order in which being neither before nor after is transitive.
pub open spec fn is_order<A>(lt: spec_fn(A, A) -> bool) -> bool {
    &&& forall|a: A| !(#[trigger] lt(a, a))
    &&& forall|a: A, b: A, c: A|
        #![trigger lt(a, b), lt(b, c)]
        lt(a, b) && lt(b, c) ==> lt(a, c)
    &&& forall|a: A, b: A, c: A|
        #![trigger lt(a, b), lt(b, c)]
        !lt(a, b) && !lt(b, c) ==> !lt(a, c)
}

pub proof fn lemma_place<A>(s: Seq<A>, x: A, lt: spec_fn(A, A) -> bool)
    ensures
        0 <= place(s, x, lt) <= s.len(),
        forall|i: int| 0 <= i < place(s, x, lt) ==> !lt(x, #[trigger] s[i]),
        place(s, x, lt) < s.len() ==> lt(x, s[place(s, x, lt)]),
    decreases s.len(),
{
    if s.len() > 0 && !lt(x, s[0]) {
        let t = s.drop_first();
        lemma_place(t, x, lt);
        assert forall|i: int| 0 <= i < place(s, x, lt) implies !lt(x, #[trigger] s[i]) by {
            if i > 0 {
                assert(s[i] == t[i - 1]);
            }
        }
    }
}

/// Sorting keeps the items and puts them in order.
pub proof fn law_sorted<A>(s: Seq<A>, lt: spec_fn(A, A) -> bool)
    requires
        is_order(lt),
    ensures
        sorted(s, lt).len() == s.len(),
        sorted(s, lt).to_multiset() == s.to_multiset(),
        in_order(sorted(s, lt), lt),
    decreases s.len(),
{
    broadcast use vstd::seq_lib::group_to_multiset_ensures;

    if s.len() > 0 {
        law_sorted(s.drop_last(), lt);
        let t = sorted(s.drop_last(), lt);
        let x = s.last();
        let p = place(t, x, lt);
        lemma_place(t, x, lt);
        let r = t.insert(p, x);
        assert(s =~= s.drop_last().push(x));
        assert(r.to_multiset() =~= t.to_multiset().insert(x));
        assert forall|i: int, j: int| 0 <= i < j < r.len() implies !lt(
            #[trigger] r[j],
            #[trigger] r[i],
        ) by {
            let a = r[i];
            let b = r[j];
            if j < p {
                assert(a == t[i] && b == t[j]);
            } else if j == p {
                assert(a == t[i]);
            } else if i < p {
                assert(a == t[i] && b == t[j - 1]);
            } else if i == p {
                assert(b == t[j - 1]);
                if p < j - 1 {
                    assert(lt(x, t[p]));
                    assert(!lt(t[j - 1], t[p]));
                    assert(!lt(t[p], x)) by {
                        if lt(t[p], x) {
                            assert(lt(t[p], t[p]));
                        }
                    }
                }
                if lt(b, x) {
                    assert(lt(x, t[p]));
                    assert(lt(b, t[p]));
                    if p < j - 1 {
                        assert(!lt(t[j - 1], t[p]));
                    } else {
                        assert(lt(t[p], t[p]));
                    }
                }
            } else {
                assert(a == t[i - 1] && b == t[j - 1]);
            }
        }
    }
}

/// The items of a row that are alike `k`.
pub open spec fn alike<A>(s: Seq<A>, k: A, lt: spec_fn(A, A) -> bool) -> Seq<A>
    decreases s.len(),
{
    if s.len() == 0 {
        s
    } else {
        let rest = alike(s.drop_last(), k, lt);
        if !lt(s.last(), k) && !lt(k, s.last()) {
            rest.push(s.last())
        } else {
            rest
        }
    }
}

proof fn lemma_alike_insert<A>(t: Seq<A>, p: int, x: A, k: A, lt: spec_fn(A, A) -> bool)
    requires
        0 <= p <= t.len(),
        !lt(x, k) && !lt(k, x) ==> forall|i: int|
            p <= i < t.len() ==> lt(#[trigger] t[i], k) || lt(k, t[i]),
    ensures
        alike(t.insert(p, x), k, lt) == (if !lt(x, k) && !lt(k, x) {
            alike(t, k, lt).push(x)
        } else {
            alike(t, k, lt)
        }),
    decreases t.len(),
{
    let r = t.insert(p, x);
    if p == t.len() {
        assert(r.drop_last() =~= t);
        assert(r.last() == x);
    } else {
        assert(r.drop_last() =~= t.drop_last().insert(p, x));
        assert(r.last() == t.last());
        assert(t[t.len() - 1] == t.last());
        assert forall|i: int| p <= i < t.drop_last().len() && !lt(x, k) && !lt(k, x) implies lt(
            #[trigger] t.drop_last()[i],
            k,
        ) || lt(k, t.drop_last()[i]) by {
            assert(t.drop_last()[i] == t[i]);
        }
        lemma_alike_insert(t.drop_last(), p, x, k, lt);
    }
}

/// Sorting keeps items that are alike in the places that they have among each other.
pub proof fn law_sorted_stable<A>(s: Seq<A>, k: A, lt: spec_fn(A, A) -> bool)
    requires
        is_order(lt),
    ensures
        alike(sorted(s, lt), k, lt) == alike(s, k, lt),
    decreases s.len(),
{
    if s.len() > 0 {
        law_sorted_stable(s.drop_last(), k, lt);
        law_sorted(s.drop_last(), lt);
        let t = sorted(s.drop_last(), lt);
        let x = s.last();
        let p = place(t, x, lt);
        lemma_place(t, x, lt);
        if !lt(x, k) && !lt(k, x) {
            assert forall|i: int| p <= i < t.len() implies lt(#[trigger] t[i], k) || lt(
                k,
                t[i],
            ) by {
                assert(lt(x, t[p]));
                if i > p {
                    assert(!lt(t[i], t[p]));
                }
                if !lt(k, t[i]) {
                    // x is before t[p], t[p] is not after t[i], and k is alike x.
                    assert(!lt(x, t[i]) || lt(x, t[i]));
                    if !lt(x, t[i]) {
                        assert(!lt(t[i], t[p]));
                        assert(!lt(x, t[p]));
                    } else {
                        assert(!lt(x, k) && !lt(k, t[i]));
                        assert(!lt(x, t[i]));
                    }
                }
            }
        }
        lemma_alike_insert(t, p, x, k, lt);
    }
}

/// Of two items at different places, one comes before the other.
pub open spec fn all_apart<A>(s: Seq<A>, lt: spec_fn(A, A) -> bool) -> bool {
    forall|i: int, j: int|
        0 <= i < s.len() && 0 <= j < s.len() && i != j ==> lt(#[trigger] s[i], #[trigger] s[j])
            || lt(s[j], s[i])
}

proof fn lemma_sorted_apart<A>(s: Seq<A>, lt: spec_fn(A, A) -> bool)
    requires
        is_order(lt),
        all_apart(s, lt),
    ensures
        all_apart(sorted(s, lt), lt),
    decreases s.len(),
{
    broadcast use vstd::seq_lib::group_to_multiset_ensures;

    if s.len() > 0 {
        let front = s.drop_last();
        assert forall|i: int, j: int|
            0 <= i < front.len() && 0 <= j < front.len() && i != j implies lt(
            #[trigger] front[i],
            #[trigger] front[j],
        ) || lt(front[j], front[i]) by {
            assert(front[i] == s[i] && front[j] == s[j]);
        }
        lemma_sorted_apart(front, lt);
        law_sorted(front, lt);
        let t = sorted(front, lt);
        let x = s.last();
        let p = place(t, x, lt);
        lemma_place(t, x, lt);
        let r = t.insert(p, x);
        assert forall|k: int| 0 <= k < t.len() implies lt(#[trigger] t[k], x) || lt(x, t[k]) by {
            assert(t.contains(t[k]));
            assert(t.to_multiset().count(t[k]) > 0);
            assert(front.contains(t[k]));
            let m = choose|m: int| 0 <= m < front.len() && front[m] == t[k];
            assert(s[m] == t[k] && s[s.len() - 1] == x);
        }
        assert forall|i: int, j: int| 0 <= i < r.len() && 0 <= j < r.len() && i != j implies lt(
            #[trigger] r[i],
            #[trigger] r[j],
        ) || lt(r[j], r[i]) by {
            let a = if i < p { i } else { i - 1 };
            let b = if j < p { j } else { j - 1 };
            if i == p {
                assert(r[i] == x && r[j] == t[b]);
            } else if j == p {
                assert(r[j] == x && r[i] == t[a]);
            } else {
                assert(r[i] == t[a] && r[j] == t[b]);
            }
        }
    }
}

proof fn lemma_one_order<A>(a: Seq<A>, b: Seq<A>, lt: spec_fn(A, A) -> bool)
    requires
        is_order(lt),
        all_apart(a, lt),
        in_order(a, lt),
        in_order(b, lt),
        a.to_multiset() == b.to_multiset(),
    ensures
        a == b,
    decreases a.len(),
{
    broadcast use vstd::seq_lib::group_to_multiset_ensures;

    assert(a.len() == a.to_multiset().len() && b.len() == b.to_multiset().len());
    if a.len() == 0 {
        assert(a =~= b);
    } else {
        let n = a.len() - 1;
        assert(a.contains(a[n]));
        assert(b.to_multiset().count(a[n]) > 0);
        assert(b.contains(a[n]));
        let i = choose|i: int| 0 <= i < b.len() && b[i] == a[n];
        assert(b.contains(b[n]));
        assert(a.to_multiset().count(b[n]) > 0);
        assert(a.contains(b[n]));
        let j = choose|j: int| 0 <= j < a.len() && a[j] == b[n];
        if j != n {
            assert(lt(a[j], a[n]) || lt(a[n], a[j]));
            assert(!lt(a[n], a[j]));
            if i != n {
                assert(!lt(b[n], b[i]));
            }
        }
        assert(a[n] == b[n]);
        let x = a.drop_last();
        let y = b.drop_last();
        assert(x =~= a.remove(n) && y =~= b.remove(n));
        assert forall|i: int, j: int| 0 <= i < x.len() && 0 <= j < x.len() && i != j implies lt(
            #[trigger] x[i],
            #[trigger] x[j],
        ) || lt(x[j], x[i]) by {
            assert(x[i] == a[i] && x[j] == a[j]);
        }
        assert forall|i: int, j: int| 0 <= i < j < x.len() implies !lt(
            #[trigger] x[j],
            #[trigger] x[i],
        ) by {
            assert(x[i] == a[i] && x[j] == a[j]);
        }
        assert forall|i: int, j: int| 0 <= i < j < y.len() implies !lt(
            #[trigger] y[j],
            #[trigger] y[i],
        ) by {
            assert(y[i] == b[i] && y[j] == b[j]);
        }
        lemma_one_order(x, y, lt);
        assert(a =~= x.push(a[n]) && b =~= y.push(b[n]));
    }
}

/// Where no two items are alike, sorting gives the same row whatever the order in which the items
/// come.
pub proof fn law_sorted_of_any_order<A>(s: Seq<A>, t: Seq<A>, lt: spec_fn(A, A) -> bool)
    requires
        is_order(lt),
        all_apart(s, lt),
        s.to_multiset() == t.to_multiset(),
    ensures
        sorted(s, lt) == sorted(t, lt),
{
    law_sorted(s, lt);
    law_sorted(t, lt);
    lemma_sorted_apart(s, lt);
    lemma_one_order(sorted(s, lt), sorted(t, lt), lt);
}

/// Each item changed in the same way.
pub open spec fn each<A, B>(s: Seq<A>, f: spec_fn(A) -> B) -> Seq<B> {
    Seq::new(s.len(), |i: int| f(s[i]))
}

/// Changing each item of two rows that have the same items gives rows that have the same items.
pub proof fn lemma_each_of_any_order<A, B>(s: Seq<A>, t: Seq<A>, f: spec_fn(A) -> B)
    requires
        s.to_multiset() == t.to_multiset(),
    ensures
        each(s, f).to_multiset() == each(t, f).to_multiset(),
    decreases s.len(),
{
    broadcast use vstd::seq_lib::group_to_multiset_ensures;

    assert(s.len() == s.to_multiset().len() && t.len() == t.to_multiset().len());
    if s.len() == 0 {
        assert(each(s, f) =~= each(t, f));
    } else {
        let n = s.len() - 1;
        assert(s.contains(s[n]));
        assert(t.to_multiset().count(s[n]) > 0);
        assert(t.contains(s[n]));
        let i = choose|i: int| 0 <= i < t.len() && t[i] == s[n];
        let x = s.remove(n);
        let y = t.remove(i);
        lemma_each_of_any_order(x, y, f);
        assert(each(s, f) =~= each(x, f).push(f(s[n])));
        assert(each(t, f) =~= each(y, f).insert(i, f(s[n])));
        vstd::seq_lib::to_multiset_insert(each(y, f), i, f(s[n]));
        vstd::seq_lib::to_multiset_build(each(x, f), f(s[n]));
    }
}

} // verus!
