//! Stable sorting, stated once for every kind of item and every order.
//!
//! An order is given by the relation "must stand before". Sorting puts each
//! item in turn behind the items found before it that it need not stand
//! before, so items that the order does not tell apart keep the order in
//! which they were found.

use vstd::prelude::*;

verus! {

/// `s` with `x` put in behind the last item that `x` need not stand before.
pub open spec fn insert_sorted<T>(before: spec_fn(T, T) -> bool, s: Seq<T>, x: T) -> Seq<T>
    decreases s.len(),
{
    if s.len() > 0 && before(x, s.last()) {
        insert_sorted(before, s.drop_last(), x).push(s.last())
    } else {
        s.push(x)
    }
}

/// The items of `s` in the given order.
pub open spec fn sorted_by<T>(before: spec_fn(T, T) -> bool, s: Seq<T>) -> Seq<T>
    decreases s.len(),
{
    if s.len() == 0 {
        s
    } else {
        insert_sorted(before, sorted_by(before, s.drop_last()), s.last())
    }
}

/// Whether no item of `s` stands behind one that it must stand before.
pub open spec fn in_order<T>(before: spec_fn(T, T) -> bool, s: Seq<T>) -> bool {
    forall|i: int, j: int| 0 <= i < j < s.len() ==> !before(s[j], s[i])
}

/// Whether a relation ranks items: no two items must each stand before
/// the other; and where `a` need not stand before `b`, and `b` need not
/// stand before `c`, `a` need not stand before `c`.
pub open spec fn ranks<T>(before: spec_fn(T, T) -> bool) -> bool {
    &&& forall|a: T, b: T| #[trigger] before(a, b) ==> !before(b, a)
    &&& forall|a: T, b: T, c: T|
        #![trigger before(a, b), before(b, c)]
        !before(a, b) && !before(b, c) ==> !before(a, c)
}

/// Whether a relation tells any two different items apart.
pub open spec fn tells_apart<T>(before: spec_fn(T, T) -> bool) -> bool {
    forall|a: T, b: T| a != b ==> #[trigger] before(a, b) || #[trigger] before(b, a)
}

/// Where `insert_sorted` puts an item: at the one place behind which every
/// item must follow it and before which the nearest item need not.
pub proof fn lemma_insert_position<T>(before: spec_fn(T, T) -> bool, s: Seq<T>, x: T, pos: int)
    requires
        0 <= pos <= s.len(),
        forall|j: int| pos <= j < s.len() ==> before(x, #[trigger] s[j]),
        pos > 0 ==> !before(x, s[pos - 1]),
    ensures
        insert_sorted(before, s, x) == s.take(pos).push(x) + s.skip(pos),
    decreases s.len(),
{
    if pos < s.len() {
        let rest = s.drop_last();
        assert(before(x, s[s.len() - 1]));
        assert forall|j: int| pos <= j < rest.len() implies before(x, #[trigger] rest[j]) by {
            assert(rest[j] == s[j]);
        }
        if pos > 0 {
            assert(rest[pos - 1] == s[pos - 1]);
        }
        lemma_insert_position(before, rest, x, pos);
        assert(rest.take(pos) == s.take(pos));
        assert((rest.take(pos).push(x) + rest.skip(pos)).push(s.last()) == s.take(pos).push(x)
            + s.skip(pos));
    } else {
        assert(s.take(pos) == s);
        assert(s.skip(pos) == Seq::<T>::empty());
        assert(s.push(x) + Seq::<T>::empty() == s.push(x));
    }
}

/// Putting an item into items that are in order leaves them in order, adds
/// that item, and drops none.
pub proof fn lemma_insert_sorted<T>(before: spec_fn(T, T) -> bool, s: Seq<T>, x: T)
    requires
        ranks(before),
        in_order(before, s),
    ensures
        in_order(before, insert_sorted(before, s, x)),
        insert_sorted(before, s, x).len() == s.len() + 1,
        insert_sorted(before, s, x).to_multiset() == s.to_multiset().insert(x),
    decreases s.len(),
{
    broadcast use vstd::seq_lib::group_to_multiset_ensures;

    if s.len() > 0 && before(x, s.last()) {
        let rest = s.drop_last();
        assert forall|i: int, j: int| 0 <= i < j < rest.len() implies !before(rest[j], rest[i]) by {
            assert(rest[i] == s[i] && rest[j] == s[j]);
        }
        lemma_insert_sorted(before, rest, x);
        let inner = insert_sorted(before, rest, x);
        let out = inner.push(s.last());
        assert forall|i: int, j: int| 0 <= i < j < out.len() implies !before(out[j], out[i]) by {
            if j < inner.len() {
                assert(out[i] == inner[i] && out[j] == inner[j]);
            } else {
                assert(out[j] == s.last());
                assert(inner.to_multiset().count(inner[i]) > 0);
                if inner[i] != x {
                    assert(rest.to_multiset().count(inner[i]) > 0);
                    assert(rest.contains(inner[i]));
                    let k = choose|k: int| 0 <= k < rest.len() && rest[k] == inner[i];
                    assert(s[k] == rest[k]);
                    assert(!before(s[s.len() - 1], s[k]));
                } else {
                    assert(before(x, s.last()));
                }
            }
        }
        assert(s == rest.push(s.last()));
        assert(out.to_multiset() == inner.to_multiset().insert(s.last()));
        assert(s.to_multiset() == rest.to_multiset().insert(s.last()));
        assert(out.to_multiset() =~= s.to_multiset().insert(x));
    } else {
        let out = s.push(x);
        assert forall|i: int, j: int| 0 <= i < j < out.len() implies !before(out[j], out[i]) by {
            if j < s.len() {
                assert(out[i] == s[i] && out[j] == s[j]);
            } else {
                assert(out[j] == x);
                assert(out[i] == s[i]);
                assert(!before(x, s.last()));
                if i < s.len() - 1 {
                    assert(!before(s[s.len() - 1], s[i]));
                    assert(!before(x, s.last()) && !before(s.last(), s[i]));
                }
            }
        }
    }
}

/// Sorted items are in order, and they are the items that were given: none
/// is lost, none is added, none is changed.
pub proof fn lemma_sorted_by<T>(before: spec_fn(T, T) -> bool, s: Seq<T>)
    requires
        ranks(before),
    ensures
        in_order(before, sorted_by(before, s)),
        sorted_by(before, s).len() == s.len(),
        sorted_by(before, s).to_multiset() == s.to_multiset(),
    decreases s.len(),
{
    broadcast use vstd::seq_lib::group_to_multiset_ensures;

    if s.len() > 0 {
        lemma_sorted_by(before, s.drop_last());
        lemma_insert_sorted(before, sorted_by(before, s.drop_last()), s.last());
        assert(s == s.drop_last().push(s.last()));
        assert(s.to_multiset() == s.drop_last().to_multiset().insert(s.last()));
    }
}

/// Under an order that tells any two different items apart, items in order
/// are settled by which items they are: two sequences in order that hold the
/// same items as often are the same sequence.
pub proof fn lemma_in_order_unique<T>(before: spec_fn(T, T) -> bool, s1: Seq<T>, s2: Seq<T>)
    requires
        tells_apart(before),
        in_order(before, s1),
        in_order(before, s2),
        s1.to_multiset() == s2.to_multiset(),
    ensures
        s1 == s2,
    decreases s1.len(),
{
    broadcast use vstd::seq_lib::group_to_multiset_ensures;

    assert(s1.len() == s2.len()) by {
        vstd::seq_lib::to_multiset_len(s1);
        vstd::seq_lib::to_multiset_len(s2);
    }
    if s1.len() > 0 {
        let a = s1.last();
        let b = s2.last();
        assert(s1.to_multiset().count(a) > 0) by {
            assert(s1.contains(a)) by {
                assert(s1[s1.len() - 1] == a);
            }
        }
        assert(s2.contains(a));
        assert(s2.to_multiset().count(b) > 0) by {
            assert(s2.contains(b)) by {
                assert(s2[s2.len() - 1] == b);
            }
        }
        assert(s1.contains(b));
        let i = choose|i: int| 0 <= i < s2.len() && s2[i] == a;
        let j = choose|j: int| 0 <= j < s1.len() && s1[j] == b;
        // the last of each need not stand before any item of its sequence
        if i < s2.len() - 1 {
            assert(!before(s2[s2.len() - 1], s2[i]));
        }
        if j < s1.len() - 1 {
            assert(!before(s1[s1.len() - 1], s1[j]));
        }
        if a != b {
            assert(before(a, b) || before(b, a));
            assert(!before(b, a));
            assert(!before(a, b));
        }
        let r1 = s1.drop_last();
        let r2 = s2.drop_last();
        assert(s1 == r1.push(a));
        assert(s2 == r2.push(b));
        assert(s1.to_multiset() == r1.to_multiset().insert(a));
        assert(s2.to_multiset() == r2.to_multiset().insert(a));
        assert(r1.to_multiset() =~= r2.to_multiset()) by {
            assert forall|x: T| r1.to_multiset().count(x) == r2.to_multiset().count(x) by {
                assert(r1.to_multiset().insert(a).count(x) == r2.to_multiset().insert(a).count(x));
            }
        }
        assert forall|p: int, q: int| 0 <= p < q < r1.len() implies !before(r1[q], r1[p]) by {
            assert(r1[p] == s1[p] && r1[q] == s1[q]);
        }
        assert forall|p: int, q: int| 0 <= p < q < r2.len() implies !before(r2[q], r2[p]) by {
            assert(r2[p] == s2[p] && r2[q] == s2[q]);
        }
        lemma_in_order_unique(before, r1, r2);
    } else {
        assert(s1 =~= s2);
    }
}

/// Under an order that tells any two different items apart, sorting forgets
/// the order in which the items were given.
pub proof fn lemma_sorted_by_forgets_order<T>(before: spec_fn(T, T) -> bool, s1: Seq<T>, s2: Seq<T>)
    requires
        ranks(before),
        tells_apart(before),
        s1.to_multiset() == s2.to_multiset(),
    ensures
        sorted_by(before, s1) == sorted_by(before, s2),
{
    lemma_sorted_by(before, s1);
    lemma_sorted_by(before, s2);
    lemma_in_order_unique(before, sorted_by(before, s1), sorted_by(before, s2));
}

/// Sorting leaves items that are in order as they are.
pub proof fn lemma_sorted_by_keeps_order<T>(before: spec_fn(T, T) -> bool, s: Seq<T>)
    requires
        in_order(before, s),
    ensures
        sorted_by(before, s) == s,
    decreases s.len(),
{
    if s.len() > 0 {
        let rest = s.drop_last();
        assert forall|i: int, j: int| 0 <= i < j < rest.len() implies !before(rest[j], rest[i]) by {
            assert(rest[i] == s[i] && rest[j] == s[j]);
        }
        lemma_sorted_by_keeps_order(before, rest);
        if rest.len() > 0 {
            assert(rest.last() == s[s.len() - 2]);
            assert(!before(s[s.len() - 1], s[s.len() - 2]));
        }
        assert(rest.push(s.last()) == s);
    }
}

/// Every sorted item is one of the items given, and every item given is
/// among the sorted ones.
pub proof fn lemma_sorted_by_same_items<T>(before: spec_fn(T, T) -> bool, s: Seq<T>)
    requires
        ranks(before),
    ensures
        forall|x: T| sorted_by(before, s).contains(x) <==> s.contains(x),
{
    broadcast use vstd::seq_lib::group_to_multiset_ensures;

    lemma_sorted_by(before, s);
    assert forall|x: T| sorted_by(before, s).contains(x) <==> s.contains(x) by {
        assert(sorted_by(before, s).to_multiset().count(x) == s.to_multiset().count(x));
    }
}

/// The first of the sorted items need stand behind none of the items given.
pub proof fn lemma_sorted_by_first<T>(before: spec_fn(T, T) -> bool, s: Seq<T>)
    requires
        ranks(before),
        s.len() > 0,
    ensures
        s.contains(sorted_by(before, s)[0]),
        forall|i: int| 0 <= i < s.len() ==> !before(#[trigger] s[i], sorted_by(before, s)[0]),
{
    lemma_sorted_by(before, s);
    lemma_sorted_by_same_items(before, s);
    let out = sorted_by(before, s);
    assert(out.contains(out[0]));
    assert forall|i: int| 0 <= i < s.len() implies !before(#[trigger] s[i], out[0]) by {
        assert(s.contains(s[i]));
        assert(out.contains(s[i]));
        let k = choose|k: int| 0 <= k < out.len() && out[k] == s[i];
        if k > 0 {
            assert(!before(out[k], out[0]));
        } else if before(out[0], out[0]) {
            assert(!before(out[0], out[0]));
        }
    }
}

/// The rule that picks the items that the order does not tell apart from
/// `x`.
pub open spec fn alike<T>(before: spec_fn(T, T) -> bool, x: T) -> spec_fn(T) -> Option<T> {
    |y: T|
        if !before(x, y) && !before(y, x) {
            Some(y)
        } else {
            None
        }
}

/// Putting an item into items that are in order leaves the items that the
/// order does not tell apart from `x` in the order in which they stood, with
/// the new item behind them if it is one of them.
pub proof fn lemma_insert_sorted_is_stable<T>(
    before: spec_fn(T, T) -> bool,
    s: Seq<T>,
    y: T,
    x: T,
)
    requires
        ranks(before),
    ensures
        insert_sorted(before, s, y).filter_map(alike(before, x)) == s.filter_map(alike(before, x))
            + (match alike(before, x)(y) {
            Some(item) => seq![item],
            None => Seq::empty(),
        }),
    decreases s.len(),
{
    let pick = alike(before, x);
    let new = match pick(y) {
        Some(item) => seq![item],
        None => Seq::<T>::empty(),
    };
    if s.len() > 0 && before(y, s.last()) {
        let rest = s.drop_last();
        let last = s.last();
        lemma_insert_sorted_is_stable(before, rest, y, x);
        let inner = insert_sorted(before, rest, y);
        let out = inner.push(last);
        assert(out.drop_last() == inner);
        assert(out.last() == last);
        let old = match pick(last) {
            Some(item) => seq![item],
            None => Seq::<T>::empty(),
        };
        assert(out.filter_map(pick) == inner.filter_map(pick) + old);
        assert(s.filter_map(pick) == rest.filter_map(pick) + old);
        if pick(y) is Some && pick(last) is Some {
            // y and the last item are both like x, so y need not stand
            // before the last item
            assert(!before(y, x) && !before(x, last));
            assert(!before(y, last));
        }
        assert(new + old == old + new);
        assert(rest.filter_map(pick) + new + old == rest.filter_map(pick) + (new + old));
        assert(rest.filter_map(pick) + old + new == rest.filter_map(pick) + (old + new));
    } else {
        let out = s.push(y);
        assert(out.drop_last() == s);
        assert(out.last() == y);
        assert(s.filter_map(pick) + Seq::<T>::empty() == s.filter_map(pick));
    }
}

/// Sorting is stable: the items that the order does not tell apart from `x`
/// stand in the sorted sequence as they stood in the one given.
pub proof fn lemma_sorted_by_is_stable<T>(before: spec_fn(T, T) -> bool, s: Seq<T>, x: T)
    requires
        ranks(before),
    ensures
        sorted_by(before, s).filter_map(alike(before, x)) == s.filter_map(alike(before, x)),
    decreases s.len(),
{
    if s.len() > 0 {
        lemma_sorted_by_is_stable(before, s.drop_last(), x);
        lemma_insert_sorted_is_stable(before, sorted_by(before, s.drop_last()), s.last(), x);
    }
}

/// The first `n` items of `s`; all of them where there are no more.
pub open spec fn first_n<T>(s: Seq<T>, n: nat) -> Seq<T> {
    if s.len() <= n {
        s
    } else {
        s.take(n as int)
    }
}

/// Putting an item in makes the sequence longer by one.
pub proof fn lemma_insert_sorted_len<T>(before: spec_fn(T, T) -> bool, s: Seq<T>, x: T)
    ensures
        insert_sorted(before, s, x).len() == s.len() + 1,
    decreases s.len(),
{
    if s.len() > 0 && before(x, s.last()) {
        lemma_insert_sorted_len(before, s.drop_last(), x);
    }
}

/// Of items in order only the first `n` matter for the first `n` after
/// another item is put in: the items behind them can be left out before.
pub proof fn lemma_insert_within<T>(before: spec_fn(T, T) -> bool, r: Seq<T>, x: T, n: nat)
    requires
        ranks(before),
        in_order(before, r),
    ensures
        first_n(insert_sorted(before, r, x), n) == first_n(
            insert_sorted(before, first_n(r, n), x),
            n,
        ),
    decreases r.len(),
{
    if r.len() > n {
        let rest = r.drop_last();
        let last = r.last();
        let kept = r.take(n as int);
        assert(rest.take(n as int) == kept);
        assert forall|i: int, j: int| 0 <= i < j < rest.len() implies !before(rest[j], rest[i]) by {
            assert(rest[i] == r[i] && rest[j] == r[j]);
        }
        lemma_insert_sorted_len(before, rest, x);
        lemma_insert_sorted_len(before, kept, x);
        if before(x, last) {
            lemma_insert_within(before, rest, x, n);
            let inner = insert_sorted(before, rest, x);
            assert(inner.push(last).take(n as int) == inner.take(n as int));
            if rest.len() == n {
                assert(rest.take(n as int) == rest);
            }
        } else {
            assert(r.push(x).take(n as int) == kept);
            if n > 0 {
                assert(kept.last() == r[n - 1]);
                assert(!before(r[r.len() - 1], r[n - 1]));
                assert(!before(x, last) && !before(last, kept.last()));
                assert(!before(x, kept.last()));
                assert(kept.push(x).take(n as int) == kept);
            } else {
                assert(kept.push(x).take(0) == kept);
            }
        }
    }
}

} // verus!
