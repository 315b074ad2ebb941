//! Sequences of keys in increasing order, each with a non-zero weight.

use crate::algebra::sums::{lemma_tally_concat, tally};
use crate::algebra::{GroupValue, MonoidValue};
use crate::order::{before, is_before, lawful_order, lemma_order, lemma_order_transitive};
use vstd::prelude::*;

verus! {

/// The position of `key` in `s`, or the length of `s` where it is absent.
pub open spec fn position<K, R>(s: Seq<(K, R)>, key: K) -> int
    decreases s.len(),
{
    if s.len() == 0 {
        0
    } else if s.drop_last().len() > position(s.drop_last(), key) {
        position(s.drop_last(), key)
    } else if s.last().0 == key {
        s.len() - 1
    } else {
        s.len() as int
    }
}

/// The weight that `s` gives to `key`: zero where `s` does not list it.
pub open spec fn weight_at<K, R: MonoidValue>(s: Seq<(K, R)>, key: K) -> R::Math {
    let i = position(s, key);
    if 0 <= i < s.len() {
        s[i].1.math()
    } else {
        R::zero_math()
    }
}

/// The keys are in increasing order and no weight is zero.
pub open spec fn is_weighted<K: Ord, R: MonoidValue>(s: Seq<(K, R)>) -> bool {
    &&& forall|i: int, j: int|
        0 <= i < j < s.len() ==> before((#[trigger] s[i]).0, (#[trigger] s[j]).0)
    &&& forall|i: int|
        0 <= i < s.len() ==> (#[trigger] s[i]).1.wf() && s[i].1.math() != R::zero_math()
}

/// What `position` finds.
pub proof fn lemma_position<K, R>(s: Seq<(K, R)>, key: K)
    ensures
        0 <= position(s, key) <= s.len(),
        position(s, key) < s.len() ==> s[position(s, key)].0 == key,
        position(s, key) == s.len() ==> forall|i: int| 0 <= i < s.len() ==> (#[trigger] s[i]).0 != key,
    decreases s.len(),
{
    if s.len() > 0 {
        lemma_position(s.drop_last(), key);
        assert forall|i: int| position(s, key) == s.len() && 0 <= i < s.len() implies (#[trigger] s[i]).0 != key by {
            if i < s.len() - 1 {
                assert(s.drop_last()[i] == s[i]);
            }
        }
    }
}

/// A listed key has the weight that stands beside it.
pub proof fn lemma_weight_listed<K: Ord + Clone, R: MonoidValue>(s: Seq<(K, R)>, i: int)
    requires
        lawful_order::<K>(),
        is_weighted(s),
        0 <= i < s.len(),
    ensures
        weight_at(s, s[i].0) == s[i].1.math(),
        weight_at(s, s[i].0) != R::zero_math(),
{
    let key = s[i].0;
    lemma_position(s, key);
    let p = position(s, key);
    if p < i {
        lemma_order(s[p].0, s[i].0);
    } else if i < p && p < s.len() {
        lemma_order(s[i].0, s[p].0);
    }
}

/// A key that is not listed has weight zero.
pub proof fn lemma_weight_absent<K, R: MonoidValue>(s: Seq<(K, R)>, key: K)
    requires
        forall|i: int| 0 <= i < s.len() ==> (#[trigger] s[i]).0 != key,
    ensures
        weight_at(s, key) == R::zero_math(),
{
    lemma_position(s, key);
}

/// A key of non-zero weight is listed.
pub proof fn lemma_weight_nonzero<K, R: MonoidValue>(s: Seq<(K, R)>, key: K) -> (i: int)
    requires
        weight_at(s, key) != R::zero_math(),
    ensures
        0 <= i < s.len(),
        s[i].0 == key,
        s[i].1.math() == weight_at(s, key),
{
    lemma_position(s, key);
    position(s, key)
}

/// Listing one more key behind all others changes the weight of that key only.
pub proof fn lemma_weight_push<K: Ord + Clone, R: MonoidValue>(s: Seq<(K, R)>, item: (K, R))
    requires
        lawful_order::<K>(),
        is_weighted(s),
        forall|i: int| 0 <= i < s.len() ==> before((#[trigger] s[i]).0, item.0),
        item.1.wf(),
        item.1.math() != R::zero_math(),
    ensures
        is_weighted(s.push(item)),
        forall|k: K| #[trigger]
            weight_at(s.push(item), k) == if k == item.0 {
                item.1.math()
            } else {
                weight_at(s, k)
            },
        weight_at(s, item.0) == R::zero_math(),
{
    let t = s.push(item);
    assert(t.drop_last() =~= s);
    assert forall|i: int| 0 <= i < s.len() implies (#[trigger] s[i]).0 != item.0 by {
        lemma_order(s[i].0, item.0);
    }
    lemma_weight_absent(s, item.0);
    assert forall|k: K| #[trigger]
        weight_at(t, k) == if k == item.0 {
            item.1.math()
        } else {
            weight_at(s, k)
        } by {
        lemma_position(s, k);
        lemma_position(t, k);
    }
}

/// Two lists that give every key the same weight list the same keys with the
/// same weights.
pub proof fn lemma_canonical<K: Ord + Clone, R: MonoidValue>(s: Seq<(K, R)>, t: Seq<(K, R)>)
    requires
        lawful_order::<K>(),
        is_weighted(s),
        is_weighted(t),
        forall|k: K| #[trigger] weight_at(s, k) == weight_at(t, k),
    ensures
        s.len() == t.len(),
        forall|i: int|
            #![trigger s[i]]
            0 <= i < s.len() ==> s[i].0 == t[i].0 && s[i].1.math() == t[i].1.math(),
    decreases s.len(),
{
    if s.len() == 0 || t.len() == 0 {
        if t.len() > 0 {
            lemma_weight_listed(t, 0);
            assert(weight_at(s, t[0].0) == weight_at(t, t[0].0));
        }
        if s.len() > 0 {
            lemma_weight_listed(s, 0);
            assert(weight_at(s, s[0].0) == weight_at(t, s[0].0));
        }
    } else {
        let a = s.last();
        let b = t.last();
        lemma_weight_listed(s, s.len() - 1);
        lemma_weight_listed(t, t.len() - 1);
        let j = lemma_weight_nonzero(t, a.0);
        let i = lemma_weight_nonzero(s, b.0);
        if j < t.len() - 1 {
            lemma_order(a.0, b.0);
            if i < s.len() - 1 {
                lemma_order(b.0, a.0);
            }
        }
        assert(a.0 == b.0);
        let s0 = s.drop_last();
        let t0 = t.drop_last();
        lemma_weight_push(s0, a);
        lemma_weight_push(t0, b);
        assert(s0.push(a) =~= s);
        assert(t0.push(b) =~= t);
        assert forall|k: K| #[trigger] weight_at(s0, k) == weight_at(t0, k) by {
            assert(weight_at(s, k) == weight_at(t, k));
        }
        lemma_canonical(s0, t0);
        assert forall|i: int|
            #![trigger s[i]]
            0 <= i < s.len() implies s[i].0 == t[i].0 && s[i].1.math() == t[i].1.math() by {
            if i < s.len() - 1 {
                assert(s0[i] == s[i]);
            }
        }
    }
}

/// Appends to `out` the sum of a run of `a` and a run of `b`.
pub fn merge_runs<K: Ord + Clone, R: MonoidValue>(
    a: &Vec<(K, R)>,
    from1: usize,
    to1: usize,
    b: &Vec<(K, R)>,
    from2: usize,
    to2: usize,
    out: &mut Vec<(K, R)>,
) -> (tail: Ghost<Seq<(K, R)>>)
    requires
        lawful_order::<K>(),
        R::lawful(),
        from1 <= to1 <= a@.len(),
        from2 <= to2 <= b@.len(),
        is_weighted(a@.subrange(from1 as int, to1 as int)),
        is_weighted(b@.subrange(from2 as int, to2 as int)),
        forall|k: K|
            R::holds(
                R::add_math(
                    #[trigger] weight_at(a@.subrange(from1 as int, to1 as int), k),
                    weight_at(b@.subrange(from2 as int, to2 as int), k),
                ),
            ),
    ensures
        final(out)@ == old(out)@ + tail@,
        is_weighted(tail@),
        tail@.len() <= (to1 - from1) + (to2 - from2),
        forall|k: K| #[trigger]
            weight_at(tail@, k) == R::add_math(
                weight_at(a@.subrange(from1 as int, to1 as int), k),
                weight_at(b@.subrange(from2 as int, to2 as int), k),
            ),
{
    let ghost mut tail: Seq<(K, R)> = Seq::empty();
    let ghost s = a@.subrange(from1 as int, to1 as int);
    let ghost t = b@.subrange(from2 as int, to2 as int);
    let mut i = from1;
    let mut j = from2;
    proof {
        R::zero_is_neutral(R::zero_math());
        assert(s.take(0) =~= Seq::empty());
        assert(t.take(0) =~= Seq::empty());
    }
    while i < to1 || j < to2
        invariant
            lawful_order::<K>(),
            R::lawful(),
            from1 <= i <= to1 <= a@.len(),
            from2 <= j <= to2 <= b@.len(),
            s == a@.subrange(from1 as int, to1 as int),
            t == b@.subrange(from2 as int, to2 as int),
            is_weighted(s),
            is_weighted(t),
            forall|k: K| R::holds(R::add_math(#[trigger] weight_at(s, k), weight_at(t, k))),
            out@ == old(out)@ + tail,
            is_weighted(tail),
            tail.len() <= (i - from1) + (j - from2),
            forall|k: K| #[trigger]
                weight_at(tail, k) == R::add_math(
                    weight_at(s.take(i - from1), k),
                    weight_at(t.take(j - from2), k),
                ),
            forall|x: int, y: int|
                0 <= x < tail.len() && i - from1 <= y < s.len() ==> before(
                    (#[trigger] tail[x]).0,
                    (#[trigger] s[y]).0,
                ),
            forall|x: int, y: int|
                0 <= x < tail.len() && j - from2 <= y < t.len() ==> before(
                    (#[trigger] tail[x]).0,
                    (#[trigger] t[y]).0,
                ),
            forall|x: int, y: int|
                0 <= x < i - from1 && j - from2 <= y < t.len() ==> before(
                    (#[trigger] s[x]).0,
                    (#[trigger] t[y]).0,
                ),
            forall|x: int, y: int|
                0 <= x < j - from2 && i - from1 <= y < s.len() ==> before(
                    (#[trigger] t[x]).0,
                    (#[trigger] s[y]).0,
                ),
        decreases (to1 - i) + (to2 - j),
    {
        let ghost p = i - from1;
        let ghost q = j - from2;
        let ghost old_tail = tail;
        if j >= to2 || (i < to1 && is_before(&a[i].0, &b[j].0)) {
            assert(a@[i as int] == s[p]);
            proof {
                lemma_take_next(s, p);
                lemma_take_absent(t, q, s[p].0);
                assert forall|y: int| q <= y < t.len() implies before(s[p].0, (#[trigger] t[y]).0) by {
                    if y > q {
                        lemma_order_transitive(s[p].0, t[q].0, t[y].0);
                    }
                }
            }
            let item = (a[i].0.clone(), a[i].1.duplicate());
            proof {
                lemma_weight_push(tail, item);
                R::add_commutes(item.1.math(), R::zero_math());
                R::zero_is_neutral(item.1.math());
                tail = tail.push(item);
            }
            out.push(item);
            assert(out@ =~= old(out)@ + tail);
            i += 1;
            assert(item.0 == s[p].0);
            assert(s.take(i - from1) == s.take(p + 1));
            assert forall|k: K| #[trigger]
                weight_at(tail, k) == R::add_math(
                    weight_at(s.take(i - from1), k),
                    weight_at(t.take(j - from2), k),
                ) by {
                assert(weight_at(old_tail, k) == R::add_math(
                    weight_at(s.take(p), k),
                    weight_at(t.take(q), k),
                ));
            }
        } else if i >= to1 || is_before(&b[j].0, &a[i].0) {
            assert(b@[j as int] == t[q]);
            proof {
                lemma_take_next(t, q);
                lemma_take_absent(s, p, t[q].0);
                assert forall|y: int| p <= y < s.len() implies before(t[q].0, (#[trigger] s[y]).0) by {
                    if y > p {
                        lemma_order_transitive(t[q].0, s[p].0, s[y].0);
                    }
                }
            }
            let item = (b[j].0.clone(), b[j].1.duplicate());
            proof {
                lemma_weight_push(tail, item);
                R::zero_is_neutral(item.1.math());
                tail = tail.push(item);
            }
            out.push(item);
            assert(out@ =~= old(out)@ + tail);
            j += 1;
            assert(item.0 == t[q].0);
            assert(t.take(j - from2) == t.take(q + 1));
            assert forall|k: K| #[trigger]
                weight_at(tail, k) == R::add_math(
                    weight_at(s.take(i - from1), k),
                    weight_at(t.take(j - from2), k),
                ) by {
                assert(weight_at(old_tail, k) == R::add_math(
                    weight_at(s.take(p), k),
                    weight_at(t.take(q), k),
                ));
            }
        } else {
            assert(a@[i as int] == s[p]);
            assert(b@[j as int] == t[q]);
            proof {
                lemma_order(s[p].0, t[q].0);
                lemma_take_next(s, p);
                lemma_take_next(t, q);
                lemma_weight_listed(s, p);
                lemma_weight_listed(t, q);
                lemma_take_absent(s, p, t[q].0);
                lemma_take_absent(t, q, s[p].0);
                R::zero_is_neutral(R::zero_math());
            }
            let sum = a[i].1.add_by_ref(&b[j].1);
            if !sum.is_zero() {
                let item = (a[i].0.clone(), sum);
                proof {
                    lemma_weight_push(tail, item);
                    tail = tail.push(item);
                }
                out.push(item);
                assert(out@ =~= old(out)@ + tail);
            }
            i += 1;
            j += 1;
            assert(s.take(i - from1) == s.take(p + 1));
            assert(t.take(j - from2) == t.take(q + 1));
            assert forall|k: K| #[trigger]
                weight_at(tail, k) == R::add_math(
                    weight_at(s.take(i - from1), k),
                    weight_at(t.take(j - from2), k),
                ) by {
                assert(weight_at(old_tail, k) == R::add_math(
                    weight_at(s.take(p), k),
                    weight_at(t.take(q), k),
                ));
            }
        }
    }
    proof {
        assert(s.take(s.len() as int) =~= s);
        assert(t.take(t.len() as int) =~= t);
    }
    Ghost(tail)
}

/// A prefix of one more element gives that element its weight.
pub proof fn lemma_take_next<K: Ord + Clone, R: MonoidValue>(s: Seq<(K, R)>, n: int)
    requires
        lawful_order::<K>(),
        is_weighted(s),
        0 <= n < s.len(),
    ensures
        forall|k: K| #[trigger]
            weight_at(s.take(n + 1), k) == if k == s[n].0 {
                s[n].1.math()
            } else {
                weight_at(s.take(n), k)
            },
        weight_at(s.take(n), s[n].0) == R::zero_math(),
{
    assert(s.take(n + 1) =~= s.take(n).push(s[n]));
    lemma_weight_push(s.take(n), s[n]);
}

/// A key that comes behind a prefix has no weight in it.
pub proof fn lemma_take_absent<K: Ord + Clone, R: MonoidValue>(s: Seq<(K, R)>, n: int, key: K)
    requires
        lawful_order::<K>(),
        0 <= n <= s.len(),
        forall|x: int| 0 <= x < n ==> before((#[trigger] s[x]).0, key),
    ensures
        weight_at(s.take(n), key) == R::zero_math(),
{
    assert forall|x: int| 0 <= x < n implies (#[trigger] s.take(n)[x]).0 != key by {
        lemma_order(s[x].0, key);
    }
    lemma_weight_absent(s.take(n), key);
}

/// Adding up the weights of a list whose keys differ gives the weights back.
pub proof fn lemma_tally_weighted<K: Ord + Clone, R: MonoidValue>(s: Seq<(K, R)>, key: K)
    requires
        lawful_order::<K>(),
        is_weighted(s),
    ensures
        tally(s, key) == weight_at(s, key),
    decreases s.len(),
{
    if s.len() > 0 {
        let s0 = s.drop_last();
        lemma_tally_weighted(s0, key);
        lemma_weight_push(s0, s.last());
        assert(s0.push(s.last()) =~= s);
        assert(weight_at(s0.push(s.last()), key) == weight_at(s, key));
        R::zero_is_neutral(s.last().1.math());
    } else {
        lemma_weight_absent(s, key);
    }
}

/// The weight of a key in a valid list can be held.
pub proof fn lemma_weight_held<K: Ord + Clone, R: MonoidValue>(s: Seq<(K, R)>, key: K)
    requires
        R::lawful(),
        is_weighted(s),
    ensures
        R::holds(weight_at(s, key)),
{
    if weight_at(s, key) == R::zero_math() {
        R::zero_is_held();
    } else {
        let i = lemma_weight_nonzero(s, key);
        s[i].1.math_is_held();
    }
}

/// The runs of a list whose keys differ have sums that can be held.
pub proof fn lemma_weighted_runs_hold<K: Ord + Clone, R: MonoidValue>(s: Seq<(K, R)>)
    requires
        lawful_order::<K>(),
        R::lawful(),
        is_weighted(s),
    ensures
        runs_hold(s),
{
    assert forall|i: int, j: int, k: K| 0 <= i <= j <= s.len() implies R::holds(
        #[trigger] tally(s.subrange(i, j), k),
    ) by {
        let run = s.subrange(i, j);
        assert(is_weighted(run));
        lemma_tally_weighted(run, k);
        lemma_weight_held(run, k);
    }
}

/// Whether the sums over all runs of a list of updates can be held.
pub open spec fn runs_hold<K, R: MonoidValue>(items: Seq<(K, R)>) -> bool {
    forall|i: int, j: int, k: K|
        0 <= i <= j <= items.len() ==> R::holds(#[trigger] tally(items.subrange(i, j), k))
}

/// Sorts a run of updates by key, adds up the updates of each key and drops the
/// keys whose updates cancel out.
pub fn consolidate<K: Ord + Clone, R: MonoidValue>(
    items: &Vec<(K, R)>,
    from: usize,
    to: usize,
) -> (r: Vec<(K, R)>)
    requires
        lawful_order::<K>(),
        R::lawful(),
        from <= to <= items@.len(),
        forall|i: int| 0 <= i < items@.len() ==> (#[trigger] items@[i]).1.wf(),
        runs_hold(items@),
    ensures
        is_weighted(r@),
        r@.len() <= to - from,
        forall|k: K| #[trigger]
            weight_at(r@, k) == tally(items@.subrange(from as int, to as int), k),
    decreases to - from,
{
    let ghost run = items@.subrange(from as int, to as int);
    let mut out: Vec<(K, R)> = Vec::new();
    if to - from == 0 {
        assert forall|k: K| #[trigger] weight_at(out@, k) == tally(run, k) by {
            lemma_position(out@, k);
        }
    } else if to - from == 1 {
        let item = (items[from].0.clone(), items[from].1.duplicate());
        proof {
            assert(run.drop_last() =~= Seq::empty());
            R::zero_is_neutral(item.1.math());
            reveal_with_fuel(tally, 2);
        }
        let ghost empty = out@;
        if !item.1.is_zero() {
            proof {
                lemma_weight_push(out@, item);
            }
            out.push(item);
        }
        assert forall|k: K| #[trigger] weight_at(out@, k) == tally(run, k) by {
            lemma_position(empty, k);
        }
    } else {
        let mid = from + (to - from) / 2;
        let a = consolidate(items, from, mid);
        let b = consolidate(items, mid, to);
        proof {
            let s = items@.subrange(from as int, mid as int);
            let t = items@.subrange(mid as int, to as int);
            assert(s + t =~= run);
            assert(a@.subrange(0, a@.len() as int) =~= a@);
            assert(b@.subrange(0, b@.len() as int) =~= b@);
            assert forall|k: K|
                R::holds(R::add_math(#[trigger] weight_at(a@, k), weight_at(b@, k)))
                    && R::add_math(weight_at(a@, k), weight_at(b@, k)) == tally(run, k) by {
                lemma_tally_concat(s, t, k);
            }
        }
        let Ghost(tail) = merge_runs(&a, 0, a.len(), &b, 0, b.len(), &mut out);
        assert(out@ =~= tail);
    }
    out
}

/// The first position, at or behind `from`, of a key that does not come before
/// `key`.
pub fn seek<K: Ord + Clone, R: MonoidValue>(
    vals: &Vec<(K, R)>,
    from: usize,
    to: usize,
    key: &K,
) -> (r: usize)
    requires
        lawful_order::<K>(),
        from <= to <= vals@.len(),
        is_weighted(vals@.subrange(from as int, to as int)),
    ensures
        from <= r <= to,
        forall|i: int| from <= i < r ==> before((#[trigger] vals@[i]).0, *key),
        forall|i: int| r <= i < to ==> !before((#[trigger] vals@[i]).0, *key),
{
    let mut low = from;
    let mut high = to;
    let ghost run = vals@.subrange(from as int, to as int);
    while low < high
        invariant
            lawful_order::<K>(),
            from <= low <= high <= to <= vals@.len(),
            run == vals@.subrange(from as int, to as int),
            is_weighted(run),
            forall|i: int| from <= i < low ==> before((#[trigger] vals@[i]).0, *key),
            forall|i: int| high <= i < to ==> !before((#[trigger] vals@[i]).0, *key),
        decreases high - low,
    {
        let mid = low + (high - low) / 2;
        if is_before(&vals[mid].0, key) {
            assert forall|i: int| from <= i <= mid implies before((#[trigger] vals@[i]).0, *key) by {
                if i < mid {
                    assert(before(run[i - from].0, run[mid - from].0));
                    lemma_order_transitive(vals@[i].0, vals@[mid as int].0, *key);
                }
            }
            low = mid + 1;
        } else {
            assert forall|i: int| mid <= i < to implies !before((#[trigger] vals@[i]).0, *key) by {
                if i > mid && before(vals@[i].0, *key) {
                    assert(before(run[mid - from].0, run[i - from].0));
                    lemma_order_transitive(vals@[mid as int].0, vals@[i].0, *key);
                }
            }
            high = mid;
        }
    }
    low
}

/// The inverse of zero is zero.
pub proof fn lemma_neg_zero<R: GroupValue>()
    ensures
        R::neg_math(R::zero_math()) == R::zero_math(),
{
    R::neg_cancels(R::zero_math());
    R::zero_is_neutral(R::neg_math(R::zero_math()));
}

/// Only zero has zero as its inverse.
pub proof fn lemma_neg_nonzero<R: GroupValue>(a: R::Math)
    requires
        a != R::zero_math(),
    ensures
        R::neg_math(a) != R::zero_math(),
{
    R::neg_cancels(a);
    R::zero_is_neutral(a);
    R::add_commutes(a, R::zero_math());
}

/// Where two lists hold the same keys, and the weights of the second are images
/// of those of the first under a map that keeps zero, so are the weights they
/// give to any key.
pub proof fn lemma_same_weights<K: Ord + Clone, R: MonoidValue>(
    s: Seq<(K, R)>,
    t: Seq<(K, R)>,
    f: spec_fn(R::Math) -> R::Math,
    key: K,
)
    requires
        lawful_order::<K>(),
        is_weighted(s),
        is_weighted(t),
        s.len() == t.len(),
        f(R::zero_math()) == R::zero_math(),
        forall|j: int|
            #![trigger t[j]]
            0 <= j < s.len() ==> t[j].0 == s[j].0 && t[j].1.math() == f(s[j].1.math()),
    ensures
        weight_at(t, key) == f(weight_at(s, key)),
{
    lemma_position(s, key);
    lemma_position(t, key);
    if weight_at(s, key) != R::zero_math() {
        let j = lemma_weight_nonzero(s, key);
        lemma_weight_listed(t, j);
        assert(t[j].0 == s[j].0);
    } else if weight_at(t, key) != R::zero_math() {
        let j = lemma_weight_nonzero(t, key);
        lemma_weight_listed(s, j);
    }
}

/// Only keys that are listed have a sum other than zero.
pub proof fn lemma_tally_listed<K, R: MonoidValue>(items: Seq<(K, R)>, key: K)
    requires
        tally(items, key) != R::zero_math(),
    ensures
        exists|i: int| 0 <= i < items.len() && (#[trigger] items[i]).0 == key,
    decreases items.len(),
{
    if items.len() > 0 {
        if items.last().0 == key {
            assert(items[items.len() - 1].0 == key);
        } else {
            lemma_tally_listed(items.drop_last(), key);
            let i = choose|i: int|
                0 <= i < items.drop_last().len() && (#[trigger] items.drop_last()[i]).0 == key;
            assert(items[i].0 == key);
        }
    }
}

/// Integer weights that are small for their number have sums that can be held.
pub proof fn small_weights_add_up<K>(items: Seq<(K, i64)>, bound: int)
    requires
        forall|i: int| 0 <= i < items.len() ==> -bound <= (#[trigger] items[i]).1 <= bound,
        0 <= bound,
        bound * items.len() <= i64::MAX,
    ensures
        runs_hold(items),
{
    assert forall|i: int, j: int, k: K| 0 <= i <= j <= items.len() implies i64::holds(
        #[trigger] tally(items.subrange(i, j), k),
    ) by {
        let run = items.subrange(i, j);
        lemma_tally_bounded(run, k, bound);
        assert(bound * run.len() <= bound * items.len()) by (nonlinear_arith)
            requires
                0 <= bound,
                run.len() <= items.len(),
        ;
    }
}

proof fn lemma_tally_bounded<K>(items: Seq<(K, i64)>, key: K, bound: int)
    requires
        forall|i: int| 0 <= i < items.len() ==> -bound <= (#[trigger] items[i]).1 <= bound,
        0 <= bound,
    ensures
        -(bound * items.len()) <= tally(items, key) <= bound * items.len(),
    decreases items.len(),
{
    if items.len() > 0 {
        let n = items.len() - 1;
        lemma_tally_bounded(items.drop_last(), key, bound);
        assert(-bound <= items[n].1 <= bound);
        assert(bound * (n + 1) == bound * n + bound) by (nonlinear_arith);
    }
}

} // verus!
