//! Sequences of keys in increasing order, each with the weights of its values.

use crate::algebra::MonoidValue;
use crate::order::{before, lawful_order, lemma_order};
use crate::trace::layers::weighted::{
    is_weighted, lemma_canonical, lemma_position, lemma_same_weights, lemma_weight_held,
    lemma_weight_listed, lemma_weight_nonzero, position, weight_at,
};
use vstd::prelude::*;

verus! {

/// The weight that `rows` gives to the value `val` of `key`: zero where `rows`
/// does not list them together.
pub open spec fn pair_weight<K, V, R: MonoidValue>(
    rows: Seq<(K, Seq<(V, R)>)>,
    key: K,
    val: V,
) -> R::Math {
    let i = position(rows, key);
    if 0 <= i < rows.len() {
        weight_at(rows[i].1, val)
    } else {
        R::zero_math()
    }
}

/// The keys are in increasing order, each has a value, the values of each are in
/// increasing order, and no weight is zero.
pub open spec fn is_indexed<K: Ord, V: Ord, R: MonoidValue>(
    rows: Seq<(K, Seq<(V, R)>)>,
) -> bool {
    &&& forall|i: int, j: int|
        0 <= i < j < rows.len() ==> before((#[trigger] rows[i]).0, (#[trigger] rows[j]).0)
    &&& forall|i: int|
        0 <= i < rows.len() ==> (#[trigger] rows[i]).1.len() > 0 && is_weighted(rows[i].1)
}

/// The number of pairs of a key and a value.
pub open spec fn pair_count<K, V, R>(rows: Seq<(K, Seq<(V, R)>)>) -> nat
    decreases rows.len(),
{
    if rows.len() == 0 {
        0
    } else {
        pair_count(rows.drop_last()) + rows.last().1.len()
    }
}

/// A listed key has the weights that stand beside it.
pub proof fn lemma_row_listed<K: Ord + Clone, V: Ord + Clone, R: MonoidValue>(
    rows: Seq<(K, Seq<(V, R)>)>,
    i: int,
)
    requires
        lawful_order::<K>(),
        is_indexed(rows),
        0 <= i < rows.len(),
    ensures
        position(rows, rows[i].0) == i,
        forall|v: V| #[trigger] pair_weight(rows, rows[i].0, v) == weight_at(rows[i].1, v),
{
    let key = rows[i].0;
    lemma_position(rows, key);
    let p = position(rows, key);
    if p < i {
        lemma_order(rows[p].0, rows[i].0);
    } else if i < p && p < rows.len() {
        lemma_order(rows[i].0, rows[p].0);
    }
}

/// A key that is not listed gives no value a weight.
pub proof fn lemma_row_absent<K, V, R: MonoidValue>(rows: Seq<(K, Seq<(V, R)>)>, key: K)
    requires
        forall|i: int| 0 <= i < rows.len() ==> (#[trigger] rows[i]).0 != key,
    ensures
        forall|v: V| #[trigger] pair_weight(rows, key, v) == R::zero_math(),
{
    lemma_position(rows, key);
}

/// A pair of non-zero weight is listed.
pub proof fn lemma_row_nonzero<K, V, R: MonoidValue>(
    rows: Seq<(K, Seq<(V, R)>)>,
    key: K,
    val: V,
) -> (i: int)
    requires
        pair_weight(rows, key, val) != R::zero_math(),
    ensures
        0 <= i < rows.len(),
        rows[i].0 == key,
        weight_at(rows[i].1, val) == pair_weight(rows, key, val),
{
    lemma_position(rows, key);
    position(rows, key)
}

/// The first value of a listed key has a weight.
pub proof fn lemma_row_first<K: Ord + Clone, V: Ord + Clone, R: MonoidValue>(
    rows: Seq<(K, Seq<(V, R)>)>,
    i: int,
)
    requires
        lawful_order::<K>(),
        lawful_order::<V>(),
        is_indexed(rows),
        0 <= i < rows.len(),
    ensures
        pair_weight(rows, rows[i].0, rows[i].1[0].0) != R::zero_math(),
{
    lemma_row_listed(rows, i);
    lemma_weight_listed(rows[i].1, 0);
    assert(pair_weight(rows, rows[i].0, rows[i].1[0].0) == weight_at(
        rows[i].1,
        rows[i].1[0].0,
    ));
}

/// The weight of a pair in valid rows can be held.
pub proof fn lemma_pair_held<K: Ord + Clone, V: Ord + Clone, R: MonoidValue>(
    rows: Seq<(K, Seq<(V, R)>)>,
    key: K,
    val: V,
)
    requires
        R::lawful(),
        is_indexed(rows),
    ensures
        R::holds(pair_weight(rows, key, val)),
{
    lemma_position(rows, key);
    R::zero_is_held();
    let i = position(rows, key);
    if i < rows.len() {
        lemma_weight_held(rows[i].1, val);
    }
}

/// Listing one more key behind all others changes the weights of that key only.
pub proof fn lemma_row_push<K: Ord + Clone, V: Ord + Clone, R: MonoidValue>(
    rows: Seq<(K, Seq<(V, R)>)>,
    row: (K, Seq<(V, R)>),
)
    requires
        lawful_order::<K>(),
        is_indexed(rows),
        forall|i: int| 0 <= i < rows.len() ==> before((#[trigger] rows[i]).0, row.0),
        row.1.len() > 0,
        is_weighted(row.1),
    ensures
        is_indexed(rows.push(row)),
        forall|k: K, v: V| #[trigger]
            pair_weight(rows.push(row), k, v) == if k == row.0 {
                weight_at(row.1, v)
            } else {
                pair_weight(rows, k, v)
            },
        forall|v: V| #[trigger] pair_weight(rows, row.0, v) == R::zero_math(),
{
    let t = rows.push(row);
    assert(t.drop_last() =~= rows);
    assert forall|i: int| 0 <= i < rows.len() implies (#[trigger] rows[i]).0 != row.0 by {
        lemma_order(rows[i].0, row.0);
    }
    lemma_row_absent(rows, row.0);
    assert forall|k: K, v: V| #[trigger]
        pair_weight(t, k, v) == if k == row.0 {
            weight_at(row.1, v)
        } else {
            pair_weight(rows, k, v)
        } by {
        lemma_position(rows, k);
        lemma_position(t, k);
    }
}

/// A prefix of one more row gives its key its weights.
pub proof fn lemma_rows_take_next<K: Ord + Clone, V: Ord + Clone, R: MonoidValue>(
    rows: Seq<(K, Seq<(V, R)>)>,
    n: int,
)
    requires
        lawful_order::<K>(),
        is_indexed(rows),
        0 <= n < rows.len(),
    ensures
        forall|k: K, v: V| #[trigger]
            pair_weight(rows.take(n + 1), k, v) == if k == rows[n].0 {
                weight_at(rows[n].1, v)
            } else {
                pair_weight(rows.take(n), k, v)
            },
        forall|v: V| #[trigger] pair_weight(rows.take(n), rows[n].0, v) == R::zero_math(),
{
    assert(rows.take(n + 1) =~= rows.take(n).push(rows[n]));
    lemma_row_push(rows.take(n), rows[n]);
}

/// A key that comes behind a prefix has no weights in it.
pub proof fn lemma_rows_take_absent<K: Ord + Clone, V: Ord + Clone, R: MonoidValue>(
    rows: Seq<(K, Seq<(V, R)>)>,
    n: int,
    key: K,
)
    requires
        lawful_order::<K>(),
        0 <= n <= rows.len(),
        forall|x: int| 0 <= x < n ==> before((#[trigger] rows[x]).0, key),
    ensures
        forall|v: V| #[trigger] pair_weight(rows.take(n), key, v) == R::zero_math(),
{
    assert forall|x: int| 0 <= x < n implies (#[trigger] rows.take(n)[x]).0 != key by {
        lemma_order(rows[x].0, key);
    }
    lemma_row_absent(rows.take(n), key);
}

/// Rows that give every pair the same weight list the same pairs with the same
/// weights.
pub proof fn lemma_rows_canonical<K: Ord + Clone, V: Ord + Clone, R: MonoidValue>(
    s: Seq<(K, Seq<(V, R)>)>,
    t: Seq<(K, Seq<(V, R)>)>,
)
    requires
        lawful_order::<K>(),
        lawful_order::<V>(),
        is_indexed(s),
        is_indexed(t),
        forall|k: K, v: V| #[trigger] pair_weight(s, k, v) == pair_weight(t, k, v),
    ensures
        s.len() == t.len(),
        pair_count(s) == pair_count(t),
        forall|i: int|
            #![trigger s[i]]
            #![trigger t[i]]
            0 <= i < s.len() ==> s[i].0 == t[i].0 && s[i].1.len() == t[i].1.len(),
        forall|i: int, j: int|
            #![trigger s[i].1[j]]
            #![trigger t[i].1[j]]
            0 <= i < s.len() && 0 <= j < s[i].1.len() ==> s[i].1[j].0 == t[i].1[j].0
                && s[i].1[j].1.math() == t[i].1[j].1.math(),
    decreases s.len(),
{
    if s.len() == 0 || t.len() == 0 {
        if t.len() > 0 {
            lemma_row_first(t, 0);
            lemma_row_absent(s, t[0].0);
            assert(pair_weight(s, t[0].0, t[0].1[0].0) == R::zero_math());
        }
        if s.len() > 0 {
            lemma_row_first(s, 0);
            lemma_row_absent(t, s[0].0);
            assert(pair_weight(t, s[0].0, s[0].1[0].0) == R::zero_math());
        }
    } else {
        let a = s.last();
        let b = t.last();
        lemma_row_first(s, s.len() - 1);
        lemma_row_first(t, t.len() - 1);
        assert(pair_weight(t, a.0, a.1[0].0) == pair_weight(s, a.0, a.1[0].0));
        assert(pair_weight(s, b.0, b.1[0].0) == pair_weight(t, b.0, b.1[0].0));
        let j = lemma_row_nonzero(t, a.0, a.1[0].0);
        let i = lemma_row_nonzero(s, b.0, b.1[0].0);
        if j < t.len() - 1 {
            lemma_order(a.0, b.0);
            if i < s.len() - 1 {
                lemma_order(b.0, a.0);
            }
        }
        assert(a.0 == b.0);
        let s0 = s.drop_last();
        let t0 = t.drop_last();
        lemma_row_push(s0, a);
        lemma_row_push(t0, b);
        assert(s0.push(a) =~= s);
        assert(t0.push(b) =~= t);
        assert forall|k: K, v: V| #[trigger] pair_weight(s0, k, v) == pair_weight(t0, k, v) by {
            assert(pair_weight(s, k, v) == pair_weight(t, k, v));
        }
        assert forall|v: V| #[trigger] weight_at(a.1, v) == weight_at(b.1, v) by {
            assert(pair_weight(s, a.0, v) == pair_weight(t, a.0, v));
        }
        lemma_canonical(a.1, b.1);
        lemma_rows_canonical(s0, t0);
        assert forall|i: int|
            #![trigger s[i]]
            #![trigger t[i]]
            0 <= i < s.len() implies s[i].0 == t[i].0 && s[i].1.len() == t[i].1.len() by {
            if i < s.len() - 1 {
                assert(s0[i] == s[i]);
                assert(t0[i] == t[i]);
            }
        }
        assert forall|i: int, j: int|
            #![trigger s[i].1[j]]
            #![trigger t[i].1[j]]
            0 <= i < s.len() && 0 <= j < s[i].1.len() implies s[i].1[j].0 == t[i].1[j].0
            && s[i].1[j].1.math() == t[i].1[j].1.math() by {
            if i < s.len() - 1 {
                assert(s0[i] == s[i]);
                assert(t0[i] == t[i]);
                assert(s0[i].1[j] == s[i].1[j]);
            } else {
                assert(a.1[j] == s[i].1[j]);
            }
        }
    }
}

/// Where two lists of rows hold the same pairs, and the weights of the second are
/// images of those of the first under a map that keeps zero, so are the weights
/// they give to any pair.
pub proof fn lemma_same_rows<K: Ord + Clone, V: Ord + Clone, R: MonoidValue>(
    s: Seq<(K, Seq<(V, R)>)>,
    t: Seq<(K, Seq<(V, R)>)>,
    f: spec_fn(R::Math) -> R::Math,
    key: K,
    val: V,
)
    requires
        lawful_order::<K>(),
        lawful_order::<V>(),
        is_indexed(s),
        is_indexed(t),
        s.len() == t.len(),
        f(R::zero_math()) == R::zero_math(),
        forall|i: int|
            #![trigger t[i]]
            0 <= i < s.len() ==> t[i].0 == s[i].0 && t[i].1.len() == s[i].1.len(),
        forall|i: int, j: int|
            #![trigger t[i].1[j]]
            0 <= i < s.len() && 0 <= j < s[i].1.len() ==> t[i].1[j].0 == s[i].1[j].0
                && t[i].1[j].1.math() == f(s[i].1[j].1.math()),
    ensures
        pair_weight(t, key, val) == f(pair_weight(s, key, val)),
{
    lemma_position(s, key);
    lemma_position(t, key);
    let p = position(s, key);
    if p < s.len() {
        assert(t[p].0 == key);
        lemma_row_listed(t, p);
        lemma_same_weights(s[p].1, t[p].1, f, val);
    } else {
        assert forall|i: int| 0 <= i < t.len() implies (#[trigger] t[i]).0 != key by {
            assert(s[i].0 != key);
        }
    }
}

/// The pairs of a key and a value that rows list.
pub open spec fn listed_pairs<K, V, R>(rows: Seq<(K, Seq<(V, R)>)>) -> Seq<(K, V)>
    decreases rows.len(),
{
    if rows.len() == 0 {
        Seq::empty()
    } else {
        let row = rows.last();
        listed_pairs(rows.drop_last()) + Seq::new(row.1.len(), |j: int| (row.0, row.1[j].0))
    }
}

/// The listed pairs are as many as there are, all different, and of non-zero weight.
pub proof fn lemma_listed_pairs<K: Ord + Clone, V: Ord + Clone, R: MonoidValue>(
    rows: Seq<(K, Seq<(V, R)>)>,
)
    requires
        lawful_order::<K>(),
        lawful_order::<V>(),
        is_indexed(rows),
    ensures
        listed_pairs(rows).len() == pair_count(rows),
        listed_pairs(rows).no_duplicates(),
        forall|x: int|
            0 <= x < listed_pairs(rows).len() ==> pair_weight(
                rows,
                (#[trigger] listed_pairs(rows)[x]).0,
                listed_pairs(rows)[x].1,
            ) != R::zero_math(),
        forall|k: K, v: V|
            #[trigger] pair_weight(rows, k, v) != R::zero_math() ==> listed_pairs(rows).contains(
                (k, v),
            ),
    decreases rows.len(),
{
    let all = listed_pairs(rows);
    if rows.len() == 0 {
        assert forall|k: K, v: V|
            #[trigger] pair_weight(rows, k, v) != R::zero_math() implies all.contains((k, v)) by {
            lemma_row_absent(rows, k);
        }
    } else {
        let front = rows.drop_last();
        let row = rows.last();
        lemma_listed_pairs(front);
        lemma_row_push(front, row);
        assert(front.push(row) =~= rows);
        let older = listed_pairs(front);
        let tail = Seq::new(row.1.len(), |j: int| (row.0, row.1[j].0));
        let n = older.len() as int;
        assert(all == older + tail);
        assert forall|x: int| 0 <= x < all.len() implies pair_weight(
            rows,
            (#[trigger] all[x]).0,
            all[x].1,
        ) != R::zero_math() by {
            if x < n {
                assert(all[x] == older[x]);
                assert(older[x].0 != row.0) by {
                    assert(pair_weight(front, older[x].0, older[x].1) != R::zero_math());
                    assert(pair_weight(front, row.0, older[x].1) == R::zero_math());
                }
            } else {
                assert(all[x] == tail[x - n]);
                lemma_weight_listed(row.1, x - n);
                assert(pair_weight(rows, row.0, row.1[x - n].0) == weight_at(
                    row.1,
                    row.1[x - n].0,
                ));
            }
        }
        assert forall|x: int, y: int| 0 <= x < all.len() && 0 <= y < all.len() && x != y implies all[x]
            != all[y] by {
            if x < n && y < n {
                assert(older[x] != older[y]);
            } else if x >= n && y >= n {
                let (a, b) = (x - n, y - n);
                if a < b {
                    assert(before(row.1[a].0, row.1[b].0));
                    lemma_order(row.1[a].0, row.1[b].0);
                } else {
                    assert(before(row.1[b].0, row.1[a].0));
                    lemma_order(row.1[b].0, row.1[a].0);
                }
            } else {
                let z = if x < n {
                    x
                } else {
                    y
                };
                assert(pair_weight(front, older[z].0, older[z].1) != R::zero_math());
                assert(pair_weight(front, row.0, older[z].1) == R::zero_math());
            }
        }
        assert forall|k: K, v: V|
            #[trigger] pair_weight(rows, k, v) != R::zero_math() implies all.contains((k, v)) by {
            if k == row.0 {
                let j = lemma_weight_nonzero(row.1, v);
                assert(tail[j] == (k, v));
                assert(all[n + j] == (k, v));
            } else {
                assert(pair_weight(front, k, v) != R::zero_math());
                let x = choose|x: int| 0 <= x < older.len() && older[x] == (k, v);
                assert(all[x] == (k, v));
            }
        }
    }
}

/// Rows list no more pairs than there are in a set that holds every pair of non-zero
/// weight.
pub proof fn lemma_count_within<K: Ord + Clone, V: Ord + Clone, R: MonoidValue>(
    rows: Seq<(K, Seq<(V, R)>)>,
    pairs: Set<(K, V)>,
)
    requires
        lawful_order::<K>(),
        lawful_order::<V>(),
        is_indexed(rows),
        pairs.finite(),
        forall|k: K, v: V|
            #[trigger] pair_weight(rows, k, v) != R::zero_math() ==> pairs.contains((k, v)),
    ensures
        pair_count(rows) <= pairs.len(),
{
    lemma_listed_pairs(rows);
    let all = listed_pairs(rows);
    all.unique_seq_to_set();
    assert(all.to_set().subset_of(pairs)) by {
        assert forall|p: (K, V)| all.to_set().contains(p) implies pairs.contains(p) by {
            let x = choose|x: int| 0 <= x < all.len() && all[x] == p;
            assert(pair_weight(rows, all[x].0, all[x].1) != R::zero_math());
        }
    }
    vstd::set_lib::lemma_len_subset(all.to_set(), pairs);
}

} // verus!
