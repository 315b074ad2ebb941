//! Sums of values of a commutative monoid over finite sets.

use crate::algebra::MonoidValue;
use vstd::prelude::*;

verus! {

/// The sum of `f` over a finite set of keys.
pub open spec fn sum_over<K, V: MonoidValue>(f: spec_fn(K) -> V::Math, keys: Set<K>) -> V::Math
    decreases keys.len(),
{
    if keys.finite() && keys.len() > 0 {
        let k = keys.choose();
        V::add_math(f(k), sum_over::<K, V>(f, keys.remove(k)))
    } else {
        V::zero_math()
    }
}

/// `m` added to itself `n` times.
pub open spec fn times<V: MonoidValue>(m: V::Math, n: nat) -> V::Math
    decreases n,
{
    if n == 0 {
        V::zero_math()
    } else {
        V::add_math(times::<V>(m, (n - 1) as nat), m)
    }
}

/// The sum of the values that a list of pairs associates with `key`.
pub open spec fn tally<K, V: MonoidValue>(items: Seq<(K, V)>, key: K) -> V::Math
    decreases items.len(),
{
    if items.len() == 0 {
        V::zero_math()
    } else {
        let before = tally::<K, V>(items.drop_last(), key);
        if items.last().0 == key {
            V::add_math(before, items.last().1.math())
        } else {
            before
        }
    }
}

/// How often `x` occurs in `s`.
pub open spec fn occurrences<A>(s: Seq<A>, x: A) -> nat
    decreases s.len(),
{
    if s.len() == 0 {
        0
    } else {
        occurrences(s.drop_last(), x) + if s.last() == x {
            1nat
        } else {
            0nat
        }
    }
}

/// Any key can be taken out of a sum first.
pub proof fn lemma_sum_take_out<K, V: MonoidValue>(
    f: spec_fn(K) -> V::Math,
    keys: Set<K>,
    key: K,
)
    requires
        keys.finite(),
        keys.contains(key),
    ensures
        sum_over::<K, V>(f, keys) == V::add_math(f(key), sum_over::<K, V>(f, keys.remove(key))),
    decreases keys.len(),
{
    let first = keys.choose();
    if first != key {
        let rest = keys.remove(first);
        lemma_sum_take_out::<K, V>(f, rest, key);
        let both = rest.remove(key);
        let tail = sum_over::<K, V>(f, both);
        lemma_sum_take_out::<K, V>(f, keys.remove(key), first);
        assert(keys.remove(key).remove(first) =~= both);
        V::add_associates(f(first), f(key), tail);
        V::add_associates(f(key), f(first), tail);
        V::add_commutes(f(first), f(key));
    }
}

/// Adding a key that is not in the set adds its value to the sum.
pub proof fn lemma_sum_insert<K, V: MonoidValue>(
    f: spec_fn(K) -> V::Math,
    keys: Set<K>,
    key: K,
)
    requires
        keys.finite(),
        !keys.contains(key),
    ensures
        sum_over::<K, V>(f, keys.insert(key)) == V::add_math(sum_over::<K, V>(f, keys), f(key)),
{
    lemma_sum_take_out::<K, V>(f, keys.insert(key), key);
    assert(keys.insert(key).remove(key) =~= keys);
    V::add_commutes(f(key), sum_over::<K, V>(f, keys));
}

/// Only the values at the keys of the set matter.
pub proof fn lemma_sum_congruent<K, V: MonoidValue>(
    f: spec_fn(K) -> V::Math,
    g: spec_fn(K) -> V::Math,
    keys: Set<K>,
)
    requires
        forall|k: K| keys.contains(k) ==> #[trigger] f(k) == g(k),
    ensures
        sum_over::<K, V>(f, keys) == sum_over::<K, V>(g, keys),
    decreases keys.len(),
{
    if keys.finite() && keys.len() > 0 {
        let k = keys.choose();
        lemma_sum_congruent::<K, V>(f, g, keys.remove(k));
    }
}

/// Once a value is the value.
pub proof fn lemma_times_one<V: MonoidValue>(m: V::Math)
    ensures
        times::<V>(m, 1) == m,
        times::<V>(m, 0) == V::zero_math(),
{
    reveal_with_fuel(times, 2);
    V::zero_is_neutral(m);
}

/// A sequence of one element holds that element once and nothing else.
pub proof fn lemma_single_occurrence<A>(x: A)
    ensures
        forall|y: A| #[trigger]
            occurrences(seq![x], y) == if y == x {
                1nat
            } else {
                0nat
            },
{
    assert(seq![x].drop_last() =~= Seq::empty());
    reveal_with_fuel(occurrences, 2);
}

/// A prefix holds no more of an element than the whole sequence.
pub proof fn lemma_occurrences_prefix<A>(s: Seq<A>, n: int, x: A)
    requires
        0 <= n <= s.len(),
    ensures
        occurrences(s.take(n), x) <= occurrences(s, x),
    decreases s.len(),
{
    if n < s.len() {
        assert(s.drop_last().take(n) =~= s.take(n));
        lemma_occurrences_prefix(s.drop_last(), n, x);
    } else {
        assert(s.take(n) =~= s);
    }
}

/// The tally of a list is the sum of the tallies of its parts.
pub proof fn lemma_tally_concat<K, V: MonoidValue>(s: Seq<(K, V)>, t: Seq<(K, V)>, key: K)
    ensures
        tally(s + t, key) == V::add_math(tally(s, key), tally(t, key)),
    decreases t.len(),
{
    if t.len() == 0 {
        assert(s + t =~= s);
        V::add_commutes(tally(s, key), V::zero_math());
        V::zero_is_neutral(tally(s, key));
    } else {
        assert((s + t).drop_last() =~= s + t.drop_last());
        lemma_tally_concat(s, t.drop_last(), key);
        if t.last().0 == key {
            V::add_associates(tally(s, key), tally(t.drop_last(), key), t.last().1.math());
        }
    }
}

/// Where every key is listed at most once, the sum for a key is the value listed
/// for it, and zero where it is not listed.
pub proof fn lemma_tally_distinct<K, V: MonoidValue>(items: Seq<(K, V)>, key: K)
    requires
        forall|i: int, j: int|
            0 <= i < j < items.len() ==> (#[trigger] items[i]).0 != (#[trigger] items[j]).0,
    ensures
        (forall|i: int| 0 <= i < items.len() ==> (#[trigger] items[i]).0 != key) ==> tally(
            items,
            key,
        ) == V::zero_math(),
        forall|i: int|
            0 <= i < items.len() && (#[trigger] items[i]).0 == key ==> tally(items, key)
                == items[i].1.math(),
    decreases items.len(),
{
    if items.len() > 0 {
        let rest = items.drop_last();
        lemma_tally_distinct(rest, key);
        let last = items.len() - 1;
        if items[last].0 == key {
            assert forall|i: int| 0 <= i < rest.len() implies (#[trigger] rest[i]).0 != key by {
                assert(items[i].0 != items[last].0);
            }
            V::zero_is_neutral(items[last].1.math());
        } else {
            assert forall|i: int|
                0 <= i < items.len() && (#[trigger] items[i]).0 == key implies tally(items, key)
                == items[i].1.math() by {
                assert(rest[i] == items[i]);
            }
            if forall|i: int| 0 <= i < items.len() ==> (#[trigger] items[i]).0 != key {
                assert forall|i: int| 0 <= i < rest.len() implies (#[trigger] rest[i]).0 != key by {
                    assert(rest[i] == items[i]);
                }
            }
        }
    }
}

/// The order in which updates are listed does not change what they add up to.
pub proof fn order_does_not_matter<K, V: MonoidValue>(s: Seq<(K, V)>, t: Seq<(K, V)>, key: K)
    requires
        s.to_multiset() == t.to_multiset(),
    ensures
        tally(s, key) == tally(t, key),
    decreases s.len(),
{
    broadcast use vstd::seq_lib::group_to_multiset_ensures;

    assert(s.len() == s.to_multiset().len() && t.len() == t.to_multiset().len());
    if s.len() > 0 {
        let x = s.last();
        assert(s.contains(x));
        assert(t.to_multiset().count(x) > 0);
        assert(t.contains(x));
        let i = choose|i: int| 0 <= i < t.len() && t[i] == x;
        let u = t.remove(i);
        assert(s.drop_last() =~= s.remove(s.len() - 1));
        assert(s.drop_last().to_multiset() =~= u.to_multiset());
        order_does_not_matter(s.drop_last(), u, key);
        let left = t.take(i);
        let right = t.skip(i + 1);
        assert(u =~= left + right);
        assert(t =~= left + (seq![x] + right));
        lemma_tally_concat(left, right, key);
        lemma_tally_concat(left, seq![x] + right, key);
        lemma_tally_concat(seq![x], right, key);
        reveal_with_fuel(tally, 2);
        assert(seq![x].drop_last() =~= Seq::empty());
        let a = tally(left, key);
        let b = tally(right, key);
        let m = x.1.math();
        V::zero_is_neutral(m);
        V::zero_is_neutral(b);
        V::add_associates(a, b, m);
        V::add_commutes(m, b);
    }
}

/// The values that a list of pairs gives to `key`, in their order.
pub open spec fn given_to<K, V>(items: Seq<(K, V)>, key: K) -> Seq<V> {
    items.filter(|p: (K, V)| p.0 == key).map_values(|p: (K, V)| p.1)
}

/// Integer values that a list associates with a key are added up as integers.
pub proof fn integers_are_added_up<K>(
    longs: Seq<(K, i64)>,
    ints: Seq<(K, i32)>,
    sizes: Seq<(K, isize)>,
    key: K,
)
    ensures
        tally(longs, key) == given_to(longs, key).map_values(|w: i64| w as int).fold_left(
            0,
            |a: int, b: int| a + b,
        ),
        tally(ints, key) == given_to(ints, key).map_values(|w: i32| w as int).fold_left(
            0,
            |a: int, b: int| a + b,
        ),
        tally(sizes, key) == given_to(sizes, key).map_values(|w: isize| w as int).fold_left(
            0,
            |a: int, b: int| a + b,
        ),
    decreases longs.len() + ints.len() + sizes.len(),
{
    reveal(Seq::filter);
    if longs.len() > 0 {
        let value = |w: i64| w as int;
        integers_are_added_up(longs.drop_last(), ints, sizes, key);
        let all = given_to(longs, key).map_values(value);
        let less = given_to(longs.drop_last(), key).map_values(value);
        if longs.last().0 == key {
            assert(all.drop_last() =~= less);
        } else {
            assert(all =~= less);
        }
    }
    if ints.len() > 0 {
        let value = |w: i32| w as int;
        integers_are_added_up(longs, ints.drop_last(), sizes, key);
        let all = given_to(ints, key).map_values(value);
        let less = given_to(ints.drop_last(), key).map_values(value);
        if ints.last().0 == key {
            assert(all.drop_last() =~= less);
        } else {
            assert(all =~= less);
        }
    }
    if sizes.len() > 0 {
        let value = |w: isize| w as int;
        integers_are_added_up(longs, ints, sizes.drop_last(), key);
        let all = given_to(sizes, key).map_values(value);
        let less = given_to(sizes.drop_last(), key).map_values(value);
        if sizes.last().0 == key {
            assert(all.drop_last() =~= less);
        } else {
            assert(all =~= less);
        }
    }
}

/// Adding an integer to itself multiplies it.
pub proof fn repeated_integers_multiply(m: int, n: nat)
    ensures
        times::<i64>(m, n) == m * n,
        times::<i32>(m, n) == m * n,
        times::<isize>(m, n) == m * n,
    decreases n,
{
    if n > 0 {
        repeated_integers_multiply(m, (n - 1) as nat);
        assert(m * n == m * (n - 1) + m) by (nonlinear_arith);
    }
}

/// Occurrences are counted as in the bag of the elements.
pub proof fn occurrences_are_counted<A>(s: Seq<A>, x: A)
    ensures
        occurrences(s, x) == s.to_multiset().count(x),
    decreases s.len(),
{
    broadcast use vstd::seq_lib::group_to_multiset_ensures;
    if s.len() > 0 {
        occurrences_are_counted(s.drop_last(), x);
        assert(s.drop_last().push(s.last()) =~= s);
    }
}

/// A sum over no keys is zero, and one more key adds what it is mapped to.
pub proof fn sums_grow_key_by_key<K, V: MonoidValue>(
    f: spec_fn(K) -> V::Math,
    keys: Set<K>,
    key: K,
)
    requires
        keys.finite(),
        !keys.contains(key),
    ensures
        sum_over::<K, V>(f, Set::empty()) == V::zero_math(),
        sum_over::<K, V>(f, keys.insert(key)) == V::add_math(f(key), sum_over::<K, V>(f, keys)),
{
    lemma_sum_take_out::<K, V>(f, keys.insert(key), key);
    assert(keys.insert(key).remove(key) =~= keys);
}

} // verus!
