//! Total orders on keys and sequences of keys in increasing order.

use core::cmp::Ordering;
use vstd::laws_cmp::{obeys_cmp, obeys_cmp_ord, obeys_cmp_partial_ord, obeys_partial_cmp_spec_properties};
use vstd::laws_eq::obeys_concrete_eq;
use vstd::prelude::*;
use vstd::std_specs::cmp::PartialOrdSpec;

verus! {

/// Holds of key types whose `Ord`, `Eq` and `Clone` keep the contracts of those
/// traits: the order is total, keys that compare equal are identical, and a
/// clone is identical to its source.
pub open spec fn lawful_order<K: Ord + Clone>() -> bool {
    &&& obeys_cmp::<K>()
    &&& obeys_concrete_eq::<K>()
    &&& forall|a: K, b: K| #[trigger] call_ensures(K::clone, (&a,), b) ==> a == b
}

/// The key `a` comes before the key `b`.
pub open spec fn before<K: Ord>(a: K, b: K) -> bool {
    a.partial_cmp_spec(&b) == Some(Ordering::Less)
}

/// The keys are in increasing order, none occurs twice.
pub open spec fn increasing<K: Ord>(s: Seq<K>) -> bool {
    forall|i: int, j: int| 0 <= i < j < s.len() ==> before(#[trigger] s[i], #[trigger] s[j])
}

/// The order is strict and total.
pub broadcast proof fn lemma_order<K: Ord + Clone>(a: K, b: K)
    requires
        lawful_order::<K>(),
    ensures
        #![trigger before(a, b)]
        before(a, b) ==> !before(b, a) && a != b,
        !before(a, b) && !before(b, a) ==> a == b,
        a == b ==> !before(a, b),
{
    reveal(obeys_partial_cmp_spec_properties);
    reveal(obeys_cmp_partial_ord);
    reveal(obeys_cmp_ord);
    reveal(obeys_concrete_eq);
    assert(a.partial_cmp_spec(&b) == Some(Ordering::Less) <==> b.partial_cmp_spec(&a) == Some(
        Ordering::Greater,
    ));
    assert(b.partial_cmp_spec(&a) == Some(Ordering::Less) <==> a.partial_cmp_spec(&b) == Some(
        Ordering::Greater,
    ));
    assert(a.partial_cmp_spec(&a) == Some(Ordering::Equal));
}

/// The order is transitive.
pub proof fn lemma_order_transitive<K: Ord + Clone>(a: K, b: K, c: K)
    requires
        lawful_order::<K>(),
        before(a, b),
        before(b, c),
    ensures
        before(a, c),
{
    reveal(obeys_partial_cmp_spec_properties);
}

/// Whether `a` comes before `b`.
pub fn is_before<K: Ord + Clone>(a: &K, b: &K) -> (r: bool)
    requires
        lawful_order::<K>(),
    ensures
        r == before(*a, *b),
{
    proof {
        reveal(obeys_cmp_partial_ord);
    }
    *a < *b
}

/// Whether `a` and `b` are the same key.
pub fn is_same<K: Ord + Clone>(a: &K, b: &K) -> (r: bool)
    requires
        lawful_order::<K>(),
    ensures
        r == (*a == *b),
{
    proof {
        lemma_order(*a, *b);
        lemma_order(*b, *a);
    }
    !is_before(a, b) && !is_before(b, a)
}

/// Machine integers are ordered by their values.
pub proof fn machine_integers_are_ordered(a: i64, b: i64, c: u64, d: u64, r: bool)
    ensures
        before(a, b) <==> a < b,
        before(c, d) <==> c < d,
        call_ensures(is_before::<i64>, (&a, &b), r) ==> (r <==> a < b),
        call_ensures(is_before::<u64>, (&c, &d), r) ==> (r <==> c < d),
        call_ensures(is_same::<i64>, (&a, &b), r) ==> (r <==> a == b),
        call_ensures(is_same::<u64>, (&c, &d), r) ==> (r <==> c == d),
{
}

/// The keys of these types keep the contracts of their orders.
pub proof fn machine_integers_are_lawful_keys()
    ensures
        lawful_order::<i64>(),
        lawful_order::<u64>(),
        lawful_order::<i32>(),
        lawful_order::<u32>(),
{
    broadcast use vstd::laws_cmp::group_laws_cmp, vstd::laws_eq::group_laws_eq;

}

} // verus!
