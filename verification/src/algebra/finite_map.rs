//! This module implements groups that are finite maps from values to a group.

use crate::algebra::sums::{
    given_to, integers_are_added_up, lemma_occurrences_prefix, lemma_single_occurrence, lemma_sum_congruent,
    lemma_sum_insert, lemma_tally_distinct, lemma_times_one, occurrences,
    occurrences_are_counted, repeated_integers_multiply, sum_over, tally, times,
};
use crate::algebra::{GroupValue, MonoidValue};
use crate::order::lawful_order;
use crate::text::Text;
use crate::trace::layers::weighted::{
    consolidate, is_weighted, lemma_weight_listed, lemma_weight_nonzero, weight_at,
};
use std::collections::hash_map::Entry;
use std::collections::HashMap;
use std::hash::Hash;
use vstd::prelude::*;
use vstd::std_specs::hash::obeys_key_model;
use vstd::std_specs::iter::IteratorSpec;
use vstd::string::StringExecFns;

verus! {

broadcast use vstd::std_specs::hash::group_hash_axioms;

/// The properties we expect for a finite map key.
pub trait KeyProperties: 'static + Clone + Eq + Hash {

}

impl<T> KeyProperties for T where T: 'static + Clone + Eq + Hash {

}

/// Holds of key types whose `Eq`, `Hash` and `Clone` keep the contracts of
/// those traits: equal keys are identical, hashing is deterministic, and a clone
/// is identical to its source.
pub open spec fn lawful_key<K: Clone>() -> bool {
    &&& obeys_key_model::<K>()
    &&& forall|a: K, b: K| #[trigger] call_ensures(K::clone, (&a,), b) ==> a == b
}

/// The keys at which a map from keys to values is not zero.
pub open spec fn support_of<K, V: MonoidValue>(at: spec_fn(K) -> V::Math) -> Set<K> {
    Set::new(|k: K| at(k) != V::zero_math())
}

/// What the keys in `keys` contribute to `target` when each key hands its value
/// to every key of its image, as often as the image lists it.
pub open spec fn scattered<K, N, V: MonoidValue>(
    at: spec_fn(K) -> V::Math,
    image: spec_fn(K) -> Seq<N>,
    keys: Set<K>,
    target: N,
) -> V::Math {
    sum_over::<K, V>(|k: K| times::<V>(at(k), occurrences(image(k), target)), keys)
}

/// Whether `image` gives, for each of the keys, what `f` may return for it.
pub open spec fn maps_to<K, N, F: Fn(&K) -> N>(
    f: F,
    keys: Set<K>,
    image: spec_fn(K) -> Seq<N>,
) -> bool {
    forall|k: K| #[trigger]
        keys.contains(k) ==> image(k).len() == 1 && call_ensures(f, (&k,), image(k)[0])
}

/// Whether `image` gives, for each of the keys, what `f` may list for it.
pub open spec fn lists<K, N, F: Fn(&K) -> Vec<N>>(
    f: F,
    keys: Set<K>,
    image: spec_fn(K) -> Seq<N>,
) -> bool {
    forall|k: K| #[trigger]
        keys.contains(k) ==> exists|v: Vec<N>|
            v@ == image(k) && #[trigger] call_ensures(f, (&k,), v)
}

/// Whether the weights `at` can be handed to the images of the keys in `done`
/// and then `n` times to `target` by `key` without leaving the values that the
/// weight type holds.
pub open spec fn partial_sum_holds<K, N, V: MonoidValue>(
    at: spec_fn(K) -> V::Math,
    image: spec_fn(K) -> Seq<N>,
    done: Set<K>,
    key: K,
    target: N,
    n: nat,
) -> bool {
    n <= occurrences(image(key), target) ==> V::holds(
        V::add_math(scattered::<K, N, V>(at, image, done, target), times::<V>(at(key), n)),
    )
}

/// Finite map trait.
///
/// A finite map maps arbitrary values (comparable for equality) to values in a
/// group.  It has finite support: it is non-zero only for a finite number of
/// values.
pub trait FiniteMap<Key, Value>: GroupValue where Key: KeyProperties, Value: GroupValue {
    /// The value associated with a key.
    spec fn at(&self, key: Key) -> Value::Math;

    /// The map as a function from keys to values.
    spec fn weights(&self) -> spec_fn(Key) -> Value::Math;

    /// The keys mapped to non-zero values.
    spec fn support_set(&self) -> Set<Key>;

    /// The support is what it is named after, and it is finite.
    proof fn support_is_finite(&self)
        requires
            Self::lawful(),
            self.wf(),
        ensures
            forall|k: Key| #[trigger] (self.weights())(k) == self.at(k),
            self.support_set() == support_of::<Key, Value>(self.weights()),
            self.support_set().finite(),
    ;

    /// Maps over lawful types have lawful keys and values.
    proof fn parts_are_lawful()
        requires
            Self::lawful(),
        ensures
            lawful_key::<Key>(),
            Value::lawful(),
    ;

    /// Find the value associated to the specified key.
    fn lookup(&self, key: &Key) -> (r: Value)
        requires
            Self::lawful(),
            self.wf(),
        ensures
            r.wf(),
            r.math() == self.at(*key),
    ;

    /// Find the value associated to the specified key.
    ///
    /// Returns `None` when `key` is not in the support of `self`.
    fn get_in_support(&self, key: &Key) -> (r: Option<&Value>)
        requires
            Self::lawful(),
            self.wf(),
        ensures
            match r {
                Some(v) => v.wf() && v.math() == self.at(*key) && self.support_set().contains(
                    *key,
                ),
                None => !self.support_set().contains(*key) && self.at(*key) == Value::zero_math(),
            },
    ;

    /// Return the set of values that are mapped to non-zero values.
    fn support(&self) -> (r: Vec<&Key>)
        requires
            Self::lawful(),
            self.wf(),
        ensures
            r@.unref().no_duplicates(),
            r@.unref().to_set() == self.support_set(),
    ;

    /// The size of the support: number of elements for which the map does not
    /// return zero.
    fn support_size(&self) -> (r: usize)
        requires
            Self::lawful(),
            self.wf(),
        ensures
            r == self.support_set().len(),
    ;
    /// Increase the value associated with `key` by the specified `value`.
    fn increment(&mut self, key: &Key, value: Value)
        requires
            Self::lawful(),
            old(self).wf(),
            value.wf(),
            Value::holds(Value::add_math(old(self).at(*key), value.math())),
        ensures
            final(self).wf(),
            final(self).at(*key) == Value::add_math(old(self).at(*key), value.math()),
            forall|k: Key| k != *key ==> final(self).at(k) == old(self).at(k),
    ;

    /// Increase the value associated with `key` by the specified `value`.
    fn increment_owned(&mut self, key: Key, value: Value)
        requires
            Self::lawful(),
            old(self).wf(),
            value.wf(),
            Value::holds(Value::add_math(old(self).at(key), value.math())),
        ensures
            final(self).wf(),
            final(self).at(key) == Value::add_math(old(self).at(key), value.math()),
            forall|k: Key| k != key ==> final(self).at(k) == old(self).at(k),
    ;

    /// Modify the value associated with `key`.
    fn update<F>(&mut self, key: &Key, f: F) where F: FnOnce(&mut Value)
        requires
            Self::lawful(),
            old(self).wf(),
            forall|v: &mut Value| #[trigger]
                v.wf() && v.math() == old(self).at(*key) ==> f.requires((v,)),
            forall|v: &mut Value| #[trigger] f.ensures((v,), ()) ==> final(v).wf(),
        ensures
            final(self).wf(),
            exists|v: &mut Value|
                {
                    &&& v.math() == old(self).at(*key)
                    &&& #[trigger] f.ensures((v,), ())
                    &&& final(self).at(*key) == final(v).math()
                },
            forall|k: Key| k != *key ==> final(self).at(k) == old(self).at(k),
    ;

    /// Modify the value associated with `key`.
    fn update_owned<F>(&mut self, key: Key, f: F) where F: FnOnce(&mut Value)
        requires
            Self::lawful(),
            old(self).wf(),
            forall|v: &mut Value| #[trigger]
                v.wf() && v.math() == old(self).at(key) ==> f.requires((v,)),
            forall|v: &mut Value| #[trigger] f.ensures((v,), ()) ==> final(v).wf(),
        ensures
            final(self).wf(),
            exists|v: &mut Value|
                {
                    &&& v.math() == old(self).at(key)
                    &&& #[trigger] f.ensures((v,), ())
                    &&& final(self).at(key) == final(v).math()
                },
            forall|k: Key| k != key ==> final(self).at(k) == old(self).at(k),
    ;

    /// Create a map containing a singleton value.
    fn singleton(key: Key, value: Value) -> (r: Self)
        requires
            Self::lawful(),
            value.wf(),
        ensures
            r.wf(),
            r.at(key) == value.math(),
            forall|k: Key| k != key ==> r.at(k) == Value::zero_math(),
    ;

    /// Apply map to every 'key' in the support of this map and generate a new
    /// map. The new map is generated by adding all the maps generated by
    /// this process.
    fn map<F, NewKey>(&self, mapper: &F) -> (r: FiniteHashMap<NewKey, Value>) where
        F: Fn(&Key) -> NewKey,
        NewKey: KeyProperties,

        requires
            Self::lawful(),
            self.wf(),
            lawful_key::<NewKey>(),
            forall|k: Key| #[trigger]
                self.support_set().contains(k) ==> call_requires(*mapper, (&k,)),
            forall|
                image: spec_fn(Key) -> Seq<NewKey>,
                done: Set<Key>,
                key: Key,
                target: NewKey,
                n: nat,
            |
                done.insert(key).subset_of(self.support_set()) && !done.contains(key) && maps_to(
                    *mapper,
                    done.insert(key),
                    image,
                ) ==> #[trigger] partial_sum_holds::<Key, NewKey, Value>(
                    self.weights(),
                    image,
                    done,
                    key,
                    target,
                    n,
                ),
        ensures
            r.valid(),
            exists|image: spec_fn(Key) -> Seq<NewKey>|
                {
                    &&& #[trigger] maps_to(*mapper, self.support_set(), image)
                    &&& forall|n: NewKey|
                        #[trigger] r.value_at(n) == scattered::<Key, NewKey, Value>(
                            self.weights(),
                            image,
                            self.support_set(),
                            n,
                        )
                },
    ;

    /// Apply the `filter` function to every key in the map and generate a new
    /// map containing only the keys for which the `filter` function returns
    /// `true`.
    fn filter<F>(&self, filter: F) -> (r: Self) where F: Fn(&Key) -> bool
        requires
            Self::lawful(),
            self.wf(),
            forall|k: Key| #[trigger]
                self.support_set().contains(k) ==> call_requires(filter, (&k,)),
        ensures
            r.wf(),
            forall|k: Key| #[trigger]
                self.support_set().contains(k) ==> {
                    ||| call_ensures(filter, (&k,), true) && r.at(k) == self.at(k)
                    ||| call_ensures(filter, (&k,), false) && r.at(k) == Value::zero_math()
                },
            forall|k: Key| !self.support_set().contains(k) ==> r.at(k) == Value::zero_math(),
            forall|k: Key|
                (forall|b: bool| #[trigger] call_ensures(filter, (&k,), b) ==> b)
                    ==> #[trigger] r.at(k) == self.at(k),
            forall|k: Key|
                (forall|b: bool| #[trigger] call_ensures(filter, (&k,), b) ==> !b)
                    ==> #[trigger] r.at(k) == Value::zero_math(),
    ;

    /// Apply the mapper to every 'key' in the support of this map and generate
    /// a new map. The new map is generated by adding all the maps generated in
    /// this process.
    fn flat_map<F, NewKey>(&self, mapper: F) -> (r: FiniteHashMap<NewKey, Value>) where
        F: Fn(&Key) -> Vec<NewKey>,
        NewKey: KeyProperties,

        requires
            Self::lawful(),
            self.wf(),
            lawful_key::<NewKey>(),
            forall|k: Key| #[trigger]
                self.support_set().contains(k) ==> call_requires(mapper, (&k,)),
            forall|
                image: spec_fn(Key) -> Seq<NewKey>,
                done: Set<Key>,
                key: Key,
                target: NewKey,
                n: nat,
            |
                done.insert(key).subset_of(self.support_set()) && !done.contains(key) && lists(
                    mapper,
                    done.insert(key),
                    image,
                ) ==> #[trigger] partial_sum_holds::<Key, NewKey, Value>(
                    self.weights(),
                    image,
                    done,
                    key,
                    target,
                    n,
                ),
        ensures
            r.valid(),
            exists|image: spec_fn(Key) -> Seq<NewKey>|
                {
                    &&& #[trigger] lists(mapper, self.support_set(), image)
                    &&& forall|n: NewKey| #[trigger]
                        r.value_at(n) == scattered::<Key, NewKey, Value>(
                            self.weights(),
                            image,
                            self.support_set(),
                            n,
                        )
                },
    ;
}

/// A finite map stored in a hash table.
#[verifier::reject_recursive_types(Key)]
#[verifier::reject_recursive_types(Value)]
#[derive(Debug, PartialEq, Eq)]
pub struct FiniteHashMap<Key, Value> where Key: KeyProperties {
    // Exactly the keys that have non-zero values are in this map.
    value: HashMap<Key, Value>,
}

impl<Key, Value> FiniteHashMap<Key, Value> where Key: KeyProperties, Value: GroupValue {
    /// The value associated with a key; zero for all but finitely many keys.
    pub closed spec fn value_at(&self, key: Key) -> Value::Math {
        if self.value@.contains_key(key) {
            self.value@[key].math()
        } else {
            Value::zero_math()
        }
    }

    /// The stored keys are those mapped to non-zero values.
    pub closed spec fn valid(&self) -> bool {
        forall|k: Key| #[trigger]
            self.value@.contains_key(k) ==> self.value@[k].wf() && self.value@[k].math()
                != Value::zero_math()
    }

    proof fn lemma_support(&self)
        requires
            self.valid(),
        ensures
            support_of::<Key, Value>(self.math()) == self.value@.dom(),
    {
        assert(support_of::<Key, Value>(self.math()) =~= self.value@.dom());
    }

    /// Allocates an empty map.
    pub fn new() -> (r: Self)
        ensures
            r.valid(),
            forall|k: Key| #[trigger] r.value_at(k) == Value::zero_math(),
    {
        FiniteHashMap { value: HashMap::new() }
    }

    /// Allocates an empty map that is expected to hold `size` values.
    pub fn with_capacity(size: usize) -> (r: Self)
        ensures
            r.valid(),
            forall|k: Key| #[trigger] r.value_at(k) == Value::zero_math(),
    {
        FiniteHashMap { value: HashMap::with_capacity(size) }
    }

    /// Increases the value associated with `key` by `value`.
    fn bump(&mut self, key: Key, value: Value)
        requires
            lawful_key::<Key>(),
            Value::lawful(),
            old(self).valid(),
            value.wf(),
            Value::holds(Value::add_math(old(self).value_at(key), value.math())),
        ensures
            final(self).valid(),
            final(self).value_at(key) == Value::add_math(old(self).value_at(key), value.math()),
            forall|k: Key| k != key ==> #[trigger] final(self).value_at(k) == old(self).value_at(k),
    {
        proof {
            Value::add_commutes(self.value_at(key), Value::zero_math());
            Value::zero_is_neutral(self.value_at(key));
            Value::zero_is_neutral(value.math());
        }
        if value.is_zero() {
            return;
        }
        match self.value.entry(key) {
            Entry::Vacant(vacant) => {
                vacant.insert(value);
            },
            Entry::Occupied(mut occupied) => {
                occupied.get_mut().add_assign_by_ref(&value);
                if occupied.get().is_zero() {
                    occupied.remove_entry();
                }
            },
        }
    }
}

impl<Key, Value> GroupValue for FiniteHashMap<Key, Value> where
    Key: KeyProperties,
    Value: GroupValue,
 {
    open spec fn neg_math(a: spec_fn(Key) -> Value::Math) -> spec_fn(Key) -> Value::Math {
        |k: Key| Value::neg_math(a(k))
    }

    proof fn neg_cancels(a: spec_fn(Key) -> Value::Math) {
        assert forall|k: Key| #[trigger] Value::add_math(a(k), Value::neg_math(a(k))) == Value::zero_math() by {
            Value::neg_cancels(a(k));
        }
        assert(Self::add_math(a, Self::neg_math(a)) =~= Self::zero_math());
    }

    fn neg_by_ref(&self) -> (r: Self) {
        let mut result: Self = FiniteHashMap { value: HashMap::new() };
        for (k, v) in it: self.value.iter()
            invariant
                Self::lawful(),
                Self::holds(Self::neg_math(self.math())),
                self.valid(),
                result.valid(),
                it.seq().no_duplicates(),
                forall|j: int|
                    0 <= j < it.index() ==> result.value_at(*#[trigger] it.seq()[j].0)
                        == Value::neg_math(self.value_at(*it.seq()[j].0)),
                forall|k: Key| !self.value@.contains_key(k) ==> !#[trigger] result.value@.contains_key(k),
        {
            let ghost seq = it.seq();
            let ghost i = it.index();
            assert(self.value@.contains_key(*seq[i].0));
            assert(v.math() == self.value_at(*k));
            assert(Value::holds((Self::neg_math(self.math()))(*k)));
            let negated = v.neg_by_ref();
            proof {
                lemma_neg_zero::<Value>(v.math());
            }
            result.value.insert(k.clone(), negated);
            assert forall|j: int| 0 <= j < seq.len() && j != i implies *(#[trigger] seq[j]).0 != *k by {
                assert(self.value@.contains_key(*seq[j].0));
                if *seq[j].0 == *k {
                    assert(seq[j] == seq[i]);
                }
            }
        }
        proof {
            assert forall|k: Key| #[trigger] result.value_at(k) == Value::neg_math(self.value_at(k)) by {
                if self.value@.contains_key(k) {
                    let v = self.value.iter().remaining();
                    assert(v.contains((&k, &self.value@[k])));
                    let j = choose|j: int| 0 <= j < v.len() && v[j] == (&k, &self.value@[k]);
                    assert(result.value_at(*v[j].0) == Value::neg_math(self.value_at(*v[j].0)));
                } else {
                    lemma_neg_zero::<Value>(Value::zero_math());
                }
            }
            assert(result.math() =~= Self::neg_math(self.math()));
        }
        result
    }
}

/// Taking one more key into a scattered sum adds the key's own share.
proof fn lemma_scatter_step<K, N, V: MonoidValue>(
    at: spec_fn(K) -> V::Math,
    image: spec_fn(K) -> Seq<N>,
    next: spec_fn(K) -> Seq<N>,
    done: Set<K>,
    key: K,
)
    requires
        done.finite(),
        !done.contains(key),
        forall|k: K| done.contains(k) ==> #[trigger] image(k) == next(k),
    ensures
        forall|n: N| #[trigger]
            scattered::<K, N, V>(at, next, done, n) == scattered::<K, N, V>(at, image, done, n),
        forall|n: N| #[trigger]
            scattered::<K, N, V>(at, next, done.insert(key), n) == V::add_math(
                scattered::<K, N, V>(at, image, done, n),
                times::<V>(at(key), occurrences(next(key), n)),
            ),
{
    assert forall|n: N| #[trigger]
        scattered::<K, N, V>(at, next, done, n) == scattered::<K, N, V>(at, image, done, n) by {
        let before = |k: K| times::<V>(at(k), occurrences(image(k), n));
        let after = |k: K| times::<V>(at(k), occurrences(next(k), n));
        lemma_sum_congruent::<K, V>(after, before, done);
    }
    assert forall|n: N|
        #[trigger] scattered::<K, N, V>(at, next, done.insert(key), n) == V::add_math(
            scattered::<K, N, V>(at, image, done, n),
            times::<V>(at(key), occurrences(next(key), n)),
        ) by {
        let before = |k: K| times::<V>(at(k), occurrences(image(k), n));
        let after = |k: K| times::<V>(at(k), occurrences(next(k), n));
        lemma_sum_congruent::<K, V>(after, before, done);
        lemma_sum_insert::<K, V>(after, done, key);
    }
}

/// Only zero is its own opposite's opposite number: a value is zero exactly if
/// its inverse is.
proof fn lemma_neg_zero<V: GroupValue>(a: V::Math)
    ensures
        a == V::zero_math() <==> V::neg_math(a) == V::zero_math(),
{
    V::neg_cancels(a);
    V::zero_is_neutral(V::neg_math(a));
    V::zero_is_neutral(a);
    V::add_commutes(a, V::zero_math());
}

impl<Key, Value> FiniteMap<Key, Value> for FiniteHashMap<Key, Value> where
    Key: KeyProperties,
    Value: GroupValue,
 {
    open spec fn at(&self, key: Key) -> Value::Math {
        self.value_at(key)
    }

    open spec fn weights(&self) -> spec_fn(Key) -> Value::Math {
        self.math()
    }

    open spec fn support_set(&self) -> Set<Key> {
        support_of::<Key, Value>(self.math())
    }

    proof fn support_is_finite(&self) {
        self.lemma_support();
        assert(self.support_set() =~= support_of::<Key, Value>(self.weights()));
    }

    proof fn parts_are_lawful() {
    }

    fn lookup(&self, key: &Key) -> (r: Value) {
        match self.value.get(key) {
            Some(w) => w.duplicate(),
            None => Value::zero(),
        }
    }

    fn get_in_support(&self, key: &Key) -> (r: Option<&Value>) {
        self.value.get(key)
    }

    fn support(&self) -> (r: Vec<&Key>) {
        proof {
            self.lemma_support();
        }
        let mut keys: Vec<&Key> = Vec::new();
        for k in it: self.value.keys()
            invariant
                keys@ == it.seq().take(it.index()),
        {
            assert(it.seq().take(it.index() + 1) =~= it.seq().take(it.index()).push(k));
            keys.push(k);
        }
        assert(keys@ =~= self.value.keys().remaining());
        keys
    }

    fn support_size(&self) -> (r: usize) {
        proof {
            self.lemma_support();
        }
        self.value.len()
    }
    fn increment_owned(&mut self, key: Key, value: Value) {
        self.bump(key, value);
    }

    fn increment(&mut self, key: &Key, value: Value) {
        self.bump(key.clone(), value);
    }

    fn update_owned<F>(&mut self, key: Key, f: F) where F: FnOnce(&mut Value) {
        match self.value.entry(key) {
            Entry::Vacant(vacant) => {
                let mut val = Value::zero();
                f(&mut val);
                if !val.is_zero() {
                    vacant.insert(val);
                }
            },
            Entry::Occupied(mut occupied) => {
                f(occupied.get_mut());
                if occupied.get().is_zero() {
                    occupied.remove();
                }
            },
        }
    }

    fn update<F>(&mut self, key: &Key, f: F) where F: FnOnce(&mut Value) {
        self.update_owned(key.clone(), f);
    }

    fn singleton(key: Key, value: Value) -> (r: Self) {
        let mut result: Self = FiniteHashMap { value: HashMap::with_capacity(1) };
        if !value.is_zero() {
            result.value.insert(key, value);
        }
        result
    }

    fn map<F, NewKey>(&self, mapper: &F) -> (r: FiniteHashMap<NewKey, Value>) where
        F: Fn(&Key) -> NewKey,
        NewKey: KeyProperties,
    {
        let mut result: FiniteHashMap<NewKey, Value> = FiniteHashMap::new();
        let ghost mut image: spec_fn(Key) -> Seq<NewKey> = |k: Key| Seq::empty();
        let ghost mut done: Set<Key> = Set::empty();
        proof {
            self.lemma_support();
        }
        for (k, v) in it: self.value.iter()
            invariant
                Self::lawful(),
                lawful_key::<NewKey>(),
                self.valid(),
                self.support_set() == self.value@.dom(),
                result.valid(),
                it.seq().no_duplicates(),
                done.finite(),
                done.subset_of(self.support_set()),
                forall|x: Key| #[trigger] done.contains(x) <==> exists|j: int| 0 <= j < it.index() && *(#[trigger] it.seq()[j]).0 == x,
                maps_to(*mapper, done, image),
                forall|n: NewKey| #[trigger] result.value_at(n) == scattered::<Key, NewKey, Value>(self.weights(), image, done, n),
                forall|k: Key| #[trigger]
                    self.support_set().contains(k) ==> call_requires(*mapper, (&k,)),
                forall|
                    image: spec_fn(Key) -> Seq<NewKey>,
                    done: Set<Key>,
                    key: Key,
                    target: NewKey,
                    n: nat,
                |
                    done.insert(key).subset_of(self.support_set()) && !done.contains(key)
                        && maps_to(*mapper, done.insert(key), image)
                        ==> #[trigger] partial_sum_holds::<Key, NewKey, Value>(
                        self.weights(),
                        image,
                        done,
                        key,
                        target,
                        n,
                    ),
        {
            let ghost seq = it.seq();
            let ghost i = it.index();
            let ghost at = self.weights();
            assert(self.value@.contains_key(*seq[i].0));
            assert(self.support_set().contains(*k));
            let new_key = mapper(k);
            proof {
                if done.contains(*k) {
                    let j = choose|j: int| 0 <= j < i && *(#[trigger] seq[j]).0 == *k;
                    assert(self.value@.contains_key(*seq[j].0));
                    assert(seq[j] == seq[i]);
                }
                let next = |x: Key| if x == *k { seq![new_key] } else { image(x) };
                assert(maps_to(*mapper, done.insert(*k), next));
                assert(partial_sum_holds::<Key, NewKey, Value>(at, next, done, *k, new_key, 1));
                lemma_scatter_step::<Key, NewKey, Value>(at, image, next, done, *k);
                lemma_single_occurrence(new_key);
                lemma_times_one::<Value>(at(*k));
            }
            let ghost before = result;
            result.bump(new_key, v.duplicate());
            proof {
                let next = |x: Key| if x == *k { seq![new_key] } else { image(x) };
                assert forall|n: NewKey| #[trigger] result.value_at(n) == scattered::<
                    Key,
                    NewKey,
                    Value,
                >(at, next, done.insert(*k), n) by {
                    if n != new_key {
                        Value::add_commutes(before.value_at(n), Value::zero_math());
                        Value::zero_is_neutral(before.value_at(n));
                    }
                }
                image = next;
                done = done.insert(*k);
            }
        }
        proof {
            assert(done =~= self.support_set()) by {
                assert forall|x: Key| self.support_set().contains(x) implies done.contains(x) by {
                    let v = self.value.iter().remaining();
                    assert(v.contains((&x, &self.value@[x])));
                }
            }
        }
        result
    }

    fn filter<F>(&self, filter: F) -> (r: Self) where F: Fn(&Key) -> bool {
        let mut result: Self = FiniteHashMap { value: HashMap::new() };
        proof {
            self.lemma_support();
        }
        for (k, v) in it: self.value.iter()
            invariant
                Self::lawful(),
                self.valid(),
                self.support_set() == self.value@.dom(),
                result.valid(),
                it.seq().no_duplicates(),
                forall|k: Key| #[trigger]
                    self.support_set().contains(k) ==> call_requires(filter, (&k,)),
                forall|j: int|
                    0 <= j < it.index() ==> {
                        let k = *(#[trigger] it.seq()[j]).0;
                        ||| call_ensures(filter, (&k,), true) && result.value_at(k)
                            == self.value_at(k)
                        ||| call_ensures(filter, (&k,), false) && result.value_at(k)
                            == Value::zero_math()
                    },
                forall|k: Key| #[trigger]
                    result.value@.contains_key(k) ==> exists|j: int|
                        0 <= j < it.index() && *(#[trigger] it.seq()[j]).0 == k,
        {
            let ghost seq = it.seq();
            let ghost i = it.index();
            assert(self.value@.contains_key(*seq[i].0));
            assert(self.support_set().contains(*k));
            assert forall|j: int| 0 <= j < seq.len() && j != i implies *(#[trigger] seq[j]).0
                != *k by {
                assert(self.value@.contains_key(*seq[j].0));
                if *seq[j].0 == *k {
                    assert(seq[j] == seq[i]);
                }
            }
            if filter(k) {
                result.value.insert(k.clone(), v.duplicate());
            }
        }
        proof {
            assert forall|k: Key| #[trigger] self.support_set().contains(k) implies {
                ||| call_ensures(filter, (&k,), true) && result.at(k) == self.at(k)
                ||| call_ensures(filter, (&k,), false) && result.at(k) == Value::zero_math()
            } by {
                let v = self.value.iter().remaining();
                assert(v.contains((&k, &self.value@[k])));
            }
            assert forall|k: Key| !self.support_set().contains(k) implies result.at(k)
                == Value::zero_math() by {
                if result.value@.contains_key(k) {
                    let v = self.value.iter().remaining();
                    let j = choose|j: int| 0 <= j < v.len() && *(#[trigger] v[j]).0 == k;
                    assert(self.value@.contains_key(*v[j].0));
                }
            }
            assert forall|k: Key| (forall|b: bool| #[trigger]
                call_ensures(filter, (&k,), b) ==> b) implies #[trigger] result.at(k) == self.at(
                k,
            ) by {
                if self.support_set().contains(k) && result.at(k) != self.at(k) {
                    assert(call_ensures(filter, (&k,), false));
                }
            }
        }
        result
    }

    fn flat_map<F, NewKey>(&self, mapper: F) -> (r: FiniteHashMap<NewKey, Value>) where
        F: Fn(&Key) -> Vec<NewKey>,
        NewKey: KeyProperties,
    {
        let mut result: FiniteHashMap<NewKey, Value> = FiniteHashMap::new();
        let ghost mut image: spec_fn(Key) -> Seq<NewKey> = |k: Key| Seq::empty();
        let ghost mut done: Set<Key> = Set::empty();
        let ghost at = self.weights();
        proof {
            self.lemma_support();
        }
        for (k, v) in it: self.value.iter()
            invariant
                Self::lawful(),
                lawful_key::<NewKey>(),
                self.valid(),
                at == self.weights(),
                self.support_set() == self.value@.dom(),
                result.valid(),
                it.seq().no_duplicates(),
                done.finite(),
                done.subset_of(self.support_set()),
                forall|x: Key| #[trigger]
                    done.contains(x) <==> exists|j: int|
                        0 <= j < it.index() && *(#[trigger] it.seq()[j]).0 == x,
                lists(mapper, done, image),
                forall|n: NewKey| #[trigger]
                    result.value_at(n) == scattered::<Key, NewKey, Value>(at, image, done, n),
                forall|k: Key| #[trigger]
                    self.support_set().contains(k) ==> call_requires(mapper, (&k,)),
                forall|
                    image: spec_fn(Key) -> Seq<NewKey>,
                    done: Set<Key>,
                    key: Key,
                    target: NewKey,
                    n: nat,
                |
                    done.insert(key).subset_of(self.support_set()) && !done.contains(key)
                        && lists(mapper, done.insert(key), image)
                        ==> #[trigger] partial_sum_holds::<Key, NewKey, Value>(
                        at,
                        image,
                        done,
                        key,
                        target,
                        n,
                    ),
        {
            let ghost seq = it.seq();
            let ghost i = it.index();
            assert(self.value@.contains_key(*seq[i].0));
            assert(self.support_set().contains(*k));
            let new_keys = mapper(k);
            let ghost next = |x: Key|
                if x == *k {
                    new_keys@
                } else {
                    image(x)
                };
            proof {
                if done.contains(*k) {
                    let j = choose|j: int| 0 <= j < i && *(#[trigger] seq[j]).0 == *k;
                    assert(self.value@.contains_key(*seq[j].0));
                    assert(seq[j] == seq[i]);
                }
                assert(lists(mapper, done.insert(*k), next));
                lemma_scatter_step::<Key, NewKey, Value>(at, image, next, done, *k);
                assert forall|n: NewKey| #[trigger]
                    result.value_at(n) == Value::add_math(
                        scattered::<Key, NewKey, Value>(at, next, done, n),
                        times::<Value>(at(*k), occurrences(new_keys@.take(0), n)),
                    ) by {
                    assert(new_keys@.take(0) =~= Seq::empty());
                    lemma_times_one::<Value>(at(*k));
                    Value::add_commutes(result.value_at(n), Value::zero_math());
                    Value::zero_is_neutral(result.value_at(n));
                }
            }
            for j in 0..new_keys.len()
                invariant
                    Self::lawful(),
                    lawful_key::<NewKey>(),
                    v.wf(),
                    v.math() == at(*k),
                    next(*k) == new_keys@,
                    result.valid(),
                    forall|n: NewKey| #[trigger]
                        result.value_at(n) == Value::add_math(
                            scattered::<Key, NewKey, Value>(at, next, done, n),
                            times::<Value>(at(*k), occurrences(new_keys@.take(j as int), n)),
                        ),
                    forall|target: NewKey, n: nat| #[trigger]
                        partial_sum_holds::<Key, NewKey, Value>(at, next, done, *k, target, n),
            {
                let ghost before = result;
                let ghost target = new_keys@[j as int];
                let ghost count = occurrences(new_keys@.take(j as int), target);
                proof {
                    assert(new_keys@.take(j + 1).drop_last() =~= new_keys@.take(j as int));
                    lemma_occurrences_prefix(new_keys@, j + 1, target);
                    assert(occurrences(new_keys@.take(j + 1), target) == count + 1);
                    assert(partial_sum_holds::<Key, NewKey, Value>(
                        at,
                        next,
                        done,
                        *k,
                        target,
                        count + 1,
                    ));
                    Value::add_associates(
                        scattered::<Key, NewKey, Value>(at, next, done, target),
                        times::<Value>(at(*k), count),
                        at(*k),
                    );
                }
                result.bump(new_keys[j].clone(), v.duplicate());
                assert forall|n: NewKey| #[trigger]
                    result.value_at(n) == Value::add_math(
                        scattered::<Key, NewKey, Value>(at, next, done, n),
                        times::<Value>(at(*k), occurrences(new_keys@.take(j + 1), n)),
                    ) by {
                    if n != target {
                        assert(result.value_at(n) == before.value_at(n));
                    }
                }
            }
            proof {
                assert(new_keys@.take(new_keys@.len() as int) =~= new_keys@);
                image = next;
                done = done.insert(*k);
            }
        }
        proof {
            assert(done =~= self.support_set()) by {
                assert forall|x: Key| self.support_set().contains(x) implies done.contains(x) by {
                    let v = self.value.iter().remaining();
                    assert(v.contains((&x, &self.value@[x])));
                }
            }
        }
        result
    }
}

impl<Key, Value> FiniteHashMap<Key, Value> where Key: KeyProperties, Value: GroupValue {
    /// Combine the value corresponding to each key in self to the value
    /// corresponding to the same key in `other` using the `merger` function.
    /// The `merger` function is taken to return 0 when either input is 0, so
    /// only the common keys between self and `other` are looked at.
    pub fn match_keys<Value2, Value3, FM2, F>(&self, other: &FM2, merger: F) -> (r: FiniteHashMap<
        Key,
        Value3,
    >) where
        Value2: GroupValue,
        Value3: GroupValue,
        FM2: FiniteMap<Key, Value2>,
        F: Fn(&Value, &Value2) -> Value3,

        requires
            <Self as MonoidValue>::lawful(),
            FM2::lawful(),
            Value3::lawful(),
            self.wf(),
            other.wf(),
            forall|k: Key, v: Value, v2: Value2|
                #![trigger self.at(k), call_requires(merger, (&v, &v2))]
                self.support_set().contains(k) && other.support_set().contains(k) && v.wf()
                    && v2.wf() && v.math() == self.at(k) && v2.math() == other.at(k)
                    ==> call_requires(merger, (&v, &v2)),
            forall|v: Value, v2: Value2, v3: Value3| #[trigger]
                call_ensures(merger, (&v, &v2), v3) ==> v3.wf(),
        ensures
            r.valid(),
            forall|k: Key|
                #![trigger r.value_at(k)]
                self.support_set().contains(k) && other.support_set().contains(k) ==> exists|
                    v: Value,
                    v2: Value2,
                    v3: Value3,
                |
                    {
                        &&& v.math() == self.at(k)
                        &&& v2.math() == other.at(k)
                        &&& #[trigger] call_ensures(merger, (&v, &v2), v3)
                        &&& r.value_at(k) == v3.math()
                    },
            forall|k: Key|
                !(self.support_set().contains(k) && other.support_set().contains(k))
                    ==> #[trigger] r.value_at(k) == Value3::zero_math(),
    {
        let mut result: FiniteHashMap<Key, Value3> = FiniteHashMap { value: HashMap::new() };
        // Iterate on the smaller set.
        let keys = if self.support_size() < other.support_size() {
            self.support()
        } else {
            other.support()
        };
        for i in 0..keys.len()
            invariant
                <Self as MonoidValue>::lawful(),
                FM2::lawful(),
                Value3::lawful(),
                self.wf(),
                other.wf(),
                keys@.unref().no_duplicates(),
                result.valid(),
                forall|k: Key, v: Value, v2: Value2|
                #![trigger self.at(k), call_requires(merger, (&v, &v2))]
                self.support_set().contains(k) && other.support_set().contains(k) && v.wf()
                    && v2.wf() && v.math() == self.at(k) && v2.math() == other.at(k)
                    ==> call_requires(merger, (&v, &v2)),
                forall|v: Value, v2: Value2, v3: Value3| #[trigger]
                    call_ensures(merger, (&v, &v2), v3) ==> v3.wf(),
                forall|j: int|
                    0 <= j < i && self.support_set().contains(*#[trigger] keys@[j])
                        && other.support_set().contains(*keys@[j]) ==> exists|
                        v: Value,
                        v2: Value2,
                        v3: Value3,
                    |
                        {
                            &&& v.math() == self.at(*keys@[j])
                            &&& v2.math() == other.at(*keys@[j])
                            &&& #[trigger] call_ensures(merger, (&v, &v2), v3)
                            &&& result.value_at(*keys@[j]) == v3.math()
                        },
                forall|k: Key| #[trigger]
                    result.value@.contains_key(k) ==> self.support_set().contains(k)
                        && other.support_set().contains(k) && exists|j: int|
                        0 <= j < i && *(#[trigger] keys@[j]) == k,
        {
            let k = keys[i];
            let ghost before = result;
            assert forall|j: int| 0 <= j < keys@.len() && j != i implies *(#[trigger] keys@[j])
                != *k by {
                assert(keys@.unref()[j] != keys@.unref()[i as int]);
            }
            match (self.get_in_support(k), other.get_in_support(k)) {
                (Some(v), Some(v2)) => {
                    let merged = merger(v, v2);
                    if !merged.is_zero() {
                        result.value.insert(k.clone(), merged);
                    } else {
                        assert(result.value_at(*k) == merged.math());
                    }
                    assert(result.value_at(*k) == merged.math());
                    assert forall|j: int| 0 <= j < i implies #[trigger] result.value_at(*keys@[j])
                        == before.value_at(*keys@[j]) by {}
                },
                _ => {},
            }
        }
        result
    }
}

impl<Key, Value> FiniteHashMap<Key, Value> where Key: KeyProperties, Value: GroupValue {
    /// Collects pairs into a map; the values of a key that occurs repeatedly
    /// are added up.
    pub fn from_iter(items: Vec<(Key, Value)>) -> (r: Self)
        requires
            lawful_key::<Key>(),
            Value::lawful(),
            forall|i: int| 0 <= i < items@.len() ==> (#[trigger] items@[i]).1.wf(),
            forall|i: int, k: Key|
                0 <= i <= items@.len() ==> Value::holds(#[trigger] tally(items@.take(i), k)),
        ensures
            r.valid(),
            forall|k: Key| #[trigger] r.at(k) == tally(items@, k),
    {
        let mut result = Self::new();
        for i in 0..items.len()
            invariant
                lawful_key::<Key>(),
                Value::lawful(),
                forall|i: int| 0 <= i < items@.len() ==> (#[trigger] items@[i]).1.wf(),
                forall|i: int, k: Key|
                    0 <= i <= items@.len() ==> Value::holds(#[trigger] tally(items@.take(i), k)),
                result.valid(),
                forall|k: Key| #[trigger] result.at(k) == tally(items@.take(i as int), k),
        {
            let (k, v) = &items[i];
            assert(items@.take(i + 1).drop_last() =~= items@.take(i as int));
            assert(result.at(*k) == tally(items@.take(i as int), *k));
            assert(Value::holds(tally(items@.take(i + 1), *k)));
            result.increment(k, v.duplicate());
        }
        assert(items@.take(items@.len() as int) =~= items@);
        result
    }

    /// The keys of the support with their values, in no particular order.
    pub fn into_iter(self) -> (r: Vec<(Key, Value)>)
        requires
            lawful_key::<Key>(),
            Value::lawful(),
            self.valid(),
        ensures
            lists_support(self, r@),
    {
        let mut items: Vec<(Key, Value)> = Vec::new();
        proof {
            self.lemma_support();
        }
        for (k, v) in it: self.value.iter()
            invariant
                lawful_key::<Key>(),
                Value::lawful(),
                self.valid(),
                self.support_set() == self.value@.dom(),
                it.seq().no_duplicates(),
                items@.len() == it.index(),
                forall|i: int|
                    #![trigger items@[i]]
                    #![trigger it.seq()[i]]
                    0 <= i < items@.len() ==> items@[i].1.wf() && items@[i].1.math() == self.at(
                        items@[i].0,
                    ) && self.support_set().contains(items@[i].0) && items@[i].0
                        == *it.seq()[i].0,
        {
            let ghost seq = it.seq();
            assert(self.value@.contains_key(*seq[it.index()].0));
            items.push((k.clone(), v.duplicate()));
        }
        proof {
            let seq = self.value.iter().remaining();
            assert forall|i: int, j: int| 0 <= i < j < items@.len() implies (#[trigger] items@[i]).0
                != (#[trigger] items@[j]).0 by {
                assert(self.value@.contains_key(*seq[i].0));
                assert(self.value@.contains_key(*seq[j].0));
                assert(seq[i] != seq[j]);
            }
            assert forall|k: Key| #[trigger] self.support_set().contains(k) implies exists|i: int|
                0 <= i < items@.len() && (#[trigger] items@[i]).0 == k by {
                assert(seq.contains((&k, &self.value@[k])));
                let i = choose|i: int| 0 <= i < seq.len() && seq[i] == (&k, &self.value@[k]);
                assert(items@[i].0 == k);
            }
        }
        items
    }

    /// The pointwise sum of two maps.
    pub fn add(self, other: Self) -> (r: Self)
        requires
            lawful_key::<Key>(),
            Value::lawful(),
            self.valid(),
            other.valid(),
            forall|k: Key| Value::holds(Value::add_math(#[trigger] self.at(k), other.at(k))),
        ensures
            r.valid(),
            forall|k: Key| #[trigger] r.at(k) == Value::add_math(self.at(k), other.at(k)),
    {
        assert forall|k: Key|
            Value::holds(#[trigger] (Self::add_math(self.math(), other.math()))(k)) by {
            assert(Value::holds(Value::add_math(self.at(k), other.at(k))));
        }
        let r = self.add_by_ref(&other);
        assert forall|k: Key| #[trigger] r.at(k) == Value::add_math(self.at(k), other.at(k)) by {
            assert((r.math())(k) == Value::add_math((self.math())(k), (other.math())(k)));
        }
        r
    }

    /// Increases the map by another one, pointwise.
    pub fn add_assign(&mut self, other: Self)
        requires
            lawful_key::<Key>(),
            Value::lawful(),
            old(self).valid(),
            other.valid(),
            forall|k: Key| Value::holds(Value::add_math(#[trigger] old(self).at(k), other.at(k))),
        ensures
            final(self).valid(),
            forall|k: Key| #[trigger]
                final(self).at(k) == Value::add_math(old(self).at(k), other.at(k)),
    {
        assert forall|k: Key|
            Value::holds(#[trigger] (Self::add_math(self.math(), other.math()))(k)) by {
            assert(Value::holds(Value::add_math(self.at(k), other.at(k))));
        }
        self.add_assign_by_ref(&other);
        assert forall|k: Key| #[trigger]
            self.at(k) == Value::add_math(old(self).at(k), other.at(k)) by {
            assert((self.math())(k) == Value::add_math((old(self).math())(k), (other.math())(k)));
        }
    }

    /// The pointwise inverse of a map.
    pub fn neg(self) -> (r: Self)
        requires
            lawful_key::<Key>(),
            Value::lawful(),
            self.valid(),
            forall|k: Key| Value::holds(Value::neg_math(#[trigger] self.at(k))),
        ensures
            r.valid(),
            forall|k: Key| #[trigger] r.at(k) == Value::neg_math(self.at(k)),
    {
        assert forall|k: Key| Value::holds(#[trigger] (Self::neg_math(self.math()))(k)) by {
            assert(Value::holds(Value::neg_math(self.at(k))));
        }
        let r = self.neg_by_ref();
        assert forall|k: Key| #[trigger] r.at(k) == Value::neg_math(self.at(k)) by {
            assert((r.math())(k) == Value::neg_math((self.math())(k)));
        }
        r
    }
}

/// Finite maps form a commutative group: sums are taken key by key, commute and
/// associate, the empty map is neutral, and a map and its inverse cancel out.
pub proof fn maps_form_a_group<Key: KeyProperties, Value: GroupValue>(
    a: spec_fn(Key) -> Value::Math,
    b: spec_fn(Key) -> Value::Math,
    c: spec_fn(Key) -> Value::Math,
    key: Key,
)
    ensures
        (FiniteHashMap::<Key, Value>::add_math(a, b))(key) == Value::add_math(a(key), b(key)),
        support_of::<Key, Value>(FiniteHashMap::<Key, Value>::add_math(a, b)).contains(key)
            <==> Value::add_math(a(key), b(key)) != Value::zero_math(),
        FiniteHashMap::<Key, Value>::add_math(a, b) == FiniteHashMap::<Key, Value>::add_math(b, a),
        FiniteHashMap::<Key, Value>::add_math(FiniteHashMap::<Key, Value>::add_math(a, b), c)
            == FiniteHashMap::<Key, Value>::add_math(
            a,
            FiniteHashMap::<Key, Value>::add_math(b, c),
        ),
        FiniteHashMap::<Key, Value>::add_math(a, FiniteHashMap::<Key, Value>::zero_math()) == a,
        FiniteHashMap::<Key, Value>::add_math(a, FiniteHashMap::<Key, Value>::neg_math(a))
            == FiniteHashMap::<Key, Value>::zero_math(),
{
    FiniteHashMap::<Key, Value>::add_commutes(a, b);
    FiniteHashMap::<Key, Value>::add_associates(a, b, c);
    FiniteHashMap::<Key, Value>::add_commutes(a, FiniteHashMap::<Key, Value>::zero_math());
    FiniteHashMap::<Key, Value>::zero_is_neutral(a);
    FiniteHashMap::<Key, Value>::neg_cancels(a);
}

/// The pairs are the keys of the support of a map with their values, each once.
pub open spec fn lists_support<Key: KeyProperties, Value: GroupValue>(
    m: FiniteHashMap<Key, Value>,
    items: Seq<(Key, Value)>,
) -> bool {
    &&& forall|i: int|
        0 <= i < items.len() ==> (#[trigger] items[i]).1.wf() && items[i].1.math() == m.at(
            items[i].0,
        ) && m.support_set().contains(items[i].0)
    &&& forall|i: int, j: int|
        0 <= i < j < items.len() ==> (#[trigger] items[i]).0 != (#[trigger] items[j]).0
    &&& forall|k: Key| #[trigger]
        m.support_set().contains(k) ==> exists|i: int|
            0 <= i < items.len() && (#[trigger] items[i]).0 == k
}

/// Collecting the pairs of a map gives the map back: they add up to its values, and
/// so far as they have been added up, the sums can be held.
pub proof fn collecting_gives_the_map_back<Key: KeyProperties, Value: GroupValue>(
    m: FiniteHashMap<Key, Value>,
    items: Seq<(Key, Value)>,
)
    requires
        FiniteHashMap::<Key, Value>::lawful(),
        m.wf(),
        lists_support(m, items),
    ensures
        forall|k: Key| #[trigger] tally(items, k) == m.at(k),
        forall|i: int, k: Key|
            0 <= i <= items.len() ==> Value::holds(#[trigger] tally(items.take(i), k)),
{
    assert forall|k: Key| #[trigger] tally(items, k) == m.at(k) by {
        lemma_tally_distinct(items, k);
        if m.support_set().contains(k) {
            let i = choose|i: int| 0 <= i < items.len() && (#[trigger] items[i]).0 == k;
            assert(items[i].1.math() == m.at(k));
        } else {
            assert forall|i: int| 0 <= i < items.len() implies (#[trigger] items[i]).0 != k by {
            }
            assert(m.at(k) == Value::zero_math());
        }
    }
    assert forall|i: int, k: Key| 0 <= i <= items.len() implies Value::holds(
        #[trigger] tally(items.take(i), k),
    ) by {
        let run = items.take(i);
        lemma_tally_distinct(run, k);
        if exists|x: int| 0 <= x < run.len() && (#[trigger] run[x]).0 == k {
            let x = choose|x: int| 0 <= x < run.len() && (#[trigger] run[x]).0 == k;
            assert(run[x] == items[x]);
            run[x].1.math_is_held();
        } else {
            Value::zero_is_held();
        }
    }
}

/// The text of keys with their values.
pub open spec fn pairs_text<K: Text, V: Text>(s: Seq<(K, V)>) -> Seq<char>
    decreases s.len(),
{
    if s.len() == 0 {
        Seq::empty()
    } else {
        let item = s.last().0.text() + "=>"@ + s.last().1.text();
        if s.len() == 1 {
            item
        } else {
            pairs_text(s.drop_last()) + ","@ + item
        }
    }
}

impl<Key, Value> FiniteHashMap<Key, Value> where
    Key: KeyProperties + Ord + Text,
    Value: GroupValue + Text,
 {
    /// The keys of the support in increasing order, each with its value.
    pub fn to_text(&self) -> (r: String)
        requires
            lawful_key::<Key>(),
            lawful_order::<Key>(),
            Value::lawful(),
            self.valid(),
        ensures
            exists|s: Seq<(Key, Value)>|
                is_weighted(s) && (forall|k: Key| #[trigger] weight_at(s, k) == self.at(k)) && r@
                    == "{"@ + #[trigger] pairs_text(s) + "}"@,
    {
        let copy = self.clone();
        let ghost support = copy.support_set();
        let items = copy.into_iter();
        proof {
            assert forall|i: int, j: int, k: Key| 0 <= i <= j <= items@.len() implies Value::holds(
                #[trigger] tally(items@.subrange(i, j), k),
            ) by {
                let run = items@.subrange(i, j);
                lemma_tally_distinct(run, k);
                if exists|x: int| 0 <= x < run.len() && (#[trigger] run[x]).0 == k {
                    let x = choose|x: int| 0 <= x < run.len() && (#[trigger] run[x]).0 == k;
                    assert(run[x] == items@[i + x]);
                    run[x].1.math_is_held();
                } else {
                    Value::zero_is_held();
                }
            }
            assert(items@.subrange(0, items@.len() as int) =~= items@);
        }
        let sorted = consolidate(&items, 0, items.len());
        let ghost s = sorted@;
        proof {
            assert forall|k: Key| #[trigger] weight_at(s, k) == self.at(k) by {
                lemma_tally_distinct(items@, k);
                if support.contains(k) {
                    let i = choose|i: int| 0 <= i < items@.len() && (#[trigger] items@[i]).0 == k;
                    assert(items@[i].1.math() == copy.at(k));
                } else {
                    assert forall|i: int| 0 <= i < items@.len() implies (#[trigger] items@[i]).0 != k by {
                    }
                    assert(copy.at(k) == Value::zero_math());
                }
            }
        }
        let mut out = String::new();
        out.append("{");
        let mut i: usize = 0;
        assert(out@ =~= "{"@ + pairs_text(s.take(0)));
        while i < sorted.len()
            invariant
                s == sorted@,
                i <= s.len(),
                out@ == "{"@ + pairs_text(s.take(i as int)),
            decreases s.len() - i,
        {
            let ghost prefix = s.take(i + 1);
            assert(prefix.drop_last() =~= s.take(i as int));
            if i > 0 {
                out.append(",");
            }
            let key = sorted[i].0.to_text();
            let val = sorted[i].1.to_text();
            out.append(key.as_str());
            out.append("=>");
            out.append(val.as_str());
            assert(out@ =~= "{"@ + pairs_text(prefix));
            i += 1;
        }
        assert(s.take(s.len() as int) =~= s);
        out.append("}");
        out
    }
}

impl<Key, Value> Default for FiniteHashMap<Key, Value> where Key: KeyProperties, Value: GroupValue {
    fn default() -> (r: Self)
        ensures
            r.valid(),
            forall|k: Key| #[trigger] r.at(k) == Value::zero_math(),
    {
        Self::new()
    }
}

impl<Key, Value> Clone for FiniteHashMap<Key, Value> where Key: KeyProperties, Value: GroupValue {
    fn clone(&self) -> (r: Self)
        ensures
            self.valid() ==> r.valid(),
            forall|k: Key| r.value_at(k) == self.value_at(k),
    {
        FiniteHashMap { value: self.value.clone() }
    }
}

impl<Key, Value> MonoidValue for FiniteHashMap<Key, Value> where
    Key: KeyProperties,
    Value: GroupValue,
 {
    type Math = spec_fn(Key) -> Value::Math;

    open spec fn lawful() -> bool {
        lawful_key::<Key>() && Value::lawful()
    }

    open spec fn wf(&self) -> bool {
        self.valid()
    }

    open spec fn math(&self) -> spec_fn(Key) -> Value::Math {
        |k: Key| self.value_at(k)
    }

    open spec fn zero_math() -> spec_fn(Key) -> Value::Math {
        |k: Key| Value::zero_math()
    }

    open spec fn add_math(
        a: spec_fn(Key) -> Value::Math,
        b: spec_fn(Key) -> Value::Math,
    ) -> spec_fn(Key) -> Value::Math {
        |k: Key| Value::add_math(a(k), b(k))
    }

    open spec fn holds(m: spec_fn(Key) -> Value::Math) -> bool {
        forall|k: Key| Value::holds(#[trigger] m(k))
    }

    proof fn add_commutes(a: spec_fn(Key) -> Value::Math, b: spec_fn(Key) -> Value::Math) {
        assert forall|k: Key| #[trigger] Value::add_math(a(k), b(k)) == Value::add_math(b(k), a(k)) by {
            Value::add_commutes(a(k), b(k));
        }
        assert(Self::add_math(a, b) =~= Self::add_math(b, a));
    }

    proof fn add_associates(
        a: spec_fn(Key) -> Value::Math,
        b: spec_fn(Key) -> Value::Math,
        c: spec_fn(Key) -> Value::Math,
    ) {
        assert forall|k: Key|
            #[trigger] Value::add_math(Value::add_math(a(k), b(k)), c(k)) == Value::add_math(
                a(k),
                Value::add_math(b(k), c(k)),
            ) by {
            Value::add_associates(a(k), b(k), c(k));
        }
        assert(Self::add_math(Self::add_math(a, b), c) =~= Self::add_math(
            a,
            Self::add_math(b, c),
        ));
    }

    proof fn zero_is_neutral(a: spec_fn(Key) -> Value::Math) {
        assert forall|k: Key| #[trigger] Value::add_math(Value::zero_math(), a(k)) == a(k) by {
            Value::zero_is_neutral(a(k));
        }
        assert(Self::add_math(Self::zero_math(), a) =~= a);
    }

    proof fn math_is_held(&self) {
        Value::zero_is_held();
        assert forall|k: Key| Value::holds(#[trigger] self.value_at(k)) by {
            if self.value@.contains_key(k) {
                self.value@[k].math_is_held();
            }
        }
    }

    proof fn zero_is_held() {
        Value::zero_is_held();
    }

    fn zero() -> (r: Self) {
        let r = Self::new();
        assert(r.math() =~= Self::zero_math());
        r
    }

    fn is_zero(&self) -> (r: bool) {
        let r = self.value.is_empty();
        proof {
            if r {
                assert(self.math() =~= Self::zero_math());
            } else {
                assert(!self.value@.dom().is_empty());
                let k = choose|k: Key| self.value@.dom().contains(k);
                assert(self.value@.contains_key(k));
                assert((self.math())(k) != (Self::zero_math())(k));
            }
        }
        r
    }

    fn equals(&self, other: &Self) -> (r: bool) {
        if self.value.len() != other.value.len() {
            proof {
                self.lemma_support();
                other.lemma_support();
                if self.math() == other.math() {
                    assert forall|k: Key| #[trigger] self.value_at(k) == other.value_at(k) by {
                        assert((self.math())(k) == (other.math())(k));
                    }
                    
                }
            }
            return false;
        }
        for (k, v) in it: self.value.iter()
            invariant
                Self::lawful(),
                self.valid(),
                other.valid(),
                forall|j: int|
                    0 <= j < it.index() ==> #[trigger] other.value_at(*it.seq()[j].0)
                        == self.value_at(*it.seq()[j].0),
        {
            assert(self.value@.contains_key(*it.seq()[it.index()].0));
            match other.value.get(k) {
                Some(w) => {
                    if !v.equals(w) {
                        assert((self.math())(*k) != (other.math())(*k));
                        return false;
                    }
                },
                None => {
                    assert((self.math())(*k) != (other.math())(*k));
                    return false;
                },
            }
        }
        proof {
            self.lemma_support();
            other.lemma_support();
            assert forall|k: Key| self.value@.contains_key(k) implies self.value_at(k)
                == other.value_at(k) by {
                let v = self.value.iter().remaining();
                assert(v.contains((&k, &self.value@[k])));
                let j = choose|j: int| 0 <= j < v.len() && v[j] == (&k, &self.value@[k]);
                assert(other.value_at(*v[j].0) == self.value_at(*v[j].0));
            }
            assert(self.value@.dom().subset_of(other.value@.dom()));
            vstd::set_lib::lemma_subset_equality(self.value@.dom(), other.value@.dom());
            assert forall|k: Key| #[trigger] self.value_at(k) == other.value_at(k) by {
                assert(self.value@.dom().contains(k) <==> other.value@.dom().contains(k));
            }
            assert(self.math() =~= other.math());
        }
        true
    }

    fn duplicate(&self) -> (r: Self) {
        let r = self.clone();
        assert(r.math() =~= self.math());
        r
    }

    fn add_by_ref(&self, other: &Self) -> (r: Self) {
        if self.value.len() > other.value.len() {
            let mut r = self.duplicate();
            r.add_assign_by_ref(other);
            r
        } else {
            proof {
                Self::add_commutes(self.math(), other.math());
            }
            let mut r = other.duplicate();
            r.add_assign_by_ref(self);
            r
        }
    }

    fn add_assign_by_ref(&mut self, other: &Self) {
        proof {
            assert forall|k: Key|
                Value::holds(
                    Value::add_math(#[trigger] old(self).value_at(k), other.value_at(k)),
                ) by {
                assert(Value::holds((Self::add_math(old(self).math(), other.math()))(k)));
            }
        }
        for (k, v) in it: other.value.iter()
            invariant
                Self::lawful(),
                self.valid(),
                other.valid(),
                it.seq().no_duplicates(),
                forall|k: Key|
                    Value::holds(
                        Value::add_math(#[trigger] old(self).value_at(k), other.value_at(k)),
                    ),
                forall|j: int|
                    it.index() <= j < it.seq().len() ==> self.value_at(*#[trigger] it.seq()[j].0)
                        == old(self).value_at(*it.seq()[j].0),
                forall|j: int|
                    0 <= j < it.index() ==> self.value_at(*#[trigger] it.seq()[j].0)
                        == Value::add_math(
                        old(self).value_at(*it.seq()[j].0),
                        other.value_at(*it.seq()[j].0),
                    ),
                forall|k: Key| !other.value@.contains_key(k) ==> #[trigger] self.value_at(k) == old(self).value_at(k),
        {
            let ghost seq = it.seq();
            let ghost i = it.index();
            assert(other.value@.contains_key(*seq[i].0));
            assert(old(self).value_at(*k) == self.value_at(*k));
            assert(v.math() == other.value_at(*k));
            self.bump(k.clone(), v.duplicate());
            assert forall|j: int| 0 <= j < seq.len() && j != i implies *(#[trigger] seq[j]).0 != *k by {
                assert(other.value@.contains_key(*seq[j].0));
                if *seq[j].0 == *k {
                    assert(seq[j] == seq[i]);
                }
            }
        }
        proof {
            assert forall|k: Key| #[trigger] self.value_at(k) == Value::add_math(old(self).value_at(k), other.value_at(k)) by {
                if other.value@.contains_key(k) {
                    let v = other.value.iter().remaining();
                    assert(v.contains((&k, &other.value@[k])));
                    let j = choose|j: int| 0 <= j < v.len() && v[j] == (&k, &other.value@[k]);
                    assert(self.value_at(*v[j].0) == Value::add_math(
                        old(self).value_at(*v[j].0),
                        other.value_at(*v[j].0),
                    ));
                } else {
                    Value::add_commutes(old(self).value_at(k), Value::zero_math());
                    Value::zero_is_neutral(old(self).value_at(k));
                }
            }
            assert(self.math() =~= Self::add_math(old(self).math(), other.math()));
        }
    }
}

/// What the operations of maps to integers do, as far as `lookup` shows: `x` and `y` are
/// found at a key of the maps `a` and `b`, and `z` in the map that an operation gives.
pub proof fn lookups_follow_the_operations<Key: KeyProperties>(
    a: FiniteHashMap<Key, i64>,
    b: FiniteHashMap<Key, i64>,
    r: FiniteHashMap<Key, i64>,
    key: Key,
    other: Key,
    x: i64,
    y: i64,
    z: i64,
    value: i64,
    size: usize,
)
    requires
        call_ensures(FiniteHashMap::<Key, i64>::lookup, (&a, &key), x),
        call_ensures(FiniteHashMap::<Key, i64>::lookup, (&b, &key), y),
        call_ensures(FiniteHashMap::<Key, i64>::lookup, (&r, &key), z),
    ensures
        call_ensures(FiniteHashMap::<Key, i64>::new, (), r) ==> z == 0,
        call_ensures(<FiniteHashMap<Key, i64> as MonoidValue>::zero, (), r) ==> z == 0,
        call_ensures(<FiniteHashMap<Key, i64> as Default>::default, (), r) ==> z == 0,
        call_ensures(FiniteHashMap::<Key, i64>::with_capacity, (size,), r) ==> z == 0,
        call_ensures(FiniteHashMap::<Key, i64>::singleton, (other, value), r) ==> z == if key
            == other {
            value
        } else {
            0
        },
        call_ensures(<FiniteHashMap<Key, i64> as Clone>::clone, (&a,), r) ==> z == x,
        call_ensures(<FiniteHashMap<Key, i64> as MonoidValue>::duplicate, (&a,), r) ==> z == x,
        call_ensures(FiniteHashMap::<Key, i64>::add, (a, b), r) ==> z == x + y,
        call_ensures(<FiniteHashMap<Key, i64> as MonoidValue>::add_by_ref, (&a, &b), r) ==> z == x
            + y,
        call_ensures(FiniteHashMap::<Key, i64>::neg, (a,), r) ==> z == -x,
        call_ensures(<FiniteHashMap<Key, i64> as GroupValue>::neg_by_ref, (&a,), r) ==> z == -x,
{
    let negated = <FiniteHashMap<Key, i64> as GroupValue>::neg_math(a.math());
    let sum = <FiniteHashMap<Key, i64> as MonoidValue>::add_math(a.math(), b.math());
    let zero = <FiniteHashMap<Key, i64> as MonoidValue>::zero_math();
    assert(negated(key) == -(a.at(key)));
    assert(sum(key) == a.at(key) + b.at(key));
    assert(zero(key) == 0);
    assert((r.math())(key) == r.at(key));
    assert((a.math())(key) == a.at(key));
}

/// Incrementing a map at a key adds to what is found there, and leaves the rest; adding
/// a map adds what is found in it, key by key.
pub proof fn changes_are_seen_by_lookup<Key: KeyProperties>(
    b: FiniteHashMap<Key, i64>,
    key: Key,
    other: Key,
    x: i64,
    y: i64,
    z: i64,
    value: i64,
)
    ensures
        forall|m: &mut FiniteHashMap<Key, i64>|
            #![trigger call_ensures(FiniteHashMap::<Key, i64>::increment, (m, &other, value), ())]
            call_ensures(FiniteHashMap::<Key, i64>::increment, (m, &other, value), ())
                && call_ensures(FiniteHashMap::<Key, i64>::lookup, (&*m, &key), x) && call_ensures(
                FiniteHashMap::<Key, i64>::lookup,
                (&*final(m), &key),
                z,
            ) ==> z == if key == other {
                x + value
            } else {
                x as int
            },
        forall|m: &mut FiniteHashMap<Key, i64>|
            #![trigger call_ensures(
                FiniteHashMap::<Key, i64>::increment_owned, (m, other, value), ())]
            call_ensures(FiniteHashMap::<Key, i64>::increment_owned, (m, other, value), ())
                && call_ensures(FiniteHashMap::<Key, i64>::lookup, (&*m, &key), x) && call_ensures(
                FiniteHashMap::<Key, i64>::lookup,
                (&*final(m), &key),
                z,
            ) ==> z == if key == other {
                x + value
            } else {
                x as int
            },
        forall|m: &mut FiniteHashMap<Key, i64>|
            #![trigger call_ensures(FiniteHashMap::<Key, i64>::add_assign, (m, b), ())]
            call_ensures(FiniteHashMap::<Key, i64>::add_assign, (m, b), ()) && call_ensures(
                FiniteHashMap::<Key, i64>::lookup,
                (&*m, &key),
                x,
            ) && call_ensures(FiniteHashMap::<Key, i64>::lookup, (&b, &key), y) && call_ensures(
                FiniteHashMap::<Key, i64>::lookup,
                (&*final(m), &key),
                z,
            ) ==> z == x + y,
        forall|m: &mut FiniteHashMap<Key, i64>|
            #![trigger call_ensures(
                <FiniteHashMap<Key, i64> as MonoidValue>::add_assign_by_ref, (m, &b), ())]
            call_ensures(<FiniteHashMap<Key, i64> as MonoidValue>::add_assign_by_ref, (m, &b), ())
                && call_ensures(FiniteHashMap::<Key, i64>::lookup, (&*m, &key), x) && call_ensures(
                FiniteHashMap::<Key, i64>::lookup,
                (&b, &key),
                y,
            ) && call_ensures(FiniteHashMap::<Key, i64>::lookup, (&*final(m), &key), z) ==> z == x
                + y,
{
    assert forall|m: &mut FiniteHashMap<Key, i64>|
        #![trigger call_ensures(
            <FiniteHashMap<Key, i64> as MonoidValue>::add_assign_by_ref, (m, &b), ())]
        call_ensures(<FiniteHashMap<Key, i64> as MonoidValue>::add_assign_by_ref, (m, &b), ())
            && call_ensures(FiniteHashMap::<Key, i64>::lookup, (&*m, &key), x) && call_ensures(
            FiniteHashMap::<Key, i64>::lookup,
            (&b, &key),
            y,
        ) && call_ensures(
            FiniteHashMap::<Key, i64>::lookup,
            (&*final(m), &key),
            z,
        ) implies z == x + y by {
        let sum = <FiniteHashMap<Key, i64> as MonoidValue>::add_math(m.math(), b.math());
        assert(sum(key) == m.at(key) + b.at(key));
        assert((final(m).math())(key) == final(m).at(key));
    }
}

/// The support of a map to integers holds exactly the keys where something other than
/// zero is found.
pub proof fn support_is_where_lookup_finds_something<Key: KeyProperties>(
    m: FiniteHashMap<Key, i64>,
    key: Key,
    x: i64,
    found: Option<&i64>,
    keys: Vec<&Key>,
    size: usize,
    empty: bool,
)
    requires
        FiniteHashMap::<Key, i64>::lawful(),
        m.wf(),
        call_ensures(FiniteHashMap::<Key, i64>::lookup, (&m, &key), x),
    ensures
        call_ensures(FiniteHashMap::<Key, i64>::get_in_support, (&m, &key), found) ==> (match found {
            Some(v) => *v == x && x != 0,
            None => x == 0,
        }),
        call_ensures(FiniteHashMap::<Key, i64>::support, (&m,), keys) ==> {
            &&& keys@.unref().contains(key) <==> x != 0
            &&& call_ensures(FiniteHashMap::<Key, i64>::support_size, (&m,), size) ==> size
                == keys@.len()
        },
        call_ensures(<FiniteHashMap<Key, i64> as MonoidValue>::is_zero, (&m,), empty) && empty
            ==> x == 0,
{
    m.support_is_finite();
    assert((m.weights())(key) == m.at(key));
    let zero = <FiniteHashMap<Key, i64> as MonoidValue>::zero_math();
    assert((m.math())(key) == m.at(key));
    assert(zero(key) == 0);
    if call_ensures(FiniteHashMap::<Key, i64>::support, (&m,), keys) {
        keys@.unref().unique_seq_to_set();
        assert(m.support_set().contains(key) <==> keys@.unref().contains(key)) by {
            assert(keys@.unref().to_set().contains(key) <==> keys@.unref().contains(key));
        }
    }
}

/// A map collected from pairs has at each key the sum of the integers that the pairs give
/// to it.
pub proof fn collected_maps_hold_sums<Key: KeyProperties>(
    items: Vec<(Key, i64)>,
    r: FiniteHashMap<Key, i64>,
    key: Key,
    z: i64,
)
    requires
        call_ensures(FiniteHashMap::<Key, i64>::from_iter, (items,), r),
        call_ensures(FiniteHashMap::<Key, i64>::lookup, (&r, &key), z),
    ensures
        z == given_to(items@, key).map_values(|w: i64| w as int).fold_left(
            0,
            |a: int, b: int| a + b,
        ),
{
    integers_are_added_up(items@, Seq::empty(), Seq::empty(), key);
    assert(r.at(key) == tally(items@, key));
}

/// A filtered map keeps what is found at the keys that pass, and nothing is found at the
/// others.
pub proof fn filtered_maps_keep_what_passes<Key: KeyProperties, F: Fn(&Key) -> bool>(
    m: FiniteHashMap<Key, i64>,
    filter: F,
    passes: bool,
    r: FiniteHashMap<Key, i64>,
    key: Key,
    x: i64,
    z: i64,
)
    requires
        FiniteHashMap::<Key, i64>::lawful(),
        m.wf(),
        forall|b: bool| #[trigger] call_ensures(filter, (&key,), b) ==> b == passes,
        call_ensures(FiniteHashMap::<Key, i64>::filter::<F>, (&m, filter), r),
        call_ensures(FiniteHashMap::<Key, i64>::lookup, (&m, &key), x),
        call_ensures(FiniteHashMap::<Key, i64>::lookup, (&r, &key), z),
    ensures
        z == if passes {
            x
        } else {
            0
        },
{
    m.support_is_finite();
    assert((m.weights())(key) == m.at(key));
    assert(m.support_set().contains(key) <==> m.at(key) != 0);
}

/// Two maps are equal exactly when the same is found in both at every key.
pub proof fn equal_maps_look_the_same<Key: KeyProperties>(
    a: FiniteHashMap<Key, i64>,
    b: FiniteHashMap<Key, i64>,
    same: bool,
)
    requires
        FiniteHashMap::<Key, i64>::lawful(),
        a.wf(),
        b.wf(),
        call_ensures(<FiniteHashMap<Key, i64> as MonoidValue>::equals, (&a, &b), same),
    ensures
        same ==> forall|key: Key, x: i64, y: i64|
            #![trigger call_ensures(FiniteHashMap::<Key, i64>::lookup, (&a, &key), x),
                call_ensures(FiniteHashMap::<Key, i64>::lookup, (&b, &key), y)]
            call_ensures(FiniteHashMap::<Key, i64>::lookup, (&a, &key), x) && call_ensures(
                FiniteHashMap::<Key, i64>::lookup,
                (&b, &key),
                y,
            ) ==> x == y,
        !same ==> exists|key: Key| #[trigger] a.at(key) != b.at(key),
{
    if same {
        assert forall|key: Key| #[trigger] a.at(key) == b.at(key) by {
            assert((a.math())(key) == (b.math())(key));
        }
    } else {
        if forall|key: Key| #[trigger] a.at(key) == b.at(key) {
            assert forall|key: Key| #[trigger] (a.math())(key) == (b.math())(key) by {
                assert(a.at(key) == b.at(key));
            }
            assert(a.math() =~= b.math());
        }
    }
}

/// A map whose keys are changed by a function `to` has at each new key the sum of what is
/// found at the keys that `to` leads there from.
pub proof fn mapped_maps_add_up<Key: KeyProperties, NewKey: KeyProperties, F: Fn(&Key) -> NewKey>(
    m: FiniteHashMap<Key, i64>,
    mapper: F,
    to: spec_fn(Key) -> NewKey,
    r: FiniteHashMap<NewKey, i64>,
    target: NewKey,
    z: i64,
)
    requires
        FiniteHashMap::<Key, i64>::lawful(),
        m.wf(),
        forall|k: Key, n: NewKey| #[trigger] call_ensures(mapper, (&k,), n) ==> n == to(k),
        call_ensures(FiniteHashMap::<Key, i64>::map::<F, NewKey>, (&m, &mapper), r),
        call_ensures(FiniteHashMap::<NewKey, i64>::lookup, (&r, &target), z),
    ensures
        z == sum_over::<Key, i64>(
            |k: Key|
                if to(k) == target {
                    m.at(k)
                } else {
                    0
                },
            m.support_set(),
        ),
{
    m.support_is_finite();
    let image = choose|image: spec_fn(Key) -> Seq<NewKey>|
        {
            &&& #[trigger] maps_to(mapper, m.support_set(), image)
            &&& forall|n: NewKey| #[trigger]
                r.value_at(n) == scattered::<Key, NewKey, i64>(
                    m.weights(),
                    image,
                    m.support_set(),
                    n,
                )
        };
    let f = |k: Key| times::<i64>((m.weights())(k), occurrences(image(k), target));
    let g = |k: Key|
        if to(k) == target {
            m.at(k)
        } else {
            0
        };
    assert(r.at(target) == r.value_at(target));
    assert forall|k: Key| m.support_set().contains(k) implies #[trigger] f(k) == g(k) by {
        assert(image(k) =~= seq![to(k)]);
        lemma_single_occurrence(to(k));
        assert((m.weights())(k) == m.at(k));
        repeated_integers_multiply(m.at(k), occurrences(image(k), target));
        reveal_with_fuel(occurrences, 2);
        assert(seq![to(k)].drop_last() =~= Seq::empty());
    }
    lemma_sum_congruent::<Key, i64>(f, g, m.support_set());
}

/// A map whose keys are replaced by lists of new keys, as a function `to` says, has at each
/// new key what is found at the keys it comes from, as often as they list it.
pub proof fn flattened_maps_add_up<
    Key: KeyProperties,
    NewKey: KeyProperties,
    F: Fn(&Key) -> Vec<NewKey>,
>(
    m: FiniteHashMap<Key, i64>,
    mapper: F,
    to: spec_fn(Key) -> Seq<NewKey>,
    r: FiniteHashMap<NewKey, i64>,
    target: NewKey,
    z: i64,
)
    requires
        FiniteHashMap::<Key, i64>::lawful(),
        m.wf(),
        forall|k: Key, n: Vec<NewKey>| #[trigger] call_ensures(mapper, (&k,), n) ==> n@ == to(k),
        call_ensures(FiniteHashMap::<Key, i64>::flat_map::<F, NewKey>, (&m, mapper), r),
        call_ensures(FiniteHashMap::<NewKey, i64>::lookup, (&r, &target), z),
    ensures
        z == sum_over::<Key, i64>(
            |k: Key| m.at(k) * to(k).to_multiset().count(target),
            m.support_set(),
        ),
{
    m.support_is_finite();
    let image = choose|image: spec_fn(Key) -> Seq<NewKey>|
        {
            &&& #[trigger] lists(mapper, m.support_set(), image)
            &&& forall|n: NewKey| #[trigger]
                r.value_at(n) == scattered::<Key, NewKey, i64>(
                    m.weights(),
                    image,
                    m.support_set(),
                    n,
                )
        };
    let f = |k: Key| times::<i64>((m.weights())(k), occurrences(image(k), target));
    let g = |k: Key| m.at(k) * to(k).to_multiset().count(target);
    assert(r.at(target) == r.value_at(target));
    assert forall|k: Key| m.support_set().contains(k) implies #[trigger] f(k) == g(k) by {
        assert(image(k) == to(k));
        assert((m.weights())(k) == m.at(k));
        occurrences_are_counted(image(k), target);
        repeated_integers_multiply(m.at(k), occurrences(image(k), target));
    }
    lemma_sum_congruent::<Key, i64>(f, g, m.support_set());
}

/// Two maps are matched key by key: where something is found in both, the merger decides
/// from the two values, and nothing is found elsewhere.
pub proof fn matched_maps_merge_common_keys<Key: KeyProperties, F: Fn(&i64, &i64) -> i64>(
    a: FiniteHashMap<Key, i64>,
    b: FiniteHashMap<Key, i64>,
    merger: F,
    r: FiniteHashMap<Key, i64>,
    key: Key,
    x: i64,
    y: i64,
    z: i64,
)
    requires
        FiniteHashMap::<Key, i64>::lawful(),
        a.wf(),
        b.wf(),
        call_ensures(
            FiniteHashMap::<Key, i64>::match_keys::<i64, i64, FiniteHashMap<Key, i64>, F>,
            (&a, &b, merger),
            r,
        ),
        call_ensures(FiniteHashMap::<Key, i64>::lookup, (&a, &key), x),
        call_ensures(FiniteHashMap::<Key, i64>::lookup, (&b, &key), y),
        call_ensures(FiniteHashMap::<Key, i64>::lookup, (&r, &key), z),
    ensures
        x != 0 && y != 0 ==> call_ensures(merger, (&x, &y), z),
        x == 0 || y == 0 ==> z == 0,
{
    a.support_is_finite();
    b.support_is_finite();
    assert((a.weights())(key) == a.at(key));
    assert((b.weights())(key) == b.at(key));
    assert(a.support_set().contains(key) <==> a.at(key) != 0);
    assert(b.support_set().contains(key) <==> b.at(key) != 0);
    assert(r.at(key) == r.value_at(key));
}

/// Modifying a map at a key hands what is found there to the function, keeps what the
/// function makes of it, and leaves the rest.
pub proof fn updates_are_seen_by_lookup<Key: KeyProperties, F: FnOnce(&mut i64)>(
    key: Key,
    other: Key,
    f: F,
    x: i64,
    z: i64,
)
    ensures
        forall|m: &mut FiniteHashMap<Key, i64>|
            #![trigger call_ensures(FiniteHashMap::<Key, i64>::update::<F>, (m, &other, f), ())]
            call_ensures(FiniteHashMap::<Key, i64>::update::<F>, (m, &other, f), ())
                && call_ensures(FiniteHashMap::<Key, i64>::lookup, (&*m, &key), x) && call_ensures(
                FiniteHashMap::<Key, i64>::lookup,
                (&*final(m), &key),
                z,
            ) ==> if key == other {
                exists|v: &mut i64| *v == x && *final(v) == z && #[trigger] f.ensures((v,), ())
            } else {
                z == x
            },
        forall|m: &mut FiniteHashMap<Key, i64>|
            #![trigger call_ensures(FiniteHashMap::<Key, i64>::update_owned::<F>, (m, other, f), ())]
            call_ensures(FiniteHashMap::<Key, i64>::update_owned::<F>, (m, other, f), ())
                && call_ensures(FiniteHashMap::<Key, i64>::lookup, (&*m, &key), x) && call_ensures(
                FiniteHashMap::<Key, i64>::lookup,
                (&*final(m), &key),
                z,
            ) ==> if key == other {
                exists|v: &mut i64| *v == x && *final(v) == z && #[trigger] f.ensures((v,), ())
            } else {
                z == x
            },
{
}

/// Taking the pairs of a map gives the keys where something is found, each once with what
/// is found there.
pub proof fn pairs_are_what_lookup_finds<Key: KeyProperties>(
    m: FiniteHashMap<Key, i64>,
    items: Vec<(Key, i64)>,
    key: Key,
    x: i64,
)
    requires
        FiniteHashMap::<Key, i64>::lawful(),
        m.wf(),
        call_ensures(FiniteHashMap::<Key, i64>::into_iter, (m,), items),
        call_ensures(FiniteHashMap::<Key, i64>::lookup, (&m, &key), x),
    ensures
        x != 0 <==> items@.contains((key, x)),
        forall|w: i64| #[trigger] items@.contains((key, w)) ==> w == x,
        items@.no_duplicates(),
{
    m.support_is_finite();
    assert((m.weights())(key) == m.at(key));
    assert(m.support_set().contains(key) <==> m.at(key) != 0);
    if x != 0 {
        let i = choose|i: int| 0 <= i < items@.len() && (#[trigger] items@[i]).0 == key;
        assert(items@[i] == (key, x));
    }
}

/// The text of pairs is that of each, its key and its value with an arrow between them, and
/// commas between the pairs.
pub proof fn pairs_are_shown_in_a_row<K: Text, V: Text>(s: Seq<(K, V)>, t: Seq<(K, V)>, k: K, v: V)
    ensures
        pairs_text(seq![(k, v)]) == k.text() + seq!['=', '>'] + v.text(),
        s.len() > 0 && t.len() > 0 ==> pairs_text(s + t) == pairs_text(s) + seq![','] + pairs_text(
            t,
        ),
        s.len() == 0 ==> pairs_text(s).len() == 0,
    decreases t.len(),
{
    reveal_strlit("=>");
    reveal_strlit(",");
    assert("=>"@ =~= seq!['=', '>']);
    assert(","@ =~= seq![',']);
    assert(seq![(k, v)].drop_last() =~= Seq::empty());
    if s.len() > 0 && t.len() > 0 {
        assert((s + t).drop_last() =~= s + t.drop_last());
        assert((s + t).last() == t.last());
        if t.len() == 1 {
            assert(s + t.drop_last() =~= s);
            assert(pairs_text(s + t) =~= pairs_text(s) + seq![','] + pairs_text(t));
        } else {
            pairs_are_shown_in_a_row(s, t.drop_last(), k, v);
            assert(pairs_text(s + t) =~= pairs_text(s) + seq![','] + pairs_text(t));
        }
    }
}

/// A map is shown in braces: the keys where something is found, in increasing order, each with
/// what is found there.
pub proof fn maps_are_shown_in_order<Key: KeyProperties + Ord + Text>(
    m: FiniteHashMap<Key, i64>,
    r: String,
)
    requires
        FiniteHashMap::<Key, i64>::lawful(),
        lawful_order::<Key>(),
        m.wf(),
        call_ensures(FiniteHashMap::<Key, i64>::to_text, (&m,), r),
    ensures
        exists|s: Seq<(Key, i64)>|
            {
                &&& r@ == seq!['{'] + #[trigger] pairs_text(s) + seq!['}']
                &&& forall|i: int| 0 <= i < s.len() ==> m.at((#[trigger] s[i]).0) == s[i].1
                &&& forall|i: int| 0 <= i < s.len() ==> (#[trigger] s[i]).1 != 0
                &&& forall|k: Key| #[trigger]
                    m.at(k) != 0 ==> exists|i: int| 0 <= i < s.len() && (#[trigger] s[i]).0 == k
            },
{
    reveal_strlit("{");
    reveal_strlit("}");
    let s = choose|s: Seq<(Key, i64)>|
        is_weighted(s) && (forall|k: Key| #[trigger] weight_at(s, k) == m.at(k)) && r@ == "{"@
            + #[trigger] pairs_text(s) + "}"@;
    assert("{"@ =~= seq!['{']);
    assert("}"@ =~= seq!['}']);
    assert forall|i: int| 0 <= i < s.len() implies m.at((#[trigger] s[i]).0) == s[i].1 by {
        lemma_weight_listed(s, i);
        assert(weight_at(s, s[i].0) == m.at(s[i].0));
    }
    assert forall|k: Key| #[trigger] m.at(k) != 0 implies exists|i: int|
        0 <= i < s.len() && (#[trigger] s[i]).0 == k by {
        assert(weight_at(s, k) == m.at(k));
        let i = lemma_weight_nonzero(s, k);
        assert(s[i].0 == k);
    }
    assert(r@ == seq!['{'] + pairs_text(s) + seq!['}']);
}

} // verus!
