//! The last layer of a trie: keys in increasing order, each with its weight.

use crate::algebra::sums::tally;
use crate::algebra::{GroupValue, MonoidValue};
use crate::order::{before, is_same, lawful_order};
use crate::trace::layers::weighted::{
    consolidate, is_weighted, lemma_canonical, lemma_neg_nonzero, lemma_neg_zero, lemma_position,
    lemma_same_weights, lemma_weight_absent,
    lemma_weight_listed, lemma_weight_nonzero, lemma_weight_push, merge_runs, runs_hold, seek,
    weight_at,
};
use vstd::prelude::*;

verus! {

/// Keys and their weights.
#[derive(Debug, Clone, PartialEq, Eq)]
pub struct OrderedLeaf<K, R> {
    pub vals: Vec<(K, R)>,
}

impl<K: Ord + Clone, R: MonoidValue> OrderedLeaf<K, R> {
    /// The keys are in increasing order and no weight is zero.
    pub open spec fn wf(&self) -> bool {
        is_weighted(self.vals@)
    }

    /// The weight of `key`: zero where the layer does not list it.
    pub open spec fn at(&self, key: K) -> R::Math {
        weight_at(self.vals@, key)
    }

    /// Whether the sum with `other` can be held.
    pub open spec fn sum_holds(&self, other: &Self) -> bool {
        forall|k: K| R::holds(R::add_math(#[trigger] self.at(k), other.at(k)))
    }

    /// The layer without keys.
    pub fn empty() -> (r: Self)
        ensures
            r.wf(),
            r.vals@.len() == 0,
            forall|k: K| #[trigger] r.at(k) == R::zero_math(),
    {
        let r = OrderedLeaf { vals: Vec::new() };
        assert forall|k: K| #[trigger] r.at(k) == R::zero_math() by {
            lemma_weight_absent(r.vals@, k);
        }
        r
    }

    /// The number of keys.
    pub fn keys(&self) -> (r: usize)
        ensures
            r == self.vals@.len(),
    {
        self.vals.len()
    }

    /// The number of pairs of a key and a weight.
    pub fn tuples(&self) -> (r: usize)
        ensures
            r == self.vals@.len(),
    {
        self.vals.len()
    }

    /// Whether the layer lists no key, which is when every weight is zero.
    pub fn is_empty(&self) -> (r: bool)
        requires
            lawful_order::<K>(),
            self.wf(),
        ensures
            r == (self.vals@.len() == 0),
            r == (forall|k: K| #[trigger] self.at(k) == R::zero_math()),
    {
        proof {
            if self.vals@.len() > 0 {
                lemma_weight_listed(self.vals@, 0);
                assert(self.at(self.vals@[0].0) != R::zero_math());
            } else {
                assert forall|k: K| #[trigger] self.at(k) == R::zero_math() by {
                    lemma_weight_absent(self.vals@, k);
                }
            }
        }
        self.vals.len() == 0
    }

    /// Whether two layers give every key the same weight.
    pub fn equals(&self, other: &Self) -> (r: bool)
        requires
            lawful_order::<K>(),
            R::lawful(),
            self.wf(),
            other.wf(),
        ensures
            r == (forall|k: K| #[trigger] self.at(k) == other.at(k)),
    {
        let ghost same = forall|k: K| #[trigger] self.at(k) == other.at(k);
        proof {
            if same {
                assert forall|k: K| #[trigger]
                    weight_at(self.vals@, k) == weight_at(other.vals@, k) by {
                    assert(self.at(k) == other.at(k));
                }
                lemma_canonical(self.vals@, other.vals@);
            }
        }
        if self.vals.len() != other.vals.len() {
            return false;
        }
        let mut i: usize = 0;
        while i < self.vals.len()
            invariant
                lawful_order::<K>(),
                R::lawful(),
                self.wf(),
                other.wf(),
                0 <= i <= self.vals@.len(),
                self.vals@.len() == other.vals@.len(),
                same == (forall|k: K| #[trigger] self.at(k) == other.at(k)),
                same ==> forall|j: int|
                    #![trigger self.vals@[j]]
                    0 <= j < self.vals@.len() ==> self.vals@[j].0 == other.vals@[j].0
                        && self.vals@[j].1.math() == other.vals@[j].1.math(),
                forall|j: int|
                    #![trigger self.vals@[j]]
                    #![trigger other.vals@[j]]
                    0 <= j < i ==> self.vals@[j].0 == other.vals@[j].0 && self.vals@[j].1.math()
                        == other.vals@[j].1.math(),
            decreases self.vals@.len() - i,
        {
            let a = &self.vals[i];
            let b = &other.vals[i];
            if !is_same(&a.0, &b.0) || !a.1.equals(&b.1) {
                assert(self.vals@[i as int] == *a);
                return false;
            }
            i += 1;
        }
        proof {
            assert forall|k: K| #[trigger] self.at(k) == other.at(k) by {
                lemma_position(self.vals@, k);
                lemma_position(other.vals@, k);
                if self.at(k) != R::zero_math() {
                    let j = lemma_weight_nonzero(self.vals@, k);
                    assert(self.vals@[j].0 == other.vals@[j].0);
                    lemma_weight_listed(other.vals@, j);
                } else if other.at(k) != R::zero_math() {
                    let j = lemma_weight_nonzero(other.vals@, k);
                    assert(self.vals@[j].0 == other.vals@[j].0);
                    lemma_weight_listed(self.vals@, j);
                }
            }
        }
        true
    }

    /// Another layer with the same keys and weights.
    pub fn duplicate(&self) -> (r: Self)
        requires
            lawful_order::<K>(),
            R::lawful(),
            self.wf(),
        ensures
            r.wf(),
            r.vals@.len() == self.vals@.len(),
            forall|k: K| #[trigger] r.at(k) == self.at(k),
    {
        let mut vals: Vec<(K, R)> = Vec::new();
        let mut i: usize = 0;
        while i < self.vals.len()
            invariant
                lawful_order::<K>(),
                R::lawful(),
                self.wf(),
                0 <= i <= self.vals@.len(),
                vals@.len() == i,
                is_weighted(vals@),
                forall|j: int|
                    #![trigger vals@[j]]
                    0 <= j < i ==> vals@[j].0 == self.vals@[j].0 && vals@[j].1.math()
                        == self.vals@[j].1.math(),
            decreases self.vals@.len() - i,
        {
            let item = (self.vals[i].0.clone(), self.vals[i].1.duplicate());
            proof {
                lemma_weight_push(vals@, item);
            }
            vals.push(item);
            i += 1;
        }
        let r = OrderedLeaf { vals };
        assert forall|k: K| #[trigger] r.at(k) == self.at(k) by {
            lemma_same_weights(self.vals@, r.vals@, |m: R::Math| m, k);
        }
        r
    }

    /// The sum of two layers.
    pub fn add_by_ref(&self, other: &Self) -> (r: Self)
        requires
            lawful_order::<K>(),
            R::lawful(),
            self.wf(),
            other.wf(),
            self.sum_holds(other),
        ensures
            r.wf(),
            r.vals@.len() <= self.vals@.len() + other.vals@.len(),
            forall|k: K| #[trigger] r.at(k) == R::add_math(self.at(k), other.at(k)),
    {
        let mut vals: Vec<(K, R)> = Vec::new();
        proof {
            assert(self.vals@.subrange(0, self.vals@.len() as int) =~= self.vals@);
            assert(other.vals@.subrange(0, other.vals@.len() as int) =~= other.vals@);
            assert forall|k: K|
                R::holds(
                    R::add_math(#[trigger] weight_at(self.vals@, k), weight_at(other.vals@, k)),
                ) by {
                assert(R::holds(R::add_math(self.at(k), other.at(k))));
            }
        }
        let Ghost(tail) = merge_runs(
            &self.vals,
            0,
            self.vals.len(),
            &other.vals,
            0,
            other.vals.len(),
            &mut vals,
        );
        assert(vals@ =~= tail);
        OrderedLeaf { vals }
    }

    /// The sum of two layers.
    pub fn add(self, other: Self) -> (r: Self)
        requires
            lawful_order::<K>(),
            R::lawful(),
            self.wf(),
            other.wf(),
            self.sum_holds(&other),
        ensures
            r.wf(),
            forall|k: K| #[trigger] r.at(k) == R::add_math(self.at(k), other.at(k)),
    {
        if self.vals.len() == 0 {
            proof {
                assert forall|k: K| #[trigger] other.at(k) == R::add_math(self.at(k), other.at(k)) by {
                    lemma_weight_absent(self.vals@, k);
                    R::zero_is_neutral(other.at(k));
                }
            }
            other
        } else if other.vals.len() == 0 {
            proof {
                assert forall|k: K| #[trigger] self.at(k) == R::add_math(self.at(k), other.at(k)) by {
                    lemma_weight_absent(other.vals@, k);
                    R::zero_is_neutral(self.at(k));
                    R::add_commutes(self.at(k), R::zero_math());
                }
            }
            self
        } else {
            self.add_by_ref(&other)
        }
    }

    /// Adds `other` to the layer.
    pub fn add_assign_by_ref(&mut self, other: &Self)
        requires
            lawful_order::<K>(),
            R::lawful(),
            old(self).wf(),
            other.wf(),
            old(self).sum_holds(other),
        ensures
            final(self).wf(),
            forall|k: K| #[trigger] final(self).at(k) == R::add_math(old(self).at(k), other.at(k)),
    {
        if other.vals.len() != 0 {
            let sum = self.add_by_ref(other);
            *self = sum;
        } else {
            assert forall|k: K| #[trigger] self.at(k) == R::add_math(self.at(k), other.at(k)) by {
                lemma_weight_absent(other.vals@, k);
                R::zero_is_neutral(self.at(k));
                R::add_commutes(self.at(k), R::zero_math());
            }
        }
    }

    /// A cursor at the first key.
    pub fn cursor(&self) -> (r: OrderedLeafCursor)
        ensures
            r.over(self.vals@.len() as int),
            r.position() == 0,
    {
        OrderedLeafCursor { pos: 0, bounds: (0, self.vals.len()) }
    }
}

impl<K: Ord + Clone, R: GroupValue> OrderedLeaf<K, R> {
    /// The layer with every weight inverted.
    pub fn neg_by_ref(&self) -> (r: Self)
        requires
            lawful_order::<K>(),
            R::lawful(),
            self.wf(),
            forall|k: K| R::holds(R::neg_math(#[trigger] self.at(k))),
        ensures
            r.wf(),
            r.vals@.len() == self.vals@.len(),
            forall|k: K| #[trigger] r.at(k) == R::neg_math(self.at(k)),
    {
        let mut vals: Vec<(K, R)> = Vec::new();
        let mut i: usize = 0;
        while i < self.vals.len()
            invariant
                lawful_order::<K>(),
                R::lawful(),
                self.wf(),
                forall|k: K| R::holds(R::neg_math(#[trigger] self.at(k))),
                0 <= i <= self.vals@.len(),
                vals@.len() == i,
                is_weighted(vals@),
                forall|j: int|
                    #![trigger vals@[j]]
                    0 <= j < i ==> vals@[j].0 == self.vals@[j].0 && vals@[j].1.math()
                        == R::neg_math(self.vals@[j].1.math()),
            decreases self.vals@.len() - i,
        {
            proof {
                lemma_weight_listed(self.vals@, i as int);
                assert(R::holds(R::neg_math(self.at(self.vals@[i as int].0))));
            }
            let item = (self.vals[i].0.clone(), self.vals[i].1.neg_by_ref());
            proof {
                lemma_neg_nonzero::<R>(self.vals@[i as int].1.math());
                lemma_weight_push(vals@, item);
            }
            vals.push(item);
            i += 1;
        }
        let r = OrderedLeaf { vals };
        assert forall|k: K| #[trigger] r.at(k) == R::neg_math(self.at(k)) by {
            lemma_neg_zero::<R>();
            lemma_same_weights(self.vals@, r.vals@, |m: R::Math| R::neg_math(m), k);
        }
        r
    }
}

/// A position in a layer.
#[derive(Debug, Clone, Copy)]
pub struct OrderedLeafCursor {
    pos: usize,
    bounds: (usize, usize),
}

impl OrderedLeafCursor {
    /// The cursor moves over a layer of `len` keys.
    pub closed spec fn over(&self, len: int) -> bool {
        self.bounds.0 == 0 && self.bounds.1 == len && self.pos <= len
    }

    /// The position of the cursor.
    pub closed spec fn position(&self) -> int {
        self.pos as int
    }

    /// A cursor does not leave the layer it moves over.
    pub broadcast proof fn lemma_over(&self, len: int)
        requires
            #[trigger] self.over(len),
        ensures
            0 <= self.position() <= len,
    {
    }

    /// Whether the cursor stands at a key.
    pub fn valid<K: Ord + Clone, R: MonoidValue>(&self, storage: &OrderedLeaf<K, R>) -> (r: bool)
        requires
            self.over(storage.vals@.len() as int),
        ensures
            r == (self.position() < storage.vals@.len()),
    {
        self.pos < self.bounds.1
    }

    /// The key at the cursor and its weight.
    pub fn key<'a, K: Ord + Clone, R: MonoidValue>(
        &self,
        storage: &'a OrderedLeaf<K, R>,
    ) -> (r: &'a (K, R))
        requires
            self.over(storage.vals@.len() as int),
            self.position() < storage.vals@.len(),
        ensures
            *r == storage.vals@[self.position()],
    {
        &storage.vals[self.pos]
    }

    /// Moves to the next key; behind the last key the cursor stays.
    pub fn step<K: Ord + Clone, R: MonoidValue>(&mut self, storage: &OrderedLeaf<K, R>)
        requires
            old(self).over(storage.vals@.len() as int),
        ensures
            final(self).over(storage.vals@.len() as int),
            final(self).position() == if old(self).position() < storage.vals@.len() {
                old(self).position() + 1
            } else {
                old(self).position()
            },
    {
        if self.pos < self.bounds.1 {
            self.pos += 1;
        }
    }

    /// Moves forward to the first key that does not come before `key`.
    pub fn seek_key<K: Ord + Clone, R: MonoidValue>(
        &mut self,
        storage: &OrderedLeaf<K, R>,
        key: &K,
    )
        requires
            lawful_order::<K>(),
            storage.wf(),
            old(self).over(storage.vals@.len() as int),
        ensures
            final(self).over(storage.vals@.len() as int),
            old(self).position() <= final(self).position(),
            forall|i: int|
                old(self).position() <= i < final(self).position() ==> before(
                    (#[trigger] storage.vals@[i]).0,
                    *key,
                ),
            forall|i: int|
                final(self).position() <= i < storage.vals@.len() ==> !before(
                    (#[trigger] storage.vals@[i]).0,
                    *key,
                ),
    {
        self.pos = seek(&storage.vals, self.pos, storage.vals.len(), key);
    }

    /// Moves back to the first key.
    pub fn rewind<K: Ord + Clone, R: MonoidValue>(&mut self, storage: &OrderedLeaf<K, R>)
        requires
            old(self).over(storage.vals@.len() as int),
        ensures
            final(self).over(storage.vals@.len() as int),
            final(self).position() == 0,
    {
        self.pos = self.bounds.0;
    }
}

/// Collects update tuples in any order.
pub struct OrderedLeafBuilder<K, R> {
    pub vals: Vec<(K, R)>,
}

impl<K: Ord + Clone, R: MonoidValue> OrderedLeafBuilder<K, R> {
    /// The tuples pushed so far have valid weights.
    pub open spec fn wf(&self) -> bool {
        forall|i: int| 0 <= i < self.vals@.len() ==> (#[trigger] self.vals@[i]).1.wf()
    }

    /// A builder without tuples.
    pub fn new() -> (r: Self)
        ensures
            r.wf(),
            r.vals@.len() == 0,
    {
        OrderedLeafBuilder { vals: Vec::new() }
    }

    /// A builder without tuples, with room for `cap` of them.
    pub fn with_capacity(cap: usize) -> (r: Self)
        ensures
            r.wf(),
            r.vals@.len() == 0,
    {
        OrderedLeafBuilder { vals: Vec::with_capacity(cap) }
    }

    /// Takes one more tuple.
    pub fn push_tuple(&mut self, item: (K, R))
        requires
            old(self).wf(),
            item.1.wf(),
        ensures
            final(self).wf(),
            final(self).vals@ == old(self).vals@.push(item),
    {
        self.vals.push(item);
    }

    /// The layer in which each key has the sum of the weights pushed for it.
    pub fn done(self) -> (r: OrderedLeaf<K, R>)
        requires
            lawful_order::<K>(),
            R::lawful(),
            self.wf(),
            runs_hold(self.vals@),
        ensures
            r.wf(),
            r.vals@.len() <= self.vals@.len(),
            forall|k: K| #[trigger] r.at(k) == tally(self.vals@, k),
    {
        assert(self.vals@.subrange(0, self.vals@.len() as int) =~= self.vals@);
        OrderedLeaf { vals: consolidate(&self.vals, 0, self.vals.len()) }
    }
}

/// Collects the sum of two layers.
pub struct OrderedLeafMergeBuilder<K, R> {
    pub vals: Vec<(K, R)>,
}

impl<K: Ord + Clone, R: MonoidValue> OrderedLeafMergeBuilder<K, R> {
    /// A builder for the sum of two layers, with nothing collected yet.
    pub fn with_capacity(_layer1: &OrderedLeaf<K, R>, _layer2: &OrderedLeaf<K, R>) -> (r: Self)
        ensures
            r.vals@.len() == 0,
    {
        OrderedLeafMergeBuilder { vals: Vec::new() }
    }

    /// Collects the sum of the keys at and behind two cursors, and tells how many
    /// keys have been collected.
    pub fn push_merge(
        &mut self,
        layer1: &OrderedLeaf<K, R>,
        cursor1: OrderedLeafCursor,
        layer2: &OrderedLeaf<K, R>,
        cursor2: OrderedLeafCursor,
    ) -> (r: usize)
        requires
            lawful_order::<K>(),
            R::lawful(),
            layer1.wf(),
            layer2.wf(),
            cursor1.over(layer1.vals@.len() as int),
            cursor2.over(layer2.vals@.len() as int),
            old(self).vals@.len() == 0,
            forall|k: K|
                R::holds(
                    R::add_math(
                        #[trigger] weight_at(layer1.vals@.skip(cursor1.position()), k),
                        weight_at(layer2.vals@.skip(cursor2.position()), k),
                    ),
                ),
        ensures
            is_weighted(final(self).vals@),
            r == final(self).vals@.len(),
            r <= layer1.vals@.len() + layer2.vals@.len(),
            forall|k: K| #[trigger]
                weight_at(final(self).vals@, k) == R::add_math(
                    weight_at(layer1.vals@.skip(cursor1.position()), k),
                    weight_at(layer2.vals@.skip(cursor2.position()), k),
                ),
    {
        proof {
            let n1 = layer1.vals@.len() as int;
            let n2 = layer2.vals@.len() as int;
            assert(layer1.vals@.subrange(cursor1.pos as int, n1) =~= layer1.vals@.skip(
                cursor1.position(),
            ));
            assert(layer2.vals@.subrange(cursor2.pos as int, n2) =~= layer2.vals@.skip(
                cursor2.position(),
            ));
        }
        let Ghost(tail) = merge_runs(
            &layer1.vals,
            cursor1.pos,
            layer1.vals.len(),
            &layer2.vals,
            cursor2.pos,
            layer2.vals.len(),
            &mut self.vals,
        );
        assert(self.vals@ =~= tail);
        self.vals.len()
    }

    /// The collected layer.
    pub fn done(self) -> (r: OrderedLeaf<K, R>)
        ensures
            r.vals@ == self.vals@,
    {
        OrderedLeaf { vals: self.vals }
    }
}

} // verus!
