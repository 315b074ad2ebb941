//! Immutable Z-sets: finite collections of keys with weights.

use crate::algebra::sums::{given_to, integers_are_added_up, tally};
use crate::algebra::{GroupValue, MonoidValue, ZRingValue};
use crate::order::{before, lawful_order, lemma_order};
use crate::trace::description::{joined, met, Description};
use crate::trace::layers::ordered_leaf::{
    OrderedLeaf, OrderedLeafBuilder, OrderedLeafCursor, OrderedLeafMergeBuilder,
};
use crate::trace::layers::weighted::{
    is_weighted, lemma_canonical, lemma_neg_zero, lemma_take_next, lemma_weight_absent,
    lemma_weight_listed, lemma_weight_nonzero,
    lemma_weight_push, lemma_weighted_runs_hold, lemma_tally_weighted, runs_hold, weight_at,
};
use std::rc::Rc;
use vstd::prelude::*;
use vstd::std_specs::cmp::PartialOrdSpec;

verus! {

/// An immutable collection of `(key, weight)` pairs without timing information.
#[derive(Debug, Clone)]
pub struct OrdZSet<K, R> where K: Ord {
    /// The keys and their weights.
    pub layer: OrderedLeaf<K, R>,
    /// The times that the batch covers.
    pub desc: Description<()>,
}

impl<K: Ord + Clone, R: MonoidValue> OrdZSet<K, R> {
    /// The number of pairs in the batch.
    pub open spec fn size(&self) -> nat {
        self.layer.vals@.len()
    }

    /// The weight of `key`.
    pub open spec fn weight_of(&self, key: K) -> R::Math {
        weight_at(self.layer.vals@, key)
    }

    /// The batch that holds a layer and covers all times.
    pub fn from_layer(layer: OrderedLeaf<K, R>) -> (r: Self)
        ensures
            r.layer == layer,
            r.desc.is_total(),
    {
        OrdZSet { layer, desc: Description::total() }
    }

    /// A shared batch that holds a layer and covers all times.
    pub fn shared_from_layer(layer: OrderedLeaf<K, R>) -> (r: Rc<Self>)
        ensures
            r.layer == layer,
            r.desc.is_total(),
    {
        Rc::new(Self::from_layer(layer))
    }

    /// The batch that a shared pointer holds, where nobody else shares it, and the
    /// pointer itself otherwise.
    pub fn try_from(batch: Rc<Self>) -> (r: Result<Self, Rc<Self>>)
        ensures
            match r {
                Ok(owned) => owned == *batch,
                Err(shared) => shared == batch,
            },
    {
        Rc::try_unwrap(batch)
    }

    /// The batch itself: an owned batch needs no copy.
    pub fn try_into_owned(self) -> (r: Result<Self, Self>)
        ensures
            r == Ok::<Self, Self>(self),
    {
        Ok(self)
    }

    /// The batch without keys.
    pub fn empty(_time: ()) -> (r: Self)
        ensures
            r.layer.wf(),
            r.size() == 0,
            r.desc.is_total(),
            forall|k: K| #[trigger] r.weight_of(k) == R::zero_math(),
    {
        let layer = OrderedLeaf::empty();
        let r = Self::from_layer(layer);
        assert forall|k: K| #[trigger] r.weight_of(k) == R::zero_math() by {
            assert(layer.at(k) == R::zero_math());
        }
        r
    }

    /// Whether the batch has no keys.
    pub fn is_empty(&self) -> (r: bool)
        ensures
            r == (self.size() == 0),
    {
        self.len() == 0
    }

    /// The number of pairs in the batch.
    pub fn len(&self) -> (r: usize)
        ensures
            r == self.size(),
    {
        self.layer.tuples()
    }

    /// The number of keys.
    pub fn num_entries_shallow(&self) -> (r: usize)
        ensures
            r == self.size(),
    {
        self.layer.keys()
    }

    /// The number of keys, those of nested collections included.
    pub fn num_entries_deep(&self) -> (r: usize)
        ensures
            r == self.size(),
    {
        self.layer.tuples()
    }

    /// The number of keys is not fixed by the type.
    pub fn const_num_entries() -> (r: Option<usize>)
        ensures
            r is None,
    {
        None
    }

    /// The times that the batch covers.
    pub fn description(&self) -> (r: &Description<()>)
        ensures
            *r == self.desc,
    {
        &self.desc
    }

    /// Whether two batches hold the same pairs and cover the same times.
    pub fn same(&self, other: &Self) -> (r: bool)
        requires
            lawful_order::<K>(),
            R::lawful(),
            self.layer.wf(),
            other.layer.wf(),
        ensures
            r == ((forall|k: K| #[trigger] self.weight_of(k) == other.weight_of(k))
                && self.desc.from_times() == other.desc.from_times() && self.desc.to_times()
                == other.desc.to_times()),
    {
        let layers = self.layer.equals(&other.layer);
        proof {
            if layers {
                assert forall|k: K| #[trigger] self.weight_of(k) == other.weight_of(k) by {
                    assert(self.layer.at(k) == other.layer.at(k));
                }
            } else if forall|k: K| #[trigger] self.weight_of(k) == other.weight_of(k) {
                assert forall|k: K| #[trigger] self.layer.at(k) == other.layer.at(k) by {
                    assert(self.weight_of(k) == other.weight_of(k));
                }
            }
        }
        layers && self.desc.equals(&other.desc)
    }

    /// Moving to an earlier time changes nothing: the batch has no times.
    pub fn recede_to(&mut self, _frontier: &())
        ensures
            *final(self) == *old(self),
    {
    }

    /// A cursor at the first key.
    pub fn cursor(&self) -> (r: OrdZSetCursor)
        ensures
            r.over(self.size() as int),
            r.position() == 0,
            r.at_value(),
    {
        OrdZSetCursor { valid: true, empty: (), cursor: self.layer.cursor() }
    }

    /// Starts the merge of two batches.
    pub fn begin_merge(&self, other: &Self) -> (r: OrdZSetMerger<K, R>)
        ensures
            r.is_fresh(),
    {
        OrdZSetMerger::new(self, other)
    }

    /// The sum of two batches.
    pub fn add(self, rhs: Self) -> (r: Self)
        requires
            Self::lawful(),
            self.wf(),
            rhs.wf(),
            Self::holds(Self::add_math(self.math(), rhs.math())),
        ensures
            r.wf(),
            r.math() == Self::add_math(self.math(), rhs.math()),
            r.desc.from_times() == met(self.desc.from_times(), rhs.desc.from_times()),
            r.desc.to_times() == joined(self.desc.to_times(), rhs.desc.to_times()),
    {
        let desc = self.desc.combine(&rhs.desc);
        proof {
            lemma_sum_holds(&self, &rhs);
        }
        let layer = self.layer.add(rhs.layer);
        let r = OrdZSet { layer, desc };
        proof {
            lemma_sum_math(&self, &rhs, &r);
        }
        r
    }

    /// Adds `rhs` to the batch.
    pub fn add_assign(&mut self, rhs: Self)
        requires
            Self::lawful(),
            old(self).wf(),
            rhs.wf(),
            Self::holds(Self::add_math(old(self).math(), rhs.math())),
        ensures
            final(self).wf(),
            final(self).math() == Self::add_math(old(self).math(), rhs.math()),
            final(self).desc.from_times() == met(
                old(self).desc.from_times(),
                rhs.desc.from_times(),
            ),
            final(self).desc.to_times() == joined(old(self).desc.to_times(), rhs.desc.to_times()),
    {
        self.add_assign_by_ref(&rhs);
    }
}

proof fn lemma_sum_holds<K: Ord + Clone, R: MonoidValue>(a: &OrdZSet<K, R>, b: &OrdZSet<K, R>)
    requires
        OrdZSet::<K, R>::holds(OrdZSet::<K, R>::add_math(a.math(), b.math())),
    ensures
        a.layer.sum_holds(&b.layer),
{
    let sum = OrdZSet::<K, R>::add_math(a.math(), b.math());
    assert forall|k: K| R::holds(R::add_math(#[trigger] a.layer.at(k), b.layer.at(k))) by {
        assert(R::holds(sum(k)));
    }
}

proof fn lemma_sum_math<K: Ord + Clone, R: MonoidValue>(
    a: &OrdZSet<K, R>,
    b: &OrdZSet<K, R>,
    r: &OrdZSet<K, R>,
)
    requires
        forall|k: K| #[trigger] r.layer.at(k) == R::add_math(a.layer.at(k), b.layer.at(k)),
    ensures
        r.math() == OrdZSet::<K, R>::add_math(a.math(), b.math()),
{
    let sum = OrdZSet::<K, R>::add_math(a.math(), b.math());
    assert forall|k: K| #[trigger] (r.math())(k) == sum(k) by {
        assert(r.layer.at(k) == R::add_math(a.layer.at(k), b.layer.at(k)));
    }
    assert(r.math() =~= sum);
}

impl<K: Ord + Clone, R: MonoidValue> MonoidValue for OrdZSet<K, R> {
    type Math = spec_fn(K) -> R::Math;

    open spec fn lawful() -> bool {
        lawful_order::<K>() && R::lawful()
    }

    open spec fn wf(&self) -> bool {
        self.layer.wf()
    }

    open spec fn math(&self) -> spec_fn(K) -> R::Math {
        |k: K| weight_at(self.layer.vals@, k)
    }

    open spec fn zero_math() -> spec_fn(K) -> R::Math {
        |k: K| R::zero_math()
    }

    open spec fn add_math(
        a: spec_fn(K) -> R::Math,
        b: spec_fn(K) -> R::Math,
    ) -> spec_fn(K) -> R::Math {
        |k: K| R::add_math(a(k), b(k))
    }

    open spec fn holds(m: spec_fn(K) -> R::Math) -> bool {
        forall|k: K| R::holds(#[trigger] m(k))
    }

    proof fn add_commutes(a: spec_fn(K) -> R::Math, b: spec_fn(K) -> R::Math) {
        assert forall|k: K| #[trigger] R::add_math(a(k), b(k)) == R::add_math(b(k), a(k)) by {
            R::add_commutes(a(k), b(k));
        }
        assert(Self::add_math(a, b) =~= Self::add_math(b, a));
    }

    proof fn add_associates(
        a: spec_fn(K) -> R::Math,
        b: spec_fn(K) -> R::Math,
        c: spec_fn(K) -> R::Math,
    ) {
        assert forall|k: K| #[trigger]
            R::add_math(R::add_math(a(k), b(k)), c(k)) == R::add_math(
                a(k),
                R::add_math(b(k), c(k)),
            ) by {
            R::add_associates(a(k), b(k), c(k));
        }
        assert(Self::add_math(Self::add_math(a, b), c) =~= Self::add_math(
            a,
            Self::add_math(b, c),
        ));
    }

    proof fn zero_is_neutral(a: spec_fn(K) -> R::Math) {
        assert forall|k: K| #[trigger] R::add_math(R::zero_math(), a(k)) == a(k) by {
            R::zero_is_neutral(a(k));
        }
        assert(Self::add_math(Self::zero_math(), a) =~= a);
    }

    proof fn math_is_held(&self) {
        let m = self.math();
        assert forall|k: K| R::holds(#[trigger] m(k)) by {
            if m(k) == R::zero_math() {
                R::zero_is_held();
            } else {
                let i = lemma_weight_nonzero(self.layer.vals@, k);
                self.layer.vals@[i].1.math_is_held();
            }
        }
    }

    proof fn zero_is_held() {
        R::zero_is_held();
    }

    fn zero() -> (r: Self)
        ensures
            r.desc.is_total(),
            r.size() == 0,
    {
        let r = Self::empty(());
        proof {
            assert forall|k: K| #[trigger] (r.math())(k) == R::zero_math() by {
                assert(r.weight_of(k) == R::zero_math());
            }
            assert(r.math() =~= Self::zero_math());
        }
        r
    }

    fn is_zero(&self) -> (r: bool)
        ensures
            r == (self.size() == 0),
    {
        let r = self.layer.is_empty();
        proof {
            if r {
                assert forall|k: K| #[trigger] (self.math())(k) == R::zero_math() by {
                    assert(self.layer.at(k) == R::zero_math());
                }
                assert(self.math() =~= Self::zero_math());
            } else {
                let k = choose|k: K| #[trigger] self.layer.at(k) != R::zero_math();
                assert((self.math())(k) != (Self::zero_math())(k));
            }
        }
        r
    }

    fn equals(&self, other: &Self) -> (r: bool) {
        let r = self.layer.equals(&other.layer);
        proof {
            if r {
                assert forall|k: K| #[trigger] (self.math())(k) == (other.math())(k) by {
                    assert(self.layer.at(k) == other.layer.at(k));
                }
                assert(self.math() =~= other.math());
            } else {
                let k = choose|k: K| #[trigger] self.layer.at(k) != other.layer.at(k);
                assert((self.math())(k) != (other.math())(k));
            }
        }
        r
    }

    fn duplicate(&self) -> (r: Self)
        ensures
            r.size() == self.size(),
            r.desc.from_times() == self.desc.from_times(),
            r.desc.to_times() == self.desc.to_times(),
    {
        let r = OrdZSet { layer: self.layer.duplicate(), desc: self.desc.clone() };
        proof {
            assert forall|k: K| #[trigger] (r.math())(k) == (self.math())(k) by {
                assert(r.layer.at(k) == self.layer.at(k));
            }
            assert(r.math() =~= self.math());
        }
        r
    }

    fn add_by_ref(&self, other: &Self) -> (r: Self)
        ensures
            r.desc.from_times() == met(self.desc.from_times(), other.desc.from_times()),
            r.desc.to_times() == joined(self.desc.to_times(), other.desc.to_times()),
    {
        proof {
            lemma_sum_holds(self, other);
        }
        let r = OrdZSet {
            layer: self.layer.add_by_ref(&other.layer),
            desc: self.desc.combine(&other.desc),
        };
        proof {
            lemma_sum_math(self, other, &r);
        }
        r
    }

    fn add_assign_by_ref(&mut self, other: &Self)
        ensures
            final(self).desc.from_times() == met(
                old(self).desc.from_times(),
                other.desc.from_times(),
            ),
            final(self).desc.to_times() == joined(old(self).desc.to_times(), other.desc.to_times()),
    {
        let ghost before = *self;
        proof {
            lemma_sum_holds(&before, other);
        }
        self.layer.add_assign_by_ref(&other.layer);
        self.desc = self.desc.combine(&other.desc);
        proof {
            lemma_sum_math(&before, other, self);
        }
    }
}

impl<K: Ord + Clone, R: GroupValue> GroupValue for OrdZSet<K, R> {
    open spec fn neg_math(a: spec_fn(K) -> R::Math) -> spec_fn(K) -> R::Math {
        |k: K| R::neg_math(a(k))
    }

    proof fn neg_cancels(a: spec_fn(K) -> R::Math) {
        assert forall|k: K| #[trigger] R::add_math(a(k), R::neg_math(a(k))) == R::zero_math() by {
            R::neg_cancels(a(k));
        }
        assert(Self::add_math(a, Self::neg_math(a)) =~= Self::zero_math());
    }

    fn neg_by_ref(&self) -> (r: Self)
        ensures
            r.size() == self.size(),
            r.desc.from_times() == self.desc.from_times(),
            r.desc.to_times() == self.desc.to_times(),
    {
        let ghost negated = Self::neg_math(self.math());
        proof {
            assert forall|k: K| R::holds(R::neg_math(#[trigger] self.layer.at(k))) by {
                assert(R::holds(negated(k)));
            }
        }
        let r = OrdZSet { layer: self.layer.neg_by_ref(), desc: self.desc.clone() };
        proof {
            assert forall|k: K| #[trigger] (r.math())(k) == negated(k) by {
                assert(r.layer.at(k) == R::neg_math(self.layer.at(k)));
            }
            assert(r.math() =~= negated);
        }
        r
    }
}

impl<K: Ord + Clone, R: GroupValue> OrdZSet<K, R> {
    /// The batch with every weight inverted.
    pub fn neg(self) -> (r: Self)
        requires
            Self::lawful(),
            self.wf(),
            Self::holds(Self::neg_math(self.math())),
        ensures
            r.wf(),
            r.math() == Self::neg_math(self.math()),
            r.size() == self.size(),
            r.desc.from_times() == self.desc.from_times(),
            r.desc.to_times() == self.desc.to_times(),
    {
        self.neg_by_ref()
    }
}

/// The weights of `distinct`: one for each key of positive weight.
pub open spec fn distinct_of<K, R: ZRingValue>(m: spec_fn(K) -> R::Math) -> spec_fn(K) -> R::Math {
    |k: K|
        if m(k) != R::zero_math() && R::nonnegative(m(k)) {
            R::one_math()
        } else {
            R::zero_math()
        }
}

impl<K: Ord + Clone, R: ZRingValue> OrdZSet<K, R> {
    /// The keys of positive weight, each with weight one.
    pub fn distinct(&self) -> (r: Self)
        requires
            Self::lawful(),
            self.wf(),
        ensures
            r.wf(),
            r.math() == distinct_of::<K, R>(self.math()),
            Self::holds(Self::neg_math(r.math())),
            r.desc.is_total(),
    {
        let ghost vals = self.layer.vals@;
        let ghost goal = distinct_of::<K, R>(self.math());
        let mut builder: OrdZSetBuilder<K, R> = OrdZSetBuilder::with_capacity((), self.len());
        let mut cursor = self.cursor();
        proof {
            assert forall|k: K| #[trigger] weight_at(builder.pushed(), k) == R::zero_math() by {
                lemma_weight_absent(builder.pushed(), k);
            }
            assert forall|k: K| #[trigger] weight_at(vals.take(0), k) == R::zero_math() by {
                lemma_weight_absent(vals.take(0), k);
            }
        }
        while cursor.key_valid(self)
            invariant
                Self::lawful(),
                self.wf(),
                vals == self.layer.vals@,
                cursor.over(self.size() as int),
                builder.wf(),
                is_weighted(builder.pushed()),
                forall|i: int, j: int|
                    0 <= i < builder.pushed().len() && cursor.position() <= j < vals.len()
                        ==> before((#[trigger] builder.pushed()[i]).0, (#[trigger] vals[j]).0),
                forall|k: K| #[trigger]
                    weight_at(builder.pushed(), k) == {
                        let w = weight_at(vals.take(cursor.position()), k);
                        if w != R::zero_math() && R::nonnegative(w) {
                            R::one_math()
                        } else {
                            R::zero_math()
                        }
                    },
            decreases self.size() - cursor.position(),
        {
            let ghost p = cursor.position();
            let ghost pushed = builder.pushed();
            proof {
                cursor.lemma_over(self.size() as int);
                lemma_take_next(vals, p);
                R::one_is_not_zero();
            }
            let key = cursor.key(self);
            let w = cursor.weight(self);
            if w.ge0() {
                let one = R::one();
                let copy = key.clone();
                proof {
                    lemma_weight_push(pushed, (copy, one));
                }
                builder.push((copy, (), one));
            }
            cursor.step_key(self);
            assert(cursor.position() == p + 1);
            assert forall|k: K| #[trigger]
                weight_at(builder.pushed(), k) == {
                    let w = weight_at(vals.take(cursor.position()), k);
                    if w != R::zero_math() && R::nonnegative(w) {
                        R::one_math()
                    } else {
                        R::zero_math()
                    }
                } by {
                assert(weight_at(vals.take(p + 1), k) == if k == vals[p].0 {
                    vals[p].1.math()
                } else {
                    weight_at(vals.take(p), k)
                });
                assert(weight_at(pushed, k) == {
                    let w = weight_at(vals.take(p), k);
                    if w != R::zero_math() && R::nonnegative(w) {
                        R::one_math()
                    } else {
                        R::zero_math()
                    }
                });
            }
        }
        proof {
            cursor.lemma_over(self.size() as int);
            assert(vals.take(cursor.position()) =~= vals);
            lemma_weighted_runs_hold(builder.pushed());
        }
        let ghost pushed = builder.pushed();
        let r = builder.done();
        proof {
            assert forall|k: K| #[trigger] (r.math())(k) == goal(k) by {
                assert(r.weight_of(k) == tally(pushed, k));
                lemma_tally_weighted(pushed, k);
                assert(weight_at(pushed, k) == goal(k));
            }
            assert(r.math() =~= goal);
            distinct_can_be_inverted::<K, R>(self.math());
        }
        r
    }

    /// The keys of positive weight, each with weight one.
    pub fn distinct_owned(self) -> (r: Self)
        requires
            Self::lawful(),
            self.wf(),
        ensures
            r.wf(),
            r.math() == distinct_of::<K, R>(self.math()),
            Self::holds(Self::neg_math(r.math())),
            r.desc.is_total(),
    {
        self.distinct()
    }
}

/// Taking the distinct keys twice is taking them once.
pub proof fn distinct_is_idempotent<K, R: ZRingValue>(m: spec_fn(K) -> R::Math)
    ensures
        distinct_of::<K, R>(distinct_of::<K, R>(m)) == distinct_of::<K, R>(m),
{
    R::one_is_not_zero();
    R::one_is_nonnegative();
    assert(distinct_of::<K, R>(distinct_of::<K, R>(m)) =~= distinct_of::<K, R>(m));
}

/// A batch of distinct keys has an inverse.
pub proof fn distinct_can_be_inverted<K: Ord + Clone, R: ZRingValue>(m: spec_fn(K) -> R::Math)
    requires
        OrdZSet::<K, R>::lawful(),
    ensures
        OrdZSet::<K, R>::holds(OrdZSet::<K, R>::neg_math(distinct_of::<K, R>(m))),
{
    R::minus_one_is_held();
    R::zero_is_held();
    lemma_neg_zero::<R>();
}

/// The inverse of a batch of distinct keys has no distinct keys.
pub proof fn inverted_distinct_is_empty<K: Ord + Clone, R: ZRingValue>(m: spec_fn(K) -> R::Math)
    ensures
        distinct_of::<K, R>(OrdZSet::<K, R>::neg_math(distinct_of::<K, R>(m))) == OrdZSet::<
            K,
            R,
        >::zero_math(),
{
    R::minus_one_is_negative();
    lemma_neg_zero::<R>();
    assert(distinct_of::<K, R>(OrdZSet::<K, R>::neg_math(distinct_of::<K, R>(m))) =~= OrdZSet::<
        K,
        R,
    >::zero_math());
}

/// A batch in which every weight is zero lists no keys.
pub proof fn weightless_batches_are_empty<K: Ord + Clone, R: MonoidValue>(a: OrdZSet<K, R>)
    requires
        OrdZSet::<K, R>::lawful(),
        a.wf(),
        a.math() == OrdZSet::<K, R>::zero_math(),
    ensures
        a.size() == 0,
{
    let m = a.math();
    if a.size() > 0 {
        let key = a.layer.vals@[0].0;
        lemma_weight_listed(a.layer.vals@, 0);
        assert(m(key) == weight_at(a.layer.vals@, key));
        assert(false);
    }
}

/// A key is listed by the distinct keys of a batch exactly when its weight is positive.
pub proof fn distinct_lists_positive_keys<K: Ord + Clone, R: ZRingValue>(
    a: OrdZSet<K, R>,
    d: OrdZSet<K, R>,
    key: K,
)
    requires
        OrdZSet::<K, R>::lawful(),
        a.wf(),
        d.wf(),
        d.math() == distinct_of::<K, R>(a.math()),
    ensures
        (exists|i: int| 0 <= i < d.size() && (#[trigger] d.layer.vals@[i]).0 == key) <==> (
        a.weight_of(key) != R::zero_math() && R::nonnegative(a.weight_of(key))),
{
    let m = d.math();
    let n = distinct_of::<K, R>(a.math());
    R::one_is_not_zero();
    assert(m(key) == n(key));
    if m(key) != R::zero_math() {
        let i = lemma_weight_nonzero(d.layer.vals@, key);
        assert(d.layer.vals@[i].0 == key);
    } else {
        assert forall|i: int| 0 <= i < d.size() implies (#[trigger] d.layer.vals@[i]).0 != key by {
            lemma_weight_listed(d.layer.vals@, i);
        }
    }
}

/// Batches with the same weights hold the same pairs at the same positions: what
/// a cursor sees depends on the weights alone.
pub proof fn representation_is_unique<K: Ord + Clone, R: MonoidValue>(
    a: OrdZSet<K, R>,
    b: OrdZSet<K, R>,
)
    requires
        OrdZSet::<K, R>::lawful(),
        a.wf(),
        b.wf(),
        a.math() == b.math(),
    ensures
        a.size() == b.size(),
        forall|i: int|
            #![trigger a.layer.vals@[i]]
            0 <= i < a.size() ==> a.layer.vals@[i].0 == b.layer.vals@[i].0
                && a.layer.vals@[i].1.math() == b.layer.vals@[i].1.math(),
{
    let m = a.math();
    let n = b.math();
    assert forall|k: K| #[trigger]
        weight_at(a.layer.vals@, k) == weight_at(b.layer.vals@, k) by {
        assert(m(k) == weight_at(a.layer.vals@, k));
        assert(n(k) == weight_at(b.layer.vals@, k));
    }
    lemma_canonical(a.layer.vals@, b.layer.vals@);
}

/// Adding a batch and then its inverse leads back.
pub proof fn negation_undoes_addition<K: Ord + Clone, R: GroupValue>(
    a: spec_fn(K) -> R::Math,
    b: spec_fn(K) -> R::Math,
)
    ensures
        OrdZSet::<K, R>::add_math(
            OrdZSet::<K, R>::add_math(a, b),
            OrdZSet::<K, R>::neg_math(b),
        ) == a,
{
    let minus = OrdZSet::<K, R>::neg_math(b);
    OrdZSet::<K, R>::add_associates(a, b, minus);
    OrdZSet::<K, R>::neg_cancels(b);
    OrdZSet::<K, R>::add_commutes(a, OrdZSet::<K, R>::zero_math());
    OrdZSet::<K, R>::zero_is_neutral(a);
}

/// The batch in which each key has the sum of the weights that `items` gives to
/// it.
pub fn zset<K: Ord + Clone, R: MonoidValue>(items: Vec<(K, R)>) -> (r: OrdZSet<K, R>)
    requires
        OrdZSet::<K, R>::lawful(),
        forall|i: int| 0 <= i < items@.len() ==> (#[trigger] items@[i]).1.wf(),
        runs_hold(items@),
    ensures
        r.wf(),
        r.desc.is_total(),
        r.size() <= items@.len(),
        forall|k: K| #[trigger] r.weight_of(k) == tally(items@, k),
{
    let builder = OrdZSetBuilder { builder: OrderedLeafBuilder { vals: items } };
    builder.done()
}

/// State for an in-progress merge.
pub struct OrdZSetMerger<K, R> where K: Ord + Clone, R: MonoidValue {
    result: OrderedLeafMergeBuilder<K, R>,
}

impl<K: Ord + Clone, R: MonoidValue> OrdZSetMerger<K, R> {
    /// Nothing has been merged yet.
    pub closed spec fn is_fresh(&self) -> bool {
        self.result.vals@.len() == 0
    }

    /// The pairs merged so far.
    pub closed spec fn merged(&self) -> Seq<(K, R)> {
        self.result.vals@
    }

    /// A merge of two batches in which nothing has been merged yet.
    pub fn new(batch1: &OrdZSet<K, R>, batch2: &OrdZSet<K, R>) -> (r: Self)
        ensures
            r.is_fresh(),
    {
        OrdZSetMerger {
            result: OrderedLeafMergeBuilder::with_capacity(&batch1.layer, &batch2.layer),
        }
    }

    /// Merges the two batches in one go.  The merged pairs are taken off the
    /// fuel, of which at least one unit is left.
    pub fn work(&mut self, source1: &OrdZSet<K, R>, source2: &OrdZSet<K, R>, fuel: &mut isize)
        requires
            OrdZSet::<K, R>::lawful(),
            old(self).is_fresh(),
            source1.wf(),
            source2.wf(),
            OrdZSet::<K, R>::holds(OrdZSet::<K, R>::add_math(source1.math(), source2.math())),
        ensures
            is_weighted(final(self).merged()),
            forall|k: K| #[trigger]
                weight_at(final(self).merged(), k) == R::add_math(
                    source1.weight_of(k),
                    source2.weight_of(k),
                ),
            *final(fuel) == if *old(fuel) - final(self).merged().len() > 1 {
                *old(fuel) - final(self).merged().len()
            } else {
                1
            },
    {
        let cursor1 = source1.layer.cursor();
        let cursor2 = source2.layer.cursor();
        proof {
            lemma_sum_holds(source1, source2);
            assert(source1.layer.vals@.skip(0) =~= source1.layer.vals@);
            assert(source2.layer.vals@.skip(0) =~= source2.layer.vals@);
            assert forall|k: K|
                R::holds(
                    R::add_math(
                        #[trigger] weight_at(source1.layer.vals@, k),
                        weight_at(source2.layer.vals@, k),
                    ),
                ) by {
                assert(R::holds(R::add_math(source1.layer.at(k), source2.layer.at(k))));
            }
        }
        let count = self.result.push_merge(&source1.layer, cursor1, &source2.layer, cursor2);
        let left: i128 = *fuel as i128 - count as i128;
        *fuel = if left > 1 {
            left as isize
        } else {
            1
        };
    }

    /// The batch of the merged pairs.
    pub fn done(self) -> (r: OrdZSet<K, R>)
        ensures
            r.layer.vals@ == self.merged(),
            r.desc.is_total(),
    {
        OrdZSet::from_layer(self.result.done())
    }
}

/// A cursor for navigating a single layer.
#[derive(Debug)]
pub struct OrdZSetCursor {
    valid: bool,
    empty: (),
    cursor: OrderedLeafCursor,
}

impl OrdZSetCursor {
    /// The cursor moves over a batch of `len` keys.
    pub closed spec fn over(&self, len: int) -> bool {
        self.cursor.over(len)
    }

    /// The position of the cursor among the keys.
    pub closed spec fn position(&self) -> int {
        self.cursor.position()
    }

    /// The cursor has not stepped over the only value of its key.
    pub closed spec fn at_value(&self) -> bool {
        self.valid
    }

    /// A cursor does not leave the batch it moves over.
    pub broadcast proof fn lemma_over(&self, len: int)
        requires
            #[trigger] self.over(len),
        ensures
            0 <= self.position() <= len,
    {
        self.cursor.lemma_over(len);
    }

    /// The key at the cursor.
    pub fn key<'a, K: Ord + Clone, R: MonoidValue>(&self, storage: &'a OrdZSet<K, R>) -> (r: &'a K)
        requires
            self.over(storage.size() as int),
            self.position() < storage.size(),
        ensures
            *r == storage.layer.vals@[self.position()].0,
    {
        &self.cursor.key(&storage.layer).0
    }

    /// The value at the cursor, which is the unit.
    pub fn val<'a, K: Ord + Clone, R: MonoidValue>(&self, _storage: &'a OrdZSet<K, R>) -> (r: &'a ())
        ensures
            *r == (),
    {
        &()
    }

    /// Hands the unit time and the weight at the cursor to `logic`; does nothing
    /// behind the last key.
    pub fn map_times<K: Ord + Clone, R: MonoidValue, L: FnOnce(&(), &R)>(
        &mut self,
        storage: &OrdZSet<K, R>,
        logic: L,
    )
        requires
            old(self).over(storage.size() as int),
            old(self).position() < storage.size() ==> logic.requires(
                (&(), &storage.layer.vals@[old(self).position()].1),
            ),
        ensures
            *final(self) == *old(self),
            old(self).position() < storage.size() ==> logic.ensures(
                (&(), &storage.layer.vals@[old(self).position()].1),
                (),
            ),
    {
        if self.cursor.valid(&storage.layer) {
            let item = self.cursor.key(&storage.layer);
            logic(&(), &item.1);
        }
    }

    /// The weight at the cursor.
    pub fn weight<'a, K: Ord + Clone, R: MonoidValue>(&self, storage: &'a OrdZSet<K, R>) -> (r: &'a R)
        requires
            self.over(storage.size() as int),
            self.position() < storage.size(),
        ensures
            *r == storage.layer.vals@[self.position()].1,
    {
        &self.cursor.key(&storage.layer).1
    }

    /// Whether the cursor stands at a key.
    pub fn key_valid<K: Ord + Clone, R: MonoidValue>(&self, storage: &OrdZSet<K, R>) -> (r: bool)
        requires
            self.over(storage.size() as int),
        ensures
            r == (self.position() < storage.size()),
    {
        self.cursor.valid(&storage.layer)
    }

    /// Whether the cursor has not stepped over the value.
    pub fn val_valid<K: Ord + Clone, R: MonoidValue>(&self, _storage: &OrdZSet<K, R>) -> (r: bool)
        ensures
            r == self.at_value(),
    {
        self.valid
    }

    /// Moves to the next key; behind the last key the cursor stays.
    pub fn step_key<K: Ord + Clone, R: MonoidValue>(&mut self, storage: &OrdZSet<K, R>)
        requires
            old(self).over(storage.size() as int),
        ensures
            final(self).over(storage.size() as int),
            final(self).at_value(),
            final(self).position() == if old(self).position() < storage.size() {
                old(self).position() + 1
            } else {
                old(self).position()
            },
    {
        self.cursor.step(&storage.layer);
        self.valid = true;
    }

    /// Moves forward to the first key that does not come before `key`.
    pub fn seek_key<K: Ord + Clone, R: MonoidValue>(&mut self, storage: &OrdZSet<K, R>, key: &K)
        requires
            lawful_order::<K>(),
            storage.wf(),
            old(self).over(storage.size() as int),
        ensures
            final(self).over(storage.size() as int),
            final(self).at_value(),
            old(self).position() <= final(self).position(),
            forall|i: int|
                old(self).position() <= i < final(self).position() ==> before(
                    (#[trigger] storage.layer.vals@[i]).0,
                    *key,
                ),
            forall|i: int|
                final(self).position() <= i < storage.size() ==> !before(
                    (#[trigger] storage.layer.vals@[i]).0,
                    *key,
                ),
    {
        self.cursor.seek_key(&storage.layer, key);
        self.valid = true;
    }

    /// Steps over the value.
    pub fn step_val<K: Ord + Clone, R: MonoidValue>(&mut self, _storage: &OrdZSet<K, R>)
        ensures
            !final(self).at_value(),
            final(self).position() == old(self).position(),
            forall|len: int| #[trigger] final(self).over(len) == old(self).over(len),
    {
        self.valid = false;
    }

    /// The only value is the unit: seeking it changes nothing.
    pub fn seek_val<K: Ord + Clone, R: MonoidValue>(&mut self, _storage: &OrdZSet<K, R>, _val: &())
        ensures
            *final(self) == *old(self),
    {
    }

    /// Moves back to the first key.
    pub fn rewind_keys<K: Ord + Clone, R: MonoidValue>(&mut self, storage: &OrdZSet<K, R>)
        requires
            old(self).over(storage.size() as int),
        ensures
            final(self).over(storage.size() as int),
            final(self).at_value(),
            final(self).position() == 0,
    {
        self.cursor.rewind(&storage.layer);
        self.valid = true;
    }

    /// Moves back to the value.
    pub fn rewind_vals<K: Ord + Clone, R: MonoidValue>(&mut self, _storage: &OrdZSet<K, R>)
        ensures
            final(self).at_value(),
            final(self).position() == old(self).position(),
            forall|len: int| #[trigger] final(self).over(len) == old(self).over(len),
    {
        self.valid = true;
    }
}

/// A builder for creating layers from unsorted update tuples.
pub struct OrdZSetBuilder<K, R> where K: Ord, R: MonoidValue {
    builder: OrderedLeafBuilder<K, R>,
}

impl<K: Ord + Clone, R: MonoidValue> OrdZSetBuilder<K, R> {
    /// The weights pushed so far are valid.
    pub closed spec fn wf(&self) -> bool {
        self.builder.wf()
    }

    /// The tuples pushed so far.
    pub closed spec fn pushed(&self) -> Seq<(K, R)> {
        self.builder.vals@
    }

    /// A builder without tuples.
    pub fn new(_time: ()) -> (r: Self)
        ensures
            r.wf(),
            r.pushed() == Seq::<(K, R)>::empty(),
    {
        OrdZSetBuilder { builder: OrderedLeafBuilder::new() }
    }

    /// A builder without tuples, with room for `cap` of them.
    pub fn with_capacity(_time: (), cap: usize) -> (r: Self)
        ensures
            r.wf(),
            r.pushed() == Seq::<(K, R)>::empty(),
    {
        OrdZSetBuilder { builder: OrderedLeafBuilder::with_capacity(cap) }
    }

    /// Takes one more tuple.
    pub fn push(&mut self, item: (K, (), R))
        requires
            old(self).wf(),
            item.2.wf(),
        ensures
            final(self).wf(),
            final(self).pushed() == old(self).pushed().push((item.0, item.2)),
    {
        let (key, _unit, diff) = item;
        self.builder.push_tuple((key, diff));
    }

    /// The batch in which each key has the sum of the weights pushed for it.
    pub fn done(self) -> (r: OrdZSet<K, R>)
        requires
            OrdZSet::<K, R>::lawful(),
            self.wf(),
            runs_hold(self.pushed()),
        ensures
            r.wf(),
            r.desc.is_total(),
            r.size() <= self.pushed().len(),
            forall|k: K| #[trigger] r.weight_of(k) == tally(self.pushed(), k),
    {
        let layer = self.builder.done();
        let r = OrdZSet::from_layer(layer);
        assert forall|k: K| #[trigger] r.weight_of(k) == tally(self.pushed(), k) by {
            assert(layer.at(k) == tally(self.pushed(), k));
        }
        r
    }
}

/// A batch lists the keys that have a weight other than zero, each once with its weight,
/// in increasing order.
pub proof fn batches_list_their_weights<K: Ord + Clone, R: MonoidValue>(
    z: OrdZSet<K, R>,
    key: K,
    i: int,
    j: int,
)
    requires
        OrdZSet::<K, R>::lawful(),
        z.wf(),
    ensures
        0 <= i < j < z.layer.vals@.len() ==> z.layer.vals@[i].0.partial_cmp_spec(
            &z.layer.vals@[j].0,
        ) == Some(core::cmp::Ordering::Less),
        0 <= i < z.layer.vals@.len() ==> z.layer.vals@[i].1.math() != R::zero_math(),
        0 <= i < z.layer.vals@.len() ==> z.weight_of(z.layer.vals@[i].0)
            == z.layer.vals@[i].1.math(),
        (exists|n: int| 0 <= n < z.layer.vals@.len() && (#[trigger] z.layer.vals@[n]).0 == key)
            <==> z.weight_of(key) != R::zero_math(),
        z.size() == z.layer.vals@.len(),
{
    if 0 <= i < z.layer.vals@.len() {
        lemma_weight_listed(z.layer.vals@, i);
    }
    if z.weight_of(key) != R::zero_math() {
        let n = lemma_weight_nonzero(z.layer.vals@, key);
        assert(z.layer.vals@[n].0 == key);
    }
    if exists|n: int| 0 <= n < z.layer.vals@.len() && (#[trigger] z.layer.vals@[n]).0 == key {
        let n = choose|n: int|
            0 <= n < z.layer.vals@.len() && (#[trigger] z.layer.vals@[n]).0 == key;
        lemma_weight_listed(z.layer.vals@, n);
    }
}

/// Batches whose keys are integers list them from the smallest to the largest.
pub proof fn integer_keys_ascend<R: MonoidValue>(
    signed: OrdZSet<i64, R>,
    unsigned: OrdZSet<u64, R>,
    i: int,
    j: int,
)
    ensures
        signed.wf() && 0 <= i < j < signed.layer.vals@.len() ==> signed.layer.vals@[i].0
            < signed.layer.vals@[j].0,
        unsigned.wf() && 0 <= i < j < unsigned.layer.vals@.len() ==> unsigned.layer.vals@[i].0
            < unsigned.layer.vals@[j].0,
{
}

/// What the operations on batches with weights of type `isize` do to the weight of a key, in
/// integers: sums add, inverses change the sign, and the distinct keys are those of
/// positive weight, with weight one.
pub proof fn isize_weights_follow_the_operations<K: Ord + Clone>(
    a: OrdZSet<K, isize>,
    b: OrdZSet<K, isize>,
    r: OrdZSet<K, isize>,
    key: K,
)
    ensures
        call_ensures(OrdZSet::<K, isize>::empty, ((),), r) ==> r.wf() && r.weight_of(key) == 0,
        call_ensures(<OrdZSet<K, isize> as MonoidValue>::zero, (), r) ==> r.wf() && r.weight_of(key)
            == 0,
        call_ensures(<OrdZSet<K, isize> as MonoidValue>::duplicate, (&a,), r) ==> r.wf()
            && r.weight_of(key) == a.weight_of(key),
        call_ensures(<OrdZSet<K, isize> as MonoidValue>::add_by_ref, (&a, &b), r) ==> r.wf()
            && r.weight_of(key) == a.weight_of(key) + b.weight_of(key),
        call_ensures(OrdZSet::<K, isize>::add, (a, b), r) ==> r.wf() && r.weight_of(key)
            == a.weight_of(key) + b.weight_of(key),
        forall|m: &mut OrdZSet<K, isize>| #[trigger]
            call_ensures(<OrdZSet<K, isize> as MonoidValue>::add_assign_by_ref, (m, &b), ())
                ==> final(m).wf() && final(m).weight_of(key) == m.weight_of(key) + b.weight_of(key),
        forall|m: &mut OrdZSet<K, isize>| #[trigger]
            call_ensures(OrdZSet::<K, isize>::add_assign, (m, b), ()) ==> final(m).wf() && final(m).weight_of(key) == m.weight_of(key) + b.weight_of(key),
        call_ensures(<OrdZSet<K, isize> as GroupValue>::neg_by_ref, (&a,), r) ==> r.wf()
            && r.weight_of(key) == -a.weight_of(key),
        call_ensures(OrdZSet::<K, isize>::neg, (a,), r) ==> r.wf() && r.weight_of(key)
            == -a.weight_of(key),
        call_ensures(OrdZSet::<K, isize>::distinct, (&a,), r) ==> r.wf() && r.weight_of(key)
            == if a.weight_of(key) > 0 {
            1int
        } else {
            0
        },
        call_ensures(OrdZSet::<K, isize>::distinct_owned, (a,), r) ==> r.wf() && r.weight_of(key)
            == if a.weight_of(key) > 0 {
            1int
        } else {
            0
        },
{
    let zero = <OrdZSet<K, isize> as MonoidValue>::zero_math();
    let sum = <OrdZSet<K, isize> as MonoidValue>::add_math(a.math(), b.math());
    let inverse = <OrdZSet<K, isize> as GroupValue>::neg_math(a.math());
    let distinct = distinct_of::<K, isize>(a.math());
    assert((r.math())(key) == r.weight_of(key));
    assert((a.math())(key) == a.weight_of(key));
    assert((b.math())(key) == b.weight_of(key));
    assert(zero(key) == 0);
    assert(sum(key) == a.weight_of(key) + b.weight_of(key));
    assert(inverse(key) == -a.weight_of(key));
    assert(distinct(key) == if a.weight_of(key) > 0 {
        1int
    } else {
        0
    });
    assert forall|m: &mut OrdZSet<K, isize>| #[trigger]
        call_ensures(<OrdZSet<K, isize> as MonoidValue>::add_assign_by_ref, (m, &b), ()) implies final(m).wf() && final(m).weight_of(key) == m.weight_of(key) + b.weight_of(key) by {
        let sum = <OrdZSet<K, isize> as MonoidValue>::add_math(m.math(), b.math());
        assert((m.math())(key) == m.weight_of(key));
        assert((final(m).math())(key) == final(m).weight_of(key));
        assert(sum(key) == m.weight_of(key) + b.weight_of(key));
    }
    assert forall|m: &mut OrdZSet<K, isize>| #[trigger]
        call_ensures(OrdZSet::<K, isize>::add_assign, (m, b), ()) implies final(m).wf() && final(m).weight_of(key) == m.weight_of(key) + b.weight_of(key) by {
        let sum = <OrdZSet<K, isize> as MonoidValue>::add_math(m.math(), b.math());
        assert((m.math())(key) == m.weight_of(key));
        assert((final(m).math())(key) == final(m).weight_of(key));
        assert(sum(key) == m.weight_of(key) + b.weight_of(key));
    }
}

/// A batch made from pairs gives each key the sum of the integers that the pairs give to
/// it, and merging two batches gives each key the sum of its weights in both.
pub proof fn isize_weights_are_added_up<K: Ord + Clone>(
    items: Vec<(K, isize)>,
    a: OrdZSet<K, isize>,
    b: OrdZSet<K, isize>,
    r: OrdZSet<K, isize>,
    key: K,
)
    ensures
        call_ensures(zset::<K, isize>, (items,), r) ==> r.wf() && r.weight_of(key)
            == given_to(items@, key).map_values(|w: isize| w as int).fold_left(
            0,
            |x: int, y: int| x + y,
        ),
        forall|m: &mut OrdZSetMerger<K, isize>, fuel: &mut isize|
            #![trigger call_ensures(OrdZSetMerger::<K, isize>::work, (m, &a, &b, fuel), ())]
            call_ensures(OrdZSetMerger::<K, isize>::work, (m, &a, &b, fuel), ()) && call_ensures(
                OrdZSetMerger::<K, isize>::done,
                (*final(m),),
                r,
            ) ==> r.wf() && r.weight_of(key) == a.weight_of(key) + b.weight_of(key) && *final(fuel)
                == (if *fuel - r.layer.vals@.len() > 1 {
                *fuel - r.layer.vals@.len()
            } else {
                1
            }),
{
    integers_are_added_up(Seq::empty(), Seq::empty(), items@, key);
    if call_ensures(zset::<K, isize>, (items,), r) {
        assert(r.weight_of(key) == tally(items@, key));
    }
}

/// A builder without tuples gives a batch without weights, and each tuple adds its weight
/// to that of its key.
pub proof fn isize_builders_add_tuples<K: Ord + Clone>(
    item: (K, (), isize),
    before_push: OrdZSet<K, isize>,
    after_push: OrdZSet<K, isize>,
    fresh: OrdZSetBuilder<K, isize>,
    cap: usize,
    key: K,
)
    ensures
        (call_ensures(OrdZSetBuilder::<K, isize>::new, ((),), fresh) || call_ensures(
            OrdZSetBuilder::<K, isize>::with_capacity,
            ((), cap),
            fresh,
        )) && call_ensures(OrdZSetBuilder::<K, isize>::done, (fresh,), after_push)
            ==> after_push.wf() && after_push.weight_of(key) == 0,
        forall|b: &mut OrdZSetBuilder<K, isize>|
            #![trigger call_ensures(OrdZSetBuilder::<K, isize>::push, (b, item), ())]
            call_ensures(OrdZSetBuilder::<K, isize>::push, (b, item), ()) && call_ensures(
                OrdZSetBuilder::<K, isize>::done,
                (*b,),
                before_push,
            ) && call_ensures(OrdZSetBuilder::<K, isize>::done, (*final(b),), after_push)
                ==> after_push.wf() && after_push.weight_of(key) == before_push.weight_of(key) + (
            if key == item.0 {
                item.2 as int
            } else {
                0
            }),
{
    if (call_ensures(OrdZSetBuilder::<K, isize>::new, ((),), fresh) || call_ensures(
        OrdZSetBuilder::<K, isize>::with_capacity,
        ((), cap),
        fresh,
    )) && call_ensures(OrdZSetBuilder::<K, isize>::done, (fresh,), after_push) {
        assert(after_push.weight_of(key) == tally(fresh.pushed(), key));
    }
    assert forall|b: &mut OrdZSetBuilder<K, isize>|
        #![trigger call_ensures(OrdZSetBuilder::<K, isize>::push, (b, item), ())]
        call_ensures(OrdZSetBuilder::<K, isize>::push, (b, item), ()) && call_ensures(
            OrdZSetBuilder::<K, isize>::done,
            (*b,),
            before_push,
        ) && call_ensures(
            OrdZSetBuilder::<K, isize>::done,
            (*final(b),),
            after_push,
        ) implies after_push.wf() && after_push.weight_of(key) == before_push.weight_of(key) + (
    if key == item.0 {
        item.2 as int
    } else {
        0
    }) by {
        assert(before_push.weight_of(key) == tally(b.pushed(), key));
        assert(after_push.weight_of(key) == tally(final(b).pushed(), key));
        assert(final(b).pushed().drop_last() =~= b.pushed());
    }
}

/// What the operations on batches with weights of type `i64` do to the weight of a key, in
/// integers: sums add, inverses change the sign, and the distinct keys are those of
/// positive weight, with weight one.
pub proof fn i64_weights_follow_the_operations<K: Ord + Clone>(
    a: OrdZSet<K, i64>,
    b: OrdZSet<K, i64>,
    r: OrdZSet<K, i64>,
    key: K,
)
    ensures
        call_ensures(OrdZSet::<K, i64>::empty, ((),), r) ==> r.wf() && r.weight_of(key) == 0,
        call_ensures(<OrdZSet<K, i64> as MonoidValue>::zero, (), r) ==> r.wf() && r.weight_of(key)
            == 0,
        call_ensures(<OrdZSet<K, i64> as MonoidValue>::duplicate, (&a,), r) ==> r.wf()
            && r.weight_of(key) == a.weight_of(key),
        call_ensures(<OrdZSet<K, i64> as MonoidValue>::add_by_ref, (&a, &b), r) ==> r.wf()
            && r.weight_of(key) == a.weight_of(key) + b.weight_of(key),
        call_ensures(OrdZSet::<K, i64>::add, (a, b), r) ==> r.wf() && r.weight_of(key)
            == a.weight_of(key) + b.weight_of(key),
        forall|m: &mut OrdZSet<K, i64>| #[trigger]
            call_ensures(<OrdZSet<K, i64> as MonoidValue>::add_assign_by_ref, (m, &b), ())
                ==> final(m).wf() && final(m).weight_of(key) == m.weight_of(key) + b.weight_of(key),
        forall|m: &mut OrdZSet<K, i64>| #[trigger]
            call_ensures(OrdZSet::<K, i64>::add_assign, (m, b), ()) ==> final(m).wf() && final(m).weight_of(key) == m.weight_of(key) + b.weight_of(key),
        call_ensures(<OrdZSet<K, i64> as GroupValue>::neg_by_ref, (&a,), r) ==> r.wf()
            && r.weight_of(key) == -a.weight_of(key),
        call_ensures(OrdZSet::<K, i64>::neg, (a,), r) ==> r.wf() && r.weight_of(key)
            == -a.weight_of(key),
        call_ensures(OrdZSet::<K, i64>::distinct, (&a,), r) ==> r.wf() && r.weight_of(key)
            == if a.weight_of(key) > 0 {
            1int
        } else {
            0
        },
        call_ensures(OrdZSet::<K, i64>::distinct_owned, (a,), r) ==> r.wf() && r.weight_of(key)
            == if a.weight_of(key) > 0 {
            1int
        } else {
            0
        },
{
    let zero = <OrdZSet<K, i64> as MonoidValue>::zero_math();
    let sum = <OrdZSet<K, i64> as MonoidValue>::add_math(a.math(), b.math());
    let inverse = <OrdZSet<K, i64> as GroupValue>::neg_math(a.math());
    let distinct = distinct_of::<K, i64>(a.math());
    assert((r.math())(key) == r.weight_of(key));
    assert((a.math())(key) == a.weight_of(key));
    assert((b.math())(key) == b.weight_of(key));
    assert(zero(key) == 0);
    assert(sum(key) == a.weight_of(key) + b.weight_of(key));
    assert(inverse(key) == -a.weight_of(key));
    assert(distinct(key) == if a.weight_of(key) > 0 {
        1int
    } else {
        0
    });
    assert forall|m: &mut OrdZSet<K, i64>| #[trigger]
        call_ensures(<OrdZSet<K, i64> as MonoidValue>::add_assign_by_ref, (m, &b), ()) implies final(m).wf() && final(m).weight_of(key) == m.weight_of(key) + b.weight_of(key) by {
        let sum = <OrdZSet<K, i64> as MonoidValue>::add_math(m.math(), b.math());
        assert((m.math())(key) == m.weight_of(key));
        assert((final(m).math())(key) == final(m).weight_of(key));
        assert(sum(key) == m.weight_of(key) + b.weight_of(key));
    }
    assert forall|m: &mut OrdZSet<K, i64>| #[trigger]
        call_ensures(OrdZSet::<K, i64>::add_assign, (m, b), ()) implies final(m).wf() && final(m).weight_of(key) == m.weight_of(key) + b.weight_of(key) by {
        let sum = <OrdZSet<K, i64> as MonoidValue>::add_math(m.math(), b.math());
        assert((m.math())(key) == m.weight_of(key));
        assert((final(m).math())(key) == final(m).weight_of(key));
        assert(sum(key) == m.weight_of(key) + b.weight_of(key));
    }
}

/// A batch made from pairs gives each key the sum of the integers that the pairs give to
/// it, and merging two batches gives each key the sum of its weights in both.
pub proof fn i64_weights_are_added_up<K: Ord + Clone>(
    items: Vec<(K, i64)>,
    a: OrdZSet<K, i64>,
    b: OrdZSet<K, i64>,
    r: OrdZSet<K, i64>,
    key: K,
)
    ensures
        call_ensures(zset::<K, i64>, (items,), r) ==> r.wf() && r.weight_of(key)
            == given_to(items@, key).map_values(|w: i64| w as int).fold_left(
            0,
            |x: int, y: int| x + y,
        ),
        forall|m: &mut OrdZSetMerger<K, i64>, fuel: &mut isize|
            #![trigger call_ensures(OrdZSetMerger::<K, i64>::work, (m, &a, &b, fuel), ())]
            call_ensures(OrdZSetMerger::<K, i64>::work, (m, &a, &b, fuel), ()) && call_ensures(
                OrdZSetMerger::<K, i64>::done,
                (*final(m),),
                r,
            ) ==> r.wf() && r.weight_of(key) == a.weight_of(key) + b.weight_of(key) && *final(fuel)
                == (if *fuel - r.layer.vals@.len() > 1 {
                *fuel - r.layer.vals@.len()
            } else {
                1
            }),
{
    integers_are_added_up(items@, Seq::empty(), Seq::empty(), key);
    if call_ensures(zset::<K, i64>, (items,), r) {
        assert(r.weight_of(key) == tally(items@, key));
    }
}

/// A builder without tuples gives a batch without weights, and each tuple adds its weight
/// to that of its key.
pub proof fn i64_builders_add_tuples<K: Ord + Clone>(
    item: (K, (), i64),
    before_push: OrdZSet<K, i64>,
    after_push: OrdZSet<K, i64>,
    fresh: OrdZSetBuilder<K, i64>,
    cap: usize,
    key: K,
)
    ensures
        (call_ensures(OrdZSetBuilder::<K, i64>::new, ((),), fresh) || call_ensures(
            OrdZSetBuilder::<K, i64>::with_capacity,
            ((), cap),
            fresh,
        )) && call_ensures(OrdZSetBuilder::<K, i64>::done, (fresh,), after_push)
            ==> after_push.wf() && after_push.weight_of(key) == 0,
        forall|b: &mut OrdZSetBuilder<K, i64>|
            #![trigger call_ensures(OrdZSetBuilder::<K, i64>::push, (b, item), ())]
            call_ensures(OrdZSetBuilder::<K, i64>::push, (b, item), ()) && call_ensures(
                OrdZSetBuilder::<K, i64>::done,
                (*b,),
                before_push,
            ) && call_ensures(OrdZSetBuilder::<K, i64>::done, (*final(b),), after_push)
                ==> after_push.wf() && after_push.weight_of(key) == before_push.weight_of(key) + (
            if key == item.0 {
                item.2 as int
            } else {
                0
            }),
{
    if (call_ensures(OrdZSetBuilder::<K, i64>::new, ((),), fresh) || call_ensures(
        OrdZSetBuilder::<K, i64>::with_capacity,
        ((), cap),
        fresh,
    )) && call_ensures(OrdZSetBuilder::<K, i64>::done, (fresh,), after_push) {
        assert(after_push.weight_of(key) == tally(fresh.pushed(), key));
    }
    assert forall|b: &mut OrdZSetBuilder<K, i64>|
        #![trigger call_ensures(OrdZSetBuilder::<K, i64>::push, (b, item), ())]
        call_ensures(OrdZSetBuilder::<K, i64>::push, (b, item), ()) && call_ensures(
            OrdZSetBuilder::<K, i64>::done,
            (*b,),
            before_push,
        ) && call_ensures(
            OrdZSetBuilder::<K, i64>::done,
            (*final(b),),
            after_push,
        ) implies after_push.wf() && after_push.weight_of(key) == before_push.weight_of(key) + (
    if key == item.0 {
        item.2 as int
    } else {
        0
    }) by {
        assert(before_push.weight_of(key) == tally(b.pushed(), key));
        assert(after_push.weight_of(key) == tally(final(b).pushed(), key));
        assert(final(b).pushed().drop_last() =~= b.pushed());
    }
}

/// What the operations on batches with weights of type `i32` do to the weight of a key, in
/// integers: sums add, inverses change the sign, and the distinct keys are those of
/// positive weight, with weight one.
pub proof fn i32_weights_follow_the_operations<K: Ord + Clone>(
    a: OrdZSet<K, i32>,
    b: OrdZSet<K, i32>,
    r: OrdZSet<K, i32>,
    key: K,
)
    ensures
        call_ensures(OrdZSet::<K, i32>::empty, ((),), r) ==> r.wf() && r.weight_of(key) == 0,
        call_ensures(<OrdZSet<K, i32> as MonoidValue>::zero, (), r) ==> r.wf() && r.weight_of(key)
            == 0,
        call_ensures(<OrdZSet<K, i32> as MonoidValue>::duplicate, (&a,), r) ==> r.wf()
            && r.weight_of(key) == a.weight_of(key),
        call_ensures(<OrdZSet<K, i32> as MonoidValue>::add_by_ref, (&a, &b), r) ==> r.wf()
            && r.weight_of(key) == a.weight_of(key) + b.weight_of(key),
        call_ensures(OrdZSet::<K, i32>::add, (a, b), r) ==> r.wf() && r.weight_of(key)
            == a.weight_of(key) + b.weight_of(key),
        forall|m: &mut OrdZSet<K, i32>| #[trigger]
            call_ensures(<OrdZSet<K, i32> as MonoidValue>::add_assign_by_ref, (m, &b), ())
                ==> final(m).wf() && final(m).weight_of(key) == m.weight_of(key) + b.weight_of(key),
        forall|m: &mut OrdZSet<K, i32>| #[trigger]
            call_ensures(OrdZSet::<K, i32>::add_assign, (m, b), ()) ==> final(m).wf() && final(m).weight_of(key) == m.weight_of(key) + b.weight_of(key),
        call_ensures(<OrdZSet<K, i32> as GroupValue>::neg_by_ref, (&a,), r) ==> r.wf()
            && r.weight_of(key) == -a.weight_of(key),
        call_ensures(OrdZSet::<K, i32>::neg, (a,), r) ==> r.wf() && r.weight_of(key)
            == -a.weight_of(key),
        call_ensures(OrdZSet::<K, i32>::distinct, (&a,), r) ==> r.wf() && r.weight_of(key)
            == if a.weight_of(key) > 0 {
            1int
        } else {
            0
        },
        call_ensures(OrdZSet::<K, i32>::distinct_owned, (a,), r) ==> r.wf() && r.weight_of(key)
            == if a.weight_of(key) > 0 {
            1int
        } else {
            0
        },
{
    let zero = <OrdZSet<K, i32> as MonoidValue>::zero_math();
    let sum = <OrdZSet<K, i32> as MonoidValue>::add_math(a.math(), b.math());
    let inverse = <OrdZSet<K, i32> as GroupValue>::neg_math(a.math());
    let distinct = distinct_of::<K, i32>(a.math());
    assert((r.math())(key) == r.weight_of(key));
    assert((a.math())(key) == a.weight_of(key));
    assert((b.math())(key) == b.weight_of(key));
    assert(zero(key) == 0);
    assert(sum(key) == a.weight_of(key) + b.weight_of(key));
    assert(inverse(key) == -a.weight_of(key));
    assert(distinct(key) == if a.weight_of(key) > 0 {
        1int
    } else {
        0
    });
    assert forall|m: &mut OrdZSet<K, i32>| #[trigger]
        call_ensures(<OrdZSet<K, i32> as MonoidValue>::add_assign_by_ref, (m, &b), ()) implies final(m).wf() && final(m).weight_of(key) == m.weight_of(key) + b.weight_of(key) by {
        let sum = <OrdZSet<K, i32> as MonoidValue>::add_math(m.math(), b.math());
        assert((m.math())(key) == m.weight_of(key));
        assert((final(m).math())(key) == final(m).weight_of(key));
        assert(sum(key) == m.weight_of(key) + b.weight_of(key));
    }
    assert forall|m: &mut OrdZSet<K, i32>| #[trigger]
        call_ensures(OrdZSet::<K, i32>::add_assign, (m, b), ()) implies final(m).wf() && final(m).weight_of(key) == m.weight_of(key) + b.weight_of(key) by {
        let sum = <OrdZSet<K, i32> as MonoidValue>::add_math(m.math(), b.math());
        assert((m.math())(key) == m.weight_of(key));
        assert((final(m).math())(key) == final(m).weight_of(key));
        assert(sum(key) == m.weight_of(key) + b.weight_of(key));
    }
}

/// A batch made from pairs gives each key the sum of the integers that the pairs give to
/// it, and merging two batches gives each key the sum of its weights in both.
pub proof fn i32_weights_are_added_up<K: Ord + Clone>(
    items: Vec<(K, i32)>,
    a: OrdZSet<K, i32>,
    b: OrdZSet<K, i32>,
    r: OrdZSet<K, i32>,
    key: K,
)
    ensures
        call_ensures(zset::<K, i32>, (items,), r) ==> r.wf() && r.weight_of(key)
            == given_to(items@, key).map_values(|w: i32| w as int).fold_left(
            0,
            |x: int, y: int| x + y,
        ),
        forall|m: &mut OrdZSetMerger<K, i32>, fuel: &mut isize|
            #![trigger call_ensures(OrdZSetMerger::<K, i32>::work, (m, &a, &b, fuel), ())]
            call_ensures(OrdZSetMerger::<K, i32>::work, (m, &a, &b, fuel), ()) && call_ensures(
                OrdZSetMerger::<K, i32>::done,
                (*final(m),),
                r,
            ) ==> r.wf() && r.weight_of(key) == a.weight_of(key) + b.weight_of(key) && *final(fuel)
                == (if *fuel - r.layer.vals@.len() > 1 {
                *fuel - r.layer.vals@.len()
            } else {
                1
            }),
{
    integers_are_added_up(Seq::empty(), items@, Seq::empty(), key);
    if call_ensures(zset::<K, i32>, (items,), r) {
        assert(r.weight_of(key) == tally(items@, key));
    }
}

/// A builder without tuples gives a batch without weights, and each tuple adds its weight
/// to that of its key.
pub proof fn i32_builders_add_tuples<K: Ord + Clone>(
    item: (K, (), i32),
    before_push: OrdZSet<K, i32>,
    after_push: OrdZSet<K, i32>,
    fresh: OrdZSetBuilder<K, i32>,
    cap: usize,
    key: K,
)
    ensures
        (call_ensures(OrdZSetBuilder::<K, i32>::new, ((),), fresh) || call_ensures(
            OrdZSetBuilder::<K, i32>::with_capacity,
            ((), cap),
            fresh,
        )) && call_ensures(OrdZSetBuilder::<K, i32>::done, (fresh,), after_push)
            ==> after_push.wf() && after_push.weight_of(key) == 0,
        forall|b: &mut OrdZSetBuilder<K, i32>|
            #![trigger call_ensures(OrdZSetBuilder::<K, i32>::push, (b, item), ())]
            call_ensures(OrdZSetBuilder::<K, i32>::push, (b, item), ()) && call_ensures(
                OrdZSetBuilder::<K, i32>::done,
                (*b,),
                before_push,
            ) && call_ensures(OrdZSetBuilder::<K, i32>::done, (*final(b),), after_push)
                ==> after_push.wf() && after_push.weight_of(key) == before_push.weight_of(key) + (
            if key == item.0 {
                item.2 as int
            } else {
                0
            }),
{
    if (call_ensures(OrdZSetBuilder::<K, i32>::new, ((),), fresh) || call_ensures(
        OrdZSetBuilder::<K, i32>::with_capacity,
        ((), cap),
        fresh,
    )) && call_ensures(OrdZSetBuilder::<K, i32>::done, (fresh,), after_push) {
        assert(after_push.weight_of(key) == tally(fresh.pushed(), key));
    }
    assert forall|b: &mut OrdZSetBuilder<K, i32>|
        #![trigger call_ensures(OrdZSetBuilder::<K, i32>::push, (b, item), ())]
        call_ensures(OrdZSetBuilder::<K, i32>::push, (b, item), ()) && call_ensures(
            OrdZSetBuilder::<K, i32>::done,
            (*b,),
            before_push,
        ) && call_ensures(
            OrdZSetBuilder::<K, i32>::done,
            (*final(b),),
            after_push,
        ) implies after_push.wf() && after_push.weight_of(key) == before_push.weight_of(key) + (
    if key == item.0 {
        item.2 as int
    } else {
        0
    }) by {
        assert(before_push.weight_of(key) == tally(b.pushed(), key));
        assert(after_push.weight_of(key) == tally(final(b).pushed(), key));
        assert(final(b).pushed().drop_last() =~= b.pushed());
    }
}

/// The cursor stands at position `i` of the batch: it shows the pair there, or nothing
/// behind the last one.
pub open spec fn shows<K: Ord + Clone, R: MonoidValue>(
    cursor: OrdZSetCursor,
    z: OrdZSet<K, R>,
    i: int,
) -> bool {
    &&& 0 <= i <= z.layer.vals@.len()
    &&& forall|key: &K|
        i < z.layer.vals@.len() && #[trigger] call_ensures(
            OrdZSetCursor::key::<K, R>,
            (&cursor, &z),
            key,
        ) ==> *key == z.layer.vals@[i].0
    &&& forall|weight: &R|
        i < z.layer.vals@.len() && #[trigger] call_ensures(
            OrdZSetCursor::weight::<K, R>,
            (&cursor, &z),
            weight,
        ) ==> *weight == z.layer.vals@[i].1
    &&& forall|valid: bool| #[trigger]
        call_ensures(OrdZSetCursor::key_valid::<K, R>, (&cursor, &z), valid) ==> (valid <==> i
            < z.layer.vals@.len())
}

/// Over a batch a cursor starts at the first pair, and goes back there when rewound; a step
/// leads to the next pair, and to nowhere else behind the last one.
pub proof fn cursors_walk_through_the_batch<K: Ord + Clone, R: MonoidValue>(
    z: OrdZSet<K, R>,
    fresh: OrdZSetCursor,
)
    ensures
        call_ensures(OrdZSet::<K, R>::cursor, (&z,), fresh) ==> shows(fresh, z, 0),
        forall|c: &mut OrdZSetCursor| #[trigger]
            call_ensures(OrdZSetCursor::rewind_keys::<K, R>, (c, &z), ()) ==> shows(
                *final(c),
                z,
                0,
            ),
        forall|c: &mut OrdZSetCursor|
            #![trigger call_ensures(OrdZSetCursor::step_key::<K, R>, (c, &z), ())]
            c.over(z.size() as int) && call_ensures(OrdZSetCursor::step_key::<K, R>, (c, &z), ())
                ==> exists|i: int|
                #![trigger shows(*c, z, i)]
                shows(*c, z, i) && (if i < z.layer.vals@.len() {
                    shows(*final(c), z, i + 1)
                } else {
                    shows(*final(c), z, i)
                }),
{
    if call_ensures(OrdZSet::<K, R>::cursor, (&z,), fresh) {
        fresh.lemma_over(z.size() as int);
    }
    assert forall|c: &mut OrdZSetCursor| #[trigger]
        call_ensures(OrdZSetCursor::rewind_keys::<K, R>, (c, &z), ()) implies shows(
        *final(c),
        z,
        0,
    ) by {
        final(c).lemma_over(z.size() as int);
    }
    assert forall|c: &mut OrdZSetCursor|
        #![trigger call_ensures(OrdZSetCursor::step_key::<K, R>, (c, &z), ())]
        c.over(z.size() as int) && call_ensures(
            OrdZSetCursor::step_key::<K, R>,
            (c, &z),
            (),
        ) implies exists|i: int|
        #![trigger shows(*c, z, i)]
        shows(*c, z, i) && (if i < z.layer.vals@.len() {
            shows(*final(c), z, i + 1)
        } else {
            shows(*final(c), z, i)
        }) by {
        c.lemma_over(z.size() as int);
        final(c).lemma_over(z.size() as int);
        assert(shows(*c, z, c.position()));
    }
}

/// A cursor at the first pair finds a key that the batch lists, and otherwise stops where
/// the key would have to stand.
pub proof fn seeking_finds_listed_keys<K: Ord + Clone, R: MonoidValue>(
    z: OrdZSet<K, R>,
    key: K,
    n: int,
)
    requires
        OrdZSet::<K, R>::lawful(),
        z.wf(),
        0 <= n < z.layer.vals@.len(),
        z.layer.vals@[n].0 == key,
    ensures
        forall|c: &mut OrdZSetCursor| #[trigger]
            call_ensures(OrdZSetCursor::seek_key::<K, R>, (c, &z, &key), ()) && call_ensures(
                OrdZSet::<K, R>::cursor,
                (&z,),
                *c,
            ) ==> shows(*final(c), z, n),
{
    assert forall|c: &mut OrdZSetCursor| #[trigger]
        call_ensures(OrdZSetCursor::seek_key::<K, R>, (c, &z, &key), ()) && call_ensures(
            OrdZSet::<K, R>::cursor,
            (&z,),
            *c,
        ) implies shows(*final(c), z, n) by {
        final(c).lemma_over(z.size() as int);
        let p = final(c).position();
        if p > n {
            assert(before(z.layer.vals@[n].0, key));
            lemma_order(key, key);
        } else if p < n {
            assert(!before(z.layer.vals@[p].0, key));
            assert(before(z.layer.vals@[p].0, z.layer.vals@[n].0));
        }
    }
}

/// Batches with weights of type `isize` can be added where no sum of two weights of a key leaves
/// the type, and inverted where no weight is the smallest one; distinct keys can always be
/// taken.
pub proof fn isize_batches_can_be_operated_on<K: Ord + Clone>(a: OrdZSet<K, isize>, b: OrdZSet<K, isize>)
    requires
        lawful_order::<K>(),
        a.wf(),
        b.wf(),
    ensures
        (forall|k: K|
            isize::MIN <= #[trigger] a.weight_of(k) + b.weight_of(k) <= isize::MAX) ==> call_requires(
            <OrdZSet<K, isize> as MonoidValue>::add_by_ref,
            (&a, &b),
        ) && call_requires(OrdZSet::<K, isize>::add, (a, b)),
        (forall|k: K| #[trigger] a.weight_of(k) > isize::MIN) ==> call_requires(
            <OrdZSet<K, isize> as GroupValue>::neg_by_ref,
            (&a,),
        ) && call_requires(OrdZSet::<K, isize>::neg, (a,)),
        call_requires(OrdZSet::<K, isize>::distinct, (&a,)),
{
    let sum = <OrdZSet<K, isize> as MonoidValue>::add_math(a.math(), b.math());
    let inverse = <OrdZSet<K, isize> as GroupValue>::neg_math(a.math());
    a.math_is_held();
    assert forall|k: K| #[trigger] sum(k) == a.weight_of(k) + b.weight_of(k) by {
    }
    assert forall|k: K| #[trigger] inverse(k) == -a.weight_of(k) by {
    }
    if forall|k: K| #[trigger] a.weight_of(k) > isize::MIN {
        assert forall|k: K| isize::holds(#[trigger] inverse(k)) by {
            assert(a.weight_of(k) > isize::MIN);
            assert(isize::holds((a.math())(k)));
        }
    }
}

/// Batches with weights of type `i64` can be added where no sum of two weights of a key leaves
/// the type, and inverted where no weight is the smallest one; distinct keys can always be
/// taken.
pub proof fn i64_batches_can_be_operated_on<K: Ord + Clone>(a: OrdZSet<K, i64>, b: OrdZSet<K, i64>)
    requires
        lawful_order::<K>(),
        a.wf(),
        b.wf(),
    ensures
        (forall|k: K|
            i64::MIN <= #[trigger] a.weight_of(k) + b.weight_of(k) <= i64::MAX) ==> call_requires(
            <OrdZSet<K, i64> as MonoidValue>::add_by_ref,
            (&a, &b),
        ) && call_requires(OrdZSet::<K, i64>::add, (a, b)),
        (forall|k: K| #[trigger] a.weight_of(k) > i64::MIN) ==> call_requires(
            <OrdZSet<K, i64> as GroupValue>::neg_by_ref,
            (&a,),
        ) && call_requires(OrdZSet::<K, i64>::neg, (a,)),
        call_requires(OrdZSet::<K, i64>::distinct, (&a,)),
{
    let sum = <OrdZSet<K, i64> as MonoidValue>::add_math(a.math(), b.math());
    let inverse = <OrdZSet<K, i64> as GroupValue>::neg_math(a.math());
    a.math_is_held();
    assert forall|k: K| #[trigger] sum(k) == a.weight_of(k) + b.weight_of(k) by {
    }
    assert forall|k: K| #[trigger] inverse(k) == -a.weight_of(k) by {
    }
    if forall|k: K| #[trigger] a.weight_of(k) > i64::MIN {
        assert forall|k: K| i64::holds(#[trigger] inverse(k)) by {
            assert(a.weight_of(k) > i64::MIN);
            assert(i64::holds((a.math())(k)));
        }
    }
}

/// Batches with weights of type `i32` can be added where no sum of two weights of a key leaves
/// the type, and inverted where no weight is the smallest one; distinct keys can always be
/// taken.
pub proof fn i32_batches_can_be_operated_on<K: Ord + Clone>(a: OrdZSet<K, i32>, b: OrdZSet<K, i32>)
    requires
        lawful_order::<K>(),
        a.wf(),
        b.wf(),
    ensures
        (forall|k: K|
            i32::MIN <= #[trigger] a.weight_of(k) + b.weight_of(k) <= i32::MAX) ==> call_requires(
            <OrdZSet<K, i32> as MonoidValue>::add_by_ref,
            (&a, &b),
        ) && call_requires(OrdZSet::<K, i32>::add, (a, b)),
        (forall|k: K| #[trigger] a.weight_of(k) > i32::MIN) ==> call_requires(
            <OrdZSet<K, i32> as GroupValue>::neg_by_ref,
            (&a,),
        ) && call_requires(OrdZSet::<K, i32>::neg, (a,)),
        call_requires(OrdZSet::<K, i32>::distinct, (&a,)),
{
    let sum = <OrdZSet<K, i32> as MonoidValue>::add_math(a.math(), b.math());
    let inverse = <OrdZSet<K, i32> as GroupValue>::neg_math(a.math());
    a.math_is_held();
    assert forall|k: K| #[trigger] sum(k) == a.weight_of(k) + b.weight_of(k) by {
    }
    assert forall|k: K| #[trigger] inverse(k) == -a.weight_of(k) by {
    }
    if forall|k: K| #[trigger] a.weight_of(k) > i32::MIN {
        assert forall|k: K| i32::holds(#[trigger] inverse(k)) by {
            assert(a.weight_of(k) > i32::MIN);
            assert(i32::holds((a.math())(k)));
        }
    }
}

/// Batches are the same exactly when they give every key the same weight and cover equally
/// many times; a batch is empty exactly when it lists nothing.
pub proof fn equal_batches_have_equal_weights<K: Ord + Clone, R: MonoidValue>(
    a: OrdZSet<K, R>,
    b: OrdZSet<K, R>,
    r: bool,
    n: usize,
)
    requires
        OrdZSet::<K, R>::lawful(),
        a.wf(),
        b.wf(),
    ensures
        call_ensures(<OrdZSet<K, R> as MonoidValue>::equals, (&a, &b), r) ==> (r <==> forall|
            k: K,
        | #[trigger]
            a.weight_of(k) == b.weight_of(k)),
        call_ensures(OrdZSet::<K, R>::same, (&a, &b), r) && r ==> forall|k: K| #[trigger]
            a.weight_of(k) == b.weight_of(k),
        call_ensures(<OrdZSet<K, R> as MonoidValue>::is_zero, (&a,), r) ==> (r
            <==> a.layer.vals@.len() == 0),
        call_ensures(OrdZSet::<K, R>::is_empty, (&a,), r) ==> (r <==> a.layer.vals@.len() == 0),
        call_ensures(OrdZSet::<K, R>::len, (&a,), n) ==> n == a.layer.vals@.len(),
{
    if forall|k: K| #[trigger] a.weight_of(k) == b.weight_of(k) {
        assert forall|k: K| #[trigger] (a.math())(k) == (b.math())(k) by {
            assert(a.weight_of(k) == b.weight_of(k));
        }
        assert(a.math() =~= b.math());
    }
    if a.math() == b.math() {
        assert forall|k: K| #[trigger] a.weight_of(k) == b.weight_of(k) by {
            assert((a.math())(k) == (b.math())(k));
        }
    }
}

} // verus!
