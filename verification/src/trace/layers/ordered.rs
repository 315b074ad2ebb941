//! A layer of keys, each with a run of values in the layer below.

use crate::algebra::sums::{lemma_tally_concat, tally};
use crate::algebra::{GroupValue, MonoidValue};
use crate::order::{before, is_before, is_same, lawful_order, lemma_order, lemma_order_transitive};
use crate::trace::layers::rows::{
    is_indexed, lemma_row_absent, lemma_row_listed, lemma_row_push, lemma_rows_canonical, lemma_rows_take_absent,
    lemma_rows_take_next, lemma_same_rows, pair_count, pair_weight,
};
use crate::trace::layers::weighted::{
    is_weighted, lemma_neg_nonzero, lemma_neg_zero, lemma_weight_absent, lemma_weight_held,
    lemma_weight_listed, merge_runs, runs_hold, weight_at,
};
use vstd::prelude::*;

verus! {

/// Integers that offsets into a layer are stored as.
pub trait OrdOffset: Copy {
    /// The offset.
    spec fn offset(&self) -> nat;

    /// Whether an offset can be stored.
    spec fn fits(n: nat) -> bool;

    /// The first offset can be stored.
    proof fn zero_fits()
        ensures
            Self::fits(0),
    ;

    /// What is below an offset that can be stored can be stored.
    proof fn fits_below(m: nat, n: nat)
        requires
            Self::fits(n),
            m <= n,
        ensures
            Self::fits(m),
    ;

    /// A stored offset can be stored.
    proof fn offset_fits(&self)
        ensures
            Self::fits(self.offset()),
    ;

    /// Stores an offset.
    fn from_usize(n: usize) -> (r: Self)
        requires
            Self::fits(n as nat),
        ensures
            r.offset() == n,
    ;

    /// Reads an offset.
    fn into_usize(self) -> (r: usize)
        ensures
            r == self.offset(),
    ;
}

impl OrdOffset for usize {
    open spec fn offset(&self) -> nat {
        *self as nat
    }

    open spec fn fits(n: nat) -> bool {
        n <= usize::MAX
    }

    proof fn zero_fits() {
    }

    proof fn fits_below(m: nat, n: nat) {
    }

    proof fn offset_fits(&self) {
    }

    fn from_usize(n: usize) -> (r: Self) {
        n
    }

    fn into_usize(self) -> (r: usize) {
        self
    }
}

impl OrdOffset for u32 {
    open spec fn offset(&self) -> nat {
        *self as nat
    }

    open spec fn fits(n: nat) -> bool {
        n <= u32::MAX
    }

    proof fn zero_fits() {
    }

    proof fn fits_below(m: nat, n: nat) {
    }

    proof fn offset_fits(&self) {
    }

    fn from_usize(n: usize) -> (r: Self) {
        n as u32
    }

    fn into_usize(self) -> (r: usize) {
        self as usize
    }
}

/// The offsets cut `len` values into one run for each of `keys` keys, none of
/// them empty.
pub open spec fn cuts(offsets: Seq<int>, keys: nat, len: nat) -> bool {
    &&& offsets.len() == keys + 1
    &&& offsets[0] == 0
    &&& offsets[keys as int] == len
    &&& forall|i: int, j: int| 0 <= i < j <= keys ==> #[trigger] offsets[i] < #[trigger] offsets[j]
}

/// The keys, each with its run of values.
pub open spec fn rows_of<K, V, R>(
    keys: Seq<K>,
    offsets: Seq<int>,
    vals: Seq<(V, R)>,
) -> Seq<(K, Seq<(V, R)>)> {
    Seq::new(keys.len(), |i: int| (keys[i], vals.subrange(offsets[i], offsets[i + 1])))
}

/// Appending a key with a run of values appends a row.
proof fn lemma_append_row<K, V, R>(
    keys: Seq<K>,
    offsets: Seq<int>,
    vals: Seq<(V, R)>,
    key: K,
    tail: Seq<(V, R)>,
)
    requires
        cuts(offsets, keys.len(), vals.len()),
        tail.len() > 0,
    ensures
        cuts(
            offsets.push((vals.len() + tail.len()) as int),
            keys.len() + 1,
            vals.len() + tail.len(),
        ),
        rows_of(keys.push(key), offsets.push((vals.len() + tail.len()) as int), vals + tail)
            == rows_of(keys, offsets, vals).push((key, tail)),
{
    let keys1 = keys.push(key);
    let offsets1 = offsets.push((vals.len() + tail.len()) as int);
    let vals1 = vals + tail;
    let n = keys.len() as int;
    assert forall|i: int, j: int| 0 <= i < j <= n + 1 implies #[trigger] offsets1[i]
        < #[trigger] offsets1[j] by {
        if j == n + 1 {
            assert(offsets1[i] == offsets[i]);
            assert(offsets[i] <= offsets[n]);
        }
    }
    assert forall|i: int| 0 <= i <= n implies #[trigger] rows_of(keys1, offsets1, vals1)[i]
        == rows_of(keys, offsets, vals).push((key, tail))[i] by {
        if i < n {
            assert(offsets[i] < offsets[i + 1]);
            assert(0 <= offsets[i]) by {
                assert(i == 0 || offsets[0] < offsets[i]);
            }
            assert(offsets[i + 1] <= vals.len()) by {
                assert(i + 1 == n || offsets[i + 1] < offsets[n]);
            }
            assert(vals1.subrange(offsets1[i], offsets1[i + 1]) =~= vals.subrange(
                offsets[i],
                offsets[i + 1],
            ));
        } else {
            assert(vals1.subrange(offsets1[n], offsets1[n + 1]) =~= tail);
        }
    }
    assert(rows_of(keys1, offsets1, vals1) =~= rows_of(keys, offsets, vals).push((key, tail)));
}

/// Each run lies within the values.
pub proof fn lemma_run_bounds(offsets: Seq<int>, keys: nat, len: nat, i: int)
    requires
        cuts(offsets, keys, len),
        0 <= i < keys,
    ensures
        0 <= offsets[i] < offsets[i + 1] <= len,
{
    assert(i == 0 || offsets[0] < offsets[i]);
    assert(i + 1 == keys || offsets[i + 1] < offsets[keys as int]);
}

/// The rows hold as many pairs as there are values.
pub proof fn lemma_pair_count<K, V, R>(keys: Seq<K>, offsets: Seq<int>, vals: Seq<(V, R)>)
    requires
        cuts(offsets, keys.len(), vals.len()),
    ensures
        pair_count(rows_of(keys, offsets, vals)) == vals.len(),
    decreases keys.len(),
{
    let rows = rows_of(keys, offsets, vals);
    if keys.len() > 0 {
        let n = keys.len() - 1;
        lemma_run_bounds(offsets, keys.len(), vals.len(), n);
        let keys0 = keys.drop_last();
        let offsets0 = offsets.drop_last();
        let vals0 = vals.take(offsets[n]);
        assert(cuts(offsets0, keys0.len(), vals0.len()));
        lemma_pair_count(keys0, offsets0, vals0);
        assert forall|i: int| 0 <= i < n implies #[trigger] rows_of(keys0, offsets0, vals0)[i]
            == rows.drop_last()[i] by {
            lemma_run_bounds(offsets0, keys0.len(), vals0.len(), i);
            assert(vals0.subrange(offsets0[i], offsets0[i + 1]) =~= vals.subrange(
                offsets[i],
                offsets[i + 1],
            ));
        }
        assert(rows_of(keys0, offsets0, vals0) =~= rows.drop_last());
    }
}

/// Keys in increasing order, offsets of their runs, and the values of all runs
/// with their weights.
#[derive(Debug, Clone, PartialEq, Eq)]
pub struct OrderedLayer<K, V, R, O> {
    pub keys: Vec<K>,
    pub offs: Vec<O>,
    pub vals: Vec<(V, R)>,
}

impl<K: Ord + Clone, V: Ord + Clone, R: MonoidValue, O: OrdOffset> OrderedLayer<K, V, R, O> {
    /// The offsets of the runs.
    pub open spec fn offsets(&self) -> Seq<int> {
        Seq::new(self.offs@.len(), |i: int| self.offs@[i].offset() as int)
    }

    /// The keys, each with its run of values.
    pub open spec fn rows(&self) -> Seq<(K, Seq<(V, R)>)> {
        rows_of(self.keys@, self.offsets(), self.vals@)
    }

    /// The runs are cut well, and the rows are in order.
    pub open spec fn wf(&self) -> bool {
        &&& cuts(self.offsets(), self.keys@.len(), self.vals@.len())
        &&& is_indexed(self.rows())
    }

    /// The weight of the value `val` of `key`.
    pub open spec fn at(&self, key: K, val: V) -> R::Math {
        pair_weight(self.rows(), key, val)
    }

    /// The layer without keys.
    pub fn empty() -> (r: Self)
        ensures
            r.wf(),
            r.rows().len() == 0,
            r.vals@.len() == 0,
    {
        proof {
            O::zero_fits();
        }
        let mut offs: Vec<O> = Vec::new();
        offs.push(O::from_usize(0));
        OrderedLayer { keys: Vec::new(), offs, vals: Vec::new() }
    }

    /// The bounds of the run of the key at position `i`.
    pub fn bounds(&self, i: usize) -> (r: (usize, usize))
        requires
            self.wf(),
            i < self.keys@.len(),
        ensures
            r.0 == self.offsets()[i as int],
            r.1 == self.offsets()[i + 1],
            r.0 < r.1 <= self.vals@.len(),
            self.vals@.subrange(r.0 as int, r.1 as int) == self.rows()[i as int].1,
    {
        proof {
            lemma_run_bounds(self.offsets(), self.keys@.len(), self.vals@.len(), i as int);
        }
        let count: usize = self.offs.len();
        assert(i + 1 < count);
        (self.offs[i].into_usize(), self.offs[i + 1].into_usize())
    }

    /// Whether two layers give every pair the same weight.
    pub fn equals(&self, other: &Self) -> (r: bool)
        requires
            lawful_order::<K>(),
            lawful_order::<V>(),
            R::lawful(),
            self.wf(),
            other.wf(),
        ensures
            r == (forall|k: K, v: V| #[trigger] self.at(k, v) == other.at(k, v)),
    {
        let ghost s = self.rows();
        let ghost t = other.rows();
        let ghost same = forall|k: K, v: V| #[trigger] self.at(k, v) == other.at(k, v);
        proof {
            if same {
                assert forall|k: K, v: V| #[trigger]
                    pair_weight(s, k, v) == pair_weight(t, k, v) by {
                    assert(self.at(k, v) == other.at(k, v));
                }
                lemma_rows_canonical(s, t);
            }
        }
        if self.keys.len() != other.keys.len() {
            return false;
        }
        let mut i: usize = 0;
        while i < self.keys.len()
            invariant
                lawful_order::<K>(),
                lawful_order::<V>(),
                R::lawful(),
                self.wf(),
                other.wf(),
                s == self.rows(),
                t == other.rows(),
                s.len() == t.len(),
                i <= self.keys@.len(),
                same == (forall|k: K, v: V| #[trigger] self.at(k, v) == other.at(k, v)),
                same ==> forall|j: int|
                    #![trigger s[j]]
                    0 <= j < s.len() ==> s[j].0 == t[j].0 && s[j].1.len() == t[j].1.len(),
                same ==> forall|j: int, x: int|
                    #![trigger s[j].1[x]]
                    0 <= j < s.len() && 0 <= x < s[j].1.len() ==> s[j].1[x].0 == t[j].1[x].0
                        && s[j].1[x].1.math() == t[j].1[x].1.math(),
                forall|j: int|
                    #![trigger t[j]]
                    0 <= j < i ==> t[j].0 == s[j].0 && t[j].1.len() == s[j].1.len(),
                forall|j: int, x: int|
                    #![trigger t[j].1[x]]
                    0 <= j < i && 0 <= x < s[j].1.len() ==> t[j].1[x].0 == s[j].1[x].0
                        && t[j].1[x].1.math() == s[j].1[x].1.math(),
            decreases self.keys@.len() - i,
        {
            let ghost p = i as int;
            let (from1, to1) = self.bounds(i);
            let (from2, to2) = other.bounds(i);
            assert(s[p].0 == self.keys@[p] && t[p].0 == other.keys@[p]);
            if !is_same(&self.keys[i], &other.keys[i]) || to1 - from1 != to2 - from2 {
                return false;
            }
            let mut x: usize = 0;
            while x < to1 - from1
                invariant
                    lawful_order::<V>(),
                    R::lawful(),
                    self.wf(),
                    other.wf(),
                    s == self.rows(),
                    t == other.rows(),
                    0 <= p < s.len(),
                    s.len() == t.len(),
                    from1 <= to1 <= self.vals@.len(),
                    from2 <= to2 <= other.vals@.len(),
                    to1 - from1 == to2 - from2,
                    s[p].1 == self.vals@.subrange(from1 as int, to1 as int),
                    t[p].1 == other.vals@.subrange(from2 as int, to2 as int),
                    x <= to1 - from1,
                    same == (forall|k: K, v: V| #[trigger] self.at(k, v) == other.at(k, v)),
                    same ==> forall|j: int, y: int|
                        #![trigger s[j].1[y]]
                        0 <= j < s.len() && 0 <= y < s[j].1.len() ==> s[j].1[y].0 == t[j].1[y].0
                            && s[j].1[y].1.math() == t[j].1[y].1.math(),
                    forall|y: int|
                        #![trigger t[p].1[y]]
                        0 <= y < x ==> t[p].1[y].0 == s[p].1[y].0 && t[p].1[y].1.math()
                            == s[p].1[y].1.math(),
                decreases to1 - from1 - x,
            {
                let a = &self.vals[from1 + x];
                let b = &other.vals[from2 + x];
                assert(*a == s[p].1[x as int]);
                assert(*b == t[p].1[x as int]);
                assert(is_weighted(s[p].1) && is_weighted(t[p].1));
                if !is_same(&a.0, &b.0) || !a.1.equals(&b.1) {
                    return false;
                }
                x += 1;
            }
            i += 1;
        }
        proof {
            assert forall|k: K, v: V| #[trigger] self.at(k, v) == other.at(k, v) by {
                lemma_same_rows(s, t, |m: R::Math| m, k, v);
            }
        }
        true
    }

    /// The number of keys.
    pub fn keys(&self) -> (r: usize)
        ensures
            r == self.keys@.len(),
    {
        self.keys.len()
    }

    /// The number of pairs of a key and a value.
    pub fn tuples(&self) -> (r: usize)
        requires
            self.wf(),
        ensures
            r == self.vals@.len(),
            r == pair_count(self.rows()),
    {
        proof {
            lemma_pair_count(self.keys@, self.offsets(), self.vals@);
        }
        self.vals.len()
    }

    /// Another layer with the same pairs and weights.
    pub fn duplicate(&self) -> (r: Self)
        requires
            lawful_order::<K>(),
            lawful_order::<V>(),
            R::lawful(),
            self.wf(),
        ensures
            r.wf(),
            r.vals@.len() == self.vals@.len(),
            forall|k: K, v: V| #[trigger] r.at(k, v) == self.at(k, v),
    {
        let (keys, offs) = self.copy_index();
        let mut vals: Vec<(V, R)> = Vec::new();
        let mut i: usize = 0;
        proof {
            lemma_vals_valid(*self);
        }
        while i < self.vals.len()
            invariant
                lawful_order::<V>(),
                R::lawful(),
                i <= self.vals@.len(),
                vals@.len() == i,
                forall|j: int|
                    0 <= j < self.vals@.len() ==> (#[trigger] self.vals@[j]).1.wf()
                        && self.vals@[j].1.math() != R::zero_math(),
                forall|j: int|
                    #![trigger vals@[j]]
                    0 <= j < i ==> vals@[j].0 == self.vals@[j].0 && vals@[j].1.wf()
                        && vals@[j].1.math() == self.vals@[j].1.math(),
            decreases self.vals@.len() - i,
        {
            vals.push((self.vals[i].0.clone(), self.vals[i].1.duplicate()));
            i += 1;
        }
        let r = OrderedLayer { keys, offs, vals };
        proof {
            lemma_mapped_layer(*self, r, |m: R::Math| m);
        }
        r
    }

    /// Copies of the keys and the offsets.
    fn copy_index(&self) -> (r: (Vec<K>, Vec<O>))
        requires
            lawful_order::<K>(),
            self.wf(),
        ensures
            r.0@ == self.keys@,
            r.1@ == self.offs@,
    {
        let mut keys: Vec<K> = Vec::new();
        let mut i: usize = 0;
        while i < self.keys.len()
            invariant
                lawful_order::<K>(),
                i <= self.keys@.len(),
                keys@ =~= self.keys@.take(i as int),
            decreases self.keys@.len() - i,
        {
            keys.push(self.keys[i].clone());
            i += 1;
        }
        let mut offs: Vec<O> = Vec::new();
        let mut j: usize = 0;
        while j < self.offs.len()
            invariant
                j <= self.offs@.len(),
                offs@ =~= self.offs@.take(j as int),
            decreases self.offs@.len() - j,
        {
            offs.push(self.offs[j]);
            j += 1;
        }
        (keys, offs)
    }

    /// The same rows with offsets of another type.
    pub fn with_offsets<P: OrdOffset>(self) -> (r: OrderedLayer<K, V, R, P>)
        requires
            self.wf(),
            P::fits(self.vals@.len()),
        ensures
            r.wf(),
            r.rows() == self.rows(),
            r.vals@ == self.vals@,
            r.keys@ == self.keys@,
    {
        let mut offs: Vec<P> = Vec::new();
        let mut i: usize = 0;
        while i < self.offs.len()
            invariant
                self.wf(),
                P::fits(self.vals@.len()),
                i <= self.offs@.len(),
                offs@.len() == i,
                forall|j: int| 0 <= j < i ==> (#[trigger] offs@[j]).offset() == self.offsets()[j],
            decreases self.offs@.len() - i,
        {
            proof {
                let n = self.keys@.len() as int;
                assert(i == n || self.offsets()[i as int] < self.offsets()[n]);
                P::fits_below(self.offsets()[i as int] as nat, self.vals@.len());
            }
            offs.push(P::from_usize(self.offs[i].into_usize()));
            i += 1;
        }
        let r = OrderedLayer { keys: self.keys, offs, vals: self.vals };
        proof {
            assert(r.offsets() =~= self.offsets());
        }
        r
    }

    /// The sum of two layers.
    pub fn merge(&self, other: &Self) -> (r: OrderedLayer<K, V, R, usize>)
        requires
            lawful_order::<K>(),
            lawful_order::<V>(),
            R::lawful(),
            self.wf(),
            other.wf(),
            forall|k: K, v: V| R::holds(R::add_math(#[trigger] self.at(k, v), other.at(k, v))),
        ensures
            r.wf(),
            forall|k: K, v: V| #[trigger]
                r.at(k, v) == R::add_math(self.at(k, v), other.at(k, v)),
            r.vals@.len() <= self.vals@.len() + other.vals@.len(),
    {
        let ghost s = self.rows();
        let ghost t = other.rows();
        let mut out: OrderedLayer<K, V, R, usize> = OrderedLayer::empty();
        let mut i: usize = 0;
        let mut j: usize = 0;
        proof {
            R::zero_is_neutral(R::zero_math());
            assert(s.take(0) =~= Seq::empty());
            assert(t.take(0) =~= Seq::empty());
            assert forall|k: K, v: V|
                R::holds(R::add_math(#[trigger] pair_weight(s, k, v), pair_weight(t, k, v))) by {
                assert(R::holds(R::add_math(self.at(k, v), other.at(k, v))));
            }
            assert forall|k: K, v: V| #[trigger]
                pair_weight(out.rows(), k, v) == R::add_math(
                    pair_weight(s.take(0), k, v),
                    pair_weight(t.take(0), k, v),
                ) by {
                lemma_row_absent(out.rows(), k);
                lemma_row_absent(s.take(0), k);
                lemma_row_absent(t.take(0), k);
            }
        }
        while i < self.keys.len() || j < other.keys.len()
            invariant
                lawful_order::<K>(),
                lawful_order::<V>(),
                R::lawful(),
                self.wf(),
                other.wf(),
                s == self.rows(),
                t == other.rows(),
                i <= self.keys@.len(),
                j <= other.keys@.len(),
                forall|k: K, v: V|
                    R::holds(R::add_math(#[trigger] pair_weight(s, k, v), pair_weight(t, k, v))),
                out.wf(),
                out.vals@.len() <= self.offsets()[i as int] + other.offsets()[j as int],
                forall|k: K, v: V| #[trigger]
                    pair_weight(out.rows(), k, v) == R::add_math(
                        pair_weight(s.take(i as int), k, v),
                        pair_weight(t.take(j as int), k, v),
                    ),
                forall|x: int, y: int|
                    0 <= x < out.rows().len() && i <= y < s.len() ==> before(
                        (#[trigger] out.rows()[x]).0,
                        (#[trigger] s[y]).0,
                    ),
                forall|x: int, y: int|
                    0 <= x < out.rows().len() && j <= y < t.len() ==> before(
                        (#[trigger] out.rows()[x]).0,
                        (#[trigger] t[y]).0,
                    ),
                forall|x: int, y: int|
                    0 <= x < i && j <= y < t.len() ==> before(
                        (#[trigger] s[x]).0,
                        (#[trigger] t[y]).0,
                    ),
                forall|x: int, y: int|
                    0 <= x < j && i <= y < s.len() ==> before(
                        (#[trigger] t[x]).0,
                        (#[trigger] s[y]).0,
                    ),
            decreases (self.keys@.len() - i) + (other.keys@.len() - j),
        {
            let ghost p = i as int;
            let ghost q = j as int;
            let ghost rows = out.rows();
            if j >= other.keys.len() || (i < self.keys.len() && is_before(
                &self.keys[i],
                &other.keys[j],
            )) {
                assert(self.keys@[p] == s[p].0);
                assert(q < t.len() ==> other.keys@[q] == t[q].0);
                proof {
                    lemma_rows_take_next(s, p);
                    lemma_rows_take_absent(t, q, s[p].0);
                    assert forall|y: int| q <= y < t.len() implies before(
                        s[p].0,
                        (#[trigger] t[y]).0,
                    ) by {
                        if y > q {
                            lemma_order_transitive(s[p].0, t[q].0, t[y].0);
                        }
                    }
                }
                let (from, to) = self.bounds(i);
                proof {
                    lemma_sum_with_nothing(s[p].1, other.vals@.subrange(0, 0));
                }
                let Ghost(tail) = out.push_sum(&self.keys[i], &self.vals, from, to, &other.vals, 0, 0);
                i += 1;
                proof {
                    lemma_weight_listed(s[p].1, 0);
                    lemma_tail_kept(s[p].1, tail);
                    assert forall|k: K, v: V| #[trigger]
                        pair_weight(out.rows(), k, v) == R::add_math(
                            pair_weight(s.take(i as int), k, v),
                            pair_weight(t.take(j as int), k, v),
                        ) by {
                        assert(pair_weight(rows, k, v) == R::add_math(
                            pair_weight(s.take(p), k, v),
                            pair_weight(t.take(q), k, v),
                        ));
                        assert(pair_weight(s.take(p + 1), k, v) == if k == s[p].0 {
                            weight_at(s[p].1, v)
                        } else {
                            pair_weight(s.take(p), k, v)
                        });
                        if k == s[p].0 {
                            assert(weight_at(tail, v) == weight_at(s[p].1, v));
                            assert(pair_weight(t.take(q), s[p].0, v) == R::zero_math());
                            R::add_commutes(weight_at(tail, v), R::zero_math());
                            R::zero_is_neutral(weight_at(tail, v));
                        }
                    }
                }
            } else if i >= self.keys.len() || is_before(&other.keys[j], &self.keys[i]) {
                assert(other.keys@[q] == t[q].0);
                assert(p < s.len() ==> self.keys@[p] == s[p].0);
                proof {
                    lemma_rows_take_next(t, q);
                    lemma_rows_take_absent(s, p, t[q].0);
                    assert forall|y: int| p <= y < s.len() implies before(
                        t[q].0,
                        (#[trigger] s[y]).0,
                    ) by {
                        if y > p {
                            lemma_order_transitive(t[q].0, s[p].0, s[y].0);
                        }
                    }
                }
                let (from, to) = other.bounds(j);
                proof {
                    lemma_sum_with_nothing(t[q].1, self.vals@.subrange(0, 0));
                }
                let Ghost(tail) = out.push_sum(&other.keys[j], &other.vals, from, to, &self.vals, 0, 0);
                j += 1;
                proof {
                    lemma_weight_listed(t[q].1, 0);
                    lemma_tail_kept(t[q].1, tail);
                    assert forall|k: K, v: V| #[trigger]
                        pair_weight(out.rows(), k, v) == R::add_math(
                            pair_weight(s.take(i as int), k, v),
                            pair_weight(t.take(j as int), k, v),
                        ) by {
                        assert(pair_weight(rows, k, v) == R::add_math(
                            pair_weight(s.take(p), k, v),
                            pair_weight(t.take(q), k, v),
                        ));
                        assert(pair_weight(t.take(q + 1), k, v) == if k == t[q].0 {
                            weight_at(t[q].1, v)
                        } else {
                            pair_weight(t.take(q), k, v)
                        });
                        if k == t[q].0 {
                            assert(weight_at(tail, v) == weight_at(t[q].1, v));
                            assert(pair_weight(s.take(p), t[q].0, v) == R::zero_math());
                            R::zero_is_neutral(weight_at(tail, v));
                        }
                    }
                }
            } else {
                assert(self.keys@[p] == s[p].0);
                assert(other.keys@[q] == t[q].0);
                proof {
                    lemma_order(s[p].0, t[q].0);
                    lemma_rows_take_next(s, p);
                    lemma_rows_take_next(t, q);
                    lemma_rows_take_absent(s, p, t[q].0);
                    lemma_rows_take_absent(t, q, s[p].0);
                    lemma_row_listed(s, p);
                    lemma_row_listed(t, q);
                    R::zero_is_neutral(R::zero_math());
                    assert forall|v: V|
                        R::holds(
                            R::add_math(#[trigger] weight_at(s[p].1, v), weight_at(t[q].1, v)),
                        ) by {
                        assert(pair_weight(s, s[p].0, v) == weight_at(s[p].1, v));
                        assert(pair_weight(t, t[q].0, v) == weight_at(t[q].1, v));
                    }
                }
                let (from1, to1) = self.bounds(i);
                let (from2, to2) = other.bounds(j);
                let Ghost(tail) = out.push_sum(
                    &self.keys[i],
                    &self.vals,
                    from1,
                    to1,
                    &other.vals,
                    from2,
                    to2,
                );
                i += 1;
                j += 1;
                proof {
                    assert forall|k: K, v: V| #[trigger]
                        pair_weight(out.rows(), k, v) == R::add_math(
                            pair_weight(s.take(i as int), k, v),
                            pair_weight(t.take(j as int), k, v),
                        ) by {
                        assert(pair_weight(rows, k, v) == R::add_math(
                            pair_weight(s.take(p), k, v),
                            pair_weight(t.take(q), k, v),
                        ));
                        assert(pair_weight(s.take(p + 1), k, v) == if k == s[p].0 {
                            weight_at(s[p].1, v)
                        } else {
                            pair_weight(s.take(p), k, v)
                        });
                        assert(pair_weight(t.take(q + 1), k, v) == if k == t[q].0 {
                            weight_at(t[q].1, v)
                        } else {
                            pair_weight(t.take(q), k, v)
                        });
                        if k == s[p].0 {
                            assert(weight_at(tail, v) == R::add_math(
                                weight_at(s[p].1, v),
                                weight_at(t[q].1, v),
                            ));
                            assert(pair_weight(s.take(p), s[p].0, v) == R::zero_math());
                            assert(pair_weight(t.take(q), t[q].0, v) == R::zero_math());
                            if tail.len() == 0 {
                                lemma_weight_absent(tail, v);
                            }
                        }
                    }
                }
            }
        }
        proof {
            assert(s.take(s.len() as int) =~= s);
            assert(t.take(t.len() as int) =~= t);
            assert forall|k: K, v: V| #[trigger]
                out.at(k, v) == R::add_math(self.at(k, v), other.at(k, v)) by {
                assert(pair_weight(out.rows(), k, v) == R::add_math(
                    pair_weight(s, k, v),
                    pair_weight(t, k, v),
                ));
            }
        }
        out
    }
}

/// The values of a valid layer have valid weights other than zero.
proof fn lemma_vals_valid<K: Ord + Clone, V: Ord + Clone, R: MonoidValue, O: OrdOffset>(
    layer: OrderedLayer<K, V, R, O>,
)
    requires
        layer.wf(),
    ensures
        forall|j: int|
            0 <= j < layer.vals@.len() ==> (#[trigger] layer.vals@[j]).1.wf()
                && layer.vals@[j].1.math() != R::zero_math(),
{
    assert forall|j: int| 0 <= j < layer.vals@.len() implies (#[trigger] layer.vals@[j]).1.wf()
        && layer.vals@[j].1.math() != R::zero_math() by {
        let i = run_of(layer.offsets(), layer.keys@.len(), layer.vals@.len(), j);
        lemma_run_bounds(layer.offsets(), layer.keys@.len(), layer.vals@.len(), i);
        let row = layer.rows()[i];
        assert(is_weighted(row.1));
        assert(row.1[j - layer.offsets()[i]] == layer.vals@[j]);
    }
}

/// The run that a position lies in.
proof fn run_of(offsets: Seq<int>, keys: nat, len: nat, j: int) -> (i: int)
    requires
        cuts(offsets, keys, len),
        0 <= j < len,
    ensures
        0 <= i < keys,
        offsets[i] <= j < offsets[i + 1],
{
    run_below(offsets, keys, keys as int, j)
}

/// The run, among the first `n`, that a position lies in.
proof fn run_below(offsets: Seq<int>, keys: nat, n: int, j: int) -> (i: int)
    requires
        offsets.len() == keys + 1,
        offsets[0] == 0,
        0 <= n <= keys,
        0 <= j < offsets[n],
    ensures
        0 <= i < n,
        offsets[i] <= j < offsets[i + 1],
    decreases n,
{
    if offsets[n - 1] <= j {
        n - 1
    } else {
        run_below(offsets, keys, n - 1, j)
    }
}

/// A layer with the keys and offsets of another one, whose weights are images of
/// the other's weights under a map that keeps zero and nothing else at zero.
proof fn lemma_mapped_layer<K: Ord + Clone, V: Ord + Clone, R: MonoidValue, O: OrdOffset>(
    a: OrderedLayer<K, V, R, O>,
    b: OrderedLayer<K, V, R, O>,
    f: spec_fn(R::Math) -> R::Math,
)
    requires
        lawful_order::<K>(),
        lawful_order::<V>(),
        a.wf(),
        b.keys@ == a.keys@,
        b.offs@ == a.offs@,
        b.vals@.len() == a.vals@.len(),
        f(R::zero_math()) == R::zero_math(),
        forall|m: R::Math| m != R::zero_math() ==> #[trigger] f(m) != R::zero_math(),
        forall|j: int|
            #![trigger b.vals@[j]]
            0 <= j < a.vals@.len() ==> b.vals@[j].0 == a.vals@[j].0 && b.vals@[j].1.wf()
                && b.vals@[j].1.math() == f(a.vals@[j].1.math()),
    ensures
        b.wf(),
        forall|k: K, v: V| #[trigger] b.at(k, v) == f(a.at(k, v)),
{
    let s = a.rows();
    let t = b.rows();
    assert(b.offsets() =~= a.offsets());
    assert forall|i: int| 0 <= i < t.len() implies (#[trigger] t[i]).0 == s[i].0 && t[i].1.len()
        == s[i].1.len() && t[i].1.len() > 0 && is_weighted(t[i].1) by {
        lemma_run_bounds(a.offsets(), a.keys@.len(), a.vals@.len(), i);
        assert(is_weighted(s[i].1));
        assert forall|x: int| 0 <= x < t[i].1.len() implies (#[trigger] t[i].1[x]).0 == s[i].1[x].0
            && t[i].1[x].1.wf() && t[i].1[x].1.math() == f(s[i].1[x].1.math())
            && t[i].1[x].1.math() != R::zero_math() by {
            assert(t[i].1[x] == b.vals@[a.offsets()[i] + x]);
            assert(s[i].1[x] == a.vals@[a.offsets()[i] + x]);
        }
        assert forall|x: int, y: int| 0 <= x < y < t[i].1.len() implies before(
            (#[trigger] t[i].1[x]).0,
            (#[trigger] t[i].1[y]).0,
        ) by {
            assert(before(s[i].1[x].0, s[i].1[y].0));
        }
    }
    assert forall|i: int, j: int| 0 <= i < j < t.len() implies before(
        (#[trigger] t[i]).0,
        (#[trigger] t[j]).0,
    ) by {
        assert(before(s[i].0, s[j].0));
    }
    assert forall|i: int, x: int|
        #![trigger t[i].1[x]]
        0 <= i < s.len() && 0 <= x < s[i].1.len() implies t[i].1[x].0 == s[i].1[x].0
        && t[i].1[x].1.math() == f(s[i].1[x].1.math()) by {
        lemma_run_bounds(a.offsets(), a.keys@.len(), a.vals@.len(), i);
        assert(t[i].1[x] == b.vals@[a.offsets()[i] + x]);
        assert(s[i].1[x] == a.vals@[a.offsets()[i] + x]);
    }
    assert forall|k: K, v: V| #[trigger] b.at(k, v) == f(a.at(k, v)) by {
        lemma_same_rows(s, t, f, k, v);
    }
}

impl<K: Ord + Clone, V: Ord + Clone, R: GroupValue, O: OrdOffset> OrderedLayer<K, V, R, O> {
    /// The layer with every weight inverted.
    pub fn neg_by_ref(&self) -> (r: Self)
        requires
            lawful_order::<K>(),
            lawful_order::<V>(),
            R::lawful(),
            self.wf(),
            forall|k: K, v: V| R::holds(R::neg_math(#[trigger] self.at(k, v))),
        ensures
            r.wf(),
            r.vals@.len() == self.vals@.len(),
            forall|k: K, v: V| #[trigger] r.at(k, v) == R::neg_math(self.at(k, v)),
    {
        let (keys, offs) = self.copy_index();
        let mut vals: Vec<(V, R)> = Vec::new();
        let mut i: usize = 0;
        proof {
            lemma_vals_valid(*self);
            assert forall|j: int| 0 <= j < self.vals@.len() implies R::holds(
                R::neg_math((#[trigger] self.vals@[j]).1.math()),
            ) by {
                let x = run_of(self.offsets(), self.keys@.len(), self.vals@.len(), j);
                lemma_run_bounds(self.offsets(), self.keys@.len(), self.vals@.len(), x);
                let row = self.rows()[x];
                let y = j - self.offsets()[x];
                assert(row.1[y] == self.vals@[j]);
                lemma_row_listed(self.rows(), x);
                lemma_weight_listed(row.1, y);
                assert(self.at(row.0, row.1[y].0) == row.1[y].1.math());
            }
        }
        while i < self.vals.len()
            invariant
                lawful_order::<V>(),
                R::lawful(),
                i <= self.vals@.len(),
                vals@.len() == i,
                forall|j: int|
                    0 <= j < self.vals@.len() ==> (#[trigger] self.vals@[j]).1.wf() && R::holds(
                        R::neg_math(self.vals@[j].1.math()),
                    ),
                forall|j: int|
                    #![trigger vals@[j]]
                    0 <= j < i ==> vals@[j].0 == self.vals@[j].0 && vals@[j].1.wf()
                        && vals@[j].1.math() == R::neg_math(self.vals@[j].1.math()),
            decreases self.vals@.len() - i,
        {
            vals.push((self.vals[i].0.clone(), self.vals[i].1.neg_by_ref()));
            i += 1;
        }
        let r = OrderedLayer { keys, offs, vals };
        proof {
            let f = |m: R::Math| R::neg_math(m);
            lemma_neg_zero::<R>();
            assert forall|m: R::Math| m != R::zero_math() implies #[trigger] f(m) != R::zero_math() by {
                lemma_neg_nonzero::<R>(m);
            }
            lemma_mapped_layer(*self, r, f);
        }
        r
    }
}

/// A list keeps its weights when nothing is added to it.
proof fn lemma_sum_with_nothing<V: Ord + Clone, R: MonoidValue>(
    run: Seq<(V, R)>,
    nothing: Seq<(V, R)>,
)
    requires
        R::lawful(),
        is_weighted(run),
        nothing.len() == 0,
    ensures
        is_weighted(nothing),
        forall|v: V|
            #![trigger weight_at(run, v)]
            R::add_math(weight_at(run, v), weight_at(nothing, v)) == weight_at(run, v) && R::holds(
                weight_at(run, v),
            ),
{
    assert forall|v: V|
        #![trigger weight_at(run, v)]
        R::add_math(weight_at(run, v), weight_at(nothing, v)) == weight_at(run, v) && R::holds(
            weight_at(run, v),
        ) by {
        lemma_weight_absent(nothing, v);
        R::add_commutes(weight_at(run, v), R::zero_math());
        R::zero_is_neutral(weight_at(run, v));
        lemma_weight_held(run, v);
    }
}

/// A list with the weights of a list that is not empty is not empty.
proof fn lemma_tail_kept<V: Ord + Clone, R: MonoidValue>(run: Seq<(V, R)>, tail: Seq<(V, R)>)
    requires
        lawful_order::<V>(),
        is_weighted(run),
        run.len() > 0,
        forall|v: V| #[trigger] weight_at(tail, v) == weight_at(run, v),
    ensures
        tail.len() > 0,
{
    lemma_weight_listed(run, 0);
    let v = run[0].0;
    assert(weight_at(tail, v) == weight_at(run, v));
    if tail.len() == 0 {
        lemma_weight_absent(tail, v);
    }
}

impl<K: Ord + Clone, V: Ord + Clone, R: MonoidValue> OrderedLayer<K, V, R, usize> {
    /// Appends a key with the sum of two runs, unless they cancel out.
    fn push_sum(
        &mut self,
        key: &K,
        a: &Vec<(V, R)>,
        from1: usize,
        to1: usize,
        b: &Vec<(V, R)>,
        from2: usize,
        to2: usize,
    ) -> (tail: Ghost<Seq<(V, R)>>)
        requires
            lawful_order::<K>(),
            lawful_order::<V>(),
            R::lawful(),
            old(self).wf(),
            forall|i: int|
                0 <= i < old(self).rows().len() ==> before(
                    (#[trigger] old(self).rows()[i]).0,
                    *key,
                ),
            from1 <= to1 <= a@.len(),
            from2 <= to2 <= b@.len(),
            is_weighted(a@.subrange(from1 as int, to1 as int)),
            is_weighted(b@.subrange(from2 as int, to2 as int)),
            forall|v: V|
                R::holds(
                    R::add_math(
                        #[trigger] weight_at(a@.subrange(from1 as int, to1 as int), v),
                        weight_at(b@.subrange(from2 as int, to2 as int), v),
                    ),
                ),
        ensures
            final(self).wf(),
            final(self).rows() == if tail@.len() > 0 {
                old(self).rows().push((*key, tail@))
            } else {
                old(self).rows()
            },
            tail@.len() > 0 ==> forall|k: K, v: V| #[trigger]
                pair_weight(final(self).rows(), k, v) == if k == *key {
                    weight_at(tail@, v)
                } else {
                    pair_weight(old(self).rows(), k, v)
                },
            forall|v: V| #[trigger] pair_weight(old(self).rows(), *key, v) == R::zero_math(),
            is_weighted(tail@),
            final(self).vals@.len() <= old(self).vals@.len() + (to1 - from1) + (to2 - from2),
            forall|v: V| #[trigger]
                weight_at(tail@, v) == R::add_math(
                    weight_at(a@.subrange(from1 as int, to1 as int), v),
                    weight_at(b@.subrange(from2 as int, to2 as int), v),
                ),
    {
        let start = self.vals.len();
        let ghost keys = self.keys@;
        let ghost offsets = self.offsets();
        let ghost vals = self.vals@;
        let ghost rows = self.rows();
        let Ghost(tail) = merge_runs(a, from1, to1, b, from2, to2, &mut self.vals);
        proof {
            assert forall|i: int| 0 <= i < rows.len() implies (#[trigger] rows[i]).0 != *key by {
                lemma_order(rows[i].0, *key);
            }
            lemma_row_absent(rows, *key);
        }
        if self.vals.len() > start {
            let copy = key.clone();
            self.keys.push(copy);
            let end = self.vals.len();
            self.offs.push(end);
            proof {
                lemma_append_row(keys, offsets, vals, *key, tail);
                assert(self.offsets() =~= offsets.push((vals.len() + tail.len()) as int));
                lemma_row_push(rows, (*key, tail));
            }
        } else {
            assert(self.vals@ =~= vals);
        }
        Ghost(tail)
    }
}

/// Sorts a run of updates by key and value, adds up the updates of each pair and
/// drops the pairs whose updates cancel out.
pub fn consolidate_rows<K: Ord + Clone, V: Ord + Clone, R: MonoidValue>(
    items: &Vec<((K, V), R)>,
    from: usize,
    to: usize,
) -> (r: OrderedLayer<K, V, R, usize>)
    requires
        lawful_order::<K>(),
        lawful_order::<V>(),
        R::lawful(),
        from <= to <= items@.len(),
        forall|i: int| 0 <= i < items@.len() ==> (#[trigger] items@[i]).1.wf(),
        runs_hold(items@),
    ensures
        r.wf(),
        r.vals@.len() <= to - from,
        forall|k: K, v: V| #[trigger]
            r.at(k, v) == tally(items@.subrange(from as int, to as int), (k, v)),
    decreases to - from,
{
    let ghost run = items@.subrange(from as int, to as int);
    if to - from == 0 {
        let out: OrderedLayer<K, V, R, usize> = OrderedLayer::empty();
        assert forall|k: K, v: V| #[trigger] out.at(k, v) == tally(run, (k, v)) by {
            lemma_row_absent(out.rows(), k);
        }
        out
    } else if to - from == 1 {
        let mut out: OrderedLayer<K, V, R, usize> = OrderedLayer::empty();
        let item = &items[from];
        assert(run[0] == *item);
        let ghost rows = out.rows();
        proof {
            assert(run.drop_last() =~= Seq::empty());
            R::zero_is_neutral(item.1.math());
            reveal_with_fuel(tally, 2);
        }
        if !item.1.is_zero() {
            let mut vals: Vec<(V, R)> = Vec::new();
            vals.push((item.0.1.clone(), item.1.duplicate()));
            proof {
                assert(vals@.subrange(0, 1) =~= vals@);
                assert(is_weighted(vals@));
                lemma_sum_with_nothing(vals@, vals@.subrange(0, 0));
            }
            let Ghost(tail) = out.push_sum(&item.0.0, &vals, 0, 1, &vals, 0, 0);
            proof {
                lemma_tail_kept(vals@, tail);
                lemma_weight_listed(vals@, 0);
            }
            assert forall|k: K, v: V| #[trigger] out.at(k, v) == tally(run, (k, v)) by {
                lemma_row_absent(rows, k);
                if k == item.0.0 {
                    assert(out.at(k, v) == weight_at(tail, v));
                    assert(weight_at(tail, v) == weight_at(vals@, v));
                    if v != item.0.1 {
                        lemma_weight_absent(vals@, v);
                    }
                }
            }
        } else {
            assert forall|k: K, v: V| #[trigger] out.at(k, v) == tally(run, (k, v)) by {
                lemma_row_absent(rows, k);
            }
        }
        out
    } else {
        let mid = from + (to - from) / 2;
        let a = consolidate_rows(items, from, mid);
        let b = consolidate_rows(items, mid, to);
        proof {
            let s = items@.subrange(from as int, mid as int);
            let t = items@.subrange(mid as int, to as int);
            assert(s + t =~= run);
            assert forall|k: K, v: V|
                R::holds(R::add_math(#[trigger] a.at(k, v), b.at(k, v))) && R::add_math(
                    a.at(k, v),
                    b.at(k, v),
                ) == tally(run, (k, v)) by {
                lemma_tally_concat(s, t, (k, v));
            }
        }
        a.merge(&b)
    }
}

/// Offsets are stored and read as they are.
pub proof fn offsets_are_read_back(n: usize, a: usize, b: u32, r: usize)
    ensures
        call_requires(<usize as OrdOffset>::from_usize, (n,)),
        n <= u32::MAX ==> call_requires(<u32 as OrdOffset>::from_usize, (n,)),
        call_ensures(<usize as OrdOffset>::from_usize, (n,), a) ==> a == n,
        call_ensures(<u32 as OrdOffset>::from_usize, (n,), b) ==> b == n,
        call_ensures(<usize as OrdOffset>::into_usize, (a,), r) ==> r == a,
        call_ensures(<u32 as OrdOffset>::into_usize, (b,), r) ==> r == b,
{
}

} // verus!
