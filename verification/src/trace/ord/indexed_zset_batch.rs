//! Immutable indexed Z-sets: finite collections of keys, each with values that
//! have weights.

use crate::algebra::sums::{given_to, integers_are_added_up, tally};
use crate::algebra::{GroupValue, MonoidValue};
use crate::order::{before, is_before, lawful_order, lemma_order_transitive};
use crate::text::{cat3, trim_end, trimmed, Text};
use crate::trace::layers::ordered::{
    consolidate_rows, cuts, lemma_pair_count, lemma_run_bounds, rows_of, OrdOffset, OrderedLayer,
};
use crate::trace::layers::ordered_values::OrderedLayerValues;
use crate::trace::layers::rows::{
    is_indexed, lemma_count_within, lemma_listed_pairs, lemma_pair_held, lemma_row_absent, lemma_row_first, lemma_row_listed,
    lemma_row_nonzero, lemma_rows_canonical, listed_pairs, pair_count, pair_weight,
};
use crate::trace::layers::weighted::{
    is_weighted, lemma_neg_zero, lemma_tally_listed, lemma_weight_listed, lemma_weight_nonzero, runs_hold, seek, weight_at,
};
use core::marker::PhantomData;
use std::rc::Rc;
use vstd::prelude::*;
use vstd::std_specs::cmp::PartialOrdSpec;
use vstd::std_specs::convert::FromSpec;
use vstd::string::StringExecFns;

verus! {

/// An immutable collection of update tuples.
#[derive(Debug, Clone, PartialEq, Eq)]
pub struct OrdIndexedZSet<K, V, R, O> where K: Ord, V: Ord, R: Clone, O: OrdOffset {
    /// The keys, their values and the weights.
    pub layer: OrderedLayer<K, V, R, O>,
}

/// The rows have the given weights.
pub open spec fn rows_have<K, V, R: MonoidValue>(
    rows: Seq<(K, Seq<(V, R)>)>,
    m: spec_fn((K, V)) -> R::Math,
) -> bool {
    forall|k: K, v: V| #[trigger] pair_weight(rows, k, v) == m((k, v))
}

/// The offsets of any rows with the given weights can be stored.
pub open spec fn offsets_hold<K: Ord, V: Ord, R: MonoidValue, O: OrdOffset>(
    m: spec_fn((K, V)) -> R::Math,
) -> bool {
    forall|rows: Seq<(K, Seq<(V, R)>)>|
        is_indexed(rows) && rows_have(rows, m) ==> O::fits(#[trigger] pair_count(rows))
}

impl<K: Ord + Clone, V: Ord + Clone, R: MonoidValue, O: OrdOffset> OrdIndexedZSet<K, V, R, O> {
    /// The keys, each with its values and their weights.
    pub open spec fn rows(&self) -> Seq<(K, Seq<(V, R)>)> {
        self.layer.rows()
    }

    /// The weight of the value `val` of `key`.
    pub open spec fn weight_of(&self, key: K, val: V) -> R::Math {
        pair_weight(self.rows(), key, val)
    }

    /// The batch that holds a layer.
    pub fn from_layer(layer: OrderedLayer<K, V, R, O>) -> (r: Self)
        ensures
            r.layer == layer,
    {
        OrdIndexedZSet { layer }
    }

    /// A shared batch that holds a layer.
    pub fn shared_from_layer(layer: OrderedLayer<K, V, R, O>) -> (r: Rc<Self>)
        ensures
            r.layer == layer,
    {
        Rc::new(Self::from_layer(layer))
    }

    /// The batch without keys.
    pub fn empty(_time: ()) -> (r: Self)
        ensures
            r.layer.wf(),
            r.rows().len() == 0,
            forall|k: K, v: V| #[trigger] r.weight_of(k, v) == R::zero_math(),
    {
        let r = OrdIndexedZSet { layer: OrderedLayer::empty() };
        assert forall|k: K, v: V| #[trigger] r.weight_of(k, v) == R::zero_math() by {
            lemma_row_absent(r.rows(), k);
        }
        r
    }

    /// The number of keys.
    pub fn key_count(&self) -> (r: usize)
        ensures
            r == self.rows().len(),
    {
        self.layer.keys()
    }

    /// The number of pairs of a key and a value.
    pub fn len(&self) -> (r: usize)
        requires
            self.layer.wf(),
        ensures
            r == pair_count(self.rows()),
    {
        self.layer.tuples()
    }

    /// Whether the batch has no pairs.
    pub fn is_empty(&self) -> (r: bool)
        requires
            self.layer.wf(),
        ensures
            r == (pair_count(self.rows()) == 0),
    {
        self.len() == 0
    }

    /// The number of keys.
    pub fn num_entries_shallow(&self) -> (r: usize)
        ensures
            r == self.rows().len(),
    {
        self.layer.keys()
    }

    /// The number of pairs of a key and a value.
    pub fn num_entries_deep(&self) -> (r: usize)
        requires
            self.layer.wf(),
        ensures
            r == pair_count(self.rows()),
    {
        self.layer.tuples()
    }

    /// The times at which the batch starts: the only time there is.
    pub fn lower(&self) -> (r: Vec<()>)
        ensures
            r@ == seq![()],
    {
        let mut times: Vec<()> = Vec::new();
        times.push(());
        times
    }

    /// The times at which the batch ends: never.
    pub fn upper(&self) -> (r: Vec<()>)
        ensures
            r@ == Seq::<()>::empty(),
    {
        Vec::new()
    }

    /// The item of a key and a value.
    pub fn item_from(key: K, val: V) -> (r: (K, V))
        ensures
            r == (key, val),
    {
        (key, val)
    }

    /// Moving to an earlier time changes nothing: the batch has no times.
    pub fn recede_to(&mut self, _frontier: &())
        ensures
            *final(self) == *old(self),
    {
    }

    /// A cursor at the first value of the first key.
    pub fn cursor(&self) -> (r: OrdIndexedZSetCursor<'_, K, V, R, O>)
        requires
            self.layer.wf(),
        ensures
            r.wf(),
            r.rows() == self.rows(),
            r.key_index() == 0,
            r.val_index() == 0,
    {
        let mut r = OrdIndexedZSetCursor { storage: &self.layer, pos: 0, val: 0, first: 0, last: 0 };
        r.enter();
        r
    }

    /// Gives up the batch for its keys and values.
    pub fn consumer(self) -> (r: OrdIndexedZSetConsumer<K, V, R, O>)
        requires
            self.layer.wf(),
        ensures
            r.remaining() == self.rows(),
    {
        OrdIndexedZSetConsumer::new(self.layer)
    }

    /// Starts the merge of two batches.
    pub fn begin_merge(&self, other: &Self) -> (r: OrdIndexedZSetMerger<K, V, R, O>)
        ensures
            r.is_fresh(),
    {
        OrdIndexedZSetMerger::new_merger(self, other)
    }

    /// The batch in which each pair has the sum of the weights that `items` gives
    /// to it.
    pub fn from_tuples(_time: (), items: Vec<((K, V), R)>) -> (r: Self)
        requires
            Self::lawful(),
            forall|i: int| 0 <= i < items@.len() ==> (#[trigger] items@[i]).1.wf(),
            runs_hold(items@),
            offsets_hold::<K, V, R, O>(|kv: (K, V)| tally(items@, kv)),
        ensures
            r.wf(),
            forall|k: K, v: V| #[trigger] r.weight_of(k, v) == tally(items@, (k, v)),
    {
        let ghost m = |kv: (K, V)| tally(items@, kv);
        assert(items@.subrange(0, items@.len() as int) =~= items@);
        let layer = consolidate_rows(&items, 0, items.len());
        proof {
            assert forall|k: K, v: V| #[trigger] pair_weight(layer.rows(), k, v) == m((k, v)) by {
                assert(layer.at(k, v) == tally(items@, (k, v)));
            }
            assert(rows_have(layer.rows(), m));
            lemma_pair_count(layer.keys@, layer.offsets(), layer.vals@);
        }
        let r = OrdIndexedZSet { layer: layer.with_offsets::<O>() };
        assert forall|k: K, v: V| #[trigger] r.weight_of(k, v) == tally(items@, (k, v)) by {
            assert(layer.at(k, v) == tally(items@, (k, v)));
        }
        r
    }

    /// The sum of two batches.
    pub fn add(self, rhs: Self) -> (r: Self)
        requires
            Self::lawful(),
            self.wf(),
            rhs.wf(),
            Self::holds(Self::add_math(self.math(), rhs.math())),
        ensures
            r.wf(),
            r.math() == Self::add_math(self.math(), rhs.math()),
    {
        self.add_by_ref(&rhs)
    }

    /// Adds `rhs` to the batch.
    pub fn add_assign(&mut self, rhs: Self)
        requires
            Self::lawful(),
            old(self).wf(),
            rhs.wf(),
            Self::holds(Self::add_math(old(self).math(), rhs.math())),
        ensures
            final(self).wf(),
            final(self).math() == Self::add_math(old(self).math(), rhs.math()),
    {
        self.add_assign_by_ref(&rhs);
    }
}

impl<K: Ord + Clone, V: Ord + Clone + From<()>, R: MonoidValue, O: OrdOffset> OrdIndexedZSet<
    K,
    V,
    R,
    O,
> {
    /// The batch in which each key has one value, the one made from the unit, with
    /// the sum of the weights that `keys` gives to the key.
    pub fn from_keys(time: (), keys: Vec<(K, R)>) -> (r: Self)
        requires
            Self::lawful(),
            V::obeys_from_spec(),
            forall|i: int| 0 <= i < keys@.len() ==> (#[trigger] keys@[i]).1.wf(),
            runs_hold(keys@),
            offsets_hold::<K, V, R, O>(
                |kv: (K, V)|
                    if kv.1 == V::from_spec(()) {
                        tally(keys@, kv.0)
                    } else {
                        R::zero_math()
                    },
            ),
        ensures
            r.wf(),
            forall|k: K, v: V| #[trigger]
                r.weight_of(k, v) == if v == V::from_spec(()) {
                    tally(keys@, k)
                } else {
                    R::zero_math()
                },
    {
        let ghost unit = V::from_spec(());
        let ghost m = |kv: (K, V)|
            if kv.1 == unit {
                tally(keys@, kv.0)
            } else {
                R::zero_math()
            };
        let mut items: Vec<((K, V), R)> = Vec::new();
        let mut i: usize = 0;
        while i < keys.len()
            invariant
                Self::lawful(),
                V::obeys_from_spec(),
                unit == V::from_spec(()),
                forall|i: int| 0 <= i < keys@.len() ==> (#[trigger] keys@[i]).1.wf(),
                i <= keys@.len(),
                items@.len() == i,
                forall|j: int|
                    #![trigger items@[j]]
                    0 <= j < i ==> items@[j].0 == (keys@[j].0, unit) && items@[j].1.wf()
                        && items@[j].1.math() == keys@[j].1.math(),
            decreases keys@.len() - i,
        {
            items.push(((keys[i].0.clone(), V::from(())), keys[i].1.duplicate()));
            i += 1;
        }
        proof {
            assert forall|i: int, j: int, kv: (K, V)| 0 <= i <= j <= items@.len() implies R::holds(
                #[trigger] tally(items@.subrange(i, j), kv),
            ) by {
                lemma_tally_paired(keys@.subrange(i, j), items@.subrange(i, j), unit, kv);
                R::zero_is_held();
            }
            let n = |kv: (K, V)| tally(items@, kv);
            assert forall|kv: (K, V)| #[trigger] n(kv) == m(kv) by {
                lemma_tally_paired(keys@, items@, unit, kv);
            }
            assert(n =~= m);
        }
        let r = Self::from_tuples(time, items);
        proof {
            assert forall|k: K, v: V| #[trigger]
                r.weight_of(k, v) == if v == unit {
                    tally(keys@, k)
                } else {
                    R::zero_math()
                } by {
                assert(r.weight_of(k, v) == tally(items@, (k, v)));
                lemma_tally_paired(keys@, items@, unit, (k, v));
            }
        }
        r
    }
}

/// Pairing every key with the same value keeps the sums for that value.
proof fn lemma_tally_paired<K, V, R: MonoidValue>(
    keys: Seq<(K, R)>,
    items: Seq<((K, V), R)>,
    unit: V,
    kv: (K, V),
)
    requires
        keys.len() == items.len(),
        forall|j: int|
            #![trigger items[j]]
            0 <= j < keys.len() ==> items[j].0 == (keys[j].0, unit) && items[j].1.math()
                == keys[j].1.math(),
    ensures
        tally(items, kv) == if kv.1 == unit {
            tally(keys, kv.0)
        } else {
            R::zero_math()
        },
    decreases keys.len(),
{
    if keys.len() > 0 {
        let n = keys.len() - 1;
        assert(items[n] == items.last());
        assert forall|j: int|
            #![trigger items.drop_last()[j]]
            0 <= j < n implies items.drop_last()[j].0 == (keys.drop_last()[j].0, unit)
            && items.drop_last()[j].1.math() == keys.drop_last()[j].1.math() by {
            assert(items.drop_last()[j] == items[j]);
        }
        lemma_tally_paired(keys.drop_last(), items.drop_last(), unit, kv);
    }
}

impl<K: Ord + Clone, V: Ord + Clone, R: MonoidValue, O: OrdOffset> Default for OrdIndexedZSet<
    K,
    V,
    R,
    O,
> {
    fn default() -> (r: Self)
        ensures
            r.layer.wf(),
            r.rows().len() == 0,
            forall|k: K, v: V| #[trigger] r.weight_of(k, v) == R::zero_math(),
    {
        Self::empty(())
    }
}

/// The length of the first line of a text, its line end left out.
pub open spec fn line_length(text: Seq<char>) -> int
    decreases text.len(),
{
    if text.len() == 0 || text[0] == '\n' {
        0
    } else {
        1 + line_length(text.skip(1))
    }
}

/// The text with a prefix in front of each line; a line of white space gets the
/// prefix without the white space at its end.
pub open spec fn indented(text: Seq<char>, prefix: Seq<char>) -> Seq<char>
    decreases text.len(),
{
    let line = text.take(line_length(text));
    let front = if trimmed(line).len() == 0 {
        trim_end(prefix)
    } else {
        prefix
    };
    if text.len() == 0 {
        Seq::empty()
    } else if 0 <= line_length(text) < text.len() {
        front + line + "\n"@ + indented(text.skip(line_length(text) + 1), prefix)
    } else {
        front + line
    }
}

/// Calls `textwrap::indent`, which puts the prefix in front of each line of the
/// text, and strips the end of the prefix where the line is blank.
#[verifier::external_body]
fn indent(text: &str, prefix: &str) -> (r: String)
    ensures
        r@ == indented(text@, prefix@),
{
    textwrap::indent(text, prefix)
}

/// The text of values with their weights, one line for each.
pub open spec fn values_text<V: Text, R: Text>(row: Seq<(V, R)>) -> Seq<char>
    decreases row.len(),
{
    if row.len() == 0 {
        Seq::empty()
    } else {
        values_text(row.drop_last()) + row.last().0.text() + " -> "@ + row.last().1.text() + "\n"@
    }
}

/// The text of rows: each key on a line, and its values indented below it.
pub open spec fn rows_text<K: Text, V: Text, R: Text>(rows: Seq<(K, Seq<(V, R)>)>) -> Seq<char>
    decreases rows.len(),
{
    if rows.len() == 0 {
        Seq::empty()
    } else {
        rows_text(rows.drop_last()) + rows.last().0.text() + ":\n"@ + indented(
            values_text(rows.last().1),
            "    "@,
        ) + "\n"@
    }
}

/// The text of a batch around the indented text of its layer.
pub fn layer_text(indented_layer: &str) -> (r: String)
    ensures
        r@ == "layer:\n"@ + indented_layer@ + "\n"@,
{
    cat3("layer:\n", indented_layer, "\n")
}

impl<
    K: Ord + Clone + Text,
    V: Ord + Clone + Text,
    R: MonoidValue + Text,
    O: OrdOffset,
> OrdIndexedZSet<K, V, R, O> {
    /// The text of the values of the key at position `i`.
    fn row_text(&self, i: usize) -> (r: String)
        requires
            self.layer.wf(),
            i < self.rows().len(),
        ensures
            r@ == values_text(self.rows()[i as int].1),
    {
        let (from, to) = self.layer.bounds(i);
        let ghost row = self.rows()[i as int].1;
        let mut out = String::new();
        let mut j: usize = from;
        assert(row.take(0) =~= Seq::empty());
        while j < to
            invariant
                from <= j <= to <= self.layer.vals@.len(),
                row == self.layer.vals@.subrange(from as int, to as int),
                out@ == values_text(row.take(j - from)),
            decreases to - j,
        {
            assert(row.take(j + 1 - from).drop_last() =~= row.take(j - from));
            assert(row[j - from] == self.layer.vals@[j as int]);
            let val = self.layer.vals[j].0.to_text();
            let weight = self.layer.vals[j].1.to_text();
            out.append(val.as_str());
            out.append(" -> ");
            out.append(weight.as_str());
            out.append("\n");
            j += 1;
        }
        assert(row.take(row.len() as int) =~= row);
        out
    }

    /// The text of the batch.
    pub fn to_text(&self) -> (r: String)
        requires
            self.layer.wf(),
        ensures
            r@ == "layer:\n"@ + indented(rows_text(self.rows()), "    "@) + "\n"@,
    {
        let ghost rows = self.rows();
        let mut out = String::new();
        let mut i: usize = 0;
        assert(rows.take(0) =~= Seq::empty());
        while i < self.layer.keys.len()
            invariant
                self.layer.wf(),
                rows == self.rows(),
                i <= self.layer.keys@.len(),
                out@ == rows_text(rows.take(i as int)),
            decreases self.layer.keys@.len() - i,
        {
            assert(rows.take(i + 1).drop_last() =~= rows.take(i as int));
            let key = self.layer.keys[i].to_text();
            let values = self.row_text(i);
            let block = indent(values.as_str(), "    ");
            out.append(key.as_str());
            out.append(":\n");
            out.append(block.as_str());
            out.append("\n");
            i += 1;
        }
        assert(rows.take(rows.len() as int) =~= rows);
        let block = indent(out.as_str(), "    ");
        layer_text(block.as_str())
    }
}

/// A pair is listed, at the position of its key and the position of its value,
/// exactly where its weight is not zero.
pub proof fn rows_list_the_support<
    K: Ord + Clone,
    V: Ord + Clone,
    R: MonoidValue,
    O: OrdOffset,
>(a: OrdIndexedZSet<K, V, R, O>, k: K, v: V)
    requires
        OrdIndexedZSet::<K, V, R, O>::lawful(),
        a.wf(),
    ensures
        a.weight_of(k, v) != R::zero_math() <==> exists|i: int, j: int|
            0 <= i < a.rows().len() && 0 <= j < a.rows()[i].1.len() && a.rows()[i].0 == k && (
            #[trigger] a.rows()[i].1[j]).0 == v,
{
    let rows = a.rows();
    if a.weight_of(k, v) != R::zero_math() {
        let i = lemma_row_nonzero(rows, k, v);
        let j = lemma_weight_nonzero(rows[i].1, v);
        assert(rows[i].1[j].0 == v);
    } else {
        assert forall|i: int, j: int|
            0 <= i < rows.len() && 0 <= j < rows[i].1.len() && rows[i].0 == k implies (
        #[trigger] rows[i].1[j]).0 != v by {
            lemma_row_listed(rows, i);
            lemma_weight_listed(rows[i].1, j);
            if rows[i].1[j].0 == v {
                assert(pair_weight(rows, k, v) == weight_at(rows[i].1, v));
            }
        }
    }
}

/// Batches with the same weights have the same rows: what a cursor or a consumer
/// hands out depends on the weights alone.
pub proof fn rows_are_unique<K: Ord + Clone, V: Ord + Clone, R: MonoidValue, O: OrdOffset>(
    a: OrdIndexedZSet<K, V, R, O>,
    b: OrdIndexedZSet<K, V, R, O>,
)
    requires
        OrdIndexedZSet::<K, V, R, O>::lawful(),
        a.wf(),
        b.wf(),
        a.math() == b.math(),
    ensures
        a.rows().len() == b.rows().len(),
        pair_count(a.rows()) == pair_count(b.rows()),
        forall|i: int|
            #![trigger a.rows()[i]]
            0 <= i < a.rows().len() ==> a.rows()[i].0 == b.rows()[i].0 && a.rows()[i].1.len()
                == b.rows()[i].1.len(),
        forall|i: int, j: int|
            #![trigger a.rows()[i].1[j]]
            0 <= i < a.rows().len() && 0 <= j < a.rows()[i].1.len() ==> a.rows()[i].1[j].0
                == b.rows()[i].1[j].0 && a.rows()[i].1[j].1.math() == b.rows()[i].1[j].1.math(),
{
    let m = a.math();
    let n = b.math();
    assert forall|k: K, v: V| #[trigger]
        pair_weight(a.rows(), k, v) == pair_weight(b.rows(), k, v) by {
        assert(m((k, v)) == pair_weight(a.rows(), k, v));
        assert(n((k, v)) == pair_weight(b.rows(), k, v));
    }
    lemma_rows_canonical(a.rows(), b.rows());
}

/// Adding a batch and then its inverse leads back.
pub proof fn negation_undoes_addition<
    K: Ord + Clone,
    V: Ord + Clone,
    R: GroupValue,
    O: OrdOffset,
>(a: spec_fn((K, V)) -> R::Math, b: spec_fn((K, V)) -> R::Math)
    ensures
        OrdIndexedZSet::<K, V, R, O>::add_math(
            OrdIndexedZSet::<K, V, R, O>::add_math(a, b),
            OrdIndexedZSet::<K, V, R, O>::neg_math(b),
        ) == a,
{
    let minus = OrdIndexedZSet::<K, V, R, O>::neg_math(b);
    OrdIndexedZSet::<K, V, R, O>::add_associates(a, b, minus);
    OrdIndexedZSet::<K, V, R, O>::neg_cancels(b);
    OrdIndexedZSet::<K, V, R, O>::add_commutes(a, OrdIndexedZSet::<K, V, R, O>::zero_math());
    OrdIndexedZSet::<K, V, R, O>::zero_is_neutral(a);
}

/// The sum of two batches can be held where its weights can, and where the offsets
/// can be stored for as many pairs as both batches have.
pub proof fn sums_can_be_held<K: Ord + Clone, V: Ord + Clone, R: MonoidValue, O: OrdOffset>(
    a: OrdIndexedZSet<K, V, R, O>,
    b: OrdIndexedZSet<K, V, R, O>,
)
    requires
        OrdIndexedZSet::<K, V, R, O>::lawful(),
        a.wf(),
        b.wf(),
        forall|k: K, v: V| R::holds(R::add_math(#[trigger] a.weight_of(k, v), b.weight_of(k, v))),
        O::fits(pair_count(a.rows()) + pair_count(b.rows())),
    ensures
        OrdIndexedZSet::<K, V, R, O>::holds(
            OrdIndexedZSet::<K, V, R, O>::add_math(a.math(), b.math()),
        ),
{
    let m = OrdIndexedZSet::<K, V, R, O>::add_math(a.math(), b.math());
    assert forall|kv: (K, V)| R::holds(#[trigger] m(kv)) by {
        assert(R::holds(R::add_math(a.weight_of(kv.0, kv.1), b.weight_of(kv.0, kv.1))));
    }
    lemma_listed_pairs(a.rows());
    lemma_listed_pairs(b.rows());
    let s = listed_pairs(a.rows()).to_set();
    let t = listed_pairs(b.rows()).to_set();
    listed_pairs(a.rows()).unique_seq_to_set();
    listed_pairs(b.rows()).unique_seq_to_set();
    vstd::seq_lib::seq_to_set_is_finite(listed_pairs(a.rows()));
    vstd::seq_lib::seq_to_set_is_finite(listed_pairs(b.rows()));
    vstd::set_lib::lemma_set_union_finite_iff(s, t);
    vstd::set_lib::lemma_len_union(s, t);
    assert forall|rows: Seq<(K, Seq<(V, R)>)>|
        is_indexed(rows) && rows_have(rows, m) implies O::fits(#[trigger] pair_count(rows)) by {
        assert forall|k: K, v: V|
            #[trigger] pair_weight(rows, k, v) != R::zero_math() implies s.union(t).contains(
            (k, v),
        ) by {
            assert(pair_weight(rows, k, v) == m((k, v)));
            R::zero_is_neutral(R::zero_math());
            if a.weight_of(k, v) != R::zero_math() {
                assert(listed_pairs(a.rows()).contains((k, v)));
            } else {
                assert(b.weight_of(k, v) != R::zero_math());
                assert(listed_pairs(b.rows()).contains((k, v)));
            }
        }
        lemma_count_within(rows, s.union(t));
        O::fits_below(pair_count(rows), pair_count(a.rows()) + pair_count(b.rows()));
    }
}

/// The inverse of a batch can be held where its weights can.
pub proof fn inverses_can_be_held<K: Ord + Clone, V: Ord + Clone, R: GroupValue, O: OrdOffset>(
    a: OrdIndexedZSet<K, V, R, O>,
)
    requires
        OrdIndexedZSet::<K, V, R, O>::lawful(),
        a.wf(),
        forall|k: K, v: V| R::holds(R::neg_math(#[trigger] a.weight_of(k, v))),
    ensures
        OrdIndexedZSet::<K, V, R, O>::holds(OrdIndexedZSet::<K, V, R, O>::neg_math(a.math())),
{
    let m = OrdIndexedZSet::<K, V, R, O>::neg_math(a.math());
    assert forall|kv: (K, V)| R::holds(#[trigger] m(kv)) by {
        assert(R::holds(R::neg_math(a.weight_of(kv.0, kv.1))));
    }
    lemma_listed_pairs(a.rows());
    let s = listed_pairs(a.rows()).to_set();
    listed_pairs(a.rows()).unique_seq_to_set();
    vstd::seq_lib::seq_to_set_is_finite(listed_pairs(a.rows()));
    a.math_is_held();
    lemma_neg_zero::<R>();
    assert forall|rows: Seq<(K, Seq<(V, R)>)>|
        is_indexed(rows) && rows_have(rows, m) implies O::fits(#[trigger] pair_count(rows)) by {
        assert forall|k: K, v: V|
            #[trigger] pair_weight(rows, k, v) != R::zero_math() implies s.contains((k, v)) by {
            assert(pair_weight(rows, k, v) == m((k, v)));
            assert(a.weight_of(k, v) != R::zero_math());
            assert(listed_pairs(a.rows()).contains((k, v)));
        }
        lemma_count_within(rows, s);
        lemma_pair_count(a.layer.keys@, a.layer.offsets(), a.layer.vals@);
        let n = a.layer.keys@.len() as int;
        a.layer.offs@[n].offset_fits();
        O::fits_below(pair_count(rows), pair_count(a.rows()));
    }
}

/// The offsets of the batch of a list of tuples can be stored where they can be for
/// as many pairs as there are tuples.
pub proof fn offsets_of_tuples_hold<K: Ord + Clone, V: Ord + Clone, R: MonoidValue, O: OrdOffset>(
    items: Seq<((K, V), R)>,
)
    requires
        OrdIndexedZSet::<K, V, R, O>::lawful(),
        O::fits(items.len()),
    ensures
        offsets_hold::<K, V, R, O>(|kv: (K, V)| tally(items, kv)),
{
    let m = |kv: (K, V)| tally(items, kv);
    let keys = Seq::new(items.len(), |i: int| items[i].0);
    let s = keys.to_set();
    vstd::seq_lib::seq_to_set_is_finite(keys);
    keys.lemma_cardinality_of_set();
    assert forall|rows: Seq<(K, Seq<(V, R)>)>|
        is_indexed(rows) && rows_have(rows, m) implies O::fits(#[trigger] pair_count(rows)) by {
        assert forall|k: K, v: V|
            #[trigger] pair_weight(rows, k, v) != R::zero_math() implies s.contains((k, v)) by {
            assert(pair_weight(rows, k, v) == m((k, v)));
            lemma_tally_listed(items, (k, v));
            let i = choose|i: int| 0 <= i < items.len() && (#[trigger] items[i]).0 == (k, v);
            assert(keys[i] == (k, v));
        }
        lemma_count_within(rows, s);
        O::fits_below(pair_count(rows), items.len());
    }
}

/// The batch in which each pair has the sum of the weights that `items` gives to
/// it.
pub fn indexed_zset<K: Ord + Clone, V: Ord + Clone, R: MonoidValue>(
    items: Vec<((K, V), R)>,
) -> (r: OrdIndexedZSet<K, V, R, usize>)
    requires
        OrdIndexedZSet::<K, V, R, usize>::lawful(),
        forall|i: int| 0 <= i < items@.len() ==> (#[trigger] items@[i]).1.wf(),
        runs_hold(items@),
    ensures
        r.wf(),
        forall|k: K, v: V| #[trigger] r.weight_of(k, v) == tally(items@, (k, v)),
{
    assert(items@.subrange(0, items@.len() as int) =~= items@);
    let layer = consolidate_rows(&items, 0, items.len());
    let r = OrdIndexedZSet { layer };
    assert forall|k: K, v: V| #[trigger] r.weight_of(k, v) == tally(items@, (k, v)) by {
        assert(layer.at(k, v) == tally(items@, (k, v)));
    }
    r
}

/// The sums at all pairs can be held where the sum of two batches can.
proof fn lemma_sums_hold<K: Ord + Clone, V: Ord + Clone, R: MonoidValue, O: OrdOffset>(
    a: &OrdIndexedZSet<K, V, R, O>,
    b: &OrdIndexedZSet<K, V, R, O>,
)
    requires
        OrdIndexedZSet::<K, V, R, O>::holds(
            OrdIndexedZSet::<K, V, R, O>::add_math(a.math(), b.math()),
        ),
    ensures
        forall|k: K, v: V| R::holds(R::add_math(#[trigger] a.layer.at(k, v), b.layer.at(k, v))),
{
    let sum = OrdIndexedZSet::<K, V, R, O>::add_math(a.math(), b.math());
    assert forall|k: K, v: V|
        R::holds(R::add_math(#[trigger] a.layer.at(k, v), b.layer.at(k, v))) by {
        assert(R::holds(sum((k, v))));
    }
}

/// A layer with the sums of two batches at all pairs has the sum of the batches,
/// and offsets that can be stored.
proof fn lemma_sum_layer<
    K: Ord + Clone,
    V: Ord + Clone,
    R: MonoidValue,
    O: OrdOffset,
>(
    a: &OrdIndexedZSet<K, V, R, O>,
    b: &OrdIndexedZSet<K, V, R, O>,
    r: &OrderedLayer<K, V, R, usize>,
)
    requires
        OrdIndexedZSet::<K, V, R, O>::holds(
            OrdIndexedZSet::<K, V, R, O>::add_math(a.math(), b.math()),
        ),
        r.wf(),
        forall|k: K, v: V| #[trigger]
            r.at(k, v) == R::add_math(a.layer.at(k, v), b.layer.at(k, v)),
    ensures
        rows_have(r.rows(), OrdIndexedZSet::<K, V, R, O>::add_math(a.math(), b.math())),
        O::fits(r.vals@.len()),
{
    let sum = OrdIndexedZSet::<K, V, R, O>::add_math(a.math(), b.math());
    assert forall|k: K, v: V| #[trigger] pair_weight(r.rows(), k, v) == sum((k, v)) by {
        assert(r.at(k, v) == R::add_math(a.layer.at(k, v), b.layer.at(k, v)));
    }
    assert(rows_have(r.rows(), sum));
    lemma_pair_count(r.keys@, r.offsets(), r.vals@);
}

impl<K: Ord + Clone, V: Ord + Clone, R: MonoidValue, O: OrdOffset> MonoidValue for OrdIndexedZSet<
    K,
    V,
    R,
    O,
> {
    type Math = spec_fn((K, V)) -> R::Math;

    open spec fn lawful() -> bool {
        lawful_order::<K>() && lawful_order::<V>() && R::lawful()
    }

    open spec fn wf(&self) -> bool {
        self.layer.wf()
    }

    open spec fn math(&self) -> spec_fn((K, V)) -> R::Math {
        |kv: (K, V)| pair_weight(self.layer.rows(), kv.0, kv.1)
    }

    open spec fn zero_math() -> spec_fn((K, V)) -> R::Math {
        |kv: (K, V)| R::zero_math()
    }

    open spec fn add_math(
        a: spec_fn((K, V)) -> R::Math,
        b: spec_fn((K, V)) -> R::Math,
    ) -> spec_fn((K, V)) -> R::Math {
        |kv: (K, V)| R::add_math(a(kv), b(kv))
    }

    open spec fn holds(m: spec_fn((K, V)) -> R::Math) -> bool {
        &&& forall|kv: (K, V)| R::holds(#[trigger] m(kv))
        &&& offsets_hold::<K, V, R, O>(m)
    }

    proof fn add_commutes(a: spec_fn((K, V)) -> R::Math, b: spec_fn((K, V)) -> R::Math) {
        assert forall|k: (K, V)| #[trigger] R::add_math(a(k), b(k)) == R::add_math(b(k), a(k)) by {
            R::add_commutes(a(k), b(k));
        }
        assert(Self::add_math(a, b) =~= Self::add_math(b, a));
    }

    proof fn add_associates(
        a: spec_fn((K, V)) -> R::Math,
        b: spec_fn((K, V)) -> R::Math,
        c: spec_fn((K, V)) -> R::Math,
    ) {
        assert forall|k: (K, V)| #[trigger]
            R::add_math(R::add_math(a(k), b(k)), c(k)) == R::add_math(
                a(k),
                R::add_math(b(k), c(k)),
            ) by {
            R::add_associates(a(k), b(k), c(k));
        }
        assert(Self::add_math(Self::add_math(a, b), c) =~= Self::add_math(
            a,
            Self::add_math(b, c),
        ));
    }

    proof fn zero_is_neutral(a: spec_fn((K, V)) -> R::Math) {
        assert forall|k: (K, V)| #[trigger] R::add_math(R::zero_math(), a(k)) == a(k) by {
            R::zero_is_neutral(a(k));
        }
        assert(Self::add_math(Self::zero_math(), a) =~= a);
    }

    proof fn math_is_held(&self) {
        let m = self.math();
        let own = self.layer.rows();
        assert forall|kv: (K, V)| R::holds(#[trigger] m(kv)) by {
            lemma_pair_held(own, kv.0, kv.1);
        }
        assert forall|rows: Seq<(K, Seq<(V, R)>)>|
            is_indexed(rows) && rows_have(rows, m) implies O::fits(#[trigger] pair_count(rows)) by {
            assert forall|k: K, v: V| #[trigger]
                pair_weight(rows, k, v) == pair_weight(own, k, v) by {
                assert(m((k, v)) == pair_weight(own, k, v));
            }
            lemma_rows_canonical(rows, own);
            lemma_pair_count(self.layer.keys@, self.layer.offsets(), self.layer.vals@);
            let n = self.layer.keys@.len() as int;
            self.layer.offs@[n].offset_fits();
        }
    }

    proof fn zero_is_held() {
        let m = Self::zero_math();
        R::zero_is_held();
        O::zero_fits();
        assert forall|rows: Seq<(K, Seq<(V, R)>)>|
            is_indexed(rows) && rows_have(rows, m) implies O::fits(#[trigger] pair_count(rows)) by {
            if rows.len() > 0 {
                lemma_row_first(rows, 0);
                assert(pair_weight(rows, rows[0].0, rows[0].1[0].0) == m(
                    (rows[0].0, rows[0].1[0].0),
                ));
            }
        }
    }

    fn zero() -> (r: Self)
        ensures
            r.rows().len() == 0,
    {
        let r = Self::empty(());
        proof {
            assert forall|kv: (K, V)| #[trigger] (r.math())(kv) == R::zero_math() by {
                assert(r.weight_of(kv.0, kv.1) == R::zero_math());
            }
            assert(r.math() =~= Self::zero_math());
        }
        r
    }

    fn is_zero(&self) -> (r: bool)
        ensures
            r == (self.rows().len() == 0),
    {
        let r = self.layer.keys() == 0;
        proof {
            let rows = self.rows();
            if r {
                assert forall|kv: (K, V)| #[trigger] (self.math())(kv) == R::zero_math() by {
                    lemma_row_absent(rows, kv.0);
                    assert(pair_weight(rows, kv.0, kv.1) == R::zero_math());
                }
                assert(self.math() =~= Self::zero_math());
            } else {
                lemma_row_first(rows, 0);
                let kv = (rows[0].0, rows[0].1[0].0);
                let m = self.math();
                let z = Self::zero_math();
                assert(m(kv) != R::zero_math());
                assert(z(kv) == R::zero_math());
            }
        }
        r
    }

    fn equals(&self, other: &Self) -> (r: bool) {
        let r = self.layer.equals(&other.layer);
        proof {
            if r {
                assert forall|kv: (K, V)| #[trigger] (self.math())(kv) == (other.math())(kv) by {
                    assert(self.layer.at(kv.0, kv.1) == other.layer.at(kv.0, kv.1));
                }
                assert(self.math() =~= other.math());
            } else {
                let (k, v) = choose|k: K, v: V| #[trigger]
                    self.layer.at(k, v) != other.layer.at(k, v);
                let m = self.math();
                let n = other.math();
                assert(m((k, v)) == self.layer.at(k, v));
                assert(n((k, v)) == other.layer.at(k, v));
            }
        }
        r
    }

    fn duplicate(&self) -> (r: Self) {
        let r = OrdIndexedZSet { layer: self.layer.duplicate() };
        proof {
            assert forall|kv: (K, V)| #[trigger] (r.math())(kv) == (self.math())(kv) by {
                assert(r.layer.at(kv.0, kv.1) == self.layer.at(kv.0, kv.1));
            }
            assert(r.math() =~= self.math());
        }
        r
    }

    fn add_by_ref(&self, other: &Self) -> (r: Self) {
        proof {
            lemma_sums_hold(self, other);
        }
        let sum = self.layer.merge(&other.layer);
        proof {
            lemma_sum_layer(self, other, &sum);
        }
        let r = OrdIndexedZSet { layer: sum.with_offsets::<O>() };
        proof {
            let m = Self::add_math(self.math(), other.math());
            assert forall|kv: (K, V)| #[trigger] (r.math())(kv) == m(kv) by {
                assert(pair_weight(sum.rows(), kv.0, kv.1) == m((kv.0, kv.1)));
            }
            assert(r.math() =~= m);
        }
        r
    }

    fn add_assign_by_ref(&mut self, other: &Self) {
        let sum = self.add_by_ref(other);
        *self = sum;
    }
}

impl<K: Ord + Clone, V: Ord + Clone, R: GroupValue, O: OrdOffset> GroupValue for OrdIndexedZSet<
    K,
    V,
    R,
    O,
> {
    open spec fn neg_math(a: spec_fn((K, V)) -> R::Math) -> spec_fn((K, V)) -> R::Math {
        |kv: (K, V)| R::neg_math(a(kv))
    }

    proof fn neg_cancels(a: spec_fn((K, V)) -> R::Math) {
        assert forall|k: (K, V)| #[trigger]
            R::add_math(a(k), R::neg_math(a(k))) == R::zero_math() by {
            R::neg_cancels(a(k));
        }
        assert(Self::add_math(a, Self::neg_math(a)) =~= Self::zero_math());
    }

    fn neg_by_ref(&self) -> (r: Self) {
        let ghost negated = Self::neg_math(self.math());
        proof {
            assert forall|k: K, v: V| R::holds(R::neg_math(#[trigger] self.layer.at(k, v))) by {
                assert(R::holds(negated((k, v))));
            }
        }
        let r = OrdIndexedZSet { layer: self.layer.neg_by_ref() };
        proof {
            assert forall|kv: (K, V)| #[trigger] (r.math())(kv) == negated(kv) by {
                assert(r.layer.at(kv.0, kv.1) == R::neg_math(self.layer.at(kv.0, kv.1)));
            }
            assert(r.math() =~= negated);
        }
        r
    }
}

impl<K: Ord + Clone, V: Ord + Clone, R: GroupValue, O: OrdOffset> OrdIndexedZSet<K, V, R, O> {
    /// The batch with every weight inverted.
    pub fn neg(self) -> (r: Self)
        requires
            Self::lawful(),
            self.wf(),
            Self::holds(Self::neg_math(self.math())),
        ensures
            r.wf(),
            r.math() == Self::neg_math(self.math()),
    {
        self.neg_by_ref()
    }
}

/// State for an in-progress merge.
pub struct OrdIndexedZSetMerger<K, V, R, O> where
    K: Ord + Clone,
    V: Ord + Clone,
    R: MonoidValue,
    O: OrdOffset,
 {
    result: Option<OrderedLayer<K, V, R, O>>,
}

impl<K: Ord + Clone, V: Ord + Clone, R: MonoidValue, O: OrdOffset> OrdIndexedZSetMerger<
    K,
    V,
    R,
    O,
> {
    /// Nothing has been merged yet.
    pub closed spec fn is_fresh(&self) -> bool {
        self.result is None
    }

    /// The layer merged so far.
    pub closed spec fn merged(&self) -> Option<OrderedLayer<K, V, R, O>> {
        self.result
    }

    /// A merge of two batches in which nothing has been merged yet.
    pub fn new_merger(
        _batch1: &OrdIndexedZSet<K, V, R, O>,
        _batch2: &OrdIndexedZSet<K, V, R, O>,
    ) -> (r: Self)
        ensures
            r.is_fresh(),
            r.merged() is None,
    {
        OrdIndexedZSetMerger { result: None }
    }

    /// Merges the two batches in one go.  The merged pairs are taken off the
    /// fuel, of which at least one unit is left.
    pub fn work(
        &mut self,
        source1: &OrdIndexedZSet<K, V, R, O>,
        source2: &OrdIndexedZSet<K, V, R, O>,
        fuel: &mut isize,
    )
        requires
            OrdIndexedZSet::<K, V, R, O>::lawful(),
            old(self).is_fresh(),
            source1.wf(),
            source2.wf(),
            OrdIndexedZSet::<K, V, R, O>::holds(
                OrdIndexedZSet::<K, V, R, O>::add_math(source1.math(), source2.math()),
            ),
        ensures
            final(self).merged() matches Some(layer) && layer.wf() && rows_have(
                layer.rows(),
                OrdIndexedZSet::<K, V, R, O>::add_math(source1.math(), source2.math()),
            ) && *final(fuel) == if *old(fuel) - pair_count(layer.rows()) > 1 {
                *old(fuel) - pair_count(layer.rows())
            } else {
                1
            },
    {
        proof {
            lemma_sums_hold(source1, source2);
        }
        let sum = source1.layer.merge(&source2.layer);
        proof {
            lemma_sum_layer(source1, source2, &sum);
        }
        let count = sum.tuples();
        self.result = Some(sum.with_offsets::<O>());
        let left: i128 = *fuel as i128 - count as i128;
        *fuel = if left > 1 {
            left as isize
        } else {
            1
        };
    }

    /// The batch of the merged pairs: one without keys where nothing was merged.
    pub fn done(self) -> (r: OrdIndexedZSet<K, V, R, O>)
        ensures
            match self.merged() {
                Some(layer) => r.layer == layer,
                None => r.layer.wf() && r.rows().len() == 0,
            },
    {
        match self.result {
            Some(layer) => OrdIndexedZSet { layer },
            None => OrdIndexedZSet::empty(()),
        }
    }
}

/// A cursor for navigating a single layer.
#[derive(Debug)]
pub struct OrdIndexedZSetCursor<'s, K, V, R, O> where
    K: Ord + Clone,
    V: Ord + Clone,
    R: MonoidValue,
    O: OrdOffset,
 {
    storage: &'s OrderedLayer<K, V, R, O>,
    pos: usize,
    val: usize,
    first: usize,
    last: usize,
}

impl<'s, K, V, R, O> OrdIndexedZSetCursor<'s, K, V, R, O> where
    K: Ord + Clone,
    V: Ord + Clone,
    R: MonoidValue,
    O: OrdOffset,
 {
    /// The rows that the cursor moves over.
    pub closed spec fn rows(&self) -> Seq<(K, Seq<(V, R)>)> {
        self.storage.rows()
    }

    /// The position of the cursor among the keys.
    pub closed spec fn key_index(&self) -> int {
        self.pos as int
    }

    /// The position of the cursor among the values of its key.
    pub closed spec fn val_index(&self) -> int {
        self.val - self.first
    }

    /// The values of the key that the cursor stands at, none behind the last key.
    pub open spec fn row(&self) -> Seq<(V, R)> {
        if 0 <= self.key_index() < self.rows().len() {
            self.rows()[self.key_index()].1
        } else {
            Seq::empty()
        }
    }

    /// The cursor stands within its rows.
    pub closed spec fn wf(&self) -> bool {
        &&& self.storage.wf()
        &&& self.pos <= self.storage.keys@.len()
        &&& self.first <= self.val <= self.last <= self.storage.vals@.len()
        &&& self.storage.vals@.subrange(self.first as int, self.last as int) == self.row()
    }

    /// A cursor does not leave its rows.
    pub broadcast proof fn lemma_within(&self)
        requires
            #[trigger] self.wf(),
        ensures
            is_indexed(self.rows()),
            0 <= self.key_index() <= self.rows().len(),
            0 <= self.val_index() <= self.row().len(),
    {
    }

    /// Moves to the first value of the key.
    fn enter(&mut self)
        requires
            old(self).storage.wf(),
            old(self).pos <= old(self).storage.keys@.len(),
        ensures
            final(self).wf(),
            final(self).rows() == old(self).rows(),
            final(self).key_index() == old(self).key_index(),
            final(self).val_index() == 0,
    {
        if self.pos < self.storage.keys.len() {
            let (first, last) = self.storage.bounds(self.pos);
            self.first = first;
            self.val = first;
            self.last = last;
        } else {
            self.first = 0;
            self.val = 0;
            self.last = 0;
            assert(self.storage.vals@.subrange(0, 0) =~= Seq::empty());
        }
    }

    /// The key at the cursor.
    pub fn key(&self) -> (r: &K)
        requires
            self.wf(),
            self.key_index() < self.rows().len(),
        ensures
            *r == self.rows()[self.key_index()].0,
    {
        &self.storage.keys[self.pos]
    }

    /// The value at the cursor.
    pub fn val(&self) -> (r: &V)
        requires
            self.wf(),
            self.val_index() < self.row().len(),
        ensures
            *r == self.row()[self.val_index()].0,
    {
        assert(self.row()[self.val_index()] == self.storage.vals@[self.val as int]);
        &self.storage.vals[self.val].0
    }

    /// Hands the unit time and the weight at the cursor to `logic`; does nothing
    /// behind the last value.
    pub fn map_times<L: FnOnce(&(), &R)>(&mut self, logic: L)
        requires
            old(self).wf(),
            old(self).val_index() < old(self).row().len() ==> logic.requires(
                (&(), &old(self).row()[old(self).val_index()].1),
            ),
        ensures
            *final(self) == *old(self),
            old(self).val_index() < old(self).row().len() ==> logic.ensures(
                (&(), &old(self).row()[old(self).val_index()].1),
                (),
            ),
    {
        if self.val < self.last {
            assert(self.row()[self.val_index()] == self.storage.vals@[self.val as int]);
            logic(&(), &self.storage.vals[self.val].1);
        }
    }

    /// Hands the unit time and the weight at the cursor to `logic`: no time is
    /// later than the unit.
    pub fn map_times_through<L: FnOnce(&(), &R)>(&mut self, logic: L, _upper: &())
        requires
            old(self).wf(),
            old(self).val_index() < old(self).row().len() ==> logic.requires(
                (&(), &old(self).row()[old(self).val_index()].1),
            ),
        ensures
            *final(self) == *old(self),
            old(self).val_index() < old(self).row().len() ==> logic.ensures(
                (&(), &old(self).row()[old(self).val_index()].1),
                (),
            ),
    {
        self.map_times(logic)
    }

    /// The weight at the cursor.
    pub fn weight(&mut self) -> (r: R)
        requires
            R::lawful(),
            old(self).wf(),
            old(self).val_index() < old(self).row().len(),
        ensures
            *final(self) == *old(self),
            r.wf(),
            r.math() == old(self).row()[old(self).val_index()].1.math(),
    {
        proof {
            assert(self.row()[self.val_index()] == self.storage.vals@[self.val as int]);
            assert(is_weighted(self.row()));
        }
        self.storage.vals[self.val].1.duplicate()
    }

    /// Whether the cursor stands at a key.
    pub fn key_valid(&self) -> (r: bool)
        requires
            self.wf(),
        ensures
            r == (self.key_index() < self.rows().len()),
    {
        self.pos < self.storage.keys.len()
    }

    /// Whether the cursor stands at a value.
    pub fn val_valid(&self) -> (r: bool)
        requires
            self.wf(),
        ensures
            r == (self.val_index() < self.row().len()),
    {
        assert(self.row().len() == self.last - self.first);
        self.val < self.last
    }

    /// Moves to the first value of the next key; behind the last key the cursor
    /// stays.
    pub fn step_key(&mut self)
        requires
            old(self).wf(),
        ensures
            final(self).wf(),
            final(self).rows() == old(self).rows(),
            final(self).key_index() == if old(self).key_index() < old(self).rows().len() {
                old(self).key_index() + 1
            } else {
                old(self).key_index()
            },
            final(self).val_index() == 0,
    {
        if self.pos < self.storage.keys.len() {
            self.pos = self.pos + 1;
        }
        self.enter();
    }

    /// Moves forward to the first key that does not come before `key`, and to its
    /// first value.
    pub fn seek_key(&mut self, key: &K)
        requires
            lawful_order::<K>(),
            old(self).wf(),
        ensures
            final(self).wf(),
            final(self).rows() == old(self).rows(),
            old(self).key_index() <= final(self).key_index(),
            forall|i: int|
                old(self).key_index() <= i < final(self).key_index() ==> before(
                    (#[trigger] old(self).rows()[i]).0,
                    *key,
                ),
            forall|i: int|
                final(self).key_index() <= i < old(self).rows().len() ==> !before(
                    (#[trigger] old(self).rows()[i]).0,
                    *key,
                ),
            final(self).val_index() == 0,
    {
        let ghost rows = self.rows();
        let mut low: usize = self.pos;
        let mut high: usize = self.storage.keys.len();
        while low < high
            invariant
                lawful_order::<K>(),
                self.storage.wf(),
                rows == self.storage.rows(),
                self.pos <= low <= high <= self.storage.keys@.len(),
                forall|i: int| self.pos <= i < low ==> before((#[trigger] rows[i]).0, *key),
                forall|i: int| high <= i < rows.len() ==> !before((#[trigger] rows[i]).0, *key),
            decreases high - low,
        {
            let mid = low + (high - low) / 2;
            assert(rows[mid as int].0 == self.storage.keys@[mid as int]);
            if is_before(&self.storage.keys[mid], key) {
                assert forall|i: int| self.pos <= i <= mid implies before(
                    (#[trigger] rows[i]).0,
                    *key,
                ) by {
                    if i < mid {
                        lemma_order_transitive(rows[i].0, rows[mid as int].0, *key);
                    }
                }
                low = mid + 1;
            } else {
                assert forall|i: int| mid <= i < rows.len() implies !before(
                    (#[trigger] rows[i]).0,
                    *key,
                ) by {
                    if i > mid && before(rows[i].0, *key) {
                        lemma_order_transitive(rows[mid as int].0, rows[i].0, *key);
                    }
                }
                high = mid;
            }
        }
        self.pos = low;
        self.enter();
    }

    /// Moves to the last key, where there is one, and returns it.
    pub fn last_key(&mut self) -> (r: Option<&K>)
        requires
            old(self).wf(),
        ensures
            final(self).wf(),
            final(self).rows() == old(self).rows(),
            match r {
                Some(key) => old(self).rows().len() > 0 && final(self).key_index() == old(
                    self,
                ).rows().len() - 1 && final(self).val_index() == 0 && *key == old(
                    self,
                ).rows().last().0,
                None => old(self).rows().len() == 0 && *final(self) == *old(self),
            },
    {
        let count: usize = self.storage.keys.len();
        if count > 0 {
            self.pos = count - 1;
            self.enter();
            Some(&self.storage.keys[count - 1])
        } else {
            None
        }
    }

    /// Moves to the next value of the key; behind the last value the cursor
    /// stays.
    pub fn step_val(&mut self)
        requires
            old(self).wf(),
        ensures
            final(self).wf(),
            final(self).rows() == old(self).rows(),
            final(self).key_index() == old(self).key_index(),
            final(self).val_index() == if old(self).val_index() < old(self).row().len() {
                old(self).val_index() + 1
            } else {
                old(self).val_index()
            },
    {
        assert(self.row().len() == self.last - self.first);
        if self.val < self.last {
            self.val = self.val + 1;
        }
    }

    /// Moves forward to the first value of the key that does not come before
    /// `val`.
    pub fn seek_val(&mut self, val: &V)
        requires
            lawful_order::<V>(),
            old(self).wf(),
        ensures
            final(self).wf(),
            final(self).rows() == old(self).rows(),
            final(self).key_index() == old(self).key_index(),
            old(self).val_index() <= final(self).val_index(),
            forall|i: int|
                old(self).val_index() <= i < final(self).val_index() ==> before(
                    (#[trigger] old(self).row()[i]).0,
                    *val,
                ),
            forall|i: int|
                final(self).val_index() <= i < old(self).row().len() ==> !before(
                    (#[trigger] old(self).row()[i]).0,
                    *val,
                ),
    {
        let ghost row = self.row();
        let ghost first = self.first as int;
        let ghost from = self.val as int;
        proof {
            assert(row.len() == self.last - self.first);
            if row.len() > 0 {
                assert(is_weighted(row));
            }
            assert(self.storage.vals@.subrange(self.val as int, self.last as int)
                =~= row.subrange(from - first, row.len() as int));
            assert(is_weighted(row.subrange(from - first, row.len() as int)));
        }
        let to = seek(&self.storage.vals, self.val, self.last, val);
        self.val = to;
        assert forall|i: int| from - first <= i < to - first implies before(
            (#[trigger] row[i]).0,
            *val,
        ) by {
            assert(row[i] == self.storage.vals@[first + i]);
        }
        assert forall|i: int| to - first <= i < row.len() implies !before(
            (#[trigger] row[i]).0,
            *val,
        ) by {
            assert(row[i] == self.storage.vals@[first + i]);
        }
    }

    /// Moves forward to the first value of the key for which `predicate` returns
    /// true.
    pub fn seek_val_with<P: Fn(&V) -> bool>(&mut self, predicate: P)
        requires
            old(self).wf(),
            forall|i: int|
                old(self).val_index() <= i < old(self).row().len() ==> predicate.requires(
                    (&(#[trigger] old(self).row()[i]).0,),
                ),
        ensures
            final(self).wf(),
            final(self).rows() == old(self).rows(),
            final(self).key_index() == old(self).key_index(),
            old(self).val_index() <= final(self).val_index(),
            forall|i: int|
                old(self).val_index() <= i < final(self).val_index() ==> predicate.ensures(
                    (&(#[trigger] old(self).row()[i]).0,),
                    false,
                ),
            final(self).val_index() < old(self).row().len() ==> predicate.ensures(
                (&old(self).row()[final(self).val_index()].0,),
                true,
            ),
    {
        let ghost row = self.row();
        let ghost start = *self;
        let mut found = false;
        while self.val < self.last && !found
            invariant
                self.wf(),
                row == self.row(),
                row.len() == self.last - self.first,
                self.storage == start.storage,
                self.pos == start.pos,
                self.first == start.first,
                start.val <= self.val,
                forall|i: int|
                    start.val_index() <= i < row.len() ==> predicate.requires(
                        (&(#[trigger] row[i]).0,),
                    ),
                forall|i: int|
                    start.val_index() <= i < self.val_index() ==> predicate.ensures(
                        (&(#[trigger] row[i]).0,),
                        false,
                    ),
                found ==> self.val < self.last && predicate.ensures(
                    (&row[self.val_index()].0,),
                    true,
                ),
            decreases (self.last - self.val) + if found { 0int } else { 1int },
        {
            assert(row[self.val_index()] == self.storage.vals@[self.val as int]);
            if predicate(&self.storage.vals[self.val].0) {
                found = true;
            } else {
                self.val = self.val + 1;
            }
        }
    }

    /// Moves back to the first key and its first value.
    pub fn rewind_keys(&mut self)
        requires
            old(self).wf(),
        ensures
            final(self).wf(),
            final(self).rows() == old(self).rows(),
            final(self).key_index() == 0,
            final(self).val_index() == 0,
    {
        self.pos = 0;
        self.enter();
    }

    /// Moves back to the first value of the key.
    pub fn rewind_vals(&mut self)
        requires
            old(self).wf(),
        ensures
            final(self).wf(),
            final(self).rows() == old(self).rows(),
            final(self).key_index() == old(self).key_index(),
            final(self).val_index() == 0,
    {
        self.val = self.first;
    }
}

/// A builder for creating layers from unsorted update tuples.
pub struct OrdIndexedZSetBuilder<K, V, R, O> where K: Ord, V: Ord, R: MonoidValue, O: OrdOffset {
    tuples: Vec<((K, V), R)>,
    offset: PhantomData<O>,
}

impl<K: Ord + Clone, V: Ord + Clone, R: MonoidValue, O: OrdOffset> OrdIndexedZSetBuilder<
    K,
    V,
    R,
    O,
> {
    /// The weights pushed so far are valid.
    pub closed spec fn wf(&self) -> bool {
        forall|i: int| 0 <= i < self.tuples@.len() ==> (#[trigger] self.tuples@[i]).1.wf()
    }

    /// The tuples pushed so far.
    pub closed spec fn pushed(&self) -> Seq<((K, V), R)> {
        self.tuples@
    }

    /// A builder without tuples.
    pub fn new_builder(_time: ()) -> (r: Self)
        ensures
            r.wf(),
            r.pushed() == Seq::<((K, V), R)>::empty(),
    {
        OrdIndexedZSetBuilder { tuples: Vec::new(), offset: PhantomData }
    }

    /// A builder without tuples, with room for `capacity` of them.
    pub fn with_capacity(_time: (), capacity: usize) -> (r: Self)
        ensures
            r.wf(),
            r.pushed() == Seq::<((K, V), R)>::empty(),
    {
        OrdIndexedZSetBuilder { tuples: Vec::with_capacity(capacity), offset: PhantomData }
    }

    /// Makes room for `additional` more tuples.
    pub fn reserve(&mut self, additional: usize)
        requires
            old(self).wf(),
        ensures
            final(self).wf(),
            final(self).pushed() == old(self).pushed(),
    {
        self.tuples.reserve(additional);
    }

    /// Takes one more tuple.
    pub fn push(&mut self, item: ((K, V), R))
        requires
            old(self).wf(),
            item.1.wf(),
        ensures
            final(self).wf(),
            final(self).pushed() == old(self).pushed().push(item),
    {
        self.tuples.push(item);
    }

    /// The batch in which each pair has the sum of the weights pushed for it.
    pub fn done(self) -> (r: OrdIndexedZSet<K, V, R, O>)
        requires
            OrdIndexedZSet::<K, V, R, O>::lawful(),
            self.wf(),
            runs_hold(self.pushed()),
            offsets_hold::<K, V, R, O>(|kv: (K, V)| tally(self.pushed(), kv)),
        ensures
            r.wf(),
            forall|k: K, v: V| #[trigger] r.weight_of(k, v) == tally(self.pushed(), (k, v)),
    {
        OrdIndexedZSet::from_tuples((), self.tuples)
    }
}

/// Hands out the keys and values of a batch.
pub struct OrdIndexedZSetConsumer<K, V, R, O> where O: OrdOffset {
    rest: Vec<(K, Vec<(V, R)>)>,
    offset: PhantomData<O>,
}

/// The rows of a stack of keys with their values, the next one last.
pub open spec fn stacked<K, V, R>(stack: Seq<(K, Vec<(V, R)>)>) -> Seq<(K, Seq<(V, R)>)> {
    Seq::new(
        stack.len(),
        |i: int| (stack[stack.len() - 1 - i].0, stack[stack.len() - 1 - i].1@),
    )
}

impl<K, V, R, O> OrdIndexedZSetConsumer<K, V, R, O> where O: OrdOffset {
    /// The rows still to come.
    pub closed spec fn remaining(&self) -> Seq<(K, Seq<(V, R)>)> {
        stacked(self.rest@)
    }

    /// Whether a key is still to come.
    pub fn key_valid(&self) -> (r: bool)
        ensures
            r == (self.remaining().len() > 0),
    {
        self.rest.len() > 0
    }

    /// The next key.
    pub fn peek_key(&self) -> (r: &K)
        requires
            self.remaining().len() > 0,
        ensures
            *r == self.remaining()[0].0,
    {
        &self.rest[self.rest.len() - 1].0
    }

    /// Hands out the next key and its values.
    pub fn next_key(&mut self) -> (r: (K, OrdIndexedZSetValueConsumer<'_, K, V, R, O>))
        requires
            old(self).remaining().len() > 0,
        ensures
            r.0 == old(self).remaining()[0].0,
            r.1.remaining() == old(self).remaining()[0].1,
            final(self).remaining() == old(self).remaining().skip(1),
    {
        let ghost before = self.rest@;
        match self.rest.pop() {
            Some((key, values)) => {
                assert(stacked(self.rest@) =~= stacked(before).skip(1));
                (key, OrdIndexedZSetValueConsumer::new(OrderedLayerValues::new(values)))
            },
            None => vstd::pervasive::unreached(),
        }
    }
}

impl<K: Ord + Clone, V, R, O> OrdIndexedZSetConsumer<K, V, R, O> where O: OrdOffset {
    /// Passes over the keys that come before `key`.
    pub fn seek_key(&mut self, key: &K)
        requires
            lawful_order::<K>(),
        ensures
            exists|n: int|
                0 <= n <= old(self).remaining().len() && final(self).remaining() == #[trigger] old(
                    self,
                ).remaining().skip(n) && (forall|i: int|
                    0 <= i < n ==> before((#[trigger] old(self).remaining()[i]).0, *key)) && (n < old(
                    self,
                ).remaining().len() ==> !before(old(self).remaining()[n].0, *key)),
    {
        let ghost all = stacked(self.rest@);
        let ghost mut n: int = 0;
        assert(all.skip(0) =~= all);
        while self.rest.len() > 0 && is_before(&self.rest[self.rest.len() - 1].0, key)
            invariant
                lawful_order::<K>(),
                0 <= n <= all.len(),
                stacked(self.rest@) == all.skip(n),
                forall|i: int| 0 <= i < n ==> before((#[trigger] all[i]).0, *key),
            decreases self.rest@.len(),
        {
            let ghost stack = self.rest@;
            proof {
                assert(stacked(stack)[0].0 == stack.last().0);
                assert(stacked(stack).len() == all.skip(n).len());
                assert(all.skip(n)[0] == all[n]);
            }
            let _dropped = self.rest.pop();
            proof {
                assert(stacked(self.rest@) =~= stacked(stack).skip(1));
                assert(all.skip(n).skip(1) =~= all.skip(n + 1));
                n = n + 1;
            }
        }
        proof {
            if n < all.len() {
                assert(all.skip(n)[0] == all[n]);
                assert(stacked(self.rest@)[0].0 == self.rest@.last().0);
            }
            assert(self.remaining() == old(self).remaining().skip(n));
        }
    }
}

impl<K: Ord + Clone, V: Ord + Clone, R: MonoidValue, O: OrdOffset> OrdIndexedZSetConsumer<
    K,
    V,
    R,
    O,
> {
    /// A consumer of all rows of a layer.
    fn new(layer: OrderedLayer<K, V, R, O>) -> (r: Self)
        requires
            layer.wf(),
        ensures
            r.remaining() == layer.rows(),
    {
        let ghost rows = layer.rows();
        let ghost all_keys = layer.keys@;
        let ghost all_vals = layer.vals@;
        let ghost offsets = layer.offsets();
        let mut keys = layer.keys;
        let offs = layer.offs;
        let mut vals = layer.vals;
        let mut rest: Vec<(K, Vec<(V, R)>)> = Vec::new();
        proof {
            assert(all_vals.take(all_vals.len() as int) =~= all_vals);
        }
        while keys.len() > 0
            invariant
                is_indexed(rows),
                cuts(offsets, all_keys.len(), all_vals.len()),
                rows == rows_of(all_keys, offsets, all_vals),
                offs@.len() == offsets.len(),
                forall|i: int| 0 <= i < offs@.len() ==> (#[trigger] offs@[i]).offset() == offsets[i],
                keys@.len() <= all_keys.len(),
                keys@ =~= all_keys.take(keys@.len() as int),
                vals@ =~= all_vals.take(offsets[keys@.len() as int]),
                stacked(rest@) =~= rows.skip(keys@.len() as int),
            decreases keys@.len(),
        {
            let ghost n = keys@.len() - 1;
            let ghost stack = rest@;
            proof {
                lemma_run_bounds(offsets, all_keys.len(), all_vals.len(), n);
                assert(offsets[n + 1] <= all_vals.len());
            }
            match keys.pop() {
                Some(key) => {
                    let start = offs[keys.len()].into_usize();
                    let group = vals.split_off(start);
                    assert(group@ =~= rows[n].1);
                    assert(key == rows[n].0);
                    rest.push((key, group));
                    assert(stacked(stack) == rows.skip(n + 1));
                    assert(stacked(stack).len() == stack.len());
                    assert forall|i: int| 0 <= i < rest@.len() implies #[trigger] stacked(rest@)[i]
                        == rows.skip(n)[i] by {
                        if i > 0 {
                            assert(rest@[rest@.len() - 1 - i] == stack[stack.len() - 1 - (i - 1)]);
                            assert(stacked(stack)[i - 1] == rows.skip(n + 1)[i - 1]);
                            assert(rows.skip(n + 1)[i - 1] == rows.skip(n)[i]);
                        } else {
                            assert(rest@[rest@.len() - 1].1@ == rows[n].1);
                        }
                    }
                    assert(stacked(rest@) =~= rows.skip(n));
                },
                None => {},
            }
        }
        assert(rows.skip(0) =~= rows);
        OrdIndexedZSetConsumer { rest, offset: PhantomData }
    }
}

/// Hands out the values of one key.
pub struct OrdIndexedZSetValueConsumer<'a, K, V, R, O> {
    consumer: OrderedLayerValues<'a, V, R>,
    types: PhantomData<(K, O)>,
}

impl<'a, K, V, R, O> OrdIndexedZSetValueConsumer<'a, K, V, R, O> {
    /// The values still to come, with their weights.
    pub closed spec fn remaining(&self) -> Seq<(V, R)> {
        self.consumer.remaining()
    }

    /// Hands out the given values.
    pub fn new(consumer: OrderedLayerValues<'a, V, R>) -> (r: Self)
        ensures
            r.remaining() == consumer.remaining(),
    {
        OrdIndexedZSetValueConsumer { consumer, types: PhantomData }
    }

    /// Whether a value is still to come.
    pub fn value_valid(&self) -> (r: bool)
        ensures
            r == (self.remaining().len() > 0),
    {
        self.consumer.value_valid()
    }

    /// The next value with its weight.
    pub fn next_value(&mut self) -> (r: (V, R, ()))
        requires
            old(self).remaining().len() > 0,
        ensures
            (r.0, r.1) == old(self).remaining()[0],
            final(self).remaining() == old(self).remaining().skip(1),
    {
        self.consumer.next_value()
    }

    /// The number of values still to come.
    pub fn remaining_values(&self) -> (r: usize)
        ensures
            r == self.remaining().len(),
    {
        self.consumer.remaining_values()
    }
}

/// The rows of a batch are its keys, each with the run of values between its offset and the
/// next one.
pub proof fn rows_are_runs_of_values<K: Ord + Clone, V: Ord + Clone, R: MonoidValue>(
    a: OrdIndexedZSet<K, V, R, usize>,
    i: int,
)
    requires
        a.wf(),
    ensures
        a.rows().len() == a.layer.keys@.len(),
        a.layer.offs@.len() == a.layer.keys@.len() + 1,
        a.layer.offs@[0] == 0,
        a.layer.offs@[a.layer.keys@.len() as int] == a.layer.vals@.len(),
        0 <= i < a.rows().len() ==> a.rows()[i].0 == a.layer.keys@[i] && a.rows()[i].1
            == a.layer.vals@.subrange(a.layer.offs@[i] as int, a.layer.offs@[i + 1] as int),
{
}

/// A batch lists its pairs with their weights, keys and the values of each key in
/// increasing order, and no key without a value.
pub proof fn batches_list_their_weights<
    K: Ord + Clone,
    V: Ord + Clone,
    R: MonoidValue,
    O: OrdOffset,
>(a: OrdIndexedZSet<K, V, R, O>, i: int, i2: int, j: int, j2: int)
    requires
        OrdIndexedZSet::<K, V, R, O>::lawful(),
        a.wf(),
        0 <= i < a.rows().len(),
        0 <= j < a.rows()[i].1.len(),
    ensures
        a.weight_of(a.rows()[i].0, a.rows()[i].1[j].0) == a.rows()[i].1[j].1.math(),
        a.rows()[i].1[j].1.math() != R::zero_math(),
        i < i2 < a.rows().len() ==> a.rows()[i].0.partial_cmp_spec(&a.rows()[i2].0) == Some(
            core::cmp::Ordering::Less,
        ) && a.rows()[i2].1.len() > 0,
        j < j2 < a.rows()[i].1.len() ==> a.rows()[i].1[j].0.partial_cmp_spec(
            &a.rows()[i].1[j2].0,
        ) == Some(core::cmp::Ordering::Less),
{
    lemma_row_listed(a.rows(), i);
    lemma_weight_listed(a.rows()[i].1, j);
    assert(pair_weight(a.rows(), a.rows()[i].0, a.rows()[i].1[j].0) == weight_at(
        a.rows()[i].1,
        a.rows()[i].1[j].0,
    ));
}

/// What the operations on indexed batches with weights of type `isize` do to the weight of a
/// value of a key, in integers: sums add, and inverses change the sign.
pub proof fn indexed_isize_weights_follow_the_operations<K: Ord + Clone, V: Ord + Clone>(
    a: OrdIndexedZSet<K, V, isize, usize>,
    b: OrdIndexedZSet<K, V, isize, usize>,
    r: OrdIndexedZSet<K, V, isize, usize>,
    k: K,
    v: V,
)
    ensures
        call_ensures(OrdIndexedZSet::<K, V, isize, usize>::empty, ((),), r) ==> r.wf() && r.weight_of(
            k,
            v,
        ) == 0,
        call_ensures(<OrdIndexedZSet<K, V, isize, usize> as MonoidValue>::zero, (), r) ==> r.wf()
            && r.weight_of(k, v) == 0,
        call_ensures(<OrdIndexedZSet<K, V, isize, usize> as MonoidValue>::duplicate, (&a,), r)
            ==> r.wf() && r.weight_of(k, v) == a.weight_of(k, v),
        call_ensures(<OrdIndexedZSet<K, V, isize, usize> as MonoidValue>::add_by_ref, (&a, &b), r)
            ==> r.wf() && r.weight_of(k, v) == a.weight_of(k, v) + b.weight_of(k, v),
        call_ensures(OrdIndexedZSet::<K, V, isize, usize>::add, (a, b), r) ==> r.wf() && r.weight_of(
            k,
            v,
        ) == a.weight_of(k, v) + b.weight_of(k, v),
        forall|m: &mut OrdIndexedZSet<K, V, isize, usize>| #[trigger]
            call_ensures(
                <OrdIndexedZSet<K, V, isize, usize> as MonoidValue>::add_assign_by_ref,
                (m, &b),
                (),
            ) ==> final(m).wf() && final(m).weight_of(k, v) == m.weight_of(k, v) + b.weight_of(
                k,
                v,
            ),
        forall|m: &mut OrdIndexedZSet<K, V, isize, usize>| #[trigger]
            call_ensures(OrdIndexedZSet::<K, V, isize, usize>::add_assign, (m, b), ()) ==> final(
                m).wf() && final(m).weight_of(k, v) == m.weight_of(k, v) + b.weight_of(k, v),
        call_ensures(<OrdIndexedZSet<K, V, isize, usize> as GroupValue>::neg_by_ref, (&a,), r)
            ==> r.wf() && r.weight_of(k, v) == -a.weight_of(k, v),
        call_ensures(OrdIndexedZSet::<K, V, isize, usize>::neg, (a,), r) ==> r.wf() && r.weight_of(
            k,
            v,
        ) == -a.weight_of(k, v),
{
    let zero = <OrdIndexedZSet<K, V, isize, usize> as MonoidValue>::zero_math();
    let sum = <OrdIndexedZSet<K, V, isize, usize> as MonoidValue>::add_math(a.math(), b.math());
    let inverse = <OrdIndexedZSet<K, V, isize, usize> as GroupValue>::neg_math(a.math());
    assert((r.math())((k, v)) == r.weight_of(k, v));
    assert((a.math())((k, v)) == a.weight_of(k, v));
    assert((b.math())((k, v)) == b.weight_of(k, v));
    assert(zero((k, v)) == 0);
    assert(sum((k, v)) == a.weight_of(k, v) + b.weight_of(k, v));
    assert(inverse((k, v)) == -a.weight_of(k, v));
    assert forall|m: &mut OrdIndexedZSet<K, V, isize, usize>| #[trigger]
        call_ensures(
            <OrdIndexedZSet<K, V, isize, usize> as MonoidValue>::add_assign_by_ref,
            (m, &b),
            (),
        ) implies final(m).wf() && final(m).weight_of(k, v) == m.weight_of(k, v) + b.weight_of(
        k,
        v,
    ) by {
        let sum = <OrdIndexedZSet<K, V, isize, usize> as MonoidValue>::add_math(m.math(), b.math());
        assert((m.math())((k, v)) == m.weight_of(k, v));
        assert((final(m).math())((k, v)) == final(m).weight_of(k, v));
        assert(sum((k, v)) == m.weight_of(k, v) + b.weight_of(k, v));
    }
    assert forall|m: &mut OrdIndexedZSet<K, V, isize, usize>| #[trigger]
        call_ensures(OrdIndexedZSet::<K, V, isize, usize>::add_assign, (m, b), ()) implies final(
    m).wf() && final(m).weight_of(k, v) == m.weight_of(k, v) + b.weight_of(k, v) by {
        let sum = <OrdIndexedZSet<K, V, isize, usize> as MonoidValue>::add_math(m.math(), b.math());
        assert((m.math())((k, v)) == m.weight_of(k, v));
        assert((final(m).math())((k, v)) == final(m).weight_of(k, v));
        assert(sum((k, v)) == m.weight_of(k, v) + b.weight_of(k, v));
    }
}

/// An indexed batch made from tuples gives each pair the sum of the integers that the
/// tuples give to it, and merging two batches gives each pair the sum of its weights in
/// both.
pub proof fn indexed_isize_weights_are_added_up<K: Ord + Clone, V: Ord + Clone>(
    items: Vec<((K, V), isize)>,
    a: OrdIndexedZSet<K, V, isize, usize>,
    b: OrdIndexedZSet<K, V, isize, usize>,
    r: OrdIndexedZSet<K, V, isize, usize>,
    pair: (K, V),
)
    ensures
        call_ensures(indexed_zset::<K, V, isize>, (items,), r) || call_ensures(
            OrdIndexedZSet::<K, V, isize, usize>::from_tuples,
            ((), items),
            r,
        ) ==> r.wf() && r.weight_of(pair.0, pair.1) == given_to(items@, pair).map_values(
            |w: isize| w as int,
        ).fold_left(0, |x: int, y: int| x + y),
        forall|m: &mut OrdIndexedZSetMerger<K, V, isize, usize>, fuel: &mut isize|
            #![trigger call_ensures(
                OrdIndexedZSetMerger::<K, V, isize, usize>::work, (m, &a, &b, fuel), ())]
            call_ensures(
                OrdIndexedZSetMerger::<K, V, isize, usize>::work,
                (m, &a, &b, fuel),
                (),
            ) && call_ensures(
                OrdIndexedZSetMerger::<K, V, isize, usize>::done,
                (*final(m),),
                r,
            ) ==> r.wf() && r.weight_of(pair.0, pair.1) == a.weight_of(pair.0, pair.1) + b.weight_of(pair.0, pair.1)
                && *final(fuel) == (if *fuel - r.layer.vals@.len() > 1 {
                *fuel - r.layer.vals@.len()
            } else {
                1
            }),
{
    integers_are_added_up(Seq::empty(), Seq::empty(), items@, pair);
    if call_ensures(indexed_zset::<K, V, isize>, (items,), r) || call_ensures(
        OrdIndexedZSet::<K, V, isize, usize>::from_tuples,
        ((), items),
        r,
    ) {
        assert(r.weight_of(pair.0, pair.1) == tally(items@, (pair.0, pair.1)));
    }
    let sum = <OrdIndexedZSet<K, V, isize, usize> as MonoidValue>::add_math(a.math(), b.math());
    assert(sum(pair) == a.weight_of(pair.0, pair.1) + b.weight_of(pair.0, pair.1));
    assert forall|m: &mut OrdIndexedZSetMerger<K, V, isize, usize>, fuel: &mut isize|
        #![trigger call_ensures(
            OrdIndexedZSetMerger::<K, V, isize, usize>::work, (m, &a, &b, fuel), ())]
        call_ensures(
            OrdIndexedZSetMerger::<K, V, isize, usize>::work,
            (m, &a, &b, fuel),
            (),
        ) && call_ensures(
            OrdIndexedZSetMerger::<K, V, isize, usize>::done,
            (*final(m),),
            r,
        ) implies r.wf() && r.weight_of(pair.0, pair.1) == a.weight_of(pair.0, pair.1) + b.weight_of(pair.0, pair.1)
        && *final(fuel) == (if *fuel - r.layer.vals@.len() > 1 {
            *fuel - r.layer.vals@.len()
        } else {
            1
        }) by {
        lemma_pair_count(r.layer.keys@, r.layer.offsets(), r.layer.vals@);
        assert(pair_weight(r.layer.rows(), pair.0, pair.1) == sum(pair));
    }
}

/// A builder without tuples gives an indexed batch without weights, and each tuple adds its
/// weight to that of its pair.
pub proof fn indexed_isize_builders_add_tuples<K: Ord + Clone, V: Ord + Clone>(
    item: ((K, V), isize),
    before_push: OrdIndexedZSet<K, V, isize, usize>,
    after_push: OrdIndexedZSet<K, V, isize, usize>,
    fresh: OrdIndexedZSetBuilder<K, V, isize, usize>,
    cap: usize,
    k: K,
    v: V,
)
    ensures
        (call_ensures(OrdIndexedZSetBuilder::<K, V, isize, usize>::new_builder, ((),), fresh)
            || call_ensures(
            OrdIndexedZSetBuilder::<K, V, isize, usize>::with_capacity,
            ((), cap),
            fresh,
        )) && call_ensures(OrdIndexedZSetBuilder::<K, V, isize, usize>::done, (fresh,), after_push)
            ==> after_push.wf() && after_push.weight_of(k, v) == 0,
        forall|b: &mut OrdIndexedZSetBuilder<K, V, isize, usize>|
            #![trigger call_ensures(OrdIndexedZSetBuilder::<K, V, isize, usize>::push, (b, item), ())]
            call_ensures(OrdIndexedZSetBuilder::<K, V, isize, usize>::push, (b, item), ())
                && call_ensures(
                OrdIndexedZSetBuilder::<K, V, isize, usize>::done,
                (*b,),
                before_push,
            ) && call_ensures(
                OrdIndexedZSetBuilder::<K, V, isize, usize>::done,
                (*final(b),),
                after_push,
            ) ==> after_push.wf() && after_push.weight_of(k, v) == before_push.weight_of(k, v) + (
            if (k, v) == item.0 {
                item.1 as int
            } else {
                0
            }),
{
    if call_ensures(OrdIndexedZSetBuilder::<K, V, isize, usize>::done, (fresh,), after_push) {
        assert(after_push.weight_of(k, v) == tally(fresh.pushed(), (k, v)));
    }
    assert forall|b: &mut OrdIndexedZSetBuilder<K, V, isize, usize>|
        #![trigger call_ensures(OrdIndexedZSetBuilder::<K, V, isize, usize>::push, (b, item), ())]
        call_ensures(OrdIndexedZSetBuilder::<K, V, isize, usize>::push, (b, item), ())
            && call_ensures(
            OrdIndexedZSetBuilder::<K, V, isize, usize>::done,
            (*b,),
            before_push,
        ) && call_ensures(
            OrdIndexedZSetBuilder::<K, V, isize, usize>::done,
            (*final(b),),
            after_push,
        ) implies after_push.wf() && after_push.weight_of(k, v) == before_push.weight_of(k, v) + (
    if (k, v) == item.0 {
        item.1 as int
    } else {
        0
    }) by {
        assert(before_push.weight_of(k, v) == tally(b.pushed(), (k, v)));
        assert(after_push.weight_of(k, v) == tally(final(b).pushed(), (k, v)));
        assert(final(b).pushed().drop_last() =~= b.pushed());
    }
}

/// What the operations on indexed batches with weights of type `i64` do to the weight of a
/// value of a key, in integers: sums add, and inverses change the sign.
pub proof fn indexed_i64_weights_follow_the_operations<K: Ord + Clone, V: Ord + Clone>(
    a: OrdIndexedZSet<K, V, i64, usize>,
    b: OrdIndexedZSet<K, V, i64, usize>,
    r: OrdIndexedZSet<K, V, i64, usize>,
    k: K,
    v: V,
)
    ensures
        call_ensures(OrdIndexedZSet::<K, V, i64, usize>::empty, ((),), r) ==> r.wf() && r.weight_of(
            k,
            v,
        ) == 0,
        call_ensures(<OrdIndexedZSet<K, V, i64, usize> as MonoidValue>::zero, (), r) ==> r.wf()
            && r.weight_of(k, v) == 0,
        call_ensures(<OrdIndexedZSet<K, V, i64, usize> as MonoidValue>::duplicate, (&a,), r)
            ==> r.wf() && r.weight_of(k, v) == a.weight_of(k, v),
        call_ensures(<OrdIndexedZSet<K, V, i64, usize> as MonoidValue>::add_by_ref, (&a, &b), r)
            ==> r.wf() && r.weight_of(k, v) == a.weight_of(k, v) + b.weight_of(k, v),
        call_ensures(OrdIndexedZSet::<K, V, i64, usize>::add, (a, b), r) ==> r.wf() && r.weight_of(
            k,
            v,
        ) == a.weight_of(k, v) + b.weight_of(k, v),
        forall|m: &mut OrdIndexedZSet<K, V, i64, usize>| #[trigger]
            call_ensures(
                <OrdIndexedZSet<K, V, i64, usize> as MonoidValue>::add_assign_by_ref,
                (m, &b),
                (),
            ) ==> final(m).wf() && final(m).weight_of(k, v) == m.weight_of(k, v) + b.weight_of(
                k,
                v,
            ),
        forall|m: &mut OrdIndexedZSet<K, V, i64, usize>| #[trigger]
            call_ensures(OrdIndexedZSet::<K, V, i64, usize>::add_assign, (m, b), ()) ==> final(
                m).wf() && final(m).weight_of(k, v) == m.weight_of(k, v) + b.weight_of(k, v),
        call_ensures(<OrdIndexedZSet<K, V, i64, usize> as GroupValue>::neg_by_ref, (&a,), r)
            ==> r.wf() && r.weight_of(k, v) == -a.weight_of(k, v),
        call_ensures(OrdIndexedZSet::<K, V, i64, usize>::neg, (a,), r) ==> r.wf() && r.weight_of(
            k,
            v,
        ) == -a.weight_of(k, v),
{
    let zero = <OrdIndexedZSet<K, V, i64, usize> as MonoidValue>::zero_math();
    let sum = <OrdIndexedZSet<K, V, i64, usize> as MonoidValue>::add_math(a.math(), b.math());
    let inverse = <OrdIndexedZSet<K, V, i64, usize> as GroupValue>::neg_math(a.math());
    assert((r.math())((k, v)) == r.weight_of(k, v));
    assert((a.math())((k, v)) == a.weight_of(k, v));
    assert((b.math())((k, v)) == b.weight_of(k, v));
    assert(zero((k, v)) == 0);
    assert(sum((k, v)) == a.weight_of(k, v) + b.weight_of(k, v));
    assert(inverse((k, v)) == -a.weight_of(k, v));
    assert forall|m: &mut OrdIndexedZSet<K, V, i64, usize>| #[trigger]
        call_ensures(
            <OrdIndexedZSet<K, V, i64, usize> as MonoidValue>::add_assign_by_ref,
            (m, &b),
            (),
        ) implies final(m).wf() && final(m).weight_of(k, v) == m.weight_of(k, v) + b.weight_of(
        k,
        v,
    ) by {
        let sum = <OrdIndexedZSet<K, V, i64, usize> as MonoidValue>::add_math(m.math(), b.math());
        assert((m.math())((k, v)) == m.weight_of(k, v));
        assert((final(m).math())((k, v)) == final(m).weight_of(k, v));
        assert(sum((k, v)) == m.weight_of(k, v) + b.weight_of(k, v));
    }
    assert forall|m: &mut OrdIndexedZSet<K, V, i64, usize>| #[trigger]
        call_ensures(OrdIndexedZSet::<K, V, i64, usize>::add_assign, (m, b), ()) implies final(
    m).wf() && final(m).weight_of(k, v) == m.weight_of(k, v) + b.weight_of(k, v) by {
        let sum = <OrdIndexedZSet<K, V, i64, usize> as MonoidValue>::add_math(m.math(), b.math());
        assert((m.math())((k, v)) == m.weight_of(k, v));
        assert((final(m).math())((k, v)) == final(m).weight_of(k, v));
        assert(sum((k, v)) == m.weight_of(k, v) + b.weight_of(k, v));
    }
}

/// An indexed batch made from tuples gives each pair the sum of the integers that the
/// tuples give to it, and merging two batches gives each pair the sum of its weights in
/// both.
pub proof fn indexed_i64_weights_are_added_up<K: Ord + Clone, V: Ord + Clone>(
    items: Vec<((K, V), i64)>,
    a: OrdIndexedZSet<K, V, i64, usize>,
    b: OrdIndexedZSet<K, V, i64, usize>,
    r: OrdIndexedZSet<K, V, i64, usize>,
    pair: (K, V),
)
    ensures
        call_ensures(indexed_zset::<K, V, i64>, (items,), r) || call_ensures(
            OrdIndexedZSet::<K, V, i64, usize>::from_tuples,
            ((), items),
            r,
        ) ==> r.wf() && r.weight_of(pair.0, pair.1) == given_to(items@, pair).map_values(
            |w: i64| w as int,
        ).fold_left(0, |x: int, y: int| x + y),
        forall|m: &mut OrdIndexedZSetMerger<K, V, i64, usize>, fuel: &mut isize|
            #![trigger call_ensures(
                OrdIndexedZSetMerger::<K, V, i64, usize>::work, (m, &a, &b, fuel), ())]
            call_ensures(
                OrdIndexedZSetMerger::<K, V, i64, usize>::work,
                (m, &a, &b, fuel),
                (),
            ) && call_ensures(
                OrdIndexedZSetMerger::<K, V, i64, usize>::done,
                (*final(m),),
                r,
            ) ==> r.wf() && r.weight_of(pair.0, pair.1) == a.weight_of(pair.0, pair.1) + b.weight_of(pair.0, pair.1)
                && *final(fuel) == (if *fuel - r.layer.vals@.len() > 1 {
                *fuel - r.layer.vals@.len()
            } else {
                1
            }),
{
    integers_are_added_up(items@, Seq::empty(), Seq::empty(), pair);
    if call_ensures(indexed_zset::<K, V, i64>, (items,), r) || call_ensures(
        OrdIndexedZSet::<K, V, i64, usize>::from_tuples,
        ((), items),
        r,
    ) {
        assert(r.weight_of(pair.0, pair.1) == tally(items@, (pair.0, pair.1)));
    }
    let sum = <OrdIndexedZSet<K, V, i64, usize> as MonoidValue>::add_math(a.math(), b.math());
    assert(sum(pair) == a.weight_of(pair.0, pair.1) + b.weight_of(pair.0, pair.1));
    assert forall|m: &mut OrdIndexedZSetMerger<K, V, i64, usize>, fuel: &mut isize|
        #![trigger call_ensures(
            OrdIndexedZSetMerger::<K, V, i64, usize>::work, (m, &a, &b, fuel), ())]
        call_ensures(
            OrdIndexedZSetMerger::<K, V, i64, usize>::work,
            (m, &a, &b, fuel),
            (),
        ) && call_ensures(
            OrdIndexedZSetMerger::<K, V, i64, usize>::done,
            (*final(m),),
            r,
        ) implies r.wf() && r.weight_of(pair.0, pair.1) == a.weight_of(pair.0, pair.1) + b.weight_of(pair.0, pair.1)
        && *final(fuel) == (if *fuel - r.layer.vals@.len() > 1 {
            *fuel - r.layer.vals@.len()
        } else {
            1
        }) by {
        lemma_pair_count(r.layer.keys@, r.layer.offsets(), r.layer.vals@);
        assert(pair_weight(r.layer.rows(), pair.0, pair.1) == sum(pair));
    }
}

/// A builder without tuples gives an indexed batch without weights, and each tuple adds its
/// weight to that of its pair.
pub proof fn indexed_i64_builders_add_tuples<K: Ord + Clone, V: Ord + Clone>(
    item: ((K, V), i64),
    before_push: OrdIndexedZSet<K, V, i64, usize>,
    after_push: OrdIndexedZSet<K, V, i64, usize>,
    fresh: OrdIndexedZSetBuilder<K, V, i64, usize>,
    cap: usize,
    k: K,
    v: V,
)
    ensures
        (call_ensures(OrdIndexedZSetBuilder::<K, V, i64, usize>::new_builder, ((),), fresh)
            || call_ensures(
            OrdIndexedZSetBuilder::<K, V, i64, usize>::with_capacity,
            ((), cap),
            fresh,
        )) && call_ensures(OrdIndexedZSetBuilder::<K, V, i64, usize>::done, (fresh,), after_push)
            ==> after_push.wf() && after_push.weight_of(k, v) == 0,
        forall|b: &mut OrdIndexedZSetBuilder<K, V, i64, usize>|
            #![trigger call_ensures(OrdIndexedZSetBuilder::<K, V, i64, usize>::push, (b, item), ())]
            call_ensures(OrdIndexedZSetBuilder::<K, V, i64, usize>::push, (b, item), ())
                && call_ensures(
                OrdIndexedZSetBuilder::<K, V, i64, usize>::done,
                (*b,),
                before_push,
            ) && call_ensures(
                OrdIndexedZSetBuilder::<K, V, i64, usize>::done,
                (*final(b),),
                after_push,
            ) ==> after_push.wf() && after_push.weight_of(k, v) == before_push.weight_of(k, v) + (
            if (k, v) == item.0 {
                item.1 as int
            } else {
                0
            }),
{
    if call_ensures(OrdIndexedZSetBuilder::<K, V, i64, usize>::done, (fresh,), after_push) {
        assert(after_push.weight_of(k, v) == tally(fresh.pushed(), (k, v)));
    }
    assert forall|b: &mut OrdIndexedZSetBuilder<K, V, i64, usize>|
        #![trigger call_ensures(OrdIndexedZSetBuilder::<K, V, i64, usize>::push, (b, item), ())]
        call_ensures(OrdIndexedZSetBuilder::<K, V, i64, usize>::push, (b, item), ())
            && call_ensures(
            OrdIndexedZSetBuilder::<K, V, i64, usize>::done,
            (*b,),
            before_push,
        ) && call_ensures(
            OrdIndexedZSetBuilder::<K, V, i64, usize>::done,
            (*final(b),),
            after_push,
        ) implies after_push.wf() && after_push.weight_of(k, v) == before_push.weight_of(k, v) + (
    if (k, v) == item.0 {
        item.1 as int
    } else {
        0
    }) by {
        assert(before_push.weight_of(k, v) == tally(b.pushed(), (k, v)));
        assert(after_push.weight_of(k, v) == tally(final(b).pushed(), (k, v)));
        assert(final(b).pushed().drop_last() =~= b.pushed());
    }
}

/// What the operations on indexed batches with weights of type `i32` do to the weight of a
/// value of a key, in integers: sums add, and inverses change the sign.
pub proof fn indexed_i32_weights_follow_the_operations<K: Ord + Clone, V: Ord + Clone>(
    a: OrdIndexedZSet<K, V, i32, usize>,
    b: OrdIndexedZSet<K, V, i32, usize>,
    r: OrdIndexedZSet<K, V, i32, usize>,
    k: K,
    v: V,
)
    ensures
        call_ensures(OrdIndexedZSet::<K, V, i32, usize>::empty, ((),), r) ==> r.wf() && r.weight_of(
            k,
            v,
        ) == 0,
        call_ensures(<OrdIndexedZSet<K, V, i32, usize> as MonoidValue>::zero, (), r) ==> r.wf()
            && r.weight_of(k, v) == 0,
        call_ensures(<OrdIndexedZSet<K, V, i32, usize> as MonoidValue>::duplicate, (&a,), r)
            ==> r.wf() && r.weight_of(k, v) == a.weight_of(k, v),
        call_ensures(<OrdIndexedZSet<K, V, i32, usize> as MonoidValue>::add_by_ref, (&a, &b), r)
            ==> r.wf() && r.weight_of(k, v) == a.weight_of(k, v) + b.weight_of(k, v),
        call_ensures(OrdIndexedZSet::<K, V, i32, usize>::add, (a, b), r) ==> r.wf() && r.weight_of(
            k,
            v,
        ) == a.weight_of(k, v) + b.weight_of(k, v),
        forall|m: &mut OrdIndexedZSet<K, V, i32, usize>| #[trigger]
            call_ensures(
                <OrdIndexedZSet<K, V, i32, usize> as MonoidValue>::add_assign_by_ref,
                (m, &b),
                (),
            ) ==> final(m).wf() && final(m).weight_of(k, v) == m.weight_of(k, v) + b.weight_of(
                k,
                v,
            ),
        forall|m: &mut OrdIndexedZSet<K, V, i32, usize>| #[trigger]
            call_ensures(OrdIndexedZSet::<K, V, i32, usize>::add_assign, (m, b), ()) ==> final(
                m).wf() && final(m).weight_of(k, v) == m.weight_of(k, v) + b.weight_of(k, v),
        call_ensures(<OrdIndexedZSet<K, V, i32, usize> as GroupValue>::neg_by_ref, (&a,), r)
            ==> r.wf() && r.weight_of(k, v) == -a.weight_of(k, v),
        call_ensures(OrdIndexedZSet::<K, V, i32, usize>::neg, (a,), r) ==> r.wf() && r.weight_of(
            k,
            v,
        ) == -a.weight_of(k, v),
{
    let zero = <OrdIndexedZSet<K, V, i32, usize> as MonoidValue>::zero_math();
    let sum = <OrdIndexedZSet<K, V, i32, usize> as MonoidValue>::add_math(a.math(), b.math());
    let inverse = <OrdIndexedZSet<K, V, i32, usize> as GroupValue>::neg_math(a.math());
    assert((r.math())((k, v)) == r.weight_of(k, v));
    assert((a.math())((k, v)) == a.weight_of(k, v));
    assert((b.math())((k, v)) == b.weight_of(k, v));
    assert(zero((k, v)) == 0);
    assert(sum((k, v)) == a.weight_of(k, v) + b.weight_of(k, v));
    assert(inverse((k, v)) == -a.weight_of(k, v));
    assert forall|m: &mut OrdIndexedZSet<K, V, i32, usize>| #[trigger]
        call_ensures(
            <OrdIndexedZSet<K, V, i32, usize> as MonoidValue>::add_assign_by_ref,
            (m, &b),
            (),
        ) implies final(m).wf() && final(m).weight_of(k, v) == m.weight_of(k, v) + b.weight_of(
        k,
        v,
    ) by {
        let sum = <OrdIndexedZSet<K, V, i32, usize> as MonoidValue>::add_math(m.math(), b.math());
        assert((m.math())((k, v)) == m.weight_of(k, v));
        assert((final(m).math())((k, v)) == final(m).weight_of(k, v));
        assert(sum((k, v)) == m.weight_of(k, v) + b.weight_of(k, v));
    }
    assert forall|m: &mut OrdIndexedZSet<K, V, i32, usize>| #[trigger]
        call_ensures(OrdIndexedZSet::<K, V, i32, usize>::add_assign, (m, b), ()) implies final(
    m).wf() && final(m).weight_of(k, v) == m.weight_of(k, v) + b.weight_of(k, v) by {
        let sum = <OrdIndexedZSet<K, V, i32, usize> as MonoidValue>::add_math(m.math(), b.math());
        assert((m.math())((k, v)) == m.weight_of(k, v));
        assert((final(m).math())((k, v)) == final(m).weight_of(k, v));
        assert(sum((k, v)) == m.weight_of(k, v) + b.weight_of(k, v));
    }
}

/// An indexed batch made from tuples gives each pair the sum of the integers that the
/// tuples give to it, and merging two batches gives each pair the sum of its weights in
/// both.
pub proof fn indexed_i32_weights_are_added_up<K: Ord + Clone, V: Ord + Clone>(
    items: Vec<((K, V), i32)>,
    a: OrdIndexedZSet<K, V, i32, usize>,
    b: OrdIndexedZSet<K, V, i32, usize>,
    r: OrdIndexedZSet<K, V, i32, usize>,
    pair: (K, V),
)
    ensures
        call_ensures(indexed_zset::<K, V, i32>, (items,), r) || call_ensures(
            OrdIndexedZSet::<K, V, i32, usize>::from_tuples,
            ((), items),
            r,
        ) ==> r.wf() && r.weight_of(pair.0, pair.1) == given_to(items@, pair).map_values(
            |w: i32| w as int,
        ).fold_left(0, |x: int, y: int| x + y),
        forall|m: &mut OrdIndexedZSetMerger<K, V, i32, usize>, fuel: &mut isize|
            #![trigger call_ensures(
                OrdIndexedZSetMerger::<K, V, i32, usize>::work, (m, &a, &b, fuel), ())]
            call_ensures(
                OrdIndexedZSetMerger::<K, V, i32, usize>::work,
                (m, &a, &b, fuel),
                (),
            ) && call_ensures(
                OrdIndexedZSetMerger::<K, V, i32, usize>::done,
                (*final(m),),
                r,
            ) ==> r.wf() && r.weight_of(pair.0, pair.1) == a.weight_of(pair.0, pair.1) + b.weight_of(pair.0, pair.1)
                && *final(fuel) == (if *fuel - r.layer.vals@.len() > 1 {
                *fuel - r.layer.vals@.len()
            } else {
                1
            }),
{
    integers_are_added_up(Seq::empty(), items@, Seq::empty(), pair);
    if call_ensures(indexed_zset::<K, V, i32>, (items,), r) || call_ensures(
        OrdIndexedZSet::<K, V, i32, usize>::from_tuples,
        ((), items),
        r,
    ) {
        assert(r.weight_of(pair.0, pair.1) == tally(items@, (pair.0, pair.1)));
    }
    let sum = <OrdIndexedZSet<K, V, i32, usize> as MonoidValue>::add_math(a.math(), b.math());
    assert(sum(pair) == a.weight_of(pair.0, pair.1) + b.weight_of(pair.0, pair.1));
    assert forall|m: &mut OrdIndexedZSetMerger<K, V, i32, usize>, fuel: &mut isize|
        #![trigger call_ensures(
            OrdIndexedZSetMerger::<K, V, i32, usize>::work, (m, &a, &b, fuel), ())]
        call_ensures(
            OrdIndexedZSetMerger::<K, V, i32, usize>::work,
            (m, &a, &b, fuel),
            (),
        ) && call_ensures(
            OrdIndexedZSetMerger::<K, V, i32, usize>::done,
            (*final(m),),
            r,
        ) implies r.wf() && r.weight_of(pair.0, pair.1) == a.weight_of(pair.0, pair.1) + b.weight_of(pair.0, pair.1)
        && *final(fuel) == (if *fuel - r.layer.vals@.len() > 1 {
            *fuel - r.layer.vals@.len()
        } else {
            1
        }) by {
        lemma_pair_count(r.layer.keys@, r.layer.offsets(), r.layer.vals@);
        assert(pair_weight(r.layer.rows(), pair.0, pair.1) == sum(pair));
    }
}

/// A builder without tuples gives an indexed batch without weights, and each tuple adds its
/// weight to that of its pair.
pub proof fn indexed_i32_builders_add_tuples<K: Ord + Clone, V: Ord + Clone>(
    item: ((K, V), i32),
    before_push: OrdIndexedZSet<K, V, i32, usize>,
    after_push: OrdIndexedZSet<K, V, i32, usize>,
    fresh: OrdIndexedZSetBuilder<K, V, i32, usize>,
    cap: usize,
    k: K,
    v: V,
)
    ensures
        (call_ensures(OrdIndexedZSetBuilder::<K, V, i32, usize>::new_builder, ((),), fresh)
            || call_ensures(
            OrdIndexedZSetBuilder::<K, V, i32, usize>::with_capacity,
            ((), cap),
            fresh,
        )) && call_ensures(OrdIndexedZSetBuilder::<K, V, i32, usize>::done, (fresh,), after_push)
            ==> after_push.wf() && after_push.weight_of(k, v) == 0,
        forall|b: &mut OrdIndexedZSetBuilder<K, V, i32, usize>|
            #![trigger call_ensures(OrdIndexedZSetBuilder::<K, V, i32, usize>::push, (b, item), ())]
            call_ensures(OrdIndexedZSetBuilder::<K, V, i32, usize>::push, (b, item), ())
                && call_ensures(
                OrdIndexedZSetBuilder::<K, V, i32, usize>::done,
                (*b,),
                before_push,
            ) && call_ensures(
                OrdIndexedZSetBuilder::<K, V, i32, usize>::done,
                (*final(b),),
                after_push,
            ) ==> after_push.wf() && after_push.weight_of(k, v) == before_push.weight_of(k, v) + (
            if (k, v) == item.0 {
                item.1 as int
            } else {
                0
            }),
{
    if call_ensures(OrdIndexedZSetBuilder::<K, V, i32, usize>::done, (fresh,), after_push) {
        assert(after_push.weight_of(k, v) == tally(fresh.pushed(), (k, v)));
    }
    assert forall|b: &mut OrdIndexedZSetBuilder<K, V, i32, usize>|
        #![trigger call_ensures(OrdIndexedZSetBuilder::<K, V, i32, usize>::push, (b, item), ())]
        call_ensures(OrdIndexedZSetBuilder::<K, V, i32, usize>::push, (b, item), ())
            && call_ensures(
            OrdIndexedZSetBuilder::<K, V, i32, usize>::done,
            (*b,),
            before_push,
        ) && call_ensures(
            OrdIndexedZSetBuilder::<K, V, i32, usize>::done,
            (*final(b),),
            after_push,
        ) implies after_push.wf() && after_push.weight_of(k, v) == before_push.weight_of(k, v) + (
    if (k, v) == item.0 {
        item.1 as int
    } else {
        0
    }) by {
        assert(before_push.weight_of(k, v) == tally(b.pushed(), (k, v)));
        assert(after_push.weight_of(k, v) == tally(final(b).pushed(), (k, v)));
        assert(final(b).pushed().drop_last() =~= b.pushed());
    }
}

/// A cursor shows the key, the value and the weight at its two positions in the rows, and says
/// whether there are any.
pub proof fn cursors_show_where_they_stand<
    's,
    K: Ord + Clone,
    V: Ord + Clone,
    R: MonoidValue,
    O: OrdOffset,
>(
    c: OrdIndexedZSetCursor<'s, K, V, R, O>,
    key: &K,
    val: &V,
    valid: bool,
)
    requires
        c.wf(),
    ensures
        call_ensures(OrdIndexedZSetCursor::<'s, K, V, R, O>::key_valid, (&c,), valid) ==> (valid
            <==> c.key_index() < c.rows().len()),
        call_ensures(OrdIndexedZSetCursor::<'s, K, V, R, O>::val_valid, (&c,), valid) ==> (valid
            <==> c.key_index() < c.rows().len() && c.val_index() < c.rows()[c.key_index()].1.len()),
        c.key_index() < c.rows().len() && call_ensures(
            OrdIndexedZSetCursor::<'s, K, V, R, O>::key,
            (&c,),
            key,
        ) ==> *key == c.rows()[c.key_index()].0,
        c.key_index() < c.rows().len() && c.val_index() < c.rows()[c.key_index()].1.len()
            && call_ensures(OrdIndexedZSetCursor::<'s, K, V, R, O>::val, (&c,), val) ==> *val
            == c.rows()[c.key_index()].1[c.val_index()].0,
{
    c.lemma_within();
}

/// A batch has as many keys as its rows, and as many pairs as there are values in them.
pub proof fn sizes_count_keys_and_pairs<K: Ord + Clone, V: Ord + Clone, R: MonoidValue>(
    a: OrdIndexedZSet<K, V, R, usize>,
    n: usize,
    empty: bool,
)
    requires
        a.wf(),
    ensures
        call_ensures(OrdIndexedZSet::<K, V, R, usize>::key_count, (&a,), n) || call_ensures(
            OrdIndexedZSet::<K, V, R, usize>::num_entries_shallow,
            (&a,),
            n,
        ) ==> n == a.layer.keys@.len(),
        call_ensures(OrdIndexedZSet::<K, V, R, usize>::len, (&a,), n) || call_ensures(
            OrdIndexedZSet::<K, V, R, usize>::num_entries_deep,
            (&a,),
            n,
        ) ==> n == a.layer.vals@.len(),
        call_ensures(OrdIndexedZSet::<K, V, R, usize>::is_empty, (&a,), empty) ==> (empty
            <==> a.layer.vals@.len() == 0),
{
    lemma_pair_count(a.layer.keys@, a.layer.offsets(), a.layer.vals@);
}

/// The text of a value with its weight takes a line of its own.
pub proof fn values_are_shown_on_lines<V: Text, R: Text>(v: V, w: R)
    ensures
        values_text(seq![(v, w)]) == v.text() + seq![' ', '-', '>', ' '] + w.text() + seq!['\n'],
        values_text(Seq::<(V, R)>::empty()).len() == 0,
{
    reveal_strlit(" -> ");
    reveal_strlit("\n");
    assert(" -> "@ =~= seq![' ', '-', '>', ' ']);
    assert("\n"@ =~= seq!['\n']);
    reveal_with_fuel(values_text, 2);
    assert(seq![(v, w)].drop_last() =~= Seq::empty());
    assert(Seq::<char>::empty() + v.text() =~= v.text());
}

/// The texts of values follow each other in order.
pub proof fn texts_of_values_follow_each_other<V: Text, R: Text>(s: Seq<(V, R)>, t: Seq<(V, R)>)
    ensures
        values_text(s + t) == values_text(s) + values_text(t),
    decreases t.len(),
{
    if t.len() > 0 {
        texts_of_values_follow_each_other(s, t.drop_last());
        assert((s + t).drop_last() =~= s + t.drop_last());
        let (x, y) = (values_text(s), values_text(t.drop_last()));
        let (a, b, c, d) = (t.last().0.text(), " -> "@, t.last().1.text(), "\n"@);
        assert(x + y + a + b + c + d =~= x + (y + a + b + c + d));
    } else {
        assert(s + t =~= s);
        assert(values_text(s) + values_text(t) =~= values_text(s));
    }
}

/// A key stands on a line, and its values below it.
pub proof fn keys_are_shown_above_their_values<K: Text, V: Text, R: Text>(k: K, s: Seq<(V, R)>)
    ensures
        rows_text(seq![(k, s)]) == k.text() + seq![':', '\n'] + indented(
            values_text(s),
            seq![' ', ' ', ' ', ' '],
        ) + seq!['\n'],
        rows_text(Seq::<(K, Seq<(V, R)>)>::empty()).len() == 0,
{
    reveal_strlit("\n");
    reveal_strlit(":\n");
    reveal_strlit("    ");
    assert("\n"@ =~= seq!['\n']);
    assert(":\n"@ =~= seq![':', '\n']);
    assert("    "@ =~= seq![' ', ' ', ' ', ' ']);
    reveal_with_fuel(rows_text, 2);
    assert(seq![(k, s)].drop_last() =~= Seq::empty());
    assert(Seq::<char>::empty() + k.text() =~= k.text());
}

/// The texts of rows follow each other in order.
pub proof fn texts_of_rows_follow_each_other<K: Text, V: Text, R: Text>(
    rows: Seq<(K, Seq<(V, R)>)>,
    more: Seq<(K, Seq<(V, R)>)>,
)
    ensures
        rows_text(rows + more) == rows_text(rows) + rows_text(more),
    decreases more.len(),
{
    if more.len() > 0 {
        texts_of_rows_follow_each_other(rows, more.drop_last());
        assert((rows + more).drop_last() =~= rows + more.drop_last());
        let (x, y) = (rows_text(rows), rows_text(more.drop_last()));
        let (a, b, c, d) = (
            more.last().0.text(),
            ":\n"@,
            indented(values_text(more.last().1), "    "@),
            "\n"@,
        );
        assert(x + y + a + b + c + d =~= x + (y + a + b + c + d));
    } else {
        assert(rows + more =~= rows);
        assert(rows_text(rows) + rows_text(more) =~= rows_text(rows));
    }
}

/// A batch of keys gives each key one value, the one made from the unit, with the sum of the
/// integers given to the key.
pub proof fn keys_get_the_unit_value<K: Ord + Clone, V: Ord + Clone + From<()>>(
    keys: Vec<(K, i64)>,
    r: OrdIndexedZSet<K, V, i64, usize>,
    k: K,
    v: V,
)
    requires
        call_ensures(OrdIndexedZSet::<K, V, i64, usize>::from_keys, ((), keys), r),
    ensures
        r.wf(),
        r.weight_of(k, v) == if v == V::from_spec(()) {
            given_to(keys@, k).map_values(|w: i64| w as int).fold_left(0, |x: int, y: int| x + y)
        } else {
            0
        },
{
    integers_are_added_up(keys@, Seq::empty(), Seq::empty(), k);
}

/// Indexed batches are equal exactly when they give every pair the same weight.
pub proof fn equal_batches_have_equal_weights<
    K: Ord + Clone,
    V: Ord + Clone,
    R: MonoidValue,
    O: OrdOffset,
>(a: OrdIndexedZSet<K, V, R, O>, b: OrdIndexedZSet<K, V, R, O>, r: bool)
    requires
        OrdIndexedZSet::<K, V, R, O>::lawful(),
        a.wf(),
        b.wf(),
        call_ensures(<OrdIndexedZSet<K, V, R, O> as MonoidValue>::equals, (&a, &b), r),
    ensures
        r <==> forall|k: K, v: V| #[trigger] a.weight_of(k, v) == b.weight_of(k, v),
{
    if forall|k: K, v: V| #[trigger] a.weight_of(k, v) == b.weight_of(k, v) {
        assert forall|kv: (K, V)| #[trigger] (a.math())(kv) == (b.math())(kv) by {
            assert(a.weight_of(kv.0, kv.1) == b.weight_of(kv.0, kv.1));
        }
        assert(a.math() =~= b.math());
    }
    if a.math() == b.math() {
        assert forall|k: K, v: V| #[trigger] a.weight_of(k, v) == b.weight_of(k, v) by {
            assert((a.math())((k, v)) == (b.math())((k, v)));
        }
    }
}

/// A batch is shown as its rows, indented below a heading.
pub proof fn batches_are_shown_below_a_heading<
    K: Ord + Clone + Text,
    V: Ord + Clone + Text,
    R: MonoidValue + Text,
    O: OrdOffset,
>(a: OrdIndexedZSet<K, V, R, O>, text: &str, r: String)
    ensures
        call_ensures(OrdIndexedZSet::<K, V, R, O>::to_text, (&a,), r) ==> r@ == seq![
            'l',
            'a',
            'y',
            'e',
            'r',
            ':',
            '\n',
        ] + indented(rows_text(a.rows()), seq![' ', ' ', ' ', ' ']) + seq!['\n'],
        call_ensures(layer_text, (text,), r) ==> r@ == seq!['l', 'a', 'y', 'e', 'r', ':', '\n']
            + text@ + seq!['\n'],
{
    reveal_strlit("layer:\n");
    reveal_strlit("\n");
    reveal_strlit("    ");
    assert("layer:\n"@ =~= seq!['l', 'a', 'y', 'e', 'r', ':', '\n']);
    assert("\n"@ =~= seq!['\n']);
    assert("    "@ =~= seq![' ', ' ', ' ', ' ']);
}

} // verus!
