//! The values of one key, handed out one by one.

use core::marker::PhantomData;
use vstd::prelude::*;

verus! {

/// The values of a key that have not been handed out, the next one last.
pub struct OrderedLayerValues<'a, V, R> {
    rest: Vec<(V, R)>,
    layer: PhantomData<&'a ()>,
}

impl<'a, V, R> OrderedLayerValues<'a, V, R> {
    /// The values still to come, in order.
    pub closed spec fn remaining(&self) -> Seq<(V, R)> {
        self.rest@.reverse()
    }

    /// Values to be handed out in the given order.
    pub fn new(values: Vec<(V, R)>) -> (r: Self)
        ensures
            r.remaining() == values@,
    {
        let mut values = values;
        let mut rest: Vec<(V, R)> = Vec::new();
        let ghost all = values@;
        while values.len() > 0
            invariant
                values@.len() <= all.len(),
                values@ =~= all.take(values@.len() as int),
                rest@ =~= all.skip(values@.len() as int).reverse(),
            decreases values@.len(),
        {
            match values.pop() {
                Some(item) => {
                    rest.push(item);
                },
                None => {},
            }
        }
        let r = OrderedLayerValues { rest, layer: PhantomData };
        assert(r.remaining() =~= all);
        r
    }

    /// Whether a value is still to come.
    pub fn value_valid(&self) -> (r: bool)
        ensures
            r == (self.remaining().len() > 0),
    {
        self.rest.len() > 0
    }

    /// The next value with its weight.
    pub fn next_value(&mut self) -> (r: (V, R, ()))
        requires
            old(self).remaining().len() > 0,
        ensures
            (r.0, r.1) == old(self).remaining()[0],
            final(self).remaining() == old(self).remaining().skip(1),
    {
        let ghost before = self.rest@;
        match self.rest.pop() {
            Some((val, weight)) => {
                assert(self.rest@.reverse() =~= before.reverse().skip(1));
                (val, weight, ())
            },
            None => vstd::pervasive::unreached(),
        }
    }

    /// The number of values still to come.
    pub fn remaining_values(&self) -> (r: usize)
        ensures
            r == self.remaining().len(),
    {
        self.rest.len()
    }
}

} // verus!
