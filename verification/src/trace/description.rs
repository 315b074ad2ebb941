//! Descriptions of the times that a batch covers.

use timely::progress::Antichain;
use vstd::prelude::*;

verus! {

/// A set of incomparable times, declared as an opaque type.
#[verifier::external_type_specification]
#[verifier::external_body]
#[verifier::reject_recursive_types(T)]
pub struct ExAntichain<T>(Antichain<T>);

/// The times that a frontier lists, in its order.
pub uninterp spec fn times_of(frontier: Antichain<()>) -> Seq<()>;

/// Calls `timely::progress::Antichain::new`, which makes a frontier that lists
/// no time.
#[verifier::external_body]
fn no_times() -> (r: Antichain<()>)
    ensures
        times_of(r) == Seq::<()>::empty(),
{
    Antichain::new()
}

/// Calls `timely::progress::Antichain::from_elem`, which makes a frontier that
/// lists the given time.
#[verifier::external_body]
fn one_time(time: ()) -> (r: Antichain<()>)
    ensures
        times_of(r) == seq![time],
{
    Antichain::from_elem(time)
}

/// Calls `timely::progress::Antichain::insert`.  The unit is less than or equal
/// to itself, so it enters exactly those frontiers that list nothing, and
/// otherwise the frontier stays.
#[verifier::external_body]
fn insert_time(frontier: &mut Antichain<()>, time: ()) -> (r: bool)
    ensures
        r == (times_of(*old(frontier)).len() == 0),
        times_of(*final(frontier)) == if times_of(*old(frontier)).len() == 0 {
            seq![time]
        } else {
            times_of(*old(frontier))
        },
{
    frontier.insert(time)
}

/// Calls `timely::progress::Antichain::elements`, which lends the listed times.
#[verifier::external_body]
fn listed_times(frontier: &Antichain<()>) -> (r: &[()])
    ensures
        r@ == times_of(*frontier),
{
    frontier.elements()
}

/// Calls the `clone` of `timely::progress::Antichain`, which copies the list of
/// times.
#[verifier::external_body]
fn copied_times(frontier: &Antichain<()>) -> (r: Antichain<()>)
    ensures
        times_of(r) == times_of(*frontier),
{
    frontier.clone()
}

/// Compares two frontiers by the `==` of `timely::progress::Antichain`.  All
/// units are equal, so frontiers are equal when they list equally many.
#[verifier::external_body]
fn same_times(a: &Antichain<()>, b: &Antichain<()>) -> (r: bool)
    ensures
        r == (times_of(*a).len() == times_of(*b).len()),
{
    a == b
}

/// The times that `meet` lists.
pub open spec fn met(a: Seq<()>, b: Seq<()>) -> Seq<()> {
    if a.len() > 0 || b.len() > 0 {
        seq![()]
    } else {
        Seq::empty()
    }
}

/// The times that `join` lists.
pub open spec fn joined(a: Seq<()>, b: Seq<()>) -> Seq<()> {
    if a.len() > 0 && b.len() > 0 {
        seq![()]
    } else {
        Seq::empty()
    }
}

/// The greatest lower bound of two frontiers: the minimal times of both.
pub fn meet(a: &Antichain<()>, b: &Antichain<()>) -> (r: Antichain<()>)
    ensures
        times_of(r) == met(times_of(*a), times_of(*b)),
{
    let mut result = no_times();
    let left = listed_times(a);
    let mut i: usize = 0;
    while i < left.len()
        invariant
            i <= left@.len(),
            times_of(result) == met(left@.take(i as int), Seq::empty()),
        decreases left@.len() - i,
    {
        insert_time(&mut result, left[i]);
        i += 1;
    }
    let right = listed_times(b);
    let mut j: usize = 0;
    while j < right.len()
        invariant
            j <= right@.len(),
            times_of(result) == met(left@, right@.take(j as int)),
        decreases right@.len() - j,
    {
        insert_time(&mut result, right[j]);
        j += 1;
    }
    result
}

/// The least upper bound of two frontiers: the minimal joins of a time of one
/// with a time of the other.
pub fn join(a: &Antichain<()>, b: &Antichain<()>) -> (r: Antichain<()>)
    ensures
        times_of(r) == joined(times_of(*a), times_of(*b)),
{
    let mut result = no_times();
    let left = listed_times(a);
    let right = listed_times(b);
    let mut i: usize = 0;
    while i < left.len()
        invariant
            i <= left@.len(),
            times_of(result) == joined(left@.take(i as int), right@),
        decreases left@.len() - i,
    {
        let mut j: usize = 0;
        while j < right.len()
            invariant
                i < left@.len(),
                j <= right@.len(),
                times_of(result) == if j > 0 {
                    seq![()]
                } else {
                    joined(left@.take(i as int), right@)
                },
                right@.len() == 0 ==> times_of(result).len() == 0,
            decreases right@.len() - j,
        {
            insert_time(&mut result, ());
            j += 1;
        }
        i += 1;
    }
    result
}

/// The times of a batch: from a lower frontier up to an upper one.
#[derive(Debug)]
#[verifier::reject_recursive_types(Time)]
pub struct Description<Time> {
    lower: Antichain<Time>,
    upper: Antichain<Time>,
}

impl Description<()> {
    /// The times of the lower frontier.
    pub closed spec fn from_times(&self) -> Seq<()> {
        times_of(self.lower)
    }

    /// The times of the upper frontier.
    pub closed spec fn to_times(&self) -> Seq<()> {
        times_of(self.upper)
    }

    /// The description covers everything: it starts at the only time there is
    /// and has no end.
    pub open spec fn is_total(&self) -> bool {
        self.from_times() == seq![()] && self.to_times() == Seq::<()>::empty()
    }

    /// The description that covers everything.
    pub fn total() -> (r: Self)
        ensures
            r.is_total(),
    {
        Description { lower: one_time(()), upper: no_times() }
    }

    /// The description with the given frontiers.
    pub fn new(lower: Antichain<()>, upper: Antichain<()>) -> (r: Self)
        ensures
            r.from_times() == times_of(lower),
            r.to_times() == times_of(upper),
    {
        Description { lower, upper }
    }

    /// The lower frontier.
    pub fn lower(&self) -> (r: &Antichain<()>)
        ensures
            times_of(*r) == self.from_times(),
    {
        &self.lower
    }

    /// The upper frontier.
    pub fn upper(&self) -> (r: &Antichain<()>)
        ensures
            times_of(*r) == self.to_times(),
    {
        &self.upper
    }

    /// The description of the sum of two batches.
    pub fn combine(&self, other: &Self) -> (r: Self)
        ensures
            r.from_times() == met(self.from_times(), other.from_times()),
            r.to_times() == joined(self.to_times(), other.to_times()),
    {
        Description::new(meet(self.lower(), other.lower()), join(self.upper(), other.upper()))
    }

    /// Whether two descriptions have the same frontiers.
    pub fn equals(&self, other: &Self) -> (r: bool)
        ensures
            r == (self.from_times() == other.from_times() && self.to_times() == other.to_times()),
    {
        let r = same_times(&self.lower, &other.lower) && same_times(&self.upper, &other.upper);
        proof {
            if r {
                assert(self.from_times() =~= other.from_times());
                assert(self.to_times() =~= other.to_times());
            }
        }
        r
    }
}

impl Clone for Description<()> {
    fn clone(&self) -> (r: Self)
        ensures
            r.from_times() == self.from_times(),
            r.to_times() == self.to_times(),
    {
        Description { lower: copied_times(&self.lower), upper: copied_times(&self.upper) }
    }
}

/// The greatest lower bound of two frontiers lists a time exactly where one of them does, the
/// least upper bound exactly where both do, and neither lists the only time twice.
pub proof fn bounds_of_frontiers(
    a: Antichain<()>,
    b: Antichain<()>,
    lower: Antichain<()>,
    upper: Antichain<()>,
)
    requires
        call_ensures(meet, (&a, &b), lower),
        call_ensures(join, (&a, &b), upper),
    ensures
        times_of(lower).len() <= 1,
        times_of(lower).len() == 1 <==> times_of(a).len() > 0 || times_of(b).len() > 0,
        times_of(upper).len() <= 1,
        times_of(upper).len() == 1 <==> times_of(a).len() > 0 && times_of(b).len() > 0,
{
}

/// What two descriptions cover together starts where one of them starts, and ends only where
/// both do; the total description starts at the only time there is, and has no end.
pub proof fn descriptions_cover_what_they_combine(
    a: Description<()>,
    b: Description<()>,
    r: Description<()>,
    same: bool,
    lower: Antichain<()>,
    upper: Antichain<()>,
)
    ensures
        call_ensures(Description::<()>::combine, (&a, &b), r) ==> {
            &&& r.from_times().len() <= 1 && r.to_times().len() <= 1
            &&& r.from_times().len() == 1 <==> a.from_times().len() > 0 || b.from_times().len() > 0
            &&& r.to_times().len() == 1 <==> a.to_times().len() > 0 && b.to_times().len() > 0
        },
        call_ensures(Description::<()>::total, (), r) ==> r.from_times().len() == 1
            && r.to_times().len() == 0,
        call_ensures(Description::<()>::new, (lower, upper), r) ==> r.from_times() == times_of(
            lower,
        ) && r.to_times() == times_of(upper),
        call_ensures(<Description<()> as Clone>::clone, (&a,), r) ==> r.from_times()
            == a.from_times() && r.to_times() == a.to_times(),
        call_ensures(Description::<()>::equals, (&a, &b), same) ==> (same <==> a.from_times().len()
            == b.from_times().len() && a.to_times().len() == b.to_times().len()),
{
    if a.from_times().len() == b.from_times().len() {
        assert(a.from_times() =~= b.from_times());
    }
    if a.to_times().len() == b.to_times().len() {
        assert(a.to_times() =~= b.to_times());
    }
}

/// The times of a description can be read.
pub proof fn frontiers_can_be_read(
    d: Description<()>,
    lower: &Antichain<()>,
    upper: &Antichain<()>,
)
    ensures
        call_ensures(Description::<()>::lower, (&d,), lower) ==> times_of(*lower) == d.from_times(),
        call_ensures(Description::<()>::upper, (&d,), upper) ==> times_of(*upper) == d.to_times(),
{
}

} // verus!
