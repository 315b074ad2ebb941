//! Algebraic structures that weights belong to.
//!
//! A weight type is described by the mathematical values its elements stand
//! for.  Machine integers cannot stand for every sum, so each operation asks
//! that its result be one of the values the type holds.

pub mod finite_map;
pub mod sums;

use vstd::prelude::*;

verus! {

/// A commutative monoid.
pub trait MonoidValue: Clone + Sized {
    /// The mathematical values that elements of the type stand for.
    type Math;

    /// Holds when the types that this type is built from obey the contracts of
    /// the standard traits they implement.
    spec fn lawful() -> bool;

    /// The invariant of an element.
    spec fn wf(&self) -> bool;

    /// The mathematical value of an element.
    spec fn math(&self) -> Self::Math;

    /// The neutral value.
    spec fn zero_math() -> Self::Math;

    /// The sum of two values.
    spec fn add_math(a: Self::Math, b: Self::Math) -> Self::Math;

    /// Whether an element of the type can stand for the value.
    spec fn holds(m: Self::Math) -> bool;

    /// Addition commutes.
    proof fn add_commutes(a: Self::Math, b: Self::Math)
        ensures
            Self::add_math(a, b) == Self::add_math(b, a),
    ;

    /// Addition associates.
    proof fn add_associates(a: Self::Math, b: Self::Math, c: Self::Math)
        ensures
            Self::add_math(Self::add_math(a, b), c) == Self::add_math(a, Self::add_math(b, c)),
    ;

    /// Zero is neutral.
    proof fn zero_is_neutral(a: Self::Math)
        ensures
            Self::add_math(Self::zero_math(), a) == a,
    ;

    /// The values of elements are held by the type.
    proof fn math_is_held(&self)
        requires
            Self::lawful(),
            self.wf(),
        ensures
            Self::holds(self.math()),
    ;

    /// Zero is held by the type.
    proof fn zero_is_held()
        requires
            Self::lawful(),
        ensures
            Self::holds(Self::zero_math()),
    ;

    /// The neutral element.
    fn zero() -> (r: Self)
        requires
            Self::lawful(),
        ensures
            r.wf(),
            r.math() == Self::zero_math(),
    ;

    /// Whether the element is neutral.
    fn is_zero(&self) -> (r: bool)
        requires
            Self::lawful(),
            self.wf(),
        ensures
            r == (self.math() == Self::zero_math()),
    ;

    /// Whether two elements stand for the same value.
    fn equals(&self, other: &Self) -> (r: bool)
        requires
            Self::lawful(),
            self.wf(),
            other.wf(),
        ensures
            r == (self.math() == other.math()),
    ;

    /// Another element with the same value.
    fn duplicate(&self) -> (r: Self)
        requires
            Self::lawful(),
            self.wf(),
        ensures
            r.wf(),
            r.math() == self.math(),
    ;

    /// The sum of two elements.
    fn add_by_ref(&self, other: &Self) -> (r: Self)
        requires
            Self::lawful(),
            self.wf(),
            other.wf(),
            Self::holds(Self::add_math(self.math(), other.math())),
        ensures
            r.wf(),
            r.math() == Self::add_math(self.math(), other.math()),
    ;

    /// Increases the element by another one.
    fn add_assign_by_ref(&mut self, other: &Self)
        requires
            Self::lawful(),
            old(self).wf(),
            other.wf(),
            Self::holds(Self::add_math(old(self).math(), other.math())),
        ensures
            final(self).wf(),
            final(self).math() == Self::add_math(old(self).math(), other.math()),
    ;
}

/// A commutative group.
pub trait GroupValue: MonoidValue {
    /// The inverse of a value.
    spec fn neg_math(a: Self::Math) -> Self::Math;

    /// A value and its inverse cancel out.
    proof fn neg_cancels(a: Self::Math)
        ensures
            Self::add_math(a, Self::neg_math(a)) == Self::zero_math(),
    ;

    /// The inverse of an element.
    fn neg_by_ref(&self) -> (r: Self)
        requires
            Self::lawful(),
            self.wf(),
            Self::holds(Self::neg_math(self.math())),
        ensures
            r.wf(),
            r.math() == Self::neg_math(self.math()),
    ;
}

/// A group with a unit and an order relative to zero.
pub trait ZRingValue: GroupValue {
    /// The unit.
    spec fn one_math() -> Self::Math;

    /// Whether a value is zero or above.
    spec fn nonnegative(a: Self::Math) -> bool;

    /// The unit is not zero.
    proof fn one_is_not_zero()
        ensures
            Self::one_math() != Self::zero_math(),
    ;

    /// The unit is above zero.
    proof fn one_is_nonnegative()
        ensures
            Self::nonnegative(Self::one_math()),
    ;

    /// The inverse of the unit is below zero.
    proof fn minus_one_is_negative()
        ensures
            !Self::nonnegative(Self::neg_math(Self::one_math())),
    ;

    /// The inverse of the unit is held by the type.
    proof fn minus_one_is_held()
        requires
            Self::lawful(),
        ensures
            Self::holds(Self::neg_math(Self::one_math())),
    ;

    /// Of a value and its inverse exactly one is zero or above, unless they are zero.
    proof fn signs_are_opposite(a: Self::Math)
        ensures
            Self::nonnegative(Self::zero_math()),
            a != Self::zero_math() ==> (Self::nonnegative(a) <==> !Self::nonnegative(
                Self::neg_math(a),
            )),
    ;

    /// Sums of values that are zero or above are so too.
    proof fn nonnegatives_add_up(a: Self::Math, b: Self::Math)
        ensures
            Self::nonnegative(a) && Self::nonnegative(b) ==> Self::nonnegative(
                Self::add_math(a, b),
            ),
    ;

    /// The unit element.
    fn one() -> (r: Self)
        requires
            Self::lawful(),
        ensures
            r.wf(),
            r.math() == Self::one_math(),
    ;

    /// Whether the element is zero or above.
    fn ge0(&self) -> (r: bool)
        requires
            Self::lawful(),
            self.wf(),
        ensures
            r == Self::nonnegative(self.math()),
    ;
}

impl MonoidValue for i64 {
    type Math = int;

    open spec fn lawful() -> bool {
        true
    }

    open spec fn wf(&self) -> bool {
        true
    }

    open spec fn math(&self) -> int {
        *self as int
    }

    open spec fn zero_math() -> int {
        0
    }

    open spec fn add_math(a: int, b: int) -> int {
        a + b
    }

    open spec fn holds(m: int) -> bool {
        i64::MIN <= m <= i64::MAX
    }

    proof fn add_commutes(a: int, b: int) {
    }

    proof fn add_associates(a: int, b: int, c: int) {
    }

    proof fn zero_is_neutral(a: int) {
    }

    proof fn math_is_held(&self) {
    }

    proof fn zero_is_held() {
    }

    fn zero() -> (r: Self) {
        0
    }

    fn is_zero(&self) -> (r: bool) {
        *self == 0
    }

    fn equals(&self, other: &Self) -> (r: bool) {
        *self == *other
    }

    fn duplicate(&self) -> (r: Self) {
        *self
    }

    fn add_by_ref(&self, other: &Self) -> (r: Self) {
        *self + *other
    }

    fn add_assign_by_ref(&mut self, other: &Self) {
        *self = *self + *other;
    }
}

impl GroupValue for i64 {
    open spec fn neg_math(a: int) -> int {
        -a
    }

    proof fn neg_cancels(a: int) {
    }

    fn neg_by_ref(&self) -> (r: Self) {
        -*self
    }
}

impl ZRingValue for i64 {
    open spec fn one_math() -> int {
        1
    }

    open spec fn nonnegative(a: int) -> bool {
        a >= 0
    }

    proof fn one_is_not_zero() {
    }

    proof fn one_is_nonnegative() {
    }

    proof fn minus_one_is_negative() {
    }

    proof fn minus_one_is_held() {
    }

    fn one() -> (r: Self) {
        1
    }

    fn ge0(&self) -> (r: bool) {
        *self >= 0
    }

    proof fn signs_are_opposite(a: int) {
    }

    proof fn nonnegatives_add_up(a: int, b: int) {
    }
}

impl MonoidValue for i32 {
    type Math = int;

    open spec fn lawful() -> bool {
        true
    }

    open spec fn wf(&self) -> bool {
        true
    }

    open spec fn math(&self) -> int {
        *self as int
    }

    open spec fn zero_math() -> int {
        0
    }

    open spec fn add_math(a: int, b: int) -> int {
        a + b
    }

    open spec fn holds(m: int) -> bool {
        i32::MIN <= m <= i32::MAX
    }

    proof fn add_commutes(a: int, b: int) {
    }

    proof fn add_associates(a: int, b: int, c: int) {
    }

    proof fn zero_is_neutral(a: int) {
    }

    proof fn math_is_held(&self) {
    }

    proof fn zero_is_held() {
    }

    fn zero() -> (r: Self) {
        0
    }

    fn is_zero(&self) -> (r: bool) {
        *self == 0
    }

    fn equals(&self, other: &Self) -> (r: bool) {
        *self == *other
    }

    fn duplicate(&self) -> (r: Self) {
        *self
    }

    fn add_by_ref(&self, other: &Self) -> (r: Self) {
        *self + *other
    }

    fn add_assign_by_ref(&mut self, other: &Self) {
        *self = *self + *other;
    }
}

impl GroupValue for i32 {
    open spec fn neg_math(a: int) -> int {
        -a
    }

    proof fn neg_cancels(a: int) {
    }

    fn neg_by_ref(&self) -> (r: Self) {
        -*self
    }
}

impl ZRingValue for i32 {
    open spec fn one_math() -> int {
        1
    }

    open spec fn nonnegative(a: int) -> bool {
        a >= 0
    }

    proof fn one_is_not_zero() {
    }

    proof fn one_is_nonnegative() {
    }

    proof fn minus_one_is_negative() {
    }

    proof fn minus_one_is_held() {
    }

    fn one() -> (r: Self) {
        1
    }

    fn ge0(&self) -> (r: bool) {
        *self >= 0
    }

    proof fn signs_are_opposite(a: int) {
    }

    proof fn nonnegatives_add_up(a: int, b: int) {
    }
}

impl MonoidValue for isize {
    type Math = int;

    open spec fn lawful() -> bool {
        true
    }

    open spec fn wf(&self) -> bool {
        true
    }

    open spec fn math(&self) -> int {
        *self as int
    }

    open spec fn zero_math() -> int {
        0
    }

    open spec fn add_math(a: int, b: int) -> int {
        a + b
    }

    open spec fn holds(m: int) -> bool {
        isize::MIN <= m <= isize::MAX
    }

    proof fn add_commutes(a: int, b: int) {
    }

    proof fn add_associates(a: int, b: int, c: int) {
    }

    proof fn zero_is_neutral(a: int) {
    }

    proof fn math_is_held(&self) {
    }

    proof fn zero_is_held() {
    }

    fn zero() -> (r: Self) {
        0
    }

    fn is_zero(&self) -> (r: bool) {
        *self == 0
    }

    fn equals(&self, other: &Self) -> (r: bool) {
        *self == *other
    }

    fn duplicate(&self) -> (r: Self) {
        *self
    }

    fn add_by_ref(&self, other: &Self) -> (r: Self) {
        *self + *other
    }

    fn add_assign_by_ref(&mut self, other: &Self) {
        *self = *self + *other;
    }
}

impl GroupValue for isize {
    open spec fn neg_math(a: int) -> int {
        -a
    }

    proof fn neg_cancels(a: int) {
    }

    fn neg_by_ref(&self) -> (r: Self) {
        -*self
    }
}

impl ZRingValue for isize {
    open spec fn one_math() -> int {
        1
    }

    open spec fn nonnegative(a: int) -> bool {
        a >= 0
    }

    proof fn one_is_not_zero() {
    }

    proof fn one_is_nonnegative() {
    }

    proof fn minus_one_is_negative() {
    }

    proof fn minus_one_is_held() {
    }

    fn one() -> (r: Self) {
        1
    }

    fn ge0(&self) -> (r: bool) {
        *self >= 0
    }

    proof fn signs_are_opposite(a: int) {
    }

    proof fn nonnegatives_add_up(a: int, b: int) {
    }
}

/// Weights of type `i64` are integers: whatever the operations of the traits give for
/// them is what the arithmetic of the integers gives, wherever it can be held.
pub proof fn i64_weights_are_integers(a: i64, b: i64, r: i64, yes: bool)
    ensures
        i64::MIN <= a + b <= i64::MAX ==> call_requires(
            <i64 as MonoidValue>::add_by_ref,
            (&a, &b),
        ),
        call_ensures(<i64 as MonoidValue>::add_by_ref, (&a, &b), r) ==> r == a + b,
        forall|x: &mut i64| #[trigger]
            call_ensures(<i64 as MonoidValue>::add_assign_by_ref, (x, &b), ()) ==> *final(x) == *x
                + b,
        i64::MIN <= -a <= i64::MAX ==> call_requires(<i64 as GroupValue>::neg_by_ref, (&a,)),
        call_ensures(<i64 as GroupValue>::neg_by_ref, (&a,), r) ==> r == -a,
        call_ensures(<i64 as MonoidValue>::zero, (), r) ==> r == 0,
        call_ensures(<i64 as ZRingValue>::one, (), r) ==> r == 1,
        call_ensures(<i64 as MonoidValue>::duplicate, (&a,), r) ==> r == a,
        call_ensures(<i64 as MonoidValue>::is_zero, (&a,), yes) ==> (yes <==> a == 0),
        call_ensures(<i64 as MonoidValue>::equals, (&a, &b), yes) ==> (yes <==> a == b),
        call_ensures(<i64 as ZRingValue>::ge0, (&a,), yes) ==> (yes <==> a >= 0),
{
}

/// Weights of type `i32` are integers: whatever the operations of the traits give for
/// them is what the arithmetic of the integers gives, wherever it can be held.
pub proof fn i32_weights_are_integers(a: i32, b: i32, r: i32, yes: bool)
    ensures
        i32::MIN <= a + b <= i32::MAX ==> call_requires(
            <i32 as MonoidValue>::add_by_ref,
            (&a, &b),
        ),
        call_ensures(<i32 as MonoidValue>::add_by_ref, (&a, &b), r) ==> r == a + b,
        forall|x: &mut i32| #[trigger]
            call_ensures(<i32 as MonoidValue>::add_assign_by_ref, (x, &b), ()) ==> *final(x) == *x
                + b,
        i32::MIN <= -a <= i32::MAX ==> call_requires(<i32 as GroupValue>::neg_by_ref, (&a,)),
        call_ensures(<i32 as GroupValue>::neg_by_ref, (&a,), r) ==> r == -a,
        call_ensures(<i32 as MonoidValue>::zero, (), r) ==> r == 0,
        call_ensures(<i32 as ZRingValue>::one, (), r) ==> r == 1,
        call_ensures(<i32 as MonoidValue>::duplicate, (&a,), r) ==> r == a,
        call_ensures(<i32 as MonoidValue>::is_zero, (&a,), yes) ==> (yes <==> a == 0),
        call_ensures(<i32 as MonoidValue>::equals, (&a, &b), yes) ==> (yes <==> a == b),
        call_ensures(<i32 as ZRingValue>::ge0, (&a,), yes) ==> (yes <==> a >= 0),
{
}

/// Weights of type `isize` are integers: whatever the operations of the traits give for
/// them is what the arithmetic of the integers gives, wherever it can be held.
pub proof fn isize_weights_are_integers(a: isize, b: isize, r: isize, yes: bool)
    ensures
        isize::MIN <= a + b <= isize::MAX ==> call_requires(
            <isize as MonoidValue>::add_by_ref,
            (&a, &b),
        ),
        call_ensures(<isize as MonoidValue>::add_by_ref, (&a, &b), r) ==> r == a + b,
        forall|x: &mut isize| #[trigger]
            call_ensures(<isize as MonoidValue>::add_assign_by_ref, (x, &b), ()) ==> *final(x) == *x
                + b,
        isize::MIN <= -a <= isize::MAX ==> call_requires(<isize as GroupValue>::neg_by_ref, (&a,)),
        call_ensures(<isize as GroupValue>::neg_by_ref, (&a,), r) ==> r == -a,
        call_ensures(<isize as MonoidValue>::zero, (), r) ==> r == 0,
        call_ensures(<isize as ZRingValue>::one, (), r) ==> r == 1,
        call_ensures(<isize as MonoidValue>::duplicate, (&a,), r) ==> r == a,
        call_ensures(<isize as MonoidValue>::is_zero, (&a,), yes) ==> (yes <==> a == 0),
        call_ensures(<isize as MonoidValue>::equals, (&a, &b), yes) ==> (yes <==> a == b),
        call_ensures(<isize as ZRingValue>::ge0, (&a,), yes) ==> (yes <==> a >= 0),
{
}

/// Machine integers need nothing to be weights, and every one of them is one.
pub proof fn machine_integers_are_weights(a: i64, b: i32, c: isize)
    ensures
        i64::lawful() && a.wf() && a.math() == a,
        i32::lawful() && b.wf() && b.math() == b,
        isize::lawful() && c.wf() && c.math() == c,
{
}

} // verus!
