//! Decimal numbers.
//!
//! A number is kept as plain parts: a sign, an integer of 96 bits, and the number
//! of its digits that stand behind the decimal point.  What takes arithmetic is
//! computed by the `rust_decimal` crate.

use crate::text::{all_digits, decimal_value, digit, lemma_decimal_text, nat_text};
use rust_decimal::prelude::{FromPrimitive, Signed, ToPrimitive};
use rust_decimal::{Decimal as RustDecimal, MathematicalOps};
use std::str::FromStr;
use vstd::arithmetic::power::pow;
use vstd::prelude::*;

verus! {

/// Ten to the power of `n`.
pub open spec fn ten_to(n: nat) -> nat
    decreases n,
{
    if n == 0 {
        1
    } else {
        10 * ten_to((n - 1) as nat)
    }
}

/// The integers of 96 bits lie below this limit.
pub open spec fn limit() -> nat {
    0x1_0000_0000_0000_0000_0000_0000
}

/// An integer of 96 bits, with a sign.
pub open spec fn fits(n: int) -> bool {
    -limit() < n < limit()
}

/// The largest scale.
pub const MAX_SCALE: u32 = 28;

/// A decimal number.
#[derive(Debug, Clone, Copy)]
pub struct Decimal {
    /// The number has a minus sign, which zero can have too.
    pub negative: bool,
    /// The digits as an integer.
    pub magnitude: u128,
    /// How many of the digits stand behind the decimal point.
    pub scale: u32,
}

impl Decimal {
    /// The digits fit in 96 bits, and not too many of them stand behind the decimal
    /// point.
    pub open spec fn valid(self) -> bool {
        self.magnitude < limit() && self.scale <= MAX_SCALE
    }

    /// The digits with the sign.
    pub open spec fn signed(self) -> int {
        if self.negative {
            -(self.magnitude as int)
        } else {
            self.magnitude as int
        }
    }

    /// The number as a multiple of ten to the power of minus 28.
    pub open spec fn units(self) -> int {
        self.signed() * ten_to((28 - self.scale) as nat)
    }
}

/// The integer with a sign and a magnitude.
pub open spec fn whole(negative: bool, magnitude: nat) -> Decimal {
    Decimal { negative, magnitude: magnitude as u128, scale: 0 }
}

/// An integer as a number.
pub open spec fn integer(n: int) -> Decimal {
    Decimal { negative: n < 0, magnitude: (if n < 0 { -n } else { n }) as u128, scale: 0 }
}

/// The number without its sign.
pub open spec fn abs_of(d: Decimal) -> Decimal {
    Decimal { negative: false, ..d }
}

/// The number with the other sign.
pub open spec fn neg_of(d: Decimal) -> Decimal {
    Decimal { negative: !d.negative, ..d }
}

/// The largest integer that is not above the number.
pub open spec fn floor_of(d: Decimal) -> Decimal {
    let p = ten_to(d.scale as nat);
    if d.scale == 0 {
        d
    } else if d.negative && d.magnitude as nat % p > 0 {
        whole(true, d.magnitude as nat / p + 1)
    } else {
        whole(d.negative, d.magnitude as nat / p)
    }
}

/// The smallest integer that is not below the number.
pub open spec fn ceil_of(d: Decimal) -> Decimal {
    let p = ten_to(d.scale as nat);
    if d.scale == 0 {
        d
    } else if !d.negative && d.magnitude as nat % p > 0 {
        whole(false, d.magnitude as nat / p + 1)
    } else {
        whole(d.negative, d.magnitude as nat / p)
    }
}

/// As many zeros as fit, up to the given scale, put behind the digits.
pub open spec fn extended(magnitude: nat, scale: nat, target: nat) -> (nat, nat)
    decreases target - scale,
{
    if scale < target && 10 * magnitude < limit() {
        extended(10 * magnitude, scale + 1, target)
    } else {
        (magnitude, scale)
    }
}

/// The smaller of two numbers.
pub open spec fn least(a: u32, b: u32) -> u32 {
    if a < b {
        a
    } else {
        b
    }
}

/// The number with more digits behind the decimal point, as far as they fit.
pub open spec fn scaled_up(d: Decimal, scale: u32) -> Decimal {
    if d.magnitude == 0 {
        Decimal { scale: least(scale, MAX_SCALE), ..d }
    } else {
        let (magnitude, reached) = extended(d.magnitude as nat, d.scale as nat, scale as nat);
        Decimal { magnitude: magnitude as u128, scale: reached as u32, ..d }
    }
}

/// The number with the given scale: digits that are dropped round the last one that
/// stays, half away from zero, and digits that are added are zeros, as many as fit.
pub open spec fn rescaled(d: Decimal, scale: u32) -> Decimal {
    if scale < d.scale {
        let q = d.magnitude as nat / ten_to((d.scale - scale - 1) as nat);
        let up: nat = if q % 10 >= 5 {
            1
        } else {
            0
        };
        Decimal { magnitude: (q / 10 + up) as u128, scale, ..d }
    } else if scale > d.scale {
        scaled_up(d, scale)
    } else {
        d
    }
}

/// The number with the given scale: digits are dropped without rounding, and digits
/// that are added are zeros, as many as fit.
pub open spec fn truncated(d: Decimal, scale: u32) -> Decimal {
    if scale < d.scale {
        Decimal {
            magnitude: (d.magnitude as nat / ten_to((d.scale - scale) as nat)) as u128,
            scale,
            ..d
        }
    } else if scale > d.scale {
        scaled_up(d, scale)
    } else {
        d
    }
}

/// The quotient rounded to the nearest integer, and to an even one from halfway.
pub open spec fn half_even(n: nat, p: nat) -> nat {
    let q = n / p;
    let r = n % p;
    if 2 * r > p || (2 * r == p && q % 2 == 1) {
        q + 1
    } else {
        q
    }
}

/// The number with at most so many digits behind the decimal point, rounded to the
/// nearest one, and to an even digit from halfway.
pub open spec fn rounded(d: Decimal, dp: u32) -> Decimal {
    if d.scale <= dp {
        d
    } else if d.magnitude == 0 {
        Decimal { scale: dp, ..d }
    } else {
        let m = half_even(d.magnitude as nat, ten_to((d.scale - dp) as nat));
        Decimal { negative: d.negative && m > 0, magnitude: m as u128, scale: dp }
    }
}

/// One with the sign of the number, and zero for zero.
pub open spec fn signum_of(d: Decimal) -> Decimal {
    if d.magnitude == 0 {
        whole(false, 0)
    } else {
        whole(d.negative, 1)
    }
}

/// The integer that is left when the digits behind the decimal point are dropped.
pub open spec fn integer_part(d: Decimal) -> int {
    let t = d.magnitude as nat / ten_to(d.scale as nat);
    if d.negative {
        -(t as int)
    } else {
        t as int
    }
}

/// The number has no minus sign, and its integer part is at most `max`.
pub open spec fn natural_within(d: Decimal, max: int) -> bool {
    !d.negative && integer_part(d) <= max
}

/// The last `len` decimal digits of a number.
pub open spec fn last_digits(n: nat, len: nat) -> Seq<char>
    decreases len,
{
    if len == 0 {
        Seq::empty()
    } else {
        last_digits(n / 10, (len - 1) as nat).push(digit(n % 10))
    }
}

/// The text of a number: a minus sign where it has one, the digits in front of the
/// decimal point, and those behind it, if there are any.
pub open spec fn shown(d: Decimal) -> Seq<char> {
    let p = ten_to(d.scale as nat);
    let sign = if d.negative {
        seq!['-']
    } else {
        Seq::empty()
    };
    let front = sign + nat_text(d.magnitude as nat / p);
    if d.scale == 0 {
        front
    } else {
        front + seq!['.'] + last_digits(d.magnitude as nat % p, d.scale as nat)
    }
}

/// The sum of two numbers of one scale, where it fits, is exact.
pub open spec fn keeps_sum(d: Decimal, rhs: Decimal, sum: Option<Decimal>) -> bool {
    d.scale == rhs.scale && fits(d.signed() + rhs.signed()) ==> (sum matches Some(v) && v.signed()
        == d.signed() + rhs.signed() && v.scale == d.scale)
}

/// The difference of two numbers of one scale, where it fits, is exact.
pub open spec fn keeps_difference(d: Decimal, rhs: Decimal, difference: Option<Decimal>) -> bool {
    d.scale == rhs.scale && fits(d.signed() - rhs.signed()) ==> (difference matches Some(v)
        && v.signed() == d.signed() - rhs.signed() && v.scale == d.scale)
}

/// The product of two numbers, where it fits with its scale, is exact.
pub open spec fn keeps_product(d: Decimal, rhs: Decimal, product: Option<Decimal>) -> bool {
    d.magnitude > 0 && rhs.magnitude > 0 && fits(d.magnitude * rhs.magnitude) && d.scale
        + rhs.scale <= MAX_SCALE ==> (product matches Some(v) && v.signed() == d.signed()
        * rhs.signed() && v.scale == d.scale + rhs.scale)
}

/// Calls `rust_decimal::Decimal::new`, which takes the digits with their sign, and
/// how many of them stand behind the decimal point.
#[verifier::external_body]
fn outside_new(num: i64, scale: u32) -> (r: Decimal)
    requires
        scale <= MAX_SCALE,
    ensures
        r.signed() == num,
        r.negative == (num < 0),
        r.scale == scale,
{
    let y = RustDecimal::new(num, scale);
    Decimal {
        negative: y.is_sign_negative(),
        magnitude: y.mantissa().unsigned_abs(),
        scale: y.scale(),
    }
}

/// Calls `abs` of `rust_decimal::Decimal`, which takes the sign off.
#[verifier::external_body]
fn outside_abs(d: Decimal) -> (r: Decimal)
    requires
        d.valid(),
    ensures
        r == abs_of(d),
{
    let mut x = RustDecimal::from_i128_with_scale(d.magnitude as i128, d.scale);
    x.set_sign_negative(d.negative);
    let y = x.abs();
    Decimal {
        negative: y.is_sign_negative(),
        magnitude: y.mantissa().unsigned_abs(),
        scale: y.scale(),
    }
}

/// Calls `floor` of `rust_decimal::Decimal`: the largest integer that is not above
/// the number.
#[verifier::external_body]
fn outside_floor(d: Decimal) -> (r: Decimal)
    requires
        d.valid(),
    ensures
        r == floor_of(d),
{
    let mut x = RustDecimal::from_i128_with_scale(d.magnitude as i128, d.scale);
    x.set_sign_negative(d.negative);
    let y = x.floor();
    Decimal {
        negative: y.is_sign_negative(),
        magnitude: y.mantissa().unsigned_abs(),
        scale: y.scale(),
    }
}

/// Calls `ceil` of `rust_decimal::Decimal`: the smallest integer that is not below
/// the number.
#[verifier::external_body]
fn outside_ceil(d: Decimal) -> (r: Decimal)
    requires
        d.valid(),
    ensures
        r == ceil_of(d),
{
    let mut x = RustDecimal::from_i128_with_scale(d.magnitude as i128, d.scale);
    x.set_sign_negative(d.negative);
    let y = x.ceil();
    Decimal {
        negative: y.is_sign_negative(),
        magnitude: y.mantissa().unsigned_abs(),
        scale: y.scale(),
    }
}

/// Calls `round_dp` of `rust_decimal::Decimal`, which rounds half to even.
#[verifier::external_body]
fn outside_round_dp(d: Decimal, dp: u32) -> (r: Decimal)
    requires
        d.valid(),
    ensures
        r == rounded(d, dp),
{
    let mut x = RustDecimal::from_i128_with_scale(d.magnitude as i128, d.scale);
    x.set_sign_negative(d.negative);
    let y = x.round_dp(dp);
    Decimal {
        negative: y.is_sign_negative(),
        magnitude: y.mantissa().unsigned_abs(),
        scale: y.scale(),
    }
}

/// Calls `signum` of `rust_decimal::Decimal`: zero for zero, and one with the sign
/// of the number otherwise.
#[verifier::external_body]
fn outside_signum(d: Decimal) -> (r: Decimal)
    requires
        d.valid(),
    ensures
        r == signum_of(d),
{
    let mut x = RustDecimal::from_i128_with_scale(d.magnitude as i128, d.scale);
    x.set_sign_negative(d.negative);
    let y = x.signum();
    Decimal {
        negative: y.is_sign_negative(),
        magnitude: y.mantissa().unsigned_abs(),
        scale: y.scale(),
    }
}

/// Calls `trunc_with_scale` of `rust_decimal::Decimal`, which drops digits without
/// rounding, or adds as many zeros as fit.
#[verifier::external_body]
fn outside_trunc_with_scale(d: Decimal, scale: u32) -> (r: Decimal)
    requires
        d.valid(),
        truncated(d, scale).scale <= MAX_SCALE,
    ensures
        r == truncated(d, scale),
{
    let mut x = RustDecimal::from_i128_with_scale(d.magnitude as i128, d.scale);
    x.set_sign_negative(d.negative);
    let y = x.trunc_with_scale(scale);
    Decimal {
        negative: y.is_sign_negative(),
        magnitude: y.mantissa().unsigned_abs(),
        scale: y.scale(),
    }
}

/// Calls `rescale` of `rust_decimal::Decimal`, which drops digits and rounds half
/// away from zero, or adds as many zeros as fit.
#[verifier::external_body]
fn outside_rescale(d: Decimal, scale: u32) -> (r: Decimal)
    requires
        d.valid(),
        rescaled(d, scale).scale <= MAX_SCALE,
    ensures
        r == rescaled(d, scale),
{
    let mut x = RustDecimal::from_i128_with_scale(d.magnitude as i128, d.scale);
    x.set_sign_negative(d.negative);
    x.rescale(scale);
    Decimal {
        negative: x.is_sign_negative(),
        magnitude: x.mantissa().unsigned_abs(),
        scale: x.scale(),
    }
}

/// Negates a number by the `-` of `rust_decimal::Decimal`, which turns the sign
/// round, that of zero too.
#[verifier::external_body]
fn outside_neg(d: Decimal) -> (r: Decimal)
    requires
        d.valid(),
    ensures
        r == neg_of(d),
{
    let mut x = RustDecimal::from_i128_with_scale(d.magnitude as i128, d.scale);
    x.set_sign_negative(d.negative);
    let y = -x;
    Decimal {
        negative: y.is_sign_negative(),
        magnitude: y.mantissa().unsigned_abs(),
        scale: y.scale(),
    }
}

/// What `checked_exp` of `rust_decimal` gives.
pub uninterp spec fn exp_value(d: Decimal) -> Option<Decimal>;

/// Calls `checked_exp` of `rust_decimal`, which gives nothing where the result cannot be represented.
#[verifier::external_body]
fn outside_checked_exp(d: Decimal) -> (r: Option<Decimal>)
    requires
        d.valid(),
    ensures
        r == exp_value(d),
        r matches Some(v) ==> v.valid(),
{
    let mut x = RustDecimal::from_i128_with_scale(d.magnitude as i128, d.scale);
    x.set_sign_negative(d.negative);
    match x.checked_exp() {
        Some(v) => Some(
            Decimal {
                negative: v.is_sign_negative(),
                magnitude: v.mantissa().unsigned_abs(),
                scale: v.scale(),
            },
        ),
        None => None,
    }
}

/// What `checked_exp_with_tolerance` of `rust_decimal` gives.
pub uninterp spec fn exp_tolerance_value(d: Decimal, tolerance: Decimal) -> Option<Decimal>;

/// Calls `checked_exp_with_tolerance` of `rust_decimal`, which gives nothing where the result cannot be represented.
#[verifier::external_body]
fn outside_checked_exp_with_tolerance(d: Decimal, tolerance: Decimal) -> (r: Option<Decimal>)
    requires
        d.valid(),
        tolerance.valid(),
    ensures
        r == exp_tolerance_value(d, tolerance),
        r matches Some(v) ==> v.valid(),
{
    let mut x = RustDecimal::from_i128_with_scale(d.magnitude as i128, d.scale);
    x.set_sign_negative(d.negative);
    let mut y = RustDecimal::from_i128_with_scale(tolerance.magnitude as i128, tolerance.scale);
    y.set_sign_negative(tolerance.negative);
    match x.checked_exp_with_tolerance(y) {
        Some(v) => Some(
            Decimal {
                negative: v.is_sign_negative(),
                magnitude: v.mantissa().unsigned_abs(),
                scale: v.scale(),
            },
        ),
        None => None,
    }
}

/// What `checked_powi` of `rust_decimal` gives.
pub uninterp spec fn powi_value(d: Decimal, exp: i64) -> Option<Decimal>;

/// Calls `checked_powi` of `rust_decimal`, which gives nothing where the result cannot be represented.
#[verifier::external_body]
fn outside_checked_powi(d: Decimal, exp: i64) -> (r: Option<Decimal>)
    requires
        d.valid(),
    ensures
        r == powi_value(d, exp),
        r matches Some(v) ==> v.valid(),
{
    let mut x = RustDecimal::from_i128_with_scale(d.magnitude as i128, d.scale);
    x.set_sign_negative(d.negative);
    match x.checked_powi(exp) {
        Some(v) => Some(
            Decimal {
                negative: v.is_sign_negative(),
                magnitude: v.mantissa().unsigned_abs(),
                scale: v.scale(),
            },
        ),
        None => None,
    }
}

/// What `checked_powu` of `rust_decimal` gives.
pub uninterp spec fn powu_value(d: Decimal, exp: u64) -> Option<Decimal>;

/// Calls `checked_powu` of `rust_decimal`, which gives nothing where the result cannot be represented.
#[verifier::external_body]
fn outside_checked_powu(d: Decimal, exp: u64) -> (r: Option<Decimal>)
    requires
        d.valid(),
    ensures
        r == powu_value(d, exp),
        r matches Some(v) ==> v.valid(),
{
    let mut x = RustDecimal::from_i128_with_scale(d.magnitude as i128, d.scale);
    x.set_sign_negative(d.negative);
    match x.checked_powu(exp) {
        Some(v) => Some(
            Decimal {
                negative: v.is_sign_negative(),
                magnitude: v.mantissa().unsigned_abs(),
                scale: v.scale(),
            },
        ),
        None => None,
    }
}

/// What `checked_powd` of `rust_decimal` gives.
pub uninterp spec fn powd_value(d: Decimal, exp: Decimal) -> Option<Decimal>;

/// Calls `checked_powd` of `rust_decimal`, which gives nothing where the result cannot be represented.
#[verifier::external_body]
fn outside_checked_powd(d: Decimal, exp: Decimal) -> (r: Option<Decimal>)
    requires
        d.valid(),
        exp.valid(),
    ensures
        r == powd_value(d, exp),
        r matches Some(v) ==> v.valid(),
{
    let mut x = RustDecimal::from_i128_with_scale(d.magnitude as i128, d.scale);
    x.set_sign_negative(d.negative);
    let mut y = RustDecimal::from_i128_with_scale(exp.magnitude as i128, exp.scale);
    y.set_sign_negative(exp.negative);
    match x.checked_powd(y) {
        Some(v) => Some(
            Decimal {
                negative: v.is_sign_negative(),
                magnitude: v.mantissa().unsigned_abs(),
                scale: v.scale(),
            },
        ),
        None => None,
    }
}

/// What `checked_ln` of `rust_decimal` gives.
pub uninterp spec fn ln_value(d: Decimal) -> Option<Decimal>;

/// Calls `checked_ln` of `rust_decimal`, which gives nothing where the result cannot be represented.
/// Only positive numbers have a logarithm.
#[verifier::external_body]
fn outside_checked_ln(d: Decimal) -> (r: Option<Decimal>)
    requires
        d.valid(),
    ensures
        r == ln_value(d),
        r matches Some(v) ==> v.valid(),
        d.negative || d.magnitude == 0 ==> r is None,
{
    let mut x = RustDecimal::from_i128_with_scale(d.magnitude as i128, d.scale);
    x.set_sign_negative(d.negative);
    match x.checked_ln() {
        Some(v) => Some(
            Decimal {
                negative: v.is_sign_negative(),
                magnitude: v.mantissa().unsigned_abs(),
                scale: v.scale(),
            },
        ),
        None => None,
    }
}

/// What `checked_log10` of `rust_decimal` gives.
pub uninterp spec fn log10_value(d: Decimal) -> Option<Decimal>;

/// Calls `checked_log10` of `rust_decimal`, which gives nothing where the result cannot be represented.
/// Only positive numbers have a logarithm.
#[verifier::external_body]
fn outside_checked_log10(d: Decimal) -> (r: Option<Decimal>)
    requires
        d.valid(),
    ensures
        r == log10_value(d),
        r matches Some(v) ==> v.valid(),
        d.negative || d.magnitude == 0 ==> r is None,
{
    let mut x = RustDecimal::from_i128_with_scale(d.magnitude as i128, d.scale);
    x.set_sign_negative(d.negative);
    match x.checked_log10() {
        Some(v) => Some(
            Decimal {
                negative: v.is_sign_negative(),
                magnitude: v.mantissa().unsigned_abs(),
                scale: v.scale(),
            },
        ),
        None => None,
    }
}

/// What `checked_norm_pdf` of `rust_decimal` gives.
pub uninterp spec fn norm_pdf_value(d: Decimal) -> Option<Decimal>;

/// Calls `checked_norm_pdf` of `rust_decimal`, which gives nothing where the result cannot be represented.
#[verifier::external_body]
fn outside_checked_norm_pdf(d: Decimal) -> (r: Option<Decimal>)
    requires
        d.valid(),
    ensures
        r == norm_pdf_value(d),
        r matches Some(v) ==> v.valid(),
{
    let mut x = RustDecimal::from_i128_with_scale(d.magnitude as i128, d.scale);
    x.set_sign_negative(d.negative);
    match x.checked_norm_pdf() {
        Some(v) => Some(
            Decimal {
                negative: v.is_sign_negative(),
                magnitude: v.mantissa().unsigned_abs(),
                scale: v.scale(),
            },
        ),
        None => None,
    }
}

/// What `checked_sin` of `rust_decimal` gives.
pub uninterp spec fn sin_value(d: Decimal) -> Option<Decimal>;

/// Calls `checked_sin` of `rust_decimal`, which gives nothing where the result cannot be represented.
#[verifier::external_body]
fn outside_checked_sin(d: Decimal) -> (r: Option<Decimal>)
    requires
        d.valid(),
    ensures
        r == sin_value(d),
        r matches Some(v) ==> v.valid(),
{
    let mut x = RustDecimal::from_i128_with_scale(d.magnitude as i128, d.scale);
    x.set_sign_negative(d.negative);
    match x.checked_sin() {
        Some(v) => Some(
            Decimal {
                negative: v.is_sign_negative(),
                magnitude: v.mantissa().unsigned_abs(),
                scale: v.scale(),
            },
        ),
        None => None,
    }
}

/// What `checked_cos` of `rust_decimal` gives.
pub uninterp spec fn cos_value(d: Decimal) -> Option<Decimal>;

/// Calls `checked_cos` of `rust_decimal`, which gives nothing where the result cannot be represented.
#[verifier::external_body]
fn outside_checked_cos(d: Decimal) -> (r: Option<Decimal>)
    requires
        d.valid(),
    ensures
        r == cos_value(d),
        r matches Some(v) ==> v.valid(),
{
    let mut x = RustDecimal::from_i128_with_scale(d.magnitude as i128, d.scale);
    x.set_sign_negative(d.negative);
    match x.checked_cos() {
        Some(v) => Some(
            Decimal {
                negative: v.is_sign_negative(),
                magnitude: v.mantissa().unsigned_abs(),
                scale: v.scale(),
            },
        ),
        None => None,
    }
}

/// What `checked_tan` of `rust_decimal` gives.
pub uninterp spec fn tan_value(d: Decimal) -> Option<Decimal>;

/// Calls `checked_tan` of `rust_decimal`, which gives nothing where the result cannot be represented.
#[verifier::external_body]
fn outside_checked_tan(d: Decimal) -> (r: Option<Decimal>)
    requires
        d.valid(),
    ensures
        r == tan_value(d),
        r matches Some(v) ==> v.valid(),
{
    let mut x = RustDecimal::from_i128_with_scale(d.magnitude as i128, d.scale);
    x.set_sign_negative(d.negative);
    match x.checked_tan() {
        Some(v) => Some(
            Decimal {
                negative: v.is_sign_negative(),
                magnitude: v.mantissa().unsigned_abs(),
                scale: v.scale(),
            },
        ),
        None => None,
    }
}

/// What `checked_add` of `rust_decimal` gives.
pub uninterp spec fn sum_value(d: Decimal, rhs: Decimal) -> Option<Decimal>;

/// Calls `checked_add` of `rust_decimal`, which gives nothing where the result cannot be represented.
/// Numbers of one scale are added without rounding where the sum fits.
#[verifier::external_body]
fn outside_checked_add(d: Decimal, rhs: Decimal) -> (r: Option<Decimal>)
    requires
        d.valid(),
        rhs.valid(),
    ensures
        r == sum_value(d, rhs),
        r matches Some(v) ==> v.valid(),
        keeps_sum(d, rhs, r),
{
    let mut x = RustDecimal::from_i128_with_scale(d.magnitude as i128, d.scale);
    x.set_sign_negative(d.negative);
    let mut y = RustDecimal::from_i128_with_scale(rhs.magnitude as i128, rhs.scale);
    y.set_sign_negative(rhs.negative);
    match x.checked_add(y) {
        Some(v) => Some(
            Decimal {
                negative: v.is_sign_negative(),
                magnitude: v.mantissa().unsigned_abs(),
                scale: v.scale(),
            },
        ),
        None => None,
    }
}

/// What `checked_sub` of `rust_decimal` gives.
pub uninterp spec fn difference_value(d: Decimal, rhs: Decimal) -> Option<Decimal>;

/// Calls `checked_sub` of `rust_decimal`, which gives nothing where the result cannot be represented.
/// Numbers of one scale are subtracted without rounding where the difference fits.
#[verifier::external_body]
fn outside_checked_sub(d: Decimal, rhs: Decimal) -> (r: Option<Decimal>)
    requires
        d.valid(),
        rhs.valid(),
    ensures
        r == difference_value(d, rhs),
        r matches Some(v) ==> v.valid(),
        keeps_difference(d, rhs, r),
{
    let mut x = RustDecimal::from_i128_with_scale(d.magnitude as i128, d.scale);
    x.set_sign_negative(d.negative);
    let mut y = RustDecimal::from_i128_with_scale(rhs.magnitude as i128, rhs.scale);
    y.set_sign_negative(rhs.negative);
    match x.checked_sub(y) {
        Some(v) => Some(
            Decimal {
                negative: v.is_sign_negative(),
                magnitude: v.mantissa().unsigned_abs(),
                scale: v.scale(),
            },
        ),
        None => None,
    }
}

/// What `checked_mul` of `rust_decimal` gives.
pub uninterp spec fn product_value(d: Decimal, rhs: Decimal) -> Option<Decimal>;

/// Calls `checked_mul` of `rust_decimal`, which gives nothing where the result cannot be represented.
/// Numbers are multiplied without rounding where the product and its scale fit; the
/// product with zero is zero.
#[verifier::external_body]
fn outside_checked_mul(d: Decimal, rhs: Decimal) -> (r: Option<Decimal>)
    requires
        d.valid(),
        rhs.valid(),
    ensures
        r == product_value(d, rhs),
        r matches Some(v) ==> v.valid(),
        d.magnitude == 0 || rhs.magnitude == 0 ==> r == Some(whole(false, 0)),
        keeps_product(d, rhs, r),
{
    let mut x = RustDecimal::from_i128_with_scale(d.magnitude as i128, d.scale);
    x.set_sign_negative(d.negative);
    let mut y = RustDecimal::from_i128_with_scale(rhs.magnitude as i128, rhs.scale);
    y.set_sign_negative(rhs.negative);
    match x.checked_mul(y) {
        Some(v) => Some(
            Decimal {
                negative: v.is_sign_negative(),
                magnitude: v.mantissa().unsigned_abs(),
                scale: v.scale(),
            },
        ),
        None => None,
    }
}

/// What `checked_div` of `rust_decimal` gives.
pub uninterp spec fn quotient_value(d: Decimal, rhs: Decimal) -> Option<Decimal>;

/// Calls `checked_div` of `rust_decimal`, which gives nothing where the result cannot be represented.
/// There is no quotient by zero.
#[verifier::external_body]
fn outside_checked_div(d: Decimal, rhs: Decimal) -> (r: Option<Decimal>)
    requires
        d.valid(),
        rhs.valid(),
    ensures
        r == quotient_value(d, rhs),
        r matches Some(v) ==> v.valid(),
        rhs.magnitude == 0 ==> r is None,
{
    let mut x = RustDecimal::from_i128_with_scale(d.magnitude as i128, d.scale);
    x.set_sign_negative(d.negative);
    let mut y = RustDecimal::from_i128_with_scale(rhs.magnitude as i128, rhs.scale);
    y.set_sign_negative(rhs.negative);
    match x.checked_div(y) {
        Some(v) => Some(
            Decimal {
                negative: v.is_sign_negative(),
                magnitude: v.mantissa().unsigned_abs(),
                scale: v.scale(),
            },
        ),
        None => None,
    }
}

/// What `checked_rem` of `rust_decimal` gives.
pub uninterp spec fn remainder_value(d: Decimal, rhs: Decimal) -> Option<Decimal>;

/// Calls `checked_rem` of `rust_decimal`, which gives nothing where the result cannot be represented.
/// There is no remainder by zero.
#[verifier::external_body]
fn outside_checked_rem(d: Decimal, rhs: Decimal) -> (r: Option<Decimal>)
    requires
        d.valid(),
        rhs.valid(),
    ensures
        r == remainder_value(d, rhs),
        r matches Some(v) ==> v.valid(),
        rhs.magnitude == 0 ==> r is None,
{
    let mut x = RustDecimal::from_i128_with_scale(d.magnitude as i128, d.scale);
    x.set_sign_negative(d.negative);
    let mut y = RustDecimal::from_i128_with_scale(rhs.magnitude as i128, rhs.scale);
    y.set_sign_negative(rhs.negative);
    match x.checked_rem(y) {
        Some(v) => Some(
            Decimal {
                negative: v.is_sign_negative(),
                magnitude: v.mantissa().unsigned_abs(),
                scale: v.scale(),
            },
        ),
        None => None,
    }
}

/// The guesses for the root of the number come to rest.
///
/// From a guess `g` for the root of `n` the next one is `(g + n / g) / 2`.  A number has
/// a finest scale at which its digits fit in 96 bits.  Let `r` be the root and `g` a
/// guess close to it, both counted in units of the finest scale of the root, and `s` the
/// square of `r`, which is an integer.
///
/// - The quotient is rounded to an integer, and `g + s / g` is `2 r` but for a tiny part
///   that grows with the distance of `g` from `r`.  So the rounded sum is the same for
///   all guesses close to the root, and all of them lead to one next guess, unless
///   `2 r` lies next to `k + 1/2` for an integer `k`.  The sum is then `k` or `k + 1`, and
///   the guesses can do no more than alternate between two values.
/// - Where the sum fits in 96 bits, these are an even `b` and `b + 1`: they take turns
///   exactly when `s` is `b * b + 3 * b / 2`.  As `s` is a multiple of ten to the power of
///   27 at least, this leaves two magnitudes with an even scale and two with an odd one.
/// - Where the sum does not fit, it is rounded to a multiple of ten.  The values are
///   `10 * i` and `10 * i + 5`, and they take turns when `s` exceeds `100 * i * i + 55 * i`
///   by 0, 1 or 2.  Here `s` is a multiple of ten to the power of 29, which none of these
///   is.
/// - Where the root is within a few units of the limit of 96 bits, guess and quotient can
///   have different scales.  There `s` is the magnitude times ten to the power of 29, and
///   the guesses take turns for four magnitudes in a row.
pub open spec fn root_settles(d: Decimal) -> bool {
    ||| d.negative
    ||| d.scale % 2 == 0 && d.magnitude != 39_720_354_828_415_177_818_323_744_671
        && d.magnitude != 40_000_000_000_000_000_000_000_000_003
    ||| d.scale % 2 == 1 && d.magnitude != 62_884_362_162_926_421_127_573_384_228
        && d.magnitude != 64_000_000_000_000_000_000_000_000_012 && !(
    62_771_017_353_866_807_638_357_894_231 <= d.magnitude
        <= 62_771_017_353_866_807_638_357_894_234)
}

/// What `sqrt` of `rust_decimal` gives.
pub uninterp spec fn sqrt_value(d: Decimal) -> Option<Decimal>;

/// Calls `sqrt` of `rust_decimal`, which gives nothing for numbers with a minus sign, and
/// zero for zero.  For others the call repeats a step until two guesses agree, and panics
/// where a thousand steps do not lead there.
#[verifier::external_body]
fn outside_sqrt(d: Decimal) -> (r: Option<Decimal>)
    requires
        d.valid(),
        root_settles(d),
    ensures
        r == sqrt_value(d),
        r matches Some(v) ==> v.valid(),
        r is None <==> d.negative,
        !d.negative && d.magnitude == 0 ==> r == Some(whole(false, 0)),
{
    let mut x = RustDecimal::from_i128_with_scale(d.magnitude as i128, d.scale);
    x.set_sign_negative(d.negative);
    match x.sqrt() {
        Some(v) => Some(
            Decimal {
                negative: v.is_sign_negative(),
                magnitude: v.mantissa().unsigned_abs(),
                scale: v.scale(),
            },
        ),
        None => None,
    }
}

/// The number is at most 9.3913022431488 away from zero.  Just above, the polynomial
/// that approximates the error function reaches 64.
pub open spec fn has_erf(d: Decimal) -> bool {
    d.magnitude * ten_to(13) <= 93_913_022_431_488 * ten_to(d.scale as nat)
}

/// The number is at most 13.281307000605 away from zero: divided by the root of two, it
/// has an error function.
pub open spec fn has_norm_cdf(d: Decimal) -> bool {
    d.magnitude * ten_to(12) <= 13_281_307_000_605 * ten_to(d.scale as nat)
}

/// What `erf` of `rust_decimal` gives.
pub uninterp spec fn erf_value(d: Decimal) -> Decimal;

/// Calls `erf` of `rust_decimal`.  It takes a polynomial of its argument to the power
/// of sixteen, which fits in 96 bits while the polynomial is below 64.
#[verifier::external_body]
fn outside_erf(d: Decimal) -> (r: Decimal)
    requires
        d.valid(),
        has_erf(d),
    ensures
        r == erf_value(d),
        r.valid(),
{
    let mut x = RustDecimal::from_i128_with_scale(d.magnitude as i128, d.scale);
    x.set_sign_negative(d.negative);
    let y = x.erf();
    Decimal {
        negative: y.is_sign_negative(),
        magnitude: y.mantissa().unsigned_abs(),
        scale: y.scale(),
    }
}

/// What `norm_cdf` of `rust_decimal` gives.
pub uninterp spec fn norm_cdf_value(d: Decimal) -> Decimal;

/// Calls `norm_cdf` of `rust_decimal`, which calls `erf` with its argument divided by
/// the root of two.
#[verifier::external_body]
fn outside_norm_cdf(d: Decimal) -> (r: Decimal)
    requires
        d.valid(),
        has_norm_cdf(d),
    ensures
        r == norm_cdf_value(d),
        r.valid(),
{
    let mut x = RustDecimal::from_i128_with_scale(d.magnitude as i128, d.scale);
    x.set_sign_negative(d.negative);
    let y = x.norm_cdf();
    Decimal {
        negative: y.is_sign_negative(),
        magnitude: y.mantissa().unsigned_abs(),
        scale: y.scale(),
    }
}

/// Calls `from_i64` of `rust_decimal::Decimal`, which
/// takes an integer.
#[verifier::external_body]
fn outside_from_i64(n: i64) -> (r: Option<Decimal>)
    ensures
        r == Some(integer(n as int)),
{
    match RustDecimal::from_i64(n) {
        Some(v) => Some(
            Decimal {
                negative: v.is_sign_negative(),
                magnitude: v.mantissa().unsigned_abs(),
                scale: v.scale(),
            },
        ),
        None => None,
    }
}

/// Calls `from_u64` of `rust_decimal::Decimal`, which
/// takes an integer.
#[verifier::external_body]
fn outside_from_u64(n: u64) -> (r: Option<Decimal>)
    ensures
        r == Some(integer(n as int)),
{
    match RustDecimal::from_u64(n) {
        Some(v) => Some(
            Decimal {
                negative: v.is_sign_negative(),
                magnitude: v.mantissa().unsigned_abs(),
                scale: v.scale(),
            },
        ),
        None => None,
    }
}

/// Calls `from_i128` of `rust_decimal::Decimal`, which takes an integer and gives
/// nothing where the integer takes more than 96 bits.
#[verifier::external_body]
fn outside_from_i128(n: i128) -> (r: Option<Decimal>)
    ensures
        r == if fits(n as int) {
            Some(integer(n as int))
        } else {
            None
        },
{
    match RustDecimal::from_i128(n) {
        Some(v) => Some(
            Decimal {
                negative: v.is_sign_negative(),
                magnitude: v.mantissa().unsigned_abs(),
                scale: v.scale(),
            },
        ),
        None => None,
    }
}

/// Calls `from_u128` of `rust_decimal::Decimal`, which takes an integer and gives
/// nothing where the integer takes more than 96 bits.
#[verifier::external_body]
fn outside_from_u128(n: u128) -> (r: Option<Decimal>)
    ensures
        r == if fits(n as int) {
            Some(integer(n as int))
        } else {
            None
        },
{
    match RustDecimal::from_u128(n) {
        Some(v) => Some(
            Decimal {
                negative: v.is_sign_negative(),
                magnitude: v.mantissa().unsigned_abs(),
                scale: v.scale(),
            },
        ),
        None => None,
    }
}

/// Calls `to_i64` of `rust_decimal::Decimal`, which drops
/// the digits behind the decimal point, and gives nothing where the integer does not
/// fit.
#[verifier::external_body]
fn outside_to_i64(d: Decimal) -> (r: Option<i64>)
    requires
        d.valid(),
    ensures
        r == if i64::MIN <= integer_part(d) <= i64::MAX {
            Some(integer_part(d) as i64)
        } else {
            None
        },
{
    let mut x = RustDecimal::from_i128_with_scale(d.magnitude as i128, d.scale);
    x.set_sign_negative(d.negative);
    x.to_i64()
}

/// Calls `to_u64` of `rust_decimal::Decimal`, which drops
/// the digits behind the decimal point, and gives nothing where there is a minus sign
/// or the integer does not fit.
#[verifier::external_body]
fn outside_to_u64(d: Decimal) -> (r: Option<u64>)
    requires
        d.valid(),
    ensures
        r == if natural_within(d, u64::MAX as int) {
            Some(integer_part(d) as u64)
        } else {
            None
        },
{
    let mut x = RustDecimal::from_i128_with_scale(d.magnitude as i128, d.scale);
    x.set_sign_negative(d.negative);
    x.to_u64()
}

/// Calls `to_i128` of `rust_decimal::Decimal`, which drops
/// the digits behind the decimal point.
#[verifier::external_body]
fn outside_to_i128(d: Decimal) -> (r: Option<i128>)
    requires
        d.valid(),
    ensures
        r == Some(integer_part(d) as i128),
{
    let mut x = RustDecimal::from_i128_with_scale(d.magnitude as i128, d.scale);
    x.set_sign_negative(d.negative);
    x.to_i128()
}

/// Calls `to_u128` of `rust_decimal::Decimal`, which drops
/// the digits behind the decimal point, and gives nothing where there is a minus sign
/// or the integer does not fit.
#[verifier::external_body]
fn outside_to_u128(d: Decimal) -> (r: Option<u128>)
    requires
        d.valid(),
    ensures
        r == if natural_within(d, u128::MAX as int) {
            Some(integer_part(d) as u128)
        } else {
            None
        },
{
    let mut x = RustDecimal::from_i128_with_scale(d.magnitude as i128, d.scale);
    x.set_sign_negative(d.negative);
    x.to_u128()
}

/// Shows a number by the `Display` of `rust_decimal::Decimal`.
#[verifier::external_body]
fn outside_show(d: Decimal) -> (r: String)
    requires
        d.valid(),
    ensures
        r@ == shown(d),
{
    let mut x = RustDecimal::from_i128_with_scale(d.magnitude as i128, d.scale);
    x.set_sign_negative(d.negative);
    x.to_string()
}

/// What `from_str` of `rust_decimal::Decimal` reads from a text: a number, or the
/// message of its error.
pub uninterp spec fn parsed(text: Seq<char>) -> Result<Decimal, Seq<char>>;

/// Calls `from_str` of `rust_decimal::Decimal`.
#[verifier::external_body]
fn outside_from_str(text: &str) -> (r: Result<Decimal, String>)
    ensures
        match r {
            Ok(d) => parsed(text@) == Ok::<Decimal, Seq<char>>(d) && d.valid(),
            Err(e) => parsed(text@) == Err::<Decimal, Seq<char>>(e@),
        },
{
    match RustDecimal::from_str(text) {
        Ok(v) => Ok(
            Decimal {
                negative: v.is_sign_negative(),
                magnitude: v.mantissa().unsigned_abs(),
                scale: v.scale(),
            },
        ),
        Err(e) => Err(e.to_string()),
    }
}

/// Compares two numbers by the `==` of `rust_decimal::Decimal`: by their value.
#[verifier::external_body]
fn outside_equal(d: Decimal, rhs: Decimal) -> (r: bool)
    requires
        d.valid(),
        rhs.valid(),
    ensures
        r == (d.units() == rhs.units()),
{
    let mut x = RustDecimal::from_i128_with_scale(d.magnitude as i128, d.scale);
    x.set_sign_negative(d.negative);
    let mut y = RustDecimal::from_i128_with_scale(rhs.magnitude as i128, rhs.scale);
    y.set_sign_negative(rhs.negative);
    x == y
}

/// Compares two numbers by the `<` of `rust_decimal::Decimal`: by their value.
#[verifier::external_body]
fn outside_less(d: Decimal, rhs: Decimal) -> (r: bool)
    requires
        d.valid(),
        rhs.valid(),
    ensures
        r == (d.units() < rhs.units()),
{
    let mut x = RustDecimal::from_i128_with_scale(d.magnitude as i128, d.scale);
    x.set_sign_negative(d.negative);
    let mut y = RustDecimal::from_i128_with_scale(rhs.magnitude as i128, rhs.scale);
    y.set_sign_negative(rhs.negative);
    x < y
}

/// The error of a text that is not a number.
#[derive(Debug, Clone)]
pub struct DecimalError {
    pub message: String,
}

impl Decimal {
    /// A number with the given digits, `scale` of them behind the decimal point.
    pub fn new(num: i64, scale: u32) -> (r: Decimal)
        requires
            scale <= MAX_SCALE,
        ensures
            r.valid(),
            r.signed() == num,
            r.negative == (num < 0),
            r.scale == scale,
    {
        outside_new(num, scale)
    }

    /// The number without its sign.
    pub fn abs(&self) -> (r: Decimal)
        requires
            self.valid(),
        ensures
            r.valid(),
            r == abs_of(*self),
    {
        outside_abs(*self)
    }

    /// The largest integer that is not above the number.
    pub fn floor(&self) -> (r: Decimal)
        requires
            self.valid(),
        ensures
            r.valid(),
            r == floor_of(*self),
    {
        proof {
            lemma_quotient_small(self.magnitude as nat, self.scale as nat);
        }
        outside_floor(*self)
    }

    /// The smallest integer that is not below the number.
    pub fn ceil(&self) -> (r: Decimal)
        requires
            self.valid(),
        ensures
            r.valid(),
            r == ceil_of(*self),
    {
        proof {
            lemma_quotient_small(self.magnitude as nat, self.scale as nat);
        }
        outside_ceil(*self)
    }

    /// Changes the number to the given scale: digits that are dropped round the last
    /// one that stays, half away from zero, and digits that are added are zeros, as
    /// many as fit.
    pub fn rescale(&mut self, scale: u32)
        requires
            old(self).valid(),
            rescaled(*old(self), scale).scale <= MAX_SCALE,
        ensures
            final(self).valid(),
            *final(self) == rescaled(*old(self), scale),
    {
        proof {
            lemma_rescaled_valid(*self, scale);
        }
        *self = outside_rescale(*self, scale);
    }

    /// The number with at most `dp` digits behind the decimal point, rounded to the
    /// nearest one, and to an even digit from halfway.
    pub fn round_dp(&self, dp: u32) -> (r: Decimal)
        requires
            self.valid(),
        ensures
            r.valid(),
            r == rounded(*self, dp),
    {
        proof {
            lemma_rounded_valid(*self, dp);
        }
        outside_round_dp(*self, dp)
    }

    /// One with the sign of the number, and zero for zero.
    pub fn signum(&self) -> (r: Decimal)
        requires
            self.valid(),
        ensures
            r.valid(),
            r == signum_of(*self),
    {
        outside_signum(*self)
    }

    /// The number with the given scale: digits are dropped without rounding, and
    /// digits that are added are zeros, as many as fit.
    pub fn trunc_with_scale(&self, scale: u32) -> (r: Decimal)
        requires
            self.valid(),
            truncated(*self, scale).scale <= MAX_SCALE,
        ensures
            r.valid(),
            r == truncated(*self, scale),
    {
        proof {
            lemma_truncated_valid(*self, scale);
        }
        outside_trunc_with_scale(*self, scale)
    }

    /// Whether the number is zero.
    pub fn is_zero(&self) -> (r: bool)
        ensures
            r == (self.magnitude == 0),
    {
        self.magnitude == 0
    }

    /// The exponential of the number.
    pub fn exp(&self) -> (r: Decimal)
        requires
            self.valid(),
            exp_value(*self) is Some,
        ensures
            r.valid(),
            exp_value(*self) == Some(r),
    {
        expected(outside_checked_exp(*self))
    }

    /// The exponential of the number, where it can be represented.
    pub fn checked_exp(&self) -> (r: Option<Decimal>)
        requires
            self.valid(),
        ensures
            r == exp_value(*self),
            r matches Some(v) ==> v.valid(),
    {
        outside_checked_exp(*self)
    }

    /// The exponential of the number, calculated up to a tolerance.
    pub fn exp_with_tolerance(&self, tolerance: Decimal) -> (r: Decimal)
        requires
            self.valid(),
            tolerance.valid(),
            exp_tolerance_value(*self, tolerance) is Some,
        ensures
            r.valid(),
            exp_tolerance_value(*self, tolerance) == Some(r),
    {
        expected(outside_checked_exp_with_tolerance(*self, tolerance))
    }

    /// The exponential of the number, calculated up to a tolerance, where it can be represented.
    pub fn checked_exp_with_tolerance(&self, tolerance: Decimal) -> (r: Option<Decimal>)
        requires
            self.valid(),
            tolerance.valid(),
        ensures
            r == exp_tolerance_value(*self, tolerance),
            r matches Some(v) ==> v.valid(),
    {
        outside_checked_exp_with_tolerance(*self, tolerance)
    }

    /// The number to the power of an integer.
    pub fn powi(&self, exp: i64) -> (r: Decimal)
        requires
            self.valid(),
            powi_value(*self, exp) is Some,
        ensures
            r.valid(),
            powi_value(*self, exp) == Some(r),
    {
        expected(outside_checked_powi(*self, exp))
    }

    /// The number to the power of an integer, where it can be represented.
    pub fn checked_powi(&self, exp: i64) -> (r: Option<Decimal>)
        requires
            self.valid(),
        ensures
            r == powi_value(*self, exp),
            r matches Some(v) ==> v.valid(),
    {
        outside_checked_powi(*self, exp)
    }

    /// The number to the power of a natural number.
    pub fn powu(&self, exp: u64) -> (r: Decimal)
        requires
            self.valid(),
            powu_value(*self, exp) is Some,
        ensures
            r.valid(),
            powu_value(*self, exp) == Some(r),
    {
        expected(outside_checked_powu(*self, exp))
    }

    /// The number to the power of a natural number, where it can be represented.
    pub fn checked_powu(&self, exp: u64) -> (r: Option<Decimal>)
        requires
            self.valid(),
        ensures
            r == powu_value(*self, exp),
            r matches Some(v) ==> v.valid(),
    {
        outside_checked_powu(*self, exp)
    }

    /// The number to the power of another.
    pub fn powd(&self, exp: Decimal) -> (r: Decimal)
        requires
            self.valid(),
            exp.valid(),
            powd_value(*self, exp) is Some,
        ensures
            r.valid(),
            powd_value(*self, exp) == Some(r),
    {
        expected(outside_checked_powd(*self, exp))
    }

    /// The number to the power of another, where it can be represented.
    pub fn checked_powd(&self, exp: Decimal) -> (r: Option<Decimal>)
        requires
            self.valid(),
            exp.valid(),
        ensures
            r == powd_value(*self, exp),
            r matches Some(v) ==> v.valid(),
    {
        outside_checked_powd(*self, exp)
    }

    /// The natural logarithm of the number.
    pub fn ln(&self) -> (r: Decimal)
        requires
            self.valid(),
            ln_value(*self) is Some,
        ensures
            r.valid(),
            ln_value(*self) == Some(r),
    {
        expected(outside_checked_ln(*self))
    }

    /// The natural logarithm of the number, where it can be represented.
    pub fn checked_ln(&self) -> (r: Option<Decimal>)
        requires
            self.valid(),
        ensures
            r == ln_value(*self),
            r matches Some(v) ==> v.valid(),
            self.negative || self.magnitude == 0 ==> r is None,
    {
        outside_checked_ln(*self)
    }

    /// The logarithm of the number to base ten.
    pub fn log10(&self) -> (r: Decimal)
        requires
            self.valid(),
            log10_value(*self) is Some,
        ensures
            r.valid(),
            log10_value(*self) == Some(r),
    {
        expected(outside_checked_log10(*self))
    }

    /// The logarithm of the number to base ten, where it can be represented.
    pub fn checked_log10(&self) -> (r: Option<Decimal>)
        requires
            self.valid(),
        ensures
            r == log10_value(*self),
            r matches Some(v) ==> v.valid(),
            self.negative || self.magnitude == 0 ==> r is None,
    {
        outside_checked_log10(*self)
    }

    /// The density of the normal distribution at the number.
    pub fn norm_pdf(&self) -> (r: Decimal)
        requires
            self.valid(),
            norm_pdf_value(*self) is Some,
        ensures
            r.valid(),
            norm_pdf_value(*self) == Some(r),
    {
        expected(outside_checked_norm_pdf(*self))
    }

    /// The density of the normal distribution at the number, where it can be represented.
    pub fn checked_norm_pdf(&self) -> (r: Option<Decimal>)
        requires
            self.valid(),
        ensures
            r == norm_pdf_value(*self),
            r matches Some(v) ==> v.valid(),
    {
        outside_checked_norm_pdf(*self)
    }

    /// The sine of the number.
    pub fn sin(&self) -> (r: Decimal)
        requires
            self.valid(),
            sin_value(*self) is Some,
        ensures
            r.valid(),
            sin_value(*self) == Some(r),
    {
        expected(outside_checked_sin(*self))
    }

    /// The sine of the number, where it can be represented.
    pub fn checked_sin(&self) -> (r: Option<Decimal>)
        requires
            self.valid(),
        ensures
            r == sin_value(*self),
            r matches Some(v) ==> v.valid(),
    {
        outside_checked_sin(*self)
    }

    /// The cosine of the number.
    pub fn cos(&self) -> (r: Decimal)
        requires
            self.valid(),
            cos_value(*self) is Some,
        ensures
            r.valid(),
            cos_value(*self) == Some(r),
    {
        expected(outside_checked_cos(*self))
    }

    /// The cosine of the number, where it can be represented.
    pub fn checked_cos(&self) -> (r: Option<Decimal>)
        requires
            self.valid(),
        ensures
            r == cos_value(*self),
            r matches Some(v) ==> v.valid(),
    {
        outside_checked_cos(*self)
    }

    /// The tangent of the number.
    pub fn tan(&self) -> (r: Decimal)
        requires
            self.valid(),
            tan_value(*self) is Some,
        ensures
            r.valid(),
            tan_value(*self) == Some(r),
    {
        expected(outside_checked_tan(*self))
    }

    /// The tangent of the number, where it can be represented.
    pub fn checked_tan(&self) -> (r: Option<Decimal>)
        requires
            self.valid(),
        ensures
            r == tan_value(*self),
            r matches Some(v) ==> v.valid(),
    {
        outside_checked_tan(*self)
    }

    /// The square root of the number, where it has one.
    pub fn sqrt(&self) -> (r: Option<Decimal>)
        requires
            self.valid(),
            root_settles(*self),
        ensures
            r == sqrt_value(*self),
            r matches Some(v) ==> v.valid(),
            r is None <==> self.negative,
            !self.negative && self.magnitude == 0 ==> r == Some(whole(false, 0)),
    {
        outside_sqrt(*self)
    }

    /// Whether the guesses for the square root of the number come to rest.
    pub fn root_is_reached(&self) -> (r: bool)
        ensures
            r == root_settles(*self),
    {
        let m = self.magnitude;
        if self.negative {
            true
        } else if self.scale % 2 == 0 {
            m != 39_720_354_828_415_177_818_323_744_671
                && m != 40_000_000_000_000_000_000_000_000_003
        } else {
            m != 62_884_362_162_926_421_127_573_384_228
                && m != 64_000_000_000_000_000_000_000_000_012
                && (m < 62_771_017_353_866_807_638_357_894_231
                || m > 62_771_017_353_866_807_638_357_894_234)
        }
    }

    /// The square root of the number, where it has one and the guesses for it come to
    /// rest.
    pub fn checked_sqrt(&self) -> (r: Option<Decimal>)
        requires
            self.valid(),
        ensures
            r == if root_settles(*self) {
                sqrt_value(*self)
            } else {
                None
            },
            r matches Some(v) ==> v.valid(),
            r is None <==> self.negative || !root_settles(*self),
            !self.negative && self.magnitude == 0 ==> r == Some(whole(false, 0)),
    {
        if self.root_is_reached() {
            self.sqrt()
        } else {
            None
        }
    }

    /// The error function at the number.
    pub fn erf(&self) -> (r: Decimal)
        requires
            self.valid(),
            has_erf(*self),
        ensures
            r.valid(),
            r == erf_value(*self),
    {
        outside_erf(*self)
    }

    /// The normal distribution at the number.
    pub fn norm_cdf(&self) -> (r: Decimal)
        requires
            self.valid(),
            has_norm_cdf(*self),
        ensures
            r.valid(),
            r == norm_cdf_value(*self),
    {
        outside_norm_cdf(*self)
    }

    /// Shows the number.
    pub fn to_text(&self) -> (r: String)
        requires
            self.valid(),
        ensures
            r@ == shown(*self),
    {
        outside_show(*self)
    }

    /// Reads a number.
    pub fn from_str(value: &str) -> (r: Result<Decimal, DecimalError>)
        ensures
            match r {
                Ok(d) => parsed(value@) == Ok::<Decimal, Seq<char>>(d) && d.valid(),
                Err(e) => parsed(value@) == Err::<Decimal, Seq<char>>(e.message@),
            },
    {
        match outside_from_str(value) {
            Ok(d) => Ok(d),
            Err(message) => Err(DecimalError { message }),
        }
    }

    /// The number of an integer.
    pub fn from_i64(n: i64) -> (r: Option<Decimal>)
        ensures
            r == Some(integer(n as int)),
            r matches Some(v) ==> v.valid(),
    {
        outside_from_i64(n)
    }

    /// The number of an integer.
    pub fn from_u64(n: u64) -> (r: Option<Decimal>)
        ensures
            r == Some(integer(n as int)),
            r matches Some(v) ==> v.valid(),
    {
        outside_from_u64(n)
    }

    /// The number of an integer, where it fits in 96 bits.
    pub fn from_i128(n: i128) -> (r: Option<Decimal>)
        ensures
            r == if fits(n as int) {
                Some(integer(n as int))
            } else {
                None
            },
            r matches Some(v) ==> v.valid(),
    {
        outside_from_i128(n)
    }

    /// The number of an integer, where it fits in 96 bits.
    pub fn from_u128(n: u128) -> (r: Option<Decimal>)
        ensures
            r == if fits(n as int) {
                Some(integer(n as int))
            } else {
                None
            },
            r matches Some(v) ==> v.valid(),
    {
        outside_from_u128(n)
    }

    /// The number without the digits behind the decimal point, where it fits.
    pub fn to_i64(&self) -> (r: Option<i64>)
        requires
            self.valid(),
        ensures
            r == if i64::MIN <= integer_part(*self) <= i64::MAX {
                Some(integer_part(*self) as i64)
            } else {
                None
            },
    {
        outside_to_i64(*self)
    }

    /// The number without the digits behind the decimal point, where it has no minus
    /// sign and fits.
    pub fn to_u64(&self) -> (r: Option<u64>)
        requires
            self.valid(),
        ensures
            r == if natural_within(*self, u64::MAX as int) {
                Some(integer_part(*self) as u64)
            } else {
                None
            },
    {
        outside_to_u64(*self)
    }

    /// The number without the digits behind the decimal point.
    pub fn to_i128(&self) -> (r: Option<i128>)
        requires
            self.valid(),
        ensures
            r == Some(integer_part(*self) as i128),
    {
        outside_to_i128(*self)
    }

    /// The number without the digits behind the decimal point, where it has no minus
    /// sign and fits.
    pub fn to_u128(&self) -> (r: Option<u128>)
        requires
            self.valid(),
        ensures
            r == if natural_within(*self, u128::MAX as int) {
                Some(integer_part(*self) as u128)
            } else {
                None
            },
    {
        outside_to_u128(*self)
    }

    /// The sum of two numbers.
    pub fn add(self, rhs: Decimal) -> (r: Decimal)
        requires
            self.valid(),
            rhs.valid(),
            sum_value(self, rhs) is Some,
        ensures
            r.valid(),
            sum_value(self, rhs) == Some(r),
            keeps_sum(self, rhs, Some(r)),
    {
        expected(outside_checked_add(self, rhs))
    }

    /// The difference of two numbers.
    pub fn sub(self, rhs: Decimal) -> (r: Decimal)
        requires
            self.valid(),
            rhs.valid(),
            difference_value(self, rhs) is Some,
        ensures
            r.valid(),
            difference_value(self, rhs) == Some(r),
            keeps_difference(self, rhs, Some(r)),
    {
        expected(outside_checked_sub(self, rhs))
    }

    /// The product of two numbers.
    pub fn mul(self, rhs: Decimal) -> (r: Decimal)
        requires
            self.valid(),
            rhs.valid(),
            product_value(self, rhs) is Some,
        ensures
            r.valid(),
            product_value(self, rhs) == Some(r),
            self.magnitude == 0 || rhs.magnitude == 0 ==> r == whole(false, 0),
            keeps_product(self, rhs, Some(r)),
    {
        expected(outside_checked_mul(self, rhs))
    }

    /// The quotient of two numbers.
    pub fn div(self, rhs: Decimal) -> (r: Decimal)
        requires
            self.valid(),
            rhs.valid(),
            quotient_value(self, rhs) is Some,
        ensures
            r.valid(),
            quotient_value(self, rhs) == Some(r),
    {
        expected(outside_checked_div(self, rhs))
    }

    /// The remainder of the division of two numbers.
    pub fn rem(self, rhs: Decimal) -> (r: Decimal)
        requires
            self.valid(),
            rhs.valid(),
            remainder_value(self, rhs) is Some,
        ensures
            r.valid(),
            remainder_value(self, rhs) == Some(r),
    {
        expected(outside_checked_rem(self, rhs))
    }

    /// The number with the other sign.
    pub fn neg(self) -> (r: Decimal)
        requires
            self.valid(),
        ensures
            r.valid(),
            r == neg_of(self),
    {
        outside_neg(self)
    }

    /// Zero.
    pub fn zero() -> (r: Decimal)
        ensures
            r.valid(),
            r == whole(false, 0),
    {
        Decimal { negative: false, magnitude: 0, scale: 0 }
    }

    /// One.
    pub fn one() -> (r: Decimal)
        ensures
            r.valid(),
            r == whole(false, 1),
    {
        Decimal { negative: false, magnitude: 1, scale: 0 }
    }

    /// Whether two numbers have the same value.
    pub fn equals(&self, other: &Decimal) -> (r: bool)
        requires
            self.valid(),
            other.valid(),
        ensures
            r == (self.units() == other.units()),
    {
        outside_equal(*self, *other)
    }

    /// Whether the number is below another.
    pub fn is_less(&self, other: &Decimal) -> (r: bool)
        requires
            self.valid(),
            other.valid(),
        ensures
            r == (self.units() < other.units()),
    {
        outside_less(*self, *other)
    }

    /// The value of an operation, where it can be represented.
    pub fn evaluate(&self, operation: Operation) -> (r: Option<Decimal>)
        requires
            self.valid(),
            operation.valid(),
        ensures
            r == operation_value(*self, operation),
            r matches Some(v) ==> v.valid(),
            has_no_value(*self, operation) ==> r is None,
    {
        let d = *self;
        match operation {
            Operation::Exp => match outside_checked_exp(d) {
                Some(_) => Some(d.exp()),
                None => None,
            },
            Operation::ExpWithTolerance(tolerance) => match outside_checked_exp_with_tolerance(d, tolerance) {
                Some(_) => Some(d.exp_with_tolerance(tolerance)),
                None => None,
            },
            Operation::Powi(exp) => match outside_checked_powi(d, exp) {
                Some(_) => Some(d.powi(exp)),
                None => None,
            },
            Operation::Powu(exp) => match outside_checked_powu(d, exp) {
                Some(_) => Some(d.powu(exp)),
                None => None,
            },
            Operation::Powd(exp) => match outside_checked_powd(d, exp) {
                Some(_) => Some(d.powd(exp)),
                None => None,
            },
            Operation::Ln => match outside_checked_ln(d) {
                Some(_) => Some(d.ln()),
                None => None,
            },
            Operation::Log10 => match outside_checked_log10(d) {
                Some(_) => Some(d.log10()),
                None => None,
            },
            Operation::NormPdf => match outside_checked_norm_pdf(d) {
                Some(_) => Some(d.norm_pdf()),
                None => None,
            },
            Operation::Sin => match outside_checked_sin(d) {
                Some(_) => Some(d.sin()),
                None => None,
            },
            Operation::Cos => match outside_checked_cos(d) {
                Some(_) => Some(d.cos()),
                None => None,
            },
            Operation::Tan => match outside_checked_tan(d) {
                Some(_) => Some(d.tan()),
                None => None,
            },
            Operation::Add(rhs) => match outside_checked_add(d, rhs) {
                Some(_) => Some(d.add(rhs)),
                None => None,
            },
            Operation::Sub(rhs) => match outside_checked_sub(d, rhs) {
                Some(_) => Some(d.sub(rhs)),
                None => None,
            },
            Operation::Mul(rhs) => match outside_checked_mul(d, rhs) {
                Some(_) => Some(d.mul(rhs)),
                None => None,
            },
            Operation::Div(rhs) => match outside_checked_div(d, rhs) {
                Some(_) => Some(d.div(rhs)),
                None => None,
            },
            Operation::Rem(rhs) => match outside_checked_rem(d, rhs) {
                Some(_) => Some(d.rem(rhs)),
                None => None,
            },
        }
    }
}

impl Default for Decimal {
    fn default() -> (r: Self)
        ensures
            r == whole(false, 0),
    {
        Decimal::zero()
    }
}

/// An operation that does not always have a value that can be represented.
#[derive(Debug, Clone, Copy)]
pub enum Operation {
    Exp,
    ExpWithTolerance(Decimal),
    Powi(i64),
    Powu(u64),
    Powd(Decimal),
    Ln,
    Log10,
    NormPdf,
    Sin,
    Cos,
    Tan,
    Add(Decimal),
    Sub(Decimal),
    Mul(Decimal),
    Div(Decimal),
    Rem(Decimal),
}

impl Operation {
    /// The numbers that the operation holds are valid.
    pub open spec fn valid(self) -> bool {
        match self {
            Operation::ExpWithTolerance(d)
            | Operation::Powd(d)
            | Operation::Add(d)
            | Operation::Sub(d)
            | Operation::Mul(d)
            | Operation::Div(d)
            | Operation::Rem(d) => d.valid(),
            _ => true,
        }
    }
}

/// The operation is a division by zero, or the logarithm of a number that is not
/// positive.
pub open spec fn has_no_value(d: Decimal, operation: Operation) -> bool {
    match operation {
        Operation::Div(rhs) | Operation::Rem(rhs) => rhs.magnitude == 0,
        Operation::Ln | Operation::Log10 => d.negative || d.magnitude == 0,
        _ => false,
    }
}

/// The value of an operation on a number.
pub open spec fn operation_value(d: Decimal, operation: Operation) -> Option<Decimal> {
    match operation {
        Operation::Exp => exp_value(d),
        Operation::ExpWithTolerance(tolerance) => exp_tolerance_value(d, tolerance),
        Operation::Powi(exp) => powi_value(d, exp),
        Operation::Powu(exp) => powu_value(d, exp),
        Operation::Powd(exp) => powd_value(d, exp),
        Operation::Ln => ln_value(d),
        Operation::Log10 => log10_value(d),
        Operation::NormPdf => norm_pdf_value(d),
        Operation::Sin => sin_value(d),
        Operation::Cos => cos_value(d),
        Operation::Tan => tan_value(d),
        Operation::Add(rhs) => sum_value(d, rhs),
        Operation::Sub(rhs) => difference_value(d, rhs),
        Operation::Mul(rhs) => product_value(d, rhs),
        Operation::Div(rhs) => quotient_value(d, rhs),
        Operation::Rem(rhs) => remainder_value(d, rhs),
    }
}

/// The value that is known to be there.
fn expected(value: Option<Decimal>) -> (r: Decimal)
    requires
        value is Some,
    ensures
        value == Some(r),
{
    match value {
        Some(d) => d,
        None => vstd::pervasive::unreached(),
    }
}

/// Ten to a power is positive.
proof fn lemma_ten_to(n: nat)
    ensures
        ten_to(n) >= 1,
        n > 0 ==> ten_to(n) >= 10,
    decreases n,
{
    if n > 0 {
        lemma_ten_to((n - 1) as nat);
    }
}

/// Dropping digits leaves a number that fits, with room for one more.
proof fn lemma_quotient_small(m: nat, n: nat)
    requires
        m < limit(),
    ensures
        0 <= m / ten_to(n) <= m,
        n > 0 ==> m / ten_to(n) + 1 < limit(),
{
    lemma_ten_to(n);
    let p = ten_to(n);
    vstd::arithmetic::div_mod::lemma_div_pos_is_pos(m as int, p as int);
    vstd::arithmetic::div_mod::lemma_div_is_ordered_by_denominator(m as int, 1, p as int);
    if n > 0 {
        vstd::arithmetic::div_mod::lemma_div_is_ordered_by_denominator(m as int, 10, p as int);
    }
}

proof fn lemma_extended(m: nat, scale: nat, target: nat)
    requires
        m < limit(),
        scale <= target,
    ensures
        extended(m, scale, target).0 < limit(),
        scale <= extended(m, scale, target).1 <= target,
    decreases target - scale,
{
    if scale < target && 10 * m < limit() {
        lemma_extended(10 * m, scale + 1, target);
    }
}

proof fn lemma_rescaled_valid(d: Decimal, scale: u32)
    requires
        d.valid(),
        rescaled(d, scale).scale <= MAX_SCALE,
    ensures
        rescaled(d, scale).valid(),
{
    if scale < d.scale {
        lemma_quotient_small(d.magnitude as nat, (d.scale - scale - 1) as nat);
    } else if scale > d.scale {
        lemma_extended(d.magnitude as nat, d.scale as nat, scale as nat);
    }
}

proof fn lemma_truncated_valid(d: Decimal, scale: u32)
    requires
        d.valid(),
        truncated(d, scale).scale <= MAX_SCALE,
    ensures
        truncated(d, scale).valid(),
{
    if scale < d.scale {
        lemma_quotient_small(d.magnitude as nat, (d.scale - scale) as nat);
    } else if scale > d.scale {
        lemma_extended(d.magnitude as nat, d.scale as nat, scale as nat);
    }
}

proof fn lemma_rounded_valid(d: Decimal, dp: u32)
    requires
        d.valid(),
    ensures
        rounded(d, dp).valid(),
{
    if d.scale > dp {
        lemma_quotient_small(d.magnitude as nat, (d.scale - dp) as nat);
    }
}

/// Powers of ten multiply.
proof fn lemma_ten_to_sum(a: nat, b: nat)
    ensures
        ten_to(a + b) == ten_to(a) * ten_to(b),
    decreases a,
{
    if a > 0 {
        let c = (a - 1) as nat;
        lemma_ten_to_sum(c, b);
        assert(10 * (ten_to(c) * ten_to(b)) == (10 * ten_to(c)) * ten_to(b)) by (nonlinear_arith);
    } else {
        assert(ten_to(0) * ten_to(b) == ten_to(b)) by {
            assert(ten_to(0) == 1);
        }
    }
}

/// Turning the sign round twice leads back, and the sign does not matter to the
/// absolute value.
pub proof fn signs_turn_round(d: Decimal)
    ensures
        neg_of(neg_of(d)) == d,
        abs_of(neg_of(d)) == abs_of(d),
        abs_of(abs_of(d)) == abs_of(d),
        neg_of(d).units() == -d.units(),
{
    let p = ten_to((28 - d.scale) as nat);
    assert((-d.signed()) * p == -(d.signed() * p)) by (nonlinear_arith);
}

/// A number is its sign times its absolute value.
pub proof fn numbers_are_sign_times_absolute_value(d: Decimal)
    ensures
        d.signed() == signum_of(d).signed() * abs_of(d).signed(),
{
    let m = d.magnitude as int;
    assert(1 * m == m && (-1) * m == -m && 0 * m == 0) by (nonlinear_arith);
}

/// An integer is read back from its number.
pub proof fn integers_are_read_back(n: int)
    requires
        fits(n),
    ensures
        integer(n).valid(),
        integer_part(integer(n)) == n,
{
    let m = integer(n).magnitude as nat;
    assert(ten_to(0) == 1);
    assert(integer(n).scale as nat == 0);
    assert(m / ten_to(0) == m);
}

/// Rounding to so many digits twice is rounding once, and so are dropping digits and
/// taking the nearest integer on either side.
pub proof fn rounding_is_idempotent(d: Decimal, dp: u32)
    requires
        d.valid(),
    ensures
        rounded(rounded(d, dp), dp) == rounded(d, dp),
        dp <= d.scale ==> truncated(truncated(d, dp), dp) == truncated(d, dp),
        floor_of(floor_of(d)) == floor_of(d),
        ceil_of(ceil_of(d)) == ceil_of(d),
{
}

/// The digits in front of the decimal point and those behind it make up the number.
proof fn lemma_units_split(d: Decimal)
    requires
        d.valid(),
    ensures
        ({
            let m = d.magnitude as nat;
            let p = ten_to(d.scale as nat);
            let u = ten_to((28 - d.scale) as nat);
            &&& m == p * (m / p) + m % p
            &&& 0 <= m % p < p
            &&& u >= 1
            &&& p * u == ten_to(28)
            &&& m * u == (m / p) * ten_to(28) + (m % p) * u
            &&& 0 <= (m % p) * u < ten_to(28)
        }),
{
    let m = d.magnitude as nat;
    let p = ten_to(d.scale as nat);
    let u = ten_to((28 - d.scale) as nat);
    lemma_ten_to(d.scale as nat);
    lemma_ten_to((28 - d.scale) as nat);
    lemma_ten_to_sum(d.scale as nat, (28 - d.scale) as nat);
    let q = m / p;
    let r = m % p;
    vstd::arithmetic::div_mod::lemma_fundamental_div_mod(m as int, p as int);
    vstd::arithmetic::div_mod::lemma_mod_bound(m as int, p as int);
    assert((p * q + r) * u == q * (p * u) + r * u) by (nonlinear_arith);
    assert(0 <= r * u < p * u) by (nonlinear_arith)
        requires
            0 <= r < p,
            u >= 1,
    ;
}

/// The number lies between the integers below and above it, less than one away from
/// either.
pub proof fn numbers_lie_between_floor_and_ceil(d: Decimal)
    requires
        d.valid(),
    ensures
        floor_of(d).units() <= d.units() <= ceil_of(d).units(),
        d.units() - floor_of(d).units() < ten_to(28),
        ceil_of(d).units() - d.units() < ten_to(28),
{
    lemma_units_split(d);
    lemma_ten_to(28);
    lemma_quotient_small(d.magnitude as nat, d.scale as nat);
    let m = d.magnitude as int;
    let p = ten_to(d.scale as nat);
    let u = ten_to((28 - d.scale) as nat) as int;
    let q = (d.magnitude as nat / p) as int;
    let r = (d.magnitude as nat % p) as int;
    let t = ten_to(28) as int;
    if d.scale > 0 {
        assert((-m) * u == -(m * u)) by (nonlinear_arith);
        assert((-q) * t == -(q * t)) by (nonlinear_arith);
        assert((q + 1) * t == q * t + t) by (nonlinear_arith);
        assert((-(q + 1)) * t == -(q * t) - t) by (nonlinear_arith);
        if r == 0 {
            assert(r * u == 0) by (nonlinear_arith)
                requires
                    r == 0,
            ;
        } else {
            assert(r * u > 0) by (nonlinear_arith)
                requires
                    r > 0,
                    u >= 1,
            ;
        }
    }
}

/// Rounding to `dp` digits moves a number by at most half a unit of the last digit
/// that stays.
pub proof fn rounding_error_is_at_most_half(d: Decimal, dp: u32)
    requires
        d.valid(),
        dp <= MAX_SCALE,
    ensures
        -(ten_to((28 - dp) as nat) as int) <= 2 * (rounded(d, dp).units() - d.units()) <= ten_to(
            (28 - dp) as nat,
        ),
{
    lemma_ten_to((28 - dp) as nat);
    if d.scale > dp {
        let m = d.magnitude as nat;
        let k = (d.scale - dp) as nat;
        let p = ten_to(k);
        let u = ten_to((28 - d.scale) as nat);
        let t = ten_to((28 - dp) as nat);
        lemma_ten_to(k);
        lemma_ten_to((28 - d.scale) as nat);
        lemma_ten_to_sum(k, (28 - d.scale) as nat);
        assert(k + (28 - d.scale) as nat == (28 - dp) as nat);
        assert(t == p * u);
        lemma_quotient_small(m, k);
        if m == 0 {
            assert(0 * (u as int) == 0 && 0 * (t as int) == 0) by (nonlinear_arith);
        } else {
            let q = (m / p) as int;
            let r = (m % p) as int;
            vstd::arithmetic::div_mod::lemma_fundamental_div_mod(m as int, p as int);
            vstd::arithmetic::div_mod::lemma_mod_bound(m as int, p as int);
            let h = half_even(m, p) as int;
            let (pi, ui, mi) = (p as int, u as int, m as int);
            assert(mi * ui == q * (pi * ui) + r * ui) by (nonlinear_arith)
                requires
                    mi == pi * q + r,
            ;
            assert(-(pi * ui) <= 2 * (h * (pi * ui) - mi * ui) <= pi * ui) by (nonlinear_arith)
                requires
                    mi * ui == q * (pi * ui) + r * ui,
                    h == q || h == q + 1,
                    h == q ==> 2 * r <= pi,
                    h == q + 1 ==> 2 * r >= pi,
                    0 <= r < pi,
                    ui >= 1,
            ;
            assert((-h) * (t as int) == -(h * (t as int))) by (nonlinear_arith);
            assert((-mi) * ui == -(mi * ui)) by (nonlinear_arith);
            assert(rounded(d, dp).magnitude == h);
            if h == 0 {
                assert(h * (t as int) == 0) by (nonlinear_arith)
                    requires
                        h == 0,
                ;
            }
        }
    }
}

/// Digits that are added change the scale of a number, not its value.
pub proof fn added_digits_keep_the_value(d: Decimal, scale: u32)
    requires
        d.valid(),
        d.scale < scale <= MAX_SCALE,
    ensures
        rescaled(d, scale).units() == d.units(),
        truncated(d, scale).units() == d.units(),
{
    if d.magnitude == 0 {
        let (u, t) = (ten_to((28 - d.scale) as nat) as int, ten_to((28 - scale) as nat) as int);
        assert(0 * u == 0 && 0 * t == 0) by (nonlinear_arith);
    } else {
        let m = d.magnitude as nat;
        let (n, reached) = extended(m, d.scale as nat, scale as nat);
        lemma_extended(m, d.scale as nat, scale as nat);
        lemma_extended_units(m, d.scale as nat, scale as nat);
        let (mi, ni) = (m as int, n as int);
        let (u, t) = (ten_to((28 - d.scale) as nat) as int, ten_to((28 - reached) as nat) as int);
        assert((-mi) * u == -(mi * u) && (-ni) * t == -(ni * t)) by (nonlinear_arith);
    }
}

proof fn lemma_extended_units(m: nat, scale: nat, target: nat)
    requires
        scale <= target <= 28,
        m < limit(),
    ensures
        extended(m, scale, target).0 * ten_to((28 - extended(m, scale, target).1) as nat) == m
            * ten_to((28 - scale) as nat),
    decreases target - scale,
{
    if scale < target && 10 * m < limit() {
        lemma_extended_units(10 * m, scale + 1, target);
        let u = ten_to((28 - scale - 1) as nat);
        assert(ten_to((28 - scale) as nat) == 10 * u);
        assert((10 * m) * u == m * (10 * u)) by (nonlinear_arith);
    }
}

/// A number is valid exactly when its digits fit in 96 bits and at most 28 of them stand behind
/// the decimal point.  Its value in units of the last possible digit is its digits, with the
/// sign, times a power of ten.
pub proof fn numbers_are_digits_with_a_point(d: Decimal)
    ensures
        d.valid() <==> d.magnitude < pow(2, 96) && d.scale <= 28,
        d.negative ==> d.signed() == -(d.magnitude as int),
        !d.negative ==> d.signed() == d.magnitude,
        d.valid() ==> d.units() == d.signed() * pow(10, (28 - d.scale) as nat),
{
    lemma_limit();
    lemma_ten_to_pow((28 - d.scale) as nat);
}

proof fn lemma_limit()
    ensures
        pow(2, 96) == limit(),
{
    vstd::arithmetic::power2::lemma2_to64();
    vstd::arithmetic::power2::lemma_pow2(32);
    vstd::arithmetic::power2::lemma_pow2(64);
    vstd::arithmetic::power::lemma_pow_adds(2, 32, 64);
    assert(pow(2, 32) == 0x1_0000_0000);
    assert(pow(2, 64) == 0x1_0000_0000_0000_0000);
}

proof fn lemma_ten_to_pow(n: nat)
    ensures
        ten_to(n) == pow(10, n),
    decreases n,
{
    reveal(pow);
    if n > 0 {
        lemma_ten_to_pow((n - 1) as nat);
    }
}

/// The largest integer that is not above a number, and the smallest one that is not below it,
/// are integers less than one away from the number.
pub proof fn integers_next_to_a_number(d: Decimal, below: Decimal, above: Decimal)
    requires
        d.valid(),
        call_ensures(Decimal::floor, (&d,), below),
        call_ensures(Decimal::ceil, (&d,), above),
    ensures
        below.scale == 0 && above.scale == 0,
        below.units() <= d.units() < below.units() + pow(10, 28),
        above.units() - pow(10, 28) < d.units() <= above.units(),
{
    numbers_lie_between_floor_and_ceil(d);
    lemma_ten_to_pow(28);
}

/// Rounding to so many digits is off by half a digit at most, and gives an even digit where it
/// is off by that; a number without more digits stays.
pub proof fn rounding_goes_to_the_nearest_digit(d: Decimal, dp: u32, r: Decimal)
    requires
        d.valid(),
        call_ensures(Decimal::round_dp, (&d, dp), r),
    ensures
        r.valid(),
        d.scale <= dp ==> r == d,
        d.scale > dp ==> r.scale == dp && (r.negative ==> d.negative) && (d.negative && r.magnitude
            > 0 ==> r.negative),
        d.scale > dp ==> {
            let unit = pow(10, (28 - dp) as nat);
            let off = 2 * (r.units() - d.units());
            -unit <= off <= unit && (off == unit || off == -unit ==> r.magnitude % 2 == 0)
        },
{
    if d.scale > dp {
        rounding_error_is_at_most_half(d, dp);
        lemma_ten_to_pow((28 - dp) as nat);
        lemma_half_is_even(d, dp);
    }
}

proof fn lemma_half_is_even(d: Decimal, dp: u32)
    requires
        d.valid(),
        dp < d.scale,
    ensures
        ({
            let unit = ten_to((28 - dp) as nat);
            let off = 2 * (rounded(d, dp).units() - d.units());
            off == unit || off == -unit ==> rounded(d, dp).magnitude % 2 == 0
        }),
{
    let m = d.magnitude as nat;
    let k = (d.scale - dp) as nat;
    let p = ten_to(k);
    let u = ten_to((28 - d.scale) as nat);
    let t = ten_to((28 - dp) as nat);
    lemma_ten_to(k);
    lemma_ten_to((28 - d.scale) as nat);
    lemma_ten_to_sum(k, (28 - d.scale) as nat);
    assert(k + (28 - d.scale) as nat == (28 - dp) as nat);
    assert(t == p * u);
    lemma_quotient_small(m, k);
    if m > 0 {
        let q = (m / p) as int;
        let r = (m % p) as int;
        vstd::arithmetic::div_mod::lemma_fundamental_div_mod(m as int, p as int);
        vstd::arithmetic::div_mod::lemma_mod_bound(m as int, p as int);
        let h = half_even(m, p) as int;
        let (pi, ui, mi) = (p as int, u as int, m as int);
        assert(rounded(d, dp).magnitude == h);
        assert((-h) * (t as int) == -(h * (t as int))) by (nonlinear_arith);
        assert((-mi) * ui == -(mi * ui)) by (nonlinear_arith);
        if h == 0 {
            assert(h * (t as int) == 0) by (nonlinear_arith)
                requires
                    h == 0,
            ;
        }
        let off = 2 * (h * (pi * ui) - mi * ui);
        if off == pi * ui || off == -(pi * ui) {
            assert(2 * r == pi) by (nonlinear_arith)
                requires
                    off == 2 * (h * (pi * ui) - mi * ui),
                    off == pi * ui || off == -(pi * ui),
                    mi == pi * q + r,
                    h == q || h == q + 1,
                    0 <= r < pi,
                    ui >= 1,
            ;
            assert(2 * (m % p) == p);
        }
    }
}

/// Digits are dropped towards zero where a number is cut off, and by less than one unit of the
/// digit that stays.
pub proof fn cutting_off_goes_towards_zero(d: Decimal, scale: u32, r: Decimal)
    requires
        d.valid(),
        scale < d.scale,
        call_ensures(Decimal::trunc_with_scale, (&d, scale), r),
    ensures
        r.valid() && r.scale == scale && r.negative == d.negative,
        r.magnitude * pow(10, (d.scale - scale) as nat) <= d.magnitude,
        d.magnitude < (r.magnitude + 1) * pow(10, (d.scale - scale) as nat),
{
    let k = (d.scale - scale) as nat;
    lemma_ten_to(k);
    lemma_ten_to_pow(k);
    lemma_quotient_small(d.magnitude as nat, k);
    lemma_quotient_bounds(d.magnitude as int, ten_to(k) as int);
}

proof fn lemma_quotient_bounds(m: int, p: int)
    requires
        m >= 0,
        p > 0,
    ensures
        (m / p) * p <= m < (m / p + 1) * p,
{
    vstd::arithmetic::div_mod::lemma_fundamental_div_mod(m, p);
    vstd::arithmetic::div_mod::lemma_mod_bound(m, p);
    let q = m / p;
    assert(q * p == p * q && (q + 1) * p == p * q + p) by (nonlinear_arith);
}

/// More digits behind the decimal point leave the value as it is.
pub proof fn added_digits_are_zeros(d: Decimal, scale: u32, r: Decimal)
    requires
        d.valid(),
        d.scale <= scale <= 28,
        call_ensures(Decimal::trunc_with_scale, (&d, scale), r),
    ensures
        r.units() == d.units(),
        d.scale <= r.scale <= scale,
        r.negative == d.negative,
        d.magnitude * pow(10, (scale - d.scale) as nat) < pow(2, 96) ==> r.scale == scale,
{
    if d.scale < scale {
        added_digits_keep_the_value(d, scale);
        lemma_extended(d.magnitude as nat, d.scale as nat, scale as nat);
        lemma_limit();
        lemma_ten_to_pow((scale - d.scale) as nat);
        if d.magnitude * pow(10, (scale - d.scale) as nat) < pow(2, 96) {
            lemma_extended_reaches(d.magnitude as nat, d.scale as nat, scale as nat);
        }
    }
}

proof fn lemma_extended_reaches(m: nat, scale: nat, target: nat)
    requires
        scale <= target,
        m * ten_to((target - scale) as nat) < limit(),
    ensures
        extended(m, scale, target).1 == target,
    decreases target - scale,
{
    if scale < target {
        let k = (target - scale - 1) as nat;
        lemma_ten_to(k);
        assert(m * (10 * ten_to(k)) == (10 * m) * ten_to(k)) by (nonlinear_arith);
        assert(10 * m <= (10 * m) * ten_to(k)) by (nonlinear_arith)
            requires
                ten_to(k) >= 1,
        ;
        lemma_extended_reaches(10 * m, scale + 1, target);
    }
}

/// A number that is brought to fewer digits is off by half a digit at most, and goes away from
/// zero where it is off by that; more digits leave its value.
pub proof fn rescaling_goes_to_the_nearest_digit(scale: u32)
    ensures
        forall|d: &mut Decimal| #[trigger]
            call_ensures(Decimal::rescale, (d, scale), ()) && d.valid() && d.scale <= scale <= 28
                ==> final(d).units() == d.units() && final(d).negative == d.negative,
        forall|d: &mut Decimal| #[trigger]
            call_ensures(Decimal::rescale, (d, scale), ()) && d.valid() && scale < d.scale ==> {
                let p = pow(10, (d.scale - scale) as nat);
                &&& final(d).scale == scale && final(d).negative == d.negative
                &&& -p < 2 * (d.magnitude - final(d).magnitude * p) < p || 2 * (final(d).magnitude
                    * p - d.magnitude) == p
            },
{
    assert forall|d: &mut Decimal| #[trigger]
        call_ensures(Decimal::rescale, (d, scale), ()) && d.valid() && d.scale <= scale
            <= 28 implies final(d).units() == d.units() && final(d).negative == d.negative by {
        if d.scale < scale {
            added_digits_keep_the_value(*d, scale);
        }
    }
    assert forall|d: &mut Decimal| #[trigger]
        call_ensures(Decimal::rescale, (d, scale), ()) && d.valid() && scale < d.scale implies ({
        let p = pow(10, (d.scale - scale) as nat);
        &&& final(d).scale == scale && final(d).negative == d.negative
        &&& -p < 2 * (d.magnitude - final(d).magnitude * p) < p || 2 * (final(d).magnitude * p
            - d.magnitude) == p
    }) by {
        let m = d.magnitude as int;
        let k = (d.scale - scale - 1) as nat;
        let p = ten_to(k) as int;
        lemma_ten_to(k);
        lemma_ten_to_pow(k + 1);
        lemma_quotient_small(d.magnitude as nat, k);
        lemma_quotient_bounds(m, p);
        let q = m / p;
        let f = final(d).magnitude as int;
        assert(f == q / 10 + (if q % 10 >= 5 {
            1int
        } else {
            0
        }));
        assert(-(10 * p) < 2 * (m - f * (10 * p)) < 10 * p || 2 * (f * (10 * p) - m) == 10 * p)
            by (nonlinear_arith)
            requires
                p >= 1,
                q * p <= m < (q + 1) * p,
                f == q / 10 + (if q % 10 >= 5 {
                    1int
                } else {
                    0
                }),
        ;
    }
}

/// Signs: the opposite has the other sign, the absolute value none, and the sign of a number
/// is one or zero with it.
pub proof fn signs_are_kept_apart(d: Decimal, opposite: Decimal, absolute: Decimal, sign: Decimal)
    requires
        call_ensures(Decimal::neg, (d,), opposite),
        call_ensures(Decimal::abs, (&d,), absolute),
        call_ensures(Decimal::signum, (&d,), sign),
    ensures
        opposite.negative == !d.negative && opposite.magnitude == d.magnitude && opposite.scale
            == d.scale,
        !absolute.negative && absolute.magnitude == d.magnitude && absolute.scale == d.scale,
        sign.scale == 0,
        d.magnitude == 0 ==> sign.magnitude == 0 && !sign.negative,
        d.magnitude > 0 ==> sign.magnitude == 1 && sign.negative == d.negative,
{
}

/// Numbers compare by their values.
pub proof fn numbers_are_ordered_by_value(d: Decimal, e: Decimal, same: bool, less: bool)
    requires
        d.valid(),
        e.valid(),
        call_ensures(Decimal::equals, (&d, &e), same),
        call_ensures(Decimal::is_less, (&d, &e), less),
    ensures
        same <==> d.signed() * pow(10, (28 - d.scale) as nat) == e.signed() * pow(
            10,
            (28 - e.scale) as nat,
        ),
        less <==> d.signed() * pow(10, (28 - d.scale) as nat) < e.signed() * pow(
            10,
            (28 - e.scale) as nat,
        ),
{
    numbers_are_digits_with_a_point(d);
    numbers_are_digits_with_a_point(e);
}

/// Numbers of one scale are added and subtracted digit by digit where the result fits, and
/// products have the digits multiplied and the scales added.
pub proof fn exact_results_are_exact(
    d: Decimal,
    e: Decimal,
    sum: Decimal,
    difference: Decimal,
    product: Decimal,
)
    requires
        d.valid(),
        e.valid(),
        call_ensures(Decimal::add, (d, e), sum),
        call_ensures(Decimal::sub, (d, e), difference),
        call_ensures(Decimal::mul, (d, e), product),
    ensures
        d.scale == e.scale && -pow(2, 96) < d.signed() + e.signed() < pow(2, 96) ==> sum.scale
            == d.scale && sum.signed() == d.signed() + e.signed(),
        d.scale == e.scale && -pow(2, 96) < d.signed() - e.signed() < pow(2, 96)
            ==> difference.scale == d.scale && difference.signed() == d.signed() - e.signed(),
        d.magnitude > 0 && e.magnitude > 0 && d.scale + e.scale <= 28 && d.magnitude * e.magnitude
            < pow(2, 96) ==> product.scale == d.scale + e.scale && product.signed() == d.signed()
            * e.signed(),
        d.magnitude == 0 || e.magnitude == 0 ==> product.magnitude == 0,
{
    lemma_limit();
    assert(d.magnitude * e.magnitude >= 0) by (nonlinear_arith);
}

/// Integers become numbers of the same value without digits behind the decimal point, where
/// they fit in 96 bits.
pub proof fn integers_become_numbers(
    a: i64,
    b: u64,
    c: i128,
    e: u128,
    r: Option<Decimal>,
    d: Decimal,
    scale: u32,
)
    ensures
        call_ensures(Decimal::from_i64, (a,), r) ==> (r matches Some(n) && n.scale == 0
            && n.signed() == a),
        call_ensures(Decimal::from_u64, (b,), r) ==> (r matches Some(n) && n.scale == 0
            && n.signed() == b),
        call_ensures(Decimal::from_i128, (c,), r) ==> (r is Some <==> -pow(2, 96) < c < pow(2, 96))
            && (r matches Some(n) ==> n.scale == 0 && n.signed() == c),
        call_ensures(Decimal::from_u128, (e,), r) ==> (r is Some <==> e < pow(2, 96)) && (r
            matches Some(n) ==> n.scale == 0 && n.signed() == e),
        call_ensures(Decimal::new, (a, scale), d) ==> d.scale == scale && d.signed() == a,
        call_ensures(Decimal::zero, (), d) ==> d.scale == 0 && d.magnitude == 0 && !d.negative,
        call_ensures(Decimal::one, (), d) ==> d.scale == 0 && d.magnitude == 1 && !d.negative,
        call_ensures(<Decimal as Default>::default, (), d) ==> d.scale == 0 && d.magnitude == 0
            && !d.negative,
{
    lemma_limit();
}

/// A number becomes the integer that is left when the digits behind the decimal point are
/// dropped, where it fits; a number with a minus sign has no unsigned one.
pub proof fn numbers_become_integers(
    d: Decimal,
    a: Option<i64>,
    b: Option<u64>,
    c: Option<i128>,
    e: Option<u128>,
    zero: bool,
)
    requires
        d.valid(),
        call_ensures(Decimal::to_i64, (&d,), a),
        call_ensures(Decimal::to_u64, (&d,), b),
        call_ensures(Decimal::to_i128, (&d,), c),
        call_ensures(Decimal::to_u128, (&d,), e),
        call_ensures(Decimal::is_zero, (&d,), zero),
    ensures
        zero <==> d.magnitude == 0,
        c matches Some(n) && (if d.negative {
            n <= 0 && -n * pow(10, d.scale as nat) <= d.magnitude < (-n + 1) * pow(
                10,
                d.scale as nat,
            )
        } else {
            n >= 0 && n * pow(10, d.scale as nat) <= d.magnitude < (n + 1) * pow(
                10,
                d.scale as nat,
            )
        }),
        a == if i64::MIN <= c->0 <= i64::MAX {
            Some(c->0 as i64)
        } else {
            None
        },
        b == if !d.negative && c->0 <= u64::MAX {
            Some(c->0 as u64)
        } else {
            None
        },
        e == if !d.negative {
            Some(c->0 as u128)
        } else {
            None
        },
{
    let p = ten_to(d.scale as nat) as int;
    lemma_ten_to(d.scale as nat);
    lemma_ten_to_pow(d.scale as nat);
    lemma_quotient_small(d.magnitude as nat, d.scale as nat);
    lemma_quotient_bounds(d.magnitude as int, p);
}

/// An operation gives what the function of its name gives, and so does the form of that
/// function which gives nothing where there is no value.
pub proof fn operations_are_named_after_functions(
    d: Decimal,
    rhs: Decimal,
    signed: i64,
    unsigned: u64,
    r: Option<Decimal>,
    s: Option<Decimal>,
    x: Decimal,
)
    ensures
        call_ensures(Decimal::evaluate, (&d, Operation::Exp), r) && call_ensures(
            Decimal::checked_exp,
            (&d,),
            s,
        ) ==> r == s,
        call_ensures(Decimal::checked_exp, (&d,), s) && call_ensures(Decimal::exp, (&d,), x) ==> s
            == Some(x),
        call_ensures(Decimal::evaluate, (&d, Operation::Ln), r) && call_ensures(
            Decimal::checked_ln,
            (&d,),
            s,
        ) ==> r == s,
        call_ensures(Decimal::checked_ln, (&d,), s) && call_ensures(Decimal::ln, (&d,), x) ==> s
            == Some(x),
        call_ensures(Decimal::evaluate, (&d, Operation::Log10), r) && call_ensures(
            Decimal::checked_log10,
            (&d,),
            s,
        ) ==> r == s,
        call_ensures(Decimal::checked_log10, (&d,), s) && call_ensures(Decimal::log10, (&d,), x) ==> s
            == Some(x),
        call_ensures(Decimal::evaluate, (&d, Operation::NormPdf), r) && call_ensures(
            Decimal::checked_norm_pdf,
            (&d,),
            s,
        ) ==> r == s,
        call_ensures(Decimal::checked_norm_pdf, (&d,), s) && call_ensures(Decimal::norm_pdf, (&d,), x) ==> s
            == Some(x),
        call_ensures(Decimal::evaluate, (&d, Operation::Sin), r) && call_ensures(
            Decimal::checked_sin,
            (&d,),
            s,
        ) ==> r == s,
        call_ensures(Decimal::checked_sin, (&d,), s) && call_ensures(Decimal::sin, (&d,), x) ==> s
            == Some(x),
        call_ensures(Decimal::evaluate, (&d, Operation::Cos), r) && call_ensures(
            Decimal::checked_cos,
            (&d,),
            s,
        ) ==> r == s,
        call_ensures(Decimal::checked_cos, (&d,), s) && call_ensures(Decimal::cos, (&d,), x) ==> s
            == Some(x),
        call_ensures(Decimal::evaluate, (&d, Operation::Tan), r) && call_ensures(
            Decimal::checked_tan,
            (&d,),
            s,
        ) ==> r == s,
        call_ensures(Decimal::checked_tan, (&d,), s) && call_ensures(Decimal::tan, (&d,), x) ==> s
            == Some(x),
        call_ensures(Decimal::evaluate, (&d, Operation::ExpWithTolerance(rhs)), r) && call_ensures(
            Decimal::checked_exp_with_tolerance,
            (&d, rhs),
            s,
        ) ==> r == s,
        call_ensures(Decimal::checked_exp_with_tolerance, (&d, rhs), s) && call_ensures(
            Decimal::exp_with_tolerance,
            (&d, rhs),
            x,
        ) ==> s == Some(x),
        call_ensures(Decimal::evaluate, (&d, Operation::Powi(signed)), r) && call_ensures(
            Decimal::checked_powi,
            (&d, signed),
            s,
        ) ==> r == s,
        call_ensures(Decimal::checked_powi, (&d, signed), s) && call_ensures(
            Decimal::powi,
            (&d, signed),
            x,
        ) ==> s == Some(x),
        call_ensures(Decimal::evaluate, (&d, Operation::Powu(unsigned)), r) && call_ensures(
            Decimal::checked_powu,
            (&d, unsigned),
            s,
        ) ==> r == s,
        call_ensures(Decimal::checked_powu, (&d, unsigned), s) && call_ensures(
            Decimal::powu,
            (&d, unsigned),
            x,
        ) ==> s == Some(x),
        call_ensures(Decimal::evaluate, (&d, Operation::Powd(rhs)), r) && call_ensures(
            Decimal::checked_powd,
            (&d, rhs),
            s,
        ) ==> r == s,
        call_ensures(Decimal::checked_powd, (&d, rhs), s) && call_ensures(
            Decimal::powd,
            (&d, rhs),
            x,
        ) ==> s == Some(x),
        call_ensures(Decimal::evaluate, (&d, Operation::Add(rhs)), r) && call_ensures(
            Decimal::add,
            (d, rhs),
            x,
        ) ==> r == Some(x),
        call_ensures(Decimal::evaluate, (&d, Operation::Sub(rhs)), r) && call_ensures(
            Decimal::sub,
            (d, rhs),
            x,
        ) ==> r == Some(x),
        call_ensures(Decimal::evaluate, (&d, Operation::Mul(rhs)), r) && call_ensures(
            Decimal::mul,
            (d, rhs),
            x,
        ) ==> r == Some(x),
        call_ensures(Decimal::evaluate, (&d, Operation::Div(rhs)), r) && call_ensures(
            Decimal::div,
            (d, rhs),
            x,
        ) ==> r == Some(x),
        call_ensures(Decimal::evaluate, (&d, Operation::Rem(rhs)), r) && call_ensures(
            Decimal::rem,
            (d, rhs),
            x,
        ) ==> r == Some(x),
        call_ensures(Decimal::evaluate, (&d, Operation::Div(rhs)), r) && rhs.magnitude == 0 ==> r
            is None,
        call_ensures(Decimal::evaluate, (&d, Operation::Rem(rhs)), r) && rhs.magnitude == 0 ==> r
            is None,
        call_ensures(Decimal::checked_ln, (&d,), s) && (d.negative || d.magnitude == 0) ==> s
            is None,
        call_ensures(Decimal::checked_log10, (&d,), s) && (d.negative || d.magnitude == 0) ==> s
            is None,
        call_ensures(Decimal::checked_exp, (&d,), s) ==> s == exp_value(d),
        call_ensures(Decimal::checked_ln, (&d,), s) ==> s == ln_value(d),
        call_ensures(Decimal::checked_log10, (&d,), s) ==> s == log10_value(d),
        call_ensures(Decimal::checked_norm_pdf, (&d,), s) ==> s == norm_pdf_value(d),
        call_ensures(Decimal::checked_sin, (&d,), s) ==> s == sin_value(d),
        call_ensures(Decimal::checked_cos, (&d,), s) ==> s == cos_value(d),
        call_ensures(Decimal::checked_tan, (&d,), s) ==> s == tan_value(d),
        call_ensures(Decimal::checked_exp_with_tolerance, (&d, rhs), s) ==> s == exp_tolerance_value(d, rhs),
        call_ensures(Decimal::checked_powi, (&d, signed), s) ==> s == powi_value(d, signed),
        call_ensures(Decimal::checked_powu, (&d, unsigned), s) ==> s == powu_value(d, unsigned),
        call_ensures(Decimal::checked_powd, (&d, rhs), s) ==> s == powd_value(d, rhs),
        call_ensures(Decimal::add, (d, rhs), x) ==> sum_value(d, rhs) == Some(x),
        call_ensures(Decimal::sub, (d, rhs), x) ==> difference_value(d, rhs) == Some(x),
        call_ensures(Decimal::mul, (d, rhs), x) ==> product_value(d, rhs) == Some(x),
        call_ensures(Decimal::div, (d, rhs), x) ==> quotient_value(d, rhs) == Some(x),
        call_ensures(Decimal::rem, (d, rhs), x) ==> remainder_value(d, rhs) == Some(x),
        call_ensures(Decimal::erf, (&d,), x) ==> x == erf_value(d),
        call_ensures(Decimal::norm_cdf, (&d,), x) ==> x == norm_cdf_value(d),
        call_ensures(Decimal::sqrt, (&d,), s) ==> s == sqrt_value(d),
{
}

/// Roots are those of the numbers without a minus sign that can be reached.
pub proof fn roots_are_given_where_they_are_reached(
    d: Decimal,
    reached: bool,
    r: Option<Decimal>,
    s: Option<Decimal>,
)
    requires
        call_ensures(Decimal::root_is_reached, (&d,), reached),
        call_ensures(Decimal::checked_sqrt, (&d,), s),
    ensures
        s is Some <==> reached && !d.negative,
        d.negative ==> reached,
        d.magnitude < 39_720_354_828_415_177_818_323_744_671 ==> reached,
        d.magnitude > 64_000_000_000_000_000_000_000_000_012 ==> reached,
        d.magnitude == 0 && !d.negative ==> (s matches Some(zero) && zero.magnitude == 0),
        reached && call_ensures(Decimal::sqrt, (&d,), r) ==> s == r,
{
}

proof fn lemma_last_digits(n: nat, len: nat)
    requires
        n < ten_to(len),
    ensures
        last_digits(n, len).len() == len,
        all_digits(last_digits(n, len)),
        decimal_value(last_digits(n, len)) == n,
    decreases len,
{
    if len > 0 {
        let k = (len - 1) as nat;
        lemma_ten_to(k);
        assert(n / 10 < ten_to(k));
        lemma_last_digits(n / 10, k);
        assert(last_digits(n, len).drop_last() =~= last_digits(n / 10, k));
    }
}

proof fn lemma_decimal_concat(a: Seq<char>, b: Seq<char>)
    ensures
        decimal_value(a + b) == decimal_value(a) * ten_to(b.len()) + decimal_value(b),
    decreases b.len(),
{
    if b.len() == 0 {
        assert(a + b =~= a);
        assert(decimal_value(a) * 1 == decimal_value(a));
    } else {
        let c = b.drop_last();
        lemma_decimal_concat(a, c);
        assert((a + b).drop_last() =~= a + c);
        let (x, t) = (decimal_value(a), ten_to(c.len()) as int);
        assert(ten_to(b.len()) == 10 * t);
        assert(10 * (x * t) == x * (10 * t)) by (nonlinear_arith);
    }
}

/// A number is shown with all its digits: behind a minus sign where it has one, with as many
/// digits behind the decimal point as its scale says, and without needless zeros in front.
pub proof fn numbers_are_shown_with_all_digits(d: Decimal, r: String)
    requires
        d.valid(),
        call_ensures(Decimal::to_text, (&d,), r),
    ensures
        ({
            let body = if d.negative {
                r@.skip(1)
            } else {
                r@
            };
            let scale = d.scale as int;
            &&& d.negative ==> r@.len() > 0 && r@[0] == '-'
            &&& scale == 0 ==> all_digits(body) && body.len() > 0 && decimal_value(body)
                == d.magnitude && (body[0] == '0' ==> body.len() == 1)
            &&& scale > 0 ==> {
                let n = body.len() - scale - 1;
                let front = body.take(n);
                let back = body.skip(n + 1);
                &&& n > 0 && body[n] == '.'
                &&& all_digits(front) && all_digits(back)
                &&& decimal_value(front + back) == d.magnitude
                &&& front[0] == '0' ==> front.len() == 1
            }
        }),
{
    let m = d.magnitude as nat;
    let s = d.scale as nat;
    let p = ten_to(s);
    lemma_ten_to(s);
    vstd::arithmetic::div_mod::lemma_fundamental_div_mod(m as int, p as int);
    vstd::arithmetic::div_mod::lemma_mod_bound(m as int, p as int);
    let f = nat_text(m / p);
    lemma_decimal_text(m / p);
    let body = if d.negative {
        r@.skip(1)
    } else {
        r@
    };
    if s == 0 {
        assert(m / 1 == m);
        assert(body =~= f);
    } else {
        let b = last_digits(m % p, s);
        lemma_last_digits(m % p, s);
        assert(body =~= f + seq!['.'] + b);
        let n = body.len() - s - 1;
        assert(body.take(n) =~= f);
        assert(body.skip(n + 1) =~= b);
        lemma_decimal_concat(f, b);
        let q = m / p;
        assert(q * p == p * q) by (nonlinear_arith);
    }
}

} // verus!
