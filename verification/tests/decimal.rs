use dbsp::sqllib::decimal::{Decimal, Operation};
use rust_decimal::{Decimal as Outside, MathematicalOps};
use std::str::FromStr;

fn dec(text: &str) -> Decimal {
    Decimal::from_str(text).unwrap()
}

fn shown(d: Decimal) -> String {
    d.to_text()
}

#[test]
fn numbers_are_made_from_digits() {
    assert_eq!("3.141", shown(Decimal::new(3141, 3)));
    assert_eq!("-0.05", shown(Decimal::new(-5, 2)));
    assert_eq!("-7", shown(Decimal::new(-7, 0)));
    assert_eq!("0.00", shown(Decimal::new(0, 2)));
    assert_eq!("0", shown(Decimal::default()));
    assert_eq!("0", shown(Decimal::zero()));
    assert_eq!("1", shown(Decimal::one()));
    assert!(Decimal::zero().is_zero() && !Decimal::one().is_zero());
}

#[test]
fn numbers_are_read() {
    let d = dec("-12.340");
    assert_eq!((true, 12340, 3), (d.negative, d.magnitude, d.scale));
    let message = Outside::from_str("12x").unwrap_err().to_string();
    assert_eq!(message, Decimal::from_str("12x").unwrap_err().message);
    for text in ["0.1", "-1.5", "123456789.000000001", "79228162514264337593543950335"] {
        assert_eq!(text, shown(dec(text)));
    }
}

#[test]
fn signs() {
    assert_eq!("1.50", shown(dec("-1.50").abs()));
    assert_eq!("1.50", shown(dec("1.50").abs()));
    assert_eq!("-1.50", shown(dec("1.50").neg()));
    assert_eq!("1.50", shown(dec("1.50").neg().neg()));
    assert_eq!("-0", shown(Decimal::zero().neg()));
    assert_eq!("0", shown(Decimal::zero().neg().abs()));
    assert_eq!("-1", shown(dec("-2.5").signum()));
    assert_eq!("1", shown(dec("0.01").signum()));
    assert_eq!("0", shown(dec("0.00").signum()));
    assert_eq!("0", shown(Decimal::zero().neg().signum()));
}

#[test]
fn integers_below_and_above() {
    for (text, floor, ceil) in [
        ("2.5", "2", "3"),
        ("-2.5", "-3", "-2"),
        ("2.0", "2", "2"),
        ("-2.0", "-2", "-2"),
        ("0.4", "0", "1"),
        ("7", "7", "7"),
    ] {
        assert_eq!(floor, shown(dec(text).floor()));
        assert_eq!(ceil, shown(dec(text).ceil()));
    }
    assert_eq!("-1", shown(dec("-0.4").floor()));
    assert_eq!("-0", shown(dec("-0.4").ceil()));
}

#[test]
fn rounding_goes_to_even_digits() {
    for (text, dp, expected) in [
        ("6.5", 0, "6"),
        ("7.5", 0, "8"),
        ("6.51", 0, "7"),
        ("-6.5", 0, "-6"),
        ("1.2345", 3, "1.234"),
        ("1.2355", 3, "1.236"),
        ("1.2", 5, "1.2"),
        ("0.00", 1, "0.0"),
    ] {
        assert_eq!(expected, shown(dec(text).round_dp(dp)));
    }
    let small = dec("-0.4").round_dp(0);
    assert_eq!((false, 0, 0), (small.negative, small.magnitude, small.scale));
}

#[test]
fn rescaling_rounds_half_away_from_zero() {
    for (text, scale, expected) in [
        ("1.45", 1, "1.5"),
        ("1.44", 1, "1.4"),
        ("-1.45", 1, "-1.5"),
        ("1.123", 6, "1.123000"),
        ("1.123", 3, "1.123"),
        ("11.76470588235294", 28, "11.764705882352940000000000000"),
        ("0.449", 0, "0"),
        ("0.0", 5, "0.00000"),
        ("123.456", 0, "123"),
    ] {
        let mut d = dec(text);
        d.rescale(scale);
        assert_eq!(expected, shown(d));
    }
}

#[test]
fn truncation_drops_digits() {
    for (text, scale, expected) in [
        ("1.49", 1, "1.4"),
        ("-1.49", 1, "-1.4"),
        ("1.5", 4, "1.5000"),
        ("123.456", 0, "123"),
        ("0.00", 1, "0.0"),
    ] {
        assert_eq!(expected, shown(dec(text).trunc_with_scale(scale)));
    }
}

#[test]
fn integers_are_converted() {
    assert_eq!("-9223372036854775808", shown(Decimal::from_i64(i64::MIN).unwrap()));
    assert_eq!("18446744073709551615", shown(Decimal::from_u64(u64::MAX).unwrap()));
    let limit = 1i128 << 96;
    assert_eq!("79228162514264337593543950335", shown(Decimal::from_i128(limit - 1).unwrap()));
    assert_eq!("-79228162514264337593543950335", shown(Decimal::from_i128(1 - limit).unwrap()));
    assert!(Decimal::from_i128(limit).is_none() && Decimal::from_i128(-limit).is_none());
    assert!(Decimal::from_u128(1 << 96).is_none());
    assert_eq!("5", shown(Decimal::from_u128(5).unwrap()));

    assert_eq!(Some(-12), dec("-12.9").to_i64());
    assert_eq!(Some(i64::MIN), Decimal::from_i64(i64::MIN).unwrap().to_i64());
    assert_eq!(None, dec("9223372036854775808").to_i64());
    assert_eq!(None, dec("-9223372036854775809").to_i64());
    assert_eq!(Some(12), dec("12.9").to_u64());
    assert_eq!(None, dec("-0.5").to_u64());
    assert_eq!(None, dec("18446744073709551616").to_u64());
    assert_eq!(Some(-3), dec("-3.99").to_i128());
    assert_eq!(Some(3), dec("3.99").to_u128());
    assert_eq!(None, dec("-3.99").to_u128());
}

#[test]
fn arithmetic() {
    assert_eq!("3.75", shown(dec("1.25").add(dec("2.50"))));
    assert_eq!("-1.25", shown(dec("1.25").sub(dec("2.50"))));
    assert_eq!("3.1250", shown(dec("1.25").mul(dec("2.50"))));
    assert_eq!("0", shown(dec("0.00").mul(dec("2.50"))));
    assert_eq!("0.50", shown(dec("1.25").div(dec("2.50"))));
    assert_eq!("0.25", shown(dec("2.75").rem(dec("0.50"))));
    assert_eq!("-0.25", shown(dec("-2.75").rem(dec("0.50"))));
}

#[test]
fn comparisons_go_by_value() {
    assert!(dec("1.0").equals(&dec("1.00")));
    assert!(Decimal::zero().equals(&Decimal::zero().neg()));
    assert!(!dec("1.0").equals(&dec("1.01")));
    assert!(dec("-2").is_less(&dec("-1.5")));
    assert!(!dec("1.0").is_less(&dec("1.00")));
    assert!(dec("0.1").is_less(&dec("79228162514264337593543950335")));
}

#[test]
fn operations_without_a_value_have_none() {
    let max = dec("79228162514264337593543950335");
    for (number, operation) in [
        (max, Operation::Add(Decimal::one())),
        (max.neg(), Operation::Sub(Decimal::one())),
        (max, Operation::Mul(max)),
        (max, Operation::Div(Decimal::zero())),
        (max, Operation::Rem(Decimal::zero())),
        (max, Operation::Exp),
        (max, Operation::ExpWithTolerance(Decimal::one())),
        (max, Operation::Powi(2)),
        (max, Operation::Powu(2)),
        (max, Operation::Powd(max)),
        (max, Operation::NormPdf),
        (Decimal::zero(), Operation::Ln),
        (dec("-1"), Operation::Log10),
        (Decimal::zero(), Operation::Powi(-1)),
    ] {
        assert!(number.evaluate(operation).is_none());
    }
}

#[test]
fn functions_agree_with_the_outside() {
    let (d, o) = (dec("1.5"), Outside::from_str("1.5").unwrap());
    let tolerance = dec("0.001");
    let outside_tolerance = Outside::from_str("0.001").unwrap();
    for (value, expected) in [
        (d.exp(), o.exp()),
        (d.exp_with_tolerance(tolerance), o.exp_with_tolerance(outside_tolerance)),
        (d.powi(-3), o.powi(-3)),
        (d.powu(5), o.powu(5)),
        (d.powd(dec("2.5")), o.powd(Outside::from_str("2.5").unwrap())),
        (d.ln(), o.ln()),
        (d.log10(), o.log10()),
        (d.norm_pdf(), o.norm_pdf()),
        (d.sin(), o.sin()),
        (d.cos(), o.cos()),
        (d.tan(), o.tan()),
        (d.sqrt().unwrap(), o.sqrt().unwrap()),
        (d.erf(), o.erf()),
        (d.norm_cdf(), o.norm_cdf()),
    ] {
        assert_eq!(expected.to_string(), shown(value));
        assert_ne!("1.5", shown(value));
    }
    for (value, operation) in [
        (d.checked_exp(), Operation::Exp),
        (d.checked_exp_with_tolerance(tolerance), Operation::ExpWithTolerance(tolerance)),
        (d.checked_powi(-3), Operation::Powi(-3)),
        (d.checked_powu(5), Operation::Powu(5)),
        (d.checked_powd(dec("2.5")), Operation::Powd(dec("2.5"))),
        (d.checked_ln(), Operation::Ln),
        (d.checked_log10(), Operation::Log10),
        (d.checked_norm_pdf(), Operation::NormPdf),
        (d.checked_sin(), Operation::Sin),
        (d.checked_cos(), Operation::Cos),
        (d.checked_tan(), Operation::Tan),
        (Some(dec("4.0")), Operation::Add(dec("2.5"))),
        (Some(dec("-1.0")), Operation::Sub(dec("2.5"))),
        (Some(dec("3.75")), Operation::Mul(dec("2.5"))),
        (Some(dec("0.6")), Operation::Div(dec("2.5"))),
        (Some(dec("0.5")), Operation::Rem(dec("1.0"))),
    ] {
        assert!(value.unwrap().equals(&d.evaluate(operation).unwrap()));
    }
}

#[test]
fn roots_and_distributions() {
    assert!(dec("3").equals(&dec("9").sqrt().unwrap()));
    assert_eq!("0", shown(Decimal::zero().sqrt().unwrap()));
    assert!(dec("-9").sqrt().is_none());
    assert!(dec("-9").checked_ln().is_none() && dec("0.00").checked_log10().is_none());
    assert!(dec("79228162514264337593543950335").sqrt().is_some());
    assert!(dec("0.0000000000000000000000000001").sqrt().is_some());
    assert_eq!(Outside::from(9).erf().to_string(), shown(dec("9").erf()));
    assert_eq!(Outside::from(-9).erf().to_string(), shown(dec("-9").erf()));
    for text in ["9.3913022431488", "-9.3913022431488"] {
        assert_eq!(Outside::from_str(text).unwrap().erf().to_string(), shown(dec(text).erf()));
    }
    for text in ["13.281307000605", "-13.281307000605"] {
        let expected = Outside::from_str(text).unwrap().norm_cdf().to_string();
        assert_eq!(expected, shown(dec(text).norm_cdf()));
    }
    let long = "9.391302243148799999999999999";
    assert_eq!(Outside::from_str(long).unwrap().erf().to_string(), shown(dec(long).erf()));
    assert_eq!(Outside::from(12).norm_cdf().to_string(), shown(dec("12").norm_cdf()));
    assert_eq!(Outside::from(-12).norm_cdf().to_string(), shown(dec("-12").norm_cdf()));
}

/// Whether two guesses for the root of a positive number agree after some steps.
fn guesses_agree(magnitude: u128, scale: u32) -> bool {
    let number = Outside::from_i128_with_scale(magnitude as i128, scale);
    let two = Outside::from(2);
    let mut guess = number / two;
    if guess.is_zero() {
        guess = number;
    }
    for _ in 0..999 {
        let next = (guess + number / guess) / two;
        if next == guess {
            return true;
        }
        guess = next;
    }
    false
}

#[test]
fn some_roots_are_not_reached() {
    let even = [39720354828415177818323744671, 40000000000000000000000000003];
    let odd = [
        62771017353866807638357894231,
        62771017353866807638357894232,
        62771017353866807638357894233,
        62771017353866807638357894234,
        62884362162926421127573384228,
        64000000000000000000000000012,
    ];
    for scale in 0..29u32 {
        let left_out: &[u128] = if scale % 2 == 0 { &even } else { &odd };
        for near in even.iter().chain(odd.iter()) {
            for magnitude in near - 12..near + 13 {
                let d = Decimal { negative: false, magnitude, scale };
                assert_eq!(!left_out.contains(&magnitude), d.root_is_reached());
                assert_eq!(guesses_agree(magnitude, scale), d.root_is_reached());
                if d.root_is_reached() {
                    let root = d.sqrt().unwrap();
                    assert!(root.equals(&d.checked_sqrt().unwrap()));
                } else {
                    assert!(d.checked_sqrt().is_none());
                }
                assert!(d.neg().root_is_reached() && d.neg().checked_sqrt().is_none());
            }
        }
    }
    assert!(dec("62.771017353866807638357894232").checked_sqrt().is_none());
    assert!(dec("4.0000000000000000000000000003").checked_sqrt().is_none());
    assert_eq!("2", shown(dec("4").checked_sqrt().unwrap()));
    assert_eq!("0", shown(Decimal::zero().checked_sqrt().unwrap()));
}

#[test]
fn roots_next_to_a_limit_are_reached() {
    // The root, or twice the root, has about as many digits as fit.
    for scale in 0..29u32 {
        for limit in [62771017353866807638357894232, 15692754338466701909589473558] {
            for magnitude in limit - 400..limit + 400 {
                let d = Decimal { negative: false, magnitude, scale };
                assert_eq!(guesses_agree(magnitude, scale), d.root_is_reached());
            }
        }
    }
}

#[test]
fn roots_of_many_numbers_are_reached() {
    let mut n: u128 = 1;
    for i in 0..4000u32 {
        n = n.wrapping_mul(6364136223846793005).wrapping_add(1442695040888963407 + i as u128);
        let magnitude = (n >> (i % 90)) % (1 << 96);
        let d = Decimal { negative: false, magnitude, scale: i % 29 };
        assert!(d.root_is_reached() && d.sqrt().is_some());
        let small = Decimal { negative: false, magnitude: i as u128 + 1, scale: 28 };
        assert!(small.root_is_reached() && small.sqrt().is_some());
    }
}
