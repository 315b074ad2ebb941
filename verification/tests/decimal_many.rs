use dbsp::sqllib::decimal::{Decimal, Operation};

const LIMIT: u128 = 1 << 96;

fn numbers() -> Vec<Decimal> {
    let mut out = vec![];
    let mut n: u128 = 88172645463325252;
    for i in 0..3000u32 {
        n ^= n << 13;
        n ^= n >> 7;
        n ^= n << 17;
        let magnitude = (n % LIMIT) >> (n >> 100) % 97;
        let scale = ((n >> 40) % 29) as u32;
        out.push(Decimal { negative: i % 2 == 1, magnitude, scale });
    }
    for scale in [0, 1, 27, 28] {
        for magnitude in [0, 1, 5, 15, 25, 45, 10_000, LIMIT - 1, LIMIT / 10, LIMIT / 10 + 1] {
            out.push(Decimal { negative: false, magnitude, scale });
            out.push(Decimal { negative: true, magnitude, scale });
        }
    }
    out
}

fn parts(d: Decimal) -> (bool, u128, u32) {
    (d.negative, d.magnitude, d.scale)
}

fn ten(n: u32) -> u128 {
    10u128.pow(n)
}

fn extended(d: Decimal, scale: u32) -> (bool, u128, u32) {
    if d.magnitude == 0 {
        return (d.negative, 0, scale.min(28));
    }
    let (mut m, mut s) = (d.magnitude, d.scale);
    while s < scale && 10 * m < LIMIT {
        m *= 10;
        s += 1;
    }
    (d.negative, m, s)
}

#[test]
fn many_numbers_are_rounded() {
    for d in numbers() {
        let p = ten(d.scale);
        let (q, r) = (d.magnitude / p, d.magnitude % p);
        let floor = if d.scale == 0 {
            parts(d)
        } else if d.negative && r > 0 {
            (true, q + 1, 0)
        } else {
            (d.negative, q, 0)
        };
        assert_eq!(floor, parts(d.floor()));
        let ceil = if d.scale == 0 {
            parts(d)
        } else if !d.negative && r > 0 {
            (false, q + 1, 0)
        } else {
            (d.negative, q, 0)
        };
        assert_eq!(ceil, parts(d.ceil()));
        assert_eq!((false, d.magnitude, d.scale), parts(d.abs()));
        assert_eq!((!d.negative, d.magnitude, d.scale), parts(d.neg()));
        let signum = if d.magnitude == 0 { (false, 0, 0) } else { (d.negative, 1, 0) };
        assert_eq!(signum, parts(d.signum()));
    }
}

#[test]
fn many_numbers_change_their_scale() {
    for d in numbers() {
        for scale in [0, 1, 3, 9, 10, 14, 20, 27, 28] {
            let mut rescaled = d;
            rescaled.rescale(scale);
            let expected = if scale < d.scale {
                let q = d.magnitude / ten(d.scale - scale - 1);
                (d.negative, q / 10 + if q % 10 >= 5 { 1 } else { 0 }, scale)
            } else if scale > d.scale {
                extended(d, scale)
            } else {
                parts(d)
            };
            assert_eq!(expected, parts(rescaled));
            let expected = if scale < d.scale {
                (d.negative, d.magnitude / ten(d.scale - scale), scale)
            } else if scale > d.scale {
                extended(d, scale)
            } else {
                parts(d)
            };
            assert_eq!(expected, parts(d.trunc_with_scale(scale)));
            let expected = if d.scale <= scale {
                parts(d)
            } else if d.magnitude == 0 {
                (d.negative, 0, scale)
            } else {
                let p = ten(d.scale - scale);
                let (q, r) = (d.magnitude / p, d.magnitude % p);
                let up = 2 * r > p || (2 * r == p && q % 2 == 1);
                let m = q + if up { 1 } else { 0 };
                (d.negative && m > 0, m, scale)
            };
            assert_eq!(expected, parts(d.round_dp(scale)));
        }
    }
}

#[test]
fn many_numbers_are_shown_and_converted() {
    for d in numbers() {
        let p = ten(d.scale);
        let (q, r) = (d.magnitude / p, d.magnitude % p);
        let sign = if d.negative { "-" } else { "" };
        let text = if d.scale == 0 {
            format!("{sign}{q}")
        } else {
            format!("{sign}{q}.{r:0width$}", width = d.scale as usize)
        };
        assert_eq!(text, d.to_text());
        let value = if d.negative { -(q as i128) } else { q as i128 };
        assert_eq!(Some(value), d.to_i128());
        assert_eq!(i64::try_from(value).ok(), d.to_i64());
        let natural = if d.negative { None } else { Some(q) };
        assert_eq!(natural, d.to_u128());
        assert_eq!(natural.and_then(|n| u64::try_from(n).ok()), d.to_u64());
    }
}

#[test]
fn many_sums_and_products_are_exact() {
    let all = numbers();
    let signed = |d: Decimal| {
        if d.negative {
            -(d.magnitude as i128)
        } else {
            d.magnitude as i128
        }
    };
    for pair in all.windows(2) {
        let (a, b) = (pair[0], Decimal { scale: pair[0].scale, ..pair[1] });
        for (value, operation) in [
            (signed(a) + signed(b), Operation::Add(b)),
            (signed(a) - signed(b), Operation::Sub(b)),
        ] {
            if value.unsigned_abs() < LIMIT {
                let sum = a.evaluate(operation).unwrap();
                assert_eq!((value, a.scale), (signed(sum), sum.scale));
            }
        }
        let (a, b) = (pair[0], pair[1]);
        match a.magnitude.checked_mul(b.magnitude) {
            Some(0) => assert_eq!((false, 0, 0), parts(a.evaluate(Operation::Mul(b)).unwrap())),
            Some(m) if m < LIMIT && a.scale + b.scale <= 28 => {
                let product = a.evaluate(Operation::Mul(b)).unwrap();
                assert_eq!((a.negative != b.negative, m, a.scale + b.scale), parts(product));
            }
            _ => {}
        }
    }
}
