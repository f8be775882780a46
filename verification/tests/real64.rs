//! Doubles by their bit patterns, measured against the machine's.

use sjnmusic::real64::{divide, floor_times, round_whole, Real64};

fn num(x: f64) -> Real64 {
    Real64 { bits: x.to_bits() }
}

fn samples() -> Vec<f64> {
    vec![
        0.0, -0.0, 1.0, -1.0, 0.5, 0.65, 1e-300, 5e-324, -5e-324, 3.5, 2.5, 1e15, 1e18, 1e19, 1e300,
        f64::MAX, f64::MIN, f64::INFINITY, f64::NEG_INFINITY, f64::NAN,
    ]
}

#[test]
fn order_is_that_of_doubles() {
    for a in samples() {
        for b in samples() {
            assert_eq!(num(a).less(num(b)), a < b, "{} {}", a, b);
            assert_eq!(num(a).at_most(num(b)), a <= b, "{} {}", a, b);
            let m = f64::from_bits(num(a).greater_of(num(b)).bits);
            let want = a.max(b);
            assert!(m == want || (m.is_nan() && want.is_nan()), "{} {}", a, b);
        }
    }
}

#[test]
fn quotients_are_rounded_as_the_machine_rounds_them() {
    for n in 0u64..60 {
        for d in 1u64..60 {
            let q = divide(n, d as u128);
            assert_eq!(q.bits, (n as f64 / d as f64).to_bits(), "{}/{}", n, d);
        }
    }
    let big = 3_141_592_653u64;
    assert_eq!(divide(big, 1_000_000_000).bits, (big as f64 / 1e9).to_bits());
    assert_eq!(divide(u64::MAX, 1).bits, (u64::MAX as f64).to_bits());
    assert_eq!(divide(1, 3).bits, (1.0f64 / 3.0).to_bits());
}

#[test]
fn similarities_are_scaled_to_whole_points() {
    for n in 0u64..40 {
        for d in n.max(1)..40 {
            let x = n as f64 / d as f64;
            for k in [30u64, 100] {
                assert_eq!(floor_times(num(x), k), (x * k as f64) as u64, "{} {}", x, k);
            }
        }
    }
}

#[test]
fn seconds_are_rounded_to_the_nearest() {
    for x in samples() {
        assert_eq!(round_whole(num(x)), x.max(0.0).round() as i64, "{}", x);
    }
    let mut x = 0.0;
    while x < 5.0 {
        assert_eq!(round_whole(num(x)), f64::round(x) as i64, "{}", x);
        x += 0.125;
    }
    for x in [0.49999999999999994, 4503599627370495.5, 9007199254740993.0, 9.223372036854775e18] {
        assert_eq!(round_whole(num(x)), f64::round(x) as i64, "{}", x);
    }
}
