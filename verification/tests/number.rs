use opentelemetry::ieee;
use opentelemetry::number::{pattern_of, ExportNumeric, Number, NumberKind};
use std::cmp::Ordering;

fn samples() -> Vec<f64> {
    vec![
        0.0,
        -0.0,
        1.0,
        -1.0,
        0.1,
        -0.1,
        1.5,
        2.25,
        1e-320,
        -1e-320,
        f64::MIN_POSITIVE,
        f64::MAX,
        f64::MIN,
        f64::INFINITY,
        f64::NEG_INFINITY,
        f64::NAN,
        -f64::NAN,
        f64::EPSILON,
        1e300,
        -1e300,
        12345.678,
    ]
}

#[test]
fn integer_add_wraps() {
    let mut n = Number::from(u64::MAX);
    n.add(&NumberKind::U64, &Number::from(2u64));
    assert_eq!(n.to_u64(), 1);
}

#[test]
fn integer_add_is_exact_where_it_fits() {
    let mut n = Number::from(40u64);
    n.add(&NumberKind::U64, &Number::from(2u64));
    assert_eq!(n.to_u64(), 42);
}

#[test]
fn float_add_rounds_to_nearest() {
    let mut n = Number::from(1.5f64.to_bits());
    n.add(&NumberKind::F64, &Number::from(2.25f64.to_bits()));
    assert_eq!(f64::from_bits(n.to_u64()), 3.75);
}

#[test]
fn float_add_agrees_with_the_machine() {
    for a in samples() {
        for b in samples() {
            let mut n = Number::from(a.to_bits());
            n.add(&NumberKind::F64, &Number::from(b.to_bits()));
            let got = f64::from_bits(n.to_u64());
            let want = a + b;
            if want.is_nan() {
                assert!(got.is_nan(), "{a} + {b}");
            } else {
                assert_eq!(got.to_bits(), want.to_bits(), "{a} + {b}");
            }
        }
    }
}

#[test]
fn float_add_loses_small_addends() {
    let mut n = Number::from(1e16f64.to_bits());
    n.add(&NumberKind::F64, &Number::from(1.0f64.to_bits()));
    assert_eq!(f64::from_bits(n.to_u64()), 1e16);
}

#[test]
fn assign_copies_the_pattern() {
    let mut n = Number::from(7u64);
    n.assign(&NumberKind::U64, &Number::from(9u64));
    assert_eq!(n.to_u64(), 9);
    n.assign(&NumberKind::F64, &Number::from(f64::NAN.to_bits()));
    assert_eq!(n.to_u64(), f64::NAN.to_bits());
}

#[test]
fn integers_compare_as_integers() {
    let kind = NumberKind::U64;
    let small = Number::from(3u64);
    let large = Number::from(u64::MAX);
    assert_eq!(small.partial_cmp(&kind, &large), Some(Ordering::Less));
    assert_eq!(large.partial_cmp(&kind, &small), Some(Ordering::Greater));
    assert_eq!(small.partial_cmp(&kind, &Number::from(3u64)), Some(Ordering::Equal));
}

#[test]
fn floats_compare_as_the_machine_compares_them() {
    let kind = NumberKind::F64;
    for a in samples() {
        for b in samples() {
            let x = Number::from(a.to_bits());
            let y = Number::from(b.to_bits());
            assert_eq!(x.partial_cmp(&kind, &y), a.partial_cmp(&b), "{a} ? {b}");
            assert_eq!(x.is_below(&kind, &y), a < b, "{a} < {b}");
            assert_eq!(ieee::lt(a.to_bits(), b.to_bits()), a < b, "{a} < {b}");
        }
    }
}

#[test]
fn the_sort_key_is_the_total_order() {
    let kind = NumberKind::F64;
    for a in samples() {
        for b in samples() {
            let x = Number::from(a.to_bits());
            let y = Number::from(b.to_bits());
            assert_eq!(x.sorts_before(&kind, &y), a.total_cmp(&b) == Ordering::Less, "{a} ? {b}");
        }
    }
    assert!(Number::from(1u64).sorts_before(&NumberKind::U64, &Number::from(2u64)));
    assert!(!Number::from(2u64).sorts_before(&NumberKind::U64, &Number::from(2u64)));
}

#[test]
fn nan_is_told_by_the_pattern() {
    for a in samples() {
        assert_eq!(Number::from(a.to_bits()).is_nan(), a.is_nan(), "{a}");
        assert_eq!(ieee::nan(a.to_bits()), a.is_nan(), "{a}");
    }
}

#[test]
fn a_float_is_negative_where_its_sign_is_set() {
    let kind = NumberKind::F64;
    assert!(Number::from((-1.0f64).to_bits()).is_negative(&kind));
    assert!(Number::from((-0.0f64).to_bits()).is_negative(&kind));
    assert!(!Number::from(5.0f64.to_bits()).is_negative(&kind));
    assert!(!Number::from(0.0f64.to_bits()).is_negative(&kind));
}

#[test]
fn every_integer_counts_as_negative_for_the_range_check() {
    assert!(Number::from(0u64).is_negative(&NumberKind::U64));
    assert!(Number::from(5u64).is_negative(&NumberKind::U64));
}

#[test]
fn the_float_reading_of_an_integer_is_the_nearest_float() {
    let kind = NumberKind::U64;
    for n in [0u64, 1, 5, 1 << 53, (1 << 53) + 1, (1 << 53) + 3, u64::MAX, 123_456_789_012_345_678] {
        assert_eq!(f64::from_bits(Number::from(n).to_f64(&kind)), n as f64, "{n}");
    }
    assert_eq!(Number::from(2.5f64.to_bits()).to_f64(&NumberKind::F64), 2.5f64.to_bits());
}

#[test]
fn zero_max_and_min_of_each_kind() {
    assert_eq!(NumberKind::U64.zero().to_u64(), 0);
    assert_eq!(NumberKind::F64.zero().to_u64(), 0.0f64.to_bits());
    assert_eq!(NumberKind::U64.max().to_u64(), u64::MAX);
    assert_eq!(NumberKind::U64.min().to_u64(), u64::MIN);
    assert_eq!(f64::from_bits(NumberKind::F64.max().to_u64()), f64::MAX);
    assert_eq!(f64::from_bits(NumberKind::F64.min().to_u64()), f64::MIN);
    assert_eq!(Number::default().to_u64(), 0);
}

#[test]
fn the_named_patterns_are_the_values_they_name() {
    assert_eq!(ieee::ONE_BITS, 1.0f64.to_bits());
    assert_eq!(ieee::INFINITY_BITS, f64::INFINITY.to_bits());
    assert_eq!(ieee::LARGEST_BITS, f64::MAX.to_bits());
    assert_eq!(ieee::SMALLEST_BITS, f64::MIN.to_bits());
    assert_eq!(ieee::SIGN_BIT, (-0.0f64).to_bits());
}

#[test]
fn signed_integers_are_stored_in_twos_complement() {
    assert_eq!(Number::from(-1i64).to_u64(), u64::MAX);
    assert_eq!(Number::from(i64::MIN).to_u64(), 1u64 << 63);
    assert_eq!(Number::from(7i64).to_u64(), 7);
    for i in [-1i64, 0, 1, i64::MIN, i64::MAX, -123456789] {
        assert_eq!(pattern_of(i), i as u64);
    }
}

#[test]
fn to_debug_keeps_pattern_and_kind() {
    let shown = Number::from(3u64).to_debug(&NumberKind::U64);
    assert_eq!(shown, ExportNumeric { kind: NumberKind::U64, bits: 3 });
    let shown = Number::from(1.5f64.to_bits()).to_debug(&NumberKind::F64);
    assert_eq!(shown, ExportNumeric { kind: NumberKind::F64, bits: 1.5f64.to_bits() });
}
