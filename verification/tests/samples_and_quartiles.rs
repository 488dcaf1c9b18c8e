use cloud_convert::quantiles::{percentile_index, quartiles, quartiles_of_sorted, Quarter, Quartiles};
use cloud_convert::sample::{classify, is_finite, key_bits, order_key, Sample, SampleClass};
use cloud_convert::tolerance::within_tolerance;

fn keys(values: &[f64]) -> Vec<u64> {
    values.iter().map(|v| order_key(v.to_bits())).collect()
}

fn quartile_values(q: Option<Quartiles>) -> Option<(f64, f64, f64)> {
    q.map(|q| (f64::from_bits(q.q1), f64::from_bits(q.median), f64::from_bits(q.q3)))
}

#[test]
fn finite_patterns() {
    assert!(is_finite(0.0f64.to_bits()));
    assert!(is_finite((-1.5f64).to_bits()));
    assert!(is_finite(f64::MAX.to_bits()));
    assert!(is_finite(f64::MIN_POSITIVE.to_bits()));
    assert!(!is_finite(f64::NAN.to_bits()));
    assert!(!is_finite(f64::INFINITY.to_bits()));
    assert!(!is_finite(f64::NEG_INFINITY.to_bits()));
}

#[test]
fn classification_order() {
    let nan_near = Sample { bits: f64::NAN.to_bits(), near_nodata: true };
    assert_eq!(classify(nan_near), SampleClass::NonFinite);
    let nodata = Sample { bits: 9.0f64.to_bits(), near_nodata: true };
    assert_eq!(classify(nodata), SampleClass::Nodata);
    let valid = Sample { bits: 9.0f64.to_bits(), near_nodata: false };
    assert_eq!(classify(valid), SampleClass::Valid);
    let inf = Sample { bits: f64::INFINITY.to_bits(), near_nodata: false };
    assert_eq!(classify(inf), SampleClass::NonFinite);
}

#[test]
fn keys_order_as_numbers() {
    let values = [f64::MIN, -1e10, -2.5, -1.0, -1e-300, -0.0, 0.0, 1e-300, 1.0, 2.5, 1e10, f64::MAX];
    for pair in values.windows(2) {
        assert!(order_key(pair[0].to_bits()) < order_key(pair[1].to_bits()));
    }
    for v in values {
        assert_eq!(key_bits(order_key(v.to_bits())), v.to_bits());
    }
}

#[test]
fn percentile_index_values() {
    assert_eq!(percentile_index(0, Quarter::Second), None);
    assert_eq!(percentile_index(1, Quarter::First), Some(0));
    assert_eq!(percentile_index(1, Quarter::Third), Some(0));
    assert_eq!(percentile_index(2, Quarter::Second), Some(1));
    assert_eq!(percentile_index(3, Quarter::First), Some(1));
    assert_eq!(percentile_index(4, Quarter::First), Some(1));
    assert_eq!(percentile_index(4, Quarter::Third), Some(2));
    assert_eq!(percentile_index(5, Quarter::First), Some(1));
    assert_eq!(percentile_index(5, Quarter::Second), Some(2));
    assert_eq!(percentile_index(5, Quarter::Third), Some(3));
    assert_eq!(percentile_index(6, Quarter::Third), Some(4));
    assert_eq!(percentile_index(101, Quarter::First), Some(25));
    assert_eq!(percentile_index(usize::MAX, Quarter::Third).map(|i| i < usize::MAX), Some(true));
}

#[test]
fn quartiles_of_unsorted_keys() {
    let q = quartiles(keys(&[5.0, -1.0, 4.0, 2.0, 3.0]));
    assert_eq!(quartile_values(q), Some((2.0, 3.0, 4.0)));
    let q = quartiles(keys(&[10.0, 30.0, 20.0, 40.0]));
    assert_eq!(quartile_values(q), Some((20.0, 30.0, 30.0)));
    assert_eq!(quartiles(Vec::new()), None);
    let q = quartiles(keys(&[7.25]));
    assert_eq!(quartile_values(q), Some((7.25, 7.25, 7.25)));
}

#[test]
fn quartiles_do_not_change_when_sorted_again() {
    let first = quartiles(keys(&[0.5, -3.0, 8.0, 2.0, 2.0, 11.0, -7.5]));
    let mut sorted = keys(&[0.5, -3.0, 8.0, 2.0, 2.0, 11.0, -7.5]);
    sorted.sort();
    let second = quartiles(sorted.clone());
    let picked = quartiles_of_sorted(&sorted);
    assert_eq!(first, second);
    assert_eq!(first, picked);
    assert_eq!(quartile_values(first), Some((0.5, 2.0, 8.0)));
}

fn near(a: f64, b: f64) -> bool {
    let r = within_tolerance(a.to_bits(), b.to_bits());
    assert_eq!(r, within_tolerance(b.to_bits(), a.to_bits()));
    r
}

#[test]
fn tolerance_of_one_millionth() {
    assert!(near(9.0, 9.0));
    assert!(near(0.0, -0.0));
    assert!(near(0.5, 0.5 + 2f64.powi(-20)));
    assert!(!near(0.5, 0.5 + 2f64.powi(-19)));
    assert!(near(1.0, 1.0 + 5e-7));
    assert!(!near(1.0, 1.0 + 2e-6));
    assert!(near(-9999.0, -9999.0));
    assert!(!near(-9999.0, -9999.000002));
    assert!(near(-9999.0, -9999.0000005));
    assert!(!near(9.0, 1.0));
    assert!(!near(9.0, -9.0));
    assert!(near(1e-7, -1e-7));
    assert!(!near(6e-7, -6e-7));
    assert!(near(4e-7, -4e-7));
    assert!(near(1e-300, 0.0));
    assert!(near(f64::MIN_POSITIVE, -f64::MIN_POSITIVE));
    assert!(near(5e-324, 0.0));
    assert!(near(1e300, 1e300));
    assert!(!near(1e300, f64::from_bits(1e300f64.to_bits() + 1)));
    assert!(!near(f64::MAX, f64::MIN));
    assert!(!near(1e-7, 1e10));
}

#[test]
fn tolerance_at_the_edge() {
    // 2^-20 + 2^-25 is below one millionth, 2^-20 + 2^-24 is above it.
    let below = 2f64.powi(-20) + 2f64.powi(-25);
    let above = 2f64.powi(-20) + 2f64.powi(-24);
    assert!(below < 1e-6 && above > 1e-6);
    assert!(near(0.0, below));
    assert!(!near(0.0, above));
    assert!(near(1.0, 1.0 + below));
    assert!(!near(1.0, 1.0 + above));
    assert!(near(-3.0, -3.0 - below));
    assert!(!near(-3.0, -3.0 - above));
    assert!(near(below / 2.0, -below / 2.0));
    assert!(!near(above / 2.0, -above / 2.0));
    assert!(near(1e-200, below));
    assert!(!near(-1e-200, above));
    // the largest pattern below one millionth, and the one after it
    let last = f64::from_bits(1e-6f64.to_bits());
    let next = f64::from_bits(last.to_bits() + 1);
    assert!(near(0.0, last));
    assert!(!near(0.0, next));
    assert!(!near(5e-324, next));
    assert!(near(-5e-324, last));
    assert!(near(1.0, 1.0 + last));
}

#[test]
fn tolerance_needs_finite_numbers() {
    assert!(!near(f64::NAN, f64::NAN));
    assert!(!near(f64::INFINITY, f64::INFINITY));
    assert!(!near(1.0, f64::NAN));
    assert!(!near(f64::NEG_INFINITY, 0.0));
}

#[test]
fn samples_from_patterns() {
    let nd = Some(9.0f64.to_bits());
    assert_eq!(classify(Sample::of(9.0f64.to_bits(), nd)), SampleClass::Nodata);
    assert_eq!(classify(Sample::of(9.0000001f64.to_bits(), nd)), SampleClass::Nodata);
    assert_eq!(classify(Sample::of(9.00001f64.to_bits(), nd)), SampleClass::Valid);
    assert_eq!(classify(Sample::of(f64::NAN.to_bits(), nd)), SampleClass::NonFinite);
    assert_eq!(classify(Sample::of(9.0f64.to_bits(), None)), SampleClass::Valid);
    assert_eq!(classify(Sample::of(1.0f64.to_bits(), Some(f64::NAN.to_bits()))), SampleClass::Valid);
    assert!(!Sample::of(9.0f64.to_bits(), None).near_nodata);
}
