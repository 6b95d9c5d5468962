use payment_engine::amount::{Amount, MAX_MANTISSA, MAX_SCALE};

fn amt(mantissa: i128, scale: u32) -> Amount {
    Amount::from_parts(mantissa, scale).unwrap()
}

#[test]
fn from_parts_bounds() {
    assert!(Amount::from_parts(MAX_MANTISSA, MAX_SCALE).is_some());
    assert!(Amount::from_parts(-MAX_MANTISSA, 0).is_some());
    assert!(Amount::from_parts(MAX_MANTISSA + 1, 0).is_none());
    assert!(Amount::from_parts(-MAX_MANTISSA - 1, 0).is_none());
    assert!(Amount::from_parts(1, MAX_SCALE + 1).is_none());
    let a = amt(-1234, 3);
    assert_eq!(a.mantissa(), -1234);
    assert_eq!(a.scale(), 3);
}

#[test]
fn sums_align_scales_exactly() {
    let s = amt(15, 1).checked_add(amt(5, 2)).unwrap();
    assert_eq!(s.mantissa(), 155);
    assert_eq!(s.scale(), 2);
    assert_eq!(s, amt(1550, 3));

    let d = amt(1, 0).checked_sub(amt(1, 28)).unwrap();
    assert_eq!(d.mantissa(), 9999999999999999999999999999);
    assert_eq!(d.scale(), 28);
}

#[test]
fn out_of_range_results_are_none() {
    assert!(amt(MAX_MANTISSA, 0).checked_add(amt(1, 0)).is_none());
    assert!(amt(-MAX_MANTISSA, 0).checked_sub(amt(1, 0)).is_none());
    // Bringing a large whole number to 28 digits after the point cannot be held.
    assert!(amt(1_000_000_000_000, 0).checked_add(amt(1, 28)).is_none());
}

#[test]
fn compare_and_equality_by_value() {
    assert_eq!(amt(15, 1).compare(amt(150, 2)), 0);
    assert_eq!(amt(15, 1).compare(amt(151, 2)), -1);
    assert_eq!(amt(2, 0).compare(amt(19999, 4)), 1);
    assert_eq!(amt(MAX_MANTISSA, 0).compare(amt(1, 28)), 1);
    assert_eq!(amt(-MAX_MANTISSA, 0).compare(amt(1, 28)), -1);
    assert_eq!(amt(1, 28).compare(amt(MAX_MANTISSA, 0)), -1);
    assert_eq!(amt(0, 5), Amount::zero());
    assert_ne!(amt(1, 5), Amount::zero());
}

#[test]
fn positivity() {
    assert!(amt(1, 28).is_positive());
    assert!(!Amount::zero().is_positive());
    assert!(!amt(-1, 2).is_positive());
}
