use pay::domain::amount::AmountType;
use pay::domain::amount::FixedPoint;

#[test]
fn parse_simple_integers() {
    assert_eq!(
        FixedPoint::from_decimal_str("1").unwrap(),
        FixedPoint::from_raw(10_000)
    );
    assert_eq!(
        FixedPoint::from_decimal_str("10").unwrap(),
        FixedPoint::from_raw(100_000)
    );
    assert_eq!(FixedPoint::from_decimal_str("0").unwrap(), FixedPoint::from_raw(0));
}

#[test]
fn parse_decimals() {
    assert_eq!(
        FixedPoint::from_decimal_str("1.0").unwrap(),
        FixedPoint::from_raw(10_000)
    );
    assert_eq!(
        FixedPoint::from_decimal_str("1.5").unwrap(),
        FixedPoint::from_raw(15_000)
    );
    assert_eq!(
        FixedPoint::from_decimal_str("1.5000").unwrap(),
        FixedPoint::from_raw(15_000)
    );
    assert_eq!(
        FixedPoint::from_decimal_str("0.0001").unwrap(),
        FixedPoint::from_raw(1)
    );
    assert_eq!(
        FixedPoint::from_decimal_str("123.4567").unwrap(),
        FixedPoint::from_raw(1_234_567)
    );
}

#[test]
fn parse_with_whitespace() {
    assert_eq!(
        FixedPoint::from_decimal_str("  1.5  ").unwrap(),
        FixedPoint::from_raw(15_000)
    );
}

#[test]
fn parse_negative_amounts() {
    assert_eq!(
        FixedPoint::from_decimal_str("-1.5").unwrap(),
        FixedPoint::from_raw(-15_000)
    );
    assert_eq!(
        FixedPoint::from_decimal_str("-10").unwrap(),
        FixedPoint::from_raw(-100_000)
    );
}

#[test]
fn reject_too_many_decimal_places() {
    assert!(FixedPoint::from_decimal_str("1.00001").is_err());
    assert!(FixedPoint::from_decimal_str("1.123456").is_err());
}

#[test]
fn reject_invalid_formats() {
    assert!(FixedPoint::from_decimal_str("").is_err());
    assert!(FixedPoint::from_decimal_str("abc").is_err());
    assert!(FixedPoint::from_decimal_str("1.2.3").is_err());
    assert!(FixedPoint::from_decimal_str("1..2").is_err());
}

#[test]
fn to_string_formats_correctly() {
    assert_eq!(FixedPoint::from_raw(10_000).to_decimal_string(), "1.0000");
    assert_eq!(FixedPoint::from_raw(15_000).to_decimal_string(), "1.5000");
    assert_eq!(FixedPoint::from_raw(1).to_decimal_string(), "0.0001");
    assert_eq!(FixedPoint::from_raw(0).to_decimal_string(), "0.0000");
    assert_eq!(FixedPoint::from_raw(1_234_567).to_decimal_string(), "123.4567");
}

#[test]
fn to_string_negative_amounts() {
    assert_eq!(FixedPoint::from_raw(-15_000).to_decimal_string(), "-1.5000");
    assert_eq!(FixedPoint::from_raw(-1).to_decimal_string(), "-0.0001");
}

#[test]
fn round_trip_parsing() {
    let values = vec!["1.0000", "1.5000", "0.0001", "123.4567", "0.0000"];

    for val in values {
        let parsed = FixedPoint::from_decimal_str(val).unwrap();
        assert_eq!(parsed.to_decimal_string(), val);
    }
}

#[test]
fn checked_add_works() {
    let a = FixedPoint::from_raw(10_000);
    let b = FixedPoint::from_raw(5_000);
    assert_eq!(a.checked_add(b), Some(FixedPoint::from_raw(15_000)));
}

#[test]
fn checked_add_detects_overflow() {
    let max = FixedPoint::from_raw(i64::MAX);
    let one = FixedPoint::from_raw(1);
    assert_eq!(max.checked_add(one), None);
}

#[test]
fn checked_sub_works() {
    let a = FixedPoint::from_raw(10_000);
    let b = FixedPoint::from_raw(5_000);
    assert_eq!(a.checked_sub(b), Some(FixedPoint::from_raw(5_000)));
}

#[test]
fn checked_sub_detects_underflow() {
    let min = FixedPoint::from_raw(i64::MIN);
    let one = FixedPoint::from_raw(1);
    assert_eq!(min.checked_sub(one), None);
}

#[test]
fn zero_value() {
    assert_eq!(FixedPoint::zero(), FixedPoint::from_raw(0));
}

#[test]
fn add_operator() {
    let a = FixedPoint::from_raw(10_000);
    let b = FixedPoint::from_raw(5_000);
    assert_eq!(a + b, FixedPoint::from_raw(15_000));
}

#[test]
fn sub_operator() {
    let a = FixedPoint::from_raw(10_000);
    let b = FixedPoint::from_raw(5_000);
    assert_eq!(a - b, FixedPoint::from_raw(5_000));
}

#[test]
fn ordering_works() {
    assert!(FixedPoint::from_raw(10_000) > FixedPoint::from_raw(5_000));
    assert!(FixedPoint::from_raw(5_000) < FixedPoint::from_raw(10_000));
    assert!(FixedPoint::from_raw(5_000) == FixedPoint::from_raw(5_000));
}

#[test]
fn default_is_zero() {
    assert_eq!(FixedPoint::default(), FixedPoint::from_raw(0));
}
