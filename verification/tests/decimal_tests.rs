use bbo_feed::decimal::{parse_decimal, Dec};

fn dec(neg: bool, mantissa: u128, scale: u32) -> Dec {
    Dec { neg, mantissa, scale }
}

#[test]
fn parse_integer() {
    assert_eq!(parse_decimal("201"), Some(dec(false, 201, 0)));
    assert_eq!(parse_decimal("0"), Some(dec(false, 0, 0)));
    assert_eq!(parse_decimal("7"), Some(dec(false, 7, 0)));
}

#[test]
fn parse_fraction() {
    assert_eq!(parse_decimal("100.50"), Some(dec(false, 1005, 1)));
    assert_eq!(parse_decimal("1.5"), Some(dec(false, 15, 1)));
    assert_eq!(parse_decimal("0.8"), Some(dec(false, 8, 1)));
}

#[test]
fn parse_canonicalizes_trailing_zeros() {
    assert_eq!(parse_decimal("50000.00"), Some(dec(false, 50000, 0)));
    assert_eq!(parse_decimal("2.0"), Some(dec(false, 2, 0)));
    assert_eq!(parse_decimal("2.000"), Some(dec(false, 2, 0)));
}

#[test]
fn parse_negative() {
    assert_eq!(parse_decimal("-1.5"), Some(dec(true, 15, 1)));
    assert_eq!(parse_decimal("-201"), Some(dec(true, 201, 0)));
}

#[test]
fn parse_zero_is_canonical() {
    assert_eq!(parse_decimal("0.00"), Some(dec(false, 0, 0)));
    assert_eq!(parse_decimal("-0.0"), Some(dec(false, 0, 0)));
    assert_eq!(parse_decimal("000"), Some(dec(false, 0, 0)));
}

#[test]
fn parse_keeps_leading_zero_value() {
    assert_eq!(parse_decimal("00.10"), Some(dec(false, 1, 1)));
    assert_eq!(parse_decimal("0.5"), Some(dec(false, 5, 1)));
}

#[test]
fn parse_rejects_malformed() {
    assert_eq!(parse_decimal(""), None);
    assert_eq!(parse_decimal("-"), None);
    assert_eq!(parse_decimal("abc"), None);
    assert_eq!(parse_decimal("1."), None);
    assert_eq!(parse_decimal(".5"), None);
    assert_eq!(parse_decimal("1.2.3"), None);
    assert_eq!(parse_decimal("1 "), None);
    assert_eq!(parse_decimal("+1"), None);
    assert_eq!(parse_decimal("--1"), None);
    assert_eq!(parse_decimal("1e3"), None);
    assert_eq!(parse_decimal("-.5"), None);
}

#[test]
fn parse_mantissa_bound() {
    // nineteen significant digits fit, twenty do not
    assert_eq!(
        parse_decimal("9999999999999999999"),
        Some(dec(false, 9_999_999_999_999_999_999, 0))
    );
    assert_eq!(parse_decimal("99999999999999999999"), None);
    // leading zeros do not count against the bound
    assert_eq!(
        parse_decimal("0009999999999999999999"),
        Some(dec(false, 9_999_999_999_999_999_999, 0))
    );
}

#[test]
fn parse_scale_bound() {
    assert_eq!(parse_decimal("0.0000000000000000001"), Some(dec(false, 1, 19)));
    assert_eq!(parse_decimal("0.00000000000000000001"), None);
}

#[test]
fn mul_exact() {
    let a = parse_decimal("100.50").unwrap();
    let b = parse_decimal("2.0").unwrap();
    assert_eq!(a.mul(&b), parse_decimal("201.00").unwrap());
    let c = parse_decimal("-1.5").unwrap();
    assert_eq!(b.mul(&c), parse_decimal("-3").unwrap());
    let z = parse_decimal("0.0").unwrap();
    assert_eq!(a.mul(&z), Dec::zero());
}

#[test]
fn is_small_bounds() {
    assert!(parse_decimal("50000.00").unwrap().is_small());
    assert!(parse_decimal("9999999999999999999").unwrap().is_small());
}
