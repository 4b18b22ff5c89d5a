use nym_dispatch::amount::major_to_minor;
use nym_dispatch::amount::minor_to_major;
use nym_dispatch::amount::to_major;
use nym_dispatch::amount::Amount;
use nym_dispatch::amount::ValidationError;

fn ok(s: &str) -> Amount {
    major_to_minor(s, "unym").expect("should parse")
}

fn err(s: &str) -> ValidationError {
    major_to_minor(s, "unym").expect_err("should fail")
}

#[test]
fn scenario_twelve_point_five() {
    let a = ok("12.5");
    assert_eq!(a.value, 12500000u128);
    assert_eq!(a.denom, "unym".to_string());
    assert_eq!(to_major(&a), "12.5".to_string());
}

#[test]
fn integer_input_has_no_fraction() {
    let a = ok("42");
    assert_eq!(a.value, 42000000u128);
    assert_eq!(to_major(&a), "42".to_string());
}

#[test]
fn zero_parses_and_renders() {
    let a = ok("0");
    assert_eq!(a.value, 0u128);
    assert_eq!(to_major(&a), "0".to_string());
}

#[test]
fn full_six_fractional_digits() {
    let a = ok("0.123456");
    assert_eq!(a.value, 123456u128);
    assert_eq!(to_major(&a), "0.123456".to_string());
}

#[test]
fn seven_fractional_digits_rejected_never_rounded() {
    assert_eq!(err("1.2345678"), ValidationError::AmountPrecisionExceeded);
    assert_eq!(err("0.0000001"), ValidationError::AmountPrecisionExceeded);
}

#[test]
fn negative_rejected() {
    assert_eq!(err("-1.5"), ValidationError::NegativeOrOverflowAmount);
    assert_eq!(err("-0"), ValidationError::NegativeOrOverflowAmount);
}

#[test]
fn malformed_rejected() {
    assert_eq!(err(""), ValidationError::MalformedAmount);
    assert_eq!(err("abc"), ValidationError::MalformedAmount);
    assert_eq!(err("1.2.3"), ValidationError::MalformedAmount);
    assert_eq!(err("."), ValidationError::MalformedAmount);
    assert_eq!(err("1,5"), ValidationError::MalformedAmount);
    assert_eq!(err("-x"), ValidationError::MalformedAmount);
}

#[test]
fn trailing_dot_and_leading_dot_forms() {
    assert_eq!(ok("12.").value, 12000000u128);
    assert_eq!(ok(".5").value, 500000u128);
}

#[test]
fn round_trip_normalizes_zeros() {
    let a = ok("012.500000");
    assert_eq!(a.value, 12500000u128);
    assert_eq!(to_major(&a), "12.5".to_string());
    let b = ok("000.5");
    assert_eq!(to_major(&b), "0.5".to_string());
}

#[test]
fn overflow_rejected() {
    assert_eq!(
        err("340282366920938463463374607431768211456"),
        ValidationError::NegativeOrOverflowAmount
    );
    assert_eq!(err("999999999999999999999999999999999999999999"), ValidationError::NegativeOrOverflowAmount);
}

#[test]
fn maximum_magnitude_round_trips() {
    let a = Amount { value: u128::MAX, denom: "unym".to_string() };
    let s = to_major(&a);
    let b = major_to_minor(&s, "unym").expect("max value round trips");
    assert_eq!(b.value, u128::MAX);
}

#[test]
fn minor_to_major_renders_decimal() {
    assert_eq!(minor_to_major("12500000").expect("valid"), "12.5".to_string());
    assert_eq!(minor_to_major("1000000").expect("valid"), "1".to_string());
    assert_eq!(minor_to_major("1").expect("valid"), "0.000001".to_string());
    assert_eq!(minor_to_major("0").expect("valid"), "0".to_string());
}

#[test]
fn minor_to_major_rejections() {
    assert_eq!(minor_to_major("-5").expect_err("negative"), ValidationError::NegativeOrOverflowAmount);
    assert_eq!(minor_to_major("abc").expect_err("malformed"), ValidationError::MalformedAmount);
    assert_eq!(minor_to_major("").expect_err("empty"), ValidationError::MalformedAmount);
    assert_eq!(minor_to_major("1.5").expect_err("not an integer"), ValidationError::MalformedAmount);
}

#[test]
fn checked_add_same_denom() {
    let a = Amount { value: 700, denom: "unym".to_string() };
    let b = Amount { value: 42, denom: "unym".to_string() };
    let c = a.checked_add(&b).expect("same denom");
    assert_eq!(c.value, 742u128);
    assert_eq!(c.denom, "unym".to_string());
}

#[test]
fn checked_add_denom_mismatch() {
    let a = Amount { value: 1, denom: "unym".to_string() };
    let b = Amount { value: 1, denom: "unyx".to_string() };
    assert_eq!(a.checked_add(&b).expect_err("mismatch"), ValidationError::DenomMismatch);
}

#[test]
fn checked_add_overflow() {
    let a = Amount { value: u128::MAX, denom: "unym".to_string() };
    let b = Amount { value: 1, denom: "unym".to_string() };
    assert_eq!(a.checked_add(&b).expect_err("overflow"), ValidationError::NegativeOrOverflowAmount);
}
