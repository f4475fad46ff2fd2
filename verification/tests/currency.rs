use budget_rs::currency::{Currency, CurrencyError};
use std::ops::{AddAssign, SubAssign};

#[test]
fn new_and_get_round_trip() {
    assert_eq!(Currency::new(-1560).get(), -1560);
    assert_eq!(Currency::new(0).get(), 0);
    assert_eq!(Currency::new(i64::MAX).get(), i64::MAX);
    assert_eq!(Currency::new(i64::MIN).get(), i64::MIN);
}

#[test]
fn set_replaces_and_reports_the_change() {
    let mut c = Currency::new(1000);
    assert_eq!(c.set(1250), 250);
    assert_eq!(c.get(), 1250);
    assert_eq!(c.set(-50), -1300);
    assert_eq!(c.get(), -50);
    assert_eq!(c.set(-50), 0);
}

#[test]
fn numeric_text_of_negative_amount() {
    assert_eq!(Currency::new(-1560).to_string_numeric(), "-$15.60");
}

#[test]
fn accounting_text_of_negative_amount() {
    assert_eq!(Currency::new(-1560).to_string_accounting(), "(15.60)");
}

#[test]
fn numeric_text_of_positive_amount() {
    assert_eq!(Currency::new(150).to_string_numeric(), "$1.50");
}

#[test]
fn accounting_text_of_positive_amount() {
    assert_eq!(Currency::new(150).to_string_accounting(), "1.50");
}

#[test]
fn text_pads_cents_to_two_digits() {
    assert_eq!(Currency::new(0).to_string_numeric(), "$0.00");
    assert_eq!(Currency::new(5).to_string_numeric(), "$0.05");
    assert_eq!(Currency::new(-5).to_string_numeric(), "-$0.05");
    assert_eq!(Currency::new(-5).to_string_accounting(), "(0.05)");
    assert_eq!(Currency::new(100).to_string_accounting(), "1.00");
    assert_eq!(Currency::new(200000).to_string_numeric(), "$2000.00");
    assert_eq!(Currency::new(123456789).to_string_accounting(), "1234567.89");
}

#[test]
fn text_is_exact_for_the_largest_magnitudes() {
    assert_eq!(Currency::new(i64::MAX).to_string_numeric(), "$92233720368547758.07");
    assert_eq!(Currency::new(i64::MIN).to_string_numeric(), "-$92233720368547758.08");
    assert_eq!(Currency::new(i64::MIN).to_string_accounting(), "(92233720368547758.08)");
    assert_eq!(Currency::new(9007199254740993).to_string_accounting(), "90071992547409.93");
}

#[test]
fn conversions_keep_the_amount() {
    assert_eq!(Currency::from(42), Currency::new(42));
    assert_eq!(i64::from(Currency::new(-42)), -42);
    assert_eq!(Currency::from(&7), Currency::new(7));
    let mut n = 8;
    assert_eq!(Currency::from(&mut n), Currency::new(8));
    let mut c = Currency::new(9);
    assert_eq!(i64::from(&c), 9);
    assert_eq!(i64::from(&mut c), 9);
}

#[test]
fn default_is_zero() {
    assert_eq!(Currency::default(), Currency::new(0));
}

#[test]
fn order_is_that_of_the_amounts() {
    assert!(Currency::new(-1) < Currency::new(0));
    assert!(Currency::new(3) > Currency::new(2));
    assert!(Currency::new(3) <= Currency::new(3));
    assert!(Currency::new(3) != Currency::new(4));
    assert_eq!(Currency::new(5).max(Currency::new(7)), Currency::new(7));
}

#[test]
fn negation() {
    assert_eq!(-Currency::new(1560), Currency::new(-1560));
    assert_eq!(-Currency::new(-1), Currency::new(1));
    assert_eq!(-Currency::new(0), Currency::new(0));
}

#[test]
fn addition_and_subtraction_are_exact() {
    assert_eq!(Currency::new(200000) + Currency::new(-1560), Currency::new(198440));
    assert_eq!(Currency::new(198440) - Currency::new(500), Currency::new(197940));
    assert_eq!(Currency::new(10) + 5, Currency::new(15));
    assert_eq!(Currency::new(10) - 15, Currency::new(-5));
    assert_eq!(&Currency::new(1) + &Currency::new(2), Currency::new(3));
    assert_eq!(&Currency::new(1) - &Currency::new(2), Currency::new(-1));
    assert_eq!(&Currency::new(1) + &2, Currency::new(3));
    assert_eq!(&Currency::new(1) - &2, Currency::new(-1));
    assert_eq!(Currency::new(i64::MAX - 1) + 1, Currency::new(i64::MAX));
}

#[test]
fn in_place_addition_and_subtraction() {
    let mut c = Currency::new(100);
    c += Currency::new(50);
    assert_eq!(c, Currency::new(150));
    c += 25;
    assert_eq!(c, Currency::new(175));
    c -= Currency::new(200);
    assert_eq!(c, Currency::new(-25));
    c -= -25;
    assert_eq!(c, Currency::new(0));
    c.add_assign(Currency::new(1));
    c.sub_assign(3);
    assert_eq!(c, Currency::new(-2));
}

#[test]
fn division_rounds_toward_zero() {
    assert_eq!(Currency::new(7) / Currency::new(2), Ok(Currency::new(3)));
    assert_eq!(Currency::new(-7) / Currency::new(2), Ok(Currency::new(-3)));
    assert_eq!(Currency::new(7) / Currency::new(-2), Ok(Currency::new(-3)));
    assert_eq!(Currency::new(-7) / Currency::new(-2), Ok(Currency::new(3)));
    assert_eq!(Currency::new(1000) / 4, Ok(Currency::new(250)));
    assert_eq!(Currency::new(-1) / 2, Ok(Currency::new(0)));
    assert_eq!(&Currency::new(9) / &Currency::new(3), Ok(Currency::new(3)));
    assert_eq!(&Currency::new(-9) / &2, Ok(Currency::new(-4)));
    assert_eq!(Currency::new(i64::MIN) / 1, Ok(Currency::new(i64::MIN)));
    assert_eq!(Currency::new(i64::MAX) / -1, Ok(Currency::new(-i64::MAX)));
}

#[test]
fn division_by_zero_is_reported() {
    assert_eq!(Currency::new(7) / Currency::new(0), Err(CurrencyError::DivisionByZero));
    assert_eq!(Currency::new(0) / 0, Err(CurrencyError::DivisionByZero));
    assert_eq!(&Currency::new(7) / &Currency::new(0), Err(CurrencyError::DivisionByZero));
    assert_eq!(&Currency::new(-7) / &0, Err(CurrencyError::DivisionByZero));
}

#[test]
fn in_place_division() {
    let mut c = Currency::new(-1001);
    assert_eq!(c.div_assign(Currency::new(10)), Ok(()));
    assert_eq!(c, Currency::new(-100));
    assert_eq!(c.div_assign_i64(-3), Ok(()));
    assert_eq!(c, Currency::new(33));
}

#[test]
fn in_place_division_by_zero_changes_nothing() {
    let mut c = Currency::new(1234);
    assert_eq!(c.div_assign(Currency::new(0)), Err(CurrencyError::DivisionByZero));
    assert_eq!(c, Currency::new(1234));
    assert_eq!(c.div_assign_i64(0), Err(CurrencyError::DivisionByZero));
    assert_eq!(c, Currency::new(1234));
}

#[test]
fn text_agrees_with_formatting_the_integer_parts() {
    let mut samples: Vec<i64> = (-1205..=1205).collect();
    samples.extend([9_999, 10_000, 99_999, 100_000, 123_456_789_012, i64::MAX, i64::MIN + 1]);
    let mut value: i64 = 7;
    for _ in 0..200 {
        value = value.wrapping_mul(6364136223846793005).wrapping_add(1442695040888963407);
        samples.push(value);
    }
    for cents in samples {
        let magnitude = cents.unsigned_abs();
        let digits = format!("{}.{:02}", magnitude / 100, magnitude % 100);
        let c = Currency::new(cents);
        if cents < 0 {
            assert_eq!(c.to_string_numeric(), format!("-${}", digits));
            assert_eq!(c.to_string_accounting(), format!("({})", digits));
        } else {
            assert_eq!(c.to_string_numeric(), format!("${}", digits));
            assert_eq!(c.to_string_accounting(), digits);
        }
    }
}
