use bigdecimal::num_bigint::BigInt;
use bigdecimal::BigDecimal;
use liquidation_monitor::decimal::{Decimal, SCALE_LIMIT, SCALE_SPREAD};
use std::str::FromStr;

fn decimal_of(text: &str) -> Decimal {
    let (digits, scale) = BigDecimal::from_str(text).unwrap().into_bigint_and_exponent();
    Decimal { digits: digits.to_signed_bytes_le(), scale }
}

fn number_of(decimal: &Decimal) -> BigDecimal {
    BigDecimal::new(BigInt::from_signed_bytes_le(&decimal.digits), decimal.scale)
}

fn number(text: &str) -> BigDecimal {
    BigDecimal::from_str(text).unwrap()
}

#[test]
fn zero_one_and_percent_stand_for_their_numbers() {
    assert_eq!(number_of(&Decimal::zero()), number("0"));
    assert_eq!(number_of(&Decimal::one()), number("1"));
    assert_eq!(number_of(&Decimal::percent(5)), number("0.05"));
    assert_eq!(number_of(&Decimal::percent(95)), number("0.95"));
    assert_eq!(Decimal::percent(5).scale, 2);
}

#[test]
fn times_multiplies() {
    let product = decimal_of("3").times(&decimal_of("4"));
    assert_eq!(number_of(&product), number("12"));
    let product = decimal_of("12.34").times(&decimal_of("1.234"));
    assert_eq!(number_of(&product), number("15.22756"));
    assert_eq!(product.scale, 5);
}

#[test]
fn times_by_one_keeps_the_other_operand() {
    let product = decimal_of("1.00").times(&decimal_of("2.5"));
    assert_eq!(number_of(&product), number("2.5"));
    let product = decimal_of("-7.25").times(&decimal_of("1"));
    assert_eq!(number_of(&product), number("-7.25"));
}

#[test]
fn times_keeps_the_sign() {
    let product = decimal_of("-8.37664968").times(&decimal_of("0"));
    assert_eq!(number_of(&product), number("0"));
    let product = decimal_of("-2").times(&decimal_of("-0.5"));
    assert_eq!(number_of(&product), number("1"));
    let product = decimal_of("-2").times(&decimal_of("0.5"));
    assert_eq!(number_of(&product), number("-1"));
}

#[test]
fn times_is_exact_beyond_machine_integers() {
    let product = decimal_of("995052931372975485719.533153137").times(&decimal_of("-4.523087321"));
    assert_eq!(number_of(&product), number("-4500711297616988541501.836966993116075977"));
}

#[test]
fn minus_subtracts_at_the_larger_scale() {
    let difference = decimal_of("5").minus(&decimal_of("3"));
    assert_eq!(number_of(&difference), number("2"));
    let difference = decimal_of("1").minus(&decimal_of("0.05"));
    assert_eq!(number_of(&difference), number("0.95"));
    assert_eq!(difference.scale, 2);
    let difference = decimal_of("0.001").minus(&decimal_of("10"));
    assert_eq!(number_of(&difference), number("-9.999"));
}

#[test]
fn minus_with_a_zero_operand() {
    let difference = decimal_of("2.50").minus(&decimal_of("0.000"));
    assert_eq!(number_of(&difference), number("2.5"));
    let difference = decimal_of("0").minus(&decimal_of("2.50"));
    assert_eq!(number_of(&difference), number("-2.5"));
}

#[test]
fn minus_with_negative_scales() {
    let thousands = Decimal { digits: vec![3], scale: -3 };
    let difference = thousands.minus(&decimal_of("1"));
    assert_eq!(number_of(&difference), number("2999"));
}

#[test]
fn at_least_compares_numbers_not_digits() {
    assert!(decimal_of("1.0").at_least(&decimal_of("1.00")));
    assert!(decimal_of("1.00").at_least(&decimal_of("1")));
    assert!(decimal_of("845").at_least(&decimal_of("500")));
    assert!(!decimal_of("845").at_least(&decimal_of("900")));
    assert!(!decimal_of("499.99").at_least(&decimal_of("500")));
    assert!(decimal_of("-1").at_least(&decimal_of("-1.5")));
    assert!(!decimal_of("-2").at_least(&decimal_of("-1.5")));
    assert!(decimal_of("0").at_least(&decimal_of("-0.0001")));
}

#[test]
fn is_negative_reads_the_sign() {
    assert!(decimal_of("-0.01").is_negative());
    assert!(decimal_of("-128").is_negative());
    assert!(decimal_of("-129").is_negative());
    assert!(!decimal_of("0").is_negative());
    assert!(!decimal_of("128").is_negative());
    assert!(!decimal_of("255").is_negative());
    assert!(!(Decimal { digits: vec![], scale: 0 }).is_negative());
}

#[test]
fn no_digits_stand_for_zero() {
    let nothing = Decimal { digits: vec![], scale: 4 };
    assert_eq!(number_of(&nothing), number("0"));
    assert_eq!(number_of(&decimal_of("7").minus(&nothing)), number("7"));
}

#[test]
fn check_fits_accepts_scales_up_to_the_limit() {
    assert!(Decimal { digits: vec![1], scale: SCALE_LIMIT }.check_fits());
    assert!(Decimal { digits: vec![1], scale: -SCALE_LIMIT }.check_fits());
    assert!(!Decimal { digits: vec![1], scale: SCALE_LIMIT + 1 }.check_fits());
    assert!(!Decimal { digits: vec![1], scale: -SCALE_LIMIT - 1 }.check_fits());
    assert!(decimal_of("0.1").check_fits());
}

#[test]
fn minus_and_at_least_at_the_largest_spread() {
    let fine = Decimal { digits: vec![1], scale: SCALE_SPREAD };
    let difference = Decimal::one().minus(&fine);
    assert_eq!(difference.scale, SCALE_SPREAD);
    assert!(!difference.is_negative());
    assert!(fine.minus(&Decimal::one()).is_negative());
    assert!(Decimal::one().at_least(&fine));
    assert!(!fine.at_least(&Decimal::one()));
    let coarse = Decimal { digits: vec![1], scale: -SCALE_SPREAD };
    assert!(coarse.at_least(&Decimal::one()));
    assert!(!Decimal::one().at_least(&coarse));
}
