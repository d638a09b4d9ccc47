//! Amounts, against the decimal type that does their arithmetic.

use payment_engine::Amount;
use rust_decimal::Decimal;

fn dec(mantissa: i128, scale: u32) -> Amount {
    Amount::new(mantissa, scale).unwrap()
}

fn decimal_of(amount: Amount) -> Decimal {
    Decimal::from_i128_with_scale(amount.mantissa(), amount.scale())
}

const LIMIT: i128 = 1 << 96;

#[test]
fn new_takes_what_a_decimal_can_hold() {
    assert!(Amount::new(LIMIT - 1, 0).is_some());
    assert!(Amount::new(-(LIMIT - 1), 28).is_some());
    assert!(Amount::new(LIMIT, 0).is_none());
    assert!(Amount::new(-LIMIT, 0).is_none());
    assert!(Amount::new(1, 29).is_none());
    assert!(Amount::new(i128::MAX, 0).is_none());
    assert!(Amount::new(i128::MIN, u32::MAX).is_none());
    let a = dec(-12345, 4);
    assert_eq!(a.mantissa(), -12345);
    assert_eq!(a.scale(), 4);
    assert_eq!(decimal_of(dec(LIMIT - 1, 0)), Decimal::MAX);
    assert_eq!(decimal_of(dec(-(LIMIT - 1), 0)), Decimal::MIN);
}

#[test]
fn zero_is_zero() {
    assert_eq!(Amount::zero().mantissa(), 0);
    assert_eq!(Amount::zero().scale(), 0);
    assert_eq!(decimal_of(Amount::zero()), Decimal::ZERO);
}

#[test]
fn positive_means_above_zero() {
    assert!(dec(1, 0).is_positive());
    assert!(dec(1, 28).is_positive());
    assert!(dec(LIMIT - 1, 28).is_positive());
    assert!(!dec(0, 0).is_positive());
    assert!(!dec(0, 4).is_positive());
    assert!(!dec(-1, 4).is_positive());
    assert!(!dec(-(LIMIT - 1), 0).is_positive());
}

#[test]
fn less_than_compares_numbers_not_digits() {
    assert!(dec(15, 1).lt(&dec(151, 2)));
    assert!(!dec(151, 2).lt(&dec(15, 1)));
    assert!(!dec(15, 1).lt(&dec(150, 2)));
    assert!(!dec(150, 2).lt(&dec(15, 1)));
    assert!(dec(-2, 0).lt(&dec(-15, 1)));
    assert!(dec(-1, 4).lt(&Amount::zero()));
    assert!(dec(9999, 4).lt(&dec(1, 0)));
    assert!(!dec(10000, 4).lt(&dec(1, 0)));
    // the wider operand does not fit a mantissa at the narrower one's scale
    assert!(dec(1, 28).lt(&dec(LIMIT - 1, 0)));
    assert!(!dec(LIMIT - 1, 0).lt(&dec(1, 28)));
    assert!(dec(-(LIMIT - 1), 0).lt(&dec(-1, 28)));
}

#[test]
fn equal_amounts_are_written_alike_and_same_values_need_not_be() {
    assert_ne!(dec(150, 2), dec(15, 1));
    assert!(dec(150, 2).same_value(&dec(15, 1)));
    assert!(dec(15, 1).same_value(&dec(150, 2)));
    assert_eq!(dec(150, 2).normalize(), dec(15, 1).normalize());
    assert!(dec(0, 4).same_value(&Amount::zero()));
    assert!(!dec(1, 4).same_value(&Amount::zero()));
    assert!(!dec(15, 1).same_value(&dec(-15, 1)));
    assert!(dec(10, 28).same_value(&dec(1, 27)));
}

#[test]
fn normalize_strips_trailing_zeros_only() {
    assert_eq!(dec(1000, 1).normalize(), dec(100, 0));
    assert_eq!(dec(1000000, 4).normalize(), dec(100, 0));
    assert_eq!(dec(12340, 4).normalize(), dec(1234, 3));
    assert_eq!(dec(12345, 4).normalize(), dec(12345, 4));
    assert_eq!(dec(-1200, 2).normalize(), dec(-12, 0));
    assert_eq!(dec(0, 4).normalize(), dec(0, 0));
    assert_eq!(dec(100, 0).normalize(), dec(100, 0));
    assert_eq!(dec(5, 28).normalize(), dec(5, 28));
    assert_eq!(dec(50, 28).normalize(), dec(5, 27));
}

#[test]
fn plus_is_exact() {
    assert_eq!(dec(12345, 4).plus(&dec(1, 4)).normalize(), dec(12346, 4));
    assert_eq!(dec(1, 1).plus(&dec(2, 1)).normalize(), dec(3, 1));
    assert_eq!(dec(100, 0).plus(&dec(505, 1)).normalize(), dec(1505, 1));
    assert_eq!(dec(9999, 4).plus(&dec(1, 4)).normalize(), dec(1, 0));
    assert_eq!(dec(-5, 1).plus(&dec(5, 1)).normalize(), dec(0, 0));
    assert_eq!(dec(0, 4).plus(&dec(7, 0)).normalize(), dec(7, 0));
    assert_eq!(dec(LIMIT - 2, 4).plus(&dec(1, 4)), dec(LIMIT - 1, 4));
    assert_eq!(
        decimal_of(dec(12345, 4).plus(&dec(1, 4))),
        Decimal::new(12345, 4) + Decimal::new(1, 4)
    );
}

#[test]
fn minus_is_exact() {
    assert_eq!(dec(100, 0).minus(&dec(40, 0)).normalize(), dec(60, 0));
    assert_eq!(dec(20, 0).minus(&dec(1000, 1)).normalize(), dec(-80, 0));
    assert_eq!(dec(1, 0).minus(&dec(1, 4)).normalize(), dec(9999, 4));
    assert_eq!(dec(0, 0).minus(&dec(1, 4)).normalize(), dec(-1, 4));
    assert_eq!(dec(3, 1).minus(&dec(3, 1)).normalize(), dec(0, 0));
    assert_eq!(dec(-(LIMIT - 2), 4).minus(&dec(1, 4)), dec(-(LIMIT - 1), 4));
    assert_eq!(
        decimal_of(dec(1, 0).minus(&dec(1, 4))),
        Decimal::new(1, 0) - Decimal::new(1, 4)
    );
}

#[test]
fn units_count_ten_thousandths() {
    assert_eq!(dec(1, 0).to_units(), 10000);
    assert_eq!(dec(1, 1).to_units(), 1000);
    assert_eq!(dec(1, 2).to_units(), 100);
    assert_eq!(dec(1, 3).to_units(), 10);
    assert_eq!(dec(1, 4).to_units(), 1);
    assert_eq!(dec(-1005, 1).to_units(), -1005000);
    assert_eq!(dec(0, 3).to_units(), 0);
    assert_eq!(dec(LIMIT - 1, 0).to_units(), (LIMIT - 1) * 10000);
}

#[test]
fn the_ledger_holds_up_to_four_digits_and_a_mantissa_of_units() {
    assert!(dec(1, 4).fits_ledger());
    assert!(dec(LIMIT - 1, 4).fits_ledger());
    assert!(dec(-(LIMIT - 1), 4).fits_ledger());
    assert!(!dec(1, 5).fits_ledger());
    assert!(!dec(0, 5).fits_ledger());
    assert!(dec((LIMIT - 1) / 10, 3).fits_ledger());
    assert!(!dec((LIMIT - 1) / 10 + 1, 3).fits_ledger());
    assert!(!dec(LIMIT - 1, 0).fits_ledger());
}

#[test]
fn sums_and_differences_are_held_to_the_same_range() {
    assert!(dec(LIMIT - 2, 4).sum_fits_ledger(&dec(1, 4)));
    assert!(!dec(LIMIT - 1, 4).sum_fits_ledger(&dec(1, 4)));
    assert!(dec(-(LIMIT - 2), 4).difference_fits_ledger(&dec(1, 4)));
    assert!(!dec(-(LIMIT - 1), 4).difference_fits_ledger(&dec(1, 4)));
    assert!(dec(LIMIT - 1, 0).difference_fits_ledger(&dec(LIMIT - 1, 0)));
    assert!(!dec(LIMIT - 1, 0).sum_fits_ledger(&dec(LIMIT - 1, 0)));
    assert!(dec(1, 0).sum_fits_ledger(&dec(1, 4)));
}

#[test]
fn text_is_what_the_decimal_type_writes() {
    assert_eq!(dec(100, 0).to_string(), "100");
    assert_eq!(dec(1000, 1).to_string(), "100.0");
    assert_eq!(dec(-5, 1).to_string(), "-0.5");
    assert_eq!(dec(12346, 4).to_string(), "1.2346");
    assert_eq!(dec(0, 0).to_string(), "0");
    assert_eq!(dec(12346, 4).to_string(), Decimal::new(12346, 4).to_string());
}

#[test]
fn four_digit_text_always_has_four_digits() {
    assert_eq!(dec(100, 0).to_string_4dp(), "100.0000");
    assert_eq!(dec(1000, 1).to_string_4dp(), "100.0000");
    assert_eq!(dec(-80, 0).to_string_4dp(), "-80.0000");
    assert_eq!(dec(12346, 4).to_string_4dp(), "1.2346");
    assert_eq!(dec(0, 0).to_string_4dp(), "0.0000");
    assert_eq!(dec(5, 1).to_string_4dp(), "0.5000");
    assert_eq!(dec(17575, 2).to_string_4dp(), "175.7500");
}
