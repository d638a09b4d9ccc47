//! Exact decimal amounts of money.
//!
//! An [`Amount`] is a signed mantissa together with the number of digits that
//! stand behind the decimal point: the pair `(12345, 4)` is `1.2345`. The
//! arithmetic itself is done by the `rust_decimal` crate; this module states
//! what the ledger relies on and proves the rest from it.

use crate::text::{
    digit, digits, is_digit, lemma_digits_are_digits, lemma_digits_of_multiples,
    lemma_number_text_is_not_empty, lemma_number_text_length, number_text, zeros,
};
use rust_decimal::Decimal;
use vstd::prelude::*;

verus! {

/// Strict bound on the magnitude of a mantissa: 2^96.
pub const MANTISSA_LIMIT: i128 = 0x1_0000_0000_0000_0000_0000_0000;

/// The largest number of fractional digits a decimal can have.
pub const MAX_SCALE: u32 = 28;

/// The number of fractional digits the ledger keeps.
pub const LEDGER_SCALE: u32 = 4;

/// The most characters that `rust_decimal` writes for a number, the sign
/// aside.
pub const TEXT_LIMIT: usize = 32;

/// Ten to the power `n`.
pub open spec fn pow10(n: nat) -> int
    decreases n,
{
    if n == 0 {
        1
    } else {
        10 * pow10((n - 1) as nat)
    }
}

/// Whether `v` is the mantissa of some decimal.
pub open spec fn fits(v: int) -> bool {
    -MANTISSA_LIMIT < v < MANTISSA_LIMIT
}

/// A decimal number: `mantissa / 10^scale`.
///
/// Two amounts are equal where they are written alike. `1.50` and `1.5` are
/// the same number, and neither is below the other, but they are not equal
/// amounts; [`Amount::normalize`] writes both as `1.5`.
#[derive(Clone, Copy, Debug, PartialEq, Eq, Structural)]
pub struct Amount {
    mantissa: i128,
    scale: u32,
}

impl Amount {
    /// The mantissa, as a specification value.
    pub closed spec fn spec_mantissa(&self) -> i128 {
        self.mantissa
    }

    /// The scale, as a specification value.
    pub closed spec fn spec_scale(&self) -> u32 {
        self.scale
    }

    /// A value the decimal type can hold. Every amount is one.
    #[verifier::type_invariant]
    pub open spec fn wf(&self) -> bool {
        fits(self.mantissa() as int) && self.scale() <= MAX_SCALE
    }

    /// The mantissa this amount has when written with `s` fractional digits.
    /// Meaningful for `s` at or above the amount's own scale.
    pub open spec fn at_scale(&self, s: nat) -> int {
        self.mantissa() * pow10((s - self.scale()) as nat)
    }

    /// The amount counted in ten-thousandths. Meaningful for a scale of at
    /// most four.
    pub open spec fn units(&self) -> int {
        self.at_scale(LEDGER_SCALE as nat)
    }

    /// No trailing zero behind the decimal point.
    pub open spec fn is_canonical(&self) -> bool {
        self.scale() == 0 || self.mantissa() % 10 != 0
    }

    /// An amount the ledger can hold: at most four fractional digits, and a
    /// count of ten-thousandths that fits a mantissa.
    pub open spec fn in_ledger(&self) -> bool {
        &&& self.wf()
        &&& self.scale() <= LEDGER_SCALE
        &&& fits(self.units())
    }

    /// The amount as text, with as many fractional digits as its scale says.
    pub open spec fn text(&self) -> Seq<char> {
        decimal_text(self.mantissa() as int, self.scale() as nat, self.scale() as nat)
    }

    /// The amount as text with exactly four fractional digits.
    pub open spec fn text_4dp(&self) -> Seq<char> {
        decimal_text(self.mantissa() as int, self.scale() as nat, LEDGER_SCALE as nat)
    }

    /// Whether the amount can be written with `precision` fractional digits:
    /// whether its whole part, the point and the fractional digits make no
    /// more characters than `rust_decimal` has room for.
    pub open spec fn text_fits(&self, precision: nat) -> bool {
        decimal_text_fits(self.mantissa() as int, self.scale() as nat, precision)
    }

    /// The amount `mantissa / 10^scale`, if the decimal type can hold it.
    pub fn new(mantissa: i128, scale: u32) -> (r: Option<Amount>)
        ensures
            r is Some <==> fits(mantissa as int) && scale <= MAX_SCALE,
            r matches Some(a) ==> a.mantissa() == mantissa && a.scale() == scale && a.wf(),
    {
        if -MANTISSA_LIMIT < mantissa && mantissa < MANTISSA_LIMIT && scale <= MAX_SCALE {
            Some(Amount { mantissa, scale })
        } else {
            None
        }
    }

    /// Zero, with no fractional digits.
    pub fn zero() -> (r: Amount)
        ensures
            r.mantissa() == 0,
            r.scale() == 0,
            r.wf(),
    {
        Amount { mantissa: 0, scale: 0 }
    }

    /// The mantissa: the number without its decimal point.
    #[verifier::when_used_as_spec(spec_mantissa)]
    pub fn mantissa(&self) -> (m: i128)
        ensures
            m == self.spec_mantissa(),
    {
        self.mantissa
    }

    /// The scale: how many of the mantissa's digits stand behind the decimal
    /// point.
    #[verifier::when_used_as_spec(spec_scale)]
    pub fn scale(&self) -> (s: u32)
        ensures
            s == self.spec_scale(),
    {
        self.scale
    }
}

// What is taken from `rust_decimal`: each function below holds one call, and
// its contract is believed, not proved.

/// The larger of two scales.
pub open spec fn wider_scale(a: Amount, b: Amount) -> nat {
    if a.scale() >= b.scale() {
        a.scale() as nat
    } else {
        b.scale() as nat
    }
}

/// The decimal `mantissa / 10^scale` written with `precision` fractional
/// digits: a minus sign where it is below zero, the whole part without
/// leading zeros, and, where fractional digits are asked for, a point and
/// the first `precision` of them, with zeros where the scale gives fewer.
/// Digits beyond the precision are cut off, not rounded.
pub open spec fn decimal_text(mantissa: int, scale: nat, precision: nat) -> Seq<char> {
    let magnitude = if mantissa < 0 {
        -mantissa
    } else {
        mantissa
    };
    let sign = if mantissa < 0 {
        seq!['-']
    } else {
        Seq::empty()
    };
    let whole = number_text((magnitude / pow10(scale)) as nat);
    let fraction = digits((magnitude % pow10(scale)) as nat, scale) + zeros(
        (precision - scale) as nat,
    );
    if precision == 0 {
        sign + whole
    } else {
        sign + whole + seq!['.'] + fraction.take(precision as int)
    }
}

/// Whether two decimals and their sum can all be written exactly at the wider
/// of the two scales.
pub open spec fn sum_is_exact(a: Amount, b: Amount) -> bool {
    let s = wider_scale(a, b);
    fits(a.at_scale(s)) && fits(b.at_scale(s)) && fits(a.at_scale(s) + b.at_scale(s))
}

/// Whether two decimals and their difference can all be written exactly at
/// the wider of the two scales.
pub open spec fn difference_is_exact(a: Amount, b: Amount) -> bool {
    let s = wider_scale(a, b);
    fits(a.at_scale(s)) && fits(b.at_scale(s)) && fits(a.at_scale(s) - b.at_scale(s))
}

/// Whether `c` is the sum of `a` and `b`, with no more fractional digits
/// than the wider of their scales.
pub open spec fn is_sum_of(c: Amount, a: Amount, b: Amount) -> bool {
    let s = wider_scale(a, b);
    c.scale() <= s && c.at_scale(s) == a.at_scale(s) + b.at_scale(s)
}

/// Whether `c` is `a` less `b`, with no more fractional digits than the wider
/// of their scales.
pub open spec fn is_difference_of(c: Amount, a: Amount, b: Amount) -> bool {
    let s = wider_scale(a, b);
    c.scale() <= s && c.at_scale(s) == a.at_scale(s) - b.at_scale(s)
}

/// `Decimal::checked_add` on the two decimals built by
/// `Decimal::from_i128_with_scale`, read back with `Decimal::mantissa` and
/// `Decimal::scale`. Claimed, not proved: where both operands and their sum
/// can be written at the wider scale, the call succeeds, and its result is
/// the exact sum with no more fractional digits than that.
#[verifier::external_body]
fn decimal_checked_add(a: Amount, b: Amount) -> (r: Option<Amount>)
    requires
        a.wf(),
        b.wf(),
    ensures
        r matches Some(c) ==> c.wf(),
        sum_is_exact(a, b) ==> r is Some && is_sum_of(r.unwrap(), a, b),
{
    let x = Decimal::from_i128_with_scale(a.mantissa, a.scale);
    let y = Decimal::from_i128_with_scale(b.mantissa, b.scale);
    match x.checked_add(y) {
        Some(d) => Some(Amount { mantissa: d.mantissa(), scale: d.scale() }),
        None => None,
    }
}

/// `Decimal::checked_sub`, with the operands built and the result read back
/// as for the sum. Claimed, not proved: where both operands and their
/// difference can be written at the wider scale, the call succeeds, and its
/// result is the exact difference with no more fractional digits than that.
#[verifier::external_body]
fn decimal_checked_sub(a: Amount, b: Amount) -> (r: Option<Amount>)
    requires
        a.wf(),
        b.wf(),
    ensures
        r matches Some(c) ==> c.wf(),
        difference_is_exact(a, b) ==> r is Some && is_difference_of(r.unwrap(), a, b),
{
    let x = Decimal::from_i128_with_scale(a.mantissa, a.scale);
    let y = Decimal::from_i128_with_scale(b.mantissa, b.scale);
    match x.checked_sub(y) {
        Some(d) => Some(Amount { mantissa: d.mantissa(), scale: d.scale() }),
        None => None,
    }
}

/// The `<` of `Decimal`. Claimed, not proved: it compares the two numbers,
/// whatever their scales.
#[verifier::external_body]
fn decimal_less_than(a: Amount, b: Amount) -> (r: bool)
    requires
        a.wf(),
        b.wf(),
    ensures
        r == (a.at_scale(wider_scale(a, b)) < b.at_scale(wider_scale(a, b))),
{
    let x = Decimal::from_i128_with_scale(a.mantissa, a.scale);
    let y = Decimal::from_i128_with_scale(b.mantissa, b.scale);
    x < y
}

/// `Decimal::normalize`. Claimed, not proved: the result is the same number
/// with every trailing zero behind the decimal point removed.
#[verifier::external_body]
fn decimal_normalize(a: Amount) -> (r: Amount)
    requires
        a.wf(),
    ensures
        r.wf(),
        r.scale() <= a.scale(),
        r.at_scale(a.scale() as nat) == a.mantissa(),
        r.is_canonical(),
{
    let d = Decimal::from_i128_with_scale(a.mantissa, a.scale).normalize();
    Amount { mantissa: d.mantissa(), scale: d.scale() }
}

/// Whether the text of `mantissa / 10^scale` with `precision` fractional
/// digits is within [`TEXT_LIMIT`], the sign aside.
pub open spec fn decimal_text_fits(mantissa: int, scale: nat, precision: nat) -> bool {
    let magnitude = if mantissa < 0 {
        -mantissa
    } else {
        mantissa
    };
    let point_and_fraction = if precision == 0 {
        0
    } else {
        precision + 1
    };
    number_text((magnitude / pow10(scale)) as nat).len() + point_and_fraction <= TEXT_LIMIT
}

/// A number of ten-thousandths written with four fractional digits: a minus
/// sign where it is below zero, the whole part, a point, and the four digits
/// of the ten-thousandths that are left.
pub open spec fn ledger_text(units: int) -> Seq<char> {
    let magnitude = if units < 0 {
        -units
    } else {
        units
    };
    let sign = if units < 0 {
        seq!['-']
    } else {
        Seq::empty()
    };
    sign + number_text((magnitude / 10000) as nat) + seq!['.'] + digits(
        (magnitude % 10000) as nat,
        4,
    )
}

/// `Decimal`'s `Display` at a precision, as `format!` reaches it. Claimed,
/// not proved: the text is the number in decimal notation with that many
/// fractional digits, as [`decimal_text`] writes it out. The call panics
/// where the text is longer than [`TEXT_LIMIT`].
#[verifier::external_body]
fn decimal_format(a: Amount, precision: usize) -> (r: String)
    requires
        a.wf(),
        precision <= MAX_SCALE,
        a.text_fits(precision as nat),
    ensures
        r@ == decimal_text(a.mantissa() as int, a.scale() as nat, precision as nat),
{
    format!("{:.*}", precision, Decimal::from_i128_with_scale(a.mantissa, a.scale))
}

// What is proved from it.

impl Amount {
    /// Whether the amount is above zero.
    pub fn is_positive(&self) -> (r: bool)
        ensures
            r == (self.mantissa() > 0),
    {
        let zero = Amount::zero();
        proof {
            use_type_invariant(self);
            assert(pow10(0) == 1);
            assert(zero.at_scale(wider_scale(zero, *self)) == 0);
            assert(self.at_scale(wider_scale(zero, *self)) == self.mantissa());
        }
        decimal_less_than(zero, *self)
    }

    /// Whether this amount is below `other`.
    pub fn lt(&self, other: &Amount) -> (r: bool)
        ensures
            r == (self.at_scale(wider_scale(*self, *other)) < other.at_scale(
                wider_scale(*self, *other),
            )),
            self.scale() <= LEDGER_SCALE && other.scale() <= LEDGER_SCALE ==> r == (self.units()
                < other.units()),
    {
        proof {
            use_type_invariant(self);
            use_type_invariant(other);
            if self.scale() <= LEDGER_SCALE && other.scale() <= LEDGER_SCALE {
                let s = wider_scale(*self, *other);
                let p = pow10((LEDGER_SCALE - s) as nat);
                lemma_rescale(*self, s, LEDGER_SCALE as nat);
                lemma_rescale(*other, s, LEDGER_SCALE as nat);
                lemma_pow10_positive((LEDGER_SCALE - s) as nat);
                lemma_scaling_keeps_order(self.at_scale(s), other.at_scale(s), p);
            }
        }
        decimal_less_than(*self, *other)
    }

    /// Whether this amount and `other` are the same number, however they are
    /// written.
    pub fn same_value(&self, other: &Amount) -> (r: bool)
        ensures
            r == (self.at_scale(wider_scale(*self, *other)) == other.at_scale(
                wider_scale(*self, *other),
            )),
            self.scale() <= LEDGER_SCALE && other.scale() <= LEDGER_SCALE ==> r == (self.units()
                == other.units()),
    {
        !self.lt(other) && !other.lt(self)
    }

    /// The same number without trailing zeros behind the decimal point.
    pub fn normalize(&self) -> (r: Amount)
        ensures
            r.wf(),
            r.is_canonical(),
            r.scale() <= self.scale(),
            r.at_scale(self.scale() as nat) == self.mantissa(),
            self.scale() <= LEDGER_SCALE ==> r.units() == self.units(),
            self.in_ledger() ==> r.in_ledger(),
    {
        proof {
            use_type_invariant(self);
        }
        let r = decimal_normalize(*self);
        proof {
            if self.scale() <= LEDGER_SCALE {
                lemma_rescale(r, self.scale() as nat, LEDGER_SCALE as nat);
            }
        }
        r
    }

    /// The sum of two ledger amounts, where the ledger can hold it.
    pub fn plus(&self, other: &Amount) -> (r: Amount)
        requires
            self.in_ledger(),
            other.in_ledger(),
            fits(self.units() + other.units()),
        ensures
            r.in_ledger(),
            r.units() == self.units() + other.units(),
    {
        proof {
            let s = wider_scale(*self, *other);
            let p = pow10((LEDGER_SCALE - s) as nat);
            lemma_rescale(*self, s, LEDGER_SCALE as nat);
            lemma_rescale(*other, s, LEDGER_SCALE as nat);
            lemma_pow10_positive((LEDGER_SCALE - s) as nat);
            lemma_fits_factor(self.at_scale(s), p);
            lemma_fits_factor(other.at_scale(s), p);
            lemma_distribute(self.at_scale(s), other.at_scale(s), p);
            lemma_fits_factor(self.at_scale(s) + other.at_scale(s), p);
        }
        let r = decimal_checked_add(*self, *other).unwrap();
        proof {
            let s = wider_scale(*self, *other);
            lemma_rescale(r, s, LEDGER_SCALE as nat);
        }
        r
    }

    /// This ledger amount less `other`, where the ledger can hold it.
    pub fn minus(&self, other: &Amount) -> (r: Amount)
        requires
            self.in_ledger(),
            other.in_ledger(),
            fits(self.units() - other.units()),
        ensures
            r.in_ledger(),
            r.units() == self.units() - other.units(),
    {
        proof {
            let s = wider_scale(*self, *other);
            let p = pow10((LEDGER_SCALE - s) as nat);
            lemma_rescale(*self, s, LEDGER_SCALE as nat);
            lemma_rescale(*other, s, LEDGER_SCALE as nat);
            lemma_pow10_positive((LEDGER_SCALE - s) as nat);
            lemma_fits_factor(self.at_scale(s), p);
            lemma_fits_factor(other.at_scale(s), p);
            lemma_distribute_difference(self.at_scale(s), other.at_scale(s), p);
            lemma_fits_factor(self.at_scale(s) - other.at_scale(s), p);
        }
        let r = decimal_checked_sub(*self, *other).unwrap();
        proof {
            let s = wider_scale(*self, *other);
            lemma_rescale(r, s, LEDGER_SCALE as nat);
        }
        r
    }

    /// The amount in ten-thousandths.
    pub fn to_units(&self) -> (u: i128)
        requires
            self.scale() <= LEDGER_SCALE,
        ensures
            u == self.units(),
    {
        proof {
            use_type_invariant(self);
            reveal_with_fuel(pow10, 5);
        }
        if self.scale == 0 {
            self.mantissa * 10000
        } else if self.scale == 1 {
            self.mantissa * 1000
        } else if self.scale == 2 {
            self.mantissa * 100
        } else if self.scale == 3 {
            self.mantissa * 10
        } else {
            self.mantissa
        }
    }

    /// Whether the ledger can hold this amount.
    pub fn fits_ledger(&self) -> (r: bool)
        ensures
            r == self.in_ledger(),
    {
        proof {
            use_type_invariant(self);
        }
        if self.scale > LEDGER_SCALE {
            return false;
        }
        let u: i128 = self.to_units();
        -MANTISSA_LIMIT < u && u < MANTISSA_LIMIT
    }

    /// Whether the ledger can hold the sum of this amount and `other`.
    pub fn sum_fits_ledger(&self, other: &Amount) -> (r: bool)
        requires
            self.scale() <= LEDGER_SCALE,
            other.scale() <= LEDGER_SCALE,
        ensures
            r == fits(self.units() + other.units()),
    {
        proof {
            use_type_invariant(self);
            use_type_invariant(other);
            lemma_units_by_scale(*self);
            lemma_units_by_scale(*other);
        }
        let sum: i128 = self.to_units() + other.to_units();
        -MANTISSA_LIMIT < sum && sum < MANTISSA_LIMIT
    }

    /// Whether the ledger can hold this amount less `other`.
    pub fn difference_fits_ledger(&self, other: &Amount) -> (r: bool)
        requires
            self.scale() <= LEDGER_SCALE,
            other.scale() <= LEDGER_SCALE,
        ensures
            r == fits(self.units() - other.units()),
    {
        proof {
            use_type_invariant(self);
            use_type_invariant(other);
            lemma_units_by_scale(*self);
            lemma_units_by_scale(*other);
        }
        let difference: i128 = self.to_units() - other.to_units();
        -MANTISSA_LIMIT < difference && difference < MANTISSA_LIMIT
    }

    /// The amount written with exactly four fractional digits, as the final
    /// snapshot shows it. The amount must be short enough to be written so;
    /// every amount that the ledger can hold is
    /// ([`lemma_ledger_amount_text_fits`]).
    pub fn to_string_4dp(&self) -> (r: String)
        requires
            self.text_fits(LEDGER_SCALE as nat),
        ensures
            r@ == self.text_4dp(),
            self.scale() <= LEDGER_SCALE ==> r@ == ledger_text(self.units()),
    {
        proof {
            use_type_invariant(self);
            if self.scale() <= LEDGER_SCALE {
                lemma_text_4dp_of_ledger_amount(*self);
            }
        }
        decimal_format(*self, LEDGER_SCALE as usize)
    }

    /// The amount as `rust_decimal` writes it: with as many fractional digits
    /// as its scale says.
    pub fn to_string(&self) -> (r: String)
        ensures
            r@ == self.text(),
    {
        proof {
            use_type_invariant(self);
            lemma_own_text_fits(*self);
        }
        decimal_format(*self, self.scale as usize)
    }
}

/// Every power of ten is at least one.
pub proof fn lemma_pow10_positive(n: nat)
    ensures
        pow10(n) >= 1,
    decreases n,
{
    if n > 0 {
        lemma_pow10_positive((n - 1) as nat);
    }
}

/// Powers of ten multiply as their exponents add.
pub proof fn lemma_pow10_sum(x: nat, y: nat)
    ensures
        pow10(x + y) == pow10(x) * pow10(y),
    decreases x,
{
    if x > 0 {
        lemma_pow10_sum((x - 1) as nat, y);
        assert(pow10(x + y) == 10 * pow10(((x - 1) as nat) + y));
        assert(10 * (pow10((x - 1) as nat) * pow10(y)) == (10 * pow10((x - 1) as nat)) * pow10(y))
            by (nonlinear_arith);
    }
}

/// Writing an amount with more fractional digits multiplies its mantissa by
/// a power of ten.
pub proof fn lemma_rescale(a: Amount, s: nat, t: nat)
    requires
        a.scale() <= s <= t,
    ensures
        a.at_scale(t) == a.at_scale(s) * pow10((t - s) as nat),
{
    let x = (s - a.scale()) as nat;
    let y = (t - s) as nat;
    lemma_pow10_sum(x, y);
    assert(x + y == (t - a.scale()) as nat);
    assert(a.mantissa() * (pow10(x) * pow10(y)) == (a.mantissa() * pow10(x)) * pow10(y))
        by (nonlinear_arith);
}

proof fn lemma_fits_factor(x: int, p: int)
    by (nonlinear_arith)
    requires
        p >= 1,
        fits(x * p),
    ensures
        fits(x),
{
}

proof fn lemma_distribute(x: int, y: int, p: int)
    by (nonlinear_arith)
    ensures
        (x + y) * p == x * p + y * p,
{
}

proof fn lemma_distribute_difference(x: int, y: int, p: int)
    by (nonlinear_arith)
    ensures
        (x - y) * p == x * p - y * p,
{
}

proof fn lemma_scaling_keeps_order(x: int, y: int, p: int)
    by (nonlinear_arith)
    requires
        p >= 1,
    ensures
        (x < y) == (x * p < y * p),
{
}

/// The four-digit text of a ledger amount is its number of ten-thousandths
/// written with four fractional digits.
pub proof fn lemma_text_4dp_of_ledger_amount(a: Amount)
    requires
        a.scale() <= LEDGER_SCALE,
    ensures
        a.text_4dp() == ledger_text(a.units()),
        magnitude_of(a.mantissa() as int) / pow10(a.scale() as nat) == magnitude_of(a.units())
            / 10000,
{
    reveal_with_fuel(pow10, 5);
    lemma_units_by_scale(a);
    let m = a.mantissa() as int;
    let magnitude = if m < 0 {
        -m
    } else {
        m
    };
    let units_magnitude = if a.units() < 0 {
        -a.units()
    } else {
        a.units()
    };
    let s = a.scale() as nat;
    let whole = magnitude / pow10(s);
    let rest = (magnitude % pow10(s)) as nat;
    lemma_digits_of_multiples(rest, s);
    lemma_digits_are_digits(rest, s);
    if s == 0 {
        assert(units_magnitude == 10000 * magnitude);
        assert(pow10(s) == 1);
        assert(whole == magnitude && rest == 0);
        assert(units_magnitude / 10000 == whole && units_magnitude % 10000 == 10000 * rest);
    } else if s == 1 {
        assert(units_magnitude == 1000 * magnitude);
        assert(pow10(s) == 10);
        assert(whole == magnitude / 10 && rest == magnitude % 10);
        assert(magnitude == 10 * whole + rest);
        assert(units_magnitude == 10000 * whole + 1000 * rest);
        assert(units_magnitude / 10000 == whole && units_magnitude % 10000 == 1000 * rest);
    } else if s == 2 {
        assert(units_magnitude == 100 * magnitude);
        assert(pow10(s) == 100);
        assert(whole == magnitude / 100 && rest == magnitude % 100);
        assert(magnitude == 100 * whole + rest);
        assert(units_magnitude == 10000 * whole + 100 * rest);
        assert(units_magnitude / 10000 == whole && units_magnitude % 10000 == 100 * rest);
    } else if s == 3 {
        assert(units_magnitude == 10 * magnitude);
        assert(pow10(s) == 1000);
        assert(whole == magnitude / 1000 && rest == magnitude % 1000);
        assert(magnitude == 1000 * whole + rest);
        assert(units_magnitude == 10000 * whole + 10 * rest);
        assert(units_magnitude / 10000 == whole && units_magnitude % 10000 == 10 * rest);
    } else {
        assert(units_magnitude == magnitude);
        assert(pow10(s) == 10000);
        assert(units_magnitude / 10000 == whole && units_magnitude % 10000 == rest);
    }
    let fraction = digits(rest, s) + zeros((4 - s) as nat);
    assert(fraction == digits((units_magnitude % 10000) as nat, 4));
    lemma_digits_are_digits((units_magnitude % 10000) as nat, 4);
    assert(fraction.take(4) =~= fraction);
}

/// The magnitude of a number.
pub open spec fn magnitude_of(x: int) -> int {
    if x < 0 {
        -x
    } else {
        x
    }
}

/// Every amount can be written with as many fractional digits as its scale
/// says.
pub proof fn lemma_own_text_fits(a: Amount)
    requires
        a.wf(),
    ensures
        a.text_fits(a.scale() as nat),
{
    let s = a.scale() as nat;
    let magnitude = magnitude_of(a.mantissa() as int);
    let whole = magnitude / pow10(s);
    let k = (29 - s) as nat;
    lemma_pow10_positive(s);
    lemma_pow10_sum(s, k);
    assert(pow10(29) == 100_000_000_000_000_000_000_000_000_000) by {
        reveal_with_fuel(pow10, 30);
    }
    vstd::arithmetic::div_mod::lemma_fundamental_div_mod(magnitude, pow10(s));
    vstd::arithmetic::div_mod::lemma_mod_bound(magnitude, pow10(s));
    lemma_quotient_below(whole, pow10(s), magnitude, pow10(k));
    vstd::arithmetic::div_mod::lemma_div_pos_is_pos(magnitude, pow10(s));
    lemma_number_text_length(whole as nat, k);
}

proof fn lemma_quotient_below(w: int, p: int, m: int, q: int)
    by (nonlinear_arith)
    requires
        p > 0,
        p * w <= m,
        m < p * q,
    ensures
        w < q,
{
}

/// Every amount that the ledger can hold can be written with four
/// fractional digits.
pub proof fn lemma_ledger_amount_text_fits(a: Amount)
    requires
        a.in_ledger(),
    ensures
        a.text_fits(LEDGER_SCALE as nat),
{
    lemma_text_4dp_of_ledger_amount(a);
    let whole = magnitude_of(a.units()) / 10000;
    assert(pow10(25) == 10_000_000_000_000_000_000_000_000) by {
        reveal_with_fuel(pow10, 26);
    }
    assert(0 <= whole < pow10(25));
    lemma_number_text_length(whole as nat, 25);
}

/// The four-digit text ends in a point and four digits, whatever the amount.
pub proof fn lemma_text_4dp_has_four_fractional_digits(a: Amount)
    requires
        a.wf(),
    ensures
        a.text_4dp().len() >= 6,
        a.text_4dp()[a.text_4dp().len() - 5] == '.',
        forall|i: int|
            a.text_4dp().len() - 4 <= i < a.text_4dp().len() ==> is_digit(
                #[trigger] a.text_4dp()[i],
            ),
{
    let m = a.mantissa() as int;
    let s = a.scale() as nat;
    let magnitude = if m < 0 {
        -m
    } else {
        m
    };
    let sign: Seq<char> = if m < 0 {
        seq!['-']
    } else {
        Seq::empty()
    };
    let whole = number_text((magnitude / pow10(s)) as nat);
    let rest = (magnitude % pow10(s)) as nat;
    let fraction = digits(rest, s) + zeros((4 - s) as nat);
    lemma_number_text_is_not_empty((magnitude / pow10(s)) as nat);
    lemma_digits_are_digits(rest, s);
    assert(is_digit('0')) by {
        assert(digit(0) == '0');
    }
    let four = fraction.take(4);
    assert(four.len() == 4);
    assert forall|i: int| 0 <= i < 4 implies is_digit(#[trigger] four[i]) by {
        if i < s {
            assert(four[i] == digits(rest, s)[i]);
        } else {
            assert(four[i] == '0');
        }
    }
    let front = sign + whole + seq!['.'];
    let text = a.text_4dp();
    assert(text == front + four);
    assert(text.len() == front.len() + 4);
    assert(text[text.len() - 5] == '.');
    assert forall|i: int| text.len() - 4 <= i < text.len() implies is_digit(#[trigger] text[i]) by {
        assert(text[i] == four[i - front.len()]);
    }
}

/// The least number of fractional digits with which `units` ten-thousandths
/// can be written.
pub open spec fn least_scale(units: int) -> nat {
    if units % 10000 == 0 {
        0
    } else if units % 1000 == 0 {
        1
    } else if units % 100 == 0 {
        2
    } else if units % 10 == 0 {
        3
    } else {
        4
    }
}

/// A number that ten does not divide, times a thousand, is a multiple of a
/// thousand and not of ten thousand.
proof fn lemma_least_scale_one(m: int)
    requires
        m % 10 != 0,
    ensures
        least_scale(1000 * m) == 1,
{
    let q = m / 10;
    let r = m % 10;
    assert(m == 10 * q + r && 0 < r < 10);
    assert(1000 * m == 10000 * q + 1000 * r);
    assert((1000 * m) % 10000 == 1000 * r);
    assert((1000 * m) % 1000 == 0);
}

/// A number that ten does not divide, times a hundred, is a multiple of a
/// hundred and not of a thousand.
proof fn lemma_least_scale_two(m: int)
    requires
        m % 10 != 0,
    ensures
        least_scale(100 * m) == 2,
{
    let q = m / 10;
    let r = m % 10;
    assert(m == 10 * q + r && 0 < r < 10);
    assert(100 * m == 1000 * q + 100 * r);
    assert((100 * m) % 1000 == 100 * r);
    assert((100 * m) % 10000 != 0) by {
        if (100 * m) % 10000 == 0 {
            let k = (100 * m) / 10000;
            assert(100 * m == 1000 * (10 * k));
            assert((100 * m) % 1000 == 0);
        }
    }
    assert((100 * m) % 100 == 0);
}

/// A number that ten does not divide, times ten, is a multiple of ten and
/// not of a hundred.
proof fn lemma_least_scale_three(m: int)
    requires
        m % 10 != 0,
    ensures
        least_scale(10 * m) == 3,
{
    let q = m / 10;
    let r = m % 10;
    assert(m == 10 * q + r && 0 < r < 10);
    assert(10 * m == 100 * q + 10 * r);
    assert((10 * m) % 100 == 10 * r);
    assert((10 * m) % 1000 != 0) by {
        if (10 * m) % 1000 == 0 {
            let k = (10 * m) / 1000;
            assert(10 * m == 100 * (10 * k));
            assert((10 * m) % 100 == 0);
        }
    }
    assert((10 * m) % 10000 != 0) by {
        if (10 * m) % 10000 == 0 {
            let k = (10 * m) / 10000;
            assert(10 * m == 100 * (100 * k));
            assert((10 * m) % 100 == 0);
        }
    }
    assert((10 * m) % 10 == 0);
}

/// A number that ten does not divide is no multiple of a hundred, of a
/// thousand or of ten thousand.
proof fn lemma_least_scale_four(m: int)
    requires
        m % 10 != 0,
    ensures
        least_scale(m) == 4,
{
    assert(m % 100 != 0) by {
        if m % 100 == 0 {
            let k = m / 100;
            assert(m == 10 * (10 * k));
            assert(m % 10 == 0);
        }
    }
    assert(m % 1000 != 0) by {
        if m % 1000 == 0 {
            let k = m / 1000;
            assert(m == 10 * (100 * k));
            assert(m % 10 == 0);
        }
    }
    assert(m % 10000 != 0) by {
        if m % 10000 == 0 {
            let k = m / 10000;
            assert(m == 10 * (1000 * k));
            assert(m % 10 == 0);
        }
    }
}

/// A ledger amount without trailing zeros has the least scale that its
/// number of ten-thousandths allows.
pub proof fn lemma_canonical_scale(a: Amount)
    requires
        a.scale() <= LEDGER_SCALE,
        a.is_canonical(),
    ensures
        a.scale() == least_scale(a.units()),
{
    lemma_units_by_scale(a);
    let m = a.mantissa() as int;
    if a.scale() == 0 {
        assert(a.units() == 10000 * m);
        assert((10000 * m) % 10000 == 0);
    } else if a.scale() == 1 {
        assert(a.units() == 1000 * m);
        lemma_least_scale_one(m);
    } else if a.scale() == 2 {
        assert(a.units() == 100 * m);
        lemma_least_scale_two(m);
    } else if a.scale() == 3 {
        assert(a.units() == 10 * m);
        lemma_least_scale_three(m);
    } else {
        assert(a.units() == m);
        lemma_least_scale_four(m);
    }
}

/// Two ledger amounts without trailing zeros that count the same number of
/// ten-thousandths are the same amount.
pub proof fn lemma_canonical_unique(a: Amount, b: Amount)
    requires
        a.scale() <= LEDGER_SCALE,
        b.scale() <= LEDGER_SCALE,
        a.is_canonical(),
        b.is_canonical(),
        a.units() == b.units(),
    ensures
        a == b,
{
    lemma_canonical_scale(a);
    lemma_canonical_scale(b);
    lemma_units_by_scale(a);
    lemma_units_by_scale(b);
}

/// The ten-thousandths of an amount, scale by scale.
pub proof fn lemma_units_by_scale(a: Amount)
    requires
        a.scale() <= LEDGER_SCALE,
    ensures
        a.scale() == 0 ==> a.units() == a.mantissa() * 10000,
        a.scale() == 1 ==> a.units() == a.mantissa() * 1000,
        a.scale() == 2 ==> a.units() == a.mantissa() * 100,
        a.scale() == 3 ==> a.units() == a.mantissa() * 10,
        a.scale() == 4 ==> a.units() == a.mantissa(),
{
    reveal_with_fuel(pow10, 5);
}

} // verus!
