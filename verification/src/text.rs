//! Whole numbers as decimal text.

use crate::amount::pow10;
use vstd::prelude::*;
use vstd::string::StringExecFns;

verus! {

/// The character that stands for the digit `d`.
pub open spec fn digit(d: nat) -> char {
    if d == 0 {
        '0'
    } else if d == 1 {
        '1'
    } else if d == 2 {
        '2'
    } else if d == 3 {
        '3'
    } else if d == 4 {
        '4'
    } else if d == 5 {
        '5'
    } else if d == 6 {
        '6'
    } else if d == 7 {
        '7'
    } else if d == 8 {
        '8'
    } else {
        '9'
    }
}

/// The decimal digits of `n`, without leading zeros.
pub open spec fn number_text(n: nat) -> Seq<char>
    decreases n,
{
    if n < 10 {
        seq![digit(n)]
    } else {
        number_text(n / 10).push(digit(n % 10))
    }
}

/// The last `width` decimal digits of `n`, with zeros in front where `n` has
/// fewer.
pub open spec fn digits(n: nat, width: nat) -> Seq<char>
    decreases width,
{
    if width == 0 {
        Seq::empty()
    } else {
        digits(n / 10, (width - 1) as nat).push(digit(n % 10))
    }
}

/// `count` zeros.
pub open spec fn zeros(count: nat) -> Seq<char> {
    Seq::new(count, |i: int| '0')
}

/// Whether `c` is one of the ten digits.
pub open spec fn is_digit(c: char) -> bool {
    exists|d: nat| d < 10 && c == digit(d)
}

/// `digits` gives as many characters as asked for, each a digit.
pub proof fn lemma_digits_are_digits(n: nat, width: nat)
    ensures
        digits(n, width).len() == width,
        forall|i: int| 0 <= i < width ==> is_digit(#[trigger] digits(n, width)[i]),
    decreases width,
{
    if width > 0 {
        lemma_digits_are_digits(n / 10, (width - 1) as nat);
        let d = n % 10;
        assert(is_digit(digit(d)));
    }
}

/// A number has at least one digit.
pub proof fn lemma_number_text_is_not_empty(n: nat)
    ensures
        number_text(n).len() >= 1,
    decreases n,
{
    if n >= 10 {
        lemma_number_text_is_not_empty(n / 10);
    }
}

/// A number below ten to the power `k` has at most `k` digits.
pub proof fn lemma_number_text_length(n: nat, k: nat)
    requires
        k >= 1,
        n < pow10(k),
    ensures
        number_text(n).len() <= k,
    decreases n,
{
    if n >= 10 {
        if k == 1 {
            assert(pow10(1) == 10) by {
                reveal_with_fuel(pow10, 2);
            }
        }
        assert(pow10(k) == 10 * pow10((k - 1) as nat));
        lemma_number_text_length(n / 10, (k - 1) as nat);
    }
}

/// Ten times a number has the number's digits and a zero behind them.
pub proof fn lemma_digits_of_tenfold(n: nat, width: nat)
    ensures
        digits(10 * n, width + 1) == digits(n, width).push('0'),
{
    assert((10 * n) / 10 == n);
    assert((10 * n) % 10 == 0);
    assert((width + 1 - 1) as nat == width);
}

/// A hundred, a thousand and ten thousand times a number have the number's
/// digits and two, three and four zeros behind them.
pub proof fn lemma_digits_of_multiples(n: nat, width: nat)
    ensures
        digits(100 * n, width + 2) == digits(n, width) + zeros(2),
        digits(1000 * n, width + 3) == digits(n, width) + zeros(3),
        digits(10000 * n, width + 4) == digits(n, width) + zeros(4),
        digits(10 * n, width + 1) == digits(n, width) + zeros(1),
        digits(n, width) == digits(n, width) + zeros(0),
{
    lemma_digits_of_tenfold(n, width);
    lemma_digits_of_tenfold(10 * n, width + 1);
    lemma_digits_of_tenfold(100 * n, width + 2);
    lemma_digits_of_tenfold(1000 * n, width + 3);
    assert(digits(n, width).push('0') =~= digits(n, width) + zeros(1));
    assert(digits(n, width).push('0').push('0') =~= digits(n, width) + zeros(2));
    assert(digits(n, width).push('0').push('0').push('0') =~= digits(n, width) + zeros(3));
    assert(digits(n, width).push('0').push('0').push('0').push('0') =~= digits(n, width) + zeros(
        4,
    ));
    assert(digits(n, width) =~= digits(n, width) + zeros(0));
}

/// The one-character text of a digit.
fn digit_to_str(d: u32) -> (r: &'static str)
    requires
        d < 10,
    ensures
        r@ == seq![digit(d as nat)],
{
    proof {
        reveal_strlit("0");
        reveal_strlit("1");
        reveal_strlit("2");
        reveal_strlit("3");
        reveal_strlit("4");
        reveal_strlit("5");
        reveal_strlit("6");
        reveal_strlit("7");
        reveal_strlit("8");
        reveal_strlit("9");
    }
    let r = if d == 0 {
        "0"
    } else if d == 1 {
        "1"
    } else if d == 2 {
        "2"
    } else if d == 3 {
        "3"
    } else if d == 4 {
        "4"
    } else if d == 5 {
        "5"
    } else if d == 6 {
        "6"
    } else if d == 7 {
        "7"
    } else if d == 8 {
        "8"
    } else {
        "9"
    };
    assert(r@ =~= seq![digit(d as nat)]);
    r
}

/// `n` in decimal digits.
pub fn number_to_string(n: u32) -> (r: String)
    ensures
        r@ == number_text(n as nat),
    decreases n,
{
    if n < 10 {
        String::from_str(digit_to_str(n))
    } else {
        let mut r = number_to_string(n / 10);
        r.append(digit_to_str(n % 10));
        assert(r@ =~= number_text(n as nat));
        r
    }
}

} // verus!
