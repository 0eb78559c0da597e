//! Fixed-point money and measure handling.
//!
//! Monetary amounts are stored as integer cents and mileage and hour figures
//! as integer hundredths; arithmetic stays on the integers, and a value is
//! turned into its two-decimal display string only at presentation time. The
//! inverse direction, client text to cents, goes through an exact decimal
//! parser of an outside crate.

use vstd::prelude::*;
use vstd::string::StringExecFns;

use crate::errors::CustomError;
use rust_decimal::prelude::ToPrimitive;

verus! {

/// The decimal digit character for `d`.
pub open spec fn digit_char(d: int) -> char {
    if d == 0 {
        '0'
    } else if d == 1 {
        '1'
    } else if d == 2 {
        '2'
    } else if d == 3 {
        '3'
    } else if d == 4 {
        '4'
    } else if d == 5 {
        '5'
    } else if d == 6 {
        '6'
    } else if d == 7 {
        '7'
    } else if d == 8 {
        '8'
    } else {
        '9'
    }
}

pub open spec fn is_digit(c: char) -> bool {
    '0' as u32 <= c as u32 <= '9' as u32
}

/// The numeric value of a digit character.
pub open spec fn digit_val(c: char) -> int {
    c as u32 - '0' as u32
}

pub open spec fn all_digits(s: Seq<char>) -> bool {
    forall|i: int| 0 <= i < s.len() ==> is_digit(#[trigger] s[i])
}

/// The value of a digit string read left to right.
pub open spec fn digits_val(s: Seq<char>) -> int
    decreases s.len(),
{
    if s.len() == 0 {
        0
    } else {
        digits_val(s.drop_last()) * 10 + digit_val(s.last())
    }
}

/// The shortest decimal numeral of `n`: no leading zero except for zero
/// itself.
pub open spec fn dec_digits(n: nat) -> Seq<char>
    decreases n,
{
    if n < 10 {
        seq![digit_char(n as int)]
    } else {
        dec_digits(n / 10).push(digit_char((n % 10) as int))
    }
}

/// A plain decimal numeral with up to two decimal places: a nonempty digit
/// run alone, or followed by a point and one or two digits. These are the
/// forms whose cent value the contracts pin exactly.
pub open spec fn is_plain_decimal(s: Seq<char>) -> bool {
    ||| (s.len() >= 1 && all_digits(s))
    ||| (s.len() >= 3 && all_digits(s.subrange(0, s.len() - 2)) && s[s.len() - 2] == '.'
        && is_digit(s[s.len() - 1]))
    ||| is_canonical_money(s)
}

/// The cents a plain decimal numeral denotes: one hundred times its value.
pub open spec fn plain_decimal_cents(s: Seq<char>) -> int {
    if s.len() >= 1 && all_digits(s) {
        digits_val(s) * 100
    } else if s.len() >= 3 && all_digits(s.subrange(0, s.len() - 2)) && s[s.len() - 2] == '.' {
        digits_val(s.subrange(0, s.len() - 2)) * 100 + digit_val(s[s.len() - 1]) * 10
    } else {
        money_value_of(s)
    }
}

/// A canonical money string: a nonempty digit run, a point, and exactly two
/// digits of cents. This is the shape the library itself prints.
pub open spec fn is_canonical_money(s: Seq<char>) -> bool {
    &&& s.len() >= 4
    &&& all_digits(s.subrange(0, s.len() - 3))
    &&& s[s.len() - 3] == '.'
    &&& is_digit(s[s.len() - 2])
    &&& is_digit(s[s.len() - 1])
}

/// The cents encoded by a canonical money string.
pub open spec fn money_value_of(s: Seq<char>) -> int {
    digits_val(s.subrange(0, s.len() - 3)) * 100 + digit_val(s[s.len() - 2]) * 10 + digit_val(
        s[s.len() - 1],
    )
}

/// The display string of a non-negative amount of cents: whole units, a
/// point, two cent digits.
pub open spec fn money_string(cents: int) -> Seq<char> {
    dec_digits((cents / 100) as nat) + seq!['.', digit_char(cents % 100 / 10), digit_char(
        cents % 10,
    )]
}

/// The display string of a signed amount of hundredths.
pub open spec fn signed_hundredths_string(n: int) -> Seq<char> {
    if n < 0 {
        seq!['-'] + money_string(-n)
    } else {
        money_string(n)
    }
}

/// A digit string's value is non-negative.
pub proof fn lemma_digits_val_nonneg(t: Seq<char>)
    requires
        all_digits(t),
    ensures
        digits_val(t) >= 0,
    decreases t.len(),
{
    if t.len() > 0 {
        assert(is_digit(t[t.len() - 1]));
        assert forall|x: int| 0 <= x < t.drop_last().len() implies is_digit(
            #[trigger] t.drop_last()[x],
        ) by {
            assert(t.drop_last()[x] == t[x]);
        }
        lemma_digits_val_nonneg(t.drop_last());
    }
}

/// A canonical money string encodes a non-negative amount.
pub proof fn lemma_money_value_nonneg(s: Seq<char>)
    requires
        is_canonical_money(s),
    ensures
        money_value_of(s) >= 0,
{
    lemma_digits_val_nonneg(s.subrange(0, s.len() - 3));
}

/// A plain decimal numeral encodes a non-negative amount, and a canonical
/// money string denotes the same cents under both readings.
pub proof fn lemma_plain_decimal_cents(s: Seq<char>)
    requires
        is_plain_decimal(s),
    ensures
        plain_decimal_cents(s) >= 0,
        is_canonical_money(s) ==> plain_decimal_cents(s) == money_value_of(s),
{
    if s.len() >= 1 && all_digits(s) {
        lemma_digits_val_nonneg(s);
        if is_canonical_money(s) {
            assert(is_digit(s[s.len() - 3]));
        }
    } else if s.len() >= 3 && all_digits(s.subrange(0, s.len() - 2)) && s[s.len() - 2] == '.' {
        lemma_digits_val_nonneg(s.subrange(0, s.len() - 2));
        if is_canonical_money(s) {
            assert(is_digit(s.subrange(0, s.len() - 2)[s.len() - 3]));
        }
    } else {
        lemma_money_value_nonneg(s);
    }
}

pub proof fn lemma_dec_digits_val(n: nat)
    ensures
        all_digits(dec_digits(n)),
        digits_val(dec_digits(n)) == n,
        dec_digits(n).len() >= 1,
    decreases n,
{
    if n < 10 {
        let s = dec_digits(n);
        assert(s.drop_last() =~= Seq::<char>::empty());
        assert(digits_val(s.drop_last()) == 0);
        assert(s.last() == digit_char(n as int));
        assert(digit_val(digit_char(n as int)) == n);
        assert(digits_val(s) == n);
    } else {
        lemma_dec_digits_val(n / 10);
        let s = dec_digits(n);
        assert(s.drop_last() =~= dec_digits(n / 10));
        assert forall|i: int| 0 <= i < s.len() implies is_digit(#[trigger] s[i]) by {
            if i < s.len() - 1 {
                assert(s[i] == dec_digits(n / 10)[i]);
            }
        }
    }
}

/// Printing cents and reading the string back yields the cents unchanged,
/// for every amount that two decimal places can carry.
pub proof fn lemma_money_round_trip(cents: int)
    requires
        cents >= 0,
    ensures
        is_canonical_money(money_string(cents)),
        money_value_of(money_string(cents)) == cents,
{
    let whole = (cents / 100) as nat;
    let d = dec_digits(whole);
    lemma_dec_digits_val(whole);
    let s = money_string(cents);
    assert(s.subrange(0, s.len() - 3) =~= d);
    assert(s[s.len() - 3] == '.');
    assert(s[s.len() - 2] == digit_char(cents % 100 / 10));
    assert(s[s.len() - 1] == digit_char(cents % 10));
    assert(digit_val(digit_char(cents % 100 / 10)) == cents % 100 / 10);
    assert(digit_val(digit_char(cents % 10)) == cents % 10);
    assert(cents % 100 / 10 * 10 + cents % 10 == cents % 100) by {
        assert(cents % 100 % 10 == cents % 10) by (nonlinear_arith)
            requires
                cents >= 0,
        ;
        assert(cents % 100 / 10 * 10 + cents % 100 % 10 == cents % 100) by (nonlinear_arith)
            requires
                cents >= 0,
        ;
    }
    assert(cents / 100 * 100 + cents % 100 == cents);
}

/// Appends the digit character of `d`.
pub(crate) fn append_digit(s: &mut String, d: u8)
    requires
        d < 10,
    ensures
        final(s)@ == old(s)@.push(digit_char(d as int)),
{
    proof {
        reveal_strlit("0");
        reveal_strlit("1");
        reveal_strlit("2");
        reveal_strlit("3");
        reveal_strlit("4");
        reveal_strlit("5");
        reveal_strlit("6");
        reveal_strlit("7");
        reveal_strlit("8");
        reveal_strlit("9");
    }
    match d {
        0 => s.append("0"),
        1 => s.append("1"),
        2 => s.append("2"),
        3 => s.append("3"),
        4 => s.append("4"),
        5 => s.append("5"),
        6 => s.append("6"),
        7 => s.append("7"),
        8 => s.append("8"),
        _ => s.append("9"),
    }
    proof {
        assert(s@ =~= old(s)@.push(digit_char(d as int)));
    }
}

/// Appends the decimal numeral of `n`.
pub(crate) fn append_dec(s: &mut String, n: u64)
    ensures
        final(s)@ == old(s)@ + dec_digits(n as nat),
    decreases n,
{
    if n < 10 {
        append_digit(s, n as u8);
        proof {
            assert(s@ =~= old(s)@ + dec_digits(n as nat));
        }
    } else {
        append_dec(s, n / 10);
        append_digit(s, (n % 10) as u8);
        proof {
            assert(s@ =~= old(s)@ + dec_digits(n as nat));
        }
    }
}

/// The two-decimal display string of a non-negative amount of cents.
pub fn format_cents(cents: i64) -> (r: String)
    requires
        cents >= 0,
    ensures
        r@ == money_string(cents as int),
{
    let mut s = String::new();
    append_dec(&mut s, (cents / 100) as u64);
    s.append(".");
    proof {
        reveal_strlit(".");
    }
    append_digit(&mut s, (cents % 100 / 10) as u8);
    append_digit(&mut s, (cents % 10) as u8);
    proof {
        assert(s@ =~= money_string(cents as int));
    }
    s
}

/// The two-decimal display string of a signed amount of hundredths, used for
/// hours and mileage figures.
pub fn format_hundredths(n: i64) -> (r: String)
    requires
        n > i64::MIN,
    ensures
        r@ == signed_hundredths_string(n as int),
{
    if n < 0 {
        let mut s = String::from_str("-");
        proof {
            reveal_strlit("-");
        }
        let body = format_cents(-n);
        s.append(body.as_str());
        proof {
            assert(s@ =~= signed_hundredths_string(n as int));
        }
        s
    } else {
        format_cents(n)
    }
}

/// The cents that the exact decimal parsing chain yields for a string:
/// `Decimal::from_str_exact`, a checked multiplication by one hundred, and
/// `ToPrimitive::to_i64`, each step absent when it fails. Every step is a
/// function of the string alone.
pub uninterp spec fn decimal_cents_of(s: Seq<char>) -> Option<i64>;

/// Relies on rust_decimal: `Decimal::from_str_exact` parses a decimal
/// numeral into an exact scaled integer, `Decimal::checked_mul` by
/// `Decimal::ONE_HUNDRED` shifts the scale by two digits or reports
/// overflow, and `ToPrimitive::to_i64` returns the integral part when it
/// fits. The chain depends on the string alone; on a plain decimal numeral
/// of up to two decimal places whose cent value fits an `i64` no step fails
/// and the result is exactly one hundred times the value.
#[verifier::external_body]
fn decimal_to_cents(s: &str) -> (r: Option<i64>)
    ensures
        r == decimal_cents_of(s@),
        is_plain_decimal(s@) && plain_decimal_cents(s@) <= i64::MAX ==> r == Some(
            plain_decimal_cents(s@) as i64,
        ),
{
    match rust_decimal::Decimal::from_str_exact(s) {
        Ok(d) => match d.checked_mul(rust_decimal::Decimal::ONE_HUNDRED) {
            Some(x) => x.to_i64(),
            None => None,
        },
        Err(_) => None,
    }
}

/// Parses a client-supplied rate or amount into cents; a string the decimal
/// parsing chain rejects is invalid client data.
pub fn parse_money_cents(s: &str) -> (r: Result<i64, CustomError>)
    ensures
        r == (match decimal_cents_of(s@) {
            Some(v) => Ok::<i64, CustomError>(v),
            None => Err::<i64, CustomError>(CustomError::InvalidClientData),
        }),
        is_plain_decimal(s@) && plain_decimal_cents(s@) <= i64::MAX ==> r == Ok::<
            i64,
            CustomError,
        >(plain_decimal_cents(s@) as i64),
        is_plain_decimal(s@) ==> plain_decimal_cents(s@) >= 0,
{
    proof {
        if is_plain_decimal(s@) {
            lemma_plain_decimal_cents(s@);
        }
    }
    match decimal_to_cents(s) {
        Some(v) => Ok(v),
        None => Err(CustomError::InvalidClientData),
    }
}

} // verus!
