//! Decimal rendering of the engine's integer quantities: plain decimal
//! numbers, fixed two-decimal amounts (cents and rate hundredths), ISO dates,
//! and digit grouping by thousands.

use vstd::prelude::*;
use vstd::string::*;
use crate::calendar::Date;

verus! {

/// The ASCII digit character for a value between 0 and 9.
pub open spec fn spec_digit(d: int) -> char {
    if d == 0 {
        '0'
    } else if d == 1 {
        '1'
    } else if d == 2 {
        '2'
    } else if d == 3 {
        '3'
    } else if d == 4 {
        '4'
    } else if d == 5 {
        '5'
    } else if d == 6 {
        '6'
    } else if d == 7 {
        '7'
    } else if d == 8 {
        '8'
    } else {
        '9'
    }
}

/// The decimal digits of `n`, most significant first, with no leading zeros
/// (a lone zero for `n == 0`).
pub open spec fn spec_decimal(n: nat) -> Seq<char>
    decreases n,
{
    if n < 10 {
        seq![spec_digit(n as int)]
    } else {
        spec_decimal(n / 10) + seq![spec_digit((n % 10) as int)]
    }
}

/// A value below 100 as exactly two digits, zero-padded.
pub open spec fn spec_two_digits(n: nat) -> Seq<char> {
    seq![spec_digit((n / 10) as int), spec_digit((n % 10) as int)]
}

/// A quantity held in hundredths (cents of a currency unit, or hundredths of
/// a percent) rendered with exactly two decimal places.
pub open spec fn spec_two_decimals(hundredths: nat) -> Seq<char> {
    spec_decimal(hundredths / 100) + seq!['.'] + spec_two_digits(hundredths % 100)
}

/// A year as at least four digits, zero-padded below 1000.
pub open spec fn spec_year(y: nat) -> Seq<char> {
    if y < 10 {
        seq!['0', '0', '0'] + spec_decimal(y)
    } else if y < 100 {
        seq!['0', '0'] + spec_decimal(y)
    } else if y < 1000 {
        seq!['0'] + spec_decimal(y)
    } else {
        spec_decimal(y)
    }
}

/// A date in ISO form: zero-padded four-digit year, two-digit month and
/// two-digit day, separated by hyphens.
pub open spec fn spec_date(d: Date) -> Seq<char> {
    spec_year(d.year as nat) + seq!['-'] + spec_two_digits(d.month as nat) + seq!['-']
        + spec_two_digits(d.day as nat)
}

/// The digit sequence `s` with a separator inserted every three characters,
/// counted from the right.
pub open spec fn spec_grouped(s: Seq<char>, sep: char) -> Seq<char>
    decreases s.len(),
{
    if s.len() <= 3 {
        s
    } else {
        spec_grouped(s.take(s.len() - 3), sep) + seq![sep] + s.skip(s.len() - 3)
    }
}

/// Append the digit character of `d` to `s`.
fn push_digit(s: &mut String, d: u64)
    requires
        d < 10,
    ensures
        final(s)@ == old(s)@ + seq![spec_digit(d as int)],
{
    let piece: &str = if d == 0 {
        "0"
    } else if d == 1 {
        "1"
    } else if d == 2 {
        "2"
    } else if d == 3 {
        "3"
    } else if d == 4 {
        "4"
    } else if d == 5 {
        "5"
    } else if d == 6 {
        "6"
    } else if d == 7 {
        "7"
    } else if d == 8 {
        "8"
    } else {
        "9"
    };
    proof {
        reveal_strlit("0");
        reveal_strlit("1");
        reveal_strlit("2");
        reveal_strlit("3");
        reveal_strlit("4");
        reveal_strlit("5");
        reveal_strlit("6");
        reveal_strlit("7");
        reveal_strlit("8");
        reveal_strlit("9");
    }
    s.append(piece);
    assert(s@ =~= old(s)@ + seq![spec_digit(d as int)]);
}

/// Append the decimal digits of `n` to `s`.
pub fn push_decimal(s: &mut String, n: u64)
    ensures
        final(s)@ == old(s)@ + spec_decimal(n as nat),
    decreases n,
{
    if n < 10 {
        push_digit(s, n);
    } else {
        push_decimal(s, n / 10);
        push_digit(s, n % 10);
        assert(s@ =~= old(s)@ + spec_decimal(n as nat));
    }
}

/// Append `n < 100` as two zero-padded digits to `s`.
pub fn push_two_digits(s: &mut String, n: u64)
    requires
        n < 100,
    ensures
        final(s)@ == old(s)@ + spec_two_digits(n as nat),
{
    push_digit(s, n / 10);
    push_digit(s, n % 10);
    assert(s@ =~= old(s)@ + spec_two_digits(n as nat));
}

/// Append a quantity held in hundredths with exactly two decimal places.
pub fn push_two_decimals(s: &mut String, hundredths: u64)
    ensures
        final(s)@ == old(s)@ + spec_two_decimals(hundredths as nat),
{
    push_decimal(s, hundredths / 100);
    proof {
        reveal_strlit(".");
    }
    s.append(".");
    push_two_digits(s, hundredths % 100);
    assert(s@ =~= old(s)@ + spec_two_decimals(hundredths as nat));
}

/// Append a date in ISO form.
pub fn push_date(s: &mut String, d: Date)
    requires
        d.wf(),
    ensures
        final(s)@ == old(s)@ + spec_date(d),
{
    proof {
        reveal_strlit("0");
        reveal_strlit("00");
        reveal_strlit("000");
        reveal_strlit("-");
    }
    if d.year < 10 {
        s.append("000");
    } else if d.year < 100 {
        s.append("00");
    } else if d.year < 1000 {
        s.append("0");
    }
    push_decimal(s, d.year);
    s.append("-");
    push_two_digits(s, d.month as u64);
    s.append("-");
    push_two_digits(s, d.day as u64);
    assert(s@ =~= old(s)@ + spec_date(d));
}

/// Relies on `thousands::Separable::separate_with_spaces` for `u64`, which
/// formats the number in decimal and inserts a space every three digits from
/// the right (policy `SPACE_SEPARATOR`, groups of three, ASCII digits).
#[verifier::external_body]
pub(crate) fn separate_with_spaces(n: u64) -> (r: String)
    ensures
        r@ == spec_grouped(spec_decimal(n as nat), ' '),
{
    thousands::Separable::separate_with_spaces(&n)
}

} // verus!
