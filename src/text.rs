//! Decimal text of whole numbers, amounts and flags, as the summary table
//! writes them.
use crate::currency::abs;
use vstd::prelude::*;

verus! {

/// The character of the decimal digit `d`.
pub open spec fn digit_char(d: int) -> char {
    if d == 0 {
        '0'
    } else if d == 1 {
        '1'
    } else if d == 2 {
        '2'
    } else if d == 3 {
        '3'
    } else if d == 4 {
        '4'
    } else if d == 5 {
        '5'
    } else if d == 6 {
        '6'
    } else if d == 7 {
        '7'
    } else if d == 8 {
        '8'
    } else {
        '9'
    }
}

/// `n` in decimal, without leading zeros.
pub open spec fn decimal_text(n: nat) -> Seq<char>
    decreases n,
{
    if n < 10 {
        seq![digit_char(n as int)]
    } else {
        decimal_text(n / 10).push(digit_char((n % 10) as int))
    }
}

/// An amount of `units` ten-thousandths written with exactly four fractional
/// digits, with a leading `-` where it is negative.
pub open spec fn fixed4_text(units: int) -> Seq<char> {
    let m = abs(units);
    let sign = if units < 0 {
        seq!['-']
    } else {
        Seq::<char>::empty()
    };
    sign + decimal_text((m / 10000) as nat) + seq!['.'] + seq![
        digit_char(m / 1000 % 10),
        digit_char(m / 100 % 10),
        digit_char(m / 10 % 10),
        digit_char(m % 10),
    ]
}

/// `true` or `false`.
pub open spec fn bool_text(b: bool) -> Seq<char> {
    if b {
        "true"@
    } else {
        "false"@
    }
}

fn digit_str(d: u128) -> (r: &'static str)
    requires
        d < 10,
    ensures
        r@ == seq![digit_char(d as int)],
{
    proof {
        reveal_strlit("0");
        reveal_strlit("1");
        reveal_strlit("2");
        reveal_strlit("3");
        reveal_strlit("4");
        reveal_strlit("5");
        reveal_strlit("6");
        reveal_strlit("7");
        reveal_strlit("8");
        reveal_strlit("9");
    }
    if d == 0 {
        "0"
    } else if d == 1 {
        "1"
    } else if d == 2 {
        "2"
    } else if d == 3 {
        "3"
    } else if d == 4 {
        "4"
    } else if d == 5 {
        "5"
    } else if d == 6 {
        "6"
    } else if d == 7 {
        "7"
    } else if d == 8 {
        "8"
    } else {
        "9"
    }
}

/// Appends `n` in decimal to `s`.
pub fn push_decimal(s: &mut String, n: u128)
    ensures
        final(s)@ == old(s)@ + decimal_text(n as nat),
    decreases n,
{
    if n >= 10 {
        push_decimal(s, n / 10);
    }
    s.append(digit_str(n % 10));
    assert(final(s)@ =~= old(s)@ + decimal_text(n as nat));
}

/// Appends an amount of `units` ten-thousandths to `s`, with four fractional
/// digits.
pub fn push_fixed4(s: &mut String, units: i128)
    ensures
        final(s)@ == old(s)@ + fixed4_text(units as int),
{
    let negative = units < 0;
    let m: u128 = if negative {
        (-(units + 1)) as u128 + 1
    } else {
        units as u128
    };
    assert(m == abs(units as int));
    if negative {
        s.append("-");
    }
    push_decimal(s, m / 10000);
    s.append(".");
    s.append(digit_str(m / 1000 % 10));
    s.append(digit_str(m / 100 % 10));
    s.append(digit_str(m / 10 % 10));
    s.append(digit_str(m % 10));
    proof {
        reveal_strlit("-");
        reveal_strlit(".");
    }
    assert(final(s)@ =~= old(s)@ + fixed4_text(units as int));
}

/// Appends `true` or `false` to `s`.
pub fn push_bool(s: &mut String, b: bool)
    ensures
        final(s)@ == old(s)@ + bool_text(b),
{
    if b {
        s.append("true");
    } else {
        s.append("false");
    }
}

} // verus!
