//! Numbers in decimal text.

use vstd::prelude::*;
use vstd::string::StringExecFns;
use crate::hexcode::hex_digit;

verus! {

/// The decimal digits of a natural number, without leading zeros.
pub open spec fn digits(n: nat) -> Seq<char>
    decreases n,
{
    if n < 10 {
        seq![hex_digit(n as int)]
    } else {
        digits(n / 10).push(hex_digit((n % 10) as int))
    }
}

/// The decimal text of an integer.
pub open spec fn decimal(i: int) -> Seq<char> {
    if i < 0 {
        seq!['-'] + digits((-i) as nat)
    } else {
        digits(i as nat)
    }
}

/// The last `width` decimal digits of `n`, with leading zeros.
pub open spec fn padded(n: nat, width: nat) -> Seq<char>
    decreases width,
{
    if width == 0 {
        seq![]
    } else {
        padded(n / 10, (width - 1) as nat).push(hex_digit((n % 10) as int))
    }
}

/// The digits of the fraction `n / 10^width`, without trailing zeros but with
/// at least one digit.
pub open spec fn fraction(n: nat, width: nat) -> Seq<char>
    decreases width,
{
    if width <= 1 {
        seq![hex_digit((n % 10) as int)]
    } else if n % 10 == 0 {
        fraction(n / 10, (width - 1) as nat)
    } else {
        padded(n, width)
    }
}

/// The text of an amount of energy given in millionths of a kilowatt-hour:
/// the kilowatt-hours in fixed notation, with the fewest digits that still
/// show a fraction.
pub open spec fn kwh_text(micro: int) -> Seq<char> {
    let magnitude = if micro < 0 {
        (-micro) as nat
    } else {
        micro as nat
    };
    let sign = if micro < 0 {
        seq!['-']
    } else {
        seq![]
    };
    sign + digits(magnitude / 1_000_000) + seq!['.'] + fraction(magnitude % 1_000_000, 6)
}

/// The text of one decimal digit.
fn digit_text(d: u8) -> (text: &'static str)
    requires
        d < 10,
    ensures
        text@ == seq![hex_digit(d as int)],
{
    proof {
        reveal_strlit("0");
        reveal_strlit("1");
        reveal_strlit("2");
        reveal_strlit("3");
        reveal_strlit("4");
        reveal_strlit("5");
        reveal_strlit("6");
        reveal_strlit("7");
        reveal_strlit("8");
        reveal_strlit("9");
    }
    let text = if d == 0 {
        "0"
    } else if d == 1 {
        "1"
    } else if d == 2 {
        "2"
    } else if d == 3 {
        "3"
    } else if d == 4 {
        "4"
    } else if d == 5 {
        "5"
    } else if d == 6 {
        "6"
    } else if d == 7 {
        "7"
    } else if d == 8 {
        "8"
    } else {
        "9"
    };
    assert(text@ =~= seq![hex_digit(d as int)]);
    text
}

/// Appends the decimal digits of `n`.
fn push_digits(out: &mut String, n: u128)
    ensures
        final(out)@ == old(out)@ + digits(n as nat),
    decreases n,
{
    if n >= 10 {
        push_digits(out, n / 10);
    }
    out.append(digit_text((n % 10) as u8));
    proof {
        assert(final(out)@ =~= old(out)@ + digits(n as nat));
    }
}

/// Appends the last `width` decimal digits of `n`, with leading zeros.
fn push_padded(out: &mut String, n: u128, width: u8)
    ensures
        final(out)@ == old(out)@ + padded(n as nat, width as nat),
    decreases width,
{
    if width > 0 {
        push_padded(out, n / 10, width - 1);
        out.append(digit_text((n % 10) as u8));
    }
    proof {
        assert(final(out)@ =~= old(out)@ + padded(n as nat, width as nat));
    }
}

/// Appends the digits of the fraction `n / 10^width`.
fn push_fraction(out: &mut String, n: u128, width: u8)
    ensures
        final(out)@ == old(out)@ + fraction(n as nat, width as nat),
    decreases width,
{
    if width <= 1 {
        out.append(digit_text((n % 10) as u8));
        proof {
            assert(final(out)@ =~= old(out)@ + fraction(n as nat, width as nat));
        }
    } else if n % 10 == 0 {
        push_fraction(out, n / 10, width - 1);
    } else {
        push_padded(out, n, width);
    }
}

/// The absolute value of `i`.
fn magnitude(i: i128) -> (m: u128)
    ensures
        m == if i < 0 {
            -i
        } else {
            i as int
        },
{
    if i < 0 {
        (-(i + 1)) as u128 + 1
    } else {
        i as u128
    }
}

/// The decimal text of `i`.
pub fn decimal_string(i: i128) -> (text: String)
    ensures
        text@ == decimal(i as int),
{
    let mut text = String::new();
    if i < 0 {
        proof {
            reveal_strlit("-");
        }
        text.append("-");
    }
    push_digits(&mut text, magnitude(i));
    proof {
        assert(text@ =~= decimal(i as int));
    }
    text
}

/// The text of an amount of energy given in millionths of a kilowatt-hour.
pub fn kwh_string(micro: i128) -> (text: String)
    ensures
        text@ == kwh_text(micro as int),
{
    let mut text = String::new();
    let amount = magnitude(micro);
    proof {
        reveal_strlit("-");
        reveal_strlit(".");
    }
    if micro < 0 {
        text.append("-");
    }
    push_digits(&mut text, amount / 1_000_000);
    text.append(".");
    push_fraction(&mut text, amount % 1_000_000, 6);
    proof {
        assert(text@ =~= kwh_text(micro as int));
    }
    text
}

} // verus!
