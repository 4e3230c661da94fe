//! Numbers written out as text: whole numbers in decimal, and amounts with a
//! point before the hundredths.

use vstd::prelude::*;
use vstd::string::*;

verus! {

/// The character of a decimal digit.
pub open spec fn digit(d: nat) -> char {
    if d == 0 {
        '0'
    } else if d == 1 {
        '1'
    } else if d == 2 {
        '2'
    } else if d == 3 {
        '3'
    } else if d == 4 {
        '4'
    } else if d == 5 {
        '5'
    } else if d == 6 {
        '6'
    } else if d == 7 {
        '7'
    } else if d == 8 {
        '8'
    } else {
        '9'
    }
}

/// A natural number in decimal, without leading zeros.
pub open spec fn decimal(n: nat) -> Seq<char>
    decreases n,
{
    if n < 10 {
        seq![digit(n)]
    } else {
        decimal(n / 10).push(digit(n % 10))
    }
}

/// An integer in decimal, with a minus sign where it is negative.
pub open spec fn signed_decimal(n: int) -> Seq<char> {
    if n < 0 {
        seq!['-'] + decimal((-n) as nat)
    } else {
        decimal(n as nat)
    }
}

/// An amount of hundredths with two places after the point: `-1234` is
/// written `-12.34`, `5` is written `0.05`.
pub open spec fn amount_text(hundredths: int) -> Seq<char> {
    let m = vstd::math::abs(hundredths) as nat;
    let sign = if hundredths < 0 {
        seq!['-']
    } else {
        Seq::<char>::empty()
    };
    sign + decimal(m / 100) + seq!['.', digit(m / 10 % 10), digit(m % 10)]
}

/// A number of tenths with one place after the point: `1500` is written
/// `150.0`.
pub open spec fn tenths_text(tenths: nat) -> Seq<char> {
    decimal(tenths / 10) + seq!['.', digit(tenths % 10)]
}

/// The text of one digit.
pub(crate) fn digit_text(d: u8) -> (text: &'static str)
    requires
        d < 10,
    ensures
        text@ == seq![digit(d as nat)],
{
    proof {
        reveal_strlit("0");
        reveal_strlit("1");
        reveal_strlit("2");
        reveal_strlit("3");
        reveal_strlit("4");
        reveal_strlit("5");
        reveal_strlit("6");
        reveal_strlit("7");
        reveal_strlit("8");
        reveal_strlit("9");
    }
    let text = if d == 0 {
        "0"
    } else if d == 1 {
        "1"
    } else if d == 2 {
        "2"
    } else if d == 3 {
        "3"
    } else if d == 4 {
        "4"
    } else if d == 5 {
        "5"
    } else if d == 6 {
        "6"
    } else if d == 7 {
        "7"
    } else if d == 8 {
        "8"
    } else {
        "9"
    };
    text
}

/// Appends `n` in decimal to `out`.
pub fn push_decimal(out: &mut String, n: u128)
    ensures
        final(out)@ == old(out)@ + decimal(n as nat),
    decreases n,
{
    if n >= 10 {
        push_decimal(out, n / 10);
    }
    out.append(digit_text((n % 10) as u8));
}

/// Appends an amount of `magnitude` hundredths to `out`, with a minus sign
/// where `negative` is set.
fn push_hundredths(out: &mut String, negative: bool, magnitude: u128)
    ensures
        final(out)@ == old(out)@ + (if negative {
            seq!['-']
        } else {
            Seq::<char>::empty()
        }) + decimal(magnitude as nat / 100) + seq![
            '.',
            digit(magnitude as nat / 10 % 10),
            digit(magnitude as nat % 10),
        ],
{
    proof {
        reveal_strlit("-");
        reveal_strlit(".");
    }
    if negative {
        out.append("-");
    }
    push_decimal(out, magnitude / 100);
    out.append(".");
    out.append(digit_text((magnitude / 10 % 10) as u8));
    out.append(digit_text((magnitude % 10) as u8));
}

/// Appends a signed amount of hundredths to `out`.
pub fn push_amount(out: &mut String, hundredths: i128)
    ensures
        final(out)@ == old(out)@ + amount_text(hundredths as int),
{
    let magnitude: u128 = if hundredths >= 0 {
        hundredths as u128
    } else if hundredths == i128::MIN {
        0x8000_0000_0000_0000_0000_0000_0000_0000u128
    } else {
        (-hundredths) as u128
    };
    push_hundredths(out, hundredths < 0, magnitude);
}

/// Appends an amount of hundredths that is not negative to `out`.
pub fn push_total(out: &mut String, hundredths: u128)
    ensures
        final(out)@ == old(out)@ + amount_text(hundredths as int),
{
    push_hundredths(out, false, hundredths);
}

/// Appends a number of tenths to `out`.
pub fn push_tenths(out: &mut String, tenths: u128)
    ensures
        final(out)@ == old(out)@ + tenths_text(tenths as nat),
{
    proof {
        reveal_strlit(".");
    }
    push_decimal(out, tenths / 10);
    out.append(".");
    out.append(digit_text((tenths % 10) as u8));
}

/// Appends an identifier in decimal to `out`.
pub fn push_signed(out: &mut String, n: i32)
    ensures
        final(out)@ == old(out)@ + signed_decimal(n as int),
{
    proof {
        reveal_strlit("-");
    }
    if n < 0 {
        out.append("-");
        push_decimal(out, (-(n as i64)) as u128);
    } else {
        push_decimal(out, n as u128);
    }
}

/// An amount of hundredths as text.
pub fn format_amount(hundredths: i128) -> (text: String)
    ensures
        text@ == amount_text(hundredths as int),
{
    let mut text = String::new();
    push_amount(&mut text, hundredths);
    text
}

} // verus!
