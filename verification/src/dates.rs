//! Dates in the fixed form `MM/DD/YYYY` and the month windows cut out of
//! them. Month and year are compared as text, never as numbers.

use vstd::prelude::*;
use vstd::string::*;
use crate::format::{decimal, digit, digit_text, push_decimal};
use crate::text::same_text;

verus! {

/// A decimal digit.
pub open spec fn is_digit(c: char) -> bool {
    '0' <= c <= '9'
}

/// Ten characters: two digits, a slash, two digits, a slash, four digits.
pub open spec fn well_formed_date(date: Seq<char>) -> bool {
    &&& date.len() == 10
    &&& date[2] == '/'
    &&& date[5] == '/'
    &&& forall|i: int| 0 <= i < 10 && i != 2 && i != 5 ==> is_digit(#[trigger] date[i])
}

/// The date is well formed, its first two characters are `month` and its
/// last four are `year`.
pub open spec fn in_month(date: Seq<char>, month: Seq<char>, year: Seq<char>) -> bool {
    &&& well_formed_date(date)
    &&& date.subrange(0, 2) == month
    &&& date.subrange(6, 10) == year
}

/// A date that is not well formed belongs to no month, and a month or year
/// of the wrong length contains no date: `"2"` is not `"02"`.
pub proof fn lemma_outside_every_month(date: Seq<char>, month: Seq<char>, year: Seq<char>)
    requires
        !well_formed_date(date) || month.len() != 2 || year.len() != 4,
    ensures
        !in_month(date, month, year),
{
}

fn digit_char(c: char) -> (r: bool)
    ensures
        r == is_digit(c),
{
    '0' <= c && c <= '9'
}

/// Whether `date` has the form `MM/DD/YYYY`.
pub fn is_well_formed_date(date: &str) -> (r: bool)
    ensures
        r == well_formed_date(date@),
{
    if date.unicode_len() != 10 {
        return false;
    }
    let mut i: usize = 0;
    while i < 10
        invariant
            date@.len() == 10,
            i <= 10,
            forall|j: int| 0 <= j < i && j != 2 && j != 5 ==> is_digit(#[trigger] date@[j]),
            2 < i ==> date@[2] == '/',
            5 < i ==> date@[5] == '/',
        decreases 10 - i,
    {
        let c = date.get_char(i);
        if i == 2 || i == 5 {
            if c != '/' {
                return false;
            }
        } else if !digit_char(c) {
            return false;
        }
        i = i + 1;
    }
    true
}

/// Whether `date` is a well-formed date of the given month and year. A month
/// written `"2"` matches no date: months are stored as `"02"`.
pub fn date_in_month(date: &str, month: &str, year: &str) -> (r: bool)
    ensures
        r == in_month(date@, month@, year@),
{
    if !is_well_formed_date(date) {
        return false;
    }
    same_text(date.substring_char(0, 2), month) && same_text(date.substring_char(6, 10), year)
}

/// The window that an optional month and year stand for: `None` is all time.
pub open spec fn window_of(window: Option<(&str, &str)>) -> Option<(Seq<char>, Seq<char>)> {
    match window {
        Some((month, year)) => Some((month@, year@)),
        None => None,
    }
}

/// The date falls into the window.
pub open spec fn within(date: Seq<char>, window: Option<(Seq<char>, Seq<char>)>) -> bool {
    match window {
        Some((month, year)) => in_month(date, month, year),
        None => true,
    }
}

/// Whether `date` falls into `window`.
pub fn date_within(date: &str, window: Option<(&str, &str)>) -> (r: bool)
    ensures
        r == within(date@, window_of(window)),
{
    match window {
        Some((month, year)) => date_in_month(date, month, year),
        None => true,
    }
}

/// A month number written with two digits: `3` is written `03`.
pub open spec fn month_text(month: int) -> Seq<char> {
    seq![digit((month / 10 % 10) as nat), digit((month % 10) as nat)]
}

/// A number up to 9999 written with four digits: `5` is written `0005`.
pub open spec fn four_digits(n: nat) -> Seq<char> {
    seq![digit(n / 1000 % 10), digit(n / 100 % 10), digit(n / 10 % 10), digit(n % 10)]
}

/// A year written with four digits. A year before 0 or after 9999 carries
/// its sign and is filled up to four digits; written so, it is the year of
/// no date.
pub open spec fn year_text(year: int) -> Seq<char> {
    if 0 <= year <= 9999 {
        four_digits(year as nat)
    } else if -9999 <= year < 0 {
        seq!['-'] + four_digits((-year) as nat)
    } else if year < 0 {
        seq!['-'] + decimal((-year) as nat)
    } else {
        seq!['+'] + decimal(year as nat)
    }
}

/// `month` and `year` are the texts of a month of the calendar, one of the
/// twelve, and of a year.
pub open spec fn is_calendar_month(month: Seq<char>, year: Seq<char>) -> bool {
    exists|m: int, y: int|
        1 <= m <= 12 && i32::MIN <= y <= i32::MAX && month == #[trigger] month_text(m) && year
            == #[trigger] year_text(y)
}

/// The text of a month of the calendar is two digits, and the text of a year
/// from 0 to 9999 is four: written so, they can be the month and the year of
/// a date.
pub proof fn lemma_calendar_texts_are_digits(m: int, y: int)
    requires
        1 <= m <= 12,
        0 <= y <= 9999,
    ensures
        month_text(m).len() == 2,
        is_digit(month_text(m)[0]) && is_digit(month_text(m)[1]),
        year_text(y).len() == 4,
        forall|i: int| 0 <= i < 4 ==> is_digit(#[trigger] year_text(y)[i]),
{
}

/// Writes a month number with two digits.
pub fn write_month(month: u32) -> (text: String)
    ensures
        text@ == month_text(month as int),
{
    let mut text = digit_text((month / 10 % 10) as u8).to_owned();
    text.append(digit_text((month % 10) as u8));
    assert(text@ =~= month_text(month as int));
    text
}

fn push_four_digits(out: &mut String, n: u32)
    requires
        n <= 9999,
    ensures
        final(out)@ == old(out)@ + four_digits(n as nat),
{
    out.append(digit_text((n / 1000 % 10) as u8));
    out.append(digit_text((n / 100 % 10) as u8));
    out.append(digit_text((n / 10 % 10) as u8));
    out.append(digit_text((n % 10) as u8));
    assert(out@ =~= old(out)@ + four_digits(n as nat));
}

/// Writes a year with four digits, and with its sign where it lies before 0
/// or after 9999.
pub fn write_year(year: i32) -> (text: String)
    ensures
        text@ == year_text(year as int),
{
    proof {
        reveal_strlit("-");
        reveal_strlit("+");
    }
    let mut text = String::new();
    if 0 <= year && year <= 9999 {
        push_four_digits(&mut text, year as u32);
    } else if -9999 <= year && year < 0 {
        text.append("-");
        push_four_digits(&mut text, (-year) as u32);
    } else if year < 0 {
        text.append("-");
        push_decimal(&mut text, (-(year as i64)) as u128);
    } else {
        text.append("+");
        push_decimal(&mut text, year as u128);
    }
    assert(text@ =~= year_text(year as int));
    text
}

} // verus!
