//! The current month, read from the local clock.

use vstd::prelude::*;
use crate::dates::{is_calendar_month, month_text, write_month, write_year, year_text};

verus! {

/// The number of the month and the year of the local date.
///
/// Calls chrono's `Local::now` and reads the result through
/// `Datelike::month` and `Datelike::year`. Trusted of chrono: the month is
/// numbered from 1 to 12. Which month and year come back depends on the
/// clock, so nothing else is claimed. On a machine whose clock stands before
/// 1970 chrono does not return.
#[verifier::external_body]
fn local_month_and_year() -> (now: (u32, i32))
    ensures
        1 <= now.0 <= 12,
{
    let now = chrono::Local::now();
    (chrono::Datelike::month(&now), chrono::Datelike::year(&now))
}

/// The month and the year of the local date, as the texts that dates are
/// compared with: the month with two digits, the year with four.
pub fn current_month_and_year() -> (now: (String, String))
    ensures
        is_calendar_month(now.0@, now.1@),
{
    let read = local_month_and_year();
    let month = write_month(read.0);
    let year = write_year(read.1);
    assert(month@ == month_text(read.0 as int) && year@ == year_text(read.1 as int));
    (month, year)
}

} // verus!
