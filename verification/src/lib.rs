//! Personal finance tracking: rule-based categorization of transactions,
//! per-category budget evaluation, monthly reports and the state machine of
//! the terminal dashboard.
//!
//! Amounts are signed integers counted in hundredths of the currency unit
//! (negative for an expense, positive for income); totals are 128-bit so that
//! no sum over a vector of amounts can overflow.
//!
//! - [`categorize`]: the ordered rule table and the categories it assigns.
//! - [`budget`]: spending of a category against its limit.
//! - [`reports`]: spending of a month, in total and by category.
//! - [`ui`]: the dashboard's state machine and the contents of its screens.
//! - [`totals`], [`shares`], [`dates`], [`text`], [`format`]: the sums,
//!   proportions, date windows, name order and number formats they rest on.
//! - [`clock`]: the current month, for the functions that ask for none.
//!
//! Records are handed in as slices; nothing here reads a store or a terminal.
//! Three things are taken on trust and named where they are used: the regex
//! crate's matching, the standard library's lower-casing, and the number of
//! the month that chrono reads from the local clock.

pub mod budget;
pub mod categorize;
pub mod clock;
pub mod dates;
pub mod format;
pub mod models;
pub mod reports;
pub mod shares;
pub mod text;
pub mod totals;
pub mod ui;
