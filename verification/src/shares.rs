//! Shares of one amount in another, rounded to the nearest whole step with
//! halves rounded up, computed without leaving 128 bits.

use vstd::prelude::*;
use vstd::arithmetic::div_mod::{lemma_div_is_ordered, lemma_fundamental_div_mod_converse};

verus! {

/// `part / whole` in steps of `1 / steps`, rounded to the nearest step;
/// halves go up.
pub open spec fn rounded_share(part: nat, whole: nat, steps: nat) -> nat {
    (2 * part * steps + whole) / (2 * whole)
}

/// The largest percentage shown, in tenths of a percent.
pub const PERCENT_CAP: u16 = 9999;

/// Width of the longest bar, in cells.
pub const BAR_WIDTH: usize = 30;

/// What was spent as a percentage of the limit, in tenths of a percent and
/// capped at 999.9. Without a positive limit it is zero.
pub open spec fn percent_tenths(spent: nat, limit: int) -> nat {
    if limit > 0 {
        let exact = rounded_share(spent, limit as nat, 1000);
        if exact > PERCENT_CAP {
            PERCENT_CAP as nat
        } else {
            exact
        }
    } else {
        0
    }
}

/// The length of the bar for `value` where `largest` is the largest value
/// shown: the share of `value` in `largest` in steps of a thirtieth, so that
/// the largest value has the full width; never less than one cell.
pub open spec fn bar_length(value: nat, largest: nat) -> nat {
    let cells = rounded_share(value, largest, BAR_WIDTH as nat);
    if cells < 1 {
        1
    } else {
        cells
    }
}

/// A bar is at least one cell and at most thirty cells long.
pub proof fn lemma_bar_length_bounds(value: nat, largest: nat)
    requires
        value <= largest,
        largest > 0,
    ensures
        1 <= bar_length(value, largest) <= BAR_WIDTH,
{
    let full: int = largest as int;
    assert(2 * value * 30 + full <= 61 * full) by (nonlinear_arith)
        requires
            0 <= value <= full,
    ;
    lemma_div_is_ordered(2 * value * 30 + full, 61 * full, 2 * full);
    lemma_fundamental_div_mod_converse(61 * full, 2 * full, 30, full);
}

/// The largest value shown has a bar of the full width.
pub proof fn lemma_largest_bar_is_full(largest: nat)
    requires
        largest > 0,
    ensures
        bar_length(largest, largest) == BAR_WIDTH,
{
    assert(2 * largest * 30 + largest == 30 * (2 * largest) + largest) by (nonlinear_arith);
    lemma_fundamental_div_mod_converse(
        (2 * largest * 30 + largest) as int,
        (2 * largest) as int,
        30,
        largest as int,
    );
}

/// Computes `percent_tenths`.
pub fn percent_of_limit(spent: u128, limit: i64) -> (tenths: u16)
    ensures
        tenths == percent_tenths(spent as nat, limit as int),
{
    if limit <= 0 {
        return 0;
    }
    let whole = limit as u128;
    if spent >= 10 * whole {
        proof {
            assert(9999 * (2 * whole) <= 2 * spent * 1000 + whole) by (nonlinear_arith)
                requires
                    spent >= 10 * whole,
                    whole > 0,
            ;
            lemma_div_is_ordered(
                9999 * (2 * whole),
                (2 * spent * 1000 + whole) as int,
                (2 * whole) as int,
            );
            lemma_fundamental_div_mod_converse(9999 * (2 * whole), (2 * whole) as int, 9999, 0);
        }
        return PERCENT_CAP;
    }
    let exact = (2 * spent * 1000 + whole) / (2 * whole);
    proof {
        assert(2 * spent * 1000 + whole < 10001 * (2 * whole)) by (nonlinear_arith)
            requires
                spent < 10 * whole,
                whole > 0,
        ;
        lemma_div_is_ordered(
            (2 * spent * 1000 + whole) as int,
            10001 * (2 * whole),
            (2 * whole) as int,
        );
        lemma_fundamental_div_mod_converse(10001 * (2 * whole), (2 * whole) as int, 10001, 0);
    }
    if exact > PERCENT_CAP as u128 {
        PERCENT_CAP
    } else {
        exact as u16
    }
}

/// Computes `bar_length`. Thirty additions stand in for the multiplication,
/// so that no intermediate value exceeds the larger of the two arguments.
pub fn bar_cells(value: u128, largest: u128) -> (cells: usize)
    requires
        value <= largest,
        largest > 0,
    ensures
        cells == bar_length(value as nat, largest as nat),
        1 <= cells <= BAR_WIDTH,
{
    let full: u128 = largest;
    // After `k` rounds, `k * value == quotient * full + rest`.
    let mut quotient: usize = 0;
    let mut rest: u128 = 0;
    let mut k: usize = 0;
    assert(0 * value == 0 * full + 0) by (nonlinear_arith);
    while k < BAR_WIDTH
        invariant
            k <= BAR_WIDTH,
            value <= full,
            full >= 1,
            quotient <= k,
            rest < full,
            k * value == quotient * full + rest,
        decreases BAR_WIDTH - k,
    {
        let ghost before_q = quotient;
        let ghost before_r = rest;
        if rest >= full - value {
            rest = rest - (full - value);
            quotient = quotient + 1;
        } else {
            rest = rest + value;
        }
        assert((k + 1) * value == quotient * full + rest) by (nonlinear_arith)
            requires
                k * value == before_q * full + before_r,
                (quotient == before_q + 1 && rest == before_r + value - full) || (quotient
                    == before_q && rest == before_r + value),
        ;
        k = k + 1;
    }
    let up: usize = if rest >= full - rest {
        1
    } else {
        0
    };
    let cells = quotient + up;
    proof {
        let remainder: int = if up == 1 {
            2 * rest - full
        } else {
            2 * rest + full
        };
        assert(2 * value * 30 + full == cells * (2 * full) + remainder) by (nonlinear_arith)
            requires
                30 * value == quotient * full + rest,
                cells == quotient + up,
                remainder == (if up == 1 {
                    2 * rest - full
                } else {
                    2 * rest + full
                }),
                up == 0 || up == 1,
        ;
        lemma_fundamental_div_mod_converse(
            (2 * value * 30 + full) as int,
            (2 * full) as int,
            cells as int,
            remainder,
        );
        lemma_bar_length_bounds(value as nat, largest as nat);
    }
    if cells < 1 {
        1
    } else {
        cells
    }
}

} // verus!
