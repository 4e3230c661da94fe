//! Spending of one month: in total, and broken down by category.
//!
//! The two figures follow different conventions on purpose. The total nets
//! income against expenses before taking the magnitude; the breakdown looks
//! at expenses only and adds up their magnitudes.

use vstd::prelude::*;
use vstd::string::*;
use crate::dates::{date_in_month, in_month};
use crate::models::transaction::{Transaction, TransactionView};
use crate::totals::{
    bounded_amounts, expense_totals, is_breakdown, lemma_amounts_are_bounded,
    lemma_take_keeps_bound, magnitude, max_magnitude, CategoryTotal,
};

verus! {

/// Sum of the signed amounts of the transactions dated in the given month:
/// income and expenses cancel.
pub open spec fn net_amount(txs: Seq<TransactionView>, month: Seq<char>, year: Seq<char>) -> int
    decreases txs.len(),
{
    if txs.len() == 0 {
        0
    } else {
        net_amount(txs.drop_last(), month, year) + if in_month(txs.last().date, month, year) {
            txs.last().amount
        } else {
            0
        }
    }
}

/// With bounded amounts, a net amount lies within the number of transactions
/// times the largest magnitude, on either side of zero.
pub proof fn lemma_net_amount_bound(txs: Seq<TransactionView>, month: Seq<char>, year: Seq<char>)
    requires
        bounded_amounts(txs),
    ensures
        -(txs.len() * max_magnitude()) <= net_amount(txs, month, year) <= txs.len()
            * max_magnitude(),
    decreases txs.len(),
{
    if txs.len() > 0 {
        let shorter = txs.drop_last();
        assert(shorter =~= txs.take(txs.len() - 1));
        lemma_take_keeps_bound(txs, txs.len() - 1);
        lemma_net_amount_bound(shorter, month, year);
        assert(magnitude(txs[txs.len() - 1].amount) <= max_magnitude());
        assert(txs.len() * max_magnitude() == shorter.len() * max_magnitude() + max_magnitude())
            by (nonlinear_arith)
            requires
                shorter.len() == txs.len() - 1,
        ;
    }
}

/// The net amount of the transactions dated in the given month.
pub fn net_total(txs: &[Transaction], month: &str, year: &str) -> (net: i128)
    ensures
        net == net_amount(txs.deep_view(), month@, year@),
        -(txs.len() * max_magnitude()) <= net <= txs.len() * max_magnitude(),
{
    let ghost all = txs.deep_view();
    let mut net: i128 = 0;
    let mut k: usize = 0;
    proof {
        lemma_amounts_are_bounded(txs);
    }
    while k < txs.len()
        invariant
            k <= txs.len(),
            all == txs.deep_view(),
            bounded_amounts(all),
            net == net_amount(all.take(k as int), month@, year@),
        decreases txs.len() - k,
    {
        let t = &txs[k];
        proof {
            lemma_take_keeps_bound(all, k as int);
            lemma_net_amount_bound(all.take(k as int), month@, year@);
            assert(all.take(k + 1).drop_last() =~= all.take(k as int));
            assert(all.take(k + 1).last() == t@);
        }
        if date_in_month(t.date.as_str(), month, year) {
            net = net + t.amount as i128;
        }
        k = k + 1;
    }
    proof {
        assert(all.take(k as int) =~= all);
        lemma_net_amount_bound(all, month@, year@);
    }
    net
}

/// The magnitude of the net sum of all transactions dated in the given month:
/// income and expenses cancel before the sign is dropped. `month` and `year`
/// are compared as text with the first two and the last four characters of
/// each date.
pub fn monthly_spending(txs: &[Transaction], month: &str, year: &str) -> (spent: u128)
    ensures
        spent == vstd::math::abs(net_amount(txs.deep_view(), month@, year@)),
{
    let count = txs.len();
    let net = net_total(txs, month, year);
    // At most `usize::MAX` amounts: their sum stays clear of `i128::MIN`.
    assert(count * max_magnitude() <= 0xffff_ffff_ffff_ffff * max_magnitude());
    if net < 0 {
        (-net) as u128
    } else {
        net as u128
    }
}

/// The expenses dated in the given month, summed by category: one row for
/// each category with at least one expense, in ascending order of category
/// name, with the sum of the magnitudes of its expenses. Income is left out,
/// and so are transactions without a category.
pub fn category_breakdown(txs: &[Transaction], month: &str, year: &str) -> (rows: Vec<
    CategoryTotal,
>)
    ensures
        is_breakdown(rows.deep_view(), txs.deep_view(), Some((month@, year@)), None),
{
    expense_totals(txs, Some((month, year)), None)
}

} // verus!
