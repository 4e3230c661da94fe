//! Budgets: what was spent in a category during a month, held against the
//! limit configured for that category. What was spent is the sum of the
//! magnitudes of all amounts of the category in that month.

use vstd::prelude::*;
use vstd::string::*;
use crate::clock::current_month_and_year;
use crate::dates::{date_in_month, in_month, is_calendar_month};
use crate::models::budget::{Budget, BudgetView};
use crate::models::transaction::{Transaction, TransactionView};
use crate::text::same_text;
use crate::totals::{
    bounded_amounts, lemma_amounts_are_bounded, lemma_take_keeps_bound, magnitude, magnitude_of,
    max_magnitude,
};

verus! {

/// How the spending of a category stands to its limit.
#[derive(Debug, Clone, Copy, PartialEq, Eq, Structural)]
pub enum BudgetStatus {
    WithinBudget,
    Warning,
    Exceeded,
}

/// Why a budget could not be evaluated.
#[derive(Debug, Clone, Copy, PartialEq, Eq, Structural)]
pub enum BudgetError {
    /// No budget is configured for the category.
    NotFound,
}

/// The outcome of holding one category against its budget.
#[derive(Debug, Clone, PartialEq, Eq)]
pub struct BudgetCheck {
    pub category: String,
    pub spent: u128,
    pub limit: i64,
    pub status: BudgetStatus,
}

/// The outcome of a check as a mathematical value.
pub struct BudgetCheckView {
    pub category: Seq<char>,
    pub spent: nat,
    pub limit: int,
    pub status: BudgetStatus,
}

impl View for BudgetCheck {
    type V = BudgetCheckView;

    open spec fn view(&self) -> BudgetCheckView {
        BudgetCheckView {
            category: self.category@,
            spent: self.spent as nat,
            limit: self.limit as int,
            status: self.status,
        }
    }
}

impl DeepView for BudgetCheck {
    type V = BudgetCheckView;

    open spec fn deep_view(&self) -> BudgetCheckView {
        self@
    }
}

/// The status of a category that has spent `spent` of `limit`. With a
/// positive limit the share `spent / limit` decides: from 1 on the budget is
/// exceeded, from 0.8 on a warning is due. A limit of zero is exceeded by any
/// spending at all; a negative limit, for which the share cannot be positive,
/// is never exceeded.
pub open spec fn status_of(spent: nat, limit: int) -> BudgetStatus {
    if limit > 0 {
        if spent >= limit {
            BudgetStatus::Exceeded
        } else if 10 * spent >= 8 * limit {
            BudgetStatus::Warning
        } else {
            BudgetStatus::WithinBudget
        }
    } else if limit == 0 && spent > 0 {
        BudgetStatus::Exceeded
    } else {
        BudgetStatus::WithinBudget
    }
}

/// Classifies `spent` against `limit`.
pub fn budget_status(spent: u128, limit: i64) -> (status: BudgetStatus)
    ensures
        status == status_of(spent as nat, limit as int),
{
    if limit > 0 {
        let ceiling = limit as u128;
        if spent >= ceiling {
            BudgetStatus::Exceeded
        } else if 10 * spent >= 8 * ceiling {
            BudgetStatus::Warning
        } else {
            BudgetStatus::WithinBudget
        }
    } else if limit == 0 && spent > 0 {
        BudgetStatus::Exceeded
    } else {
        BudgetStatus::WithinBudget
    }
}

/// The limit configured for `category`: that of the first budget with this
/// name, if there is one.
pub open spec fn limit_for(budgets: Seq<BudgetView>, category: Seq<char>) -> Option<int>
    decreases budgets.len(),
{
    if budgets.len() == 0 {
        None
    } else if budgets[0].category == category {
        Some(budgets[0].limit_amount)
    } else {
        limit_for(budgets.drop_first(), category)
    }
}

/// Every category that a budget names has a limit.
pub proof fn lemma_named_category_has_limit(budgets: Seq<BudgetView>, i: int)
    requires
        0 <= i < budgets.len(),
    ensures
        limit_for(budgets, budgets[i].category) is Some,
    decreases budgets.len(),
{
    if budgets[0].category != budgets[i].category {
        assert(budgets.drop_first()[i - 1] == budgets[i]);
        lemma_named_category_has_limit(budgets.drop_first(), i - 1);
    }
}

/// Looks up the limit configured for `category`.
pub fn find_limit(budgets: &[Budget], category: &str) -> (limit: Option<i64>)
    ensures
        limit is Some <==> limit_for(budgets.deep_view(), category@) is Some,
        limit matches Some(amount) ==> limit_for(budgets.deep_view(), category@) == Some(
            amount as int,
        ),
{
    let ghost all = budgets.deep_view();
    let mut k: usize = 0;
    assert(all.skip(0) =~= all);
    while k < budgets.len()
        invariant
            k <= budgets.len(),
            all == budgets.deep_view(),
            limit_for(all, category@) == limit_for(all.skip(k as int), category@),
        decreases budgets.len() - k,
    {
        assert(all.skip(k as int).drop_first() =~= all.skip(k + 1));
        assert(all.skip(k as int)[0] == budgets@[k as int]@);
        if same_text(budgets[k].category.as_str(), category) {
            return Some(budgets[k].limit_amount);
        }
        k = k + 1;
    }
    None
}

/// The transaction carries the category and is dated in the given month.
pub open spec fn counts_for(
    t: TransactionView,
    category: Seq<char>,
    month: Seq<char>,
    year: Seq<char>,
) -> bool {
    &&& t.category == Some(category)
    &&& in_month(t.date, month, year)
}

/// What was spent in `category` during the given month: the sum of the
/// magnitudes of the amounts of all its transactions dated in that month.
pub open spec fn spent_in(
    txs: Seq<TransactionView>,
    category: Seq<char>,
    month: Seq<char>,
    year: Seq<char>,
) -> nat
    decreases txs.len(),
{
    if txs.len() == 0 {
        0
    } else {
        spent_in(txs.drop_last(), category, month, year) + if counts_for(
            txs.last(),
            category,
            month,
            year,
        ) {
            magnitude(txs.last().amount)
        } else {
            0
        }
    }
}

/// With bounded amounts, what was spent does not exceed the number of
/// transactions times the largest magnitude.
pub proof fn lemma_spent_bound(
    txs: Seq<TransactionView>,
    category: Seq<char>,
    month: Seq<char>,
    year: Seq<char>,
)
    requires
        bounded_amounts(txs),
    ensures
        spent_in(txs, category, month, year) <= txs.len() * max_magnitude(),
    decreases txs.len(),
{
    if txs.len() > 0 {
        let shorter = txs.drop_last();
        assert(shorter =~= txs.take(txs.len() - 1));
        lemma_take_keeps_bound(txs, txs.len() - 1);
        lemma_spent_bound(shorter, category, month, year);
        assert(magnitude(txs[txs.len() - 1].amount) <= max_magnitude());
        assert(txs.len() * max_magnitude() == shorter.len() * max_magnitude() + max_magnitude())
            by (nonlinear_arith)
            requires
                shorter.len() == txs.len() - 1,
        ;
    }
}

/// A category without transactions in the month has spent nothing.
pub proof fn lemma_no_transactions_nothing_spent(
    txs: Seq<TransactionView>,
    category: Seq<char>,
    month: Seq<char>,
    year: Seq<char>,
)
    requires
        forall|i: int| 0 <= i < txs.len() ==> !counts_for(#[trigger] txs[i], category, month, year),
    ensures
        spent_in(txs, category, month, year) == 0,
    decreases txs.len(),
{
    if txs.len() > 0 {
        let shorter = txs.drop_last();
        assert forall|i: int| 0 <= i < shorter.len() implies !counts_for(
            #[trigger] shorter[i],
            category,
            month,
            year,
        ) by {
            assert(shorter[i] == txs[i]);
        }
        lemma_no_transactions_nothing_spent(shorter, category, month, year);
    }
}

/// What was spent in `category` during the given month.
pub fn spent_in_month(txs: &[Transaction], category: &str, month: &str, year: &str) -> (spent:
    u128)
    ensures
        spent == spent_in(txs.deep_view(), category@, month@, year@),
{
    let ghost all = txs.deep_view();
    let mut spent: u128 = 0;
    let mut k: usize = 0;
    proof {
        lemma_amounts_are_bounded(txs);
    }
    while k < txs.len()
        invariant
            k <= txs.len(),
            all == txs.deep_view(),
            bounded_amounts(all),
            spent == spent_in(all.take(k as int), category@, month@, year@),
        decreases txs.len() - k,
    {
        let t = &txs[k];
        let wanted = match &t.category {
            Some(own) => same_text(own.as_str(), category),
            None => false,
        };
        proof {
            lemma_take_keeps_bound(all, k as int);
            lemma_spent_bound(all.take(k as int), category@, month@, year@);
            assert(all.take(k + 1).drop_last() =~= all.take(k as int));
            assert(all.take(k + 1).last() == t@);
        }
        if wanted && date_in_month(t.date.as_str(), month, year) {
            spent = spent + magnitude_of(t.amount) as u128;
        }
        k = k + 1;
    }
    assert(all.take(k as int) =~= all);
    spent
}

/// `check` is the evaluation of `category` for the given month: it carries
/// the configured limit, what was spent and the status that follows.
pub open spec fn is_check_of(
    check: BudgetCheckView,
    budgets: Seq<BudgetView>,
    txs: Seq<TransactionView>,
    category: Seq<char>,
    month: Seq<char>,
    year: Seq<char>,
) -> bool {
    &&& check.category == category
    &&& limit_for(budgets, category) == Some(check.limit)
    &&& check.spent == spent_in(txs, category, month, year)
    &&& check.status == status_of(check.spent, check.limit)
}

/// Holds the spending of `category` in the given month against its budget.
/// Fails with `NotFound` exactly where no budget is configured for the
/// category.
pub fn check_budget_in(
    budgets: &[Budget],
    txs: &[Transaction],
    category: &str,
    month: &str,
    year: &str,
) -> (result: Result<BudgetCheck, BudgetError>)
    ensures
        result is Ok <==> limit_for(budgets.deep_view(), category@) is Some,
        result matches Ok(check) ==> is_check_of(
            check@,
            budgets.deep_view(),
            txs.deep_view(),
            category@,
            month@,
            year@,
        ),
        result matches Err(e) ==> e == BudgetError::NotFound,
{
    match find_limit(budgets, category) {
        Some(limit) => {
            let spent = spent_in_month(txs, category, month, year);
            Ok(
                BudgetCheck {
                    category: category.to_owned(),
                    spent,
                    limit,
                    status: budget_status(spent, limit),
                },
            )
        },
        None => Err(BudgetError::NotFound),
    }
}

/// `checks` holds one evaluation for each budget, in the order of the
/// budgets.
pub open spec fn are_checks_of(
    checks: Seq<BudgetCheckView>,
    budgets: Seq<BudgetView>,
    txs: Seq<TransactionView>,
    month: Seq<char>,
    year: Seq<char>,
) -> bool {
    &&& checks.len() == budgets.len()
    &&& forall|i: int|
        0 <= i < checks.len() ==> is_check_of(
            #[trigger] checks[i],
            budgets,
            txs,
            budgets[i].category,
            month,
            year,
        )
}

/// Evaluates every configured budget for the given month. A category whose
/// evaluation fails is passed over and the others are still evaluated; with
/// the budgets at hand every category has a limit, so none is passed over.
pub fn check_all_in(budgets: &[Budget], txs: &[Transaction], month: &str, year: &str) -> (checks:
    Vec<BudgetCheck>)
    ensures
        are_checks_of(checks.deep_view(), budgets.deep_view(), txs.deep_view(), month@, year@),
{
    let ghost all = budgets.deep_view();
    let mut checks: Vec<BudgetCheck> = Vec::new();
    let mut k: usize = 0;
    while k < budgets.len()
        invariant
            k <= budgets.len(),
            checks.len() == k,
            all == budgets.deep_view(),
            forall|i: int|
                0 <= i < k ==> is_check_of(
                    #[trigger] checks.deep_view()[i],
                    all,
                    txs.deep_view(),
                    all[i].category,
                    month@,
                    year@,
                ),
        decreases budgets.len() - k,
    {
        let ghost earlier = checks.deep_view();
        proof {
            lemma_named_category_has_limit(all, k as int);
            assert(all[k as int] == budgets@[k as int]@);
        }
        match check_budget_in(budgets, txs, budgets[k].category.as_str(), month, year) {
            Ok(check) => {
                checks.push(check);
                assert(checks.deep_view() =~= earlier.push(check@));
            },
            Err(_) => {},
        }
        k = k + 1;
    }
    checks
}

/// What was spent in `category` during the current month of the local
/// clock. Which of the months of the calendar that is cannot be said
/// beforehand; whichever it is, a category without any transaction has spent
/// nothing.
pub fn spent_this_month(txs: &[Transaction], category: &str) -> (spent: u128)
    ensures
        exists|month: Seq<char>, year: Seq<char>|
            is_calendar_month(month, year) && spent == #[trigger] spent_in(
                txs.deep_view(),
                category@,
                month,
                year,
            ),
        (forall|i: int|
            0 <= i < txs.len() ==> (#[trigger] txs.deep_view()[i]).category != Some(category@))
            ==> spent == 0,
{
    let now = current_month_and_year();
    proof {
        if forall|i: int|
            0 <= i < txs.len() ==> (#[trigger] txs.deep_view()[i]).category != Some(category@) {
            lemma_no_transactions_nothing_spent(txs.deep_view(), category@, now.0@, now.1@);
        }
    }
    spent_in_month(txs, category, now.0.as_str(), now.1.as_str())
}

/// Holds the spending of `category` in the current month of the local clock
/// against its budget. Fails with `NotFound` exactly where no budget is
/// configured for the category.
pub fn check_budget(budgets: &[Budget], txs: &[Transaction], category: &str) -> (result: Result<
    BudgetCheck,
    BudgetError,
>)
    ensures
        result is Ok <==> limit_for(budgets.deep_view(), category@) is Some,
        result matches Ok(check) ==> exists|month: Seq<char>, year: Seq<char>|
            is_calendar_month(month, year) && is_check_of(
                check@,
                budgets.deep_view(),
                txs.deep_view(),
                category@,
                month,
                year,
            ),
        result matches Err(e) ==> e == BudgetError::NotFound,
{
    let now = current_month_and_year();
    check_budget_in(budgets, txs, category, now.0.as_str(), now.1.as_str())
}

/// Evaluates every configured budget for the current month of the local
/// clock, all of them for the same month.
pub fn check_all(budgets: &[Budget], txs: &[Transaction]) -> (checks: Vec<BudgetCheck>)
    ensures
        exists|month: Seq<char>, year: Seq<char>|
            is_calendar_month(month, year) && are_checks_of(
                checks.deep_view(),
                budgets.deep_view(),
                txs.deep_view(),
                month,
                year,
            ),
{
    let now = current_month_and_year();
    check_all_in(budgets, txs, now.0.as_str(), now.1.as_str())
}

} // verus!
