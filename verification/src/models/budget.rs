//! A spending ceiling for one category.

use vstd::prelude::*;

verus! {

/// The limit configured for a category, in hundredths of the currency unit.
/// A category named by a budget need not occur in any transaction.
#[derive(Debug, Clone, PartialEq, Eq)]
pub struct Budget {
    pub category: String,
    pub limit_amount: i64,
}

/// A budget as a mathematical value.
pub struct BudgetView {
    pub category: Seq<char>,
    pub limit_amount: int,
}

impl View for Budget {
    type V = BudgetView;

    open spec fn view(&self) -> BudgetView {
        BudgetView { category: self.category@, limit_amount: self.limit_amount as int }
    }
}

impl DeepView for Budget {
    type V = BudgetView;

    open spec fn deep_view(&self) -> BudgetView {
        self@
    }
}

} // verus!
