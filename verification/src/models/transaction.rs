//! A recorded movement of money.

use vstd::prelude::*;

verus! {

/// One transaction. `amount` is counted in hundredths of the currency unit:
/// negative for an expense, positive for income. `date` is expected in the
/// fixed form `MM/DD/YYYY`; a transaction with any other date belongs to no
/// month.
#[derive(Debug, Clone, PartialEq, Eq)]
pub struct Transaction {
    pub id: i32,
    pub amount: i64,
    pub category: Option<String>,
    pub description: Option<String>,
    pub date: String,
}

/// A transaction as a mathematical value: numbers without bounds, texts as
/// sequences of characters.
pub struct TransactionView {
    pub id: int,
    pub amount: int,
    pub category: Option<Seq<char>>,
    pub description: Option<Seq<char>>,
    pub date: Seq<char>,
}

/// The text of an optional string.
pub open spec fn text_of(text: Option<String>) -> Option<Seq<char>> {
    match text {
        Some(t) => Some(t@),
        None => None,
    }
}

impl View for Transaction {
    type V = TransactionView;

    open spec fn view(&self) -> TransactionView {
        TransactionView {
            id: self.id as int,
            amount: self.amount as int,
            category: text_of(self.category),
            description: text_of(self.description),
            date: self.date@,
        }
    }
}

impl DeepView for Transaction {
    type V = TransactionView;

    open spec fn deep_view(&self) -> TransactionView {
        self@
    }
}

} // verus!
