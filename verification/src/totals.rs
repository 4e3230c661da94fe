//! Expenses summed per category, listed by category name in ascending order
//! with no name twice.

use vstd::prelude::*;
use vstd::string::*;
use crate::dates::{date_within, window_of, within};
use crate::models::transaction::{Transaction, TransactionView};
use crate::text::{
    lemma_text_before_asymmetric, lemma_text_before_transitive, placement, text_before, Placement,
};

verus! {

/// What was spent in one category.
#[derive(Debug, Clone, PartialEq, Eq)]
pub struct CategoryTotal {
    pub category: String,
    pub total: u128,
}

impl View for CategoryTotal {
    type V = (Seq<char>, nat);

    /// The name of the category and the total.
    open spec fn view(&self) -> (Seq<char>, nat) {
        (self.category@, self.total as nat)
    }
}

impl DeepView for CategoryTotal {
    type V = (Seq<char>, nat);

    open spec fn deep_view(&self) -> (Seq<char>, nat) {
        self@
    }
}

/// The largest magnitude an amount can have.
pub open spec fn max_magnitude() -> nat {
    0x8000_0000_0000_0000
}

/// The absolute value of an amount.
pub open spec fn magnitude(amount: int) -> nat {
    if amount < 0 {
        (-amount) as nat
    } else {
        amount as nat
    }
}

/// The absolute value of an amount.
pub fn magnitude_of(amount: i64) -> (m: u64)
    ensures
        m == magnitude(amount as int),
{
    if amount >= 0 {
        amount as u64
    } else if amount == i64::MIN {
        0x8000_0000_0000_0000u64
    } else {
        (-amount) as u64
    }
}

/// The name under which a transaction is grouped: its category, or the
/// fallback name where it has none. Without a fallback, a transaction
/// without category belongs to no group.
pub open spec fn grouping_label(t: TransactionView, fallback: Option<Seq<char>>) -> Option<
    Seq<char>,
> {
    match t.category {
        Some(c) => Some(c),
        None => fallback,
    }
}

/// The transaction is an expense (its amount is negative) inside the window
/// and is grouped under `label`.
pub open spec fn is_expense_of(
    t: TransactionView,
    label: Seq<char>,
    window: Option<(Seq<char>, Seq<char>)>,
    fallback: Option<Seq<char>>,
) -> bool {
    &&& t.amount < 0
    &&& within(t.date, window)
    &&& grouping_label(t, fallback) == Some(label)
}

/// Sum of the magnitudes of the expenses grouped under `label`.
pub open spec fn expense_total(
    txs: Seq<TransactionView>,
    label: Seq<char>,
    window: Option<(Seq<char>, Seq<char>)>,
    fallback: Option<Seq<char>>,
) -> nat
    decreases txs.len(),
{
    if txs.len() == 0 {
        0
    } else {
        expense_total(txs.drop_last(), label, window, fallback) + if is_expense_of(
            txs.last(),
            label,
            window,
            fallback,
        ) {
            magnitude(txs.last().amount)
        } else {
            0
        }
    }
}

/// Some expense is grouped under `label`.
pub open spec fn has_expense(
    txs: Seq<TransactionView>,
    label: Seq<char>,
    window: Option<(Seq<char>, Seq<char>)>,
    fallback: Option<Seq<char>>,
) -> bool {
    exists|i: int| 0 <= i < txs.len() && is_expense_of(#[trigger] txs[i], label, window, fallback)
}

/// The rows are in strictly ascending order of category name.
pub open spec fn ascending(rows: Seq<(Seq<char>, nat)>) -> bool {
    forall|i: int, j: int|
        0 <= i < j < rows.len() ==> text_before((#[trigger] rows[i]).0, (#[trigger] rows[j]).0)
}

/// Some row carries the name `label`.
pub open spec fn lists(rows: Seq<(Seq<char>, nat)>, label: Seq<char>) -> bool {
    exists|i: int| 0 <= i < rows.len() && (#[trigger] rows[i]).0 == label
}

/// `rows` is the breakdown of the expenses among `txs`: one row for each name
/// with at least one expense, none for any other, each with the sum of its
/// expenses, in ascending order of name.
pub open spec fn is_breakdown(
    rows: Seq<(Seq<char>, nat)>,
    txs: Seq<TransactionView>,
    window: Option<(Seq<char>, Seq<char>)>,
    fallback: Option<Seq<char>>,
) -> bool {
    &&& ascending(rows)
    &&& forall|i: int|
        0 <= i < rows.len() ==> {
            &&& has_expense(txs, (#[trigger] rows[i]).0, window, fallback)
            &&& rows[i].1 == expense_total(txs, rows[i].0, window, fallback)
        }
    &&& forall|label: Seq<char>| #[trigger]
        has_expense(txs, label, window, fallback) ==> lists(rows, label)
}

/// One more transaction adds its share to the total of its own group and to
/// no other.
pub proof fn lemma_expense_total_step(
    txs: Seq<TransactionView>,
    k: int,
    label: Seq<char>,
    window: Option<(Seq<char>, Seq<char>)>,
    fallback: Option<Seq<char>>,
)
    requires
        0 <= k < txs.len(),
    ensures
        expense_total(txs.take(k + 1), label, window, fallback) == expense_total(
            txs.take(k),
            label,
            window,
            fallback,
        ) + if is_expense_of(txs[k], label, window, fallback) {
            magnitude(txs[k].amount)
        } else {
            0
        },
        has_expense(txs.take(k + 1), label, window, fallback) <==> has_expense(
            txs.take(k),
            label,
            window,
            fallback,
        ) || is_expense_of(txs[k], label, window, fallback),
{
    let longer = txs.take(k + 1);
    let shorter = txs.take(k);
    assert(longer.drop_last() =~= shorter);
    if has_expense(shorter, label, window, fallback) {
        let i = choose|i: int|
            0 <= i < shorter.len() && is_expense_of(#[trigger] shorter[i], label, window, fallback);
        assert(longer[i] == shorter[i]);
    }
    if is_expense_of(txs[k], label, window, fallback) {
        assert(longer[k] == txs[k]);
    }
}

/// A name without expenses has a total of zero.
pub proof fn lemma_no_expense_no_total(
    txs: Seq<TransactionView>,
    label: Seq<char>,
    window: Option<(Seq<char>, Seq<char>)>,
    fallback: Option<Seq<char>>,
)
    requires
        !has_expense(txs, label, window, fallback),
    ensures
        expense_total(txs, label, window, fallback) == 0,
    decreases txs.len(),
{
    if txs.len() > 0 {
        let shorter = txs.drop_last();
        assert forall|i: int| 0 <= i < shorter.len() implies !is_expense_of(
            #[trigger] shorter[i],
            label,
            window,
            fallback,
        ) by {
            assert(shorter[i] == txs[i]);
        }
        lemma_no_expense_no_total(shorter, label, window, fallback);
    }
}

/// A name with an expense has a total above zero: no row of a breakdown
/// stands for nothing.
pub proof fn lemma_expense_counts(
    txs: Seq<TransactionView>,
    label: Seq<char>,
    window: Option<(Seq<char>, Seq<char>)>,
    fallback: Option<Seq<char>>,
)
    requires
        has_expense(txs, label, window, fallback),
    ensures
        expense_total(txs, label, window, fallback) > 0,
    decreases txs.len(),
{
    let i = choose|i: int|
        0 <= i < txs.len() && is_expense_of(#[trigger] txs[i], label, window, fallback);
    if !is_expense_of(txs.last(), label, window, fallback) {
        assert(txs.drop_last()[i] == txs[i]);
        lemma_expense_counts(txs.drop_last(), label, window, fallback);
    }
}

/// No amount has a magnitude above the largest, as is the case of amounts
/// held in an `i64`.
pub open spec fn bounded_amounts(txs: Seq<TransactionView>) -> bool {
    forall|i: int| 0 <= i < txs.len() ==> magnitude((#[trigger] txs[i]).amount) <= max_magnitude()
}

/// With bounded amounts, no total exceeds the number of transactions times
/// the largest magnitude.
pub proof fn lemma_expense_total_bound(
    txs: Seq<TransactionView>,
    label: Seq<char>,
    window: Option<(Seq<char>, Seq<char>)>,
    fallback: Option<Seq<char>>,
)
    requires
        bounded_amounts(txs),
    ensures
        expense_total(txs, label, window, fallback) <= txs.len() * max_magnitude(),
    decreases txs.len(),
{
    if txs.len() > 0 {
        let shorter = txs.drop_last();
        assert(shorter =~= txs.take(txs.len() - 1));
        lemma_take_keeps_bound(txs, txs.len() - 1);
        lemma_expense_total_bound(shorter, label, window, fallback);
        assert(magnitude(txs[txs.len() - 1].amount) <= max_magnitude());
        assert(txs.len() * max_magnitude() == shorter.len() * max_magnitude() + max_magnitude())
            by (nonlinear_arith)
            requires
                shorter.len() == txs.len() - 1,
        ;
    }
}

/// Two ascending lists of rows that carry the same names carry them at the
/// same places.
proof fn lemma_same_names_same_places(x: Seq<(Seq<char>, nat)>, y: Seq<(Seq<char>, nat)>)
    requires
        ascending(x),
        ascending(y),
        forall|name: Seq<char>| lists(x, name) <==> lists(y, name),
    ensures
        x.len() == y.len(),
        forall|i: int| 0 <= i < x.len() ==> (#[trigger] x[i]).0 == y[i].0,
    decreases x.len(),
{
    if x.len() == 0 {
        if y.len() > 0 {
            assert(lists(y, y[0].0));
        }
    } else {
        // Each list begins with the least name: were the first names
        // different, each would stand further down in the other list.
        assert(lists(x, x[0].0));
        let j = choose|j: int| 0 <= j < y.len() && (#[trigger] y[j]).0 == x[0].0;
        assert(lists(y, y[0].0));
        let k = choose|k: int| 0 <= k < x.len() && (#[trigger] x[k]).0 == y[0].0;
        if j > 0 && k > 0 {
            lemma_text_before_asymmetric(y[0].0, y[j].0);
        }
        assert(x[0].0 == y[0].0);
        // The rest of each list carries the same names as the rest of the other.
        let xt = x.drop_first();
        let yt = y.drop_first();
        assert(ascending(xt)) by {
            assert forall|a: int, b: int| 0 <= a < b < xt.len() implies text_before(
                (#[trigger] xt[a]).0,
                (#[trigger] xt[b]).0,
            ) by {
                assert(xt[a] == x[a + 1] && xt[b] == x[b + 1]);
            }
        }
        assert(ascending(yt)) by {
            assert forall|a: int, b: int| 0 <= a < b < yt.len() implies text_before(
                (#[trigger] yt[a]).0,
                (#[trigger] yt[b]).0,
            ) by {
                assert(yt[a] == y[a + 1] && yt[b] == y[b + 1]);
            }
        }
        assert forall|name: Seq<char>| lists(xt, name) <==> lists(yt, name) by {
            if lists(xt, name) {
                let i = choose|i: int| 0 <= i < xt.len() && (#[trigger] xt[i]).0 == name;
                assert(xt[i] == x[i + 1]);
                lemma_text_before_asymmetric(x[0].0, x[i + 1].0);
                assert(lists(x, name));
                let m = choose|m: int| 0 <= m < y.len() && (#[trigger] y[m]).0 == name;
                assert(yt[m - 1] == y[m]);
            }
            if lists(yt, name) {
                let i = choose|i: int| 0 <= i < yt.len() && (#[trigger] yt[i]).0 == name;
                assert(yt[i] == y[i + 1]);
                lemma_text_before_asymmetric(y[0].0, y[i + 1].0);
                assert(lists(y, name));
                let m = choose|m: int| 0 <= m < x.len() && (#[trigger] x[m]).0 == name;
                assert(xt[m - 1] == x[m]);
            }
        }
        lemma_same_names_same_places(xt, yt);
        assert forall|i: int| 0 <= i < x.len() implies (#[trigger] x[i]).0 == y[i].0 by {
            if i > 0 {
                assert(xt[i - 1] == x[i]);
                assert(yt[i - 1] == y[i]);
            }
        }
    }
}

/// The transactions determine their breakdown: any two breakdowns of the
/// same transactions are the same rows.
pub proof fn lemma_breakdown_is_unique(
    first: Seq<(Seq<char>, nat)>,
    second: Seq<(Seq<char>, nat)>,
    txs: Seq<TransactionView>,
    window: Option<(Seq<char>, Seq<char>)>,
    fallback: Option<Seq<char>>,
)
    requires
        is_breakdown(first, txs, window, fallback),
        is_breakdown(second, txs, window, fallback),
    ensures
        first == second,
{
    // Both list exactly the names that have an expense.
    assert forall|name: Seq<char>| lists(first, name) <==> lists(second, name) by {
        if lists(first, name) {
            let i = choose|i: int| 0 <= i < first.len() && (#[trigger] first[i]).0 == name;
            assert(has_expense(txs, first[i].0, window, fallback));
        }
        if lists(second, name) {
            let i = choose|i: int| 0 <= i < second.len() && (#[trigger] second[i]).0 == name;
            assert(has_expense(txs, second[i].0, window, fallback));
        }
    }
    lemma_same_names_same_places(first, second);
    assert(first =~= second);
}

/// The fallback name as a text.
pub open spec fn label_of(fallback: Option<&str>) -> Option<Seq<char>> {
    match fallback {
        Some(name) => Some(name@),
        None => None,
    }
}

/// A breakdown stays one when a transaction that is no expense of any group
/// is appended.
proof fn lemma_breakdown_skips(
    rows: Seq<(Seq<char>, nat)>,
    txs: Seq<TransactionView>,
    k: int,
    window: Option<(Seq<char>, Seq<char>)>,
    fallback: Option<Seq<char>>,
)
    requires
        0 <= k < txs.len(),
        is_breakdown(rows, txs.take(k), window, fallback),
        forall|label: Seq<char>| !is_expense_of(txs[k], label, window, fallback),
    ensures
        is_breakdown(rows, txs.take(k + 1), window, fallback),
{
    assert forall|i: int| 0 <= i < rows.len() implies {
        &&& has_expense(txs.take(k + 1), (#[trigger] rows[i]).0, window, fallback)
        &&& rows[i].1 == expense_total(txs.take(k + 1), rows[i].0, window, fallback)
    } by {
        lemma_expense_total_step(txs, k, rows[i].0, window, fallback);
    }
    assert forall|label: Seq<char>| #[trigger]
        has_expense(txs.take(k + 1), label, window, fallback) implies lists(rows, label) by {
        lemma_expense_total_step(txs, k, label, window, fallback);
    }
}

/// The rows after `amount` was recorded under `label`: the row of that name
/// raised by the amount where `at` is its place, a new row put in at `at`
/// where there was none.
pub open spec fn recorded(
    rows: Seq<(Seq<char>, nat)>,
    label: Seq<char>,
    amount: nat,
    at: int,
) -> Seq<(Seq<char>, nat)> {
    if lists(rows, label) {
        rows.update(at, (label, (rows[at].1 + amount) as nat))
    } else {
        rows.insert(at, (label, amount))
    }
}

/// A breakdown with the next expense recorded under its name is the
/// breakdown of the transactions up to and including that expense.
proof fn lemma_breakdown_grows(
    before: Seq<(Seq<char>, nat)>,
    txs: Seq<TransactionView>,
    k: int,
    window: Option<(Seq<char>, Seq<char>)>,
    fallback: Option<Seq<char>>,
    label: Seq<char>,
    at: int,
)
    requires
        0 <= k < txs.len(),
        is_breakdown(before, txs.take(k), window, fallback),
        is_expense_of(txs[k], label, window, fallback),
        ascending(recorded(before, label, magnitude(txs[k].amount), at)),
        lists(before, label) ==> 0 <= at < before.len() && before[at].0 == label,
        !lists(before, label) ==> 0 <= at <= before.len(),
    ensures
        is_breakdown(
            recorded(before, label, magnitude(txs[k].amount), at),
            txs.take(k + 1),
            window,
            fallback,
        ),
{
    let found = lists(before, label);
    let after = recorded(before, label, magnitude(txs[k].amount), at);
    let shorter = txs.take(k);
    let longer = txs.take(k + 1);
    assert(after[at].0 == label);
    lemma_expense_total_step(txs, k, label, window, fallback);
    if !found {
        lemma_no_expense_no_total(shorter, label, window, fallback);
    }
    assert forall|i: int| 0 <= i < after.len() implies {
        &&& has_expense(longer, (#[trigger] after[i]).0, window, fallback)
        &&& after[i].1 == expense_total(longer, after[i].0, window, fallback)
    } by {
        let name = after[i].0;
        lemma_expense_total_step(txs, k, name, window, fallback);
        if i != at {
            if i < at {
                lemma_text_before_asymmetric(name, label);
            } else {
                lemma_text_before_asymmetric(label, name);
            }
            let j = if found || i < at { i } else { i - 1 };
            assert(before[j] == after[i]);
        }
    }
    assert forall|name: Seq<char>| #[trigger]
        has_expense(longer, name, window, fallback) implies lists(after, name) by {
        lemma_expense_total_step(txs, k, name, window, fallback);
        if name != label {
            let j = choose|j: int| 0 <= j < before.len() && (#[trigger] before[j]).0 == name;
            let i = if found || j < at { j } else { j + 1 };
            assert(after[i] == before[j]);
        } else {
            assert(after[at].0 == label);
        }
    }
}

/// Adds `amount` to the row named `label`; where no row has that name, puts a
/// new row in its place in the order. Returns the place of the row.
fn record_expense(rows: &mut Vec<CategoryTotal>, label: &str, amount: u64) -> (at: usize)
    requires
        ascending(old(rows).deep_view()),
        forall|i: int| 0 <= i < old(rows).len() ==> old(rows)[i].total + amount <= u128::MAX,
    ensures
        final(rows).deep_view() == recorded(
            old(rows).deep_view(),
            label@,
            amount as nat,
            at as int,
        ),
        ascending(final(rows).deep_view()),
        at <= old(rows).len(),
        lists(old(rows).deep_view(), label@) ==> {
            &&& at < old(rows).len()
            &&& old(rows).deep_view()[at as int].0 == label@
        },
{
    let ghost before = rows.deep_view();
    let n = rows.len();
    let mut p: usize = 0;
    let mut found = false;
    let mut settled = false;
    while p < n && !settled
        invariant
            *rows == *old(rows),
            n == rows.len(),
            p <= n,
            forall|j: int| 0 <= j < p ==> text_before((#[trigger] rows[j]).category@, label@),
            settled ==> p < n,
            settled && found ==> rows[p as int].category@ == label@,
            settled && !found ==> text_before(label@, rows[p as int].category@),
            !settled ==> !found,
        decreases n - p + if settled { 0int } else { 1int },
    {
        match placement(rows[p].category.as_str(), label) {
            Placement::Before => {
                p = p + 1;
            },
            Placement::Same => {
                found = true;
                settled = true;
            },
            Placement::After => {
                settled = true;
            },
        }
    }
    proof {
        // Rows before the place come before the name, rows from the place on
        // come after it: the name is listed only where it was found.
        assert forall|j: int| 0 <= j < before.len() && j != p implies (#[trigger] before[j]).0
            != label@ by {
            assert(before[j].0 == rows[j].category@);
            if j < p {
                lemma_text_before_asymmetric(before[j].0, label@);
            } else {
                assert(before[p as int].0 == rows[p as int].category@);
                if found {
                    lemma_text_before_asymmetric(before[p as int].0, before[j].0);
                } else {
                    lemma_text_before_transitive(label@, before[p as int].0, before[j].0);
                    lemma_text_before_asymmetric(label@, before[j].0);
                }
            }
        }
        if found {
            assert(before[p as int].0 == rows[p as int].category@);
        } else if p < n {
            assert(before[p as int].0 == rows[p as int].category@);
            lemma_text_before_asymmetric(label@, before[p as int].0);
        }
        assert(found <==> lists(before, label@));
    }
    if found {
        let total = rows[p].total + amount as u128;
        let category = rows[p].category.clone();
        rows.set(p, CategoryTotal { category, total });
        proof {
            let after = rows.deep_view();
            assert(after =~= before.update(
                p as int,
                (label@, (before[p as int].1 + amount) as nat),
            ));
            // The names are unchanged, and so is their order.
            assert forall|i: int, j: int| 0 <= i < j < after.len() implies text_before(
                (#[trigger] after[i]).0,
                (#[trigger] after[j]).0,
            ) by {
                assert(after[i].0 == before[i].0 && after[j].0 == before[j].0);
            }
        }
    } else {
        rows.insert(p, CategoryTotal { category: label.to_owned(), total: amount as u128 });
        proof {
            let after = rows.deep_view();
            assert(after =~= before.insert(p as int, (label@, amount as nat)));
            assert forall|j: int| 0 <= j < p implies text_before(
                (#[trigger] before[j]).0,
                label@,
            ) by {
                assert(before[j].0 == old(rows)[j].category@);
            }
            assert forall|j: int| p <= j < before.len() implies text_before(
                label@,
                (#[trigger] before[j]).0,
            ) by {
                assert(before[p as int].0 == old(rows)[p as int].category@);
                if j > p {
                    lemma_text_before_transitive(label@, before[p as int].0, before[j].0);
                }
            }
            assert forall|i: int, j: int| 0 <= i < j < after.len() implies text_before(
                (#[trigger] after[i]).0,
                (#[trigger] after[j]).0,
            ) by {
                if i < p && p < j {
                    lemma_text_before_transitive(after[i].0, label@, after[j].0);
                }
            }
        }
    }
    p
}

/// The expenses among `txs` that fall into `window` (all of them where it is
/// `None`), summed by category and listed in ascending order of category
/// name. A transaction without category counts under `fallback`, or not at
/// all where there is none. Income never counts.
pub fn expense_totals(
    txs: &[Transaction],
    window: Option<(&str, &str)>,
    fallback: Option<&str>,
) -> (rows: Vec<CategoryTotal>)
    ensures
        is_breakdown(rows.deep_view(), txs.deep_view(), window_of(window), label_of(fallback)),
{
    let ghost w = window_of(window);
    let ghost f = label_of(fallback);
    let ghost all = txs.deep_view();
    let mut rows: Vec<CategoryTotal> = Vec::new();
    let mut k: usize = 0;
    assert(all.take(0) =~= Seq::<TransactionView>::empty());
    proof {
        lemma_amounts_are_bounded(txs);
    }
    while k < txs.len()
        invariant
            k <= txs.len(),
            w == window_of(window),
            f == label_of(fallback),
            all == txs.deep_view(),
            bounded_amounts(all),
            is_breakdown(rows.deep_view(), all.take(k as int), w, f),
        decreases txs.len() - k,
    {
        let t = &txs[k];
        assert(all[k as int] == t@);
        let label: Option<&str> = match &t.category {
            Some(c) => Some(c.as_str()),
            None => fallback,
        };
        let mut counted = false;
        if t.amount < 0 && date_within(t.date.as_str(), window) {
            if let Some(name) = label {
                let amount = magnitude_of(t.amount);
                let ghost before = rows.deep_view();
                proof {
                    assert forall|i: int| 0 <= i < rows.len() implies rows[i].total + amount
                        <= u128::MAX by {
                        assert(before[i] == rows[i]@);
                        lemma_take_keeps_bound(all, k as int);
                        lemma_expense_total_bound(all.take(k as int), before[i].0, w, f);
                    }
                }
                let at = record_expense(&mut rows, name, amount);
                proof {
                    lemma_breakdown_grows(before, all, k as int, w, f, name@, at as int);
                }
                counted = true;
            }
        }
        proof {
            if !counted {
                lemma_breakdown_skips(rows.deep_view(), all, k as int, w, f);
            }
        }
        k = k + 1;
    }
    assert(all.take(k as int) =~= all);
    rows
}

/// The amounts of transactions are held in an `i64`, so they are bounded.
pub proof fn lemma_amounts_are_bounded(txs: &[Transaction])
    ensures
        bounded_amounts(txs.deep_view()),
{
    let all = txs.deep_view();
    assert forall|i: int| 0 <= i < all.len() implies magnitude((#[trigger] all[i]).amount)
        <= max_magnitude() by {
        assert(all[i] == txs@[i]@);
    }
}

/// The first transactions of a list with bounded amounts have bounded
/// amounts.
pub proof fn lemma_take_keeps_bound(txs: Seq<TransactionView>, k: int)
    requires
        0 <= k <= txs.len(),
        bounded_amounts(txs),
    ensures
        bounded_amounts(txs.take(k)),
{
    assert forall|i: int| 0 <= i < k implies magnitude((#[trigger] txs.take(k)[i]).amount)
        <= max_magnitude() by {
        assert(txs.take(k)[i] == txs[i]);
    }
}

} // verus!
