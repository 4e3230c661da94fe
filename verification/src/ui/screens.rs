//! What each screen of the dashboard shows, computed from the state and the
//! loaded records. Nothing here changes the state.

use vstd::prelude::*;
use vstd::string::*;
use crate::format::{
    amount_text, push_amount, push_signed, push_tenths, push_total, signed_decimal, tenths_text,
};
use crate::models::budget::{Budget, BudgetView};
use crate::models::transaction::{Transaction, TransactionView};
use crate::clock::current_month_and_year;
use crate::dates::is_calendar_month;
use crate::shares::{bar_cells, bar_length, percent_of_limit, percent_tenths, BAR_WIDTH};
use crate::text::same_text;
use crate::totals::{
    bounded_amounts, expense_total, expense_totals, is_breakdown, lemma_amounts_are_bounded,
    lemma_expense_counts, lemma_expense_total_bound, lemma_no_expense_no_total, lists,
    max_magnitude, CategoryTotal,
};
use crate::ui::app::{App, AppScreen, MENU_LEN};

verus! {

/// One entry of the main menu as it is shown.
#[derive(Debug, Clone, PartialEq, Eq)]
pub struct MenuLine {
    pub text: String,
    pub selected: bool,
}

impl View for MenuLine {
    type V = (Seq<char>, bool);

    /// The text of the line and whether it is the selected one.
    open spec fn view(&self) -> (Seq<char>, bool) {
        (self.text@, self.selected)
    }
}

impl DeepView for MenuLine {
    type V = (Seq<char>, bool);

    open spec fn deep_view(&self) -> (Seq<char>, bool) {
        self@
    }
}

/// The entries of the main menu, from top to bottom.
pub open spec fn menu_entries() -> Seq<Seq<char>> {
    seq!["Transactions"@, "Budgets"@, "Reports"@, "Quit"@]
}

/// The text of a menu entry: marked with `> ` under the cursor, indented by
/// two blanks elsewhere.
pub open spec fn menu_text(entry: Seq<char>, selected: bool) -> Seq<char> {
    if selected {
        "> "@ + entry
    } else {
        "  "@ + entry
    }
}

fn menu_entry(i: usize) -> (entry: &'static str)
    requires
        i < MENU_LEN,
    ensures
        entry@ == menu_entries()[i as int],
{
    if i == 0 {
        "Transactions"
    } else if i == 1 {
        "Budgets"
    } else if i == 2 {
        "Reports"
    } else {
        "Quit"
    }
}

/// `lines` are the lines of the main menu with the cursor at `cursor`: one
/// for each entry, the one under the cursor selected and marked.
pub open spec fn is_menu(lines: Seq<(Seq<char>, bool)>, cursor: int) -> bool {
    &&& lines.len() == MENU_LEN
    &&& forall|i: int|
        0 <= i < MENU_LEN ==> #[trigger] lines[i] == (
            menu_text(menu_entries()[i], i == cursor),
            i == cursor,
        )
}

/// The lines of the main menu. The entry under the cursor is the selected
/// one.
pub fn menu_lines(app: &App) -> (lines: Vec<MenuLine>)
    ensures
        is_menu(lines.deep_view(), app.menu_index as int),
{
    let mut lines: Vec<MenuLine> = Vec::new();
    let mut i: usize = 0;
    while i < MENU_LEN
        invariant
            i <= MENU_LEN,
            lines.len() == i,
            forall|j: int|
                0 <= j < i ==> (#[trigger] lines[j])@ == (
                    menu_text(menu_entries()[j], j == app.menu_index),
                    j == app.menu_index,
                ),
        decreases MENU_LEN - i,
    {
        let selected = i == app.menu_index;
        let mut text = if selected {
            "> ".to_owned()
        } else {
            "  ".to_owned()
        };
        text.append(menu_entry(i));
        lines.push(MenuLine { text, selected });
        i = i + 1;
    }
    assert forall|j: int| 0 <= j < MENU_LEN implies #[trigger] lines.deep_view()[j] == (
        menu_text(menu_entries()[j], j == app.menu_index),
        j == app.menu_index,
    ) by {
        assert(lines.deep_view()[j] == lines[j]@);
    }
    lines
}

/// The line of the transactions screen for one transaction: identifier,
/// date, amount with two decimals, description.
pub open spec fn transaction_line(t: TransactionView) -> Seq<char> {
    signed_decimal(t.id) + " | "@ + t.date + " | "@ + amount_text(t.amount) + " lei | "@
        + match t.description {
        Some(d) => d,
        None => Seq::<char>::empty(),
    }
}

/// `lines` are the lines of the transactions screen: one for each
/// transaction, in their order.
pub open spec fn are_transaction_lines(lines: Seq<Seq<char>>, txs: Seq<TransactionView>) -> bool {
    &&& lines.len() == txs.len()
    &&& forall|i: int| 0 <= i < txs.len() ==> #[trigger] lines[i] == transaction_line(txs[i])
}

/// The lines of the transactions screen, one for each transaction, in
/// their order.
pub fn transaction_lines(txs: &[Transaction]) -> (lines: Vec<String>)
    ensures
        are_transaction_lines(lines.deep_view(), txs.deep_view()),
{
    let mut lines: Vec<String> = Vec::new();
    let mut k: usize = 0;
    while k < txs.len()
        invariant
            k <= txs.len(),
            lines.len() == k,
            forall|i: int| 0 <= i < k ==> (#[trigger] lines[i])@ == transaction_line(txs[i]@),
        decreases txs.len() - k,
    {
        let t = &txs[k];
        let mut line = String::new();
        push_signed(&mut line, t.id);
        line.append(" | ");
        line.append(t.date.as_str());
        line.append(" | ");
        push_amount(&mut line, t.amount as i128);
        line.append(" lei | ");
        match &t.description {
            Some(d) => {
                line.append(d.as_str());
            },
            None => {},
        }
        lines.push(line);
        k = k + 1;
    }
    assert forall|i: int| 0 <= i < txs.len() implies #[trigger] lines.deep_view()[i]
        == transaction_line(txs.deep_view()[i]) by {
        assert(lines.deep_view()[i] == lines[i]@);
        assert(txs.deep_view()[i] == txs[i]@);
    }
    lines
}

/// The name under which transactions without category are shown.
pub open spec fn uncategorized() -> Seq<char> {
    "Uncategorized"@
}

/// The largest total that the expenses of a vector of transactions can reach.
pub open spec fn max_total() -> nat {
    0xffff_ffff_ffff_ffff * max_magnitude()
}

/// One row of the budgets screen.
#[derive(Debug, Clone, PartialEq, Eq)]
pub struct BudgetRow {
    pub category: String,
    pub limit: i64,
    pub spent: u128,
    /// The limit less what was spent; negative once the budget is exceeded.
    pub remaining: i128,
    /// What was spent as a percentage of the limit, in tenths of a percent.
    pub percent_tenths: u16,
    /// Set where nothing remains: the row is to be highlighted.
    pub over_budget: bool,
}

/// A row of the budgets screen as a mathematical value.
pub struct BudgetRowView {
    pub category: Seq<char>,
    pub limit: int,
    pub spent: nat,
    pub remaining: int,
    pub percent_tenths: nat,
    pub over_budget: bool,
}

impl View for BudgetRow {
    type V = BudgetRowView;

    open spec fn view(&self) -> BudgetRowView {
        BudgetRowView {
            category: self.category@,
            limit: self.limit as int,
            spent: self.spent as nat,
            remaining: self.remaining as int,
            percent_tenths: self.percent_tenths as nat,
            over_budget: self.over_budget,
        }
    }
}

impl DeepView for BudgetRow {
    type V = BudgetRowView;

    open spec fn deep_view(&self) -> BudgetRowView {
        self@
    }
}

/// The row of a category with the given limit and spending: what remains is
/// the limit less what was spent, and the row is over budget once nothing
/// remains.
pub open spec fn budget_row(category: Seq<char>, limit: int, spent: nat) -> BudgetRowView {
    BudgetRowView {
        category,
        limit,
        spent,
        remaining: limit - spent,
        percent_tenths: percent_tenths(spent, limit),
        over_budget: limit - spent < 0,
    }
}

/// The text of a row: limit, spending and remainder with two decimals, the
/// percentage with one.
pub open spec fn budget_row_text(row: BudgetRowView) -> Seq<char> {
    row.category + ": limit "@ + amount_text(row.limit) + " lei | spent "@ + amount_text(
        row.spent as int,
    ) + " lei | remaining "@ + amount_text(row.remaining) + " lei ("@ + tenths_text(
        row.percent_tenths,
    ) + "%)"@
}

impl BudgetRow {
    /// The row for a category with the given limit and spending.
    pub fn new(category: String, limit: i64, spent: u128) -> (row: BudgetRow)
        requires
            spent <= max_total(),
        ensures
            row@ == budget_row(category@, limit as int, spent as nat),
    {
        let remaining = limit as i128 - spent as i128;
        BudgetRow {
            category,
            limit,
            spent,
            remaining,
            percent_tenths: percent_of_limit(spent, limit),
            over_budget: remaining < 0,
        }
    }

    /// Writes the row out.
    pub fn line(&self) -> (line: String)
        ensures
            line@ == budget_row_text(self@),
    {
        let mut line = self.category.clone();
        line.append(": limit ");
        push_amount(&mut line, self.limit as i128);
        line.append(" lei | spent ");
        push_total(&mut line, self.spent);
        line.append(" lei | remaining ");
        push_amount(&mut line, self.remaining);
        line.append(" lei (");
        push_tenths(&mut line, self.percent_tenths as u128);
        line.append("%)");
        line
    }
}

/// `row` is the row of `budget`: it names the budget's category and limit,
/// and what was spent is the sum of the magnitudes of all expenses of that
/// category, of whatever date.
pub open spec fn is_budget_row(
    row: BudgetRowView,
    budget: BudgetView,
    txs: Seq<TransactionView>,
) -> bool {
    row == budget_row(
        budget.category,
        budget.limit_amount,
        expense_total(txs, budget.category, None, Some(uncategorized())),
    )
}

/// The total listed under `name`, or zero where none is.
fn listed_total(totals: &Vec<CategoryTotal>, name: &str) -> (total: u128)
    ensures
        lists(totals.deep_view(), name@) ==> exists|i: int|
            0 <= i < totals.len() && #[trigger] totals.deep_view()[i] == (name@, total as nat),
        !lists(totals.deep_view(), name@) ==> total == 0,
{
    let mut i: usize = 0;
    while i < totals.len()
        invariant
            i <= totals.len(),
            forall|j: int| 0 <= j < i ==> (#[trigger] totals.deep_view()[j]).0 != name@,
        decreases totals.len() - i,
    {
        assert(totals.deep_view()[i as int] == totals[i as int]@);
        if same_text(totals[i].category.as_str(), name) {
            return totals[i].total;
        }
        i = i + 1;
    }
    0
}

/// `rows` are the rows of the budgets screen: one for each budget, in their
/// order.
pub open spec fn are_budget_rows(
    rows: Seq<BudgetRowView>,
    budgets: Seq<BudgetView>,
    txs: Seq<TransactionView>,
) -> bool {
    &&& rows.len() == budgets.len()
    &&& forall|i: int| 0 <= i < budgets.len() ==> is_budget_row(#[trigger] rows[i], budgets[i], txs)
}

/// The rows of the budgets screen, one for each budget, in their order. What
/// was spent counts the expenses of all time, not of one month; a
/// transaction without category counts under `Uncategorized`.
pub fn budget_rows(budgets: &[Budget], txs: &[Transaction]) -> (rows: Vec<BudgetRow>)
    ensures
        are_budget_rows(rows.deep_view(), budgets.deep_view(), txs.deep_view()),
{
    let count = txs.len();
    let totals = expense_totals(txs, None, Some("Uncategorized"));
    let ghost fallback = Some(uncategorized());
    let ghost all = txs.deep_view();
    let mut rows: Vec<BudgetRow> = Vec::new();
    let mut k: usize = 0;
    proof {
        lemma_amounts_are_bounded(txs);
    }
    while k < budgets.len()
        invariant
            k <= budgets.len(),
            rows.len() == k,
            count == txs.len(),
            all == txs.deep_view(),
            bounded_amounts(all),
            fallback == Some(uncategorized()),
            is_breakdown(totals.deep_view(), all, None, fallback),
            forall|i: int| 0 <= i < k ==> is_budget_row((#[trigger] rows[i])@, budgets[i]@, all),
        decreases budgets.len() - k,
    {
        let budget = &budgets[k];
        let spent = listed_total(&totals, budget.category.as_str());
        proof {
            let name = budget.category@;
            if !lists(totals.deep_view(), name) {
                lemma_no_expense_no_total(all, name, None, fallback);
            }
            lemma_expense_total_bound(all, name, None, fallback);
            assert(count * max_magnitude() <= max_total());
        }
        rows.push(BudgetRow::new(budget.category.clone(), budget.limit_amount, spent));
        k = k + 1;
    }
    assert forall|i: int| 0 <= i < budgets.len() implies is_budget_row(
        #[trigger] rows.deep_view()[i],
        budgets.deep_view()[i],
        all,
    ) by {
        assert(rows.deep_view()[i] == rows[i]@);
        assert(budgets.deep_view()[i] == budgets[i]@);
    }
    rows
}

/// One row of the reports screen: a category, what was spent in it, and the
/// length of its bar in cells.
#[derive(Debug, Clone, PartialEq, Eq)]
pub struct ReportRow {
    pub category: String,
    pub total: u128,
    pub bar: usize,
}

/// A row of the reports screen as a mathematical value.
pub struct ReportRowView {
    pub category: Seq<char>,
    pub total: nat,
    pub bar: nat,
}

impl View for ReportRow {
    type V = ReportRowView;

    open spec fn view(&self) -> ReportRowView {
        ReportRowView { category: self.category@, total: self.total as nat, bar: self.bar as nat }
    }
}

impl DeepView for ReportRow {
    type V = ReportRowView;

    open spec fn deep_view(&self) -> ReportRowView {
        self@
    }
}

/// The contents of the reports screen for one month.
#[derive(Debug, Clone, PartialEq, Eq)]
pub struct Report {
    pub month: String,
    pub year: String,
    pub rows: Vec<ReportRow>,
}

/// The rows without their bars.
pub open spec fn report_totals(rows: Seq<ReportRowView>) -> Seq<(Seq<char>, nat)> {
    Seq::new(rows.len(), |i: int| (rows[i].category, rows[i].total))
}

/// The largest total among the rows; zero where there is none.
pub open spec fn largest_total(totals: Seq<(Seq<char>, nat)>) -> nat
    decreases totals.len(),
{
    if totals.len() == 0 {
        0
    } else {
        let earlier = largest_total(totals.drop_last());
        if totals.last().1 > earlier {
            totals.last().1
        } else {
            earlier
        }
    }
}

/// No total is larger than the largest.
pub proof fn lemma_largest_total_bounds(totals: Seq<(Seq<char>, nat)>, i: int)
    requires
        0 <= i < totals.len(),
    ensures
        totals[i].1 <= largest_total(totals),
    decreases totals.len(),
{
    if i < totals.len() - 1 {
        assert(totals.drop_last()[i] == totals[i]);
        lemma_largest_total_bounds(totals.drop_last(), i);
    }
}

/// `rows` are the rows of the report for the given month: the breakdown of
/// the expenses dated in that month, transactions without category counted
/// under `Uncategorized`, each row with a bar in proportion to the largest
/// total.
pub open spec fn is_report(
    rows: Seq<ReportRowView>,
    txs: Seq<TransactionView>,
    month: Seq<char>,
    year: Seq<char>,
) -> bool {
    &&& is_breakdown(report_totals(rows), txs, Some((month, year)), Some(uncategorized()))
    &&& forall|i: int|
        0 <= i < rows.len() ==> (#[trigger] rows[i]).bar == bar_length(
            rows[i].total,
            largest_total(report_totals(rows)),
        )
}

fn largest_of(totals: &Vec<CategoryTotal>) -> (largest: u128)
    ensures
        largest == largest_total(totals.deep_view()),
{
    let ghost all = totals.deep_view();
    let mut largest: u128 = 0;
    let mut i: usize = 0;
    while i < totals.len()
        invariant
            i <= totals.len(),
            all == totals.deep_view(),
            largest == largest_total(all.take(i as int)),
        decreases totals.len() - i,
    {
        assert(all.take(i + 1).drop_last() =~= all.take(i as int));
        assert(all.take(i + 1).last() == totals[i as int]@);
        if totals[i].total > largest {
            largest = totals[i].total;
        }
        i = i + 1;
    }
    assert(all.take(i as int) =~= all);
    largest
}

/// The rows of the reports screen for the given month, in ascending order of
/// category name. Only expenses dated in that month count; a category
/// without any has no row.
pub fn report_rows(txs: &[Transaction], month: &str, year: &str) -> (rows: Vec<ReportRow>)
    ensures
        is_report(rows.deep_view(), txs.deep_view(), month@, year@),
        forall|i: int| 0 <= i < rows.len() ==> 1 <= (#[trigger] rows[i]).bar <= BAR_WIDTH,
{
    let totals = expense_totals(txs, Some((month, year)), Some("Uncategorized"));
    let largest = largest_of(&totals);
    let mut rows: Vec<ReportRow> = Vec::new();
    let mut i: usize = 0;
    while i < totals.len()
        invariant
            i <= totals.len(),
            rows.len() == i,
            largest == largest_total(totals.deep_view()),
            is_breakdown(
                totals.deep_view(),
                txs.deep_view(),
                Some((month@, year@)),
                Some(uncategorized()),
            ),
            forall|j: int|
                0 <= j < i ==> {
                    &&& (#[trigger] rows[j]).category@ == totals[j].category@
                    &&& rows[j].total == totals[j].total
                    &&& rows[j].bar == bar_length(totals[j].total as nat, largest as nat)
                    &&& 1 <= rows[j].bar <= BAR_WIDTH
                },
        decreases totals.len() - i,
    {
        proof {
            // The row has an expense, so the largest total is above zero.
            let row = totals.deep_view()[i as int];
            assert(row == totals[i as int]@);
            lemma_expense_counts(
                txs.deep_view(),
                row.0,
                Some((month@, year@)),
                Some(uncategorized()),
            );
            lemma_largest_total_bounds(totals.deep_view(), i as int);
        }
        let entry = &totals[i];
        rows.push(
            ReportRow {
                category: entry.category.clone(),
                total: entry.total,
                bar: bar_cells(entry.total, largest),
            },
        );
        i = i + 1;
    }
    proof {
        let views = rows.deep_view();
        assert(report_totals(views) =~= totals.deep_view()) by {
            assert forall|j: int| 0 <= j < rows.len() implies report_totals(views)[j]
                == totals.deep_view()[j] by {
                assert(views[j] == rows[j]@);
                assert(totals.deep_view()[j] == totals[j]@);
            }
        }
        assert forall|j: int| 0 <= j < views.len() implies (#[trigger] views[j]).bar
            == bar_length(views[j].total, largest_total(report_totals(views))) by {
            assert(views[j] == rows[j]@);
        }
    }
    rows
}

/// The report for the given month.
pub fn report_for(txs: &[Transaction], month: &str, year: &str) -> (report: Report)
    ensures
        report.month@ == month@,
        report.year@ == year@,
        is_report(report.rows.deep_view(), txs.deep_view(), month@, year@),
{
    Report { month: month.to_owned(), year: year.to_owned(), rows: report_rows(txs, month, year) }
}

/// The report for the current month of the local clock. It names the month
/// that it was made for.
pub fn current_report(txs: &[Transaction]) -> (report: Report)
    ensures
        is_calendar_month(report.month@, report.year@),
        is_report(report.rows.deep_view(), txs.deep_view(), report.month@, report.year@),
{
    let now = current_month_and_year();
    report_for(txs, now.0.as_str(), now.1.as_str())
}

/// What the dashboard shows on its current screen.
#[derive(Debug, Clone, PartialEq, Eq)]
pub enum ScreenContents {
    MainMenu(Vec<MenuLine>),
    Transactions(Vec<String>),
    Budgets(Vec<BudgetRow>),
    Reports(Report),
}

/// What the dashboard shows in state `app`, computed anew from the loaded
/// records: the contents of the current screen and of no other. The reports
/// screen is made for the current month of the local clock.
pub fn screen_contents(app: &App, budgets: &[Budget], txs: &[Transaction]) -> (contents:
    ScreenContents)
    ensures
        match contents {
            ScreenContents::MainMenu(lines) => {
                &&& app.screen == AppScreen::MainMenu
                &&& is_menu(lines.deep_view(), app.menu_index as int)
            },
            ScreenContents::Transactions(lines) => {
                &&& app.screen == AppScreen::Transactions
                &&& are_transaction_lines(lines.deep_view(), txs.deep_view())
            },
            ScreenContents::Budgets(rows) => {
                &&& app.screen == AppScreen::Budgets
                &&& are_budget_rows(rows.deep_view(), budgets.deep_view(), txs.deep_view())
            },
            ScreenContents::Reports(report) => {
                &&& app.screen == AppScreen::Reports
                &&& is_calendar_month(report.month@, report.year@)
                &&& is_report(
                    report.rows.deep_view(),
                    txs.deep_view(),
                    report.month@,
                    report.year@,
                )
            },
        },
{
    match app.screen {
        AppScreen::MainMenu => ScreenContents::MainMenu(menu_lines(app)),
        AppScreen::Transactions => ScreenContents::Transactions(transaction_lines(txs)),
        AppScreen::Budgets => ScreenContents::Budgets(budget_rows(budgets, txs)),
        AppScreen::Reports => ScreenContents::Reports(current_report(txs)),
    }
}

/// The same character `n` times.
pub open spec fn repeated(c: char, n: nat) -> Seq<char> {
    Seq::new(n, |i: int| c)
}

/// A bar of `cells` full blocks, filled up with blanks to the full width
/// where it is shorter.
pub open spec fn bar_text(cells: nat) -> Seq<char> {
    repeated('\u{2588}', cells) + repeated(
        ' ',
        if cells < BAR_WIDTH {
            (BAR_WIDTH - cells) as nat
        } else {
            0
        },
    )
}

/// The line of one row: category, bar, total with two decimals.
pub open spec fn report_line(row: ReportRowView) -> Seq<char> {
    row.category + "  "@ + bar_text(row.bar) + "  "@ + amount_text(row.total as int) + " lei"@
}

/// The line that closes the chart.
pub open spec fn chart_rule() -> Seq<char> {
    "----------------------------------------"@
}

/// The line shown in place of the chart where no category has expenses.
pub open spec fn no_expenses_notice() -> Seq<char> {
    "No expenses found for the current month."@
}

/// The lines of the chart: the notice alone where there are no rows, else
/// one line for each row followed by the closing rule.
pub open spec fn chart(rows: Seq<ReportRowView>) -> Seq<Seq<char>> {
    if rows.len() == 0 {
        seq![no_expenses_notice()]
    } else {
        Seq::new(rows.len(), |i: int| report_line(rows[i])).push(chart_rule())
    }
}

fn push_repeated(out: &mut String, piece: &str, c: char, n: usize)
    requires
        piece@ == seq![c],
    ensures
        final(out)@ == old(out)@ + repeated(c, n as nat),
{
    let mut i: usize = 0;
    while i < n
        invariant
            i <= n,
            piece@ == seq![c],
            out@ == old(out)@ + repeated(c, i as nat),
        decreases n - i,
    {
        out.append(piece);
        i = i + 1;
    }
}

/// Writes the rows out as the chart of the reports screen.
pub fn chart_lines(rows: &Vec<ReportRow>) -> (lines: Vec<String>)
    ensures
        lines.deep_view() == chart(rows.deep_view()),
{
    let mut lines: Vec<String> = Vec::new();
    if rows.len() == 0 {
        lines.push("No expenses found for the current month.".to_owned());
        assert(lines.deep_view() =~= chart(rows.deep_view()));
        return lines;
    }
    proof {
        reveal_strlit("\u{2588}");
        reveal_strlit(" ");
    }
    let mut i: usize = 0;
    while i < rows.len()
        invariant
            i <= rows.len(),
            lines.len() == i,
            "\u{2588}"@ == seq!['\u{2588}'],
            " "@ == seq![' '],
            forall|j: int| 0 <= j < i ==> (#[trigger] lines[j])@ == report_line(rows[j]@),
        decreases rows.len() - i,
    {
        let row = &rows[i];
        let mut line = row.category.clone();
        line.append("  ");
        push_repeated(&mut line, "\u{2588}", '\u{2588}', row.bar);
        let blanks = if row.bar < BAR_WIDTH {
            BAR_WIDTH - row.bar
        } else {
            0
        };
        push_repeated(&mut line, " ", ' ', blanks);
        line.append("  ");
        push_total(&mut line, row.total);
        line.append(" lei");
        lines.push(line);
        i = i + 1;
    }
    lines.push("----------------------------------------".to_owned());
    assert(lines.deep_view() =~= chart(rows.deep_view())) by {
        assert forall|j: int| 0 <= j < lines.len() implies lines.deep_view()[j] == chart(
            rows.deep_view(),
        )[j] by {
            assert(lines.deep_view()[j] == lines[j]@);
            if j < rows.len() {
                assert(rows.deep_view()[j] == rows[j]@);
            }
        }
    }
    lines
}

} // verus!
