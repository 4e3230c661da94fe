use finance_tracker::dates::{date_in_month, is_well_formed_date};
use finance_tracker::models::transaction::Transaction;
use finance_tracker::reports::{category_breakdown, monthly_spending, net_total};
use finance_tracker::text::{placement, same_text, Placement};
use finance_tracker::totals::{expense_totals, magnitude_of, CategoryTotal};

fn tx(amount: i64, category: Option<&str>, date: &str) -> Transaction {
    Transaction {
        id: 0,
        amount,
        category: category.map(|c| c.to_string()),
        description: None,
        date: date.to_string(),
    }
}

fn row(category: &str, total: u128) -> CategoryTotal {
    CategoryTotal { category: category.to_string(), total }
}

fn march_food() -> Vec<Transaction> {
    vec![
        tx(-5000, Some("Food"), "03/01/2024"),
        tx(-3000, Some("Food"), "03/15/2024"),
        tx(2000, Some("Food"), "03/20/2024"),
    ]
}

#[test]
fn breakdown_sums_expense_magnitudes_and_leaves_income_out() {
    assert_eq!(category_breakdown(&march_food(), "03", "2024"), vec![row("Food", 8000)]);
}

#[test]
fn monthly_spending_nets_before_taking_the_magnitude() {
    assert_eq!(monthly_spending(&march_food(), "03", "2024"), 6000);
}

#[test]
fn monthly_spending_and_breakdown_differ_on_mixed_signs() {
    let txs = march_food();
    let total: u128 = category_breakdown(&txs, "03", "2024").iter().map(|r| r.total).sum();
    assert_eq!(total, 8000);
    assert_ne!(total, monthly_spending(&txs, "03", "2024"));
}

#[test]
fn monthly_spending_of_net_income_is_positive() {
    let txs = vec![tx(10000, None, "03/01/2024"), tx(-2500, Some("Food"), "03/02/2024")];
    assert_eq!(monthly_spending(&txs, "03", "2024"), 7500);
}

#[test]
fn monthly_spending_counts_all_categories_and_none() {
    let txs = vec![
        tx(-100, Some("A"), "12/31/2023"),
        tx(-200, None, "12/01/2023"),
        tx(-400, Some("B"), "12/15/2023"),
        tx(-800, Some("B"), "11/15/2023"),
        tx(-1600, Some("B"), "12/15/2024"),
    ];
    assert_eq!(monthly_spending(&txs, "12", "2023"), 700);
    assert_eq!(monthly_spending(&txs, "01", "2023"), 0);
    assert_eq!(monthly_spending(&[], "12", "2023"), 0);
}

#[test]
fn month_and_year_are_compared_as_text() {
    let txs = vec![tx(-100, Some("A"), "02/10/2024")];
    assert_eq!(monthly_spending(&txs, "02", "2024"), 100);
    assert_eq!(monthly_spending(&txs, "2", "2024"), 0);
    assert_eq!(monthly_spending(&txs, " 2", "2024"), 0);
    assert_eq!(monthly_spending(&txs, "02", "24"), 0);
    assert!(category_breakdown(&txs, "2", "2024").is_empty());
}

#[test]
fn malformed_dates_are_passed_over() {
    let txs = vec![
        tx(-100, Some("A"), "03/01/2024"),
        tx(-200, Some("A"), "2024-03-01"),
        tx(-400, Some("A"), "03/1/2024"),
        tx(-800, Some("A"), "03/01/2024 "),
        tx(-1600, Some("A"), ""),
        tx(-3200, Some("A"), "03-01-2024"),
        tx(-6400, Some("A"), "03/0a/2024"),
        tx(-12800, Some("A"), "03/\u{e9}1/2024"),
    ];
    assert_eq!(monthly_spending(&txs, "03", "2024"), 100);
    assert_eq!(category_breakdown(&txs, "03", "2024"), vec![row("A", 100)]);
}

#[test]
fn breakdown_is_ordered_by_category_name() {
    let txs = vec![
        tx(-300, Some("Transport"), "03/01/2024"),
        tx(-200, Some("Food"), "03/02/2024"),
        tx(-100, Some("Housing"), "03/03/2024"),
        tx(-50, Some("Food"), "03/04/2024"),
        tx(-25, Some("food"), "03/04/2024"),
        tx(-10, Some("Entertainment"), "03/05/2024"),
        tx(-5, Some(""), "03/05/2024"),
        tx(-1, Some("\u{c9}cole"), "03/05/2024"),
    ];
    assert_eq!(
        category_breakdown(&txs, "03", "2024"),
        vec![
            row("", 5),
            row("Entertainment", 10),
            row("Food", 250),
            row("Housing", 100),
            row("Transport", 300),
            row("food", 25),
            row("\u{c9}cole", 1),
        ]
    );
}

#[test]
fn breakdown_omits_categories_without_expenses() {
    let txs = vec![
        tx(5000, Some("Salary"), "03/01/2024"),
        tx(0, Some("Zero"), "03/01/2024"),
        tx(-100, Some("Other month"), "04/01/2024"),
        tx(-100, None, "03/01/2024"),
        tx(-700, Some("Food"), "03/01/2024"),
    ];
    assert_eq!(category_breakdown(&txs, "03", "2024"), vec![row("Food", 700)]);
    assert!(category_breakdown(&[], "03", "2024").is_empty());
}

#[test]
fn expense_totals_of_all_time_with_a_fallback_name() {
    let txs = vec![
        tx(-100, None, "03/01/2024"),
        tx(-200, Some("Food"), "bad date"),
        tx(-400, None, "01/01/1999"),
        tx(800, None, "01/01/1999"),
    ];
    assert_eq!(
        expense_totals(&txs, None, Some("Uncategorized")),
        vec![row("Food", 200), row("Uncategorized", 500)]
    );
    assert_eq!(expense_totals(&txs, None, None), vec![row("Food", 200)]);
    assert_eq!(
        expense_totals(&txs, Some(("03", "2024")), Some("Food")),
        vec![row("Food", 100)]
    );
}

#[test]
fn expense_totals_cannot_overflow() {
    let txs = vec![
        tx(i64::MIN, Some("X"), "01/01/2024"),
        tx(i64::MIN, Some("X"), "01/01/2024"),
        tx(i64::MIN, Some("X"), "01/01/2024"),
    ];
    assert_eq!(expense_totals(&txs, None, None), vec![row("X", 3 * (1u128 << 63))]);
    assert_eq!(net_total(&txs, "01", "2024"), -3 * (1i128 << 63));
}

#[test]
fn magnitude_of_amounts() {
    assert_eq!(magnitude_of(0), 0);
    assert_eq!(magnitude_of(-5000), 5000);
    assert_eq!(magnitude_of(5000), 5000);
    assert_eq!(magnitude_of(i64::MIN), 1u64 << 63);
    assert_eq!(magnitude_of(i64::MAX), i64::MAX as u64);
}

#[test]
fn well_formed_dates() {
    assert!(is_well_formed_date("03/01/2024"));
    assert!(is_well_formed_date("99/99/0000"));
    assert!(!is_well_formed_date("3/01/2024"));
    assert!(!is_well_formed_date("03/01/24"));
    assert!(!is_well_formed_date("03.01.2024"));
    assert!(!is_well_formed_date("03/01/2024x"));
    assert!(!is_well_formed_date(""));
    assert!(!is_well_formed_date("0\u{663}/01/2024"));
}

#[test]
fn dates_in_a_month() {
    assert!(date_in_month("03/01/2024", "03", "2024"));
    assert!(!date_in_month("03/01/2024", "01", "2024"));
    assert!(!date_in_month("03/01/2024", "03", "2023"));
    assert!(!date_in_month("03/01/2024", "3", "2024"));
    assert!(!date_in_month("03/01/2024", "03/", "2024"));
    assert!(!date_in_month("2024/01/03", "03", "2024"));
}

#[test]
fn names_are_ordered_by_their_bytes() {
    assert_eq!(placement("Food", "Transport"), Placement::Before);
    assert_eq!(placement("Transport", "Food"), Placement::After);
    assert_eq!(placement("Food", "Food"), Placement::Same);
    assert_eq!(placement("Food", "Foods"), Placement::Before);
    assert_eq!(placement("", "a"), Placement::Before);
    assert_eq!(placement("", ""), Placement::Same);
    assert_eq!(placement("Zoo", "apple"), Placement::Before);
    assert_eq!(placement("z", "\u{e9}"), Placement::Before);
    assert_eq!(placement("\u{10000}", "\u{ffff}"), Placement::After);
    assert!(same_text("abc", "abc"));
    assert!(!same_text("abc", "abd"));
    assert!(!same_text("abc", "ab"));
}

#[test]
fn placement_agrees_with_the_order_of_strings() {
    let names = ["", "a", "A", "ab", "b", "Food", "food", "\u{e9}", "\u{4e2d}", "\u{1f600}", "zz"];
    for a in names {
        for b in names {
            let expected = if a < b {
                Placement::Before
            } else if a == b {
                Placement::Same
            } else {
                Placement::After
            };
            assert_eq!(placement(a, b), expected);
        }
    }
}
