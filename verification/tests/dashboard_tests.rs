use finance_tracker::clock::current_month_and_year;
use finance_tracker::dates::{write_month, write_year};
use finance_tracker::format::format_amount;
use finance_tracker::models::budget::Budget;
use finance_tracker::models::transaction::Transaction;
use finance_tracker::shares::{bar_cells, percent_of_limit};
use finance_tracker::ui::app::{App, AppScreen, Key};
use finance_tracker::ui::screens::{
    budget_rows, chart_lines, current_report, menu_lines, report_for, report_rows,
    screen_contents, transaction_lines, BudgetRow, ReportRow, ScreenContents,
};

fn tx(id: i32, amount: i64, category: Option<&str>, description: Option<&str>, date: &str) -> Transaction {
    Transaction {
        id,
        amount,
        category: category.map(|c| c.to_string()),
        description: description.map(|d| d.to_string()),
        date: date.to_string(),
    }
}

fn budget(category: &str, limit_amount: i64) -> Budget {
    Budget { category: category.to_string(), limit_amount }
}

fn press(app: &mut App, keys: &[Key]) -> bool {
    for key in keys {
        if app.handle_key(*key) {
            return true;
        }
    }
    false
}

#[test]
fn dashboard_starts_in_the_main_menu() {
    let app = App::new();
    assert_eq!(app.screen, AppScreen::MainMenu);
    assert_eq!(app.menu_index, 0);
}

#[test]
fn down_down_enter_opens_reports() {
    let mut app = App::new();
    assert!(!press(&mut app, &[Key::Down, Key::Down, Key::Enter]));
    assert_eq!(app.screen, AppScreen::Reports);
    assert_eq!(app.menu_index, 2);
}

#[test]
fn m_returns_to_the_main_menu_with_the_cursor_kept() {
    for (index, screen) in
        [(0, AppScreen::Transactions), (1, AppScreen::Budgets), (2, AppScreen::Reports)]
    {
        let mut app = App::new();
        for _ in 0..index {
            assert!(!app.handle_key(Key::Down));
        }
        assert!(!app.handle_key(Key::Enter));
        assert_eq!(app.screen, screen);
        assert!(!app.handle_key(Key::Char('m')));
        assert_eq!(app.screen, AppScreen::MainMenu);
        assert_eq!(app.menu_index, index);
    }
}

#[test]
fn m_in_the_main_menu_changes_nothing() {
    let mut app = App { screen: AppScreen::MainMenu, menu_index: 3 };
    assert!(!app.handle_key(Key::Char('m')));
    assert_eq!(app, App { screen: AppScreen::MainMenu, menu_index: 3 });
}

#[test]
fn up_stops_at_the_first_entry() {
    let mut app = App::new();
    assert!(!app.handle_key(Key::Up));
    assert_eq!(app.menu_index, 0);
    app.menu_index = 2;
    assert!(!app.handle_key(Key::Up));
    assert_eq!(app.menu_index, 1);
}

#[test]
fn down_stops_at_the_last_entry() {
    let mut app = App::new();
    assert!(!press(&mut app, &[Key::Down, Key::Down, Key::Down]));
    assert_eq!(app.menu_index, 3);
    assert!(!press(&mut app, &[Key::Down, Key::Down]));
    assert_eq!(app.menu_index, 3);
}

#[test]
fn enter_on_each_entry() {
    let mut app = App { screen: AppScreen::MainMenu, menu_index: 0 };
    assert!(!app.handle_key(Key::Enter));
    assert_eq!(app.screen, AppScreen::Transactions);
    let mut app = App { screen: AppScreen::MainMenu, menu_index: 1 };
    assert!(!app.handle_key(Key::Enter));
    assert_eq!(app.screen, AppScreen::Budgets);
    let mut app = App { screen: AppScreen::MainMenu, menu_index: 2 };
    assert!(!app.handle_key(Key::Enter));
    assert_eq!(app.screen, AppScreen::Reports);
    let mut app = App { screen: AppScreen::MainMenu, menu_index: 3 };
    assert!(app.handle_key(Key::Enter));
    assert_eq!(app, App { screen: AppScreen::MainMenu, menu_index: 3 });
}

#[test]
fn enter_outside_the_main_menu_changes_nothing() {
    for screen in [AppScreen::Transactions, AppScreen::Budgets, AppScreen::Reports] {
        for menu_index in 0..4 {
            let mut app = App { screen, menu_index };
            assert!(!app.handle_key(Key::Enter));
            assert_eq!(app, App { screen, menu_index });
        }
    }
}

#[test]
fn q_ends_the_session_from_any_screen() {
    for screen in
        [AppScreen::MainMenu, AppScreen::Transactions, AppScreen::Budgets, AppScreen::Reports]
    {
        let mut app = App { screen, menu_index: 1 };
        assert!(app.handle_key(Key::Char('q')));
        assert_eq!(app, App { screen, menu_index: 1 });
    }
}

#[test]
fn other_keys_change_nothing() {
    for key in [Key::Other, Key::Char('x'), Key::Char('Q'), Key::Char('M'), Key::Char(' ')] {
        let mut app = App { screen: AppScreen::Budgets, menu_index: 2 };
        assert!(!app.handle_key(key));
        assert_eq!(app, App { screen: AppScreen::Budgets, menu_index: 2 });
    }
}

#[test]
fn arrows_move_the_cursor_on_every_screen() {
    let mut app = App { screen: AppScreen::Reports, menu_index: 2 };
    assert!(!app.handle_key(Key::Up));
    assert_eq!(app, App { screen: AppScreen::Reports, menu_index: 1 });
    assert!(!app.handle_key(Key::Down));
    assert_eq!(app, App { screen: AppScreen::Reports, menu_index: 2 });
}

#[test]
fn main_menu_marks_the_entry_under_the_cursor() {
    let lines = menu_lines(&App { screen: AppScreen::MainMenu, menu_index: 1 });
    let texts: Vec<&str> = lines.iter().map(|l| l.text.as_str()).collect();
    assert_eq!(texts, vec!["  Transactions", "> Budgets", "  Reports", "  Quit"]);
    let selected: Vec<bool> = lines.iter().map(|l| l.selected).collect();
    assert_eq!(selected, vec![false, true, false, false]);
    let lines = menu_lines(&App::new());
    assert_eq!(lines[0].text, "> Transactions");
    assert!(lines[0].selected);
    assert_eq!(lines[3].text, "  Quit");
}

#[test]
fn transactions_screen_has_a_line_for_each_transaction() {
    let txs = vec![
        tx(1, -5000, Some("Food"), Some("Lunch"), "03/01/2024"),
        tx(2, 123456, None, None, "03/02/2024"),
        tx(-3, -5, None, Some(""), "odd date"),
        tx(40, 0, None, Some("nothing | at all"), "12/31/1999"),
    ];
    assert_eq!(
        transaction_lines(&txs),
        vec![
            "1 | 03/01/2024 | -50.00 lei | Lunch",
            "2 | 03/02/2024 | 1234.56 lei | ",
            "-3 | odd date | -0.05 lei | ",
            "40 | 12/31/1999 | 0.00 lei | nothing | at all",
        ]
    );
    assert!(transaction_lines(&[]).is_empty());
}

#[test]
fn transactions_screen_writes_the_extremes() {
    let txs = vec![
        tx(i32::MIN, i64::MIN, None, None, ""),
        tx(i32::MAX, i64::MAX, None, None, ""),
    ];
    assert_eq!(
        transaction_lines(&txs),
        vec![
            "-2147483648 |  | -92233720368547758.08 lei | ",
            "2147483647 |  | 92233720368547758.07 lei | ",
        ]
    );
}

#[test]
fn amounts_are_written_with_two_decimals() {
    assert_eq!(format_amount(0), "0.00");
    assert_eq!(format_amount(5), "0.05");
    assert_eq!(format_amount(-5), "-0.05");
    assert_eq!(format_amount(50), "0.50");
    assert_eq!(format_amount(100), "1.00");
    assert_eq!(format_amount(-7999), "-79.99");
    assert_eq!(format_amount(1000000), "10000.00");
    assert_eq!(format_amount(i128::MAX), "1701411834604692317316873037158841057.27");
    assert_eq!(format_amount(i128::MIN), "-1701411834604692317316873037158841057.28");
}

#[test]
fn budget_row_over_the_limit() {
    // limit 100, spent 150
    let row = BudgetRow::new("Food".to_string(), 10000, 15000);
    assert_eq!(row.remaining, -5000);
    assert_eq!(row.percent_tenths, 1500);
    assert!(row.over_budget);
    assert_eq!(
        row.line(),
        "Food: limit 100.00 lei | spent 150.00 lei | remaining -50.00 lei (150.0%)"
    );
}

#[test]
fn budget_row_within_the_limit() {
    let row = BudgetRow::new("Food".to_string(), 10000, 2550);
    assert_eq!(row.remaining, 7450);
    assert_eq!(row.percent_tenths, 255);
    assert!(!row.over_budget);
    assert_eq!(
        row.line(),
        "Food: limit 100.00 lei | spent 25.50 lei | remaining 74.50 lei (25.5%)"
    );
    let exact = BudgetRow::new("Food".to_string(), 10000, 10000);
    assert_eq!(exact.remaining, 0);
    assert_eq!(exact.percent_tenths, 1000);
    assert!(!exact.over_budget);
}

#[test]
fn percentage_is_rounded_to_the_nearest_tenth() {
    assert_eq!(percent_of_limit(1, 3), 333);
    assert_eq!(percent_of_limit(2, 3), 667);
    assert_eq!(percent_of_limit(1, 2000), 1);
    assert_eq!(percent_of_limit(1, 2001), 0);
    assert_eq!(percent_of_limit(0, 5), 0);
    assert_eq!(percent_of_limit(7999, 10000), 800);
    assert_eq!(percent_of_limit(7994, 10000), 799);
}

#[test]
fn percentage_is_capped() {
    assert_eq!(percent_of_limit(99980, 10000), 9998);
    assert_eq!(percent_of_limit(99985, 10000), 9999);
    assert_eq!(percent_of_limit(99990, 10000), 9999);
    assert_eq!(percent_of_limit(100000, 10000), 9999);
    assert_eq!(percent_of_limit(u128::MAX, 1), 9999);
    assert_eq!(percent_of_limit(u128::MAX, i64::MAX), 9999);
    assert_eq!(percent_of_limit(i64::MAX as u128, i64::MAX), 1000);
}

#[test]
fn percentage_without_a_positive_limit_is_zero() {
    assert_eq!(percent_of_limit(500, 0), 0);
    assert_eq!(percent_of_limit(500, -100), 0);
    let row = BudgetRow::new("Free".to_string(), 0, 500);
    assert_eq!(row.remaining, -500);
    assert_eq!(row.percent_tenths, 0);
    assert!(row.over_budget);
}

#[test]
fn budgets_screen_counts_expenses_of_all_time() {
    let budgets = vec![
        budget("Food", 10000),
        budget("Transport", 5000),
        budget("Unused", 2500),
        budget("Uncategorized", 100),
    ];
    let txs = vec![
        tx(1, -5000, Some("Food"), None, "03/01/2024"),
        tx(2, -10000, Some("Food"), None, "07/15/1999"),
        tx(3, 20000, Some("Food"), None, "03/20/2024"),
        tx(4, -1250, Some("Transport"), None, "no date"),
        tx(5, -30, None, None, "03/20/2024"),
        tx(6, 5000, Some("Unused"), None, "03/20/2024"),
    ];
    let rows = budget_rows(&budgets, &txs);
    assert_eq!(
        rows,
        vec![
            BudgetRow {
                category: "Food".to_string(),
                limit: 10000,
                spent: 15000,
                remaining: -5000,
                percent_tenths: 1500,
                over_budget: true,
            },
            BudgetRow {
                category: "Transport".to_string(),
                limit: 5000,
                spent: 1250,
                remaining: 3750,
                percent_tenths: 250,
                over_budget: false,
            },
            BudgetRow {
                category: "Unused".to_string(),
                limit: 2500,
                spent: 0,
                remaining: 2500,
                percent_tenths: 0,
                over_budget: false,
            },
            BudgetRow {
                category: "Uncategorized".to_string(),
                limit: 100,
                spent: 30,
                remaining: 70,
                percent_tenths: 300,
                over_budget: false,
            },
        ]
    );
    assert!(budget_rows(&[], &txs).is_empty());
}

#[test]
fn budgets_screen_handles_the_extremes() {
    let budgets = vec![budget("X", i64::MIN), budget("Y", i64::MAX)];
    let txs = vec![
        tx(1, i64::MIN, Some("X"), None, ""),
        tx(2, i64::MIN, Some("X"), None, ""),
        tx(3, i64::MIN, Some("Y"), None, ""),
    ];
    let rows = budget_rows(&budgets, &txs);
    assert_eq!(rows[0].spent, 1u128 << 64);
    assert_eq!(rows[0].remaining, -(1i128 << 63) - (1i128 << 64));
    assert_eq!(rows[0].percent_tenths, 0);
    assert!(rows[0].over_budget);
    assert_eq!(rows[1].spent, 1u128 << 63);
    assert_eq!(rows[1].remaining, -1);
    assert_eq!(rows[1].percent_tenths, 1000);
    assert!(rows[1].over_budget);
}

#[test]
fn bars_are_scaled_to_the_largest_total() {
    assert_eq!(bar_cells(10000, 10000), 30);
    assert_eq!(bar_cells(5000, 10000), 15);
    assert_eq!(bar_cells(2500, 10000), 8);
    assert_eq!(bar_cells(1, 10000), 1);
    assert_eq!(bar_cells(0, 10000), 1);
    assert_eq!(bar_cells(166, 10000), 1);
    assert_eq!(bar_cells(500, 10000), 2);
    assert_eq!(bar_cells(499, 10000), 1);
    assert_eq!(bar_cells(9834, 10000), 30);
    assert_eq!(bar_cells(9833, 10000), 29);
    assert_eq!(bar_cells(u128::MAX, u128::MAX), 30);
    assert_eq!(bar_cells(u128::MAX / 2, u128::MAX), 15);
    assert_eq!(bar_cells(u128::MAX / 2 + 1, u128::MAX), 15);
}

#[test]
fn bars_are_scaled_to_the_largest_total_however_small() {
    assert_eq!(bar_cells(50, 50), 30);
    assert_eq!(bar_cells(100, 100), 30);
    assert_eq!(bar_cells(99, 99), 30);
    assert_eq!(bar_cells(1, 1), 30);
    assert_eq!(bar_cells(5, 10), 15);
    assert_eq!(bar_cells(1, 3), 10);
    assert_eq!(bar_cells(2, 3), 20);
    assert_eq!(bar_cells(0, 1), 1);
    assert_eq!(bar_cells(1, 60), 1);
    assert_eq!(bar_cells(1, 61), 1);
    assert_eq!(bar_cells(3, 60), 2);
}

#[test]
fn a_single_small_expense_has_a_full_bar() {
    // one expense of 0.50
    let txs = vec![tx(1, -50, Some("Food"), None, "03/01/2024")];
    assert_eq!(
        report_rows(&txs, "03", "2024"),
        vec![ReportRow { category: "Food".to_string(), total: 50, bar: 30 }]
    );
    let two = vec![
        tx(1, -50, Some("Food"), None, "03/01/2024"),
        tx(2, -25, Some("Transport"), None, "03/02/2024"),
        tx(3, -1, None, None, "03/02/2024"),
    ];
    assert_eq!(
        report_rows(&two, "03", "2024"),
        vec![
            ReportRow { category: "Food".to_string(), total: 50, bar: 30 },
            ReportRow { category: "Transport".to_string(), total: 25, bar: 15 },
            ReportRow { category: "Uncategorized".to_string(), total: 1, bar: 1 },
        ]
    );
}

#[test]
fn report_rows_for_a_month() {
    let txs = vec![
        tx(1, -10000, Some("Food"), None, "03/01/2024"),
        tx(2, -5000, Some("Transport"), None, "03/15/2024"),
        tx(3, -1, None, None, "03/15/2024"),
        tx(4, 70000, Some("Salary"), None, "03/15/2024"),
        tx(5, -70000, Some("Housing"), None, "04/01/2024"),
        tx(6, -2500, Some("Food"), None, "03/31/2024"),
    ];
    assert_eq!(
        report_rows(&txs, "03", "2024"),
        vec![
            ReportRow { category: "Food".to_string(), total: 12500, bar: 30 },
            ReportRow { category: "Transport".to_string(), total: 5000, bar: 12 },
            ReportRow { category: "Uncategorized".to_string(), total: 1, bar: 1 },
        ]
    );
    assert!(report_rows(&txs, "05", "2024").is_empty());
}

#[test]
fn report_names_its_month() {
    let txs = vec![tx(1, -10000, Some("Food"), None, "03/01/2024")];
    let report = report_for(&txs, "03", "2024");
    assert_eq!(report.month, "03");
    assert_eq!(report.year, "2024");
    assert_eq!(report.rows, vec![ReportRow { category: "Food".to_string(), total: 10000, bar: 30 }]);
}

#[test]
fn current_report_is_made_for_the_current_month() {
    let now = chrono::Local::now();
    let today = now.format("%m/%d/%Y").to_string();
    let txs = vec![
        tx(1, -10000, Some("Food"), None, &today),
        tx(2, -10000, Some("Food"), None, "01/01/1999"),
        tx(3, 500, Some("Food"), None, &today),
    ];
    let report = current_report(&txs);
    assert_eq!(report.month, now.format("%m").to_string());
    assert_eq!(report.year, now.format("%Y").to_string());
    assert_eq!(report.rows, vec![ReportRow { category: "Food".to_string(), total: 10000, bar: 30 }]);
    assert!(current_report(&[]).rows.is_empty());
}

#[test]
fn chart_has_a_line_for_each_row_and_a_closing_rule() {
    let rows = vec![
        ReportRow { category: "Food".to_string(), total: 12500, bar: 30 },
        ReportRow { category: "Transport".to_string(), total: 5000, bar: 12 },
        ReportRow { category: "Uncategorized".to_string(), total: 1, bar: 1 },
    ];
    let full = "\u{2588}".repeat(30);
    let twelve = format!("{}{}", "\u{2588}".repeat(12), " ".repeat(18));
    let one = format!("{}{}", "\u{2588}", " ".repeat(29));
    assert_eq!(
        chart_lines(&rows),
        vec![
            format!("Food  {}  125.00 lei", full),
            format!("Transport  {}  50.00 lei", twelve),
            format!("Uncategorized  {}  0.01 lei", one),
            "----------------------------------------".to_string(),
        ]
    );
}

#[test]
fn chart_without_rows_is_a_notice() {
    assert_eq!(chart_lines(&Vec::new()), vec!["No expenses found for the current month."]);
}

#[test]
fn chart_does_not_pad_a_bar_that_is_too_long() {
    let rows = vec![ReportRow { category: "X".to_string(), total: 0, bar: 32 }];
    assert_eq!(
        chart_lines(&rows),
        vec![
            format!("X  {}  0.00 lei", "\u{2588}".repeat(32)),
            "----------------------------------------".to_string(),
        ]
    );
}

#[test]
fn each_screen_shows_its_own_contents() {
    let today = chrono::Local::now().format("%m/%d/%Y").to_string();
    let budgets = vec![budget("Food", 10000)];
    let txs = vec![tx(1, -2500, Some("Food"), Some("Lunch"), &today)];
    let mut app = App::new();
    assert_eq!(
        screen_contents(&app, &budgets, &txs),
        ScreenContents::MainMenu(menu_lines(&app))
    );
    app.screen = AppScreen::Transactions;
    assert_eq!(
        screen_contents(&app, &budgets, &txs),
        ScreenContents::Transactions(vec![format!("1 | {} | -25.00 lei | Lunch", today)])
    );
    app.screen = AppScreen::Budgets;
    assert_eq!(
        screen_contents(&app, &budgets, &txs),
        ScreenContents::Budgets(vec![BudgetRow {
            category: "Food".to_string(),
            limit: 10000,
            spent: 2500,
            remaining: 7500,
            percent_tenths: 250,
            over_budget: false,
        }])
    );
    app.screen = AppScreen::Reports;
    match screen_contents(&app, &budgets, &txs) {
        ScreenContents::Reports(report) => {
            assert_eq!(
                report.rows,
                vec![ReportRow { category: "Food".to_string(), total: 2500, bar: 30 }]
            );
        }
        other => panic!("expected the reports screen, got {:?}", other),
    }
}

#[test]
fn months_and_years_are_written_as_in_dates() {
    assert_eq!(write_month(1), "01");
    assert_eq!(write_month(3), "03");
    assert_eq!(write_month(10), "10");
    assert_eq!(write_month(12), "12");
    assert_eq!(write_year(2024), "2024");
    assert_eq!(write_year(0), "0000");
    assert_eq!(write_year(5), "0005");
    assert_eq!(write_year(999), "0999");
    assert_eq!(write_year(9999), "9999");
    assert_eq!(write_year(10000), "+10000");
    assert_eq!(write_year(-1), "-0001");
    assert_eq!(write_year(-9999), "-9999");
    assert_eq!(write_year(-10000), "-10000");
    assert_eq!(write_year(i32::MAX), "+2147483647");
    assert_eq!(write_year(i32::MIN), "-2147483648");
}

#[test]
fn months_and_years_are_written_as_chrono_writes_them() {
    for year in [-262143, -10000, -9999, -1, 0, 1, 999, 1000, 1970, 2024, 9999, 10000, 262142] {
        for month in 1..=12u32 {
            let date = chrono::NaiveDate::from_ymd_opt(year, month, 1).unwrap();
            assert_eq!(write_month(month), date.format("%m").to_string());
            assert_eq!(write_year(year), date.format("%Y").to_string());
        }
    }
}

#[test]
fn the_clock_gives_the_current_month() {
    let before = chrono::Local::now();
    let (month, year) = current_month_and_year();
    let after = chrono::Local::now();
    let expected = [
        (before.format("%m").to_string(), before.format("%Y").to_string()),
        (after.format("%m").to_string(), after.format("%Y").to_string()),
    ];
    assert!(expected.contains(&(month, year)));
}
