use apocalyptosis::funds::{
    budget_line_amount, can_afford, funds_stay_non_negative, transfer_follower_costs,
    update_funds, Expense, Funds, Income, TotalExpense, TotalIncome,
};
use apocalyptosis::ledger::{budget_ledger, category_less, ledger_row_shown, LedgerRow};

#[test]
fn daily_balance() {
    let mut funds = Funds(5000);
    update_funds(&mut funds, &TotalIncome(300), &TotalExpense(1200));
    assert_eq!(funds, Funds(4100));
    assert_eq!(TotalIncome::default(), TotalIncome(0));
    assert_eq!(TotalExpense::default(), TotalExpense(0));
}

#[test]
fn budget_lines() {
    assert_eq!(budget_line_amount(250, 4), 1000);
    assert_eq!(Income(100, "donations".into(), 3).amount(), 300);
    assert_eq!(Expense(75, "base".into(), 2).amount(), 150);
}

#[test]
fn transfer_costs() {
    assert_eq!(transfer_follower_costs(true, 3), (-3000, 15));
    assert_eq!(transfer_follower_costs(false, 3), (-15000, 15));
    assert_eq!(transfer_follower_costs(false, 0), (0, 0));
}

#[test]
fn affordability() {
    assert!(can_afford(1000, 1000));
    assert!(!can_afford(999, 1000));
    assert!(funds_stay_non_negative(1000, -1000));
    assert!(!funds_stay_non_negative(1000, -1001));
}

#[test]
fn category_order() {
    assert!(category_less(&"base".to_string(), &"follower".to_string()));
    assert!(category_less(&"base".to_string(), &"basement".to_string()));
    assert!(!category_less(&"base".to_string(), &"base".to_string()));
    assert!(!category_less(&"minion".to_string(), &"base".to_string()));
    assert!(category_less(&"Zeta".to_string(), &"alpha".to_string()));
}

#[test]
fn ledger_groups_and_sorts_by_category() {
    let lines = vec![
        (100, "priest".to_string(), 2),
        (500, "base".to_string(), 1),
        (100, "priest".to_string(), 1),
        (20, "minion".to_string(), 0),
        (500, "base".to_string(), 2),
    ];
    let rows = budget_ledger(&lines);
    let got: Vec<(String, i64, usize)> =
        rows.iter().map(|r| (r.category.clone(), r.funds, r.count)).collect();
    assert_eq!(
        got,
        vec![
            ("base".to_string(), 1500, 3),
            ("minion".to_string(), 0, 0),
            ("priest".to_string(), 300, 3),
        ]
    );
    let shown: Vec<&LedgerRow> = rows.iter().filter(|r| ledger_row_shown(r)).collect();
    assert_eq!(shown.len(), 2);
}

#[test]
fn empty_ledger() {
    assert!(budget_ledger(&Vec::new()).is_empty());
}
