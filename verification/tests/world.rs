use apocalyptosis::discoveries::{DiscoveriesResearched, DiscoveryVisibility};
use apocalyptosis::followers::FollowerCount;
use apocalyptosis::funds::Expense;
use apocalyptosis::lookup::{contains_name, find_named};
use apocalyptosis::modifiers::{
    modifier_duration_args, modifier_end_date, modifier_is_beneficial, modifier_label, ModifierKind,
};
use apocalyptosis::time::EndDate;
use apocalyptosis::new_game::{
    cult_name_or_default, default_difficulty, start_followers, starting_funds,
    DifficultySettings,
};
use apocalyptosis::regions::{
    regions_to_spawn, RegionSettings, region_needs_unlock, region_starts_unlocked, region_unlocked_by, unlock_starting_region,
};

#[test]
fn modifier_labels() {
    assert_eq!(modifier_label(&ModifierKind::Income { category: None }), (true, "income"));
    assert_eq!(
        modifier_label(&ModifierKind::Expense { category: Some("base".into()) }),
        (false, "expense-category")
    );
    assert_eq!(
        modifier_label(&ModifierKind::Recruit { by: Some("priest".into()), of: Some("minion".into()) }),
        (true, "recruit-by-of")
    );
    assert_eq!(
        modifier_label(&ModifierKind::Recruit { by: None, of: Some("minion".into()) }),
        (true, "recruit-of")
    );
    assert_eq!(modifier_label(&ModifierKind::PoliceSuspicion), (false, "police-suspicion"));
}

#[test]
fn modifier_colours() {
    assert!(modifier_is_beneficial(true, true));
    assert!(!modifier_is_beneficial(true, false));
    assert!(!modifier_is_beneficial(false, true));
    assert!(modifier_is_beneficial(false, false));
}

#[test]
fn region_unlocking() {
    let start = "north-america".to_string();
    assert!(region_starts_unlocked(&start, &start, &Some("flight".into())));
    assert!(region_starts_unlocked(&"europe".to_string(), &start, &None));
    assert!(!region_starts_unlocked(&"asia".to_string(), &start, &Some("flight".into())));
    assert!(region_unlocked_by(false, &Some("flight".into()), &"flight".to_string()));
    assert!(!region_unlocked_by(false, &Some("flight".into()), &"boats".to_string()));
    assert!(!region_unlocked_by(true, &None, &"flight".to_string()));
    let mut researched = DiscoveriesResearched::new();
    assert!(region_needs_unlock(&Some("flight".into()), &researched));
    assert!(!region_needs_unlock(&None, &researched));
    unlock_starting_region(&mut researched, &Some("flight".into()));
    assert_eq!(researched.get("flight"), Some(DiscoveryVisibility::Hidden));
    assert!(!region_needs_unlock(&Some("flight".into()), &researched));
}

fn difficulty(default: bool, funds: i64) -> DifficultySettings {
    DifficultySettings {
        default,
        starting_funds: funds,
        starting_followers: vec![("priest".into(), 1), ("minion".into(), 2)],
    }
}

#[test]
fn new_game_setup() {
    let ds = vec![
        ("easy".to_string(), difficulty(false, 50_000)),
        ("normal".to_string(), difficulty(true, 20_000)),
        ("hard".to_string(), difficulty(true, 10_000)),
    ];
    assert_eq!(default_difficulty(&ds), 1);
    assert_eq!(starting_funds(&ds[1].1).0, 20_000);
    let mut count = FollowerCount(0);
    let mut expense = Expense(100, "minion".into(), 1);
    start_followers(&ds[0].1, &"minion".to_string(), &mut count, &mut expense);
    assert_eq!(count, FollowerCount(2));
    assert_eq!(expense.2, 2);
    let mut other = FollowerCount(0);
    start_followers(&ds[0].1, &"cultist".to_string(), &mut other, &mut expense);
    assert_eq!(other, FollowerCount(0));
    assert_eq!(expense.2, 2);
}

#[test]
fn cult_names() {
    assert_eq!(cult_name_or_default(String::new()), "Nameless");
    assert_eq!(cult_name_or_default("Dawn".into()), "Dawn");
}

#[test]
fn named_lookups() {
    let entries = vec![("a".to_string(), 1), ("b".to_string(), 2), ("a".to_string(), 3)];
    assert_eq!(find_named(&entries, &"a".to_string()), Some(0));
    assert_eq!(find_named(&entries, &"b".to_string()), Some(1));
    assert_eq!(find_named(&entries, &"c".to_string()), None);
    assert!(contains_name(&vec!["x".to_string()], &"x".to_string()));
    assert!(!contains_name(&vec![], &"x".to_string()));
}

#[test]
fn timed_modifiers() {
    assert_eq!(modifier_duration_args(None, None), (0, None));
    assert_eq!(modifier_duration_args(None, Some(EndDate(739_800))), (0, None));
    assert_eq!(modifier_duration_args(Some(30), None), (30, None));
    assert_eq!(
        modifier_duration_args(Some(30), Some(EndDate(739_800))),
        (-1, Some(EndDate(739_800)))
    );
    assert_eq!(modifier_end_date(Some(30), Some(739_721)), Some(EndDate(739_751)));
    assert_eq!(modifier_end_date(Some(30), None), None);
    assert_eq!(modifier_end_date(None, Some(739_721)), None);
}

#[test]
fn hidden_regions_are_not_placed() {
    let regions = vec![
        ("europe".to_string(), RegionSettings { requires_discovery: None, hidden: false }),
        ("atlantis".to_string(), RegionSettings { requires_discovery: None, hidden: true }),
        ("asia".to_string(), RegionSettings { requires_discovery: Some("travel".to_string()), hidden: false }),
        ("moon".to_string(), RegionSettings { requires_discovery: Some("rockets".to_string()), hidden: false }),
    ];
    assert_eq!(regions_to_spawn(&regions, &"moon".to_string()), vec![(0, true), (2, false), (3, true)]);
    assert_eq!(regions_to_spawn(&vec![], &"moon".to_string()), vec![]);
}
