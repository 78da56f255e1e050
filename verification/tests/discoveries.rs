use apocalyptosis::discoveries::{
    discovery_menu_entry, learn_new_discovery, open_discoveries_menu, research,
    DiscoveriesResearched, DiscoveryMenuEntry, DiscoverySelected, DiscoverySettings,
    DiscoveryVisibility, Research, ResearchPoints,
};
use apocalyptosis::funds::Funds;

fn settings(research_cost: u32, funds_cost: i64, required: &[&str]) -> DiscoverySettings {
    DiscoverySettings {
        research_cost,
        funds_cost,
        required_discoveries: required.iter().map(|r| r.to_string()).collect(),
    }
}

#[test]
fn researched_map_keeps_order() {
    let mut r = DiscoveriesResearched::new();
    assert!(!r.contains_key("a"));
    r.research("a".into(), DiscoveryVisibility::Hidden);
    r.research("b".into(), DiscoveryVisibility::Shown);
    r.research("a".into(), DiscoveryVisibility::Shown);
    assert_eq!(r.get("a"), Some(DiscoveryVisibility::Shown));
    assert_eq!(r.get("b"), Some(DiscoveryVisibility::Shown));
    assert_eq!(r.get("c"), None);
    let keys: Vec<&String> = r.0.keys().collect();
    assert_eq!(keys, vec!["a", "b"]);
}

#[test]
fn daily_research() {
    let mut points = ResearchPoints(5);
    research(&vec![Research(3), Research(4)], &mut points);
    assert_eq!(points, ResearchPoints(12));
    research(&vec![], &mut points);
    assert_eq!(points, ResearchPoints(12));
}

#[test]
fn learning_a_discovery() {
    let mut funds = Funds(1000);
    let mut points = ResearchPoints(50);
    let mut researched = DiscoveriesResearched::new();
    let selected = DiscoverySelected("occult-finance".into(), 300, 20);
    learn_new_discovery(&mut funds, &mut points, &mut researched, &selected);
    assert_eq!(funds, Funds(700));
    assert_eq!(points, ResearchPoints(30));
    assert_eq!(researched.get("occult-finance"), Some(DiscoveryVisibility::Shown));
    let s = settings(20, 300, &[]);
    assert_eq!(
        discovery_menu_entry(&"occult-finance".to_string(), &s, &researched, &points, &funds),
        Some(DiscoveryMenuEntry::Discovered)
    );
}

#[test]
fn menu_entries() {
    let mut researched = DiscoveriesResearched::new();
    researched.research("basics".into(), DiscoveryVisibility::Shown);
    researched.research("secret".into(), DiscoveryVisibility::Hidden);
    let points = ResearchPoints(10);
    let funds = Funds(100);
    let discoveries = vec![
        ("basics".to_string(), settings(0, 0, &[])),
        ("secret".to_string(), settings(0, 0, &[])),
        ("advanced".to_string(), settings(20, 0, &["basics"])),
        ("locked".to_string(), settings(0, 0, &["advanced"])),
        ("costly".to_string(), settings(5, 500, &["basics", "secret"])),
        ("free".to_string(), settings(0, 0, &[])),
    ];
    let menu = open_discoveries_menu(&discoveries, &researched, &points, &funds);
    assert_eq!(
        menu,
        vec![
            (0, DiscoveryMenuEntry::Discovered),
            (2, DiscoveryMenuEntry::Available { not_enough_points: true, not_enough_funds: false }),
            (4, DiscoveryMenuEntry::Available { not_enough_points: false, not_enough_funds: true }),
            (5, DiscoveryMenuEntry::Available { not_enough_points: false, not_enough_funds: false }),
        ]
    );
}
