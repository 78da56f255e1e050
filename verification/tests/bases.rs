use apocalyptosis::bases::{
    acquire_base, spawn_base_inner, NewBaseFollower, base_type_offered, confirm_follower_transfer, default_task, follower_task_menu, pay_for_base,
    region_base_menu,
    pick_starting_base_plot, spawn_base, transfer_destination, transfer_slider_max,
    BasetypeSettings, SpawnBaseRefusal, TaskSettings, TransferDestination,
};
use apocalyptosis::discoveries::{DiscoveriesResearched, DiscoveryVisibility};
use apocalyptosis::followers::{Follower, FollowerCount};
use apocalyptosis::funds::Funds;
use rand::rngs::StdRng;
use rand::SeedableRng;

fn settings(regions: &[&str], requires: Option<&str>) -> BasetypeSettings {
    BasetypeSettings {
        max_follower_count: 5,
        cost_per_day: 100,
        initial_cost: 2000,
        regions: regions.iter().map(|r| r.to_string()).collect(),
        requires_discovery: requires.map(|d| d.to_string()),
        color: "white".into(),
    }
}

#[test]
fn offered_base_types() {
    let mut researched = DiscoveriesResearched::new();
    let europe = "europe".to_string();
    assert!(base_type_offered(&settings(&[], None), &europe, &researched));
    assert!(base_type_offered(&settings(&["asia", "europe"], None), &europe, &researched));
    assert!(!base_type_offered(&settings(&["asia"], None), &europe, &researched));
    assert!(!base_type_offered(&settings(&[], Some("bunkers")), &europe, &researched));
    researched.research("bunkers".into(), DiscoveryVisibility::Hidden);
    assert!(base_type_offered(&settings(&[], Some("bunkers")), &europe, &researched));
}

#[test]
fn acquiring_a_base() {
    let mut rng = StdRng::seed_from_u64(3);
    assert_eq!(
        spawn_base(&vec![], &Funds(10_000), 2000, &mut rng),
        Err(SpawnBaseRefusal::NoVacantBasePlot)
    );
    assert_eq!(
        spawn_base(&vec![4, 9], &Funds(1999), 2000, &mut rng),
        Err(SpawnBaseRefusal::NotEnoughFunds)
    );
    for _ in 0..20 {
        let p = spawn_base(&vec![4, 9], &Funds(2000), 2000, &mut rng).unwrap();
        assert!(p == 4 || p == 9);
    }
    assert_eq!(pick_starting_base_plot(&vec![7], &mut rng), 7);
}

#[test]
fn paying_for_a_base() {
    let mut funds = Funds(5000);
    pay_for_base(&mut funds, &settings(&[], None), true);
    assert_eq!(funds, Funds(5000));
    pay_for_base(&mut funds, &settings(&[], None), false);
    assert_eq!(funds, Funds(3000));
}

#[test]
fn default_tasks() {
    let task = |types: &[&str]| TaskSettings {
        follower_types: types.iter().map(|t| t.to_string()).collect(),
        requires_discovery: None,
    };
    let tasks = vec![
        ("preach".to_string(), task(&["priest"])),
        ("labour".to_string(), task(&["minion", "priest"])),
        ("research".to_string(), task(&["minion"])),
    ];
    assert_eq!(default_task(&tasks, &"priest".to_string()), 0);
    assert_eq!(default_task(&tasks, &"minion".to_string()), 1);
}

#[test]
fn transfer_destinations() {
    assert_eq!(transfer_destination(true, 2, 5), TransferDestination::Source);
    assert_eq!(transfer_destination(false, 5, 5), TransferDestination::Full);
    assert_eq!(transfer_destination(false, 2, 5), TransferDestination::Open(3));
    assert_eq!(transfer_slider_max(4, 3), 3);
    assert_eq!(transfer_slider_max(2, 3), 2);
}

#[test]
fn confirming_a_transfer() {
    let mut funds = Funds(10_000);
    let mut intel = 10;
    let mut src = FollowerCount(4);
    let mut dst = FollowerCount(1);
    confirm_follower_transfer(&mut funds, &mut intel, &mut src, &mut dst, 2, false);
    assert_eq!(funds, Funds(0));
    assert_eq!(intel, 20);
    assert_eq!((src, dst), (FollowerCount(2), FollowerCount(3)));
    confirm_follower_transfer(&mut funds, &mut intel, &mut src, &mut dst, 1, true);
    assert_eq!(funds, Funds(-1000));
    assert_eq!(intel, 25);
    assert_eq!(src.0 + dst.0, 5);
    confirm_follower_transfer(&mut funds, &mut intel, &mut src, &mut dst, 0, true);
    assert_eq!((funds, intel), (Funds(-1000), 25));
}

#[test]
fn region_menus() {
    let mut researched = DiscoveriesResearched::new();
    let types = vec![
        ("safehouse".to_string(), settings(&[], None)),
        ("temple".to_string(), settings(&["asia"], None)),
        ("bunker".to_string(), settings(&[], Some("bunkers"))),
        ("lodge".to_string(), settings(&["europe"], None)),
    ];
    let europe = "europe".to_string();
    assert_eq!(region_base_menu(&types, &europe, &researched, &vec![true, false]), (vec![0, 3], true));
    researched.research("bunkers".into(), DiscoveryVisibility::Shown);
    assert_eq!(region_base_menu(&types, &europe, &researched, &vec![true, true]), (vec![0, 2, 3], false));
    assert_eq!(region_base_menu(&types, &europe, &researched, &vec![]), (vec![0, 2, 3], false));
}

#[test]
fn follower_menus() {
    let task = |types: &[&str]| TaskSettings {
        follower_types: types.iter().map(|t| t.to_string()).collect(),
        requires_discovery: None,
    };
    let tasks = vec![
        ("preach".to_string(), task(&["priest"])),
        ("labour".to_string(), task(&["minion", "priest"])),
        ("research".to_string(), task(&["minion"])),
    ];
    assert_eq!(
        follower_task_menu(&tasks, &"priest".to_string(), &"preach".to_string(), 1),
        (vec![(0, false), (1, true)], false)
    );
    assert_eq!(
        follower_task_menu(&tasks, &"minion".to_string(), &"preach".to_string(), 2),
        (vec![(1, true), (2, true)], true)
    );
}

#[test]
fn acquiring_a_base_pays_for_it() {
    let mut rng = StdRng::seed_from_u64(3);
    let plots = vec![4, 9];
    let mut funds = Funds(5000);
    let p = acquire_base(&plots, &mut funds, &settings(&[], None), &mut rng).unwrap();
    assert!(plots.contains(&p));
    assert_eq!(funds, Funds(3000));

    let mut poor = Funds(1999);
    assert_eq!(
        acquire_base(&plots, &mut poor, &settings(&[], None), &mut rng),
        Err(SpawnBaseRefusal::NotEnoughFunds)
    );
    assert_eq!(poor, Funds(1999));

    let mut rich = Funds(10_000);
    assert_eq!(
        acquire_base(&vec![], &mut rich, &settings(&[], None), &mut rng),
        Err(SpawnBaseRefusal::NoVacantBasePlot)
    );
    assert_eq!(rich, Funds(10_000));

    let mut exact = Funds(2000);
    assert!(acquire_base(&vec![7], &mut exact, &settings(&[], None), &mut rng) == Ok(7));
    assert_eq!(exact, Funds(0));
}

#[test]
fn intra_region_transfer_of_many_followers() {
    let count: usize = (i64::MAX / 2000) as usize;
    let mut funds = Funds(0);
    let mut intel: u32 = 0;
    let mut src = FollowerCount(count);
    let mut dst = FollowerCount(0);
    let small = 3usize;
    confirm_follower_transfer(&mut funds, &mut intel, &mut src, &mut dst, small, true);
    assert_eq!(funds, Funds(-3000));
    assert_eq!(src, FollowerCount(count - 3));
    assert_eq!(dst, FollowerCount(3));
}

#[test]
fn a_new_base_has_every_follower_type() {
    let tasks = vec![
        ("preach".to_string(), TaskSettings { follower_types: vec!["priest".to_string()], requires_discovery: None }),
        (
            "recruit".to_string(),
            TaskSettings {
                follower_types: vec!["acolyte".to_string(), "priest".to_string()],
                requires_discovery: None,
            },
        ),
    ];
    let types = vec!["acolyte".to_string(), "priest".to_string()];
    let mut funds = Funds(3000);
    let base = spawn_base_inner(&"temple".to_string(), &settings(&[], None), &types, &tasks, &mut funds, false);
    assert_eq!(funds, Funds(1000));
    assert_eq!(base.base.0, "temple");
    assert_eq!((base.expense.0, base.expense.1.as_str(), base.expense.2), (100, "base", 1));
    assert_eq!(
        base.followers,
        vec![
            NewBaseFollower { follower: Follower("acolyte".to_string()), count: FollowerCount(0), task: 1 },
            NewBaseFollower { follower: Follower("priest".to_string()), count: FollowerCount(0), task: 0 },
        ]
    );
    let mut free_funds = Funds(10);
    let _ = spawn_base_inner(&"hut".to_string(), &settings(&[], None), &types, &tasks, &mut free_funds, true);
    assert_eq!(free_funds, Funds(10));
}
