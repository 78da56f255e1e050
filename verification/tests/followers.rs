use apocalyptosis::followers::{
    count_followers, follower_list_symbols, recruit, recruit_followers, transfer_followers,
    transfer_followers_to_base, base_menu_followers,
    FollowerCount, FollowerSettings, RecruitOutcome,
};

#[test]
fn transfer_moves_followers() {
    let (s, d) = transfer_followers(FollowerCount(5), FollowerCount(1), 3);
    assert_eq!((s, d), (FollowerCount(2), FollowerCount(4)));
    assert_eq!(s.0 + d.0, 6);
}

#[test]
fn counting_followers() {
    assert_eq!(count_followers(&vec![FollowerCount(1), FollowerCount(4), FollowerCount(0)]), 5);
    assert_eq!(count_followers(&vec![]), 0);
}

#[test]
fn recruitment_fills_up_to_capacity() {
    let counts = vec![FollowerCount(2), FollowerCount(3)];
    assert_eq!(recruit(&counts, 10, 1), Some(1));
    assert_eq!(recruit(&counts, 10, 9), Some(5));
    assert_eq!(recruit(&counts, 10, 0), Some(0));
    assert_eq!(recruit(&counts, 5, 3), None);
    assert_eq!(recruit(&counts, 4, 3), None);
}

#[test]
fn follower_list() {
    let symbols = follower_list_symbols(&vec![('P', 2), ('m', 0), ('x', 3)]);
    assert_eq!(symbols.into_iter().collect::<String>(), "PPxxx");
    assert!(follower_list_symbols(&vec![('P', 0)]).is_empty());
}

fn acolyte(achievement: Option<&str>) -> FollowerSettings {
    FollowerSettings {
        cost_per_day: 10,
        symbol: 'a',
        first_recruit_achievement: achievement.map(|a| a.to_string()),
    }
}

#[test]
fn recruiting_reports_the_first_recruit_achievement() {
    let mut counts = vec![FollowerCount(1), FollowerCount(0)];
    let r = recruit_followers(&mut counts, 1, 5, 2, &acolyte(Some("first-acolyte")));
    assert_eq!(
        r,
        Some(RecruitOutcome { added: 2, achievement: Some("first-acolyte".to_string()) })
    );
    assert_eq!(counts, vec![FollowerCount(1), FollowerCount(2)]);

    let r = recruit_followers(&mut counts, 1, 5, 0, &acolyte(Some("first-acolyte")));
    assert_eq!(r, Some(RecruitOutcome { added: 0, achievement: None }));
    assert_eq!(counts, vec![FollowerCount(1), FollowerCount(2)]);

    let r = recruit_followers(&mut counts, 0, 5, 7, &acolyte(None));
    assert_eq!(r, Some(RecruitOutcome { added: 2, achievement: None }));
    assert_eq!(counts, vec![FollowerCount(3), FollowerCount(2)]);

    let r = recruit_followers(&mut counts, 0, 5, 1, &acolyte(Some("x")));
    assert_eq!(r, None);
    assert_eq!(counts, vec![FollowerCount(3), FollowerCount(2)]);
}

#[test]
fn transfer_finds_the_destination_follower_by_name() {
    let mut src = FollowerCount(5);
    let mut dst = vec![
        ("priest".to_string(), FollowerCount(1)),
        ("acolyte".to_string(), FollowerCount(2)),
        ("acolyte".to_string(), FollowerCount(7)),
    ];
    transfer_followers_to_base(&mut src, &mut dst, &"acolyte".to_string(), 3);
    assert_eq!(src, FollowerCount(2));
    assert_eq!(
        dst,
        vec![
            ("priest".to_string(), FollowerCount(1)),
            ("acolyte".to_string(), FollowerCount(5)),
            ("acolyte".to_string(), FollowerCount(7)),
        ]
    );
}

#[test]
fn base_menu_lists_followers_present() {
    let counts = vec![FollowerCount(0), FollowerCount(3), FollowerCount(0), FollowerCount(1)];
    assert_eq!(base_menu_followers(&counts), vec![1, 3]);
    assert_eq!(base_menu_followers(&vec![FollowerCount(0)]), Vec::<usize>::new());
}
