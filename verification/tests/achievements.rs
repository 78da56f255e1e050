use apocalyptosis::achievements::{
    announce_achievements, on_achieved_event, Achievements, RecentlyAchieved,
};

#[test]
fn achievements_are_queued_once() {
    let achievements = Achievements::default();
    let mut recent = RecentlyAchieved::default();
    on_achieved_event(&achievements, &mut recent, &"started-recruiting".to_string());
    on_achieved_event(&achievements, &mut recent, &"first-minion".to_string());
    on_achieved_event(&achievements, &mut recent, &"started-recruiting".to_string());
    assert_eq!(recent.0, vec!["started-recruiting".to_string(), "first-minion".to_string()]);
}

#[test]
fn achievements_are_announced_one_at_a_time() {
    let mut achievements = Achievements::default();
    let mut recent = RecentlyAchieved::default();
    on_achieved_event(&achievements, &mut recent, &"a".to_string());
    on_achieved_event(&achievements, &mut recent, &"b".to_string());
    assert_eq!(announce_achievements(&mut achievements, &mut recent, true), None);
    assert_eq!(recent.0.len(), 2);
    assert_eq!(announce_achievements(&mut achievements, &mut recent, false), Some("a".to_string()));
    assert!(achievements.achieved("a"));
    assert!(!achievements.achieved("b"));
    assert_eq!(announce_achievements(&mut achievements, &mut recent, false), Some("b".to_string()));
    assert_eq!(announce_achievements(&mut achievements, &mut recent, false), None);
    // Reaching an achievement again announces nothing.
    on_achieved_event(&achievements, &mut recent, &"a".to_string());
    assert!(recent.0.is_empty());
}

#[test]
fn gained_achievements_waiting_are_skipped() {
    let mut achievements = Achievements::default();
    let mut recent = RecentlyAchieved(vec!["a".to_string(), "a".to_string(), "c".to_string()]);
    assert_eq!(announce_achievements(&mut achievements, &mut recent, false), Some("a".to_string()));
    assert_eq!(announce_achievements(&mut achievements, &mut recent, false), Some("c".to_string()));
    assert!(recent.0.is_empty());
}
