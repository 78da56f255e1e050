use apocalyptosis::time::{
    fixed_pre_update, is_speed_button_active, listen_speed_keys, on_force_pause_insert,
    on_force_pause_remove, on_game_speed_changed, ClockChange, CurrentGameSpeed, EndDate,
    GameDate, GameSpeed, GameSpeedAction, MAX_DATE, START_DATE,
};
use chrono::{Datelike, NaiveDate};

#[test]
fn start_date_is_april_15_2026() {
    let d = NaiveDate::from_ymd_opt(2026, 4, 15).unwrap();
    assert_eq!(d.num_days_from_ce(), START_DATE);
    assert_eq!(GameDate::default().0, START_DATE);
}

#[test]
fn max_date_is_the_last_calendar_day() {
    assert_eq!(NaiveDate::MAX.num_days_from_ce(), MAX_DATE);
}

#[test]
fn days_since_start_counts_days() {
    assert_eq!(GameDate(START_DATE).days_since_start(), 0);
    assert_eq!(GameDate(START_DATE + 31).days_since_start(), 31);
}

#[test]
fn end_date_adds_days() {
    assert_eq!(EndDate::new(START_DATE, 10).0, START_DATE + 10);
    let end = NaiveDate::from_num_days_from_ce_opt(EndDate::new(START_DATE, 30).0).unwrap();
    assert_eq!(end, NaiveDate::from_ymd_opt(2026, 5, 15).unwrap());
}

#[test]
fn a_tick_advances_one_day() {
    let mut d = GameDate(START_DATE);
    fixed_pre_update(&mut d);
    assert_eq!(d.0, START_DATE + 1);
}

#[test]
fn speed_factors() {
    assert_eq!(GameSpeed::Normal.factor(), 1);
    assert_eq!(GameSpeed::Fast.factor(), 2);
    assert_eq!(GameSpeed::Faster.factor(), 5);
    assert_eq!(GameSpeed::default(), GameSpeed::Normal);
}

fn state(forced_paused: bool, paused: bool, speed: GameSpeed) -> CurrentGameSpeed {
    CurrentGameSpeed { forced_paused, paused, speed }
}

#[test]
fn setting_a_speed_unpauses() {
    let (s, c) = on_game_speed_changed(
        state(false, true, GameSpeed::Normal),
        GameSpeedAction::SetSpeed(GameSpeed::Fast),
    );
    assert_eq!(s, state(false, false, GameSpeed::Fast));
    assert_eq!(c, ClockChange { set_speed: Some(GameSpeed::Fast), pause: Some(false) });
}

#[test]
fn setting_a_speed_during_a_forced_pause_keeps_the_clock_stopped() {
    let (s, c) = on_game_speed_changed(
        state(true, false, GameSpeed::Normal),
        GameSpeedAction::SetSpeed(GameSpeed::Faster),
    );
    assert_eq!(s, state(true, false, GameSpeed::Faster));
    assert_eq!(c, ClockChange { set_speed: Some(GameSpeed::Faster), pause: None });
}

#[test]
fn toggling_pause() {
    let (s, c) = on_game_speed_changed(state(false, false, GameSpeed::Fast), GameSpeedAction::TogglePause);
    assert_eq!(s, state(false, true, GameSpeed::Fast));
    assert_eq!(c.pause, Some(true));
    let (s2, c2) = on_game_speed_changed(s, GameSpeedAction::TogglePause);
    assert_eq!(s2, state(false, false, GameSpeed::Fast));
    assert_eq!(c2.pause, Some(false));
    let (_, c3) = on_game_speed_changed(state(true, true, GameSpeed::Fast), GameSpeedAction::TogglePause);
    assert_eq!(c3.pause, None);
}

#[test]
fn forced_pauses() {
    let (s, c) = on_force_pause_insert(state(false, false, GameSpeed::Normal), false);
    assert_eq!(s, state(true, false, GameSpeed::Normal));
    assert_eq!(c.pause, Some(true));
    let (_, c) = on_force_pause_insert(state(false, true, GameSpeed::Normal), true);
    assert_eq!(c.pause, None);
    let (s, c) = on_force_pause_remove(state(true, false, GameSpeed::Normal), 2);
    assert_eq!(s, state(true, false, GameSpeed::Normal));
    assert_eq!(c.pause, None);
    let (s, c) = on_force_pause_remove(state(true, false, GameSpeed::Normal), 1);
    assert_eq!(s, state(false, false, GameSpeed::Normal));
    assert_eq!(c.pause, Some(false));
    let (s, c) = on_force_pause_remove(state(true, true, GameSpeed::Normal), 1);
    assert_eq!(s, state(false, true, GameSpeed::Normal));
    assert_eq!(c.pause, None);
}

#[test]
fn clock_follows_the_settings_through_a_dialog() {
    // A dialog opens while the game runs, the user pauses and unpauses, the dialog closes.
    let mut clock_paused = false;
    let apply = |clock: &mut bool, c: ClockChange| {
        if let Some(p) = c.pause {
            *clock = p;
        }
    };
    let s = CurrentGameSpeed::default();
    let (s, c) = on_force_pause_insert(s, clock_paused);
    apply(&mut clock_paused, c);
    assert!(clock_paused);
    let (s, c) = on_game_speed_changed(s, GameSpeedAction::TogglePause);
    apply(&mut clock_paused, c);
    let (s, c) = on_game_speed_changed(s, GameSpeedAction::TogglePause);
    apply(&mut clock_paused, c);
    assert!(clock_paused);
    let (s, c) = on_force_pause_remove(s, 1);
    apply(&mut clock_paused, c);
    assert!(!clock_paused);
    assert_eq!(clock_paused, s.paused || s.forced_paused);
}

#[test]
fn speed_keys() {
    assert_eq!(listen_speed_keys(true, true, false, true), Some(GameSpeedAction::SetSpeed(GameSpeed::Normal)));
    assert_eq!(listen_speed_keys(false, true, false, true), Some(GameSpeedAction::SetSpeed(GameSpeed::Fast)));
    assert_eq!(listen_speed_keys(false, false, true, true), Some(GameSpeedAction::SetSpeed(GameSpeed::Faster)));
    assert_eq!(listen_speed_keys(false, false, false, true), Some(GameSpeedAction::TogglePause));
    assert_eq!(listen_speed_keys(false, false, false, false), None);
}

#[test]
fn active_speed_buttons() {
    let s = state(false, false, GameSpeed::Fast);
    assert!(is_speed_button_active(s, GameSpeedAction::SetSpeed(GameSpeed::Fast)));
    assert!(!is_speed_button_active(s, GameSpeedAction::SetSpeed(GameSpeed::Normal)));
    assert!(!is_speed_button_active(s, GameSpeedAction::TogglePause));
    let p = state(false, true, GameSpeed::Fast);
    assert!(is_speed_button_active(p, GameSpeedAction::TogglePause));
    assert!(!is_speed_button_active(p, GameSpeedAction::SetSpeed(GameSpeed::Fast)));
}
