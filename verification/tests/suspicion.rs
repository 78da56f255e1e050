use apocalyptosis::suspicion::{
    add_suspicion, pick_suspicion_event, suspicion_event_candidates, update_suspicion_inner,
    SuspicionAmount, SuspicionEventKey, SuspicionType, SuspicionUpdate, LOWER_LIMIT, MIDDLE_LIMIT,
    UPPER_LIMIT, RegionalSuspicion, SuspicionMeters, WrongSuspicionRegion,
};
use rand::rngs::StdRng;
use rand::SeedableRng;

#[test]
fn limits_are_the_game_thresholds() {
    assert_eq!(LOWER_LIMIT, 334);
    assert_eq!(MIDDLE_LIMIT, 667);
    assert_eq!(UPPER_LIMIT, 1000);
}

#[test]
fn rising_below_a_limit_fires_nothing() {
    assert_eq!(
        update_suspicion_inner(10, SuspicionAmount::Sampled(5)),
        Some(SuspicionUpdate { value: 15, event: None })
    );
}

#[test]
fn crossing_the_lower_limit_fires_a_minor_event() {
    assert_eq!(
        update_suspicion_inner(330, SuspicionAmount::Sampled(4)),
        Some(SuspicionUpdate { value: 334, event: Some(false) })
    );
}

#[test]
fn crossing_the_middle_limit_fires_a_minor_event() {
    assert_eq!(
        update_suspicion_inner(660, SuspicionAmount::Fixed(10)),
        Some(SuspicionUpdate { value: 670, event: Some(false) })
    );
}

#[test]
fn crossing_the_upper_limit_fires_a_major_event_and_rolls_over() {
    assert_eq!(
        update_suspicion_inner(995, SuspicionAmount::Fixed(12)),
        Some(SuspicionUpdate { value: 7, event: Some(true) })
    );
}

#[test]
fn crossing_two_limits_at_once_fires_a_minor_event_without_rollover() {
    assert_eq!(
        update_suspicion_inner(300, SuspicionAmount::Sampled(800)),
        Some(SuspicionUpdate { value: 1100, event: Some(false) })
    );
}

#[test]
fn above_the_upper_limit_nothing_more_fires() {
    assert_eq!(
        update_suspicion_inner(1100, SuspicionAmount::Sampled(50)),
        Some(SuspicionUpdate { value: 1150, event: None })
    );
}

#[test]
fn no_increase_leaves_the_meter_alone() {
    assert_eq!(update_suspicion_inner(100, SuspicionAmount::Sampled(0)), None);
    assert_eq!(update_suspicion_inner(100, SuspicionAmount::Fixed(0)), None);
}

fn meters() -> SuspicionMeters {
    SuspicionMeters {
        intelligence: 500,
        scientific: 0,
        regions: vec![
            RegionalSuspicion { police: 10, media: 20 },
            RegionalSuspicion { police: u32::MAX - 1, media: 660 },
        ],
    }
}

#[test]
fn negative_amounts_are_ignored() {
    let mut m = meters();
    assert_eq!(add_suspicion(&mut m, None, SuspicionType::Intelligence, -200), Ok(None));
    assert_eq!(add_suspicion(&mut m, None, SuspicionType::Scientific, i32::MIN), Ok(None));
    assert_eq!(m, meters());
}

#[test]
fn fixed_amounts_saturate() {
    let mut m = meters();
    assert_eq!(
        add_suspicion(&mut m, Some(1), SuspicionType::Police, 5),
        Ok(Some(SuspicionUpdate { value: u32::MAX, event: None }))
    );
    assert_eq!(m.regions[1], RegionalSuspicion { police: u32::MAX, media: 660 });
}

#[test]
fn suspicion_goes_to_the_right_meter() {
    let mut m = meters();
    assert_eq!(
        add_suspicion(&mut m, Some(0), SuspicionType::Intelligence, 30),
        Ok(Some(SuspicionUpdate { value: 530, event: None }))
    );
    assert_eq!(m.intelligence, 530);
    assert_eq!(m.regions, meters().regions);
    assert_eq!(
        add_suspicion(&mut m, Some(1), SuspicionType::Media, 10),
        Ok(Some(SuspicionUpdate { value: 670, event: Some(false) }))
    );
    assert_eq!(m.regions[1].media, 670);
    assert_eq!(m.regions[0], RegionalSuspicion { police: 10, media: 20 });
    assert_eq!(m.scientific, 0);
}

#[test]
fn regional_suspicion_needs_a_region() {
    let mut m = meters();
    assert_eq!(add_suspicion(&mut m, None, SuspicionType::Police, 5), Err(WrongSuspicionRegion));
    assert_eq!(add_suspicion(&mut m, Some(2), SuspicionType::Media, 5), Err(WrongSuspicionRegion));
    assert_eq!(m, meters());
}

#[test]
fn suspicion_type_names() {
    assert_eq!(SuspicionType::Intelligence.name(), "intelligence");
    assert_eq!(SuspicionType::Scientific.name(), "scientific");
    assert_eq!(SuspicionType::Police.name(), "police");
    assert_eq!(SuspicionType::Media.name(), "media");
}

fn events() -> Vec<SuspicionEventKey> {
    vec![
        SuspicionEventKey { major: false, suspicion_type: SuspicionType::Police },
        SuspicionEventKey { major: true, suspicion_type: SuspicionType::Police },
        SuspicionEventKey { major: false, suspicion_type: SuspicionType::Media },
        SuspicionEventKey { major: false, suspicion_type: SuspicionType::Police },
    ]
}

#[test]
fn candidates_are_the_fitting_events_in_order() {
    assert_eq!(suspicion_event_candidates(&events(), false, SuspicionType::Police), vec![0, 3]);
    assert_eq!(suspicion_event_candidates(&events(), true, SuspicionType::Police), vec![1]);
    assert!(suspicion_event_candidates(&events(), true, SuspicionType::Media).is_empty());
}

#[test]
fn picked_event_fits() {
    let mut rng = StdRng::seed_from_u64(7);
    for _ in 0..50 {
        let i = pick_suspicion_event(&events(), false, SuspicionType::Police, &mut rng);
        assert!(i == 0 || i == 3);
    }
    assert_eq!(pick_suspicion_event(&events(), false, SuspicionType::Media, &mut rng), 2);
}
