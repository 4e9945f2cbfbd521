use sam_trust::trust_scoring::{
    adopt_baseline, is_impossible_travel, push_recent, record_attempt_outcome, travel_flagged,
    TrustLevel, AUTHS_FOR_INNER_CIRCLE,
    AUTHS_FOR_OBSERVED, RECENT_AUTHS_LIMIT,
};

#[test]
fn level_names_read_back() {
    for level in [
        TrustLevel::Unknown,
        TrustLevel::Observed,
        TrustLevel::Verified,
        TrustLevel::Trusted,
        TrustLevel::InnerCircle,
    ] {
        assert_eq!(TrustLevel::from_name(level.name()), level);
    }
    assert_eq!(TrustLevel::InnerCircle.name(), "InnerCircle");
    assert_eq!(TrustLevel::from_name("Trusted"), TrustLevel::Trusted);
    assert_eq!(TrustLevel::from_name("trusted"), TrustLevel::Unknown);
}

#[test]
fn impossible_travel_needs_new_place_within_an_hour() {
    assert!(is_impossible_travel("Denver, CO", "Paris", 0));
    assert!(!is_impossible_travel("Denver, CO", "Paris", 1));
    assert!(!is_impossible_travel("Denver, CO", "Denver, CO", 0));
}

#[test]
fn recent_attempts_keep_the_last_ten() {
    let mut recent: Vec<u32> = Vec::new();
    for i in 0..15u32 {
        push_recent(&mut recent, i);
        assert!(recent.len() <= RECENT_AUTHS_LIMIT);
        assert_eq!(*recent.last().unwrap(), i);
    }
    assert_eq!(recent, (5..15).collect::<Vec<u32>>());
}

#[test]
fn baseline_is_adopted_once() {
    let mut baseline: Option<u32> = None;
    adopt_baseline(&mut baseline, None);
    assert_eq!(baseline, None);
    adopt_baseline(&mut baseline, Some(7));
    assert_eq!(baseline, Some(7));
    adopt_baseline(&mut baseline, Some(9));
    assert_eq!(baseline, Some(7));
}

#[test]
fn auth_thresholds() {
    assert_eq!(AUTHS_FOR_OBSERVED, 3);
    assert_eq!(AUTHS_FOR_INNER_CIRCLE, 100);
}

#[test]
fn travel_check_needs_a_previous_auth_and_both_places() {
    assert!(travel_flagged(Some(0), Some("Denver, CO"), Some("Paris")));
    assert!(!travel_flagged(None, Some("Denver, CO"), Some("Paris")));
    assert!(!travel_flagged(Some(0), None, Some("Paris")));
    assert!(!travel_flagged(Some(0), Some("Denver, CO"), None));
    assert!(!travel_flagged(Some(3), Some("Denver, CO"), Some("Paris")));
}

#[test]
fn attempt_outcomes_are_counted() {
    let (mut ok, mut failed) = (4u32, 1u32);
    let mut last: Option<u64> = Some(10);
    record_attempt_outcome(&mut ok, &mut failed, &mut last, false, 20);
    assert_eq!((ok, failed, last), (4, 2, Some(10)));
    record_attempt_outcome(&mut ok, &mut failed, &mut last, true, 30);
    assert_eq!((ok, failed, last), (5, 2, Some(30)));
}
