use sam_trust::multidimensional_trust::{
    add_designation, decode_designations, designation_grant, designations_read,
    encode_designations, exceeds_daily_interaction_limit, has_designation, policy_admits,
    remove_designation,
    standing_authority, stored_designations_text, AuthorityGrant, PolicyMode, TrustDimension,
};

fn names(list: &[&str]) -> Vec<String> {
    list.iter().map(|s| s.to_string()).collect()
}

#[test]
fn all_needs_every_condition() {
    assert!(PolicyMode::All.is_satisfied(&vec![true, true, true, true]));
    assert!(!PolicyMode::All.is_satisfied(&vec![true, true, true, false]));
    assert!(PolicyMode::All.is_satisfied(&vec![]));
}

#[test]
fn any_needs_one_condition() {
    assert!(PolicyMode::Any.is_satisfied(&vec![false, true]));
    assert!(!PolicyMode::Any.is_satisfied(&vec![false, false]));
    assert!(!PolicyMode::Any.is_satisfied(&vec![]));
}

#[test]
fn at_least_n_counts_conditions() {
    // Only voice high: 1 of 3
    assert!(!PolicyMode::AtLeastN(2).is_satisfied(&vec![true, false, false]));
    // Voice and typing: 2 of 3
    assert!(PolicyMode::AtLeastN(2).is_satisfied(&vec![true, true, false]));
    // Voice fails, the other two conditions hold: 2 of 3
    assert!(PolicyMode::AtLeastN(2).is_satisfied(&vec![false, true, true]));
    assert!(PolicyMode::AtLeastN(0).is_satisfied(&vec![]));
    assert!(!PolicyMode::AtLeastN(4).is_satisfied(&vec![true, true, true]));
}

#[test]
fn dimensions_are_distinct() {
    assert_ne!(TrustDimension::Voice, TrustDimension::Typing);
    assert_eq!(TrustDimension::Authority, TrustDimension::Authority);
}

#[test]
fn designation_grants() {
    assert_eq!(designation_grant("inner_circle"), Some(AuthorityGrant::Full));
    assert_eq!(designation_grant("hr"), Some(AuthorityGrant::High));
    assert_eq!(designation_grant("successor"), Some(AuthorityGrant::High));
    assert_eq!(designation_grant("trusted_contact"), Some(AuthorityGrant::Partial));
    assert_eq!(designation_grant("book_club"), None);
}

#[test]
fn add_designation_once() {
    let mut held = Vec::new();
    assert!(add_designation(&mut held, "inner_circle".to_string()));
    assert!(has_designation(&held, "inner_circle"));
    assert!(!add_designation(&mut held, "inner_circle".to_string()));
    assert_eq!(held, names(&["inner_circle"]));
    assert_eq!(standing_authority(&held), AuthorityGrant::Full);
}

#[test]
fn remove_designation_removes_authority() {
    let mut held = names(&["inner_circle"]);
    remove_designation(&mut held, "inner_circle");
    assert!(!has_designation(&held, "inner_circle"));
    assert_eq!(standing_authority(&held), AuthorityGrant::NoAuthority);
}

#[test]
fn remove_keeps_other_designations_in_order() {
    let mut held = names(&["hr", "book_club", "hr", "trusted_contact"]);
    remove_designation(&mut held, "hr");
    assert_eq!(held, names(&["book_club", "trusted_contact"]));
    assert_eq!(standing_authority(&held), AuthorityGrant::Partial);
}

#[test]
fn standing_takes_strongest() {
    assert_eq!(standing_authority(&names(&["trusted_contact", "successor"])), AuthorityGrant::High);
    assert_eq!(standing_authority(&names(&["hr", "inner_circle"])), AuthorityGrant::Full);
    assert_eq!(standing_authority(&names(&["book_club"])), AuthorityGrant::NoAuthority);
}

#[test]
fn designations_stored_as_json() {
    assert_eq!(encode_designations(&names(&["hr", "successor"])), "[\"hr\",\"successor\"]");
    assert_eq!(encode_designations(&Vec::new()), "[]");
    assert_eq!(decode_designations("[\"hr\",\"successor\"]"), names(&["hr", "successor"]));
    assert_eq!(decode_designations("not json"), Vec::<String>::new());
    let held = names(&["inner_circle", "a \"quoted\" one"]);
    assert_eq!(decode_designations(&encode_designations(&held)), held);
}

#[test]
fn interaction_rate_limit() {
    assert!(!exceeds_daily_interaction_limit(10, 0));
    assert!(exceeds_daily_interaction_limit(11, 0));
    assert!(!exceeds_daily_interaction_limit(20, 2));
    assert!(exceeds_daily_interaction_limit(21, 2));
    assert!(exceeds_daily_interaction_limit(11, -5));
}

#[test]
fn encoding_outcomes() {
    assert_eq!(stored_designations_text(Some("[\"hr\"]".to_string())), "[\"hr\"]");
    assert_eq!(stored_designations_text(None), "[]");
    assert_eq!(designations_read(Some(names(&["hr"]))), names(&["hr"]));
    assert_eq!(designations_read(None), Vec::<String>::new());
}

#[test]
fn meeting_more_conditions_never_fails_a_policy() {
    let weaker = vec![true, false, false];
    let stronger = vec![true, true, false];
    for mode in [PolicyMode::All, PolicyMode::Any, PolicyMode::AtLeastN(1), PolicyMode::AtLeastN(2)] {
        if mode.is_satisfied(&weaker) {
            assert!(mode.is_satisfied(&stronger));
        }
    }
    assert_eq!(
        PolicyMode::Any.is_satisfied(&weaker),
        PolicyMode::AtLeastN(1).is_satisfied(&weaker)
    );
    assert_eq!(
        PolicyMode::All.is_satisfied(&stronger),
        PolicyMode::AtLeastN(3).is_satisfied(&stronger)
    );
}

#[test]
fn add_then_remove_restores_other_designations() {
    let mut held = names(&["hr", "book_club"]);
    add_designation(&mut held, "successor".to_string());
    remove_designation(&mut held, "successor");
    assert_eq!(held, names(&["hr", "book_club"]));
}

#[test]
fn policy_needs_required_designations() {
    let met = vec![true, true, true, true];
    let required = names(&["inner_circle"]);
    assert!(!policy_admits(PolicyMode::All, &met, &required, &Vec::new()));
    assert!(policy_admits(PolicyMode::All, &met, &required, &names(&["inner_circle"])));
    assert!(!policy_admits(PolicyMode::All, &vec![true, false], &required, &names(&["inner_circle"])));
    assert!(policy_admits(PolicyMode::AtLeastN(1), &vec![false, true], &Vec::new(), &Vec::new()));
    assert!(!policy_admits(
        PolicyMode::Any,
        &vec![true],
        &names(&["hr", "successor"]),
        &names(&["hr"])
    ));
}
