use sam_trust::relationships::{
    describe_relation, infer_relationships, Certainty, InferenceRule, RelationType,
    RelationshipEdge, RelationshipSource,
};

fn edge(from: &str, to: &str, relationship_type: RelationType) -> RelationshipEdge {
    RelationshipEdge {
        from_user_id: from.to_string(),
        to_user_id: to.to_string(),
        relationship_type,
    }
}

#[test]
fn test_relationship_type_conversion() {
    let rel = RelationType::Uncle;
    let s = rel.to_string();
    assert_eq!(s, "uncle");

    let parsed = RelationType::from_string(&s);
    assert_eq!(parsed, RelationType::Uncle);
}

#[test]
fn test_relationship_inverse() {
    assert_eq!(RelationType::Parent.inverse(), Some(RelationType::Child));
    assert_eq!(RelationType::Child.inverse(), Some(RelationType::Parent));
    assert_eq!(RelationType::Sibling.inverse(), Some(RelationType::Sibling));
}

#[test]
fn every_named_type_reads_back() {
    let all = vec![
        RelationType::Parent,
        RelationType::Child,
        RelationType::Sibling,
        RelationType::Spouse,
        RelationType::Grandparent,
        RelationType::Grandchild,
        RelationType::Uncle,
        RelationType::Aunt,
        RelationType::Nephew,
        RelationType::Niece,
        RelationType::Cousin,
        RelationType::Friend,
        RelationType::Colleague,
        RelationType::Mentor,
        RelationType::Student,
        RelationType::Creator,
        RelationType::Administrator,
        RelationType::User,
        RelationType::Custom("godparent".to_string()),
        RelationType::Custom(String::new()),
        RelationType::Custom("custom:x".to_string()),
    ];
    for t in all {
        assert_eq!(RelationType::from_string(&t.to_string()), t);
    }
}

#[test]
fn custom_type_text() {
    assert_eq!(RelationType::Custom("godparent".to_string()).to_string(), "custom:godparent");
    assert_eq!(RelationType::Administrator.to_string(), "administrator");
    assert_eq!(
        RelationType::from_string("custom:neighbour"),
        RelationType::Custom("neighbour".to_string())
    );
    assert_eq!(
        RelationType::from_string("neighbour"),
        RelationType::Custom("neighbour".to_string())
    );
    assert_eq!(RelationType::from_string("custom:"), RelationType::Custom(String::new()));
    assert_eq!(RelationType::from_string("custom"), RelationType::Custom("custom".to_string()));
    assert_eq!(RelationType::from_string("Parent"), RelationType::Custom("Parent".to_string()));
}

#[test]
fn inverse_of_every_type() {
    assert_eq!(RelationType::Grandparent.inverse(), Some(RelationType::Grandchild));
    assert_eq!(RelationType::Grandchild.inverse(), Some(RelationType::Grandparent));
    assert_eq!(RelationType::Uncle.inverse(), Some(RelationType::Nephew));
    assert_eq!(RelationType::Nephew.inverse(), Some(RelationType::Uncle));
    assert_eq!(RelationType::Aunt.inverse(), Some(RelationType::Niece));
    assert_eq!(RelationType::Niece.inverse(), Some(RelationType::Aunt));
    assert_eq!(RelationType::Mentor.inverse(), Some(RelationType::Student));
    assert_eq!(RelationType::Student.inverse(), Some(RelationType::Mentor));
    assert_eq!(RelationType::Spouse.inverse(), Some(RelationType::Spouse));
    assert_eq!(RelationType::Friend.inverse(), Some(RelationType::Friend));
    assert_eq!(RelationType::Colleague.inverse(), Some(RelationType::Colleague));
    assert_eq!(RelationType::Cousin.inverse(), Some(RelationType::Cousin));
    assert_eq!(RelationType::Creator.inverse(), None);
    assert_eq!(RelationType::Administrator.inverse(), None);
    assert_eq!(RelationType::User.inverse(), None);
    assert_eq!(RelationType::Custom("x".to_string()).inverse(), None);
}

#[test]
fn inverse_twice_gives_back_the_type() {
    for t in [RelationType::Parent, RelationType::Uncle, RelationType::Aunt, RelationType::Mentor] {
        let back = t.inverse().unwrap().inverse().unwrap();
        assert_eq!(back, t);
    }
}

#[test]
fn source_text() {
    assert_eq!(RelationshipSource::Explicit.to_string(), "explicit");
    assert_eq!(RelationshipSource::Inferred.to_string(), "inferred");
    assert_eq!(RelationshipSource::Configuration.to_string(), "configuration");
    for s in [
        RelationshipSource::Explicit,
        RelationshipSource::Inferred,
        RelationshipSource::Configuration,
    ] {
        assert_eq!(RelationshipSource::from_string(&s.to_string()), s);
    }
    assert_eq!(RelationshipSource::from_string("rumour"), RelationshipSource::Explicit);
}

#[test]
fn describe_by_certainty() {
    assert_eq!(describe_relation(&RelationType::Uncle, Certainty::Certain), "uncle");
    assert_eq!(describe_relation(&RelationType::Friend, Certainty::Likely), "friend (likely)");
    assert_eq!(
        describe_relation(&RelationType::Custom("pal".to_string()), Certainty::Possible),
        "custom:pal (possibly)"
    );
}

#[test]
fn infer_uncle_from_creator_sibling_snapshot() {
    let edges = vec![
        edge("magnus", "sam", RelationType::Creator),
        edge("magnus", "john", RelationType::Sibling),
    ];
    let inferred = infer_relationships(&edges, "sam");
    assert_eq!(inferred.len(), 1);
    assert_eq!(inferred[0].from_user_id, "john");
    assert_eq!(inferred[0].to_user_id, "sam");
    assert_eq!(inferred[0].relationship_type, RelationType::Uncle);
    assert_eq!(inferred[0].rule, InferenceRule::CreatorSibling);
    assert_eq!((inferred[0].premise, inferred[0].support), (0, 1));
    assert_eq!(inferred[0].metadata, "Inferred: john is sibling of creator magnus");
    assert_eq!(inferred[0].source, RelationshipSource::Inferred);
}

#[test]
fn infer_grandparent_snapshot() {
    let edges = vec![
        edge("a", "b", RelationType::Parent),
        edge("b", "c", RelationType::Parent),
    ];
    let inferred = infer_relationships(&edges, "sam");
    assert_eq!(inferred.len(), 1);
    let rel = &inferred[0];
    assert_eq!(rel.relationship_type, RelationType::Grandparent);
    assert_eq!(rel.from_user_id, "a");
    assert_eq!(rel.to_user_id, "c");
    assert_eq!(rel.rule, InferenceRule::ParentOfParent);
    assert_eq!((rel.premise, rel.support), (0, 1));
    assert_eq!(rel.metadata, "Inferred: a is parent of b, b is parent of c");
}

#[test]
fn infer_uncle_from_parent_sibling_snapshot() {
    let edges = vec![
        edge("anna", "ben", RelationType::Parent),
        edge("anna", "carl", RelationType::Sibling),
    ];
    let inferred = infer_relationships(&edges, "sam");
    assert_eq!(inferred.len(), 1);
    assert_eq!(inferred[0].from_user_id, "carl");
    assert_eq!(inferred[0].to_user_id, "ben");
    assert_eq!(inferred[0].relationship_type, RelationType::Uncle);
    assert_eq!(inferred[0].rule, InferenceRule::ParentSibling);
    assert_eq!(inferred[0].metadata, "Inferred: carl is sibling of parent anna");
}

#[test]
fn inference_skips_users_already_related() {
    let edges = vec![
        edge("a", "b", RelationType::Parent),
        edge("b", "c", RelationType::Parent),
        edge("a", "c", RelationType::Friend),
        edge("magnus", "sam", RelationType::Creator),
        edge("magnus", "john", RelationType::Sibling),
        edge("john", "sam", RelationType::Friend),
    ];
    let inferred = infer_relationships(&edges, "sam");
    assert!(inferred.is_empty());
}

#[test]
fn inference_runs_rules_in_order() {
    let edges = vec![
        edge("a", "b", RelationType::Parent),
        edge("b", "c", RelationType::Parent),
        edge("a", "s", RelationType::Sibling),
        edge("a", "sam", RelationType::Creator),
    ];
    let inferred = infer_relationships(&edges, "sam");
    let rules: Vec<InferenceRule> = inferred.iter().map(|r| r.rule).collect();
    assert_eq!(
        rules,
        vec![
            InferenceRule::CreatorSibling,
            InferenceRule::ParentOfParent,
            InferenceRule::ParentSibling,
        ]
    );
    assert_eq!(inferred[0].from_user_id, "s");
    assert_eq!(inferred[0].to_user_id, "sam");
    assert_eq!((inferred[0].premise, inferred[0].support), (3, 2));
    assert_eq!(inferred[2].from_user_id, "s");
    assert_eq!(inferred[2].to_user_id, "b");
}

#[test]
fn inference_on_empty_snapshot() {
    let inferred = infer_relationships(&Vec::new(), "sam");
    assert!(inferred.is_empty());
}

#[test]
fn inferring_after_storing_yields_nothing() {
    let mut edges = vec![
        edge("a", "b", RelationType::Parent),
        edge("b", "c", RelationType::Parent),
        edge("a", "s", RelationType::Sibling),
        edge("a", "sam", RelationType::Creator),
    ];
    let inferred = infer_relationships(&edges, "sam");
    assert_eq!(inferred.len(), 3);
    for found in inferred {
        edges.push(edge(&found.from_user_id, &found.to_user_id, found.relationship_type));
    }
    assert!(infer_relationships(&edges, "sam").is_empty());
}
