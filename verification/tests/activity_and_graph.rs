use persona_mind::contract::{
    ActivityFilter, ActivityQuery, ActivitySubmission, ByThoughtKind, CompositeRelationFilter,
    MindReply, QueryRelations, QueryThoughts, RelationFilter, RelationKind, RoleName,
    ScopeReference, SubmitRelation, SubmitThought, ThoughtBody, ThoughtFilter, ThoughtKind,
};
use persona_mind::error::Error;
use persona_mind::graph::{GraphLimit, MindGraphLedger, RelationSelector};
use persona_mind::ActivityLedger;

fn submission(role: RoleName, scope: ScopeReference, reason: &str) -> ActivitySubmission {
    ActivitySubmission {
        role,
        scope,
        reason: reason.to_string(),
    }
}

#[test]
fn activity_slots_count_up_from_zero() {
    let mut ledger = ActivityLedger::new();
    let first = ledger.submit_stamped(
        submission(RoleName::Operator, ScopeReference::Task("t1".to_string()), "one"),
        5,
    );
    let second = ledger.submit_stamped(
        submission(RoleName::Designer, ScopeReference::Task("t2".to_string()), "two"),
        7,
    );
    assert!(matches!(first, MindReply::ActivityAcknowledgment(ack) if ack.slot == 0));
    assert!(matches!(second, MindReply::ActivityAcknowledgment(ack) if ack.slot == 1));
    assert_eq!(ledger.next_slot(), 2);
}

#[test]
fn activity_query_filters_and_limits_newest_first() {
    let mut ledger = ActivityLedger::new();
    for (index, role) in [RoleName::Operator, RoleName::Designer, RoleName::Operator]
        .into_iter()
        .enumerate()
    {
        let _ = ledger.submit_stamped(
            submission(
                role,
                ScopeReference::Path(format!("/git/repo/{index}")),
                &format!("reason {index}"),
            ),
            100 + index as u64,
        );
    }
    let MindReply::ActivityList(list) = ledger.query(ActivityQuery {
        limit: 10,
        filters: vec![ActivityFilter::RoleFilter(RoleName::Operator)],
    }) else {
        panic!("expected list");
    };
    assert_eq!(list.records.len(), 2);
    assert_eq!(list.records[0].reason, "reason 2");
    assert_eq!(list.records[1].reason, "reason 0");
    assert_eq!(list.records[0].stamped_at, 102);

    let MindReply::ActivityList(limited) = ledger.query(ActivityQuery {
        limit: 1,
        filters: Vec::new(),
    }) else {
        panic!("expected list");
    };
    assert_eq!(limited.records.len(), 1);
    assert_eq!(limited.records[0].reason, "reason 2");

    let MindReply::ActivityList(prefixed) = ledger.query(ActivityQuery {
        limit: 10,
        filters: vec![ActivityFilter::PathPrefix("/git/repo/1".to_string())],
    }) else {
        panic!("expected list");
    };
    assert_eq!(prefixed.records.len(), 1);
    assert_eq!(prefixed.records[0].role, RoleName::Designer);

    let newest = ledger.newest_first();
    assert_eq!(newest.len(), 3);
    assert_eq!(newest[0].reason, "reason 2");
}

#[test]
fn activity_task_filter_matches_only_its_token() {
    let mut ledger = ActivityLedger::new();
    let _ = ledger.submit_stamped(
        submission(RoleName::Poet, ScopeReference::Task("alpha".to_string()), "a"),
        1,
    );
    let _ = ledger.submit_stamped(
        submission(RoleName::Poet, ScopeReference::Task("beta".to_string()), "b"),
        2,
    );
    let MindReply::ActivityList(list) = ledger.query(ActivityQuery {
        limit: 10,
        filters: vec![ActivityFilter::TaskToken("beta".to_string())],
    }) else {
        panic!("expected list");
    };
    assert_eq!(list.records.len(), 1);
    assert_eq!(list.records[0].reason, "b");
}

fn thought(kind: ThoughtKind, text: &str) -> SubmitThought {
    let body = match kind {
        ThoughtKind::Goal => ThoughtBody::Goal(text.to_string()),
        ThoughtKind::Claim => ThoughtBody::Claim(text.to_string()),
        ThoughtKind::Memory => ThoughtBody::Memory(text.to_string()),
    };
    SubmitThought { kind, body }
}

#[test]
fn thought_ids_are_compact_and_sequential() {
    let mut ledger = MindGraphLedger::new();
    let first = ledger
        .append_thought("author".to_string(), thought(ThoughtKind::Goal, "g"), 10)
        .expect("goal appends");
    let second = ledger
        .append_thought("author".to_string(), thought(ThoughtKind::Memory, "m"), 11)
        .expect("memory appends");
    assert_eq!(first.id, "aaa");
    assert_eq!(second.id, "aab");
    assert_eq!(ledger.next_record_value(), 2);
}

#[test]
fn thought_kind_must_match_its_body() {
    let mut ledger = MindGraphLedger::new();
    let refused = ledger.append_thought(
        "author".to_string(),
        SubmitThought {
            kind: ThoughtKind::Goal,
            body: ThoughtBody::Memory("m".to_string()),
        },
        1,
    );
    assert_eq!(
        refused,
        Err(Error::MindGraphThoughtKindMismatch {
            declared: ThoughtKind::Goal,
            actual: ThoughtKind::Memory,
        })
    );
    assert_eq!(ledger.next_record_value(), 0);
}

#[test]
fn relations_need_existing_endpoints_of_fitting_kinds() {
    let mut ledger = MindGraphLedger::new();
    let goal = ledger
        .append_thought("a".to_string(), thought(ThoughtKind::Goal, "g"), 1)
        .expect("goal");
    let claim = ledger
        .append_thought("a".to_string(), thought(ThoughtKind::Claim, "c"), 2)
        .expect("claim");

    let missing = ledger.append_relation(
        "a".to_string(),
        SubmitRelation {
            kind: RelationKind::Supports,
            source: "zzz".to_string(),
            target: goal.id.clone(),
            note: None,
        },
        3,
    );
    assert_eq!(
        missing,
        Err(Error::MindGraphMissingRecord {
            record: "zzz".to_string()
        })
    );

    let wrong = ledger.append_relation(
        "a".to_string(),
        SubmitRelation {
            kind: RelationKind::Implements,
            source: goal.id.clone(),
            target: claim.id.clone(),
            note: None,
        },
        3,
    );
    assert_eq!(
        wrong,
        Err(Error::MindGraphRelationKindMismatch {
            kind: RelationKind::Implements,
            source: ThoughtKind::Goal,
            target: ThoughtKind::Claim,
        })
    );

    let implements = ledger
        .append_relation(
            "a".to_string(),
            SubmitRelation {
                kind: RelationKind::Implements,
                source: claim.id.clone(),
                target: goal.id.clone(),
                note: Some("why".to_string()),
            },
            4,
        )
        .expect("claim implements goal");
    assert_eq!(implements.id, "aac");
    assert_eq!(implements.note, Some("why".to_string()));
}

#[test]
fn thought_queries_sort_by_time_and_report_more() {
    let mut ledger = MindGraphLedger::new();
    let _late = ledger
        .append_thought("a".to_string(), thought(ThoughtKind::Goal, "late"), 30)
        .expect("late");
    let _early = ledger
        .append_thought("a".to_string(), thought(ThoughtKind::Goal, "early"), 10)
        .expect("early");
    let _memory = ledger
        .append_thought("a".to_string(), thought(ThoughtKind::Memory, "m"), 20)
        .expect("memory");
    let MindReply::ThoughtList(list) = ledger.read_thoughts(QueryThoughts {
        filter: ThoughtFilter::ByKind(ByThoughtKind {
            kinds: vec![ThoughtKind::Goal],
        }),
        limit: 1,
    }) else {
        panic!("expected list");
    };
    assert_eq!(list.thoughts.len(), 1);
    assert_eq!(list.thoughts[0].body, ThoughtBody::Goal("early".to_string()));
    assert!(list.has_more);
}

#[test]
fn relation_selector_composite_needs_every_part() {
    let mut ledger = MindGraphLedger::new();
    let goal = ledger
        .append_thought("a".to_string(), thought(ThoughtKind::Goal, "g"), 1)
        .expect("goal");
    let other = ledger
        .append_thought("a".to_string(), thought(ThoughtKind::Goal, "h"), 2)
        .expect("goal");
    let relation = ledger
        .append_relation(
            "a".to_string(),
            SubmitRelation {
                kind: RelationKind::Supports,
                source: goal.id.clone(),
                target: other.id.clone(),
                note: None,
            },
            3,
        )
        .expect("supports");
    let accepting = RelationSelector::new(RelationFilter::Composite(CompositeRelationFilter {
        kinds: vec![RelationKind::Supports],
        source: Some(goal.id.clone()),
        target: None,
    }));
    let refusing = RelationSelector::new(RelationFilter::Composite(CompositeRelationFilter {
        kinds: vec![RelationKind::Supports],
        source: Some(other.id.clone()),
        target: None,
    }));
    assert!(accepting.accepts(&relation));
    assert!(!refusing.accepts(&relation));

    let MindReply::RelationList(list) = ledger.read_relations(QueryRelations {
        filter: RelationFilter::BySource(goal.id.clone()),
        limit: 5,
    }) else {
        panic!("expected list");
    };
    assert_eq!(list.relations.len(), 1);
    assert!(!list.has_more);
}

#[test]
fn graph_limit_keeps_the_first_records() {
    let limited = GraphLimit::new(2).apply(vec![1, 2, 3]);
    assert_eq!(limited.records, vec![1, 2]);
    assert!(limited.has_more);
    let all = GraphLimit::new(5).apply(vec![1, 2, 3]);
    assert_eq!(all.records, vec![1, 2, 3]);
    assert!(!all.has_more);
}

#[test]
fn subscriptions_get_compact_ids_and_a_snapshot() {
    let mut ledger = MindGraphLedger::new();
    let _ = ledger
        .append_thought("a".to_string(), thought(ThoughtKind::Goal, "g"), 1)
        .expect("goal");
    let MindReply::SubscriptionAccepted(first) =
        ledger.open_thought_subscription(ThoughtFilter::ByKind(ByThoughtKind {
            kinds: vec![ThoughtKind::Goal],
        }))
    else {
        panic!("expected subscription");
    };
    let MindReply::SubscriptionAccepted(second) =
        ledger.open_relation_subscription(RelationFilter::BySource("aaa".to_string()))
    else {
        panic!("expected subscription");
    };
    assert_eq!(first.subscription, "aaa");
    assert_eq!(first.initial_snapshot.len(), 1);
    assert_eq!(second.subscription, "aab");
    assert!(second.initial_snapshot.is_empty());
    assert_eq!(ledger.next_subscription_value(), 2);
}
