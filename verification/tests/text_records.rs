use persona_mind::contract::{
    self, ActivityAcknowledgment, ClaimAcceptance, Edge, EdgeKind, EdgeTarget, Event,
    EventHeader, ExternalReference, HandoffRejection, Item, ItemKind, ItemOpenedEvent,
    ItemPriority, ItemStatus, MemoryView, MindReply, MindRequest, MindUnimplementedReason,
    Rejection, RejectionReason, RoleName, ScopeConflict, ScopeReference, ThoughtCommitted,
};
use persona_mind::error::Error;
use persona_mind::text::{
    ActivityFilterText, ActivityQuery, ActivitySubmission, Alias, ByItem, EdgeKindText,
    EdgeTargetText, GitCommit, HandoffRejectionReason, ItemKindText, ItemPriorityText,
    ItemReferenceTarget, ItemReferenceText, ItemStatusText, Link, LinkTargetText, MindTextReply,
    MindTextRequest, Opening, Path, PathPrefix, Query, QueryKindText, RejectionReasonText,
    RoleClaim, RoleFilter, RoleHandoff, RoleNameText, RoleRelease, ScopeReferenceText, Stable,
    Task, TaskFilter,
};

fn path(text: &str) -> ScopeReferenceText {
    ScopeReferenceText::Path(Path {
        path: text.to_string(),
    })
}

#[test]
fn role_claim_text_maps_to_the_contract_request() {
    let request = MindTextRequest::RoleClaim(RoleClaim {
        role: RoleNameText::Operator,
        scopes: vec![
            path("/git/github.com/LiGoldragon/persona-mind"),
            ScopeReferenceText::Task(Task {
                token: "primary-abc".to_string(),
            }),
        ],
        reason: "own the mind".to_string(),
    })
    .into_request()
    .expect("request maps");
    let MindRequest::RoleClaim(claim) = request else {
        panic!("expected role claim");
    };
    assert_eq!(claim.role, RoleName::Operator);
    assert_eq!(
        claim.scopes,
        vec![
            ScopeReference::Path("/git/github.com/LiGoldragon/persona-mind".to_string()),
            ScopeReference::Task("primary-abc".to_string()),
        ]
    );
    assert_eq!(claim.reason, "own the mind");
}

#[test]
fn relative_path_is_refused_before_the_reason() {
    let refused = MindTextRequest::RoleHandoff(RoleHandoff {
        from: RoleNameText::Operator,
        to: RoleNameText::Designer,
        scopes: vec![path("/fine"), path("relative/path")],
        reason: String::new(),
    })
    .into_request();
    assert_eq!(
        refused,
        Err(Error::RelativeWirePath {
            path: "relative/path".to_string()
        })
    );
}

#[test]
fn empty_reason_and_empty_token_are_refused() {
    let empty_reason = MindTextRequest::ActivitySubmission(ActivitySubmission {
        role: RoleNameText::Poet,
        scope: path("/a"),
        reason: String::new(),
    })
    .into_request();
    assert_eq!(empty_reason, Err(Error::EmptyScopeReason));

    let empty_token = MindTextRequest::ActivitySubmission(ActivitySubmission {
        role: RoleNameText::Poet,
        scope: ScopeReferenceText::Task(Task {
            token: String::new(),
        }),
        reason: "fine".to_string(),
    })
    .into_request();
    assert_eq!(empty_token, Err(Error::EmptyTaskToken));
}

#[test]
fn activity_query_filters_are_checked_in_order() {
    let mapped = MindTextRequest::ActivityQuery(ActivityQuery {
        limit: 5,
        filters: vec![
            ActivityFilterText::RoleFilter(RoleFilter {
                role: RoleNameText::SystemAssistant,
            }),
            ActivityFilterText::PathPrefix(PathPrefix {
                path: "/git".to_string(),
            }),
            ActivityFilterText::TaskFilter(TaskFilter {
                token: "t".to_string(),
            }),
        ],
    })
    .into_request()
    .expect("filters map");
    let MindRequest::ActivityQuery(query) = mapped else {
        panic!("expected activity query");
    };
    assert_eq!(query.limit, 5);
    assert_eq!(
        query.filters,
        vec![
            contract::ActivityFilter::RoleFilter(RoleName::SystemAssistant),
            contract::ActivityFilter::PathPrefix("/git".to_string()),
            contract::ActivityFilter::TaskToken("t".to_string()),
        ]
    );

    let refused = MindTextRequest::ActivityQuery(ActivityQuery {
        limit: 5,
        filters: vec![ActivityFilterText::PathPrefix(PathPrefix {
            path: "git".to_string(),
        })],
    })
    .into_request();
    assert_eq!(
        refused,
        Err(Error::RelativeWirePath {
            path: "git".to_string()
        })
    );
}

#[test]
fn memory_requests_map_field_by_field() {
    let opening = MindTextRequest::Opening(Opening {
        kind: ItemKindText::Question,
        priority: ItemPriorityText::Backlog,
        title: "title".to_string(),
        body: "body".to_string(),
    })
    .into_request()
    .expect("opening maps");
    assert_eq!(
        opening,
        MindRequest::Opening(contract::Opening {
            kind: ItemKind::Question,
            priority: ItemPriority::Backlog,
            title: "title".to_string(),
            body: "body".to_string(),
        })
    );

    let link = MindTextRequest::Link(Link {
        source: ItemReferenceText::Stable(Stable {
            id: "aab".to_string(),
        }),
        kind: EdgeKindText::Answers,
        target: LinkTargetText::GitCommit(GitCommit {
            hash: "abc123".to_string(),
        }),
        body: Some("why".to_string()),
    })
    .into_request()
    .expect("link maps");
    assert_eq!(
        link,
        MindRequest::Link(contract::Link {
            source: contract::ItemReference::Stable("aab".to_string()),
            kind: EdgeKind::Answers,
            target: contract::LinkTarget::External(ExternalReference::GitCommit(
                "abc123".to_string()
            )),
            body: Some("why".to_string()),
        })
    );

    let item_link = MindTextRequest::Link(Link {
        source: ItemReferenceText::Alias(Alias {
            alias: "primary-abc".to_string(),
        }),
        kind: EdgeKindText::DependsOn,
        target: LinkTargetText::ItemReferenceTarget(ItemReferenceTarget {
            item: ItemReferenceText::Stable(Stable {
                id: "aac".to_string(),
            }),
        }),
        body: None,
    })
    .into_request()
    .expect("item link maps");
    assert_eq!(
        item_link,
        MindRequest::Link(contract::Link {
            source: contract::ItemReference::Alias("primary-abc".to_string()),
            kind: EdgeKind::DependsOn,
            target: contract::LinkTarget::Item(contract::ItemReference::Stable(
                "aac".to_string()
            )),
            body: None,
        })
    );

    let query = MindTextRequest::Query(Query {
        kind: QueryKindText::ByItem(ByItem {
            item: ItemReferenceText::Stable(Stable {
                id: "aab".to_string(),
            }),
        }),
        limit: 3,
    })
    .into_request()
    .expect("query maps");
    assert_eq!(
        query,
        MindRequest::Query(contract::Query {
            kind: contract::QueryKind::ByItem(contract::ItemReference::Stable("aab".to_string())),
            limit: 3,
        })
    );

    let release = MindTextRequest::RoleRelease(RoleRelease {
        role: RoleNameText::PoetAssistant,
    })
    .into_request()
    .expect("release maps");
    assert_eq!(
        release,
        MindRequest::RoleRelease(contract::RoleRelease {
            role: RoleName::PoetAssistant
        })
    );
}

#[test]
fn enum_text_forms_round_trip() {
    for role in [
        RoleName::Operator,
        RoleName::OperatorAssistant,
        RoleName::Designer,
        RoleName::DesignerAssistant,
        RoleName::SystemSpecialist,
        RoleName::SystemAssistant,
        RoleName::Poet,
        RoleName::PoetAssistant,
    ] {
        assert_eq!(RoleNameText::from_contract(role).into_contract(), role);
    }
    for status in [
        ItemStatus::Open,
        ItemStatus::InProgress,
        ItemStatus::Blocked,
        ItemStatus::Closed,
        ItemStatus::Deferred,
    ] {
        assert_eq!(ItemStatusText::from_contract(status).into_contract(), status);
    }
    assert_eq!(
        RejectionReasonText::from_contract(RejectionReason::CollisionUnresolved),
        RejectionReasonText::CollisionUnresolved
    );
}

#[test]
fn replies_map_to_their_text_form() {
    let acceptance = MindTextReply::from_reply(MindReply::ClaimAcceptance(ClaimAcceptance {
        role: RoleName::Designer,
        scopes: vec![ScopeReference::Path("/a".to_string())],
    }))
    .expect("acceptance has a text form");
    let MindTextReply::ClaimAcceptance(text) = acceptance else {
        panic!("expected claim acceptance");
    };
    assert_eq!(text.role, RoleNameText::Designer);
    assert_eq!(text.scopes, vec![path("/a")]);

    let rejection = MindTextReply::from_reply(MindReply::HandoffRejection(HandoffRejection {
        from: RoleName::Operator,
        to: RoleName::Poet,
        reason: contract::HandoffRejectionReason::TargetRoleConflict(vec![ScopeConflict {
            scope: ScopeReference::Task("t".to_string()),
            held_by: RoleName::Designer,
            held_reason: "mine".to_string(),
        }]),
    }))
    .expect("handoff rejection has a text form");
    let MindTextReply::HandoffRejection(text) = rejection else {
        panic!("expected handoff rejection");
    };
    let HandoffRejectionReason::TargetRoleConflict(conflict) = text.reason else {
        panic!("expected target conflict");
    };
    assert_eq!(conflict.conflicts.len(), 1);
    assert_eq!(conflict.conflicts[0].held_by, RoleNameText::Designer);
    assert_eq!(conflict.conflicts[0].held_reason, "mine");

    let acknowledgment =
        MindTextReply::from_reply(MindReply::ActivityAcknowledgment(ActivityAcknowledgment {
            slot: 4,
        }))
        .expect("acknowledgment has a text form");
    assert!(matches!(
        acknowledgment,
        MindTextReply::ActivityAcknowledgment(text) if text.slot == 4
    ));

    let refused = MindTextReply::from_reply(MindReply::Rejection(Rejection {
        reason: RejectionReason::UnknownItem,
    }))
    .expect("rejection has a text form");
    assert!(matches!(
        refused,
        MindTextReply::Rejection(text) if text.reason == RejectionReasonText::UnknownItem
    ));
}

#[test]
fn views_map_items_edges_and_events() {
    let item = Item {
        id: "aab".to_string(),
        display_id: "aab".to_string(),
        aliases: vec!["alias".to_string()],
        kind: ItemKind::Task,
        status: ItemStatus::Open,
        priority: ItemPriority::Normal,
        title: "t".to_string(),
        body: "b".to_string(),
    };
    let view = MemoryView {
        items: vec![item.clone()],
        edges: vec![Edge {
            event: 2,
            source: "aab".to_string(),
            kind: EdgeKind::References,
            target: EdgeTarget::External(ExternalReference::File("/f".to_string())),
            body: None,
        }],
        notes: Vec::new(),
        events: vec![Event::ItemOpened(ItemOpenedEvent {
            header: EventHeader {
                event: 1,
                operation: "aab".to_string(),
                actor: "operator".to_string(),
            },
            item,
        })],
    };
    let MindTextReply::View(text) =
        MindTextReply::from_reply(MindReply::View(view)).expect("views have a text form")
    else {
        panic!("expected view");
    };
    assert_eq!(text.items.len(), 1);
    assert_eq!(text.items[0].aliases, vec!["alias".to_string()]);
    assert_eq!(text.items[0].status, ItemStatusText::Open);
    assert_eq!(text.edges.len(), 1);
    assert!(matches!(&text.edges[0].target, EdgeTargetText::File(file) if file.path == "/f"));
    assert_eq!(text.events.len(), 1);
}

#[test]
fn typed_graph_replies_have_no_text_form() {
    let refused = MindTextReply::from_reply(MindReply::ThoughtCommitted(ThoughtCommitted {
        record: "aaa".to_string(),
        display: "aaa".to_string(),
        occurred_at: 1,
    }));
    assert_eq!(
        refused,
        Err(Error::UnexpectedFrame(
            "mind reply has no MindTextReply projection".to_string()
        ))
    );
    let unimplemented = MindTextReply::from_reply(MindReply::MindRequestUnimplemented(
        MindUnimplementedReason::NotInPrototypeScope,
    ));
    assert!(unimplemented.is_err());
}

#[test]
fn nota_activity_submission_text_maps_to_signal_request() {
    let request = MindTextRequest::ActivitySubmission(ActivitySubmission {
        role: RoleNameText::Operator,
        scope: path("/git/github.com/LiGoldragon/persona-mind"),
        reason: "activity via text".to_string(),
    })
    .into_request()
    .expect("request maps to the contract");

    let MindRequest::ActivitySubmission(submission) = request else {
        panic!("expected activity submission");
    };

    assert_eq!(submission.role, RoleName::Operator);
}

#[test]
fn nota_role_handoff_text_maps_to_signal_request() {
    let request = MindTextRequest::RoleHandoff(RoleHandoff {
        from: RoleNameText::Operator,
        to: RoleNameText::Designer,
        scopes: vec![path("/git/github.com/LiGoldragon/persona-mind")],
        reason: "handoff via text".to_string(),
    })
    .into_request()
    .expect("request maps to the contract");

    let MindRequest::RoleHandoff(handoff) = request else {
        panic!("expected role handoff");
    };

    assert_eq!(handoff.from, RoleName::Operator);
    assert_eq!(handoff.to, RoleName::Designer);
    assert_eq!(handoff.scopes.len(), 1);
}
