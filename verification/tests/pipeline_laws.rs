use persona_mind::actors::config::{Config, ReadStoreLocation};
use persona_mind::actors::store::{PersistenceRejection, StoreKernel};
use persona_mind::actors::subscription::{
    PublishPostCommit, PublishRelationDelta, PublishThoughtDelta, ReadSubscriptionEvents,
    SubscriptionEventLog, SubscriptionSupervisor,
};
use persona_mind::actors::{ActorManifest, ActorTrace, TraceAction, TraceEvent, TraceNode};
use persona_mind::contract::{
    ActivityQuery, ByThoughtKind, ItemKind, ItemPriority, MindDelta, MindReply, MindRequest,
    MindUnimplementedReason, Opening, Query, QueryKind, Rejection, RejectionReason, Relation,
    RelationFilter, RelationKind, RoleObservation, Thought, ThoughtBody, ThoughtFilter,
    ThoughtKind,
};
use persona_mind::contract::{QueryRelations, SubmitRelation, SubmitThought};
use persona_mind::error::Error;
use persona_mind::{MindCore, MindEnvelope, StoreLocation};

fn envelope(request: MindRequest) -> MindEnvelope {
    MindEnvelope::new("operator".to_string(), request)
}

#[test]
fn reads_never_reach_the_writer() {
    let mut core = MindCore::open(StoreLocation::new("mind.redb"));
    for request in [
        MindRequest::Query(Query {
            kind: QueryKind::Open,
            limit: 5,
        }),
        MindRequest::RoleObservation(RoleObservation {}),
        MindRequest::ActivityQuery(ActivityQuery {
            limit: 5,
            filters: Vec::new(),
        }),
    ] {
        let reply = core.submit(envelope(request));
        assert!(reply.reply().is_some());
        assert!(!reply.trace().contains(TraceNode::SEMA_WRITER));
    }
}

#[test]
fn every_trace_is_bracketed_by_the_root() {
    let mut core = MindCore::open(StoreLocation::new("mind.redb"));
    let reply = core.submit(envelope(MindRequest::Opening(Opening {
        kind: ItemKind::Note,
        priority: ItemPriority::Low,
        title: "t".to_string(),
        body: "b".to_string(),
    })));
    let events = reply.trace().events();
    assert_eq!(
        events.first(),
        Some(&TraceEvent::new(TraceNode::MIND_ROOT, TraceAction::MessageReceived))
    );
    assert_eq!(
        events.last(),
        Some(&TraceEvent::new(TraceNode::MIND_ROOT, TraceAction::MessageReplied))
    );
    let manifest = ActorManifest::persona_mind_phase_one();
    assert!(events.iter().all(|event| manifest.contains(event.actor())));
}

#[test]
fn unimplemented_requests_are_answered_and_change_nothing() {
    let mut core = MindCore::open(StoreLocation::new("mind.redb"));
    let reply = core.submit(envelope(MindRequest::ChannelGrant));
    assert_eq!(
        reply.reply(),
        Some(&MindReply::MindRequestUnimplemented(
            MindUnimplementedReason::NotInPrototypeScope
        ))
    );
    assert!(reply.trace().contains(TraceNode::ERROR_SHAPER));
    assert!(!reply.trace().contains(TraceNode::STORE_SUPERVISOR));
    let view = core.submit(envelope(MindRequest::Query(Query {
        kind: QueryKind::Open,
        limit: 5,
    })));
    let Some(MindReply::View(view)) = view.reply() else {
        panic!("expected view");
    };
    assert!(view.items.is_empty());
}

#[test]
fn committed_memory_is_kept_by_the_kernel() {
    let mut kernel = StoreKernel::open();
    assert!(kernel.load_memory_graph().is_none());
    let graph = persona_mind::memory::MemoryGraph::new("persona-mind".to_string());
    assert_eq!(kernel.commit_memory_graph(&graph), None);
    assert!(kernel.load_memory_graph().is_some());
    assert!(kernel.room());
}

#[test]
fn persistence_failures_become_a_typed_rejection() {
    assert_eq!(
        PersistenceRejection::reply(Error::SystemTime),
        MindReply::Rejection(Rejection {
            reason: RejectionReason::PersistenceRejected
        })
    );
    assert_eq!(
        PersistenceRejection::new(Error::Io("disk".to_string())).reason,
        RejectionReason::PersistenceRejected
    );
}

#[test]
fn kernel_ignores_requests_that_are_not_its_own() {
    let mut kernel = StoreKernel::open();
    assert_eq!(
        kernel.apply_claim(envelope(MindRequest::RoleObservation(RoleObservation {}))),
        None
    );
    assert_eq!(
        kernel.read_activity(envelope(MindRequest::RoleObservation(RoleObservation {}))),
        None
    );
}

#[test]
fn trace_queries_answer_exactly() {
    let mut trace = ActorTrace::new();
    trace.record(TraceNode::MIND_ROOT, TraceAction::MessageReceived);
    trace.record(TraceNode::CLAIM_FLOW, TraceAction::MessageReceived);
    trace.record(TraceNode::SEMA_WRITER, TraceAction::WriteIntentSent);
    trace.record(TraceNode::MIND_ROOT, TraceAction::MessageReplied);

    assert!(trace.contains(TraceNode::CLAIM_FLOW));
    assert!(!trace.contains(TraceNode::GRAPH_FLOW));
    assert!(trace.contains_action(TraceNode::SEMA_WRITER, TraceAction::WriteIntentSent));
    assert!(!trace.contains_action(TraceNode::SEMA_WRITER, TraceAction::CommitCompleted));
    assert!(trace.contains_ordered(&[TraceNode::MIND_ROOT, TraceNode::SEMA_WRITER, TraceNode::MIND_ROOT]));
    assert!(!trace.contains_ordered(&[TraceNode::SEMA_WRITER, TraceNode::CLAIM_FLOW]));
    assert!(trace.contains_ordered(&[]));
    assert_eq!(trace.events().len(), 4);
    assert_eq!(ActorTrace::default().events().len(), 0);
}

#[test]
fn trace_nodes_are_found_by_label() {
    assert_eq!(TraceNode::new("StoreKernel"), TraceNode::STORE_KERNEL);
    assert_eq!(TraceNode::new("ReplySupervisor"), TraceNode::REPLY_SUPERVISOR);
    assert_eq!(TraceNode::MIND_ROOT.label(), "MindRoot");
    assert_eq!(TraceNode::STORE_KERNEL.label(), "StoreKernel");
    assert_eq!(TraceNode::at(0), TraceNode::MIND_ROOT);
}

#[test]
fn manifest_lists_every_actor_once_and_every_edge_between_listed_actors() {
    let manifest = ActorManifest::persona_mind_phase_one();
    assert_eq!(manifest.actors().len(), 56);
    assert_eq!(manifest.edges().len(), 73);
    for edge in manifest.edges() {
        assert!(manifest.contains(edge.parent()));
        assert!(manifest.contains(edge.child()));
    }
    for (index, entry) in manifest.actors().iter().enumerate() {
        assert_eq!(TraceNode::new(entry.kind().label()), entry.kind());
        assert!(manifest.actors()[index + 1..]
            .iter()
            .all(|other| other.kind() != entry.kind()));
    }
}

fn goal(id: &str) -> Thought {
    Thought {
        id: id.to_string(),
        kind: ThoughtKind::Goal,
        body: ThoughtBody::Goal("g".to_string()),
        author: "operator".to_string(),
        occurred_at: 1,
    }
}

#[test]
fn subscriptions_hear_only_what_their_filter_accepts() {
    let mut supervisor = SubscriptionSupervisor::new(0);
    let accepted = supervisor.publish_thought(
        PublishThoughtDelta {
            subscription: "aaa".to_string(),
            filter: ThoughtFilter::ByKind(ByThoughtKind {
                kinds: vec![ThoughtKind::Goal],
            }),
            thought: goal("aab"),
        },
        Vec::new(),
    );
    assert_eq!(accepted.published_count, 1);
    let ignored = supervisor.publish_thought(
        PublishThoughtDelta {
            subscription: "aaa".to_string(),
            filter: ThoughtFilter::ByKind(ByThoughtKind {
                kinds: vec![ThoughtKind::Memory],
            }),
            thought: goal("aac"),
        },
        Vec::new(),
    );
    assert_eq!(ignored.published_count, 1);
    let superseded = supervisor.publish_thought(
        PublishThoughtDelta {
            subscription: "aaa".to_string(),
            filter: ThoughtFilter::ByKind(ByThoughtKind { kinds: Vec::new() }),
            thought: goal("aad"),
        },
        vec![Relation {
            id: "aae".to_string(),
            kind: RelationKind::Supersedes,
            source: "aaf".to_string(),
            target: "aad".to_string(),
            author: "operator".to_string(),
            occurred_at: 2,
            note: None,
        }],
    );
    assert_eq!(superseded.published_count, 1);
    let relation = supervisor.publish_relation(PublishRelationDelta {
        subscription: "aab".to_string(),
        filter: RelationFilter::BySource("aaf".to_string()),
        relation: Relation {
            id: "aag".to_string(),
            kind: RelationKind::Supports,
            source: "aaf".to_string(),
            target: "aad".to_string(),
            author: "operator".to_string(),
            occurred_at: 3,
            note: None,
        },
    });
    assert_eq!(relation.published_count, 2);

    let log = supervisor.event_log(ReadSubscriptionEvents::all());
    assert_eq!(log.events().len(), 2);
    assert!(matches!(&log.events()[0].delta, MindDelta::ThoughtCommitted(thought) if thought.id == "aab"));
    assert!(matches!(&log.events()[1].delta, MindDelta::RelationCommitted(relation) if relation.id == "aag"));
    let first = supervisor.event_log(ReadSubscriptionEvents::new(1));
    assert_eq!(first.events().len(), 1);
    assert!(SubscriptionEventLog::empty().events().is_empty());

    let trace = supervisor.publish_post_commit(PublishPostCommit {
        trace: ActorTrace::new(),
    });
    assert!(trace.contains_ordered(&[TraceNode::SUBSCRIPTION_SUPERVISOR, TraceNode::COMMIT_BUS]));
}

#[test]
fn config_answers_its_store_and_whether_it_was_expected() {
    let config = Config::new(StoreLocation::new("/var/mind.redb"));
    assert_eq!(config.store().as_path(), "/var/mind.redb");
    let (store, matches) = config.read(ReadStoreLocation::expecting(StoreLocation::new(
        "/var/mind.redb",
    )));
    assert_eq!(store.as_path(), "/var/mind.redb");
    assert!(matches);
    let (_, matches) = config.read(ReadStoreLocation::expecting(StoreLocation::new("/other")));
    assert!(!matches);
}

#[test]
fn a_fresh_mind_has_room_and_keeps_it_after_serving() {
    let mut core = MindCore::open(StoreLocation::new("mind.redb"));
    assert!(core.has_room());
    let _ = core.submit(envelope(MindRequest::RoleObservation(RoleObservation {})));
    assert!(core.has_room());
}

#[test]
fn any_label_makes_a_trace_node() {
    let custom = TraceNode::new("X");
    assert_eq!(custom.label(), "X");
    assert_eq!(TraceNode::new("Config").label(), "Config");
    assert!(custom.same_node(TraceNode::new("X")));
    assert!(!custom.same_node(TraceNode::MIND_ROOT));
    assert_eq!(custom.position(), 56);
    let mut trace = ActorTrace::new();
    trace.record(custom, TraceAction::MessageReceived);
    assert!(trace.contains(TraceNode::new("X")));
    assert!(trace.contains_action(TraceNode::new("X"), TraceAction::MessageReceived));
    assert!(!trace.contains(TraceNode::MIND_ROOT));
    assert!(!ActorManifest::persona_mind_phase_one().contains(custom));
}

#[test]
fn a_fresh_mind_can_serve_each_request() {
    let core = MindCore::open(StoreLocation::new("mind.redb"));
    assert!(core.can_serve(&MindRequest::RoleObservation(RoleObservation {})));
    assert!(core.can_serve(&MindRequest::Opening(Opening {
        kind: ItemKind::Task,
        priority: ItemPriority::Normal,
        title: "t".to_string(),
        body: "b".to_string(),
    })));
}

#[test]
fn a_restored_mind_keeps_the_kernel_records() {
    let mut kernel = StoreKernel::open();
    let _ = kernel.apply_claim(envelope(MindRequest::RoleClaim(persona_mind::contract::RoleClaim {
        role: persona_mind::contract::RoleName::Designer,
        scopes: vec![persona_mind::contract::ScopeReference::Path("/work/mind".to_string())],
        reason: "design".to_string(),
    })));
    let mut restored = MindCore::restore(StoreLocation::new("mind.redb"), kernel);
    let reply = restored.submit(envelope(MindRequest::RoleObservation(RoleObservation {})));
    match reply.reply() {
        Some(MindReply::RoleSnapshot(snapshot)) => {
            let designer = snapshot
                .roles
                .iter()
                .find(|status| status.role == persona_mind::contract::RoleName::Designer)
                .expect("designer listed");
            assert_eq!(designer.claims.len(), 1);
            assert_eq!(designer.claims[0].reason, "design");
        }
        other => panic!("unexpected reply {other:?}"),
    }
}

#[test]
fn a_committed_relation_is_stored_as_submitted_by_its_author() {
    let mut core = MindCore::open(StoreLocation::new("mind.redb"));
    let from = |actor: &str, request| MindEnvelope::new(actor.to_string(), request);
    let goal = core.submit(from("operator", MindRequest::SubmitThought(SubmitThought {
        kind: ThoughtKind::Goal,
        body: ThoughtBody::Goal("ship".to_string()),
    })));
    let memory = core.submit(from("operator", MindRequest::SubmitThought(SubmitThought {
        kind: ThoughtKind::Memory,
        body: ThoughtBody::Memory("note".to_string()),
    })));
    let id_of = |reply: Option<&MindReply>| match reply {
        Some(MindReply::ThoughtCommitted(committed)) => committed.record.clone(),
        other => panic!("unexpected reply {other:?}"),
    };
    let goal = id_of(goal.reply());
    let memory = id_of(memory.reply());
    let committed = core.submit(from("designer", MindRequest::SubmitRelation(SubmitRelation {
        kind: RelationKind::Belongs,
        source: memory.clone(),
        target: goal.clone(),
        note: Some("why".to_string()),
    })));
    let relation_id = match committed.reply() {
        Some(MindReply::RelationCommitted(committed)) => committed.relation.clone(),
        other => panic!("unexpected reply {other:?}"),
    };
    let listed = core.submit(envelope(MindRequest::QueryRelations(QueryRelations {
        filter: RelationFilter::BySource(memory.clone()),
        limit: 10,
    })));
    match listed.reply() {
        Some(MindReply::RelationList(list)) => {
            assert_eq!(list.relations.len(), 1);
            let relation = &list.relations[0];
            assert_eq!(relation.id, relation_id);
            assert_eq!(relation.kind, RelationKind::Belongs);
            assert_eq!(relation.source, memory);
            assert_eq!(relation.target, goal);
            assert_eq!(relation.author, "designer");
            assert_eq!(relation.note, Some("why".to_string()));
        }
        other => panic!("unexpected reply {other:?}"),
    }
}

#[test]
fn a_fresh_mind_has_an_empty_memory_graph() {
    let mut core = MindCore::open(StoreLocation::new("mind.redb"));
    let reply = core.submit(envelope(MindRequest::Query(Query {
        kind: QueryKind::RecentEvents,
        limit: 10,
    })));
    match reply.reply() {
        Some(MindReply::View(view)) => {
            assert!(view.items.is_empty());
            assert!(view.edges.is_empty());
            assert!(view.notes.is_empty());
            assert!(view.events.is_empty());
        }
        other => panic!("unexpected reply {other:?}"),
    }
}
