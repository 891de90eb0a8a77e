use persona_mind::actors::{ActorManifest, ActorResidency, TraceAction, TraceNode};
use persona_mind::contract::{
    ActivityFilter, ActivityQuery, ActivitySubmission, ByRelationKind, ByThoughtKind, ItemKind,
    ItemPriority, MindReply, MindRequest, Opening, Query, QueryKind, QueryRelations,
    QueryThoughts, RelationFilter, RelationKind, RoleClaim, RoleHandoff, RoleName,
    RoleObservation, RoleRelease, ScopeReference, SubmitRelation, SubmitThought,
    SubscribeRelations, SubscribeThoughts, ThoughtBody, ThoughtFilter, ThoughtKind,
};
use persona_mind::{MindCore, MindEnvelope, MindRootReply, StoreLocation};

struct ActorFixture {
    core: MindCore,
    actor: String,
}

impl ActorFixture {
    fn new() -> Self {
        Self {
            core: MindCore::open(StoreLocation::new("persona-mind-actor-topology.redb")),
            actor: "operator-assistant".to_string(),
        }
    }

    fn envelope(&self, request: MindRequest) -> MindEnvelope {
        MindEnvelope::new(self.actor.clone(), request)
    }

    fn submit(&mut self, request: MindRequest) -> MindRootReply {
        assert!(self.core.has_room());
        let envelope = self.envelope(request);
        self.core.submit(envelope)
    }
}

struct ClaimFixture {
    role: RoleName,
    reason: String,
}

impl ClaimFixture {
    fn operator() -> Self {
        Self {
            role: RoleName::Operator,
            reason: "testing persona mind claim flow".to_string(),
        }
    }

    fn path(&self, path: &str) -> ScopeReference {
        ScopeReference::Path(path.to_string())
    }

    fn claim(&self, path: &str) -> MindRequest {
        MindRequest::RoleClaim(RoleClaim {
            role: self.role,
            scopes: vec![self.path(path)],
            reason: self.reason.clone(),
        })
    }
}

fn goal(description: &str) -> MindRequest {
    MindRequest::SubmitThought(SubmitThought {
        kind: ThoughtKind::Goal,
        body: ThoughtBody::Goal(description.to_string()),
    })
}

fn operator_claim_thought() -> MindRequest {
    MindRequest::SubmitThought(SubmitThought {
        kind: ThoughtKind::Claim,
        body: ThoughtBody::Claim("/git/github.com/LiGoldragon/persona-mind".to_string()),
    })
}

fn committed_record(reply: &MindRootReply) -> String {
    let MindReply::ThoughtCommitted(receipt) = reply.reply().expect("reply exists") else {
        panic!("expected thought commit");
    };
    receipt.record.clone()
}

#[test]
fn topology_manifest_names_required_actor_planes() {
    let manifest = ActorManifest::persona_mind_phase_one();

    for actor in [
        TraceNode::MIND_ROOT,
        TraceNode::INGRESS_PHASE,
        TraceNode::DISPATCH_PHASE,
        TraceNode::DOMAIN_PHASE,
        TraceNode::STORE_SUPERVISOR,
        TraceNode::STORE_KERNEL,
        TraceNode::MEMORY_STORE,
        TraceNode::CLAIM_STORE,
        TraceNode::ACTIVITY_STORE,
        TraceNode::VIEW_PHASE,
        TraceNode::SUBSCRIPTION_SUPERVISOR,
        TraceNode::REPLY_SUPERVISOR,
        TraceNode::SEMA_WRITER,
        TraceNode::SEMA_READER,
        TraceNode::ID_MINT,
        TraceNode::READY_WORK_VIEW,
        TraceNode::NOTA_REPLY_ENCODER,
    ] {
        assert!(manifest.contains(actor), "missing {}", actor.label());
    }

    assert_eq!(manifest.actor_count_for(ActorResidency::Root), 1);
    assert!(manifest.actor_count_for(ActorResidency::LongLived) >= 12);
    assert!(manifest.contains_edge(TraceNode::MIND_ROOT, TraceNode::STORE_SUPERVISOR));
    assert!(manifest.contains_edge(TraceNode::STORE_SUPERVISOR, TraceNode::STORE_KERNEL));
    assert!(manifest.contains_edge(TraceNode::STORE_SUPERVISOR, TraceNode::MEMORY_STORE));
    assert!(manifest.contains_edge(TraceNode::STORE_SUPERVISOR, TraceNode::CLAIM_STORE));
    assert!(manifest.contains_edge(TraceNode::STORE_SUPERVISOR, TraceNode::ACTIVITY_STORE));
    assert!(manifest.contains_edge(TraceNode::REPLY_SUPERVISOR, TraceNode::NOTA_REPLY_ENCODER));
}

#[test]
fn open_item_runs_through_kameo_write_path() {
    let mut fixture = ActorFixture::new();
    let response = fixture.submit(MindRequest::Opening(Opening {
        kind: ItemKind::Task,
        priority: ItemPriority::High,
        title: "Implement Kameo-backed mind".to_string(),
        body: "Phase one actor path".to_string(),
    }));

    let MindReply::OpeningReceipt(receipt) = response.reply().expect("reply exists") else {
        panic!("expected opened reply");
    };

    assert_eq!(receipt.event.header.actor, "operator-assistant");
    assert!(response.trace().contains_ordered(&[
        TraceNode::MIND_ROOT,
        TraceNode::INGRESS_PHASE,
        TraceNode::DISPATCH_PHASE,
        TraceNode::MEMORY_FLOW,
        TraceNode::DOMAIN_PHASE,
        TraceNode::ITEM_OPEN,
        TraceNode::STORE_SUPERVISOR,
        TraceNode::MEMORY_STORE,
        TraceNode::SEMA_WRITER,
        TraceNode::COMMIT,
        TraceNode::REPLY_SUPERVISOR,
        TraceNode::MIND_ROOT,
    ]));
    assert!(response
        .trace()
        .contains_action(TraceNode::SEMA_WRITER, TraceAction::WriteIntentSent));
    assert!(response
        .trace()
        .contains_action(TraceNode::COMMIT, TraceAction::CommitCompleted));
}

#[test]
fn query_path_uses_read_actor_without_writer() {
    let mut fixture = ActorFixture::new();
    let _opened = fixture.submit(MindRequest::Opening(Opening {
        kind: ItemKind::Task,
        priority: ItemPriority::Normal,
        title: "Query actor path".to_string(),
        body: "Read path witness".to_string(),
    }));

    let response = fixture.submit(MindRequest::Query(Query {
        kind: QueryKind::Ready,
        limit: 10,
    }));

    let MindReply::View(view) = response.reply().expect("reply exists") else {
        panic!("expected view reply");
    };

    assert_eq!(view.items.len(), 1);
    assert!(response.trace().contains_ordered(&[
        TraceNode::MIND_ROOT,
        TraceNode::INGRESS_PHASE,
        TraceNode::DISPATCH_PHASE,
        TraceNode::QUERY_FLOW,
        TraceNode::VIEW_PHASE,
        TraceNode::READY_WORK_VIEW,
        TraceNode::STORE_SUPERVISOR,
        TraceNode::MEMORY_STORE,
        TraceNode::SEMA_READER,
        TraceNode::QUERY_RESULT_SHAPER,
        TraceNode::REPLY_SUPERVISOR,
    ]));
    assert!(response.trace().contains(TraceNode::SEMA_READER));
    assert!(!response.trace().contains(TraceNode::SEMA_WRITER));
}

#[test]
fn role_claim_reaches_claim_flow_and_commits() {
    let mut fixture = ActorFixture::new();
    let claim = ClaimFixture::operator();
    let response = fixture.submit(claim.claim("/git/github.com/LiGoldragon/persona-mind"));

    let MindReply::ClaimAcceptance(acceptance) = response.reply().expect("reply exists") else {
        panic!("expected claim acceptance");
    };

    assert_eq!(acceptance.role, RoleName::Operator);
    assert_eq!(acceptance.scopes.len(), 1);
    assert!(response.trace().contains_ordered(&[
        TraceNode::MIND_ROOT,
        TraceNode::INGRESS_PHASE,
        TraceNode::DISPATCH_PHASE,
        TraceNode::CLAIM_FLOW,
        TraceNode::DOMAIN_PHASE,
        TraceNode::CLAIM_SUPERVISOR,
        TraceNode::STORE_SUPERVISOR,
        TraceNode::CLAIM_STORE,
        TraceNode::SEMA_WRITER,
        TraceNode::COMMIT,
        TraceNode::REPLY_SUPERVISOR,
    ]));
}

#[test]
fn conflicting_claim_returns_typed_rejection() {
    let mut fixture = ActorFixture::new();
    let claim = ClaimFixture::operator();
    let _accepted = fixture.submit(claim.claim("/git/github.com/LiGoldragon/persona"));

    let response = fixture.submit(MindRequest::RoleClaim(RoleClaim {
        role: RoleName::Designer,
        scopes: vec![claim.path("/git/github.com/LiGoldragon/persona/src")],
        reason: "designer conflict probe".to_string(),
    }));

    let MindReply::ClaimRejection(rejection) = response.reply().expect("reply exists") else {
        panic!("expected claim rejection");
    };

    assert_eq!(rejection.role, RoleName::Designer);
    assert_eq!(rejection.conflicts.len(), 1);
    assert_eq!(rejection.conflicts[0].held_by, RoleName::Operator);
    assert!(response.trace().contains(TraceNode::CLAIM_FLOW));
    assert!(response.trace().contains(TraceNode::COMMIT));
}

#[test]
fn role_observation_reads_claims_without_writer() {
    let mut fixture = ActorFixture::new();
    let claim = ClaimFixture::operator();
    let _accepted = fixture.submit(claim.claim("/git/github.com/LiGoldragon/persona-mind"));

    let response = fixture.submit(MindRequest::RoleObservation(RoleObservation {}));

    let MindReply::RoleSnapshot(snapshot) = response.reply().expect("reply exists") else {
        panic!("expected role snapshot");
    };
    let operator = snapshot
        .roles
        .iter()
        .find(|status| status.role == RoleName::Operator)
        .expect("operator status exists");

    assert_eq!(operator.claims.len(), 1);
    assert!(response.trace().contains(TraceNode::ROLE_SNAPSHOT_VIEW));
    assert!(response.trace().contains(TraceNode::SEMA_READER));
    assert!(!response.trace().contains(TraceNode::SEMA_WRITER));
}

#[test]
fn role_release_removes_claims_from_observation() {
    let mut fixture = ActorFixture::new();
    let claim = ClaimFixture::operator();
    let _accepted = fixture.submit(claim.claim("/git/github.com/LiGoldragon/persona-mind"));

    let released = fixture.submit(MindRequest::RoleRelease(RoleRelease {
        role: RoleName::Operator,
    }));
    let MindReply::ReleaseAcknowledgment(acknowledgment) =
        released.reply().expect("reply exists")
    else {
        panic!("expected release acknowledgment");
    };
    assert_eq!(acknowledgment.released_scopes.len(), 1);

    let observed = fixture.submit(MindRequest::RoleObservation(RoleObservation {}));
    let MindReply::RoleSnapshot(snapshot) = observed.reply().expect("reply exists") else {
        panic!("expected role snapshot");
    };
    let operator = snapshot
        .roles
        .iter()
        .find(|status| status.role == RoleName::Operator)
        .expect("operator status exists");
    assert!(operator.claims.is_empty());
}

#[test]
fn role_handoff_moves_claim_between_roles() {
    let mut fixture = ActorFixture::new();
    let claim = ClaimFixture::operator();
    let scope = claim.path("/git/github.com/LiGoldragon/persona-mind");
    let _accepted = fixture.submit(claim.claim("/git/github.com/LiGoldragon/persona-mind"));

    let response = fixture.submit(MindRequest::RoleHandoff(RoleHandoff {
        from: RoleName::Operator,
        to: RoleName::Designer,
        scopes: vec![scope.clone()],
        reason: "handoff to designer".to_string(),
    }));

    let MindReply::HandoffAcceptance(acceptance) = response.reply().expect("reply exists") else {
        panic!("expected handoff acceptance");
    };
    assert_eq!(acceptance.from, RoleName::Operator);
    assert_eq!(acceptance.to, RoleName::Designer);
    assert_eq!(acceptance.scopes, vec![scope.clone()]);
    assert!(response.trace().contains_ordered(&[
        TraceNode::MIND_ROOT,
        TraceNode::INGRESS_PHASE,
        TraceNode::DISPATCH_PHASE,
        TraceNode::HANDOFF_FLOW,
        TraceNode::DOMAIN_PHASE,
        TraceNode::CLAIM_SUPERVISOR,
        TraceNode::STORE_SUPERVISOR,
        TraceNode::CLAIM_STORE,
        TraceNode::SEMA_WRITER,
        TraceNode::COMMIT,
        TraceNode::REPLY_SUPERVISOR,
    ]));

    let observed = fixture.submit(MindRequest::RoleObservation(RoleObservation {}));
    let MindReply::RoleSnapshot(snapshot) = observed.reply().expect("reply exists") else {
        panic!("expected role snapshot");
    };
    let operator = snapshot
        .roles
        .iter()
        .find(|status| status.role == RoleName::Operator)
        .expect("operator status exists");
    let designer = snapshot
        .roles
        .iter()
        .find(|status| status.role == RoleName::Designer)
        .expect("designer status exists");
    assert!(operator.claims.is_empty());
    assert_eq!(designer.claims.len(), 1);
    assert_eq!(designer.claims[0].scope, scope);
}

#[test]
fn handoff_without_source_claim_returns_typed_rejection() {
    let mut fixture = ActorFixture::new();
    let claim = ClaimFixture::operator();
    let scope = claim.path("/git/github.com/LiGoldragon/persona-mind");

    let response = fixture.submit(MindRequest::RoleHandoff(RoleHandoff {
        from: RoleName::Operator,
        to: RoleName::Designer,
        scopes: vec![scope],
        reason: "missing source probe".to_string(),
    }));

    let MindReply::HandoffRejection(rejection) = response.reply().expect("reply exists") else {
        panic!("expected handoff rejection");
    };
    assert_eq!(rejection.from, RoleName::Operator);
    assert_eq!(rejection.to, RoleName::Designer);
    assert!(response.trace().contains(TraceNode::HANDOFF_FLOW));
    assert!(response.trace().contains(TraceNode::COMMIT));
}

#[test]
fn activity_submission_reaches_activity_flow_and_store_mints_time() {
    let mut fixture = ActorFixture::new();
    let response = fixture.submit(MindRequest::ActivitySubmission(ActivitySubmission {
        role: RoleName::Operator,
        scope: ScopeReference::Path("/git/github.com/LiGoldragon/persona-mind".to_string()),
        reason: "record durable activity".to_string(),
    }));

    let MindReply::ActivityAcknowledgment(acknowledgment) =
        response.reply().expect("reply exists")
    else {
        panic!("expected activity acknowledgment");
    };
    assert_eq!(acknowledgment.slot, 0);
    assert!(response.trace().contains_ordered(&[
        TraceNode::MIND_ROOT,
        TraceNode::INGRESS_PHASE,
        TraceNode::DISPATCH_PHASE,
        TraceNode::ACTIVITY_FLOW,
        TraceNode::DOMAIN_PHASE,
        TraceNode::STORE_SUPERVISOR,
        TraceNode::ACTIVITY_STORE,
        TraceNode::CLOCK,
        TraceNode::SEMA_WRITER,
        TraceNode::COMMIT,
        TraceNode::REPLY_SUPERVISOR,
    ]));
}

#[test]
fn role_observation_includes_recent_activity() {
    let mut fixture = ActorFixture::new();
    let scope = ScopeReference::Path("/git/github.com/LiGoldragon/persona-mind".to_string());
    let _activity = fixture.submit(MindRequest::ActivitySubmission(ActivitySubmission {
        role: RoleName::Operator,
        scope: scope.clone(),
        reason: "activity before observe".to_string(),
    }));

    let response = fixture.submit(MindRequest::RoleObservation(RoleObservation {}));

    let MindReply::RoleSnapshot(snapshot) = response.reply().expect("reply exists") else {
        panic!("expected role snapshot");
    };
    assert_eq!(snapshot.recent_activity.len(), 1);
    assert_eq!(snapshot.recent_activity[0].role, RoleName::Operator);
    assert_eq!(snapshot.recent_activity[0].scope, scope);
    assert_eq!(snapshot.recent_activity[0].reason, "activity before observe");
    assert!(snapshot.recent_activity[0].stamped_at > 0);
}

#[test]
fn activity_query_reads_recent_activity_without_writer() {
    let mut fixture = ActorFixture::new();
    let first_scope = ScopeReference::Path("/git/github.com/LiGoldragon/persona-mind".to_string());
    let second_scope =
        ScopeReference::Path("/git/github.com/LiGoldragon/persona-router".to_string());
    let _first = fixture.submit(MindRequest::ActivitySubmission(ActivitySubmission {
        role: RoleName::Operator,
        scope: first_scope,
        reason: "first activity".to_string(),
    }));
    let _second = fixture.submit(MindRequest::ActivitySubmission(ActivitySubmission {
        role: RoleName::Designer,
        scope: second_scope.clone(),
        reason: "second activity".to_string(),
    }));

    let response = fixture.submit(MindRequest::ActivityQuery(ActivityQuery {
        limit: 10,
        filters: vec![ActivityFilter::PathPrefix(
            "/git/github.com/LiGoldragon/persona-router".to_string(),
        )],
    }));

    let MindReply::ActivityList(list) = response.reply().expect("reply exists") else {
        panic!("expected activity list");
    };
    assert_eq!(list.records.len(), 1);
    assert_eq!(list.records[0].role, RoleName::Designer);
    assert_eq!(list.records[0].scope, second_scope);
    assert_eq!(list.records[0].reason, "second activity");
    assert!(list.records[0].stamped_at > 0);
    assert!(response.trace().contains(TraceNode::RECENT_ACTIVITY_VIEW));
    assert!(response.trace().contains(TraceNode::SEMA_READER));
    assert!(!response.trace().contains(TraceNode::SEMA_WRITER));
}

#[test]
fn typed_thought_runs_through_graph_actor_lane_and_store_mints_id() {
    let mut fixture = ActorFixture::new();
    let response = fixture.submit(goal("Make persona-mind replace lock files"));

    let MindReply::ThoughtCommitted(receipt) = response.reply().expect("reply exists") else {
        panic!("expected thought commit");
    };
    assert_eq!(receipt.record.as_str().len(), 3);
    assert_eq!(receipt.display.as_str(), receipt.record.as_str());
    assert!(!receipt.record.as_str().starts_with("item-"));
    assert!(receipt.occurred_at > 0);
    assert!(response.trace().contains_ordered(&[
        TraceNode::MIND_ROOT,
        TraceNode::INGRESS_PHASE,
        TraceNode::DISPATCH_PHASE,
        TraceNode::GRAPH_FLOW,
        TraceNode::DOMAIN_PHASE,
        TraceNode::MIND_GRAPH_SUPERVISOR,
        TraceNode::THOUGHT_COMMIT,
        TraceNode::STORE_SUPERVISOR,
        TraceNode::GRAPH_STORE,
        TraceNode::ID_MINT,
        TraceNode::CLOCK,
        TraceNode::SEMA_WRITER,
        TraceNode::COMMIT,
        TraceNode::REPLY_SUPERVISOR,
    ]));
}

#[test]
fn typed_thought_query_uses_reader_without_writer() {
    let mut fixture = ActorFixture::new();
    let _written = fixture.submit(goal("Query typed mind graph"));

    let response = fixture.submit(MindRequest::QueryThoughts(QueryThoughts {
        filter: ThoughtFilter::ByKind(ByThoughtKind {
            kinds: vec![ThoughtKind::Goal],
        }),
        limit: 10,
    }));

    let MindReply::ThoughtList(list) = response.reply().expect("reply exists") else {
        panic!("expected thought list");
    };
    assert_eq!(list.thoughts.len(), 1);
    assert_eq!(list.thoughts[0].kind, ThoughtKind::Goal);
    assert_eq!(list.thoughts[0].author, "operator-assistant");
    assert!(!list.has_more);
    assert!(response.trace().contains_ordered(&[
        TraceNode::MIND_ROOT,
        TraceNode::INGRESS_PHASE,
        TraceNode::DISPATCH_PHASE,
        TraceNode::GRAPH_QUERY_FLOW,
        TraceNode::VIEW_PHASE,
        TraceNode::QUERY_SUPERVISOR,
        TraceNode::THOUGHT_QUERY,
        TraceNode::STORE_SUPERVISOR,
        TraceNode::GRAPH_STORE,
        TraceNode::SEMA_READER,
        TraceNode::QUERY_RESULT_SHAPER,
        TraceNode::REPLY_SUPERVISOR,
    ]));
    assert!(!response.trace().contains(TraceNode::SEMA_WRITER));
}

#[test]
fn typed_thought_subscription_registers_and_returns_initial_snapshot() {
    let mut fixture = ActorFixture::new();
    let _written = fixture.submit(goal("Subscribe to typed goals"));

    let response = fixture.submit(MindRequest::SubscribeThoughts(SubscribeThoughts {
        filter: ThoughtFilter::ByKind(ByThoughtKind {
            kinds: vec![ThoughtKind::Goal],
        }),
    }));

    let MindReply::SubscriptionAccepted(subscription) = response.reply().expect("reply exists")
    else {
        panic!("expected subscription accepted");
    };
    assert_eq!(subscription.subscription.as_str().len(), 3);
    assert_eq!(subscription.initial_snapshot.len(), 1);
    assert!(response.trace().contains_ordered(&[
        TraceNode::MIND_ROOT,
        TraceNode::INGRESS_PHASE,
        TraceNode::DISPATCH_PHASE,
        TraceNode::GRAPH_QUERY_FLOW,
        TraceNode::VIEW_PHASE,
        TraceNode::SUBSCRIPTION_SUPERVISOR,
        TraceNode::STORE_SUPERVISOR,
        TraceNode::GRAPH_STORE,
        TraceNode::ID_MINT,
        TraceNode::SEMA_READER,
        TraceNode::SEMA_WRITER,
        TraceNode::COMMIT,
        TraceNode::REPLY_SUPERVISOR,
    ]));
}

#[test]
fn typed_relation_subscription_registers_and_returns_initial_snapshot() {
    let mut fixture = ActorFixture::new();
    let goal_reply = fixture.submit(goal("Relate subscription target"));
    let claim_reply = fixture.submit(operator_claim_thought());
    let goal_record = committed_record(&goal_reply);
    let claim_record = committed_record(&claim_reply);

    let _relation = fixture.submit(MindRequest::SubmitRelation(SubmitRelation {
        kind: RelationKind::Implements,
        source: claim_record,
        target: goal_record,
        note: None,
    }));

    let response = fixture.submit(MindRequest::SubscribeRelations(SubscribeRelations {
        filter: RelationFilter::ByKind(ByRelationKind {
            kinds: vec![RelationKind::Implements],
        }),
    }));

    let MindReply::SubscriptionAccepted(subscription) = response.reply().expect("reply exists")
    else {
        panic!("expected subscription accepted");
    };
    assert_eq!(subscription.subscription.as_str().len(), 3);
    assert_eq!(subscription.initial_snapshot.len(), 1);
    assert!(response.trace().contains_ordered(&[
        TraceNode::MIND_ROOT,
        TraceNode::INGRESS_PHASE,
        TraceNode::DISPATCH_PHASE,
        TraceNode::GRAPH_QUERY_FLOW,
        TraceNode::VIEW_PHASE,
        TraceNode::SUBSCRIPTION_SUPERVISOR,
        TraceNode::STORE_SUPERVISOR,
        TraceNode::GRAPH_STORE,
        TraceNode::ID_MINT,
        TraceNode::SEMA_READER,
        TraceNode::SEMA_WRITER,
        TraceNode::COMMIT,
        TraceNode::REPLY_SUPERVISOR,
    ]));
}

#[test]
fn superseded_thought_excluded_from_current_query() {
    let mut fixture = ActorFixture::new();
    let old = fixture.submit(goal("Old correction target"));
    let new = fixture.submit(goal("New correction source"));
    let old_record = committed_record(&old);
    let new_record = committed_record(&new);

    let relation = fixture.submit(MindRequest::SubmitRelation(SubmitRelation {
        kind: RelationKind::Supersedes,
        source: new_record.clone(),
        target: old_record.clone(),
        note: Some("correction witness".to_string()),
    }));
    let query = fixture.submit(MindRequest::QueryThoughts(QueryThoughts {
        filter: ThoughtFilter::ByKind(ByThoughtKind {
            kinds: vec![ThoughtKind::Goal],
        }),
        limit: 10,
    }));

    let MindReply::RelationCommitted(_) = relation.reply().expect("relation reply exists") else {
        panic!("expected supersedes relation commit");
    };
    let MindReply::ThoughtList(list) = query.reply().expect("query reply exists") else {
        panic!("expected thought list");
    };
    assert_eq!(list.thoughts.len(), 1);
    assert_eq!(list.thoughts[0].id, new_record);
    assert_ne!(list.thoughts[0].id, old_record);
}

#[test]
fn supersedes_relation_rejects_different_thought_kinds() {
    let mut fixture = ActorFixture::new();
    let goal_reply = fixture.submit(goal("Correction target kind"));
    let claim_reply = fixture.submit(operator_claim_thought());
    let goal_record = committed_record(&goal_reply);
    let claim_record = committed_record(&claim_reply);

    let rejected = fixture.submit(MindRequest::SubmitRelation(SubmitRelation {
        kind: RelationKind::Supersedes,
        source: claim_record,
        target: goal_record,
        note: None,
    }));
    let relations = fixture.submit(MindRequest::QueryRelations(QueryRelations {
        filter: RelationFilter::ByKind(ByRelationKind {
            kinds: vec![RelationKind::Supersedes],
        }),
        limit: 10,
    }));

    let MindReply::Rejection(_) = rejected.reply().expect("rejection reply exists") else {
        panic!("expected typed rejection");
    };
    let MindReply::RelationList(list) = relations.reply().expect("relations reply exists") else {
        panic!("expected relation list");
    };
    assert!(list.relations.is_empty());
}

#[test]
fn typed_relation_rejects_missing_thought_endpoint() {
    let mut fixture = ActorFixture::new();
    let response = fixture.submit(MindRequest::SubmitRelation(SubmitRelation {
        kind: RelationKind::Supports,
        source: "missing-source".to_string(),
        target: "missing-target".to_string(),
        note: None,
    }));

    let MindReply::Rejection(_) = response.reply().expect("reply exists") else {
        panic!("expected typed rejection");
    };
    assert!(response.trace().contains(TraceNode::GRAPH_FLOW));
    assert!(response.trace().contains(TraceNode::GRAPH_STORE));
}

#[test]
fn relation_kind_rejects_wrong_domain() {
    let mut fixture = ActorFixture::new();
    let goal_reply = fixture.submit(goal("Wrong relation source"));
    let claim_reply = fixture.submit(operator_claim_thought());
    let goal_record = committed_record(&goal_reply);
    let claim_record = committed_record(&claim_reply);

    let rejected = fixture.submit(MindRequest::SubmitRelation(SubmitRelation {
        kind: RelationKind::Implements,
        source: goal_record,
        target: claim_record,
        note: None,
    }));
    let relations = fixture.submit(MindRequest::QueryRelations(QueryRelations {
        filter: RelationFilter::ByKind(ByRelationKind {
            kinds: vec![RelationKind::Implements],
        }),
        limit: 10,
    }));

    let MindReply::Rejection(_) = rejected.reply().expect("rejection reply exists") else {
        panic!("expected typed rejection");
    };
    let MindReply::RelationList(list) = relations.reply().expect("relations reply exists") else {
        panic!("expected relation list");
    };
    assert!(list.relations.is_empty());
}
