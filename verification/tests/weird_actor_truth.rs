use std::collections::HashSet;

use persona_mind::actors::{ActorManifest, ActorResidency, TraceNode};
use persona_mind::contract::{
    ItemKind, ItemPriority, MindReply, MindRequest, Opening, Query, QueryKind, RoleClaim,
    RoleName, ScopeReference,
};
use persona_mind::{MindCore, MindEnvelope, MindRootReply, StoreLocation};

struct ActorRuntimeFixture {
    core: MindCore,
    actor: String,
}

impl ActorRuntimeFixture {
    fn new(actor: &str) -> Self {
        Self {
            core: MindCore::open(StoreLocation::new("persona-mind-weird-actor-truth.redb")),
            actor: actor.to_string(),
        }
    }

    fn submit(&mut self, request: MindRequest) -> MindRootReply {
        assert!(self.core.has_room());
        self.core
            .submit(MindEnvelope::new(self.actor.clone(), request))
    }
}

#[test]
fn trace_phase_actor_cannot_float_without_parent_edge() {
    let manifest = ActorManifest::persona_mind_phase_one();
    let missing_parents = manifest
        .actors()
        .iter()
        .filter(|actor| actor.residency() != ActorResidency::Root)
        .filter(|actor| {
            !manifest
                .edges()
                .iter()
                .any(|edge| edge.child() == actor.kind())
        })
        .map(|actor| actor.kind().label())
        .collect::<Vec<_>>();

    assert!(
        missing_parents.is_empty(),
        "manifest actors without parent edges: {}",
        missing_parents.join(", ")
    );
}

#[test]
fn trace_node_labels_cannot_collide() {
    let manifest = ActorManifest::persona_mind_phase_one();
    let mut labels = HashSet::new();
    let duplicate_labels = manifest
        .actors()
        .iter()
        .map(|actor| actor.kind().label())
        .filter(|label| !labels.insert(*label))
        .collect::<Vec<_>>();

    assert!(
        duplicate_labels.is_empty(),
        "duplicate actor labels: {}",
        duplicate_labels.join(", ")
    );
}

#[test]
fn role_claim_cannot_bypass_claim_flow_or_writer() {
    let mut fixture = ActorRuntimeFixture::new("operator-assistant");
    let response = fixture.submit(MindRequest::RoleClaim(RoleClaim {
        role: RoleName::Operator,
        scopes: vec![ScopeReference::Path(
            "/git/github.com/LiGoldragon/persona-mind".to_string(),
        )],
        reason: "unsupported claim witness".to_string(),
    }));

    assert!(response.reply().is_some());
    assert!(response.trace().contains(TraceNode::CLAIM_FLOW));
    assert!(response.trace().contains(TraceNode::CLAIM_SUPERVISOR));
    assert!(response.trace().contains(TraceNode::SEMA_WRITER));
    assert!(response.trace().contains(TraceNode::COMMIT));
    assert!(response.trace().contains(TraceNode::NOTA_REPLY_ENCODER));
}

#[test]
fn parallel_runtimes_cannot_share_registry_names_or_memory() {
    let mut first_runtime = ActorRuntimeFixture::new("operator");
    let mut second_runtime = ActorRuntimeFixture::new("designer");

    let first_reply = first_runtime.submit(MindRequest::Opening(Opening {
        kind: ItemKind::Task,
        priority: ItemPriority::High,
        title: "First runtime item".to_string(),
        body: "only the first runtime sees this".to_string(),
    }));
    let second_reply = second_runtime.submit(MindRequest::Opening(Opening {
        kind: ItemKind::Task,
        priority: ItemPriority::Low,
        title: "Second runtime item".to_string(),
        body: "only the second runtime sees this".to_string(),
    }));

    let MindReply::OpeningReceipt(first_receipt) =
        first_reply.reply().expect("first reply exists")
    else {
        panic!("expected first opened reply");
    };
    let MindReply::OpeningReceipt(second_receipt) =
        second_reply.reply().expect("second reply exists")
    else {
        panic!("expected second opened reply");
    };

    assert_eq!(first_receipt.event.header.actor, "operator");
    assert_eq!(second_receipt.event.header.actor, "designer");

    let first_view = first_runtime.submit(MindRequest::Query(Query {
        kind: QueryKind::Open,
        limit: 10,
    }));
    let second_view = second_runtime.submit(MindRequest::Query(Query {
        kind: QueryKind::Open,
        limit: 10,
    }));

    let MindReply::View(first_items) = first_view.reply().expect("first view exists") else {
        panic!("expected first view");
    };
    let MindReply::View(second_items) = second_view.reply().expect("second view exists") else {
        panic!("expected second view");
    };

    assert_eq!(first_items.items.len(), 1);
    assert_eq!(second_items.items.len(), 1);
    assert_eq!(first_items.items[0].title, "First runtime item");
    assert_eq!(second_items.items[0].title, "Second runtime item");
}
