//! The mind's actor topology: every actor, how long it lives, and which actor
//! supervises which.

use vstd::prelude::*;

use crate::actors::trace::{lemma_node_at_index, lemma_node_order, node_at, node_index, same_actor, TraceNode};

verus! {

/// How long an actor lives.
#[derive(Debug, Clone, Copy, PartialEq, Eq, Hash, Structural)]
pub enum ActorResidency {
    /// The one actor that owns the runtime.
    Root,
    /// Started with the runtime and kept for its lifetime.
    LongLived,
    /// A phase of a request's trace.
    TracePhase,
}

/// One actor of the topology and how long it lives.
#[derive(Debug, Clone, Copy, PartialEq, Eq)]
pub struct ManifestEntry {
    pub kind: TraceNode,
    pub residency: ActorResidency,
}

impl ManifestEntry {
    pub fn new(kind: TraceNode, residency: ActorResidency) -> (entry: Self)
        ensures
            entry.kind == kind,
            entry.residency == residency,
    {
        ManifestEntry { kind, residency }
    }

    pub fn kind(&self) -> (kind: TraceNode)
        ensures
            kind == self.kind,
    {
        self.kind
    }

    pub fn residency(&self) -> (residency: ActorResidency)
        ensures
            residency == self.residency,
    {
        self.residency
    }
}

/// A supervision edge: `parent` supervises `child`.
#[derive(Debug, Clone, Copy, PartialEq, Eq)]
pub struct ManifestEdge {
    pub parent: TraceNode,
    pub child: TraceNode,
}

impl ManifestEdge {
    pub fn new(parent: TraceNode, child: TraceNode) -> (edge: Self)
        ensures
            edge.parent == parent,
            edge.child == child,
    {
        ManifestEdge { parent, child }
    }

    pub fn parent(&self) -> (parent: TraceNode)
        ensures
            parent == self.parent,
    {
        self.parent
    }

    pub fn child(&self) -> (child: TraceNode)
        ensures
            child == self.child,
    {
        self.child
    }
}

/// The number of actors in the first phase of the mind.
pub const PHASE_ONE_ACTOR_COUNT: usize = 56;

/// The number of supervision edges in the first phase of the mind.
pub const PHASE_ONE_EDGE_COUNT: usize = 73;

/// How long the actor at `index` of the first phase lives: the root first, then the
/// long-lived planes and stores, every other actor a phase of a trace.
pub open spec fn phase_one_residency(index: int) -> ActorResidency {
    if index == 0 {
        ActorResidency::Root
    } else if index == 1 || index == 6 || index == 15 || index == 32 || index == 33 || index == 34 || index == 35 || index == 36 || index == 37 || index == 45 || index == 50 || index == 53 {
        ActorResidency::LongLived
    } else {
        ActorResidency::TracePhase
    }
}

/// The actor at `index` of the first phase: its actors are listed in the canonical
/// order of `TraceNode`.
pub open spec fn phase_one_entry(index: int) -> ManifestEntry {
    ManifestEntry { kind: node_at(index), residency: phase_one_residency(index) }
}

/// The supervision edge at `index` of the first phase.
pub open spec fn phase_one_edge(index: int) -> ManifestEdge {
    if index == 0 {
        ManifestEdge { parent: TraceNode::MIND_ROOT, child: TraceNode::INGRESS_PHASE }
    } else if index == 1 {
        ManifestEdge { parent: TraceNode::MIND_ROOT, child: TraceNode::DISPATCH_PHASE }
    } else if index == 2 {
        ManifestEdge { parent: TraceNode::MIND_ROOT, child: TraceNode::DOMAIN_PHASE }
    } else if index == 3 {
        ManifestEdge { parent: TraceNode::MIND_ROOT, child: TraceNode::STORE_SUPERVISOR }
    } else if index == 4 {
        ManifestEdge { parent: TraceNode::MIND_ROOT, child: TraceNode::VIEW_PHASE }
    } else if index == 5 {
        ManifestEdge { parent: TraceNode::MIND_ROOT, child: TraceNode::SUBSCRIPTION_SUPERVISOR }
    } else if index == 6 {
        ManifestEdge { parent: TraceNode::MIND_ROOT, child: TraceNode::REPLY_SUPERVISOR }
    } else if index == 7 {
        ManifestEdge { parent: TraceNode::INGRESS_PHASE, child: TraceNode::REQUEST_SESSION }
    } else if index == 8 {
        ManifestEdge { parent: TraceNode::INGRESS_PHASE, child: TraceNode::NOTA_DECODER }
    } else if index == 9 {
        ManifestEdge { parent: TraceNode::INGRESS_PHASE, child: TraceNode::CALLER_IDENTITY_RESOLVER }
    } else if index == 10 {
        ManifestEdge { parent: TraceNode::INGRESS_PHASE, child: TraceNode::ENVELOPE_BUILDER }
    } else if index == 11 {
        ManifestEdge { parent: TraceNode::DISPATCH_PHASE, child: TraceNode::REQUEST_DISPATCHER }
    } else if index == 12 {
        ManifestEdge { parent: TraceNode::DISPATCH_PHASE, child: TraceNode::CLAIM_FLOW }
    } else if index == 13 {
        ManifestEdge { parent: TraceNode::DISPATCH_PHASE, child: TraceNode::HANDOFF_FLOW }
    } else if index == 14 {
        ManifestEdge { parent: TraceNode::DISPATCH_PHASE, child: TraceNode::ACTIVITY_FLOW }
    } else if index == 15 {
        ManifestEdge { parent: TraceNode::DISPATCH_PHASE, child: TraceNode::MEMORY_FLOW }
    } else if index == 16 {
        ManifestEdge { parent: TraceNode::DISPATCH_PHASE, child: TraceNode::QUERY_FLOW }
    } else if index == 17 {
        ManifestEdge { parent: TraceNode::DISPATCH_PHASE, child: TraceNode::GRAPH_FLOW }
    } else if index == 18 {
        ManifestEdge { parent: TraceNode::DISPATCH_PHASE, child: TraceNode::GRAPH_QUERY_FLOW }
    } else if index == 19 {
        ManifestEdge { parent: TraceNode::DOMAIN_PHASE, child: TraceNode::CLAIM_SUPERVISOR }
    } else if index == 20 {
        ManifestEdge { parent: TraceNode::DOMAIN_PHASE, child: TraceNode::MEMORY_GRAPH_SUPERVISOR }
    } else if index == 21 {
        ManifestEdge { parent: TraceNode::DOMAIN_PHASE, child: TraceNode::MIND_GRAPH_SUPERVISOR }
    } else if index == 22 {
        ManifestEdge { parent: TraceNode::DOMAIN_PHASE, child: TraceNode::QUERY_SUPERVISOR }
    } else if index == 23 {
        ManifestEdge { parent: TraceNode::MIND_GRAPH_SUPERVISOR, child: TraceNode::THOUGHT_COMMIT }
    } else if index == 24 {
        ManifestEdge { parent: TraceNode::MIND_GRAPH_SUPERVISOR, child: TraceNode::RELATION_COMMIT }
    } else if index == 25 {
        ManifestEdge { parent: TraceNode::MEMORY_GRAPH_SUPERVISOR, child: TraceNode::ITEM_OPEN }
    } else if index == 26 {
        ManifestEdge { parent: TraceNode::MEMORY_GRAPH_SUPERVISOR, child: TraceNode::NOTE_ADD }
    } else if index == 27 {
        ManifestEdge { parent: TraceNode::MEMORY_GRAPH_SUPERVISOR, child: TraceNode::LINK }
    } else if index == 28 {
        ManifestEdge { parent: TraceNode::MEMORY_GRAPH_SUPERVISOR, child: TraceNode::STATUS_CHANGE }
    } else if index == 29 {
        ManifestEdge { parent: TraceNode::MEMORY_GRAPH_SUPERVISOR, child: TraceNode::ALIAS_ADD }
    } else if index == 30 {
        ManifestEdge { parent: TraceNode::QUERY_SUPERVISOR, child: TraceNode::QUERY_PLANNER }
    } else if index == 31 {
        ManifestEdge { parent: TraceNode::QUERY_SUPERVISOR, child: TraceNode::GRAPH_TRAVERSAL }
    } else if index == 32 {
        ManifestEdge { parent: TraceNode::QUERY_SUPERVISOR, child: TraceNode::THOUGHT_QUERY }
    } else if index == 33 {
        ManifestEdge { parent: TraceNode::QUERY_SUPERVISOR, child: TraceNode::RELATION_QUERY }
    } else if index == 34 {
        ManifestEdge { parent: TraceNode::QUERY_SUPERVISOR, child: TraceNode::QUERY_RESULT_SHAPER }
    } else if index == 35 {
        ManifestEdge { parent: TraceNode::STORE_SUPERVISOR, child: TraceNode::STORE_KERNEL }
    } else if index == 36 {
        ManifestEdge { parent: TraceNode::STORE_SUPERVISOR, child: TraceNode::MEMORY_STORE }
    } else if index == 37 {
        ManifestEdge { parent: TraceNode::STORE_SUPERVISOR, child: TraceNode::CLAIM_STORE }
    } else if index == 38 {
        ManifestEdge { parent: TraceNode::STORE_SUPERVISOR, child: TraceNode::ACTIVITY_STORE }
    } else if index == 39 {
        ManifestEdge { parent: TraceNode::STORE_SUPERVISOR, child: TraceNode::GRAPH_STORE }
    } else if index == 40 {
        ManifestEdge { parent: TraceNode::MEMORY_STORE, child: TraceNode::STORE_KERNEL }
    } else if index == 41 {
        ManifestEdge { parent: TraceNode::CLAIM_STORE, child: TraceNode::STORE_KERNEL }
    } else if index == 42 {
        ManifestEdge { parent: TraceNode::ACTIVITY_STORE, child: TraceNode::STORE_KERNEL }
    } else if index == 43 {
        ManifestEdge { parent: TraceNode::GRAPH_STORE, child: TraceNode::STORE_KERNEL }
    } else if index == 44 {
        ManifestEdge { parent: TraceNode::MEMORY_STORE, child: TraceNode::SEMA_WRITER }
    } else if index == 45 {
        ManifestEdge { parent: TraceNode::MEMORY_STORE, child: TraceNode::SEMA_READER }
    } else if index == 46 {
        ManifestEdge { parent: TraceNode::MEMORY_STORE, child: TraceNode::ID_MINT }
    } else if index == 47 {
        ManifestEdge { parent: TraceNode::MEMORY_STORE, child: TraceNode::CLOCK }
    } else if index == 48 {
        ManifestEdge { parent: TraceNode::MEMORY_STORE, child: TraceNode::EVENT_APPENDER }
    } else if index == 49 {
        ManifestEdge { parent: TraceNode::MEMORY_STORE, child: TraceNode::COMMIT }
    } else if index == 50 {
        ManifestEdge { parent: TraceNode::CLAIM_STORE, child: TraceNode::SEMA_WRITER }
    } else if index == 51 {
        ManifestEdge { parent: TraceNode::CLAIM_STORE, child: TraceNode::SEMA_READER }
    } else if index == 52 {
        ManifestEdge { parent: TraceNode::CLAIM_STORE, child: TraceNode::EVENT_APPENDER }
    } else if index == 53 {
        ManifestEdge { parent: TraceNode::CLAIM_STORE, child: TraceNode::COMMIT }
    } else if index == 54 {
        ManifestEdge { parent: TraceNode::ACTIVITY_STORE, child: TraceNode::SEMA_WRITER }
    } else if index == 55 {
        ManifestEdge { parent: TraceNode::ACTIVITY_STORE, child: TraceNode::SEMA_READER }
    } else if index == 56 {
        ManifestEdge { parent: TraceNode::ACTIVITY_STORE, child: TraceNode::CLOCK }
    } else if index == 57 {
        ManifestEdge { parent: TraceNode::ACTIVITY_STORE, child: TraceNode::ACTIVITY_APPENDER }
    } else if index == 58 {
        ManifestEdge { parent: TraceNode::ACTIVITY_STORE, child: TraceNode::COMMIT }
    } else if index == 59 {
        ManifestEdge { parent: TraceNode::GRAPH_STORE, child: TraceNode::SEMA_WRITER }
    } else if index == 60 {
        ManifestEdge { parent: TraceNode::GRAPH_STORE, child: TraceNode::SEMA_READER }
    } else if index == 61 {
        ManifestEdge { parent: TraceNode::GRAPH_STORE, child: TraceNode::ID_MINT }
    } else if index == 62 {
        ManifestEdge { parent: TraceNode::GRAPH_STORE, child: TraceNode::CLOCK }
    } else if index == 63 {
        ManifestEdge { parent: TraceNode::GRAPH_STORE, child: TraceNode::EVENT_APPENDER }
    } else if index == 64 {
        ManifestEdge { parent: TraceNode::GRAPH_STORE, child: TraceNode::COMMIT }
    } else if index == 65 {
        ManifestEdge { parent: TraceNode::VIEW_PHASE, child: TraceNode::ROLE_SNAPSHOT_VIEW }
    } else if index == 66 {
        ManifestEdge { parent: TraceNode::VIEW_PHASE, child: TraceNode::READY_WORK_VIEW }
    } else if index == 67 {
        ManifestEdge { parent: TraceNode::VIEW_PHASE, child: TraceNode::BLOCKED_WORK_VIEW }
    } else if index == 68 {
        ManifestEdge { parent: TraceNode::VIEW_PHASE, child: TraceNode::RECENT_ACTIVITY_VIEW }
    } else if index == 69 {
        ManifestEdge { parent: TraceNode::SUBSCRIPTION_SUPERVISOR, child: TraceNode::COMMIT_BUS }
    } else if index == 70 {
        ManifestEdge { parent: TraceNode::SUBSCRIPTION_SUPERVISOR, child: TraceNode::SUBSCRIBER }
    } else if index == 71 {
        ManifestEdge { parent: TraceNode::REPLY_SUPERVISOR, child: TraceNode::NOTA_REPLY_ENCODER }
    } else {
        ManifestEdge { parent: TraceNode::REPLY_SUPERVISOR, child: TraceNode::ERROR_SHAPER }
    }
}

/// The actors of the first phase of the mind, in manifest order.
pub open spec fn phase_one_actors() -> Seq<ManifestEntry> {
    Seq::new(PHASE_ONE_ACTOR_COUNT as nat, |index: int| phase_one_entry(index))
}

/// The supervision edges of the first phase of the mind, in manifest order.
pub open spec fn phase_one_edges() -> Seq<ManifestEdge> {
    Seq::new(PHASE_ONE_EDGE_COUNT as nat, |index: int| phase_one_edge(index))
}

/// The first supervision edge that ends at `node`; the root has none.
pub open spec fn parent_edge_index(node: TraceNode) -> int {
    match node {
        TraceNode::MIND_ROOT => -1,
        TraceNode::Named(_) => -1,
        TraceNode::INGRESS_PHASE => 0,
        TraceNode::REQUEST_SESSION => 7,
        TraceNode::NOTA_DECODER => 8,
        TraceNode::CALLER_IDENTITY_RESOLVER => 9,
        TraceNode::ENVELOPE_BUILDER => 10,
        TraceNode::DISPATCH_PHASE => 1,
        TraceNode::REQUEST_DISPATCHER => 11,
        TraceNode::CLAIM_FLOW => 12,
        TraceNode::HANDOFF_FLOW => 13,
        TraceNode::ACTIVITY_FLOW => 14,
        TraceNode::MEMORY_FLOW => 15,
        TraceNode::QUERY_FLOW => 16,
        TraceNode::GRAPH_FLOW => 17,
        TraceNode::GRAPH_QUERY_FLOW => 18,
        TraceNode::DOMAIN_PHASE => 2,
        TraceNode::CLAIM_SUPERVISOR => 19,
        TraceNode::MEMORY_GRAPH_SUPERVISOR => 20,
        TraceNode::MIND_GRAPH_SUPERVISOR => 21,
        TraceNode::QUERY_SUPERVISOR => 22,
        TraceNode::ITEM_OPEN => 25,
        TraceNode::NOTE_ADD => 26,
        TraceNode::LINK => 27,
        TraceNode::STATUS_CHANGE => 28,
        TraceNode::ALIAS_ADD => 29,
        TraceNode::QUERY_PLANNER => 30,
        TraceNode::GRAPH_TRAVERSAL => 31,
        TraceNode::THOUGHT_COMMIT => 23,
        TraceNode::RELATION_COMMIT => 24,
        TraceNode::THOUGHT_QUERY => 32,
        TraceNode::RELATION_QUERY => 33,
        TraceNode::QUERY_RESULT_SHAPER => 34,
        TraceNode::STORE_SUPERVISOR => 3,
        TraceNode::STORE_KERNEL => 35,
        TraceNode::MEMORY_STORE => 36,
        TraceNode::CLAIM_STORE => 37,
        TraceNode::ACTIVITY_STORE => 38,
        TraceNode::GRAPH_STORE => 39,
        TraceNode::SEMA_WRITER => 44,
        TraceNode::SEMA_READER => 45,
        TraceNode::ID_MINT => 46,
        TraceNode::CLOCK => 47,
        TraceNode::EVENT_APPENDER => 48,
        TraceNode::ACTIVITY_APPENDER => 57,
        TraceNode::COMMIT => 49,
        TraceNode::VIEW_PHASE => 4,
        TraceNode::ROLE_SNAPSHOT_VIEW => 65,
        TraceNode::READY_WORK_VIEW => 66,
        TraceNode::BLOCKED_WORK_VIEW => 67,
        TraceNode::RECENT_ACTIVITY_VIEW => 68,
        TraceNode::SUBSCRIPTION_SUPERVISOR => 5,
        TraceNode::COMMIT_BUS => 69,
        TraceNode::SUBSCRIBER => 70,
        TraceNode::REPLY_SUPERVISOR => 6,
        TraceNode::NOTA_REPLY_ENCODER => 71,
        TraceNode::ERROR_SHAPER => 72,
    }
}

/// Every actor but the root is the child of the edge that `parent_edge_index` names.
proof fn lemma_parent_edge_index(node: TraceNode)
    requires
        node != TraceNode::MIND_ROOT,
        !(node is Named),
    ensures
        0 <= parent_edge_index(node) < PHASE_ONE_EDGE_COUNT,
        phase_one_edge(parent_edge_index(node)).child == node,
{
}

/// The residency of the actor at `index` of the first phase.
fn phase_one_residency_at(index: usize) -> (residency: ActorResidency)
    ensures
        residency == phase_one_residency(index as int),
{
    if index == 0 {
        ActorResidency::Root
    } else if index == 1 || index == 6 || index == 15 || index == 32 || index == 33 || index == 34 || index == 35 || index == 36 || index == 37 || index == 45 || index == 50 || index == 53 {
        ActorResidency::LongLived
    } else {
        ActorResidency::TracePhase
    }
}

/// The supervision edge at `index` of the first phase.
fn phase_one_edge_at(index: usize) -> (edge: ManifestEdge)
    requires
        index < PHASE_ONE_EDGE_COUNT,
    ensures
        edge == phase_one_edge(index as int),
{
    match index {
        0 => ManifestEdge::new(TraceNode::MIND_ROOT, TraceNode::INGRESS_PHASE),
        1 => ManifestEdge::new(TraceNode::MIND_ROOT, TraceNode::DISPATCH_PHASE),
        2 => ManifestEdge::new(TraceNode::MIND_ROOT, TraceNode::DOMAIN_PHASE),
        3 => ManifestEdge::new(TraceNode::MIND_ROOT, TraceNode::STORE_SUPERVISOR),
        4 => ManifestEdge::new(TraceNode::MIND_ROOT, TraceNode::VIEW_PHASE),
        5 => ManifestEdge::new(TraceNode::MIND_ROOT, TraceNode::SUBSCRIPTION_SUPERVISOR),
        6 => ManifestEdge::new(TraceNode::MIND_ROOT, TraceNode::REPLY_SUPERVISOR),
        7 => ManifestEdge::new(TraceNode::INGRESS_PHASE, TraceNode::REQUEST_SESSION),
        8 => ManifestEdge::new(TraceNode::INGRESS_PHASE, TraceNode::NOTA_DECODER),
        9 => ManifestEdge::new(TraceNode::INGRESS_PHASE, TraceNode::CALLER_IDENTITY_RESOLVER),
        10 => ManifestEdge::new(TraceNode::INGRESS_PHASE, TraceNode::ENVELOPE_BUILDER),
        11 => ManifestEdge::new(TraceNode::DISPATCH_PHASE, TraceNode::REQUEST_DISPATCHER),
        12 => ManifestEdge::new(TraceNode::DISPATCH_PHASE, TraceNode::CLAIM_FLOW),
        13 => ManifestEdge::new(TraceNode::DISPATCH_PHASE, TraceNode::HANDOFF_FLOW),
        14 => ManifestEdge::new(TraceNode::DISPATCH_PHASE, TraceNode::ACTIVITY_FLOW),
        15 => ManifestEdge::new(TraceNode::DISPATCH_PHASE, TraceNode::MEMORY_FLOW),
        16 => ManifestEdge::new(TraceNode::DISPATCH_PHASE, TraceNode::QUERY_FLOW),
        17 => ManifestEdge::new(TraceNode::DISPATCH_PHASE, TraceNode::GRAPH_FLOW),
        18 => ManifestEdge::new(TraceNode::DISPATCH_PHASE, TraceNode::GRAPH_QUERY_FLOW),
        19 => ManifestEdge::new(TraceNode::DOMAIN_PHASE, TraceNode::CLAIM_SUPERVISOR),
        20 => ManifestEdge::new(TraceNode::DOMAIN_PHASE, TraceNode::MEMORY_GRAPH_SUPERVISOR),
        21 => ManifestEdge::new(TraceNode::DOMAIN_PHASE, TraceNode::MIND_GRAPH_SUPERVISOR),
        22 => ManifestEdge::new(TraceNode::DOMAIN_PHASE, TraceNode::QUERY_SUPERVISOR),
        23 => ManifestEdge::new(TraceNode::MIND_GRAPH_SUPERVISOR, TraceNode::THOUGHT_COMMIT),
        24 => ManifestEdge::new(TraceNode::MIND_GRAPH_SUPERVISOR, TraceNode::RELATION_COMMIT),
        25 => ManifestEdge::new(TraceNode::MEMORY_GRAPH_SUPERVISOR, TraceNode::ITEM_OPEN),
        26 => ManifestEdge::new(TraceNode::MEMORY_GRAPH_SUPERVISOR, TraceNode::NOTE_ADD),
        27 => ManifestEdge::new(TraceNode::MEMORY_GRAPH_SUPERVISOR, TraceNode::LINK),
        28 => ManifestEdge::new(TraceNode::MEMORY_GRAPH_SUPERVISOR, TraceNode::STATUS_CHANGE),
        29 => ManifestEdge::new(TraceNode::MEMORY_GRAPH_SUPERVISOR, TraceNode::ALIAS_ADD),
        30 => ManifestEdge::new(TraceNode::QUERY_SUPERVISOR, TraceNode::QUERY_PLANNER),
        31 => ManifestEdge::new(TraceNode::QUERY_SUPERVISOR, TraceNode::GRAPH_TRAVERSAL),
        32 => ManifestEdge::new(TraceNode::QUERY_SUPERVISOR, TraceNode::THOUGHT_QUERY),
        33 => ManifestEdge::new(TraceNode::QUERY_SUPERVISOR, TraceNode::RELATION_QUERY),
        34 => ManifestEdge::new(TraceNode::QUERY_SUPERVISOR, TraceNode::QUERY_RESULT_SHAPER),
        35 => ManifestEdge::new(TraceNode::STORE_SUPERVISOR, TraceNode::STORE_KERNEL),
        36 => ManifestEdge::new(TraceNode::STORE_SUPERVISOR, TraceNode::MEMORY_STORE),
        37 => ManifestEdge::new(TraceNode::STORE_SUPERVISOR, TraceNode::CLAIM_STORE),
        38 => ManifestEdge::new(TraceNode::STORE_SUPERVISOR, TraceNode::ACTIVITY_STORE),
        39 => ManifestEdge::new(TraceNode::STORE_SUPERVISOR, TraceNode::GRAPH_STORE),
        40 => ManifestEdge::new(TraceNode::MEMORY_STORE, TraceNode::STORE_KERNEL),
        41 => ManifestEdge::new(TraceNode::CLAIM_STORE, TraceNode::STORE_KERNEL),
        42 => ManifestEdge::new(TraceNode::ACTIVITY_STORE, TraceNode::STORE_KERNEL),
        43 => ManifestEdge::new(TraceNode::GRAPH_STORE, TraceNode::STORE_KERNEL),
        44 => ManifestEdge::new(TraceNode::MEMORY_STORE, TraceNode::SEMA_WRITER),
        45 => ManifestEdge::new(TraceNode::MEMORY_STORE, TraceNode::SEMA_READER),
        46 => ManifestEdge::new(TraceNode::MEMORY_STORE, TraceNode::ID_MINT),
        47 => ManifestEdge::new(TraceNode::MEMORY_STORE, TraceNode::CLOCK),
        48 => ManifestEdge::new(TraceNode::MEMORY_STORE, TraceNode::EVENT_APPENDER),
        49 => ManifestEdge::new(TraceNode::MEMORY_STORE, TraceNode::COMMIT),
        50 => ManifestEdge::new(TraceNode::CLAIM_STORE, TraceNode::SEMA_WRITER),
        51 => ManifestEdge::new(TraceNode::CLAIM_STORE, TraceNode::SEMA_READER),
        52 => ManifestEdge::new(TraceNode::CLAIM_STORE, TraceNode::EVENT_APPENDER),
        53 => ManifestEdge::new(TraceNode::CLAIM_STORE, TraceNode::COMMIT),
        54 => ManifestEdge::new(TraceNode::ACTIVITY_STORE, TraceNode::SEMA_WRITER),
        55 => ManifestEdge::new(TraceNode::ACTIVITY_STORE, TraceNode::SEMA_READER),
        56 => ManifestEdge::new(TraceNode::ACTIVITY_STORE, TraceNode::CLOCK),
        57 => ManifestEdge::new(TraceNode::ACTIVITY_STORE, TraceNode::ACTIVITY_APPENDER),
        58 => ManifestEdge::new(TraceNode::ACTIVITY_STORE, TraceNode::COMMIT),
        59 => ManifestEdge::new(TraceNode::GRAPH_STORE, TraceNode::SEMA_WRITER),
        60 => ManifestEdge::new(TraceNode::GRAPH_STORE, TraceNode::SEMA_READER),
        61 => ManifestEdge::new(TraceNode::GRAPH_STORE, TraceNode::ID_MINT),
        62 => ManifestEdge::new(TraceNode::GRAPH_STORE, TraceNode::CLOCK),
        63 => ManifestEdge::new(TraceNode::GRAPH_STORE, TraceNode::EVENT_APPENDER),
        64 => ManifestEdge::new(TraceNode::GRAPH_STORE, TraceNode::COMMIT),
        65 => ManifestEdge::new(TraceNode::VIEW_PHASE, TraceNode::ROLE_SNAPSHOT_VIEW),
        66 => ManifestEdge::new(TraceNode::VIEW_PHASE, TraceNode::READY_WORK_VIEW),
        67 => ManifestEdge::new(TraceNode::VIEW_PHASE, TraceNode::BLOCKED_WORK_VIEW),
        68 => ManifestEdge::new(TraceNode::VIEW_PHASE, TraceNode::RECENT_ACTIVITY_VIEW),
        69 => ManifestEdge::new(TraceNode::SUBSCRIPTION_SUPERVISOR, TraceNode::COMMIT_BUS),
        70 => ManifestEdge::new(TraceNode::SUBSCRIPTION_SUPERVISOR, TraceNode::SUBSCRIBER),
        71 => ManifestEdge::new(TraceNode::REPLY_SUPERVISOR, TraceNode::NOTA_REPLY_ENCODER),
        _ => ManifestEdge::new(TraceNode::REPLY_SUPERVISOR, TraceNode::ERROR_SHAPER),
    }
}

/// Some entry of `actors` is `actor`.
pub open spec fn lists_actor(actors: Seq<ManifestEntry>, actor: TraceNode) -> bool {
    exists|index: int| 0 <= index < actors.len() && same_actor((#[trigger] actors[index]).kind, actor)
}

/// Some edge of `edges` joins `parent` to `child`.
pub open spec fn lists_edge(edges: Seq<ManifestEdge>, parent: TraceNode, child: TraceNode) -> bool {
    exists|index: int|
        0 <= index < edges.len() && same_actor((#[trigger] edges[index]).parent, parent) && same_actor(
            edges[index].child,
            child,
        )
}

/// Some edge of `edges` ends at `child`.
pub open spec fn has_parent(edges: Seq<ManifestEdge>, child: TraceNode) -> bool {
    exists|index: int| 0 <= index < edges.len() && (#[trigger] edges[index]).child == child
}

/// How many entries of `actors` live as `residency`.
pub open spec fn residency_count(actors: Seq<ManifestEntry>, residency: ActorResidency) -> nat
    decreases actors.len(),
{
    if actors.len() == 0 {
        0
    } else {
        residency_count(actors.drop_last(), residency) + if actors.last().residency == residency {
            1nat
        } else {
            0nat
        }
    }
}

/// The mind's actors and the supervision edges between them.
#[derive(Debug, Clone, PartialEq, Eq)]
pub struct ActorManifest {
    actors: Vec<ManifestEntry>,
    edges: Vec<ManifestEdge>,
}

impl ActorManifest {
    pub closed spec fn entries(&self) -> Seq<ManifestEntry> {
        self.actors@
    }

    pub closed spec fn supervision(&self) -> Seq<ManifestEdge> {
        self.edges@
    }

    /// The topology of the first phase of the mind.
    pub fn persona_mind_phase_one() -> (manifest: Self)
        ensures
            manifest.entries() == phase_one_actors(),
            manifest.supervision() == phase_one_edges(),
    {
        let mut actors: Vec<ManifestEntry> = Vec::new();
        let mut index: usize = 0;
        while index < PHASE_ONE_ACTOR_COUNT
            invariant
                index <= PHASE_ONE_ACTOR_COUNT,
                actors@.len() == index,
                forall|earlier: int| 0 <= earlier < index ==> #[trigger] actors@[earlier] == phase_one_entry(earlier),
            decreases PHASE_ONE_ACTOR_COUNT - index,
        {
            actors.push(ManifestEntry::new(TraceNode::at(index), phase_one_residency_at(index)));
            index = index + 1;
        }
        let mut edges: Vec<ManifestEdge> = Vec::new();
        let mut index: usize = 0;
        while index < PHASE_ONE_EDGE_COUNT
            invariant
                index <= PHASE_ONE_EDGE_COUNT,
                edges@.len() == index,
                forall|earlier: int| 0 <= earlier < index ==> #[trigger] edges@[earlier] == phase_one_edge(earlier),
            decreases PHASE_ONE_EDGE_COUNT - index,
        {
            edges.push(phase_one_edge_at(index));
            index = index + 1;
        }
        assert(actors@ =~= phase_one_actors());
        assert(edges@ =~= phase_one_edges());
        ActorManifest { actors, edges }
    }

    pub fn actors(&self) -> (actors: &[ManifestEntry])
        ensures
            actors@ == self.entries(),
    {
        self.actors.as_slice()
    }

    pub fn edges(&self) -> (edges: &[ManifestEdge])
        ensures
            edges@ == self.supervision(),
    {
        self.edges.as_slice()
    }

    /// Whether `actor` is one of the manifest's actors.
    pub fn contains(&self, actor: TraceNode) -> (result: bool)
        ensures
            result == lists_actor(self.entries(), actor),
    {
        let mut index: usize = 0;
        while index < self.actors.len()
            invariant
                index <= self.actors.len(),
                forall|earlier: int| 0 <= earlier < index ==> !same_actor((#[trigger] self.actors@[earlier]).kind, actor),
            decreases self.actors.len() - index,
        {
            if self.actors[index].kind.same_node(actor) {
                return true;
            }
            index = index + 1;
        }
        false
    }

    /// Whether `parent` supervises `child`.
    pub fn contains_edge(&self, parent: TraceNode, child: TraceNode) -> (result: bool)
        ensures
            result == lists_edge(self.supervision(), parent, child),
    {
        let mut index: usize = 0;
        while index < self.edges.len()
            invariant
                index <= self.edges.len(),
                forall|earlier: int|
                    0 <= earlier < index ==> !(same_actor((#[trigger] self.edges@[earlier]).parent, parent)
                        && same_actor(self.edges@[earlier].child, child)),
            decreases self.edges.len() - index,
        {
            if self.edges[index].parent.same_node(parent) && self.edges[index].child.same_node(child) {
                return true;
            }
            index = index + 1;
        }
        false
    }

    /// How many actors live as `residency`.
    pub fn actor_count_for(&self, residency: ActorResidency) -> (count: usize)
        ensures
            count == residency_count(self.entries(), residency),
    {
        let mut count: usize = 0;
        let mut index: usize = 0;
        while index < self.actors.len()
            invariant
                index <= self.actors.len(),
                count == residency_count(self.actors@.subrange(0, index as int), residency),
                count <= index,
            decreases self.actors.len() - index,
        {
            assert(self.actors@.subrange(0, index as int + 1).drop_last() =~= self.actors@.subrange(
                0,
                index as int,
            ));
            if self.actors[index].residency == residency {
                count = count + 1;
            }
            index = index + 1;
        }
        assert(self.actors@.subrange(0, self.actors@.len() as int) =~= self.actors@);
        count
    }
}

/// How many of the first `count` actors of the first phase live as long-lived
/// planes and stores.
pub open spec fn long_lived_before(count: int) -> nat
    decreases count,
{
    if count <= 0 {
        0
    } else {
        long_lived_before(count - 1) + if phase_one_residency(count - 1) == ActorResidency::LongLived {
            1nat
        } else {
            0nat
        }
    }
}

proof fn lemma_phase_one_prefix_counts(count: int)
    requires
        0 <= count <= PHASE_ONE_ACTOR_COUNT,
    ensures
        residency_count(phase_one_actors().take(count), ActorResidency::Root) == if count >= 1 {
            1nat
        } else {
            0nat
        },
        residency_count(phase_one_actors().take(count), ActorResidency::LongLived) == long_lived_before(
            count,
        ),
    decreases count,
{
    if count > 0 {
        lemma_phase_one_prefix_counts(count - 1);
        assert(phase_one_actors().take(count).drop_last() =~= phase_one_actors().take(count - 1));
    }
}

/// The first phase has exactly one root actor and at least twelve long-lived ones.
pub proof fn lemma_phase_one_residencies()
    ensures
        residency_count(phase_one_actors(), ActorResidency::Root) == 1,
        residency_count(phase_one_actors(), ActorResidency::LongLived) >= 12,
{
    lemma_phase_one_prefix_counts(PHASE_ONE_ACTOR_COUNT as int);
    assert(phase_one_actors().take(PHASE_ONE_ACTOR_COUNT as int) =~= phase_one_actors());
    reveal_with_fuel(long_lived_before, 57);
    assert(long_lived_before(PHASE_ONE_ACTOR_COUNT as int) >= 12);
}

/// The only root of the first phase is the mind's root actor.
pub proof fn lemma_phase_one_root_is_mind_root(index: int)
    requires
        0 <= index < phase_one_actors().len(),
        phase_one_actors()[index].residency == ActorResidency::Root,
    ensures
        phase_one_actors()[index].kind == TraceNode::MIND_ROOT,
{
}

/// No actor of the first phase floats: every actor but the root is the child of some
/// supervision edge.
pub proof fn lemma_phase_one_every_actor_has_parent()
    ensures
        forall|index: int|
            0 <= index < phase_one_actors().len() && (#[trigger] phase_one_actors()[index]).residency
                != ActorResidency::Root ==> has_parent(phase_one_edges(), phase_one_actors()[index].kind),
{
    assert forall|index: int|
        0 <= index < phase_one_actors().len() && (#[trigger] phase_one_actors()[index]).residency
            != ActorResidency::Root implies has_parent(phase_one_edges(), phase_one_actors()[index].kind) by {
        let node = phase_one_actors()[index].kind;
        lemma_phase_one_root_is_mind_root_unless(index);
        lemma_parent_edge_index(node);
        let parent = parent_edge_index(node);
        assert(phase_one_edges()[parent].child == node);
    }
}

proof fn lemma_phase_one_root_is_mind_root_unless(index: int)
    requires
        0 <= index < PHASE_ONE_ACTOR_COUNT,
        phase_one_residency(index) != ActorResidency::Root,
    ensures
        node_at(index) != TraceNode::MIND_ROOT,
{
    lemma_node_at_index(index);
}

/// No actor of the first phase is listed twice.
pub proof fn lemma_phase_one_actors_distinct()
    ensures
        forall|first: int, second: int|
            0 <= first < second < phase_one_actors().len() ==> (#[trigger] phase_one_actors()[first]).kind
                != (#[trigger] phase_one_actors()[second]).kind,
{
    assert forall|first: int, second: int|
        0 <= first < second < phase_one_actors().len() implies (#[trigger] phase_one_actors()[first]).kind
            != (#[trigger] phase_one_actors()[second]).kind by {
        lemma_node_at_index(first);
        lemma_node_at_index(second);
    }
}

/// Every supervision edge of the first phase joins two listed actors.
pub proof fn lemma_phase_one_edges_join_listed_actors()
    ensures
        forall|index: int|
            0 <= index < phase_one_edges().len() ==> lists_actor(
                phase_one_actors(),
                (#[trigger] phase_one_edges()[index]).parent,
            ) && lists_actor(phase_one_actors(), phase_one_edges()[index].child),
{
    assert forall|index: int| 0 <= index < phase_one_edges().len() implies lists_actor(
        phase_one_actors(),
        (#[trigger] phase_one_edges()[index]).parent,
    ) && lists_actor(phase_one_actors(), phase_one_edges()[index].child) by {
        let parent = phase_one_edges()[index].parent;
        let child = phase_one_edges()[index].child;
        lemma_node_order(parent);
        lemma_node_order(child);
        assert(phase_one_actors()[node_index(parent)].kind == parent);
        assert(phase_one_actors()[node_index(child)].kind == child);
    }
}

/// Every built-in actor is listed in the first phase: the manifest names the whole
/// built-in topology that a trace can visit.
pub proof fn lemma_phase_one_lists_every_actor(node: TraceNode)
    requires
        !(node is Named),
    ensures
        lists_actor(phase_one_actors(), node),
{
    lemma_node_order(node);
    assert(phase_one_actors()[node_index(node)].kind == node);
}

} // verus!
