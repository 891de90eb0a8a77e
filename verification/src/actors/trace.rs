//! The witnesses that a request leaves as it passes through the mind's actor
//! planes: which actor saw it, and what that actor did.

use vstd::prelude::*;

use crate::path::same_text;

verus! {

/// The number of actors that a trace can name.
pub const TRACE_NODE_COUNT: usize = 56;

/// The label of an actor outside the built-in topology, made by `TraceNode::new`.
#[derive(Debug, Clone, Copy, PartialEq, Eq, Hash)]
pub struct NodeLabel {
    text: &'static str,
}

impl NodeLabel {
    pub closed spec fn text(&self) -> Seq<char> {
        self.text@
    }
}

/// An actor, named by a stable label: one of the built-in actors of the mind's
/// topology, or an actor named by any other label (`Named`).
#[allow(non_camel_case_types)]
#[derive(Debug, Clone, Copy, PartialEq, Eq, Hash)]
pub enum TraceNode {
    MIND_ROOT,
    INGRESS_PHASE,
    REQUEST_SESSION,
    NOTA_DECODER,
    CALLER_IDENTITY_RESOLVER,
    ENVELOPE_BUILDER,
    DISPATCH_PHASE,
    REQUEST_DISPATCHER,
    CLAIM_FLOW,
    HANDOFF_FLOW,
    ACTIVITY_FLOW,
    MEMORY_FLOW,
    QUERY_FLOW,
    GRAPH_FLOW,
    GRAPH_QUERY_FLOW,
    DOMAIN_PHASE,
    CLAIM_SUPERVISOR,
    MEMORY_GRAPH_SUPERVISOR,
    MIND_GRAPH_SUPERVISOR,
    QUERY_SUPERVISOR,
    ITEM_OPEN,
    NOTE_ADD,
    LINK,
    STATUS_CHANGE,
    ALIAS_ADD,
    QUERY_PLANNER,
    GRAPH_TRAVERSAL,
    THOUGHT_COMMIT,
    RELATION_COMMIT,
    THOUGHT_QUERY,
    RELATION_QUERY,
    QUERY_RESULT_SHAPER,
    STORE_SUPERVISOR,
    STORE_KERNEL,
    MEMORY_STORE,
    CLAIM_STORE,
    ACTIVITY_STORE,
    GRAPH_STORE,
    SEMA_WRITER,
    SEMA_READER,
    ID_MINT,
    CLOCK,
    EVENT_APPENDER,
    ACTIVITY_APPENDER,
    COMMIT,
    VIEW_PHASE,
    ROLE_SNAPSHOT_VIEW,
    READY_WORK_VIEW,
    BLOCKED_WORK_VIEW,
    RECENT_ACTIVITY_VIEW,
    SUBSCRIPTION_SUPERVISOR,
    COMMIT_BUS,
    SUBSCRIBER,
    REPLY_SUPERVISOR,
    NOTA_REPLY_ENCODER,
    ERROR_SHAPER,
    Named(NodeLabel),
}

/// The actor at `index` in the canonical order of all actors, which is the order
/// of the manifest.
pub open spec fn node_at(index: int) -> TraceNode {
    if index == 0 {
        TraceNode::MIND_ROOT
    } else if index == 1 {
        TraceNode::INGRESS_PHASE
    } else if index == 2 {
        TraceNode::REQUEST_SESSION
    } else if index == 3 {
        TraceNode::NOTA_DECODER
    } else if index == 4 {
        TraceNode::CALLER_IDENTITY_RESOLVER
    } else if index == 5 {
        TraceNode::ENVELOPE_BUILDER
    } else if index == 6 {
        TraceNode::DISPATCH_PHASE
    } else if index == 7 {
        TraceNode::REQUEST_DISPATCHER
    } else if index == 8 {
        TraceNode::CLAIM_FLOW
    } else if index == 9 {
        TraceNode::HANDOFF_FLOW
    } else if index == 10 {
        TraceNode::ACTIVITY_FLOW
    } else if index == 11 {
        TraceNode::MEMORY_FLOW
    } else if index == 12 {
        TraceNode::QUERY_FLOW
    } else if index == 13 {
        TraceNode::GRAPH_FLOW
    } else if index == 14 {
        TraceNode::GRAPH_QUERY_FLOW
    } else if index == 15 {
        TraceNode::DOMAIN_PHASE
    } else if index == 16 {
        TraceNode::CLAIM_SUPERVISOR
    } else if index == 17 {
        TraceNode::MEMORY_GRAPH_SUPERVISOR
    } else if index == 18 {
        TraceNode::MIND_GRAPH_SUPERVISOR
    } else if index == 19 {
        TraceNode::QUERY_SUPERVISOR
    } else if index == 20 {
        TraceNode::ITEM_OPEN
    } else if index == 21 {
        TraceNode::NOTE_ADD
    } else if index == 22 {
        TraceNode::LINK
    } else if index == 23 {
        TraceNode::STATUS_CHANGE
    } else if index == 24 {
        TraceNode::ALIAS_ADD
    } else if index == 25 {
        TraceNode::QUERY_PLANNER
    } else if index == 26 {
        TraceNode::GRAPH_TRAVERSAL
    } else if index == 27 {
        TraceNode::THOUGHT_COMMIT
    } else if index == 28 {
        TraceNode::RELATION_COMMIT
    } else if index == 29 {
        TraceNode::THOUGHT_QUERY
    } else if index == 30 {
        TraceNode::RELATION_QUERY
    } else if index == 31 {
        TraceNode::QUERY_RESULT_SHAPER
    } else if index == 32 {
        TraceNode::STORE_SUPERVISOR
    } else if index == 33 {
        TraceNode::STORE_KERNEL
    } else if index == 34 {
        TraceNode::MEMORY_STORE
    } else if index == 35 {
        TraceNode::CLAIM_STORE
    } else if index == 36 {
        TraceNode::ACTIVITY_STORE
    } else if index == 37 {
        TraceNode::GRAPH_STORE
    } else if index == 38 {
        TraceNode::SEMA_WRITER
    } else if index == 39 {
        TraceNode::SEMA_READER
    } else if index == 40 {
        TraceNode::ID_MINT
    } else if index == 41 {
        TraceNode::CLOCK
    } else if index == 42 {
        TraceNode::EVENT_APPENDER
    } else if index == 43 {
        TraceNode::ACTIVITY_APPENDER
    } else if index == 44 {
        TraceNode::COMMIT
    } else if index == 45 {
        TraceNode::VIEW_PHASE
    } else if index == 46 {
        TraceNode::ROLE_SNAPSHOT_VIEW
    } else if index == 47 {
        TraceNode::READY_WORK_VIEW
    } else if index == 48 {
        TraceNode::BLOCKED_WORK_VIEW
    } else if index == 49 {
        TraceNode::RECENT_ACTIVITY_VIEW
    } else if index == 50 {
        TraceNode::SUBSCRIPTION_SUPERVISOR
    } else if index == 51 {
        TraceNode::COMMIT_BUS
    } else if index == 52 {
        TraceNode::SUBSCRIBER
    } else if index == 53 {
        TraceNode::REPLY_SUPERVISOR
    } else if index == 54 {
        TraceNode::NOTA_REPLY_ENCODER
    } else {
        TraceNode::ERROR_SHAPER
    }
}

/// The position of an actor in the canonical order of all actors.
pub open spec fn node_index(node: TraceNode) -> int {
    match node {
        TraceNode::MIND_ROOT => 0,
        TraceNode::INGRESS_PHASE => 1,
        TraceNode::REQUEST_SESSION => 2,
        TraceNode::NOTA_DECODER => 3,
        TraceNode::CALLER_IDENTITY_RESOLVER => 4,
        TraceNode::ENVELOPE_BUILDER => 5,
        TraceNode::DISPATCH_PHASE => 6,
        TraceNode::REQUEST_DISPATCHER => 7,
        TraceNode::CLAIM_FLOW => 8,
        TraceNode::HANDOFF_FLOW => 9,
        TraceNode::ACTIVITY_FLOW => 10,
        TraceNode::MEMORY_FLOW => 11,
        TraceNode::QUERY_FLOW => 12,
        TraceNode::GRAPH_FLOW => 13,
        TraceNode::GRAPH_QUERY_FLOW => 14,
        TraceNode::DOMAIN_PHASE => 15,
        TraceNode::CLAIM_SUPERVISOR => 16,
        TraceNode::MEMORY_GRAPH_SUPERVISOR => 17,
        TraceNode::MIND_GRAPH_SUPERVISOR => 18,
        TraceNode::QUERY_SUPERVISOR => 19,
        TraceNode::ITEM_OPEN => 20,
        TraceNode::NOTE_ADD => 21,
        TraceNode::LINK => 22,
        TraceNode::STATUS_CHANGE => 23,
        TraceNode::ALIAS_ADD => 24,
        TraceNode::QUERY_PLANNER => 25,
        TraceNode::GRAPH_TRAVERSAL => 26,
        TraceNode::THOUGHT_COMMIT => 27,
        TraceNode::RELATION_COMMIT => 28,
        TraceNode::THOUGHT_QUERY => 29,
        TraceNode::RELATION_QUERY => 30,
        TraceNode::QUERY_RESULT_SHAPER => 31,
        TraceNode::STORE_SUPERVISOR => 32,
        TraceNode::STORE_KERNEL => 33,
        TraceNode::MEMORY_STORE => 34,
        TraceNode::CLAIM_STORE => 35,
        TraceNode::ACTIVITY_STORE => 36,
        TraceNode::GRAPH_STORE => 37,
        TraceNode::SEMA_WRITER => 38,
        TraceNode::SEMA_READER => 39,
        TraceNode::ID_MINT => 40,
        TraceNode::CLOCK => 41,
        TraceNode::EVENT_APPENDER => 42,
        TraceNode::ACTIVITY_APPENDER => 43,
        TraceNode::COMMIT => 44,
        TraceNode::VIEW_PHASE => 45,
        TraceNode::ROLE_SNAPSHOT_VIEW => 46,
        TraceNode::READY_WORK_VIEW => 47,
        TraceNode::BLOCKED_WORK_VIEW => 48,
        TraceNode::RECENT_ACTIVITY_VIEW => 49,
        TraceNode::SUBSCRIPTION_SUPERVISOR => 50,
        TraceNode::COMMIT_BUS => 51,
        TraceNode::SUBSCRIBER => 52,
        TraceNode::REPLY_SUPERVISOR => 53,
        TraceNode::NOTA_REPLY_ENCODER => 54,
        TraceNode::ERROR_SHAPER => 55,
        TraceNode::Named(_) => 56,
    }
}

/// The label of an actor.
pub open spec fn node_label(node: TraceNode) -> Seq<char> {
    match node {
        TraceNode::MIND_ROOT => "MindRoot"@,
        TraceNode::INGRESS_PHASE => "IngressPhase"@,
        TraceNode::REQUEST_SESSION => "RequestSession"@,
        TraceNode::NOTA_DECODER => "NotaDecoder"@,
        TraceNode::CALLER_IDENTITY_RESOLVER => "CallerIdentityResolver"@,
        TraceNode::ENVELOPE_BUILDER => "EnvelopeBuilder"@,
        TraceNode::DISPATCH_PHASE => "DispatchPhase"@,
        TraceNode::REQUEST_DISPATCHER => "RequestDispatcher"@,
        TraceNode::CLAIM_FLOW => "ClaimFlow"@,
        TraceNode::HANDOFF_FLOW => "HandoffFlow"@,
        TraceNode::ACTIVITY_FLOW => "ActivityFlow"@,
        TraceNode::MEMORY_FLOW => "MemoryFlow"@,
        TraceNode::QUERY_FLOW => "QueryFlow"@,
        TraceNode::GRAPH_FLOW => "GraphFlow"@,
        TraceNode::GRAPH_QUERY_FLOW => "GraphQueryFlow"@,
        TraceNode::DOMAIN_PHASE => "DomainPhase"@,
        TraceNode::CLAIM_SUPERVISOR => "ClaimSupervisor"@,
        TraceNode::MEMORY_GRAPH_SUPERVISOR => "MemoryGraphSupervisor"@,
        TraceNode::MIND_GRAPH_SUPERVISOR => "MindGraphSupervisor"@,
        TraceNode::QUERY_SUPERVISOR => "QuerySupervisor"@,
        TraceNode::ITEM_OPEN => "ItemOpen"@,
        TraceNode::NOTE_ADD => "NoteAdd"@,
        TraceNode::LINK => "Link"@,
        TraceNode::STATUS_CHANGE => "StatusChange"@,
        TraceNode::ALIAS_ADD => "AliasAdd"@,
        TraceNode::QUERY_PLANNER => "QueryPlanner"@,
        TraceNode::GRAPH_TRAVERSAL => "GraphTraversal"@,
        TraceNode::THOUGHT_COMMIT => "ThoughtCommit"@,
        TraceNode::RELATION_COMMIT => "RelationCommit"@,
        TraceNode::THOUGHT_QUERY => "ThoughtQuery"@,
        TraceNode::RELATION_QUERY => "RelationQuery"@,
        TraceNode::QUERY_RESULT_SHAPER => "QueryResultShaper"@,
        TraceNode::STORE_SUPERVISOR => "StoreSupervisor"@,
        TraceNode::STORE_KERNEL => "StoreKernel"@,
        TraceNode::MEMORY_STORE => "MemoryStore"@,
        TraceNode::CLAIM_STORE => "ClaimStore"@,
        TraceNode::ACTIVITY_STORE => "ActivityStore"@,
        TraceNode::GRAPH_STORE => "GraphStore"@,
        TraceNode::SEMA_WRITER => "SemaWriter"@,
        TraceNode::SEMA_READER => "SemaReader"@,
        TraceNode::ID_MINT => "IdMint"@,
        TraceNode::CLOCK => "Clock"@,
        TraceNode::EVENT_APPENDER => "EventAppender"@,
        TraceNode::ACTIVITY_APPENDER => "ActivityAppender"@,
        TraceNode::COMMIT => "Commit"@,
        TraceNode::VIEW_PHASE => "ViewPhase"@,
        TraceNode::ROLE_SNAPSHOT_VIEW => "RoleSnapshotView"@,
        TraceNode::READY_WORK_VIEW => "ReadyWorkView"@,
        TraceNode::BLOCKED_WORK_VIEW => "BlockedWorkView"@,
        TraceNode::RECENT_ACTIVITY_VIEW => "RecentActivityView"@,
        TraceNode::SUBSCRIPTION_SUPERVISOR => "SubscriptionSupervisor"@,
        TraceNode::COMMIT_BUS => "CommitBus"@,
        TraceNode::SUBSCRIBER => "Subscriber"@,
        TraceNode::REPLY_SUPERVISOR => "ReplySupervisor"@,
        TraceNode::NOTA_REPLY_ENCODER => "NotaReplyEncoder"@,
        TraceNode::ERROR_SHAPER => "ErrorShaper"@,
        TraceNode::Named(label) => label.text(),
    }
}

/// Walking the canonical order never meets an actor twice.
pub proof fn lemma_node_at_index(index: int)
    requires
        0 <= index < TRACE_NODE_COUNT,
    ensures
        node_index(node_at(index)) == index,
{
    if index == 0 {
    } else if index == 1 {
    } else if index == 2 {
    } else if index == 3 {
    } else if index == 4 {
    } else if index == 5 {
    } else if index == 6 {
    } else if index == 7 {
    } else if index == 8 {
    } else if index == 9 {
    } else if index == 10 {
    } else if index == 11 {
    } else if index == 12 {
    } else if index == 13 {
    } else if index == 14 {
    } else if index == 15 {
    } else if index == 16 {
    } else if index == 17 {
    } else if index == 18 {
    } else if index == 19 {
    } else if index == 20 {
    } else if index == 21 {
    } else if index == 22 {
    } else if index == 23 {
    } else if index == 24 {
    } else if index == 25 {
    } else if index == 26 {
    } else if index == 27 {
    } else if index == 28 {
    } else if index == 29 {
    } else if index == 30 {
    } else if index == 31 {
    } else if index == 32 {
    } else if index == 33 {
    } else if index == 34 {
    } else if index == 35 {
    } else if index == 36 {
    } else if index == 37 {
    } else if index == 38 {
    } else if index == 39 {
    } else if index == 40 {
    } else if index == 41 {
    } else if index == 42 {
    } else if index == 43 {
    } else if index == 44 {
    } else if index == 45 {
    } else if index == 46 {
    } else if index == 47 {
    } else if index == 48 {
    } else if index == 49 {
    } else if index == 50 {
    } else if index == 51 {
    } else if index == 52 {
    } else if index == 53 {
    } else if index == 54 {
    } else if index == 55 {
    }
}

/// The canonical order enumerates every built-in actor exactly once.
pub proof fn lemma_node_order(node: TraceNode)
    requires
        !(node is Named),
    ensures
        0 <= node_index(node) < TRACE_NODE_COUNT,
        node_at(node_index(node)) == node,
{
}

impl TraceNode {
    /// The actor at `index` in the canonical order.
    pub fn at(index: usize) -> (node: TraceNode)
        requires
            index < TRACE_NODE_COUNT,
        ensures
            node == node_at(index as int),
    {
        match index {
            0 => TraceNode::MIND_ROOT,
            1 => TraceNode::INGRESS_PHASE,
            2 => TraceNode::REQUEST_SESSION,
            3 => TraceNode::NOTA_DECODER,
            4 => TraceNode::CALLER_IDENTITY_RESOLVER,
            5 => TraceNode::ENVELOPE_BUILDER,
            6 => TraceNode::DISPATCH_PHASE,
            7 => TraceNode::REQUEST_DISPATCHER,
            8 => TraceNode::CLAIM_FLOW,
            9 => TraceNode::HANDOFF_FLOW,
            10 => TraceNode::ACTIVITY_FLOW,
            11 => TraceNode::MEMORY_FLOW,
            12 => TraceNode::QUERY_FLOW,
            13 => TraceNode::GRAPH_FLOW,
            14 => TraceNode::GRAPH_QUERY_FLOW,
            15 => TraceNode::DOMAIN_PHASE,
            16 => TraceNode::CLAIM_SUPERVISOR,
            17 => TraceNode::MEMORY_GRAPH_SUPERVISOR,
            18 => TraceNode::MIND_GRAPH_SUPERVISOR,
            19 => TraceNode::QUERY_SUPERVISOR,
            20 => TraceNode::ITEM_OPEN,
            21 => TraceNode::NOTE_ADD,
            22 => TraceNode::LINK,
            23 => TraceNode::STATUS_CHANGE,
            24 => TraceNode::ALIAS_ADD,
            25 => TraceNode::QUERY_PLANNER,
            26 => TraceNode::GRAPH_TRAVERSAL,
            27 => TraceNode::THOUGHT_COMMIT,
            28 => TraceNode::RELATION_COMMIT,
            29 => TraceNode::THOUGHT_QUERY,
            30 => TraceNode::RELATION_QUERY,
            31 => TraceNode::QUERY_RESULT_SHAPER,
            32 => TraceNode::STORE_SUPERVISOR,
            33 => TraceNode::STORE_KERNEL,
            34 => TraceNode::MEMORY_STORE,
            35 => TraceNode::CLAIM_STORE,
            36 => TraceNode::ACTIVITY_STORE,
            37 => TraceNode::GRAPH_STORE,
            38 => TraceNode::SEMA_WRITER,
            39 => TraceNode::SEMA_READER,
            40 => TraceNode::ID_MINT,
            41 => TraceNode::CLOCK,
            42 => TraceNode::EVENT_APPENDER,
            43 => TraceNode::ACTIVITY_APPENDER,
            44 => TraceNode::COMMIT,
            45 => TraceNode::VIEW_PHASE,
            46 => TraceNode::ROLE_SNAPSHOT_VIEW,
            47 => TraceNode::READY_WORK_VIEW,
            48 => TraceNode::BLOCKED_WORK_VIEW,
            49 => TraceNode::RECENT_ACTIVITY_VIEW,
            50 => TraceNode::SUBSCRIPTION_SUPERVISOR,
            51 => TraceNode::COMMIT_BUS,
            52 => TraceNode::SUBSCRIBER,
            53 => TraceNode::REPLY_SUPERVISOR,
            54 => TraceNode::NOTA_REPLY_ENCODER,
            _ => TraceNode::ERROR_SHAPER,
        }
    }

    /// The actor's position in the canonical order; `TRACE_NODE_COUNT` for a named
    /// actor outside the built-in topology.
    pub fn position(self) -> (position: usize)
        ensures
            position == node_index(self),
    {
        match self {
            TraceNode::MIND_ROOT => 0,
            TraceNode::INGRESS_PHASE => 1,
            TraceNode::REQUEST_SESSION => 2,
            TraceNode::NOTA_DECODER => 3,
            TraceNode::CALLER_IDENTITY_RESOLVER => 4,
            TraceNode::ENVELOPE_BUILDER => 5,
            TraceNode::DISPATCH_PHASE => 6,
            TraceNode::REQUEST_DISPATCHER => 7,
            TraceNode::CLAIM_FLOW => 8,
            TraceNode::HANDOFF_FLOW => 9,
            TraceNode::ACTIVITY_FLOW => 10,
            TraceNode::MEMORY_FLOW => 11,
            TraceNode::QUERY_FLOW => 12,
            TraceNode::GRAPH_FLOW => 13,
            TraceNode::GRAPH_QUERY_FLOW => 14,
            TraceNode::DOMAIN_PHASE => 15,
            TraceNode::CLAIM_SUPERVISOR => 16,
            TraceNode::MEMORY_GRAPH_SUPERVISOR => 17,
            TraceNode::MIND_GRAPH_SUPERVISOR => 18,
            TraceNode::QUERY_SUPERVISOR => 19,
            TraceNode::ITEM_OPEN => 20,
            TraceNode::NOTE_ADD => 21,
            TraceNode::LINK => 22,
            TraceNode::STATUS_CHANGE => 23,
            TraceNode::ALIAS_ADD => 24,
            TraceNode::QUERY_PLANNER => 25,
            TraceNode::GRAPH_TRAVERSAL => 26,
            TraceNode::THOUGHT_COMMIT => 27,
            TraceNode::RELATION_COMMIT => 28,
            TraceNode::THOUGHT_QUERY => 29,
            TraceNode::RELATION_QUERY => 30,
            TraceNode::QUERY_RESULT_SHAPER => 31,
            TraceNode::STORE_SUPERVISOR => 32,
            TraceNode::STORE_KERNEL => 33,
            TraceNode::MEMORY_STORE => 34,
            TraceNode::CLAIM_STORE => 35,
            TraceNode::ACTIVITY_STORE => 36,
            TraceNode::GRAPH_STORE => 37,
            TraceNode::SEMA_WRITER => 38,
            TraceNode::SEMA_READER => 39,
            TraceNode::ID_MINT => 40,
            TraceNode::CLOCK => 41,
            TraceNode::EVENT_APPENDER => 42,
            TraceNode::ACTIVITY_APPENDER => 43,
            TraceNode::COMMIT => 44,
            TraceNode::VIEW_PHASE => 45,
            TraceNode::ROLE_SNAPSHOT_VIEW => 46,
            TraceNode::READY_WORK_VIEW => 47,
            TraceNode::BLOCKED_WORK_VIEW => 48,
            TraceNode::RECENT_ACTIVITY_VIEW => 49,
            TraceNode::SUBSCRIPTION_SUPERVISOR => 50,
            TraceNode::COMMIT_BUS => 51,
            TraceNode::SUBSCRIBER => 52,
            TraceNode::REPLY_SUPERVISOR => 53,
            TraceNode::NOTA_REPLY_ENCODER => 54,
            TraceNode::ERROR_SHAPER => 55,
            TraceNode::Named(_) => 56,
        }
    }

    /// Whether `self` and `other` are the same actor (see `same_actor`).
    pub fn same_node(self, other: TraceNode) -> (result: bool)
        ensures
            result == same_actor(self, other),
    {
        match (self, other) {
            (TraceNode::Named(left), TraceNode::Named(right)) => same_text(left.text, right.text),
            (TraceNode::Named(_), _) => false,
            (_, TraceNode::Named(_)) => false,
            _ => {
                proof {
                    lemma_node_order(self);
                    lemma_node_order(other);
                }
                self.position() == other.position()
            },
        }
    }

    /// The actor's label.
    pub fn label(self) -> (text: &'static str)
        ensures
            text@ == node_label(self),
    {
        match self {
            TraceNode::MIND_ROOT => "MindRoot",
            TraceNode::INGRESS_PHASE => "IngressPhase",
            TraceNode::REQUEST_SESSION => "RequestSession",
            TraceNode::NOTA_DECODER => "NotaDecoder",
            TraceNode::CALLER_IDENTITY_RESOLVER => "CallerIdentityResolver",
            TraceNode::ENVELOPE_BUILDER => "EnvelopeBuilder",
            TraceNode::DISPATCH_PHASE => "DispatchPhase",
            TraceNode::REQUEST_DISPATCHER => "RequestDispatcher",
            TraceNode::CLAIM_FLOW => "ClaimFlow",
            TraceNode::HANDOFF_FLOW => "HandoffFlow",
            TraceNode::ACTIVITY_FLOW => "ActivityFlow",
            TraceNode::MEMORY_FLOW => "MemoryFlow",
            TraceNode::QUERY_FLOW => "QueryFlow",
            TraceNode::GRAPH_FLOW => "GraphFlow",
            TraceNode::GRAPH_QUERY_FLOW => "GraphQueryFlow",
            TraceNode::DOMAIN_PHASE => "DomainPhase",
            TraceNode::CLAIM_SUPERVISOR => "ClaimSupervisor",
            TraceNode::MEMORY_GRAPH_SUPERVISOR => "MemoryGraphSupervisor",
            TraceNode::MIND_GRAPH_SUPERVISOR => "MindGraphSupervisor",
            TraceNode::QUERY_SUPERVISOR => "QuerySupervisor",
            TraceNode::ITEM_OPEN => "ItemOpen",
            TraceNode::NOTE_ADD => "NoteAdd",
            TraceNode::LINK => "Link",
            TraceNode::STATUS_CHANGE => "StatusChange",
            TraceNode::ALIAS_ADD => "AliasAdd",
            TraceNode::QUERY_PLANNER => "QueryPlanner",
            TraceNode::GRAPH_TRAVERSAL => "GraphTraversal",
            TraceNode::THOUGHT_COMMIT => "ThoughtCommit",
            TraceNode::RELATION_COMMIT => "RelationCommit",
            TraceNode::THOUGHT_QUERY => "ThoughtQuery",
            TraceNode::RELATION_QUERY => "RelationQuery",
            TraceNode::QUERY_RESULT_SHAPER => "QueryResultShaper",
            TraceNode::STORE_SUPERVISOR => "StoreSupervisor",
            TraceNode::STORE_KERNEL => "StoreKernel",
            TraceNode::MEMORY_STORE => "MemoryStore",
            TraceNode::CLAIM_STORE => "ClaimStore",
            TraceNode::ACTIVITY_STORE => "ActivityStore",
            TraceNode::GRAPH_STORE => "GraphStore",
            TraceNode::SEMA_WRITER => "SemaWriter",
            TraceNode::SEMA_READER => "SemaReader",
            TraceNode::ID_MINT => "IdMint",
            TraceNode::CLOCK => "Clock",
            TraceNode::EVENT_APPENDER => "EventAppender",
            TraceNode::ACTIVITY_APPENDER => "ActivityAppender",
            TraceNode::COMMIT => "Commit",
            TraceNode::VIEW_PHASE => "ViewPhase",
            TraceNode::ROLE_SNAPSHOT_VIEW => "RoleSnapshotView",
            TraceNode::READY_WORK_VIEW => "ReadyWorkView",
            TraceNode::BLOCKED_WORK_VIEW => "BlockedWorkView",
            TraceNode::RECENT_ACTIVITY_VIEW => "RecentActivityView",
            TraceNode::SUBSCRIPTION_SUPERVISOR => "SubscriptionSupervisor",
            TraceNode::COMMIT_BUS => "CommitBus",
            TraceNode::SUBSCRIBER => "Subscriber",
            TraceNode::REPLY_SUPERVISOR => "ReplySupervisor",
            TraceNode::NOTA_REPLY_ENCODER => "NotaReplyEncoder",
            TraceNode::ERROR_SHAPER => "ErrorShaper",
            TraceNode::Named(label) => label.text,
        }
    }

    /// The actor labelled `label`: the built-in actor of that label, when there is
    /// one, else the actor named `label`.
    pub fn new(label: &'static str) -> (node: TraceNode)
        ensures
            node_label(node) == label@,
            (node is Named) <==> forall|index: int|
                0 <= index < TRACE_NODE_COUNT ==> node_label(#[trigger] node_at(index)) != label@,
    {
        let mut index: usize = 0;
        while index < TRACE_NODE_COUNT
            invariant
                index <= TRACE_NODE_COUNT,
                forall|earlier: int| 0 <= earlier < index ==> node_label(#[trigger] node_at(earlier)) != label@,
            decreases TRACE_NODE_COUNT - index,
        {
            let candidate = TraceNode::at(index);
            if same_text(candidate.label(), label) {
                proof {
                    lemma_node_at_index(index as int);
                    assert(node_label(node_at(index as int)) == label@);
                }
                return candidate;
            }
            index = index + 1;
        }
        TraceNode::Named(NodeLabel { text: label })
    }
}

/// `left` and `right` are the same actor: the same built-in actor, or two named
/// actors of the same label.
pub open spec fn same_actor(left: TraceNode, right: TraceNode) -> bool {
    match (left, right) {
        (TraceNode::Named(left), TraceNode::Named(right)) => left.text() == right.text(),
        _ => left == right,
    }
}

/// What an actor did with the request.
#[derive(Debug, Clone, Copy, PartialEq, Eq, Hash, Structural)]
pub enum TraceAction {
    ActorStarted,
    MessageReceived,
    MessageReplied,
    ChildSpawned,
    WriteIntentSent,
    CommitCompleted,
    ViewRefreshed,
}

/// One step of a trace: an actor and what it did.
#[derive(Debug, Clone, Copy, PartialEq, Eq, Hash)]
pub struct TraceEvent {
    pub actor: TraceNode,
    pub action: TraceAction,
}

impl TraceEvent {
    pub fn new(actor: TraceNode, action: TraceAction) -> (event: Self)
        ensures
            event.actor == actor,
            event.action == action,
    {
        TraceEvent { actor, action }
    }

    pub fn actor(&self) -> (actor: TraceNode)
        ensures
            actor == self.actor,
    {
        self.actor
    }

    pub fn action(&self) -> (action: TraceAction)
        ensures
            action == self.action,
    {
        self.action
    }
}

/// Some event of `events` is by `actor`.
pub open spec fn names_actor(events: Seq<TraceEvent>, actor: TraceNode) -> bool {
    exists|index: int| 0 <= index < events.len() && same_actor((#[trigger] events[index]).actor, actor)
}

/// Some event of `events` is `actor` doing `action`.
pub open spec fn names_action(events: Seq<TraceEvent>, actor: TraceNode, action: TraceAction) -> bool {
    exists|index: int|
        0 <= index < events.len() && same_actor((#[trigger] events[index]).actor, actor)
            && events[index].action == action
}

/// The actors appear in `events` in this order, each after the one before it, with
/// any other events between them.
pub open spec fn visits_in_order(actors: Seq<TraceNode>, events: Seq<TraceEvent>) -> bool
    decreases events.len(),
{
    if actors.len() == 0 {
        true
    } else if events.len() == 0 {
        false
    } else if same_actor(events[0].actor, actors[0]) {
        visits_in_order(actors.drop_first(), events.drop_first())
    } else {
        visits_in_order(actors, events.drop_first())
    }
}

/// The events that a request left, in the order they happened.
#[derive(Debug, Clone, PartialEq, Eq)]
pub struct ActorTrace {
    events: Vec<TraceEvent>,
}

impl View for ActorTrace {
    type V = Seq<TraceEvent>;

    closed spec fn view(&self) -> Seq<TraceEvent> {
        self.events@
    }
}

impl ActorTrace {
    pub fn new() -> (trace: Self)
        ensures
            trace@ == Seq::<TraceEvent>::empty(),
    {
        ActorTrace { events: Vec::new() }
    }

    pub fn events(&self) -> (events: &[TraceEvent])
        ensures
            events@ == self@,
    {
        self.events.as_slice()
    }

    /// Appends `actor` doing `action`.
    pub fn record(&mut self, actor: TraceNode, action: TraceAction)
        ensures
            final(self)@ == old(self)@.push(TraceEvent { actor, action }),
    {
        self.events.push(TraceEvent::new(actor, action));
    }

    /// Whether some event is by `actor`.
    pub fn contains(&self, actor: TraceNode) -> (result: bool)
        ensures
            result == names_actor(self@, actor),
    {
        let mut index: usize = 0;
        while index < self.events.len()
            invariant
                index <= self.events.len(),
                forall|earlier: int| 0 <= earlier < index ==> !same_actor((#[trigger] self.events@[earlier]).actor, actor),
            decreases self.events.len() - index,
        {
            if self.events[index].actor.same_node(actor) {
                return true;
            }
            index = index + 1;
        }
        false
    }

    /// Whether some event is `actor` doing `action`.
    pub fn contains_action(&self, actor: TraceNode, action: TraceAction) -> (result: bool)
        ensures
            result == names_action(self@, actor, action),
    {
        let mut index: usize = 0;
        while index < self.events.len()
            invariant
                index <= self.events.len(),
                forall|earlier: int|
                    0 <= earlier < index ==> !(same_actor((#[trigger] self.events@[earlier]).actor, actor)
                        && self.events@[earlier].action == action),
            decreases self.events.len() - index,
        {
            if self.events[index].actor.same_node(actor) && self.events[index].action == action {
                return true;
            }
            index = index + 1;
        }
        false
    }

    /// Whether the actors appear in the trace in the given order (see
    /// `visits_in_order`).
    pub fn contains_ordered(&self, actors: &[TraceNode]) -> (result: bool)
        ensures
            result == visits_in_order(actors@, self@),
    {
        let mut matched: usize = 0;
        let mut index: usize = 0;
        assert(actors@.skip(0) =~= actors@);
        assert(self@.skip(0) =~= self@);
        while index < self.events.len()
            invariant
                index <= self.events.len(),
                matched <= actors@.len(),
                visits_in_order(actors@, self@) == visits_in_order(
                    actors@.skip(matched as int),
                    self@.skip(index as int),
                ),
            decreases self.events.len() - index,
        {
            if matched == actors.len() {
                return true;
            }
            let ghost rest = self@.skip(index as int);
            assert(rest.drop_first() =~= self@.skip(index as int + 1));
            if self.events[index].actor.same_node(actors[matched]) {
                assert(actors@.skip(matched as int).drop_first() =~= actors@.skip(matched as int + 1));
                matched = matched + 1;
            }
            index = index + 1;
        }
        matched == actors.len()
    }
}

impl Default for ActorTrace {
    fn default() -> (trace: Self)
        ensures
            trace@ == Seq::<TraceEvent>::empty(),
    {
        ActorTrace::new()
    }
}

} // verus!
