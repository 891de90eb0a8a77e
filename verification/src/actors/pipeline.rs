//! The path of one request through the mind: ingress, dispatch, the domain or view
//! plane, the store, and reply shaping, with the trace that each plane leaves.

use vstd::prelude::*;

use crate::actors::store::{kernel_can_serve, persistence_rejection, recent_activity, store_result, StoreKernel};
use crate::actors::trace::{ActorTrace, TraceAction, TraceEvent, TraceNode};
use crate::activity::{activity_answer, activity_recorded};
use crate::claim::{claim_served, handoff_served, observation_served, release_served};
use crate::contract::{MindReply, MindRequest, MindSnapshot, MindUnimplementedReason, QueryKind, Relation, Thought};
use crate::envelope::MindEnvelope;
use crate::graph::{
    stamp_of, relation_committed, relation_time, relations_selected, sort_by_time, thought_committed,
    thought_time, thoughts_selected,
};
use crate::ids::compact_graph_id;
use crate::memory::{
    can_mint_item, can_serve, default_actor_name, dispatched, is_committed, is_memory_write, lemma_item_room_serves_any,
    limited, GraphModel, MemoryState, StoreLocation,
};

verus! {

pub open spec fn received(actor: TraceNode) -> TraceEvent {
    TraceEvent { actor, action: TraceAction::MessageReceived }
}

pub open spec fn replied(actor: TraceNode) -> TraceEvent {
    TraceEvent { actor, action: TraceAction::MessageReplied }
}

pub open spec fn write_intent() -> TraceEvent {
    TraceEvent { actor: TraceNode::SEMA_WRITER, action: TraceAction::WriteIntentSent }
}

pub open spec fn commit_completed() -> TraceEvent {
    TraceEvent { actor: TraceNode::COMMIT, action: TraceAction::CommitCompleted }
}

/// The requests that the first phase of the mind does not serve.
pub open spec fn unimplemented_request(request: MindRequest) -> bool {
    ||| request is AdjudicationRequest
    ||| request is ChannelGrant
    ||| request is ChannelExtend
    ||| request is ChannelRetract
    ||| request is AdjudicationDeny
    ||| request is ChannelList
}

/// The requests that only read.
pub open spec fn read_only_request(request: MindRequest) -> bool {
    ||| request is Query
    ||| request is RoleObservation
    ||| request is ActivityQuery
    ||| request is QueryThoughts
    ||| request is QueryRelations
}

/// The requests that write records.
pub open spec fn writing_request(request: MindRequest) -> bool {
    ||| is_memory_write(request)
    ||| request is RoleClaim
    ||| request is RoleRelease
    ||| request is RoleHandoff
    ||| request is ActivitySubmission
    ||| request is SubmitThought
    ||| request is SubmitRelation
    ||| request is SubscribeThoughts
    ||| request is SubscribeRelations
}

/// The view that a memory query reads.
pub open spec fn query_view(kind: QueryKind) -> TraceNode {
    match kind {
        QueryKind::Ready => TraceNode::READY_WORK_VIEW,
        QueryKind::Blocked => TraceNode::BLOCKED_WORK_VIEW,
        QueryKind::RecentEvents => TraceNode::RECENT_ACTIVITY_VIEW,
        _ => TraceNode::GRAPH_TRAVERSAL,
    }
}

/// The memory-graph actor that performs a memory write.
pub open spec fn memory_operation(request: MindRequest) -> TraceNode {
    match request {
        MindRequest::Opening(_) => TraceNode::ITEM_OPEN,
        MindRequest::NoteSubmission(_) => TraceNode::NOTE_ADD,
        MindRequest::Link(_) => TraceNode::LINK,
        MindRequest::StatusChange(_) => TraceNode::STATUS_CHANGE,
        MindRequest::AliasAssignment(_) => TraceNode::ALIAS_ADD,
        _ => TraceNode::ERROR_SHAPER,
    }
}

/// What the memory store does before a write: an opening mints an identity, any
/// other write reads the existing graph; both read the clock and send the write.
pub open spec fn memory_write_events(request: MindRequest) -> Seq<TraceEvent> {
    if request is Opening {
        seq![received(TraceNode::ID_MINT), received(TraceNode::CLOCK), write_intent()]
    } else {
        seq![received(TraceNode::SEMA_READER), received(TraceNode::CLOCK), write_intent()]
    }
}

/// The events between the dispatcher and reply shaping: the flow that the dispatcher
/// picks, the domain or view plane, and the store.
pub open spec fn route_events(request: MindRequest) -> Seq<TraceEvent> {
    match request {
        MindRequest::Opening(_)
        | MindRequest::NoteSubmission(_)
        | MindRequest::Link(_)
        | MindRequest::StatusChange(_)
        | MindRequest::AliasAssignment(_) => seq![
            received(TraceNode::MEMORY_FLOW),
            received(TraceNode::DOMAIN_PHASE),
            received(TraceNode::MEMORY_GRAPH_SUPERVISOR),
            received(memory_operation(request)),
            received(TraceNode::STORE_SUPERVISOR),
            received(TraceNode::MEMORY_STORE),
        ] + memory_write_events(request) + seq![
            received(TraceNode::EVENT_APPENDER),
            commit_completed(),
        ],
        MindRequest::Query(query) => seq![
            received(TraceNode::QUERY_FLOW),
            received(TraceNode::VIEW_PHASE),
            received(TraceNode::QUERY_SUPERVISOR),
            received(TraceNode::QUERY_PLANNER),
            received(query_view(query.kind)),
            received(TraceNode::GRAPH_TRAVERSAL),
            received(TraceNode::STORE_SUPERVISOR),
            received(TraceNode::MEMORY_STORE),
            received(TraceNode::SEMA_READER),
            received(TraceNode::QUERY_RESULT_SHAPER),
        ],
        MindRequest::RoleClaim(_) | MindRequest::RoleRelease(_) => seq![
            received(TraceNode::CLAIM_FLOW),
            received(TraceNode::DOMAIN_PHASE),
            received(TraceNode::CLAIM_SUPERVISOR),
            received(TraceNode::STORE_SUPERVISOR),
            received(TraceNode::CLAIM_STORE),
            received(TraceNode::SEMA_READER),
            write_intent(),
            received(TraceNode::EVENT_APPENDER),
            commit_completed(),
        ],
        MindRequest::RoleHandoff(_) => seq![
            received(TraceNode::HANDOFF_FLOW),
            received(TraceNode::DOMAIN_PHASE),
            received(TraceNode::CLAIM_SUPERVISOR),
            received(TraceNode::STORE_SUPERVISOR),
            received(TraceNode::CLAIM_STORE),
            received(TraceNode::SEMA_READER),
            write_intent(),
            received(TraceNode::EVENT_APPENDER),
            commit_completed(),
        ],
        MindRequest::RoleObservation(_) => seq![
            received(TraceNode::CLAIM_FLOW),
            received(TraceNode::VIEW_PHASE),
            received(TraceNode::ROLE_SNAPSHOT_VIEW),
            received(TraceNode::STORE_SUPERVISOR),
            received(TraceNode::CLAIM_STORE),
            received(TraceNode::SEMA_READER),
        ],
        MindRequest::ActivitySubmission(_) => seq![
            received(TraceNode::ACTIVITY_FLOW),
            received(TraceNode::DOMAIN_PHASE),
            received(TraceNode::STORE_SUPERVISOR),
            received(TraceNode::ACTIVITY_STORE),
            received(TraceNode::CLOCK),
            write_intent(),
            received(TraceNode::ACTIVITY_APPENDER),
            commit_completed(),
        ],
        MindRequest::ActivityQuery(_) => seq![
            received(TraceNode::ACTIVITY_FLOW),
            received(TraceNode::VIEW_PHASE),
            received(TraceNode::RECENT_ACTIVITY_VIEW),
            received(TraceNode::STORE_SUPERVISOR),
            received(TraceNode::ACTIVITY_STORE),
            received(TraceNode::SEMA_READER),
            received(TraceNode::RECENT_ACTIVITY_VIEW),
        ],
        MindRequest::SubmitThought(_) => seq![
            received(TraceNode::GRAPH_FLOW),
            received(TraceNode::DOMAIN_PHASE),
            received(TraceNode::MIND_GRAPH_SUPERVISOR),
            received(TraceNode::THOUGHT_COMMIT),
            received(TraceNode::STORE_SUPERVISOR),
            received(TraceNode::GRAPH_STORE),
            received(TraceNode::ID_MINT),
            received(TraceNode::CLOCK),
            write_intent(),
            received(TraceNode::EVENT_APPENDER),
            commit_completed(),
        ],
        MindRequest::SubmitRelation(_) => seq![
            received(TraceNode::GRAPH_FLOW),
            received(TraceNode::DOMAIN_PHASE),
            received(TraceNode::MIND_GRAPH_SUPERVISOR),
            received(TraceNode::RELATION_COMMIT),
            received(TraceNode::STORE_SUPERVISOR),
            received(TraceNode::GRAPH_STORE),
            received(TraceNode::ID_MINT),
            received(TraceNode::CLOCK),
            write_intent(),
            received(TraceNode::EVENT_APPENDER),
            commit_completed(),
        ],
        MindRequest::QueryThoughts(_) => seq![
            received(TraceNode::GRAPH_QUERY_FLOW),
            received(TraceNode::VIEW_PHASE),
            received(TraceNode::QUERY_SUPERVISOR),
            received(TraceNode::QUERY_PLANNER),
            received(TraceNode::THOUGHT_QUERY),
            received(TraceNode::STORE_SUPERVISOR),
            received(TraceNode::GRAPH_STORE),
            received(TraceNode::SEMA_READER),
            received(TraceNode::QUERY_RESULT_SHAPER),
        ],
        MindRequest::QueryRelations(_) => seq![
            received(TraceNode::GRAPH_QUERY_FLOW),
            received(TraceNode::VIEW_PHASE),
            received(TraceNode::QUERY_SUPERVISOR),
            received(TraceNode::QUERY_PLANNER),
            received(TraceNode::RELATION_QUERY),
            received(TraceNode::STORE_SUPERVISOR),
            received(TraceNode::GRAPH_STORE),
            received(TraceNode::SEMA_READER),
            received(TraceNode::QUERY_RESULT_SHAPER),
        ],
        MindRequest::SubscribeThoughts(_) | MindRequest::SubscribeRelations(_) => seq![
            received(TraceNode::GRAPH_QUERY_FLOW),
            received(TraceNode::VIEW_PHASE),
            received(TraceNode::SUBSCRIPTION_SUPERVISOR),
            received(TraceNode::STORE_SUPERVISOR),
            received(TraceNode::GRAPH_STORE),
            received(TraceNode::SUBSCRIPTION_SUPERVISOR),
            received(TraceNode::ID_MINT),
            received(TraceNode::SEMA_READER),
            write_intent(),
            commit_completed(),
        ],
        _ => seq![replied(TraceNode::ERROR_SHAPER)],
    }
}

/// What ingress records: the session, the decoder, the caller's identity and the
/// envelope.
pub open spec fn ingress_events() -> Seq<TraceEvent> {
    seq![
        received(TraceNode::INGRESS_PHASE),
        received(TraceNode::REQUEST_SESSION),
        received(TraceNode::NOTA_DECODER),
        received(TraceNode::CALLER_IDENTITY_RESOLVER),
        replied(TraceNode::ENVELOPE_BUILDER),
    ]
}

pub open spec fn dispatch_events() -> Seq<TraceEvent> {
    seq![received(TraceNode::DISPATCH_PHASE), received(TraceNode::REQUEST_DISPATCHER)]
}

/// What reply shaping records: a reply is encoded, a missing reply is shaped as an
/// error.
pub open spec fn shaped_events(has_reply: bool) -> Seq<TraceEvent> {
    if has_reply {
        seq![received(TraceNode::REPLY_SUPERVISOR), replied(TraceNode::NOTA_REPLY_ENCODER)]
    } else {
        seq![received(TraceNode::REPLY_SUPERVISOR), replied(TraceNode::ERROR_SHAPER)]
    }
}

/// The whole trace of a request: the root receives it, ingress and dispatch pass it
/// on, its route serves it, the reply is shaped and the root replies.
pub open spec fn request_trace(request: MindRequest, has_reply: bool) -> Seq<TraceEvent> {
    seq![received(TraceNode::MIND_ROOT)] + ingress_events() + dispatch_events() + route_events(request)
        + shaped_events(has_reply) + seq![replied(TraceNode::MIND_ROOT)]
}

/// The reply to a request outside the first phase.
pub open spec fn unimplemented_reply() -> MindReply {
    MindReply::MindRequestUnimplemented(MindUnimplementedReason::NotInPrototypeScope)
}

/// The kernel's claim records are unchanged, and so are its activity.
pub open spec fn same_claims_and_activity(after: StoreKernel, before: StoreKernel) -> bool {
    &&& after.claim_records() == before.claim_records()
    &&& after.activity_records() == before.activity_records()
    &&& after.activity_next() == before.activity_next()
}

/// What serving `envelope` does to the memory graph and the kernel, and what it
/// answers, request by request.
pub open spec fn core_served(
    memory_before: GraphModel,
    kernel_before: StoreKernel,
    envelope: MindEnvelope,
    memory_after: GraphModel,
    kernel_after: StoreKernel,
    reply: Option<MindReply>,
) -> bool {
    let request = envelope.request;
    if is_memory_write(request) {
        &&& dispatched(memory_before, envelope.actor, request, memory_after, reply)
        &&& kernel_after.same_ledgers(&kernel_before)
        &&& kernel_after.committed_graph() == if is_committed(reply) {
            Some(memory_after)
        } else {
            kernel_before.committed_graph()
        }
    } else if unimplemented_request(request) {
        &&& reply == Some(unimplemented_reply())
        &&& memory_after == memory_before
        &&& kernel_after == kernel_before
    } else {
        &&& memory_after == memory_before
        &&& kernel_after.committed_graph() == kernel_before.committed_graph()
        &&& match request {
            MindRequest::Query(_) => dispatched(memory_before, envelope.actor, request, memory_after, reply)
                && kernel_after == kernel_before,
            MindRequest::RoleClaim(claim) => reply matches Some(reply) && claim_served(
                kernel_before.claim_records(),
                claim,
                kernel_after.claim_records(),
                reply,
            ) && kernel_after.activity_records() == kernel_before.activity_records()
                && kernel_after.activity_next() == kernel_before.activity_next()
                && kernel_after.same_graph(&kernel_before),
            MindRequest::RoleRelease(release) => reply matches Some(reply) && release_served(
                kernel_before.claim_records(),
                release,
                kernel_after.claim_records(),
                reply,
            ) && kernel_after.activity_records() == kernel_before.activity_records()
                && kernel_after.activity_next() == kernel_before.activity_next()
                && kernel_after.same_graph(&kernel_before),
            MindRequest::RoleHandoff(handoff) => reply matches Some(reply) && handoff_served(
                kernel_before.claim_records(),
                handoff,
                kernel_after.claim_records(),
                reply,
            ) && kernel_after.activity_records() == kernel_before.activity_records()
                && kernel_after.activity_next() == kernel_before.activity_next()
                && kernel_after.same_graph(&kernel_before),
            MindRequest::RoleObservation(_) => reply matches Some(reply) && observation_served(
                kernel_before.claim_records(),
                recent_activity(kernel_before.activity_records()),
                reply,
            ) && kernel_after == kernel_before,
            MindRequest::ActivitySubmission(submission) => reply matches Some(reply) && activity_recorded(
                kernel_before.activity_records(),
                kernel_before.activity_next(),
                submission,
                kernel_after.activity_records(),
                kernel_after.activity_next(),
                store_result(reply),
            ) && kernel_after.claim_records() == kernel_before.claim_records()
                && kernel_after.same_graph(&kernel_before),
            MindRequest::ActivityQuery(query) => reply matches Some(MindReply::ActivityList(list))
                && list.records@ == activity_answer(kernel_before.activity_records(), query)
                && kernel_after == kernel_before,
            MindRequest::SubmitThought(submission) => reply matches Some(reply) && (thought_committed(
                kernel_before.thoughts(),
                kernel_before.next_record(),
                envelope.actor,
                submission,
                stamp_of(reply),
                kernel_after.thoughts(),
                kernel_after.next_record(),
                reply,
            ) || (reply == persistence_rejection() && kernel_after.thoughts()
                == kernel_before.thoughts() && kernel_after.next_record()
                == kernel_before.next_record())) && kernel_after.relations() == kernel_before.relations()
                && kernel_after.next_subscription() == kernel_before.next_subscription()
                && kernel_after.thought_subscriptions() == kernel_before.thought_subscriptions()
                && kernel_after.relation_subscriptions() == kernel_before.relation_subscriptions()
                && same_claims_and_activity(kernel_after, kernel_before),
            MindRequest::SubmitRelation(submission) => reply matches Some(reply) && (relation_committed(
                kernel_before.thoughts(),
                kernel_before.relations(),
                kernel_before.next_record(),
                envelope.actor,
                submission,
                stamp_of(reply),
                kernel_after.relations(),
                kernel_after.next_record(),
                reply,
            ) || (reply == persistence_rejection() && kernel_after.relations()
                == kernel_before.relations() && kernel_after.next_record()
                == kernel_before.next_record())) && kernel_after.thoughts() == kernel_before.thoughts()
                && kernel_after.next_subscription() == kernel_before.next_subscription()
                && kernel_after.thought_subscriptions() == kernel_before.thought_subscriptions()
                && kernel_after.relation_subscriptions() == kernel_before.relation_subscriptions()
                && same_claims_and_activity(kernel_after, kernel_before),
            MindRequest::QueryThoughts(query) => {
                let matches = sort_by_time(
                    thoughts_selected(kernel_before.relations(), query.filter, kernel_before.thoughts()),
                    thought_time(),
                );
                &&& reply matches Some(MindReply::ThoughtList(list))
                &&& list.thoughts@ == limited(matches, query.limit as int)
                &&& list.has_more == (matches.len() > query.limit)
                &&& kernel_after == kernel_before
            },
            MindRequest::QueryRelations(query) => {
                let matches = sort_by_time(
                    relations_selected(query.filter, kernel_before.relations()),
                    relation_time(),
                );
                &&& reply matches Some(MindReply::RelationList(list))
                &&& list.relations@ == limited(matches, query.limit as int)
                &&& list.has_more == (matches.len() > query.limit)
                &&& kernel_after == kernel_before
            },
            MindRequest::SubscribeThoughts(subscription) => {
                &&& reply matches Some(MindReply::SubscriptionAccepted(accepted))
                &&& accepted.subscription@ == compact_graph_id(kernel_before.next_subscription())
                &&& accepted.initial_snapshot@ == thoughts_selected(
                    kernel_before.relations(),
                    subscription.filter,
                    kernel_before.thoughts(),
                ).map_values(|thought: Thought| MindSnapshot::Thought(thought))
                &&& kernel_after.thought_subscriptions() == kernel_before.thought_subscriptions().push(
                    (accepted.subscription, subscription.filter),
                )
                &&& kernel_after.next_subscription() == kernel_before.next_subscription() + 1
                &&& kernel_after.thoughts() == kernel_before.thoughts()
                &&& kernel_after.relations() == kernel_before.relations()
                &&& kernel_after.relation_subscriptions() == kernel_before.relation_subscriptions()
                &&& same_claims_and_activity(kernel_after, kernel_before)
            },
            MindRequest::SubscribeRelations(subscription) => {
                &&& reply matches Some(MindReply::SubscriptionAccepted(accepted))
                &&& accepted.subscription@ == compact_graph_id(kernel_before.next_subscription())
                &&& accepted.initial_snapshot@ == relations_selected(
                    subscription.filter,
                    kernel_before.relations(),
                ).map_values(|relation: Relation| MindSnapshot::Relation(relation))
                &&& kernel_after.relation_subscriptions() == kernel_before.relation_subscriptions().push(
                    (accepted.subscription, subscription.filter),
                )
                &&& kernel_after.next_subscription() == kernel_before.next_subscription() + 1
                &&& kernel_after.thoughts() == kernel_before.thoughts()
                &&& kernel_after.relations() == kernel_before.relations()
                &&& kernel_after.thought_subscriptions() == kernel_before.thought_subscriptions()
                &&& same_claims_and_activity(kernel_after, kernel_before)
            },
            _ => true,
        }
    }
}

fn received_event(actor: TraceNode) -> (event: TraceEvent)
    ensures
        event == received(actor),
{
    TraceEvent::new(actor, TraceAction::MessageReceived)
}

fn replied_event(actor: TraceNode) -> (event: TraceEvent)
    ensures
        event == replied(actor),
{
    TraceEvent::new(actor, TraceAction::MessageReplied)
}

fn write_intent_event() -> (event: TraceEvent)
    ensures
        event == write_intent(),
{
    TraceEvent::new(TraceNode::SEMA_WRITER, TraceAction::WriteIntentSent)
}

fn commit_completed_event() -> (event: TraceEvent)
    ensures
        event == commit_completed(),
{
    TraceEvent::new(TraceNode::COMMIT, TraceAction::CommitCompleted)
}

/// Whether a request is a memory write (see `is_memory_write`).
fn memory_write(request: &MindRequest) -> (result: bool)
    ensures
        result == is_memory_write(*request),
{
    match request {
        MindRequest::Opening(_)
        | MindRequest::NoteSubmission(_)
        | MindRequest::Link(_)
        | MindRequest::StatusChange(_)
        | MindRequest::AliasAssignment(_) => true,
        _ => false,
    }
}

/// The memory-graph actor that performs a memory write (see `memory_operation`).
fn memory_operation_node(request: &MindRequest) -> (node: TraceNode)
    ensures
        node == memory_operation(*request),
{
    match request {
        MindRequest::Opening(_) => TraceNode::ITEM_OPEN,
        MindRequest::NoteSubmission(_) => TraceNode::NOTE_ADD,
        MindRequest::Link(_) => TraceNode::LINK,
        MindRequest::StatusChange(_) => TraceNode::STATUS_CHANGE,
        MindRequest::AliasAssignment(_) => TraceNode::ALIAS_ADD,
        _ => TraceNode::ERROR_SHAPER,
    }
}

/// The view that a memory query reads (see `query_view`).
fn query_view_node(kind: &QueryKind) -> (node: TraceNode)
    ensures
        node == query_view(*kind),
{
    match kind {
        QueryKind::Ready => TraceNode::READY_WORK_VIEW,
        QueryKind::Blocked => TraceNode::BLOCKED_WORK_VIEW,
        QueryKind::RecentEvents => TraceNode::RECENT_ACTIVITY_VIEW,
        _ => TraceNode::GRAPH_TRAVERSAL,
    }
}

/// The events of a request's route (see `route_events`).
fn route_plan(request: &MindRequest) -> (plan: Vec<TraceEvent>)
    ensures
        plan@ == route_events(*request),
{
    let mut plan: Vec<TraceEvent> = Vec::new();
    match request {
        MindRequest::Opening(_)
        | MindRequest::NoteSubmission(_)
        | MindRequest::Link(_)
        | MindRequest::StatusChange(_)
        | MindRequest::AliasAssignment(_) => {
            plan.push(received_event(TraceNode::MEMORY_FLOW));
            plan.push(received_event(TraceNode::DOMAIN_PHASE));
            plan.push(received_event(TraceNode::MEMORY_GRAPH_SUPERVISOR));
            plan.push(received_event(memory_operation_node(request)));
            plan.push(received_event(TraceNode::STORE_SUPERVISOR));
            plan.push(received_event(TraceNode::MEMORY_STORE));
            match request {
                MindRequest::Opening(_) => plan.push(received_event(TraceNode::ID_MINT)),
                _ => plan.push(received_event(TraceNode::SEMA_READER)),
            }
            plan.push(received_event(TraceNode::CLOCK));
            plan.push(write_intent_event());
            plan.push(received_event(TraceNode::EVENT_APPENDER));
            plan.push(commit_completed_event());
        },
        MindRequest::Query(query) => {
            plan.push(received_event(TraceNode::QUERY_FLOW));
            plan.push(received_event(TraceNode::VIEW_PHASE));
            plan.push(received_event(TraceNode::QUERY_SUPERVISOR));
            plan.push(received_event(TraceNode::QUERY_PLANNER));
            plan.push(received_event(query_view_node(&query.kind)));
            plan.push(received_event(TraceNode::GRAPH_TRAVERSAL));
            plan.push(received_event(TraceNode::STORE_SUPERVISOR));
            plan.push(received_event(TraceNode::MEMORY_STORE));
            plan.push(received_event(TraceNode::SEMA_READER));
            plan.push(received_event(TraceNode::QUERY_RESULT_SHAPER));
        },
        MindRequest::RoleClaim(_) | MindRequest::RoleRelease(_) | MindRequest::RoleHandoff(_) => {
            match request {
                MindRequest::RoleHandoff(_) => plan.push(received_event(TraceNode::HANDOFF_FLOW)),
                _ => plan.push(received_event(TraceNode::CLAIM_FLOW)),
            }
            plan.push(received_event(TraceNode::DOMAIN_PHASE));
            plan.push(received_event(TraceNode::CLAIM_SUPERVISOR));
            plan.push(received_event(TraceNode::STORE_SUPERVISOR));
            plan.push(received_event(TraceNode::CLAIM_STORE));
            plan.push(received_event(TraceNode::SEMA_READER));
            plan.push(write_intent_event());
            plan.push(received_event(TraceNode::EVENT_APPENDER));
            plan.push(commit_completed_event());
        },
        MindRequest::RoleObservation(_) => {
            plan.push(received_event(TraceNode::CLAIM_FLOW));
            plan.push(received_event(TraceNode::VIEW_PHASE));
            plan.push(received_event(TraceNode::ROLE_SNAPSHOT_VIEW));
            plan.push(received_event(TraceNode::STORE_SUPERVISOR));
            plan.push(received_event(TraceNode::CLAIM_STORE));
            plan.push(received_event(TraceNode::SEMA_READER));
        },
        MindRequest::ActivitySubmission(_) => {
            plan.push(received_event(TraceNode::ACTIVITY_FLOW));
            plan.push(received_event(TraceNode::DOMAIN_PHASE));
            plan.push(received_event(TraceNode::STORE_SUPERVISOR));
            plan.push(received_event(TraceNode::ACTIVITY_STORE));
            plan.push(received_event(TraceNode::CLOCK));
            plan.push(write_intent_event());
            plan.push(received_event(TraceNode::ACTIVITY_APPENDER));
            plan.push(commit_completed_event());
        },
        MindRequest::ActivityQuery(_) => {
            plan.push(received_event(TraceNode::ACTIVITY_FLOW));
            plan.push(received_event(TraceNode::VIEW_PHASE));
            plan.push(received_event(TraceNode::RECENT_ACTIVITY_VIEW));
            plan.push(received_event(TraceNode::STORE_SUPERVISOR));
            plan.push(received_event(TraceNode::ACTIVITY_STORE));
            plan.push(received_event(TraceNode::SEMA_READER));
            plan.push(received_event(TraceNode::RECENT_ACTIVITY_VIEW));
        },
        MindRequest::SubmitThought(_) | MindRequest::SubmitRelation(_) => {
            plan.push(received_event(TraceNode::GRAPH_FLOW));
            plan.push(received_event(TraceNode::DOMAIN_PHASE));
            plan.push(received_event(TraceNode::MIND_GRAPH_SUPERVISOR));
            match request {
                MindRequest::SubmitThought(_) => plan.push(received_event(TraceNode::THOUGHT_COMMIT)),
                _ => plan.push(received_event(TraceNode::RELATION_COMMIT)),
            }
            plan.push(received_event(TraceNode::STORE_SUPERVISOR));
            plan.push(received_event(TraceNode::GRAPH_STORE));
            plan.push(received_event(TraceNode::ID_MINT));
            plan.push(received_event(TraceNode::CLOCK));
            plan.push(write_intent_event());
            plan.push(received_event(TraceNode::EVENT_APPENDER));
            plan.push(commit_completed_event());
        },
        MindRequest::QueryThoughts(_) | MindRequest::QueryRelations(_) => {
            plan.push(received_event(TraceNode::GRAPH_QUERY_FLOW));
            plan.push(received_event(TraceNode::VIEW_PHASE));
            plan.push(received_event(TraceNode::QUERY_SUPERVISOR));
            plan.push(received_event(TraceNode::QUERY_PLANNER));
            match request {
                MindRequest::QueryThoughts(_) => plan.push(received_event(TraceNode::THOUGHT_QUERY)),
                _ => plan.push(received_event(TraceNode::RELATION_QUERY)),
            }
            plan.push(received_event(TraceNode::STORE_SUPERVISOR));
            plan.push(received_event(TraceNode::GRAPH_STORE));
            plan.push(received_event(TraceNode::SEMA_READER));
            plan.push(received_event(TraceNode::QUERY_RESULT_SHAPER));
        },
        MindRequest::SubscribeThoughts(_) | MindRequest::SubscribeRelations(_) => {
            plan.push(received_event(TraceNode::GRAPH_QUERY_FLOW));
            plan.push(received_event(TraceNode::VIEW_PHASE));
            plan.push(received_event(TraceNode::SUBSCRIPTION_SUPERVISOR));
            plan.push(received_event(TraceNode::STORE_SUPERVISOR));
            plan.push(received_event(TraceNode::GRAPH_STORE));
            plan.push(received_event(TraceNode::SUBSCRIPTION_SUPERVISOR));
            plan.push(received_event(TraceNode::ID_MINT));
            plan.push(received_event(TraceNode::SEMA_READER));
            plan.push(write_intent_event());
            plan.push(commit_completed_event());
        },
        _ => {
            plan.push(replied_event(TraceNode::ERROR_SHAPER));
        },
    }
    assert(plan@ =~= route_events(*request));
    plan
}

/// Appends `events` to `trace`, in order.
fn record_all(trace: &mut ActorTrace, events: &Vec<TraceEvent>)
    ensures
        final(trace)@ == old(trace)@ + events@,
{
    let ghost start = trace@;
    let mut index: usize = 0;
    while index < events.len()
        invariant
            index <= events.len(),
            trace@ == start + events@.subrange(0, index as int),
        decreases events.len() - index,
    {
        let event = events[index];
        trace.record(event.actor, event.action);
        assert(start + events@.subrange(0, index as int + 1) =~= (start + events@.subrange(
            0,
            index as int,
        )).push(event));
        index = index + 1;
    }
    assert(events@.subrange(0, events@.len() as int) =~= events@);
}

/// A reply and the trace that produced it, as a plane hands it back.
pub struct PipelineReply {
    pub reply: Option<MindReply>,
    pub trace: ActorTrace,
}

impl PipelineReply {
    pub fn new(reply: Option<MindReply>, trace: ActorTrace) -> (pipeline: Self)
        ensures
            pipeline.reply == reply,
            pipeline.trace == trace,
    {
        PipelineReply { reply, trace }
    }
}

/// What the mind's root answers: the reply, if any, and the trace of the request.
pub struct RootReply {
    reply: Option<MindReply>,
    trace: ActorTrace,
}

impl RootReply {
    pub closed spec fn answer(&self) -> Option<MindReply> {
        self.reply
    }

    pub closed spec fn witness(&self) -> Seq<TraceEvent> {
        self.trace@
    }

    pub fn new(reply: Option<MindReply>, trace: ActorTrace) -> (root: Self)
        ensures
            root.answer() == reply,
            root.witness() == trace@,
    {
        RootReply { reply, trace }
    }

    pub fn reply(&self) -> (reply: Option<&MindReply>)
        ensures
            match reply {
                Some(reply) => self.answer() == Some(*reply),
                None => self.answer() is None,
            },
    {
        match &self.reply {
            Some(reply) => Some(reply),
            None => None,
        }
    }

    pub fn trace(&self) -> (trace: &ActorTrace)
        ensures
            trace@ == self.witness(),
    {
        &self.trace
    }
}

/// The mind in one place: the memory state that the memory store serves from, and
/// the kernel that owns every other record. Each request takes the path that the
/// actor topology gives it.
pub struct MindCore {
    memory: MemoryState,
    kernel: StoreKernel,
}

impl MindCore {
    pub closed spec fn memory_model(&self) -> GraphModel {
        self.memory.model()
    }

    pub closed spec fn kernel(&self) -> StoreKernel {
        self.kernel
    }

    pub closed spec fn location(&self) -> Seq<char> {
        self.memory.location()
    }

    /// The mind has room to serve `request` without running out of ids: the memory
    /// graph and the kernel can each mint what the request would mint.
    pub open spec fn serves(&self, request: MindRequest) -> bool {
        &&& can_serve(self.memory_model(), request)
        &&& kernel_can_serve(self.kernel(), request)
    }

    /// A mind stored at `store`, with empty records; the memory state starts from the
    /// graph that the kernel committed last, of which a new kernel has none.
    pub fn open(store: StoreLocation) -> (core: Self)
        ensures
            core.location() == store.path(),
            core.memory_model().next_item == 0,
            core.memory_model().next_event == 0,
            core.memory_model().next_operation == 0,
            core.memory_model().default_actor@ == default_actor_name(),
            core.memory_model().items.len() == 0,
            core.memory_model().edges.len() == 0,
            core.memory_model().notes.len() == 0,
            core.memory_model().events.len() == 0,
            core.kernel().claim_records().len() == 0,
            core.kernel().activity_records().len() == 0,
            core.kernel().activity_next() == 0,
            core.kernel().thoughts().len() == 0,
            core.kernel().relations().len() == 0,
            core.kernel().next_record() == 0,
            core.kernel().next_subscription() == 0,
            core.kernel().thought_subscriptions().len() == 0,
            core.kernel().relation_subscriptions().len() == 0,
            core.kernel().committed_graph() is None,
    {
        let kernel = StoreKernel::open();
        let graph = kernel.load_memory_graph();
        let memory = MemoryState::open_with_graph(store, graph);
        MindCore { memory, kernel }
    }

    /// A mind stored at `store` holding the records of `kernel`, kept from an earlier
    /// run; the memory state starts from the graph that the kernel committed last, or
    /// from an empty graph when it committed none.
    pub fn restore(store: StoreLocation, kernel: StoreKernel) -> (core: Self)
        ensures
            core.location() == store.path(),
            core.kernel() == kernel,
            match kernel.committed_graph() {
                Some(graph) => core.memory_model() == graph,
                None => {
                    &&& core.memory_model().default_actor@ == default_actor_name()
                    &&& core.memory_model().next_item == 0
                    &&& core.memory_model().next_event == 0
                    &&& core.memory_model().next_operation == 0
                    &&& core.memory_model().items.len() == 0
                    &&& core.memory_model().edges.len() == 0
                    &&& core.memory_model().notes.len() == 0
                    &&& core.memory_model().events.len() == 0
                },
            },
    {
        let graph = kernel.load_memory_graph();
        let memory = MemoryState::open_with_graph(store, graph);
        MindCore { memory, kernel }
    }

    /// Whether the mind has room to serve `request` (see `serves`).
    pub fn can_serve(&self, request: &MindRequest) -> (result: bool)
        ensures
            result == self.serves(*request),
    {
        self.memory.can_serve_request(request) && self.kernel.can_count(request)
    }

    /// Whether the mind has room to serve any request: the memory graph can mint one
    /// more item and its header, and the kernel's counters can each count one more.
    pub fn has_room(&self) -> (room: bool)
        ensures
            room == (can_mint_item(self.memory_model()) && self.kernel().has_room()),
            room ==> forall|request: MindRequest| #[trigger] self.serves(request),
    {
        let room = self.memory.has_room() && self.kernel.room();
        if room {
            assert forall|request: MindRequest| #[trigger] self.serves(request) by {
                lemma_item_room_serves_any(self.memory.model(), request);
            }
        }
        room
    }

    /// The memory store's write: the request is served on a copy of the graph, and a
    /// committed change is committed to the kernel before it replaces the graph.
    fn apply_memory(&mut self, envelope: MindEnvelope) -> (reply: Option<MindReply>)
        requires
            can_serve(old(self).memory_model(), envelope.request),
            is_memory_write(envelope.request),
        ensures
            core_served(
                old(self).memory_model(),
                old(self).kernel(),
                envelope,
                final(self).memory_model(),
                final(self).kernel(),
                reply,
            ),
            final(self).location() == old(self).location(),
    {
        let stage = self.memory.stage_envelope(envelope);
        let (reply, graph) = stage.into_parts();
        match graph {
            Some(graph) => match self.kernel.commit_memory_graph(&graph) {
                Some(rejection) => {
                    return Some(rejection);
                },
                None => {
                    self.memory.replace_graph(graph);
                },
            },
            None => {},
        }
        reply
    }

    /// Serves the envelope on the store that owns its records (see `core_served`).
    fn serve(&mut self, envelope: MindEnvelope) -> (reply: Option<MindReply>)
        requires
            old(self).serves(envelope.request),
        ensures
            core_served(
                old(self).memory_model(),
                old(self).kernel(),
                envelope,
                final(self).memory_model(),
                final(self).kernel(),
                reply,
            ),
            final(self).location() == old(self).location(),
    {
        if memory_write(&envelope.request) {
            return self.apply_memory(envelope);
        }
        let ghost request = envelope.request;
        let ghost actor = envelope.actor;
        match &envelope.request {
            MindRequest::Query(_) => {
                let ghost before = self.memory.model();
                let ghost query = envelope.request->Query_0;
                let reply = self.memory.dispatch_envelope(envelope);
                proof {
                    crate::memory::lemma_query_is_read_only(before, actor, query, self.memory.model(), reply);
                }
                reply
            },
            MindRequest::RoleClaim(_) | MindRequest::RoleRelease(_) => self.kernel.apply_claim(envelope),
            MindRequest::RoleHandoff(_) => self.kernel.apply_handoff(envelope),
            MindRequest::RoleObservation(_) => self.kernel.read_claims(envelope),
            MindRequest::ActivitySubmission(_) => self.kernel.apply_activity(envelope),
            MindRequest::ActivityQuery(_) => self.kernel.read_activity(envelope),
            MindRequest::SubmitThought(_) => self.kernel.write_thought(envelope),
            MindRequest::SubmitRelation(_) => self.kernel.write_relation(envelope),
            MindRequest::QueryThoughts(_) => self.kernel.read_thoughts(envelope),
            MindRequest::QueryRelations(_) => self.kernel.read_relations(envelope),
            MindRequest::SubscribeThoughts(_) => self.kernel.subscribe_thoughts(envelope),
            MindRequest::SubscribeRelations(_) => self.kernel.subscribe_relations(envelope),
            _ => Some(MindReply::MindRequestUnimplemented(MindUnimplementedReason::NotInPrototypeScope)),
        }
    }

    /// Serves one request from an actor: the root receives it, ingress and dispatch
    /// route it, the store that owns its records serves it, and the reply is shaped.
    /// The trace records each plane in that order (see `request_trace`).
    pub fn submit(&mut self, envelope: MindEnvelope) -> (root: RootReply)
        requires
            old(self).serves(envelope.request),
        ensures
            root.witness() == request_trace(envelope.request, root.answer() is Some),
            core_served(
                old(self).memory_model(),
                old(self).kernel(),
                envelope,
                final(self).memory_model(),
                final(self).kernel(),
                root.answer(),
            ),
            final(self).location() == old(self).location(),
    {
        let ghost request = envelope.request;
        let mut trace = ActorTrace::new();
        trace.record(TraceNode::MIND_ROOT, TraceAction::MessageReceived);
        trace.record(TraceNode::INGRESS_PHASE, TraceAction::MessageReceived);
        trace.record(TraceNode::REQUEST_SESSION, TraceAction::MessageReceived);
        trace.record(TraceNode::NOTA_DECODER, TraceAction::MessageReceived);
        trace.record(TraceNode::CALLER_IDENTITY_RESOLVER, TraceAction::MessageReceived);
        trace.record(TraceNode::ENVELOPE_BUILDER, TraceAction::MessageReplied);
        trace.record(TraceNode::DISPATCH_PHASE, TraceAction::MessageReceived);
        trace.record(TraceNode::REQUEST_DISPATCHER, TraceAction::MessageReceived);
        let plan = route_plan(&envelope.request);
        record_all(&mut trace, &plan);
        let reply = self.serve(envelope);
        trace.record(TraceNode::REPLY_SUPERVISOR, TraceAction::MessageReceived);
        match &reply {
            Some(_) => trace.record(TraceNode::NOTA_REPLY_ENCODER, TraceAction::MessageReplied),
            None => trace.record(TraceNode::ERROR_SHAPER, TraceAction::MessageReplied),
        }
        trace.record(TraceNode::MIND_ROOT, TraceAction::MessageReplied);
        assert(trace@ =~= request_trace(request, reply is Some));
        RootReply::new(reply, trace)
    }
}

/// Reads never reach the writer: the trace of a request that only reads names no
/// `SemaWriter`.
pub proof fn lemma_reads_never_write(request: MindRequest, has_reply: bool)
    requires
        read_only_request(request),
    ensures
        !crate::actors::trace::names_actor(request_trace(request, has_reply), TraceNode::SEMA_WRITER),
{
    let trace = request_trace(request, has_reply);
    assert forall|index: int| 0 <= index < trace.len() implies (#[trigger] trace[index]).actor
        != TraceNode::SEMA_WRITER by {
        let first = seq![received(TraceNode::MIND_ROOT)] + ingress_events() + dispatch_events();
        let route = route_events(request);
        let shaped = shaped_events(has_reply);
        assert(trace =~= first + route + shaped + seq![replied(TraceNode::MIND_ROOT)]);
        if index < first.len() {
            assert(trace[index] == first[index]);
        } else if index < first.len() + route.len() {
            assert(trace[index] == route[index - first.len()]);
        } else if index < first.len() + route.len() + shaped.len() {
            assert(trace[index] == shaped[index - first.len() - route.len()]);
        } else {
            assert(trace[index] == replied(TraceNode::MIND_ROOT));
        }
    }
}

/// Every write sends a write intent to the writer and then completes a commit.
pub proof fn lemma_writes_commit(request: MindRequest, has_reply: bool)
    requires
        writing_request(request),
    ensures
        crate::actors::trace::names_action(
            request_trace(request, has_reply),
            TraceNode::SEMA_WRITER,
            TraceAction::WriteIntentSent,
        ),
        crate::actors::trace::names_action(
            request_trace(request, has_reply),
            TraceNode::COMMIT,
            TraceAction::CommitCompleted,
        ),
{
    let trace = request_trace(request, has_reply);
    let first = seq![received(TraceNode::MIND_ROOT)] + ingress_events() + dispatch_events();
    let route = route_events(request);
    assert(trace =~= first + route + shaped_events(has_reply) + seq![replied(TraceNode::MIND_ROOT)]);
    let base: int = first.len() as int;
    if is_memory_write(request) {
        assert(route[8] == write_intent());
        assert(route[10] == commit_completed());
        assert(trace[base + 8] == route[8]);
        assert(trace[base + 10] == route[10]);
    } else if request is RoleClaim || request is RoleRelease || request is RoleHandoff {
        assert(trace[base + 6] == write_intent());
        assert(trace[base + 8] == commit_completed());
    } else if request is ActivitySubmission {
        assert(trace[base + 5] == write_intent());
        assert(trace[base + 7] == commit_completed());
    } else if request is SubmitThought || request is SubmitRelation {
        assert(trace[base + 8] == write_intent());
        assert(trace[base + 10] == commit_completed());
    } else {
        assert(trace[base + 8] == write_intent());
        assert(trace[base + 9] == commit_completed());
    }
}

/// Every trace starts with the root receiving the request and ends with the root
/// replying.
pub proof fn lemma_root_brackets_trace(request: MindRequest, has_reply: bool)
    ensures
        request_trace(request, has_reply).len() > 1,
        request_trace(request, has_reply)[0] == received(TraceNode::MIND_ROOT),
        request_trace(request, has_reply).last() == replied(TraceNode::MIND_ROOT),
{
}

/// Every actor that a trace names is an actor of the manifest.
pub proof fn lemma_trace_stays_in_manifest(request: MindRequest, has_reply: bool)
    ensures
        forall|index: int|
            0 <= index < request_trace(request, has_reply).len() ==> crate::actors::manifest::lists_actor(
                crate::actors::manifest::phase_one_actors(),
                (#[trigger] request_trace(request, has_reply)[index]).actor,
            ),
{
    assert forall|index: int| 0 <= index < request_trace(request, has_reply).len() implies crate::actors::manifest::lists_actor(
        crate::actors::manifest::phase_one_actors(),
        (#[trigger] request_trace(request, has_reply)[index]).actor,
    ) by {
        crate::actors::manifest::lemma_phase_one_lists_every_actor(request_trace(request, has_reply)[index].actor);
    }
}

/// A request that only reads changes neither the memory graph nor the kernel's
/// records.
pub proof fn lemma_reads_change_nothing(
    memory_before: GraphModel,
    kernel_before: StoreKernel,
    envelope: MindEnvelope,
    memory_after: GraphModel,
    kernel_after: StoreKernel,
    reply: Option<MindReply>,
)
    requires
        read_only_request(envelope.request),
        core_served(memory_before, kernel_before, envelope, memory_after, kernel_after, reply),
    ensures
        memory_after == memory_before,
        kernel_after == kernel_before,
{
}

/// A request outside the first phase is answered as unimplemented and changes
/// nothing.
pub proof fn lemma_unimplemented_changes_nothing(
    memory_before: GraphModel,
    kernel_before: StoreKernel,
    envelope: MindEnvelope,
    memory_after: GraphModel,
    kernel_after: StoreKernel,
    reply: Option<MindReply>,
)
    requires
        unimplemented_request(envelope.request),
        core_served(memory_before, kernel_before, envelope, memory_after, kernel_after, reply),
    ensures
        reply == Some(unimplemented_reply()),
        memory_after == memory_before,
        kernel_after == kernel_before,
{
}

} // verus!
