//! The store kernel: the one owner of the mind's durable records. Every store actor
//! reaches the records through it.

use vstd::prelude::*;

use crate::activity::{activity_answer, activity_recorded, newest_accepted, ActivityLedger};
use crate::claim::{
    claim_served, handoff_served, observation_served, release_served, ClaimLedger, ClaimRecord,
};
use crate::contract::{
    ActivityFilter, MindReply, MindRequest, MindSnapshot, Rejection, RejectionReason, Relation,
    RelationFilter, Thought, ThoughtFilter,
};
use crate::envelope::MindEnvelope;
use crate::error::Error;
use crate::graph::{
    stamp_of, relation_committed, relation_time, relations_selected, sort_by_time, thought_committed,
    thought_time, thoughts_selected, MindGraphLedger,
};
use crate::ids::compact_graph_id;
use crate::memory::{limited, GraphModel, MemoryGraph};
use crate::tables::{activity_of, StoreClock, StoredActivity};

verus! {

/// The reply to a request whose records could not be written or read.
pub open spec fn persistence_rejection() -> MindReply {
    MindReply::Rejection(Rejection { reason: RejectionReason::PersistenceRejected })
}

/// Turns a store failure into the reply the caller gets.
pub struct PersistenceRejection {
    pub reason: RejectionReason,
}

impl PersistenceRejection {
    pub fn new(error: Error) -> (rejection: Self)
        ensures
            rejection.reason == RejectionReason::PersistenceRejected,
    {
        PersistenceRejection { reason: RejectionReason::PersistenceRejected }
    }

    /// The reply for a store failure, whatever the failure was.
    pub fn reply(error: Error) -> (reply: MindReply)
        ensures
            reply == persistence_rejection(),
    {
        let rejection = Self::new(error);
        MindReply::Rejection(Rejection { reason: rejection.reason })
    }
}

/// The store's result behind a reply: a persistence rejection stands for a failed
/// clock, any other reply for success.
pub open spec fn store_result(reply: MindReply) -> core::result::Result<MindReply, Error> {
    if reply == persistence_rejection() {
        Err(Error::SystemTime)
    } else {
        Ok(reply)
    }
}

/// Every activity, last recorded first.
pub open spec fn recent_activity(records: Seq<StoredActivity>) -> Seq<crate::contract::Activity> {
    newest_accepted(records, Seq::<ActivityFilter>::empty()).map_values(
        |record: StoredActivity| activity_of(record),
    )
}

/// The mind's records: role claims, activity, the typed graph and the last committed
/// memory graph.
pub struct StoreKernel {
    claims: ClaimLedger,
    activity: ActivityLedger,
    graph: MindGraphLedger,
    memory_graph: Option<MemoryGraph>,
}

/// The kernel can count what `request` would mint: an activity slot, a record id or
/// a subscription id; other requests mint nothing here.
pub open spec fn kernel_can_serve(kernel: StoreKernel, request: MindRequest) -> bool {
    match request {
        MindRequest::ActivitySubmission(_) => kernel.activity_next() < u64::MAX,
        MindRequest::SubmitThought(_) => kernel.next_record() < u64::MAX,
        MindRequest::SubmitRelation(_) => kernel.next_record() < u64::MAX,
        MindRequest::SubscribeThoughts(_) => kernel.next_subscription() < u64::MAX,
        MindRequest::SubscribeRelations(_) => kernel.next_subscription() < u64::MAX,
        _ => true,
    }
}

impl StoreKernel {
    pub closed spec fn claim_records(&self) -> Seq<ClaimRecord> {
        self.claims.records()
    }

    pub closed spec fn activity_records(&self) -> Seq<StoredActivity> {
        self.activity.records()
    }

    pub closed spec fn activity_next(&self) -> u64 {
        self.activity.next()
    }

    pub closed spec fn thoughts(&self) -> Seq<Thought> {
        self.graph.thoughts()
    }

    pub closed spec fn relations(&self) -> Seq<Relation> {
        self.graph.relations()
    }

    pub closed spec fn next_record(&self) -> u64 {
        self.graph.next_record()
    }

    pub closed spec fn next_subscription(&self) -> u64 {
        self.graph.next_subscription()
    }

    pub closed spec fn thought_subscriptions(&self) -> Seq<(String, ThoughtFilter)> {
        self.graph.thought_subscriptions()
    }

    pub closed spec fn relation_subscriptions(&self) -> Seq<(String, RelationFilter)> {
        self.graph.relation_subscriptions()
    }

    /// The model of the memory graph committed last, if any.
    pub closed spec fn committed_graph(&self) -> Option<GraphModel> {
        match self.memory_graph {
            Some(graph) => Some(graph.model()),
            None => None,
        }
    }

    /// Every counter the kernel mints from has room for one more value.
    pub open spec fn has_room(&self) -> bool {
        &&& self.activity_next() < u64::MAX
        &&& self.next_record() < u64::MAX
        &&& self.next_subscription() < u64::MAX
    }

    /// The claim, activity and typed graph records are those of `other`.
    pub open spec fn same_ledgers(&self, other: &StoreKernel) -> bool {
        &&& self.claim_records() == other.claim_records()
        &&& self.activity_records() == other.activity_records()
        &&& self.activity_next() == other.activity_next()
        &&& self.same_graph(other)
    }

    /// The typed graph records are those of `other`.
    pub open spec fn same_graph(&self, other: &StoreKernel) -> bool {
        &&& self.thoughts() == other.thoughts()
        &&& self.relations() == other.relations()
        &&& self.next_record() == other.next_record()
        &&& self.next_subscription() == other.next_subscription()
        &&& self.thought_subscriptions() == other.thought_subscriptions()
        &&& self.relation_subscriptions() == other.relation_subscriptions()
    }

    /// Empty records.
    pub fn open() -> (kernel: Self)
        ensures
            kernel.claim_records() == Seq::<ClaimRecord>::empty(),
            kernel.activity_records() == Seq::<StoredActivity>::empty(),
            kernel.activity_next() == 0,
            kernel.thoughts() == Seq::<Thought>::empty(),
            kernel.relations() == Seq::<Relation>::empty(),
            kernel.next_record() == 0,
            kernel.next_subscription() == 0,
            kernel.thought_subscriptions() == Seq::<(String, ThoughtFilter)>::empty(),
            kernel.relation_subscriptions() == Seq::<(String, RelationFilter)>::empty(),
            kernel.committed_graph() is None,
    {
        StoreKernel {
            claims: ClaimLedger::open(),
            activity: ActivityLedger::new(),
            graph: MindGraphLedger::new(),
            memory_graph: None,
        }
    }

    /// A kernel holding records kept from an earlier run: the claims, the activity,
    /// the typed graph and the memory graph committed last.
    pub fn from_parts(
        claims: ClaimLedger,
        activity: ActivityLedger,
        graph: MindGraphLedger,
        memory_graph: Option<MemoryGraph>,
    ) -> (kernel: Self)
        ensures
            kernel.claim_records() == claims.records(),
            kernel.activity_records() == activity.records(),
            kernel.activity_next() == activity.next(),
            kernel.thoughts() == graph.thoughts(),
            kernel.relations() == graph.relations(),
            kernel.next_record() == graph.next_record(),
            kernel.next_subscription() == graph.next_subscription(),
            kernel.thought_subscriptions() == graph.thought_subscriptions(),
            kernel.relation_subscriptions() == graph.relation_subscriptions(),
            kernel.committed_graph() == (match memory_graph {
                Some(graph) => Some(graph.model()),
                None => None::<GraphModel>,
            }),
    {
        StoreKernel { claims, activity, graph, memory_graph }
    }

    /// Whether the kernel can count what `request` would mint (see `kernel_can_serve`).
    pub fn can_count(&self, request: &MindRequest) -> (result: bool)
        ensures
            result == kernel_can_serve(*self, *request),
    {
        match request {
            MindRequest::ActivitySubmission(_) => self.activity.next_slot() < u64::MAX,
            MindRequest::SubmitThought(_) => self.graph.next_record_value() < u64::MAX,
            MindRequest::SubmitRelation(_) => self.graph.next_record_value() < u64::MAX,
            MindRequest::SubscribeThoughts(_) => self.graph.next_subscription_value() < u64::MAX,
            MindRequest::SubscribeRelations(_) => self.graph.next_subscription_value() < u64::MAX,
            _ => true,
        }
    }

    /// Whether every counter has room (see `has_room`).
    pub fn room(&self) -> (room: bool)
        ensures
            room == self.has_room(),
    {
        self.activity.next_slot() < u64::MAX && self.graph.next_record_value() < u64::MAX
            && self.graph.next_subscription_value() < u64::MAX
    }

    /// Keeps `graph` as the committed memory graph; the in-memory store never refuses.
    pub fn commit_memory_graph(&mut self, graph: &MemoryGraph) -> (rejection: Option<MindReply>)
        ensures
            rejection is None,
            final(self).committed_graph() == Some(graph.model()),
            final(self).same_ledgers(old(self)),
    {
        self.memory_graph = Some(graph.duplicate());
        None
    }

    /// A copy of the committed memory graph, if one was committed.
    pub fn load_memory_graph(&self) -> (graph: Option<MemoryGraph>)
        ensures
            match graph {
                Some(graph) => self.committed_graph() == Some(graph.model()),
                None => self.committed_graph() is None,
            },
    {
        match &self.memory_graph {
            Some(graph) => Some(graph.duplicate()),
            None => None,
        }
    }

    /// Serves a role claim or release; any other request gets no reply.
    pub fn apply_claim(&mut self, envelope: MindEnvelope) -> (reply: Option<MindReply>)
        ensures
            match envelope.request {
                MindRequest::RoleClaim(claim) => reply matches Some(reply) && claim_served(
                    old(self).claim_records(),
                    claim,
                    final(self).claim_records(),
                    reply,
                ),
                MindRequest::RoleRelease(release) => reply matches Some(reply) && release_served(
                    old(self).claim_records(),
                    release,
                    final(self).claim_records(),
                    reply,
                ),
                _ => reply is None && final(self).claim_records() == old(self).claim_records(),
            },
            final(self).activity_records() == old(self).activity_records(),
            final(self).activity_next() == old(self).activity_next(),
            final(self).same_graph(old(self)),
            final(self).committed_graph() == old(self).committed_graph(),
    {
        match envelope.request {
            MindRequest::RoleClaim(claim) => Some(self.claims.apply_claim(claim)),
            MindRequest::RoleRelease(release) => Some(self.claims.apply_release(release)),
            _ => None,
        }
    }

    /// Serves a role handoff; any other request gets no reply.
    pub fn apply_handoff(&mut self, envelope: MindEnvelope) -> (reply: Option<MindReply>)
        ensures
            match envelope.request {
                MindRequest::RoleHandoff(handoff) => reply matches Some(reply) && handoff_served(
                    old(self).claim_records(),
                    handoff,
                    final(self).claim_records(),
                    reply,
                ),
                _ => reply is None && final(self).claim_records() == old(self).claim_records(),
            },
            final(self).activity_records() == old(self).activity_records(),
            final(self).activity_next() == old(self).activity_next(),
            final(self).same_graph(old(self)),
            final(self).committed_graph() == old(self).committed_graph(),
    {
        match envelope.request {
            MindRequest::RoleHandoff(handoff) => Some(self.claims.apply_handoff(handoff)),
            _ => None,
        }
    }

    /// Answers a role observation with every role's claims and all recent activity,
    /// newest first; any other request gets no reply.
    pub fn read_claims(&self, envelope: MindEnvelope) -> (reply: Option<MindReply>)
        ensures
            match envelope.request {
                MindRequest::RoleObservation(_) => reply matches Some(reply) && observation_served(
                    self.claim_records(),
                    recent_activity(self.activity_records()),
                    reply,
                ),
                _ => reply is None,
            },
    {
        match envelope.request {
            MindRequest::RoleObservation(observation) => Some(
                self.claims.observe(observation, self.activity.newest_first()),
            ),
            _ => None,
        }
    }

    /// Records an activity submission stamped by the clock; a clock before the epoch
    /// is answered with a persistence rejection. Any other request gets no reply.
    pub fn apply_activity(&mut self, envelope: MindEnvelope) -> (reply: Option<MindReply>)
        requires
            old(self).activity_next() < u64::MAX,
        ensures
            match envelope.request {
                MindRequest::ActivitySubmission(submission) => reply matches Some(reply) && activity_recorded(
                    old(self).activity_records(),
                    old(self).activity_next(),
                    submission,
                    final(self).activity_records(),
                    final(self).activity_next(),
                    store_result(reply),
                ),
                _ => reply is None && final(self).activity_records() == old(self).activity_records()
                    && final(self).activity_next() == old(self).activity_next(),
            },
            final(self).claim_records() == old(self).claim_records(),
            final(self).same_graph(old(self)),
            final(self).committed_graph() == old(self).committed_graph(),
    {
        match envelope.request {
            MindRequest::ActivitySubmission(submission) => {
                let ghost before = self.activity.records();
                let ghost before_next = self.activity.next();
                let ghost recorded = submission;
                let result = self.activity.submit(submission);
                let ghost outcome = result;
                let reply = match result {
                    Ok(reply) => reply,
                    Err(error) => PersistenceRejection::reply(error),
                };
                assert(activity_recorded(
                    before,
                    before_next,
                    recorded,
                    self.activity.records(),
                    self.activity.next(),
                    outcome,
                ));
                Some(reply)
            },
            _ => None,
        }
    }

    /// Answers an activity query (see `activity_answer`); any other request gets no
    /// reply.
    pub fn read_activity(&self, envelope: MindEnvelope) -> (reply: Option<MindReply>)
        ensures
            match envelope.request {
                MindRequest::ActivityQuery(query) => reply matches Some(MindReply::ActivityList(list))
                    && list.records@ == activity_answer(self.activity_records(), query),
                _ => reply is None,
            },
    {
        match envelope.request {
            MindRequest::ActivityQuery(query) => Some(self.activity.query(query)),
            _ => None,
        }
    }

    /// Commits a thought submission from the envelope's actor, stamped by the clock; a
    /// clock before the epoch is answered with a persistence rejection. Any other
    /// request gets no reply.
    pub fn write_thought(&mut self, envelope: MindEnvelope) -> (reply: Option<MindReply>)
        requires
            old(self).next_record() < u64::MAX,
        ensures
            match envelope.request {
                MindRequest::SubmitThought(submission) => reply matches Some(reply) && (thought_committed(
                    old(self).thoughts(),
                    old(self).next_record(),
                    envelope.actor,
                    submission,
                    stamp_of(reply),
                    final(self).thoughts(),
                    final(self).next_record(),
                    reply,
                ) || (reply == persistence_rejection() && final(self).thoughts()
                    == old(self).thoughts() && final(self).next_record() == old(self).next_record())),
                _ => reply is None && final(self).thoughts() == old(self).thoughts()
                    && final(self).next_record() == old(self).next_record(),
            },
            final(self).relations() == old(self).relations(),
            final(self).next_subscription() == old(self).next_subscription(),
            final(self).thought_subscriptions() == old(self).thought_subscriptions(),
            final(self).relation_subscriptions() == old(self).relation_subscriptions(),
            final(self).claim_records() == old(self).claim_records(),
            final(self).activity_records() == old(self).activity_records(),
            final(self).activity_next() == old(self).activity_next(),
            final(self).committed_graph() == old(self).committed_graph(),
    {
        let MindEnvelope { actor, request } = envelope;
        match request {
            MindRequest::SubmitThought(submission) => match StoreClock::system().timestamp() {
                Ok(stamp) => {
                    let ghost author = actor;
                    let ghost submitted = submission;
                    let ghost before = self.graph.thoughts();
                    let ghost before_next = self.graph.next_record();
                    let reply = self.graph.commit_thought(actor, submission, stamp);
                    assert(thought_committed(
                        before,
                        before_next,
                        author,
                        submitted,
                        stamp,
                        self.graph.thoughts(),
                        self.graph.next_record(),
                        reply,
                    ));
                    Some(reply)
                },
                Err(error) => Some(PersistenceRejection::reply(error)),
            },
            _ => None,
        }
    }

    /// Commits a relation submission, stamped by the clock; a clock before the epoch
    /// is answered with a persistence rejection. Any other request gets no reply.
    pub fn write_relation(&mut self, envelope: MindEnvelope) -> (reply: Option<MindReply>)
        requires
            old(self).next_record() < u64::MAX,
        ensures
            match envelope.request {
                MindRequest::SubmitRelation(submission) => reply matches Some(reply) && (relation_committed(
                    old(self).thoughts(),
                    old(self).relations(),
                    old(self).next_record(),
                    envelope.actor,
                    submission,
                    stamp_of(reply),
                    final(self).relations(),
                    final(self).next_record(),
                    reply,
                ) || (reply == persistence_rejection() && final(self).relations()
                    == old(self).relations() && final(self).next_record() == old(self).next_record())),
                _ => reply is None && final(self).relations() == old(self).relations()
                    && final(self).next_record() == old(self).next_record(),
            },
            final(self).thoughts() == old(self).thoughts(),
            final(self).next_subscription() == old(self).next_subscription(),
            final(self).thought_subscriptions() == old(self).thought_subscriptions(),
            final(self).relation_subscriptions() == old(self).relation_subscriptions(),
            final(self).claim_records() == old(self).claim_records(),
            final(self).activity_records() == old(self).activity_records(),
            final(self).activity_next() == old(self).activity_next(),
            final(self).committed_graph() == old(self).committed_graph(),
    {
        let MindEnvelope { actor, request } = envelope;
        match request {
            MindRequest::SubmitRelation(submission) => match StoreClock::system().timestamp() {
                Ok(stamp) => {
                    let ghost author = actor;
                    let ghost submitted = submission;
                    let ghost thoughts = self.graph.thoughts();
                    let ghost before = self.graph.relations();
                    let ghost before_next = self.graph.next_record();
                    let reply = self.graph.commit_relation(actor, submission, stamp);
                    assert(relation_committed(
                        thoughts,
                        before,
                        before_next,
                        author,
                        submitted,
                        stamp,
                        self.graph.relations(),
                        self.graph.next_record(),
                        reply,
                    ));
                    Some(reply)
                },
                Err(error) => Some(PersistenceRejection::reply(error)),
            },
            _ => None,
        }
    }

    /// Answers a thought query: the current thoughts that its filter accepts, oldest
    /// first, at most `limit` of them. Any other request gets no reply.
    pub fn read_thoughts(&self, envelope: MindEnvelope) -> (reply: Option<MindReply>)
        ensures
            match envelope.request {
                MindRequest::QueryThoughts(query) => {
                    let matches = sort_by_time(
                        thoughts_selected(self.relations(), query.filter, self.thoughts()),
                        thought_time(),
                    );
                    &&& reply matches Some(MindReply::ThoughtList(list))
                    &&& list.thoughts@ == limited(matches, query.limit as int)
                    &&& list.has_more == (matches.len() > query.limit)
                },
                _ => reply is None,
            },
    {
        match envelope.request {
            MindRequest::QueryThoughts(query) => Some(self.graph.read_thoughts(query)),
            _ => None,
        }
    }

    /// Answers a relation query: the relations that its filter accepts, oldest first,
    /// at most `limit` of them. Any other request gets no reply.
    pub fn read_relations(&self, envelope: MindEnvelope) -> (reply: Option<MindReply>)
        ensures
            match envelope.request {
                MindRequest::QueryRelations(query) => {
                    let matches = sort_by_time(
                        relations_selected(query.filter, self.relations()),
                        relation_time(),
                    );
                    &&& reply matches Some(MindReply::RelationList(list))
                    &&& list.relations@ == limited(matches, query.limit as int)
                    &&& list.has_more == (matches.len() > query.limit)
                },
                _ => reply is None,
            },
    {
        match envelope.request {
            MindRequest::QueryRelations(query) => Some(self.graph.read_relations(query)),
            _ => None,
        }
    }

    /// Registers a thought subscription and answers it with the thoughts its filter
    /// accepts now. Any other request gets no reply.
    pub fn subscribe_thoughts(&mut self, envelope: MindEnvelope) -> (reply: Option<MindReply>)
        requires
            old(self).next_subscription() < u64::MAX,
        ensures
            match envelope.request {
                MindRequest::SubscribeThoughts(subscription) => {
                    &&& reply matches Some(MindReply::SubscriptionAccepted(accepted))
                    &&& accepted.subscription@ == compact_graph_id(old(self).next_subscription())
                    &&& accepted.initial_snapshot@ == thoughts_selected(
                        old(self).relations(),
                        subscription.filter,
                        old(self).thoughts(),
                    ).map_values(|thought: Thought| MindSnapshot::Thought(thought))
                    &&& final(self).thought_subscriptions() == old(self).thought_subscriptions().push(
                        (accepted.subscription, subscription.filter),
                    )
                    &&& final(self).next_subscription() == old(self).next_subscription() + 1
                },
                _ => reply is None && final(self).same_graph(old(self)),
            },
            final(self).thoughts() == old(self).thoughts(),
            final(self).relations() == old(self).relations(),
            final(self).next_record() == old(self).next_record(),
            final(self).relation_subscriptions() == old(self).relation_subscriptions(),
            final(self).claim_records() == old(self).claim_records(),
            final(self).activity_records() == old(self).activity_records(),
            final(self).activity_next() == old(self).activity_next(),
            final(self).committed_graph() == old(self).committed_graph(),
    {
        match envelope.request {
            MindRequest::SubscribeThoughts(subscription) => Some(
                self.graph.open_thought_subscription(subscription.filter),
            ),
            _ => None,
        }
    }

    /// Registers a relation subscription and answers it with the relations its filter
    /// accepts now. Any other request gets no reply.
    pub fn subscribe_relations(&mut self, envelope: MindEnvelope) -> (reply: Option<MindReply>)
        requires
            old(self).next_subscription() < u64::MAX,
        ensures
            match envelope.request {
                MindRequest::SubscribeRelations(subscription) => {
                    &&& reply matches Some(MindReply::SubscriptionAccepted(accepted))
                    &&& accepted.subscription@ == compact_graph_id(old(self).next_subscription())
                    &&& accepted.initial_snapshot@ == relations_selected(
                        subscription.filter,
                        old(self).relations(),
                    ).map_values(|relation: Relation| MindSnapshot::Relation(relation))
                    &&& final(self).relation_subscriptions() == old(self).relation_subscriptions().push(
                        (accepted.subscription, subscription.filter),
                    )
                    &&& final(self).next_subscription() == old(self).next_subscription() + 1
                },
                _ => reply is None && final(self).same_graph(old(self)),
            },
            final(self).thoughts() == old(self).thoughts(),
            final(self).relations() == old(self).relations(),
            final(self).next_record() == old(self).next_record(),
            final(self).thought_subscriptions() == old(self).thought_subscriptions(),
            final(self).claim_records() == old(self).claim_records(),
            final(self).activity_records() == old(self).activity_records(),
            final(self).activity_next() == old(self).activity_next(),
            final(self).committed_graph() == old(self).committed_graph(),
    {
        match envelope.request {
            MindRequest::SubscribeRelations(subscription) => Some(
                self.graph.open_relation_subscription(subscription.filter),
            ),
            _ => None,
        }
    }
}

} // verus!
