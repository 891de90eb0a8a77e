//! The subscription supervisor: it tells subscriptions of committed changes that
//! their filters accept, and keeps the log of what it told.

use vstd::prelude::*;

use crate::actors::trace::{ActorTrace, TraceAction, TraceEvent, TraceNode};
use crate::contract::{
    MindDelta, Relation, RelationFilter, SubscriptionEvent, Thought, ThoughtFilter,
};
use crate::graph::{relation_selected, thought_selected, RelationSelector, ThoughtSelector};

verus! {

/// A commit that the supervisor is told of, with the trace so far.
pub struct PublishPostCommit {
    pub trace: ActorTrace,
}

/// A committed thought to tell one thought subscription of.
pub struct PublishThoughtDelta {
    pub subscription: String,
    pub filter: ThoughtFilter,
    pub thought: Thought,
}

/// A committed relation to tell one relation subscription of.
pub struct PublishRelationDelta {
    pub subscription: String,
    pub filter: RelationFilter,
    pub relation: Relation,
}

/// A request for at most `limit` of the logged events, oldest first.
pub struct ReadSubscriptionEvents {
    limit: usize,
}

impl ReadSubscriptionEvents {
    pub closed spec fn spec_limit(&self) -> usize {
        self.limit
    }

    /// Every logged event.
    pub fn all() -> (request: Self)
        ensures
            request.spec_limit() == usize::MAX,
    {
        ReadSubscriptionEvents { limit: usize::MAX }
    }

    pub fn new(limit: usize) -> (request: Self)
        ensures
            request.spec_limit() == limit,
    {
        ReadSubscriptionEvents { limit }
    }

    pub fn limit(&self) -> (limit: usize)
        ensures
            limit == self.spec_limit(),
    {
        self.limit
    }
}

/// How many events the supervisor has published so far.
#[derive(Debug, Clone, PartialEq, Eq)]
pub struct SubscriptionPublishReceipt {
    pub published_count: u64,
}

impl SubscriptionPublishReceipt {
    pub fn new(published_count: u64) -> (receipt: Self)
        ensures
            receipt.published_count == published_count,
    {
        SubscriptionPublishReceipt { published_count }
    }
}

/// The logged events that a read returns.
#[derive(Debug, Clone, PartialEq, Eq)]
pub struct SubscriptionEventLog {
    events: Vec<SubscriptionEvent>,
}

impl SubscriptionEventLog {
    pub closed spec fn entries(&self) -> Seq<SubscriptionEvent> {
        self.events@
    }

    pub fn empty() -> (log: Self)
        ensures
            log.entries() == Seq::<SubscriptionEvent>::empty(),
    {
        SubscriptionEventLog { events: Vec::new() }
    }

    pub fn events(&self) -> (events: &[SubscriptionEvent])
        ensures
            events@ == self.entries(),
    {
        self.events.as_slice()
    }
}

/// Counts the commits and publications it is told of and logs the events it
/// publishes, oldest first.
pub struct SubscriptionSupervisor {
    post_commit_count: u64,
    events: Vec<SubscriptionEvent>,
}

impl SubscriptionSupervisor {
    pub closed spec fn count(&self) -> u64 {
        self.post_commit_count
    }

    pub closed spec fn log(&self) -> Seq<SubscriptionEvent> {
        self.events@
    }

    /// A supervisor whose count starts at `post_commit_count`, with an empty log.
    pub fn new(post_commit_count: u64) -> (supervisor: Self)
        ensures
            supervisor.count() == post_commit_count,
            supervisor.log() == Seq::<SubscriptionEvent>::empty(),
    {
        SubscriptionSupervisor { post_commit_count, events: Vec::new() }
    }

    /// Counts a commit, and records the supervisor and the commit bus on its trace.
    pub fn publish_post_commit(&mut self, message: PublishPostCommit) -> (trace: ActorTrace)
        requires
            old(self).count() < u64::MAX,
        ensures
            trace@ == message.trace@.push(
                TraceEvent { actor: TraceNode::SUBSCRIPTION_SUPERVISOR, action: TraceAction::MessageReceived },
            ).push(TraceEvent { actor: TraceNode::COMMIT_BUS, action: TraceAction::MessageReceived }),
            final(self).count() == old(self).count() + 1,
            final(self).log() == old(self).log(),
    {
        self.post_commit_count = self.post_commit_count + 1;
        let mut trace = message.trace;
        trace.record(TraceNode::SUBSCRIPTION_SUPERVISOR, TraceAction::MessageReceived);
        trace.record(TraceNode::COMMIT_BUS, TraceAction::MessageReceived);
        trace
    }

    fn publish(&mut self, event: SubscriptionEvent) -> (receipt: SubscriptionPublishReceipt)
        requires
            old(self).count() < u64::MAX,
        ensures
            final(self).count() == old(self).count() + 1,
            final(self).log() == old(self).log().push(event),
            receipt.published_count == final(self).count(),
    {
        self.post_commit_count = self.post_commit_count + 1;
        self.events.push(event);
        SubscriptionPublishReceipt::new(self.post_commit_count)
    }

    /// Publishes the committed thought to its subscription when the subscription's
    /// filter accepts it among `relations`; otherwise publishes nothing.
    pub fn publish_thought(&mut self, message: PublishThoughtDelta, relations: Vec<Relation>) -> (receipt:
        SubscriptionPublishReceipt)
        requires
            old(self).count() < u64::MAX,
        ensures
            if thought_selected(relations@, message.filter, message.thought) {
                &&& final(self).log() == old(self).log().push(
                    SubscriptionEvent {
                        subscription: message.subscription,
                        delta: MindDelta::ThoughtCommitted(message.thought),
                    },
                )
                &&& final(self).count() == old(self).count() + 1
            } else {
                &&& final(self).log() == old(self).log()
                &&& final(self).count() == old(self).count()
            },
            receipt.published_count == final(self).count(),
    {
        let selector = ThoughtSelector::new(message.filter, relations);
        if selector.accepts(&message.thought) {
            self.publish(
                SubscriptionEvent {
                    subscription: message.subscription,
                    delta: MindDelta::ThoughtCommitted(message.thought),
                },
            )
        } else {
            SubscriptionPublishReceipt::new(self.post_commit_count)
        }
    }

    /// Publishes the committed relation to its subscription when the subscription's
    /// filter accepts it; otherwise publishes nothing.
    pub fn publish_relation(&mut self, message: PublishRelationDelta) -> (receipt:
        SubscriptionPublishReceipt)
        requires
            old(self).count() < u64::MAX,
        ensures
            if relation_selected(message.filter, message.relation) {
                &&& final(self).log() == old(self).log().push(
                    SubscriptionEvent {
                        subscription: message.subscription,
                        delta: MindDelta::RelationCommitted(message.relation),
                    },
                )
                &&& final(self).count() == old(self).count() + 1
            } else {
                &&& final(self).log() == old(self).log()
                &&& final(self).count() == old(self).count()
            },
            receipt.published_count == final(self).count(),
    {
        let selector = RelationSelector::new(message.filter);
        if selector.accepts(&message.relation) {
            self.publish(
                SubscriptionEvent {
                    subscription: message.subscription,
                    delta: MindDelta::RelationCommitted(message.relation),
                },
            )
        } else {
            SubscriptionPublishReceipt::new(self.post_commit_count)
        }
    }

    /// The first `limit` logged events, oldest first.
    pub fn event_log(&self, request: ReadSubscriptionEvents) -> (log: SubscriptionEventLog)
        ensures
            log.entries() == self.log().take(
                if request.spec_limit() < self.log().len() {
                    request.spec_limit() as int
                } else {
                    self.log().len() as int
                },
            ),
    {
        let limit = request.limit();
        let mut events: Vec<SubscriptionEvent> = Vec::new();
        let mut index: usize = 0;
        while index < self.events.len() && index < limit
            invariant
                index <= self.events.len(),
                index <= limit,
                events@ == self.events@.take(index as int),
            decreases self.events.len() - index,
        {
            events.push(self.events[index].duplicate());
            assert(events@ =~= self.events@.take(index as int + 1));
            index = index + 1;
        }
        SubscriptionEventLog { events }
    }
}

} // verus!
