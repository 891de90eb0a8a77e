//! The typed mind graph: thoughts, the relations between them, filters over both,
//! and subscriptions to them.

use vstd::prelude::*;

use crate::contract::{
    endpoints_allowed, ByThoughtTimeRange, CompositeRelationFilter, CompositeThoughtFilter,
    MindReply, MindRequest, MindSnapshot, MindUnimplementedReason, Rejection, RejectionReason,
    Relation, RelationCommitted, RelationFilter, RelationKind, RelationList, SubmitRelation,
    SubmitThought, SubscriptionAccepted, Thought, ThoughtCommitted, ThoughtFilter, ThoughtKind,
    ThoughtList,
};
use crate::envelope::MindEnvelope;
use crate::error::Error;
use crate::ids::{compact_graph_id, CompactGraphId};
use crate::memory::limited;
use crate::tables::StoreClock;

verus! {

// ---------------------------------------------------------------------------
// Selecting thoughts
// ---------------------------------------------------------------------------

/// A `Supersedes` relation points at the thought.
pub open spec fn superseded(relations: Seq<Relation>, thought: Thought) -> bool {
    exists|index: int|
        0 <= index < relations.len() && (#[trigger] relations[index]).kind == RelationKind::Supersedes
            && relations[index].target@ == thought.id@
}

/// The thought is the container, or a `Belongs` relation joins it to the container.
pub open spec fn member_of(relations: Seq<Relation>, thought: Thought, container: String) -> bool {
    thought.id@ == container@ || exists|index: int|
        0 <= index < relations.len() && (#[trigger] relations[index]).kind == RelationKind::Belongs
            && relations[index].source@ == thought.id@ && relations[index].target@ == container@
}

/// An empty kind list accepts every kind.
pub open spec fn kinds_accept<K>(kinds: Seq<K>, kind: K) -> bool {
    kinds.len() == 0 || kinds.contains(kind)
}

pub open spec fn in_time_range(range: ByThoughtTimeRange, occurred_at: u64) -> bool {
    occurred_at >= range.start && match range.end {
        Some(end) => occurred_at <= end,
        None => true,
    }
}

pub open spec fn composite_thought_accepts(
    relations: Seq<Relation>,
    composite: CompositeThoughtFilter,
    thought: Thought,
) -> bool {
    &&& kinds_accept(composite.kinds@, thought.kind)
    &&& (composite.author matches Some(author) ==> thought.author@ == author@)
    &&& (composite.time_range matches Some(range) ==> in_time_range(range, thought.occurred_at))
    &&& (composite.goal matches Some(goal) ==> member_of(relations, thought, goal))
    &&& (composite.memory matches Some(memory) ==> member_of(relations, thought, memory))
}

pub open spec fn thought_filter_accepts(
    relations: Seq<Relation>,
    filter: ThoughtFilter,
    thought: Thought,
) -> bool {
    match filter {
        ThoughtFilter::ByKind(by_kind) => kinds_accept(by_kind.kinds@, thought.kind),
        ThoughtFilter::ByAuthor(by_author) => thought.author@ == by_author.author@,
        ThoughtFilter::ByTimeRange(range) => in_time_range(range, thought.occurred_at),
        ThoughtFilter::InGoal(goal) => member_of(relations, thought, goal),
        ThoughtFilter::InMemory(memory) => member_of(relations, thought, memory),
        ThoughtFilter::Composite(composite) => composite_thought_accepts(relations, composite, thought),
    }
}

/// A thought is current when nothing supersedes it, and selected when it is current
/// and the filter accepts it.
pub open spec fn thought_selected(relations: Seq<Relation>, filter: ThoughtFilter, thought: Thought) -> bool {
    !superseded(relations, thought) && thought_filter_accepts(relations, filter, thought)
}

pub open spec fn composite_relation_accepts(composite: CompositeRelationFilter, relation: Relation) -> bool {
    &&& kinds_accept(composite.kinds@, relation.kind)
    &&& (composite.source matches Some(source) ==> relation.source@ == source@)
    &&& (composite.target matches Some(target) ==> relation.target@ == target@)
}

pub open spec fn relation_selected(filter: RelationFilter, relation: Relation) -> bool {
    match filter {
        RelationFilter::ByKind(by_kind) => kinds_accept(by_kind.kinds@, relation.kind),
        RelationFilter::BySource(source) => relation.source@ == source@,
        RelationFilter::ByTarget(target) => relation.target@ == target@,
        RelationFilter::Composite(composite) => composite_relation_accepts(composite, relation),
    }
}

fn thought_kind_listed(kinds: &Vec<ThoughtKind>, kind: ThoughtKind) -> (result: bool)
    ensures
        result == kinds_accept(kinds@, kind),
{
    if kinds.len() == 0 {
        return true;
    }
    let mut index: usize = 0;
    while index < kinds.len()
        invariant
            index <= kinds.len(),
            forall|k: int| 0 <= k < index ==> kinds@[k] != kind,
        decreases kinds.len() - index,
    {
        if kinds[index] == kind {
            assert(kinds@[index as int] == kind);
            return true;
        }
        index = index + 1;
    }
    false
}

fn relation_kind_listed(kinds: &Vec<RelationKind>, kind: RelationKind) -> (result: bool)
    ensures
        result == kinds_accept(kinds@, kind),
{
    if kinds.len() == 0 {
        return true;
    }
    let mut index: usize = 0;
    while index < kinds.len()
        invariant
            index <= kinds.len(),
            forall|k: int| 0 <= k < index ==> kinds@[k] != kind,
        decreases kinds.len() - index,
    {
        if kinds[index] == kind {
            assert(kinds@[index as int] == kind);
            return true;
        }
        index = index + 1;
    }
    false
}

fn time_range_accepts(range: &ByThoughtTimeRange, occurred_at: u64) -> (result: bool)
    ensures
        result == in_time_range(*range, occurred_at),
{
    let starts_after = occurred_at >= range.start;
    let ends_before = match range.end {
        Some(end) => occurred_at <= end,
        None => true,
    };
    starts_after && ends_before
}

/// Chooses the current thoughts that a filter accepts.
pub struct ThoughtSelector {
    filter: ThoughtFilter,
    relations: Vec<Relation>,
}

impl ThoughtSelector {
    pub closed spec fn filter(&self) -> ThoughtFilter {
        self.filter
    }

    pub closed spec fn relations(&self) -> Seq<Relation> {
        self.relations@
    }

    pub fn new(filter: ThoughtFilter, relations: Vec<Relation>) -> (selector: Self)
        ensures
            selector.filter() == filter,
            selector.relations() == relations@,
    {
        ThoughtSelector { filter, relations }
    }

    /// Whether the thought is current and the filter accepts it.
    pub fn accepts(&self, thought: &Thought) -> (result: bool)
        ensures
            result == thought_selected(self.relations(), self.filter(), *thought),
    {
        !self.is_superseded(thought) && self.accepts_filter(thought, &self.filter)
    }

    fn is_superseded(&self, thought: &Thought) -> (result: bool)
        ensures
            result == superseded(self.relations(), *thought),
    {
        let mut index: usize = 0;
        while index < self.relations.len()
            invariant
                index <= self.relations.len(),
                forall|k: int|
                    0 <= k < index ==> !((#[trigger] self.relations@[k]).kind == RelationKind::Supersedes
                        && self.relations@[k].target@ == thought.id@),
            decreases self.relations.len() - index,
        {
            let relation = &self.relations[index];
            if relation.kind == RelationKind::Supersedes && relation.target == thought.id {
                return true;
            }
            index = index + 1;
        }
        false
    }

    fn accepts_membership(&self, thought: &Thought, container: &String) -> (result: bool)
        ensures
            result == member_of(self.relations(), *thought, *container),
    {
        if thought.id == *container {
            return true;
        }
        let mut index: usize = 0;
        while index < self.relations.len()
            invariant
                index <= self.relations.len(),
                thought.id@ != container@,
                forall|k: int|
                    0 <= k < index ==> !((#[trigger] self.relations@[k]).kind == RelationKind::Belongs
                        && self.relations@[k].source@ == thought.id@ && self.relations@[k].target@
                        == container@),
            decreases self.relations.len() - index,
        {
            let relation = &self.relations[index];
            if relation.kind == RelationKind::Belongs && relation.source == thought.id
                && relation.target == *container {
                return true;
            }
            index = index + 1;
        }
        false
    }

    fn accepts_composite(&self, thought: &Thought, composite: &CompositeThoughtFilter) -> (result: bool)
        ensures
            result == composite_thought_accepts(self.relations(), *composite, *thought),
    {
        let kind_ok = thought_kind_listed(&composite.kinds, thought.kind);
        let author_ok = match &composite.author {
            Some(author) => thought.author == *author,
            None => true,
        };
        let time_ok = match &composite.time_range {
            Some(range) => time_range_accepts(range, thought.occurred_at),
            None => true,
        };
        let goal_ok = match &composite.goal {
            Some(goal) => self.accepts_membership(thought, goal),
            None => true,
        };
        let memory_ok = match &composite.memory {
            Some(memory) => self.accepts_membership(thought, memory),
            None => true,
        };
        kind_ok && author_ok && time_ok && goal_ok && memory_ok
    }

    fn accepts_filter(&self, thought: &Thought, filter: &ThoughtFilter) -> (result: bool)
        ensures
            result == thought_filter_accepts(self.relations(), *filter, *thought),
    {
        match filter {
            ThoughtFilter::ByKind(by_kind) => thought_kind_listed(&by_kind.kinds, thought.kind),
            ThoughtFilter::ByAuthor(by_author) => thought.author == by_author.author,
            ThoughtFilter::ByTimeRange(range) => time_range_accepts(range, thought.occurred_at),
            ThoughtFilter::InGoal(goal) => self.accepts_membership(thought, goal),
            ThoughtFilter::InMemory(memory) => self.accepts_membership(thought, memory),
            ThoughtFilter::Composite(composite) => self.accepts_composite(thought, composite),
        }
    }
}

/// Chooses the relations that a filter accepts.
pub struct RelationSelector {
    filter: RelationFilter,
}

impl RelationSelector {
    pub closed spec fn filter(&self) -> RelationFilter {
        self.filter
    }

    pub fn new(filter: RelationFilter) -> (selector: Self)
        ensures
            selector.filter() == filter,
    {
        RelationSelector { filter }
    }

    pub fn accepts(&self, relation: &Relation) -> (result: bool)
        ensures
            result == relation_selected(self.filter(), *relation),
    {
        match &self.filter {
            RelationFilter::ByKind(by_kind) => relation_kind_listed(&by_kind.kinds, relation.kind),
            RelationFilter::BySource(source) => relation.source == *source,
            RelationFilter::ByTarget(target) => relation.target == *target,
            RelationFilter::Composite(composite) => {
                let kind_ok = relation_kind_listed(&composite.kinds, relation.kind);
                let source_ok = match &composite.source {
                    Some(source) => relation.source == *source,
                    None => true,
                };
                let target_ok = match &composite.target {
                    Some(target) => relation.target == *target,
                    None => true,
                };
                kind_ok && source_ok && target_ok
            },
        }
    }
}

// ---------------------------------------------------------------------------
// Ordering and limiting
// ---------------------------------------------------------------------------

/// `value` inserted into `sorted` after every value whose time is not later.
pub open spec fn insert_by_time<A>(sorted: Seq<A>, value: A, time: spec_fn(A) -> u64) -> Seq<A>
    decreases sorted.len(),
{
    if sorted.len() == 0 {
        seq![value]
    } else if time(sorted.last()) <= time(value) {
        sorted.push(value)
    } else {
        insert_by_time(sorted.drop_last(), value, time).push(sorted.last())
    }
}

/// `values` ordered by time; values of equal time keep their order.
pub open spec fn sort_by_time<A>(values: Seq<A>, time: spec_fn(A) -> u64) -> Seq<A>
    decreases values.len(),
{
    if values.len() == 0 {
        Seq::empty()
    } else {
        insert_by_time(sort_by_time(values.drop_last(), time), values.last(), time)
    }
}

pub open spec fn thought_time() -> spec_fn(Thought) -> u64 {
    |thought: Thought| thought.occurred_at
}

pub open spec fn relation_time() -> spec_fn(Relation) -> u64 {
    |relation: Relation| relation.occurred_at
}

proof fn lemma_insert_by_time_at<A>(sorted: Seq<A>, value: A, time: spec_fn(A) -> u64, at: int)
    requires
        0 <= at <= sorted.len(),
        forall|k: int| at <= k < sorted.len() ==> time(#[trigger] sorted[k]) > time(value),
        at > 0 ==> time(sorted[at - 1]) <= time(value),
    ensures
        insert_by_time(sorted, value, time) == sorted.insert(at, value),
    decreases sorted.len(),
{
    if sorted.len() == 0 {
        assert(sorted.insert(at, value) =~= seq![value]);
    } else if at == sorted.len() {
        assert(sorted.insert(at, value) =~= sorted.push(value));
    } else {
        let rest = sorted.drop_last();
        assert forall|k: int| at <= k < rest.len() implies time(#[trigger] rest[k]) > time(value) by {
            assert(rest[k] == sorted[k]);
        }
        if at > 0 {
            assert(rest[at - 1] == sorted[at - 1]);
        }
        assert(time(sorted[sorted.len() - 1]) > time(value));
        lemma_insert_by_time_at(rest, value, time, at);
        assert(rest.insert(at, value).push(sorted.last()) =~= sorted.insert(at, value));
    }
}

fn sort_thoughts_by_time(values: Vec<Thought>) -> (sorted: Vec<Thought>)
    ensures
        sorted@ == sort_by_time(values@, thought_time()),
{
    let mut sorted: Vec<Thought> = Vec::new();
    let mut index: usize = 0;
    while index < values.len()
        invariant
            index <= values.len(),
            sorted@ == sort_by_time(values@.subrange(0, index as int), thought_time()),
        decreases values.len() - index,
    {
        assert(values@.subrange(0, index as int + 1).drop_last() =~= values@.subrange(0, index as int));
        let value = values[index].duplicate();
        let mut at = sorted.len();
        while at > 0 && sorted[at - 1].occurred_at > value.occurred_at
            invariant
                at <= sorted.len(),
                forall|k: int| at <= k < sorted.len() ==> (#[trigger] sorted@[k]).occurred_at
                    > value.occurred_at,
            decreases at,
        {
            at = at - 1;
        }
        proof {
            lemma_insert_by_time_at(sorted@, value, thought_time(), at as int);
        }
        sorted.insert(at, value);
        index = index + 1;
    }
    assert(values@.subrange(0, values@.len() as int) =~= values@);
    sorted
}

fn sort_relations_by_time(values: Vec<Relation>) -> (sorted: Vec<Relation>)
    ensures
        sorted@ == sort_by_time(values@, relation_time()),
{
    let mut sorted: Vec<Relation> = Vec::new();
    let mut index: usize = 0;
    while index < values.len()
        invariant
            index <= values.len(),
            sorted@ == sort_by_time(values@.subrange(0, index as int), relation_time()),
        decreases values.len() - index,
    {
        assert(values@.subrange(0, index as int + 1).drop_last() =~= values@.subrange(0, index as int));
        let value = values[index].duplicate();
        let mut at = sorted.len();
        while at > 0 && sorted[at - 1].occurred_at > value.occurred_at
            invariant
                at <= sorted.len(),
                forall|k: int| at <= k < sorted.len() ==> (#[trigger] sorted@[k]).occurred_at
                    > value.occurred_at,
            decreases at,
        {
            at = at - 1;
        }
        proof {
            lemma_insert_by_time_at(sorted@, value, relation_time(), at as int);
        }
        sorted.insert(at, value);
        index = index + 1;
    }
    assert(values@.subrange(0, values@.len() as int) =~= values@);
    sorted
}

/// At most this many records.
pub struct GraphLimit {
    value: usize,
}

/// The first records, and whether more were left out.
pub struct LimitedRecords<T> {
    pub records: Vec<T>,
    pub has_more: bool,
}

impl GraphLimit {
    pub closed spec fn limit(&self) -> usize {
        self.value
    }

    pub fn new(limit: u32) -> (limit_value: Self)
        ensures
            limit_value.limit() == limit,
    {
        GraphLimit { value: limit as usize }
    }

    /// The first `limit` records, and whether there were more.
    pub fn apply<T>(&self, records: Vec<T>) -> (limited_records: LimitedRecords<T>)
        ensures
            limited_records.records@ == limited(records@, self.limit() as int),
            limited_records.has_more == (records@.len() > self.limit()),
    {
        let has_more = records.len() > self.value;
        let mut records = records;
        if has_more {
            records.truncate(self.value);
        }
        LimitedRecords { records, has_more }
    }
}

// ---------------------------------------------------------------------------
// The graph ledger
// ---------------------------------------------------------------------------

/// The selected values, in order.
pub open spec fn thoughts_selected(
    relations: Seq<Relation>,
    filter: ThoughtFilter,
    thoughts: Seq<Thought>,
) -> Seq<Thought>
    decreases thoughts.len(),
{
    if thoughts.len() == 0 {
        Seq::empty()
    } else {
        let rest = thoughts_selected(relations, filter, thoughts.drop_last());
        if thought_selected(relations, filter, thoughts.last()) {
            rest.push(thoughts.last())
        } else {
            rest
        }
    }
}

pub open spec fn relations_selected(filter: RelationFilter, relations: Seq<Relation>) -> Seq<Relation>
    decreases relations.len(),
{
    if relations.len() == 0 {
        Seq::empty()
    } else {
        let rest = relations_selected(filter, relations.drop_last());
        if relation_selected(filter, relations.last()) {
            rest.push(relations.last())
        } else {
            rest
        }
    }
}

/// The position of the first thought with this id, or -1.
pub open spec fn thought_position(thoughts: Seq<Thought>, id: String) -> int
    decreases thoughts.len(),
{
    if thoughts.len() == 0 {
        -1
    } else {
        let found = thought_position(thoughts.drop_last(), id);
        if found >= 0 {
            found
        } else if thoughts.last().id@ == id@ {
            thoughts.len() - 1
        } else {
            -1
        }
    }
}

proof fn lemma_thought_position_none(thoughts: Seq<Thought>, id: String)
    requires
        forall|k: int| 0 <= k < thoughts.len() ==> (#[trigger] thoughts[k]).id@ != id@,
    ensures
        thought_position(thoughts, id) == -1,
    decreases thoughts.len(),
{
    if thoughts.len() > 0 {
        let rest = thoughts.drop_last();
        assert forall|k: int| 0 <= k < rest.len() implies (#[trigger] rest[k]).id@ != id@ by {
            assert(rest[k] == thoughts[k]);
        }
        lemma_thought_position_none(rest, id);
        assert(thoughts[thoughts.len() - 1] == thoughts.last());
    }
}

proof fn lemma_thought_position_at(thoughts: Seq<Thought>, id: String, at: int)
    requires
        0 <= at < thoughts.len(),
        thoughts[at].id@ == id@,
        forall|k: int| 0 <= k < at ==> (#[trigger] thoughts[k]).id@ != id@,
    ensures
        thought_position(thoughts, id) == at,
    decreases thoughts.len(),
{
    let rest = thoughts.drop_last();
    assert forall|k: int| 0 <= k < at && k < rest.len() implies (#[trigger] rest[k]).id@ != id@ by {
        assert(rest[k] == thoughts[k]);
    }
    if at < thoughts.len() - 1 {
        assert(rest[at] == thoughts[at]);
        lemma_thought_position_at(rest, id, at);
    } else {
        lemma_thought_position_none(rest, id);
    }
}

/// Every thought and relation committed so far, and the subscriptions opened on them.
pub struct MindGraphLedger {
    thoughts: Vec<Thought>,
    relations: Vec<Relation>,
    thought_subscriptions: Vec<(String, ThoughtFilter)>,
    relation_subscriptions: Vec<(String, RelationFilter)>,
    next_record: u64,
    next_subscription: u64,
}

/// What appending a thought does: refused when the declared kind is not the body's;
/// otherwise the thought gets the next record id and is stored.
pub open spec fn thought_appended(
    before_thoughts: Seq<Thought>,
    before_next: u64,
    actor: String,
    submission: SubmitThought,
    occurred_at: u64,
    after_thoughts: Seq<Thought>,
    after_next: u64,
    result: core::result::Result<Thought, Error>,
) -> bool {
    if submission.kind != submission.body.kind_of() {
        &&& result == core::result::Result::<Thought, Error>::Err(
            Error::MindGraphThoughtKindMismatch {
                declared: submission.kind,
                actual: submission.body.kind_of(),
            },
        )
        &&& after_thoughts == before_thoughts
        &&& after_next == before_next
    } else {
        &&& result matches Ok(thought)
        &&& thought.id@ == compact_graph_id(before_next)
        &&& thought.kind == submission.kind
        &&& thought.body == submission.body
        &&& thought.author == actor
        &&& thought.occurred_at == occurred_at
        &&& after_thoughts == before_thoughts.push(thought)
        &&& after_next == before_next + 1
    }
}

/// `reply`, `after_thoughts` and `after_next` are what committing `submission` from
/// `actor` at `occurred_at` gives (see `thought_appended`): the new thought's id, or a
/// persistence rejection when the thought is refused.
pub open spec fn thought_committed(
    before_thoughts: Seq<Thought>,
    before_next: u64,
    actor: String,
    submission: SubmitThought,
    occurred_at: u64,
    after_thoughts: Seq<Thought>,
    after_next: u64,
    reply: MindReply,
) -> bool {
    exists|result: core::result::Result<Thought, Error>|
        thought_appended(
            before_thoughts,
            before_next,
            actor,
            submission,
            occurred_at,
            after_thoughts,
            after_next,
            result,
        ) && match result {
            Ok(thought) => reply == MindReply::ThoughtCommitted(
                ThoughtCommitted {
                    record: thought.id,
                    display: thought.id,
                    occurred_at: thought.occurred_at,
                },
            ),
            Err(_) => reply == MindReply::Rejection(
                Rejection { reason: RejectionReason::PersistenceRejected },
            ),
        }
}

/// `reply`, `after_relations` and `after_next` are what committing `submission` from
/// `actor` at `occurred_at` gives: a persistence rejection when an endpoint is
/// missing or the kinds of its endpoints do not fit the relation, with nothing
/// changed; else the submission stored as one more relation, under the next id, with
/// `actor` as its author, and that id answered.
pub open spec fn relation_committed(
    thoughts: Seq<Thought>,
    before_relations: Seq<Relation>,
    before_next: u64,
    actor: String,
    submission: SubmitRelation,
    occurred_at: u64,
    after_relations: Seq<Relation>,
    after_next: u64,
    reply: MindReply,
) -> bool {
    let source = thought_position(thoughts, submission.source);
    let target = thought_position(thoughts, submission.target);
    if source < 0 || target < 0 || !endpoints_allowed(
        submission.kind,
        thoughts[source].kind,
        thoughts[target].kind,
    ) {
        &&& reply == MindReply::Rejection(Rejection { reason: RejectionReason::PersistenceRejected })
        &&& after_relations == before_relations
        &&& after_next == before_next
    } else {
        let relation = after_relations.last();
        &&& after_relations == before_relations.push(relation)
        &&& relation.id@ == compact_graph_id(before_next)
        &&& relation.kind == submission.kind
        &&& relation.source == submission.source
        &&& relation.target == submission.target
        &&& relation.note == submission.note
        &&& relation.author == actor
        &&& relation.occurred_at == occurred_at
        &&& after_next == before_next + 1
        &&& reply == MindReply::RelationCommitted(
            RelationCommitted { relation: relation.id, occurred_at },
        )
    }
}

/// The time a commit reply reports; other replies report none.
pub open spec fn stamp_of(reply: MindReply) -> u64 {
    match reply {
        MindReply::ThoughtCommitted(committed) => committed.occurred_at,
        MindReply::RelationCommitted(committed) => committed.occurred_at,
        _ => 0,
    }
}

impl MindGraphLedger {
    pub closed spec fn thoughts(&self) -> Seq<Thought> {
        self.thoughts@
    }

    pub closed spec fn relations(&self) -> Seq<Relation> {
        self.relations@
    }

    /// The counter that the next record id is minted from.
    pub closed spec fn next_record(&self) -> u64 {
        self.next_record
    }

    /// The counter that the next subscription id is minted from.
    pub closed spec fn next_subscription(&self) -> u64 {
        self.next_subscription
    }

    pub closed spec fn thought_subscriptions(&self) -> Seq<(String, ThoughtFilter)> {
        self.thought_subscriptions@
    }

    pub closed spec fn relation_subscriptions(&self) -> Seq<(String, RelationFilter)> {
        self.relation_subscriptions@
    }

    pub fn new() -> (ledger: Self)
        ensures
            ledger.thoughts() == Seq::<Thought>::empty(),
            ledger.relations() == Seq::<Relation>::empty(),
            ledger.thought_subscriptions() == Seq::<(String, ThoughtFilter)>::empty(),
            ledger.relation_subscriptions() == Seq::<(String, RelationFilter)>::empty(),
            ledger.next_record() == 0,
            ledger.next_subscription() == 0,
    {
        MindGraphLedger {
            thoughts: Vec::new(),
            relations: Vec::new(),
            thought_subscriptions: Vec::new(),
            relation_subscriptions: Vec::new(),
            next_record: 0,
            next_subscription: 0,
        }
    }

    /// The counter that the next record id is minted from.
    pub fn next_record_value(&self) -> (value: u64)
        ensures
            value == self.next_record(),
    {
        self.next_record
    }

    /// The counter that the next subscription id is minted from.
    pub fn next_subscription_value(&self) -> (value: u64)
        ensures
            value == self.next_subscription(),
    {
        self.next_subscription
    }

    fn unimplemented() -> (reply: MindReply)
        ensures
            reply == MindReply::MindRequestUnimplemented(MindUnimplementedReason::NotInPrototypeScope),
    {
        MindReply::MindRequestUnimplemented(MindUnimplementedReason::NotInPrototypeScope)
    }

    fn rejected() -> (reply: MindReply)
        ensures
            reply == MindReply::Rejection(Rejection { reason: RejectionReason::PersistenceRejected }),
    {
        MindReply::Rejection(Rejection { reason: RejectionReason::PersistenceRejected })
    }

    /// Stores a thought from `actor` stamped `occurred_at` (see `thought_appended`).
    pub fn append_thought(
        &mut self,
        actor: String,
        submission: SubmitThought,
        occurred_at: u64,
    ) -> (result: core::result::Result<Thought, Error>)
        requires
            old(self).next_record() < u64::MAX,
        ensures
            thought_appended(
                old(self).thoughts(),
                old(self).next_record(),
                actor,
                submission,
                occurred_at,
                final(self).thoughts(),
                final(self).next_record(),
                result,
            ),
            final(self).relations() == old(self).relations(),
            final(self).thought_subscriptions() == old(self).thought_subscriptions(),
            final(self).relation_subscriptions() == old(self).relation_subscriptions(),
            final(self).next_subscription() == old(self).next_subscription(),
    {
        let actual = submission.body.kind();
        if submission.kind != actual {
            return Err(Error::MindGraphThoughtKindMismatch { declared: submission.kind, actual });
        }
        let id = CompactGraphId::new(self.next_record).into_string();
        self.next_record = self.next_record + 1;
        let thought = Thought {
            id,
            kind: submission.kind,
            body: submission.body,
            author: actor,
            occurred_at,
        };
        self.thoughts.push(thought.duplicate());
        Ok(thought)
    }

    fn read_thought(&self, record: &String) -> (result: core::result::Result<Thought, Error>)
        ensures
            ({
                let found = thought_position(self.thoughts(), *record);
                if found < 0 {
                    result == core::result::Result::<Thought, Error>::Err(
                        Error::MindGraphMissingRecord { record: *record },
                    )
                } else {
                    result == core::result::Result::<Thought, Error>::Ok(self.thoughts()[found])
                }
            }),
    {
        let mut index: usize = 0;
        while index < self.thoughts.len()
            invariant
                index <= self.thoughts.len(),
                forall|k: int| 0 <= k < index ==> (#[trigger] self.thoughts@[k]).id@ != record@,
            decreases self.thoughts.len() - index,
        {
            if self.thoughts[index].id == *record {
                proof {
                    lemma_thought_position_at(self.thoughts@, *record, index as int);
                }
                return Ok(self.thoughts[index].duplicate());
            }
            index = index + 1;
        }
        proof {
            lemma_thought_position_none(self.thoughts@, *record);
        }
        Err(Error::MindGraphMissingRecord { record: record.clone() })
    }

    /// Stores a relation from `actor` stamped `occurred_at`. Refused when either end
    /// names no thought, or when the relation's kind may not join thoughts of those
    /// kinds (see `endpoints_allowed`); otherwise it gets the next record id.
    pub fn append_relation(
        &mut self,
        actor: String,
        submission: SubmitRelation,
        occurred_at: u64,
    ) -> (result: core::result::Result<Relation, Error>)
        requires
            old(self).next_record() < u64::MAX,
        ensures
            ({
                let thoughts = old(self).thoughts();
                let source = thought_position(thoughts, submission.source);
                let target = thought_position(thoughts, submission.target);
                if source < 0 {
                    &&& result == core::result::Result::<Relation, Error>::Err(
                        Error::MindGraphMissingRecord { record: submission.source },
                    )
                    &&& final(self).relations() == old(self).relations()
                    &&& final(self).next_record() == old(self).next_record()
                } else if target < 0 {
                    &&& result == core::result::Result::<Relation, Error>::Err(
                        Error::MindGraphMissingRecord { record: submission.target },
                    )
                    &&& final(self).relations() == old(self).relations()
                    &&& final(self).next_record() == old(self).next_record()
                } else if !endpoints_allowed(submission.kind, thoughts[source].kind, thoughts[target].kind) {
                    &&& result == core::result::Result::<Relation, Error>::Err(
                        Error::MindGraphRelationKindMismatch {
                            kind: submission.kind,
                            source: thoughts[source].kind,
                            target: thoughts[target].kind,
                        },
                    )
                    &&& final(self).relations() == old(self).relations()
                    &&& final(self).next_record() == old(self).next_record()
                } else {
                    &&& result matches Ok(relation)
                    &&& relation.id@ == compact_graph_id(old(self).next_record())
                    &&& relation.kind == submission.kind
                    &&& relation.source == submission.source
                    &&& relation.target == submission.target
                    &&& relation.author == actor
                    &&& relation.occurred_at == occurred_at
                    &&& relation.note == submission.note
                    &&& final(self).relations() == old(self).relations().push(relation)
                    &&& final(self).next_record() == old(self).next_record() + 1
                }
            }),
            final(self).thoughts() == old(self).thoughts(),
            final(self).thought_subscriptions() == old(self).thought_subscriptions(),
            final(self).relation_subscriptions() == old(self).relation_subscriptions(),
            final(self).next_subscription() == old(self).next_subscription(),
    {
        let source = match self.read_thought(&submission.source) {
            Ok(thought) => thought,
            Err(error) => {
                return Err(error);
            },
        };
        let target = match self.read_thought(&submission.target) {
            Ok(thought) => thought,
            Err(error) => {
                return Err(error);
            },
        };
        if !submission.kind.validate_endpoints(source.kind, target.kind) {
            return Err(
                Error::MindGraphRelationKindMismatch {
                    kind: submission.kind,
                    source: source.kind,
                    target: target.kind,
                },
            );
        }
        let id = CompactGraphId::new(self.next_record).into_string();
        self.next_record = self.next_record + 1;
        let relation = Relation {
            id,
            kind: submission.kind,
            source: submission.source,
            target: submission.target,
            author: actor,
            occurred_at,
            note: submission.note,
        };
        self.relations.push(relation.duplicate());
        Ok(relation)
    }

    fn all_relations(&self) -> (relations: Vec<Relation>)
        ensures
            relations@ == self.relations(),
    {
        let mut relations: Vec<Relation> = Vec::new();
        let mut index: usize = 0;
        while index < self.relations.len()
            invariant
                index <= self.relations.len(),
                relations@ == self.relations@.subrange(0, index as int),
            decreases self.relations.len() - index,
        {
            relations.push(self.relations[index].duplicate());
            index = index + 1;
        }
        relations
    }

    fn select_thoughts(&self, selector: &ThoughtSelector) -> (chosen: Vec<Thought>)
        ensures
            chosen@ == thoughts_selected(selector.relations(), selector.filter(), self.thoughts()),
    {
        let mut chosen: Vec<Thought> = Vec::new();
        let mut index: usize = 0;
        while index < self.thoughts.len()
            invariant
                index <= self.thoughts.len(),
                chosen@ == thoughts_selected(
                    selector.relations(),
                    selector.filter(),
                    self.thoughts@.subrange(0, index as int),
                ),
            decreases self.thoughts.len() - index,
        {
            assert(self.thoughts@.subrange(0, index as int + 1).drop_last() =~= self.thoughts@.subrange(
                0,
                index as int,
            ));
            if selector.accepts(&self.thoughts[index]) {
                chosen.push(self.thoughts[index].duplicate());
            }
            index = index + 1;
        }
        assert(self.thoughts@.subrange(0, self.thoughts@.len() as int) =~= self.thoughts@);
        chosen
    }

    fn select_relations(&self, selector: &RelationSelector) -> (chosen: Vec<Relation>)
        ensures
            chosen@ == relations_selected(selector.filter(), self.relations()),
    {
        let mut chosen: Vec<Relation> = Vec::new();
        let mut index: usize = 0;
        while index < self.relations.len()
            invariant
                index <= self.relations.len(),
                chosen@ == relations_selected(
                    selector.filter(),
                    self.relations@.subrange(0, index as int),
                ),
            decreases self.relations.len() - index,
        {
            assert(self.relations@.subrange(0, index as int + 1).drop_last()
                =~= self.relations@.subrange(0, index as int));
            if selector.accepts(&self.relations[index]) {
                chosen.push(self.relations[index].duplicate());
            }
            index = index + 1;
        }
        assert(self.relations@.subrange(0, self.relations@.len() as int) =~= self.relations@);
        chosen
    }

    /// The current thoughts that the query's filter accepts, oldest first, at most
    /// `limit` of them, and whether more were left out.
    pub fn read_thoughts(&self, query: crate::contract::QueryThoughts) -> (reply: MindReply)
        ensures
            ({
                let matches = sort_by_time(
                    thoughts_selected(self.relations(), query.filter, self.thoughts()),
                    thought_time(),
                );
                &&& reply matches MindReply::ThoughtList(list)
                &&& list.thoughts@ == limited(matches, query.limit as int)
                &&& list.has_more == (matches.len() > query.limit)
            }),
    {
        let selector = ThoughtSelector::new(query.filter, self.all_relations());
        let matches = sort_thoughts_by_time(self.select_thoughts(&selector));
        let limited_records = GraphLimit::new(query.limit).apply(matches);
        MindReply::ThoughtList(
            ThoughtList { thoughts: limited_records.records, has_more: limited_records.has_more },
        )
    }

    /// The relations that the query's filter accepts, oldest first, at most `limit` of
    /// them, and whether more were left out.
    pub fn read_relations(&self, query: crate::contract::QueryRelations) -> (reply: MindReply)
        ensures
            ({
                let matches = sort_by_time(relations_selected(query.filter, self.relations()), relation_time());
                &&& reply matches MindReply::RelationList(list)
                &&& list.relations@ == limited(matches, query.limit as int)
                &&& list.has_more == (matches.len() > query.limit)
            }),
    {
        let selector = RelationSelector::new(query.filter);
        let matches = sort_relations_by_time(self.select_relations(&selector));
        let limited_records = GraphLimit::new(query.limit).apply(matches);
        MindReply::RelationList(
            RelationList { relations: limited_records.records, has_more: limited_records.has_more },
        )
    }

    /// Registers a thought subscription under the next subscription id and answers
    /// the current thoughts that its filter accepts.
    pub fn open_thought_subscription(&mut self, filter: ThoughtFilter) -> (reply: MindReply)
        requires
            old(self).next_subscription() < u64::MAX,
        ensures
            reply matches MindReply::SubscriptionAccepted(accepted)
                && accepted.subscription@ == compact_graph_id(old(self).next_subscription())
                && accepted.initial_snapshot@ == thoughts_selected(
                old(self).relations(),
                filter,
                old(self).thoughts(),
            ).map_values(|thought: Thought| MindSnapshot::Thought(thought))
                && final(self).thought_subscriptions() == old(self).thought_subscriptions().push(
                (accepted.subscription, filter),
            ),
            final(self).next_subscription() == old(self).next_subscription() + 1,
            final(self).thoughts() == old(self).thoughts(),
            final(self).relations() == old(self).relations(),
            final(self).relation_subscriptions() == old(self).relation_subscriptions(),
            final(self).next_record() == old(self).next_record(),
    {
        let subscription = CompactGraphId::new(self.next_subscription).into_string();
        self.next_subscription = self.next_subscription + 1;
        let selector = ThoughtSelector::new(filter, self.all_relations());
        let chosen = self.select_thoughts(&selector);
        let mut initial_snapshot: Vec<MindSnapshot> = Vec::new();
        let mut index: usize = 0;
        while index < chosen.len()
            invariant
                index <= chosen.len(),
                initial_snapshot@ == chosen@.subrange(0, index as int).map_values(
                    |thought: Thought| MindSnapshot::Thought(thought),
                ),
            decreases chosen.len() - index,
        {
            initial_snapshot.push(MindSnapshot::Thought(chosen[index].duplicate()));
            assert(initial_snapshot@ =~= chosen@.subrange(0, index as int + 1).map_values(
                |thought: Thought| MindSnapshot::Thought(thought),
            ));
            index = index + 1;
        }
        assert(chosen@.subrange(0, chosen@.len() as int) =~= chosen@);
        self.thought_subscriptions.push((subscription.clone(), selector.filter));
        MindReply::SubscriptionAccepted(SubscriptionAccepted { subscription, initial_snapshot })
    }

    /// Registers a relation subscription under the next subscription id and answers
    /// the relations that its filter accepts.
    pub fn open_relation_subscription(&mut self, filter: RelationFilter) -> (reply: MindReply)
        requires
            old(self).next_subscription() < u64::MAX,
        ensures
            reply matches MindReply::SubscriptionAccepted(accepted)
                && accepted.subscription@ == compact_graph_id(old(self).next_subscription())
                && accepted.initial_snapshot@ == relations_selected(filter, old(self).relations())
                .map_values(|relation: Relation| MindSnapshot::Relation(relation))
                && final(self).relation_subscriptions() == old(self).relation_subscriptions().push(
                (accepted.subscription, filter),
            ),
            final(self).next_subscription() == old(self).next_subscription() + 1,
            final(self).thoughts() == old(self).thoughts(),
            final(self).relations() == old(self).relations(),
            final(self).thought_subscriptions() == old(self).thought_subscriptions(),
            final(self).next_record() == old(self).next_record(),
    {
        let subscription = CompactGraphId::new(self.next_subscription).into_string();
        self.next_subscription = self.next_subscription + 1;
        let selector = RelationSelector::new(filter);
        let chosen = self.select_relations(&selector);
        let mut initial_snapshot: Vec<MindSnapshot> = Vec::new();
        let mut index: usize = 0;
        while index < chosen.len()
            invariant
                index <= chosen.len(),
                initial_snapshot@ == chosen@.subrange(0, index as int).map_values(
                    |relation: Relation| MindSnapshot::Relation(relation),
                ),
            decreases chosen.len() - index,
        {
            initial_snapshot.push(MindSnapshot::Relation(chosen[index].duplicate()));
            assert(initial_snapshot@ =~= chosen@.subrange(0, index as int + 1).map_values(
                |relation: Relation| MindSnapshot::Relation(relation),
            ));
            index = index + 1;
        }
        assert(chosen@.subrange(0, chosen@.len() as int) =~= chosen@);
        self.relation_subscriptions.push((subscription.clone(), selector.filter));
        MindReply::SubscriptionAccepted(SubscriptionAccepted { subscription, initial_snapshot })
    }

    /// Commits a thought stamped `occurred_at` and answers its record id; a refused
    /// thought is answered with a persistence rejection.
    pub fn commit_thought(
        &mut self,
        actor: String,
        submission: SubmitThought,
        occurred_at: u64,
    ) -> (reply: MindReply)
        requires
            old(self).next_record() < u64::MAX,
        ensures
            thought_committed(
                old(self).thoughts(),
                old(self).next_record(),
                actor,
                submission,
                occurred_at,
                final(self).thoughts(),
                final(self).next_record(),
                reply,
            ),
            final(self).relations() == old(self).relations(),
            final(self).thought_subscriptions() == old(self).thought_subscriptions(),
            final(self).relation_subscriptions() == old(self).relation_subscriptions(),
            final(self).next_subscription() == old(self).next_subscription(),
    {
        let result = self.append_thought(actor, submission, occurred_at);
        match result {
            Ok(thought) => {
                let display = thought.id.clone();
                let reply = MindReply::ThoughtCommitted(
                    ThoughtCommitted { record: thought.id, display, occurred_at: thought.occurred_at },
                );
                reply
            },
            Err(_) => Self::rejected(),
        }
    }

    /// Commits a relation stamped `occurred_at` and answers its id; a refused relation
    /// is answered with a persistence rejection.
    pub fn commit_relation(
        &mut self,
        actor: String,
        submission: SubmitRelation,
        occurred_at: u64,
    ) -> (reply: MindReply)
        requires
            old(self).next_record() < u64::MAX,
        ensures
            relation_committed(
                old(self).thoughts(),
                old(self).relations(),
                old(self).next_record(),
                actor,
                submission,
                occurred_at,
                final(self).relations(),
                final(self).next_record(),
                reply,
            ),
            final(self).thoughts() == old(self).thoughts(),
            final(self).thought_subscriptions() == old(self).thought_subscriptions(),
            final(self).relation_subscriptions() == old(self).relation_subscriptions(),
            final(self).next_subscription() == old(self).next_subscription(),
    {
        match self.append_relation(actor, submission, occurred_at) {
            Ok(relation) => MindReply::RelationCommitted(
                RelationCommitted { relation: relation.id, occurred_at: relation.occurred_at },
            ),
            Err(_) => Self::rejected(),
        }
    }

    /// Serves a thought submission, stamped with the clock; a clock before the epoch
    /// is answered with a persistence rejection. Any other request is answered as
    /// unimplemented.
    pub fn submit_thought(&mut self, envelope: MindEnvelope) -> (reply: MindReply)
        requires
            old(self).next_record() < u64::MAX,
        ensures
            match envelope.request {
                MindRequest::SubmitThought(submission) => thought_committed(
                    old(self).thoughts(),
                    old(self).next_record(),
                    envelope.actor,
                    submission,
                    stamp_of(reply),
                    final(self).thoughts(),
                    final(self).next_record(),
                    reply,
                ) || (reply == MindReply::Rejection(
                    Rejection { reason: RejectionReason::PersistenceRejected },
                ) && final(self).thoughts() == old(self).thoughts() && final(self).next_record()
                    == old(self).next_record()),
                _ => reply == MindReply::MindRequestUnimplemented(
                    MindUnimplementedReason::NotInPrototypeScope,
                ) && final(self).thoughts() == old(self).thoughts(),
            },
            final(self).relations() == old(self).relations(),
    {
        let MindEnvelope { actor, request } = envelope;
        match request {
            MindRequest::SubmitThought(submission) => match StoreClock::system().timestamp() {
                Ok(stamp) => {
                    let ghost author = actor;
                    let ghost submitted = submission;
                    let ghost before = self.thoughts@;
                    let ghost before_next = self.next_record;
                    let reply = self.commit_thought(actor, submission, stamp);
                    assert(thought_committed(
                        before,
                        before_next,
                        author,
                        submitted,
                        stamp,
                        self.thoughts@,
                        self.next_record,
                        reply,
                    ));
                    reply
                },
                Err(_) => Self::rejected(),
            },
            _ => Self::unimplemented(),
        }
    }

    /// Serves a relation submission, stamped with the clock; a clock before the epoch
    /// is answered with a persistence rejection. Any other request is answered as
    /// unimplemented.
    pub fn submit_relation(&mut self, envelope: MindEnvelope) -> (reply: MindReply)
        requires
            old(self).next_record() < u64::MAX,
        ensures
            match envelope.request {
                MindRequest::SubmitRelation(submission) => relation_committed(
                    old(self).thoughts(),
                    old(self).relations(),
                    old(self).next_record(),
                    envelope.actor,
                    submission,
                    stamp_of(reply),
                    final(self).relations(),
                    final(self).next_record(),
                    reply,
                ) || (reply == MindReply::Rejection(
                    Rejection { reason: RejectionReason::PersistenceRejected },
                ) && final(self).relations() == old(self).relations() && final(self).next_record()
                    == old(self).next_record()),
                _ => reply == MindReply::MindRequestUnimplemented(
                    MindUnimplementedReason::NotInPrototypeScope,
                ) && final(self).relations() == old(self).relations(),
            },
            final(self).thoughts() == old(self).thoughts(),
    {
        let MindEnvelope { actor, request } = envelope;
        match request {
            MindRequest::SubmitRelation(submission) => match StoreClock::system().timestamp() {
                Ok(stamp) => {
                    let ghost author = actor;
                    let ghost submitted = submission;
                    let ghost thoughts = self.thoughts@;
                    let ghost before = self.relations@;
                    let ghost before_next = self.next_record;
                    let reply = self.commit_relation(actor, submission, stamp);
                    assert(relation_committed(
                        thoughts,
                        before,
                        before_next,
                        author,
                        submitted,
                        stamp,
                        self.relations@,
                        self.next_record,
                        reply,
                    ));
                    reply
                },
                Err(_) => Self::rejected(),
            },
            _ => Self::unimplemented(),
        }
    }

    /// Serves a thought query; any other request is answered as unimplemented.
    pub fn query_thoughts(&self, envelope: MindEnvelope) -> (reply: MindReply)
        ensures
            match envelope.request {
                MindRequest::QueryThoughts(query) => {
                    let matches = sort_by_time(
                        thoughts_selected(self.relations(), query.filter, self.thoughts()),
                        thought_time(),
                    );
                    &&& reply matches MindReply::ThoughtList(list)
                    &&& list.thoughts@ == limited(matches, query.limit as int)
                    &&& list.has_more == (matches.len() > query.limit)
                },
                _ => reply == MindReply::MindRequestUnimplemented(
                    MindUnimplementedReason::NotInPrototypeScope,
                ),
            },
    {
        match envelope.request {
            MindRequest::QueryThoughts(query) => self.read_thoughts(query),
            _ => Self::unimplemented(),
        }
    }

    /// Serves a relation query; any other request is answered as unimplemented.
    pub fn query_relations(&self, envelope: MindEnvelope) -> (reply: MindReply)
        ensures
            match envelope.request {
                MindRequest::QueryRelations(query) => {
                    let matches = sort_by_time(
                        relations_selected(query.filter, self.relations()),
                        relation_time(),
                    );
                    &&& reply matches MindReply::RelationList(list)
                    &&& list.relations@ == limited(matches, query.limit as int)
                    &&& list.has_more == (matches.len() > query.limit)
                },
                _ => reply == MindReply::MindRequestUnimplemented(
                    MindUnimplementedReason::NotInPrototypeScope,
                ),
            },
    {
        match envelope.request {
            MindRequest::QueryRelations(query) => self.read_relations(query),
            _ => Self::unimplemented(),
        }
    }

    /// Serves a thought subscription (see `open_thought_subscription`); any other
    /// request is answered as unimplemented.
    pub fn subscribe_thoughts(&mut self, envelope: MindEnvelope) -> (reply: MindReply)
        requires
            old(self).next_subscription() < u64::MAX,
        ensures
            match envelope.request {
                MindRequest::SubscribeThoughts(subscription) => {
                    &&& reply matches MindReply::SubscriptionAccepted(accepted)
                    &&& accepted.subscription@ == compact_graph_id(old(self).next_subscription())
                    &&& accepted.initial_snapshot@ == thoughts_selected(
                        old(self).relations(),
                        subscription.filter,
                        old(self).thoughts(),
                    ).map_values(|thought: Thought| MindSnapshot::Thought(thought))
                    &&& final(self).thought_subscriptions() == old(self).thought_subscriptions().push(
                        (accepted.subscription, subscription.filter),
                    )
                    &&& final(self).next_subscription() == old(self).next_subscription() + 1
                },
                _ => reply == MindReply::MindRequestUnimplemented(
                    MindUnimplementedReason::NotInPrototypeScope,
                ) && final(self).thought_subscriptions() == old(self).thought_subscriptions()
                    && final(self).next_subscription() == old(self).next_subscription(),
            },
            final(self).thoughts() == old(self).thoughts(),
            final(self).relations() == old(self).relations(),
            final(self).relation_subscriptions() == old(self).relation_subscriptions(),
    {
        match envelope.request {
            MindRequest::SubscribeThoughts(subscription) => self.open_thought_subscription(
                subscription.filter,
            ),
            _ => Self::unimplemented(),
        }
    }

    /// Serves a relation subscription (see `open_relation_subscription`); any other
    /// request is answered as unimplemented.
    pub fn subscribe_relations(&mut self, envelope: MindEnvelope) -> (reply: MindReply)
        requires
            old(self).next_subscription() < u64::MAX,
        ensures
            match envelope.request {
                MindRequest::SubscribeRelations(subscription) => {
                    &&& reply matches MindReply::SubscriptionAccepted(accepted)
                    &&& accepted.subscription@ == compact_graph_id(old(self).next_subscription())
                    &&& accepted.initial_snapshot@ == relations_selected(
                        subscription.filter,
                        old(self).relations(),
                    ).map_values(|relation: Relation| MindSnapshot::Relation(relation))
                    &&& final(self).relation_subscriptions() == old(self).relation_subscriptions().push(
                        (accepted.subscription, subscription.filter),
                    )
                    &&& final(self).next_subscription() == old(self).next_subscription() + 1
                },
                _ => reply == MindReply::MindRequestUnimplemented(
                    MindUnimplementedReason::NotInPrototypeScope,
                ) && final(self).relation_subscriptions() == old(self).relation_subscriptions()
                    && final(self).next_subscription() == old(self).next_subscription(),
            },
            final(self).thoughts() == old(self).thoughts(),
            final(self).relations() == old(self).relations(),
            final(self).thought_subscriptions() == old(self).thought_subscriptions(),
    {
        match envelope.request {
            MindRequest::SubscribeRelations(subscription) => self.open_relation_subscription(
                subscription.filter,
            ),
            _ => Self::unimplemented(),
        }
    }
}

/// A superseded thought is never selected, whatever the filter.
pub proof fn lemma_superseded_thought_excluded(
    relations: Seq<Relation>,
    filter: ThoughtFilter,
    thought: Thought,
)
    requires
        superseded(relations, thought),
    ensures
        !thought_selected(relations, filter, thought),
{
}

/// A thought belongs to a goal or a memory through a `Belongs` relation whose source
/// is the thought and whose target is the goal or memory: a current thought with such
/// a relation is selected by `InGoal` and `InMemory` of that target.
pub proof fn lemma_belongs_source_is_member(
    relations: Seq<Relation>,
    thought: Thought,
    relation: int,
    container: String,
)
    requires
        0 <= relation < relations.len(),
        relations[relation].kind == RelationKind::Belongs,
        relations[relation].source@ == thought.id@,
        relations[relation].target@ == container@,
        !superseded(relations, thought),
    ensures
        thought_selected(relations, ThoughtFilter::InGoal(container), thought),
        thought_selected(relations, ThoughtFilter::InMemory(container), thought),
{
}

/// `InGoal` selects only the goal itself and the thoughts that are the source of a
/// `Belongs` relation to it.
pub proof fn lemma_in_goal_selects_only_members(relations: Seq<Relation>, thought: Thought, container: String)
    requires
        thought_selected(relations, ThoughtFilter::InGoal(container), thought),
    ensures
        thought.id@ == container@ || exists|index: int|
            0 <= index < relations.len() && relations[index].kind == RelationKind::Belongs
                && #[trigger] relations[index].source@ == thought.id@ && relations[index].target@
                == container@,
{
}

/// Selection keeps exactly the thoughts it selects, in their order: a thought of the
/// store that the filter selects is in the answer.
pub proof fn lemma_selected_thought_listed(
    relations: Seq<Relation>,
    filter: ThoughtFilter,
    thoughts: Seq<Thought>,
    index: int,
)
    requires
        0 <= index < thoughts.len(),
        thought_selected(relations, filter, thoughts[index]),
    ensures
        thoughts_selected(relations, filter, thoughts).contains(thoughts[index]),
    decreases thoughts.len(),
{
    let rest = thoughts.drop_last();
    if index < thoughts.len() - 1 {
        assert(rest[index] == thoughts[index]);
        lemma_selected_thought_listed(relations, filter, rest, index);
        let tail = thoughts_selected(relations, filter, rest);
        let at = choose|at: int| 0 <= at < tail.len() && tail[at] == thoughts[index];
        if thought_selected(relations, filter, thoughts.last()) {
            assert(thoughts_selected(relations, filter, thoughts)[at] == thoughts[index]);
        }
    } else {
        let whole = thoughts_selected(relations, filter, thoughts);
        assert(whole[whole.len() - 1] == thoughts[index]);
    }
}

/// Sorting by time keeps the number of values.
pub proof fn lemma_sort_by_time_len<A>(values: Seq<A>, time: spec_fn(A) -> u64)
    ensures
        sort_by_time(values, time).len() == values.len(),
    decreases values.len(),
{
    if values.len() > 0 {
        lemma_sort_by_time_len(values.drop_last(), time);
        lemma_insert_by_time_len(sort_by_time(values.drop_last(), time), values.last(), time);
    }
}

proof fn lemma_insert_by_time_len<A>(sorted: Seq<A>, value: A, time: spec_fn(A) -> u64)
    ensures
        insert_by_time(sorted, value, time).len() == sorted.len() + 1,
    decreases sorted.len(),
{
    if sorted.len() > 0 && time(sorted.last()) > time(value) {
        lemma_insert_by_time_len(sorted.drop_last(), value, time);
    }
}

} // verus!
