//! The mind's request and reply records.
//!
//! Every public operation of the mind enters as one `MindRequest` and is
//! answered with one `MindReply`. Identifiers, paths, tokens, reasons and
//! bodies are carried as plain strings; kinds, statuses and roles are enums.

use vstd::prelude::*;

verus! {

/// The roles that can hold claims, in their canonical order.
#[derive(Debug, Clone, Copy, PartialEq, Eq, Hash, Structural)]
pub enum RoleName {
    Operator,
    OperatorAssistant,
    Designer,
    DesignerAssistant,
    SystemSpecialist,
    SystemAssistant,
    Poet,
    PoetAssistant,
}

/// Every role, in canonical order.
pub open spec fn all_roles() -> Seq<RoleName> {
    seq![
        RoleName::Operator,
        RoleName::OperatorAssistant,
        RoleName::Designer,
        RoleName::DesignerAssistant,
        RoleName::SystemSpecialist,
        RoleName::SystemAssistant,
        RoleName::Poet,
        RoleName::PoetAssistant,
    ]
}

impl RoleName {
    /// Every role, in canonical order.
    pub fn all() -> (roles: Vec<RoleName>)
        ensures
            roles@ == all_roles(),
    {
        let roles = vec![
            RoleName::Operator,
            RoleName::OperatorAssistant,
            RoleName::Designer,
            RoleName::DesignerAssistant,
            RoleName::SystemSpecialist,
            RoleName::SystemAssistant,
            RoleName::Poet,
            RoleName::PoetAssistant,
        ];
        assert(roles@ =~= all_roles());
        roles
    }
}

/// What a claim or an activity is about: an absolute path or a task token.
#[derive(Debug, Clone, PartialEq, Eq)]
pub enum ScopeReference {
    Path(String),
    Task(String),
}

impl ScopeReference {
    pub fn duplicate(&self) -> (copy: Self)
        ensures
            copy == *self,
    {
        match self {
            ScopeReference::Path(path) => ScopeReference::Path(path.clone()),
            ScopeReference::Task(token) => ScopeReference::Task(token.clone()),
        }
    }
}

/// Clones every scope of a vector.
pub fn duplicate_scopes(scopes: &Vec<ScopeReference>) -> (copy: Vec<ScopeReference>)
    ensures
        copy@ == scopes@,
{
    let mut copy: Vec<ScopeReference> = Vec::new();
    let mut index: usize = 0;
    while index < scopes.len()
        invariant
            index <= scopes.len(),
            copy@ == scopes@.subrange(0, index as int),
        decreases scopes.len() - index,
    {
        copy.push(scopes[index].duplicate());
        index = index + 1;
    }
    assert(copy@ =~= scopes@);
    copy
}

pub fn duplicate_strings(values: &Vec<String>) -> (copy: Vec<String>)
    ensures
        copy@ == values@,
{
    let mut copy: Vec<String> = Vec::new();
    let mut index: usize = 0;
    while index < values.len()
        invariant
            index <= values.len(),
            copy@ == values@.subrange(0, index as int),
        decreases values.len() - index,
    {
        copy.push(values[index].clone());
        index = index + 1;
    }
    assert(copy@ =~= values@);
    copy
}

pub fn duplicate_optional_string(value: &Option<String>) -> (copy: Option<String>)
    ensures
        copy == *value,
{
    match value {
        Some(text) => Some(text.clone()),
        None => None,
    }
}

// ---------------------------------------------------------------------------
// Claims
// ---------------------------------------------------------------------------

#[derive(Debug, Clone, PartialEq, Eq)]
pub struct RoleClaim {
    pub role: RoleName,
    pub scopes: Vec<ScopeReference>,
    pub reason: String,
}

#[derive(Debug, Clone, Copy, PartialEq, Eq)]
pub struct RoleRelease {
    pub role: RoleName,
}

#[derive(Debug, Clone, PartialEq, Eq)]
pub struct RoleHandoff {
    pub from: RoleName,
    pub to: RoleName,
    pub scopes: Vec<ScopeReference>,
    pub reason: String,
}

#[derive(Debug, Clone, Copy, PartialEq, Eq)]
pub struct RoleObservation {}

#[derive(Debug, Clone, PartialEq, Eq)]
pub struct ClaimAcceptance {
    pub role: RoleName,
    pub scopes: Vec<ScopeReference>,
}

#[derive(Debug, Clone, PartialEq, Eq)]
pub struct ScopeConflict {
    pub scope: ScopeReference,
    pub held_by: RoleName,
    pub held_reason: String,
}

#[derive(Debug, Clone, PartialEq, Eq)]
pub struct ClaimRejection {
    pub role: RoleName,
    pub conflicts: Vec<ScopeConflict>,
}

#[derive(Debug, Clone, PartialEq, Eq)]
pub struct ReleaseAcknowledgment {
    pub role: RoleName,
    pub released_scopes: Vec<ScopeReference>,
}

#[derive(Debug, Clone, PartialEq, Eq)]
pub struct HandoffAcceptance {
    pub from: RoleName,
    pub to: RoleName,
    pub scopes: Vec<ScopeReference>,
}

#[derive(Debug, Clone, PartialEq, Eq)]
pub enum HandoffRejectionReason {
    SourceRoleDoesNotHold,
    TargetRoleConflict(Vec<ScopeConflict>),
}

#[derive(Debug, Clone, PartialEq, Eq)]
pub struct HandoffRejection {
    pub from: RoleName,
    pub to: RoleName,
    pub reason: HandoffRejectionReason,
}

#[derive(Debug, Clone, PartialEq, Eq)]
pub struct ClaimEntry {
    pub scope: ScopeReference,
    pub reason: String,
}

#[derive(Debug, Clone, PartialEq, Eq)]
pub struct RoleStatus {
    pub role: RoleName,
    pub claims: Vec<ClaimEntry>,
}

#[derive(Debug, Clone, PartialEq, Eq)]
pub struct RoleSnapshot {
    pub roles: Vec<RoleStatus>,
    pub recent_activity: Vec<Activity>,
}

// ---------------------------------------------------------------------------
// Activity
// ---------------------------------------------------------------------------

#[derive(Debug, Clone, PartialEq, Eq)]
pub struct ActivitySubmission {
    pub role: RoleName,
    pub scope: ScopeReference,
    pub reason: String,
}

#[derive(Debug, Clone, PartialEq, Eq)]
pub enum ActivityFilter {
    RoleFilter(RoleName),
    PathPrefix(String),
    TaskToken(String),
}

#[derive(Debug, Clone, PartialEq, Eq)]
pub struct ActivityQuery {
    pub limit: u32,
    pub filters: Vec<ActivityFilter>,
}

#[derive(Debug, Clone, PartialEq, Eq)]
pub struct Activity {
    pub role: RoleName,
    pub scope: ScopeReference,
    pub reason: String,
    pub stamped_at: u64,
}

#[derive(Debug, Clone, Copy, PartialEq, Eq)]
pub struct ActivityAcknowledgment {
    pub slot: u64,
}

#[derive(Debug, Clone, PartialEq, Eq)]
pub struct ActivityList {
    pub records: Vec<Activity>,
}

// ---------------------------------------------------------------------------
// Memory and work graph
// ---------------------------------------------------------------------------

#[derive(Debug, Clone, Copy, PartialEq, Eq, Structural)]
pub enum ItemKind {
    Task,
    Defect,
    Question,
    Decision,
    Note,
    Handoff,
}

#[derive(Debug, Clone, Copy, PartialEq, Eq, Structural)]
pub enum ItemPriority {
    Critical,
    High,
    Normal,
    Low,
    Backlog,
}

#[derive(Debug, Clone, Copy, PartialEq, Eq, Structural)]
pub enum ItemStatus {
    Open,
    InProgress,
    Blocked,
    Closed,
    Deferred,
}

#[derive(Debug, Clone, Copy, PartialEq, Eq, Structural)]
pub enum EdgeKind {
    DependsOn,
    ParentOf,
    RelatesTo,
    Duplicates,
    Supersedes,
    Answers,
    References,
}

/// Something outside the graph that an edge can point at.
#[derive(Debug, Clone, PartialEq, Eq)]
pub enum ExternalReference {
    Report(String),
    GitCommit(String),
    BeadsTask(String),
    File(String),
}

impl ExternalReference {
    pub fn duplicate(&self) -> (copy: Self)
        ensures
            copy == *self,
    {
        match self {
            ExternalReference::Report(path) => ExternalReference::Report(path.clone()),
            ExternalReference::GitCommit(hash) => ExternalReference::GitCommit(hash.clone()),
            ExternalReference::BeadsTask(token) => ExternalReference::BeadsTask(token.clone()),
            ExternalReference::File(path) => ExternalReference::File(path.clone()),
        }
    }
}

/// A way to name an item: its stable id, its display id, or one of its aliases.
#[derive(Debug, Clone, PartialEq, Eq)]
pub enum ItemReference {
    Stable(String),
    Display(String),
    Alias(String),
}

#[derive(Debug, Clone, PartialEq, Eq)]
pub enum LinkTarget {
    Item(ItemReference),
    External(ExternalReference),
}

#[derive(Debug, Clone, PartialEq, Eq)]
pub enum EdgeTarget {
    Item(String),
    External(ExternalReference),
}

impl EdgeTarget {
    pub fn duplicate(&self) -> (copy: Self)
        ensures
            copy == *self,
    {
        match self {
            EdgeTarget::Item(id) => EdgeTarget::Item(id.clone()),
            EdgeTarget::External(external) => EdgeTarget::External(external.duplicate()),
        }
    }
}

#[derive(Debug, Clone, PartialEq, Eq)]
pub struct Item {
    pub id: String,
    pub display_id: String,
    pub aliases: Vec<String>,
    pub kind: ItemKind,
    pub status: ItemStatus,
    pub priority: ItemPriority,
    pub title: String,
    pub body: String,
}

/// An item with its aliases as a sequence.
pub struct ItemView {
    pub id: String,
    pub display_id: String,
    pub aliases: Seq<String>,
    pub kind: ItemKind,
    pub status: ItemStatus,
    pub priority: ItemPriority,
    pub title: String,
    pub body: String,
}

impl View for Item {
    type V = ItemView;

    open spec fn view(&self) -> ItemView {
        ItemView {
            id: self.id,
            display_id: self.display_id,
            aliases: self.aliases@,
            kind: self.kind,
            status: self.status,
            priority: self.priority,
            title: self.title,
            body: self.body,
        }
    }
}

impl Item {
    pub fn duplicate(&self) -> (copy: Self)
        ensures
            copy@ == self@,
    {
        Item {
            id: self.id.clone(),
            display_id: self.display_id.clone(),
            aliases: duplicate_strings(&self.aliases),
            kind: self.kind,
            status: self.status,
            priority: self.priority,
            title: self.title.clone(),
            body: self.body.clone(),
        }
    }
}

#[derive(Debug, Clone, PartialEq, Eq)]
pub struct Edge {
    pub event: u64,
    pub source: String,
    pub kind: EdgeKind,
    pub target: EdgeTarget,
    pub body: Option<String>,
}

impl Edge {
    pub fn duplicate(&self) -> (copy: Self)
        ensures
            copy == *self,
    {
        Edge {
            event: self.event,
            source: self.source.clone(),
            kind: self.kind,
            target: self.target.duplicate(),
            body: duplicate_optional_string(&self.body),
        }
    }
}

#[derive(Debug, Clone, PartialEq, Eq)]
pub struct Note {
    pub event: u64,
    pub item: String,
    pub author: String,
    pub body: String,
}

impl Note {
    pub fn duplicate(&self) -> (copy: Self)
        ensures
            copy == *self,
    {
        Note {
            event: self.event,
            item: self.item.clone(),
            author: self.author.clone(),
            body: self.body.clone(),
        }
    }
}

#[derive(Debug, Clone, PartialEq, Eq)]
pub struct EventHeader {
    pub event: u64,
    pub operation: String,
    pub actor: String,
}

impl EventHeader {
    pub fn duplicate(&self) -> (copy: Self)
        ensures
            copy == *self,
    {
        EventHeader {
            event: self.event,
            operation: self.operation.clone(),
            actor: self.actor.clone(),
        }
    }
}

#[derive(Debug, Clone, PartialEq, Eq)]
pub struct ItemOpenedEvent {
    pub header: EventHeader,
    pub item: Item,
}

#[derive(Debug, Clone, PartialEq, Eq)]
pub struct NoteAddedEvent {
    pub header: EventHeader,
    pub note: Note,
}

#[derive(Debug, Clone, PartialEq, Eq)]
pub struct EdgeAddedEvent {
    pub header: EventHeader,
    pub edge: Edge,
}

#[derive(Debug, Clone, PartialEq, Eq)]
pub struct StatusChangedEvent {
    pub header: EventHeader,
    pub item: String,
    pub status: ItemStatus,
    pub body: Option<String>,
}

#[derive(Debug, Clone, PartialEq, Eq)]
pub struct AliasAddedEvent {
    pub header: EventHeader,
    pub item: String,
    pub alias: String,
}

/// One entry of the append-only memory event log.
#[derive(Debug, Clone, PartialEq, Eq)]
pub enum Event {
    ItemOpened(ItemOpenedEvent),
    NoteAdded(NoteAddedEvent),
    EdgeAdded(EdgeAddedEvent),
    StatusChanged(StatusChangedEvent),
    AliasAdded(AliasAddedEvent),
}

/// An event with its opened item taken by its view.
pub enum EventView {
    ItemOpened(EventHeader, ItemView),
    NoteAdded(NoteAddedEvent),
    EdgeAdded(EdgeAddedEvent),
    StatusChanged(StatusChangedEvent),
    AliasAdded(AliasAddedEvent),
}

impl View for Event {
    type V = EventView;

    open spec fn view(&self) -> EventView {
        match *self {
            Event::ItemOpened(event) => EventView::ItemOpened(event.header, event.item@),
            Event::NoteAdded(event) => EventView::NoteAdded(event),
            Event::EdgeAdded(event) => EventView::EdgeAdded(event),
            Event::StatusChanged(event) => EventView::StatusChanged(event),
            Event::AliasAdded(event) => EventView::AliasAdded(event),
        }
    }
}

impl Event {
    pub fn duplicate(&self) -> (copy: Self)
        ensures
            copy@ == self@,
    {
        match self {
            Event::ItemOpened(event) => Event::ItemOpened(
                ItemOpenedEvent { header: event.header.duplicate(), item: event.item.duplicate() },
            ),
            Event::NoteAdded(event) => Event::NoteAdded(
                NoteAddedEvent { header: event.header.duplicate(), note: event.note.duplicate() },
            ),
            Event::EdgeAdded(event) => Event::EdgeAdded(
                EdgeAddedEvent { header: event.header.duplicate(), edge: event.edge.duplicate() },
            ),
            Event::StatusChanged(event) => Event::StatusChanged(
                StatusChangedEvent {
                    header: event.header.duplicate(),
                    item: event.item.clone(),
                    status: event.status,
                    body: duplicate_optional_string(&event.body),
                },
            ),
            Event::AliasAdded(event) => Event::AliasAdded(
                AliasAddedEvent {
                    header: event.header.duplicate(),
                    item: event.item.clone(),
                    alias: event.alias.clone(),
                },
            ),
        }
    }
}

#[derive(Debug, Clone, PartialEq, Eq)]
pub struct Opening {
    pub kind: ItemKind,
    pub priority: ItemPriority,
    pub title: String,
    pub body: String,
}

#[derive(Debug, Clone, PartialEq, Eq)]
pub struct NoteSubmission {
    pub item: ItemReference,
    pub body: String,
}

#[derive(Debug, Clone, PartialEq, Eq)]
pub struct Link {
    pub source: ItemReference,
    pub kind: EdgeKind,
    pub target: LinkTarget,
    pub body: Option<String>,
}

#[derive(Debug, Clone, PartialEq, Eq)]
pub struct StatusChange {
    pub item: ItemReference,
    pub status: ItemStatus,
    pub body: Option<String>,
}

#[derive(Debug, Clone, PartialEq, Eq)]
pub struct AliasAssignment {
    pub item: ItemReference,
    pub alias: String,
}

#[derive(Debug, Clone, PartialEq, Eq)]
pub enum QueryKind {
    Ready,
    Blocked,
    Open,
    RecentEvents,
    ByItem(ItemReference),
    ByKind(ItemKind),
    ByStatus(ItemStatus),
    ByAlias(String),
}

#[derive(Debug, Clone, PartialEq, Eq)]
pub struct Query {
    pub kind: QueryKind,
    pub limit: u16,
}

#[derive(Debug, Clone, PartialEq, Eq)]
pub struct OpeningReceipt {
    pub event: ItemOpenedEvent,
}

#[derive(Debug, Clone, PartialEq, Eq)]
pub struct NoteReceipt {
    pub event: NoteAddedEvent,
}

#[derive(Debug, Clone, PartialEq, Eq)]
pub struct LinkReceipt {
    pub event: EdgeAddedEvent,
}

#[derive(Debug, Clone, PartialEq, Eq)]
pub struct StatusReceipt {
    pub event: StatusChangedEvent,
}

#[derive(Debug, Clone, PartialEq, Eq)]
pub struct AliasReceipt {
    pub event: AliasAddedEvent,
}

/// A projection of the memory graph answered to a query.
#[derive(Debug, Clone, PartialEq, Eq)]
pub struct MemoryView {
    pub items: Vec<Item>,
    pub edges: Vec<Edge>,
    pub notes: Vec<Note>,
    pub events: Vec<Event>,
}

pub open spec fn item_views(items: Seq<Item>) -> Seq<ItemView> {
    items.map_values(|item: Item| item@)
}

pub open spec fn event_views(events: Seq<Event>) -> Seq<EventView> {
    events.map_values(|event: Event| event@)
}

#[derive(Debug, Clone, Copy, PartialEq, Eq, Structural)]
pub enum RejectionReason {
    UnknownItem,
    DuplicateAlias,
    InvalidEdge,
    PersistenceRejected,
    UnsupportedQuery,
    CollisionUnresolved,
}

#[derive(Debug, Clone, Copy, PartialEq, Eq)]
pub struct Rejection {
    pub reason: RejectionReason,
}

// ---------------------------------------------------------------------------
// Typed thoughts and relations
// ---------------------------------------------------------------------------

#[derive(Debug, Clone, Copy, PartialEq, Eq, Structural)]
pub enum ThoughtKind {
    Goal,
    Claim,
    Memory,
}

#[derive(Debug, Clone, Copy, PartialEq, Eq, Structural)]
pub enum RelationKind {
    Belongs,
    Implements,
    Supersedes,
    Supports,
}

/// Which kinds of thought a relation of this kind may join: a supersession joins two
/// thoughts of one kind; a claim implements a goal; a thought belongs to a goal or a
/// memory; any thought may support any other.
pub open spec fn endpoints_allowed(kind: RelationKind, source: ThoughtKind, target: ThoughtKind) -> bool {
    match kind {
        RelationKind::Supersedes => source == target,
        RelationKind::Implements => source == ThoughtKind::Claim && target == ThoughtKind::Goal,
        RelationKind::Belongs => target == ThoughtKind::Goal || target == ThoughtKind::Memory,
        RelationKind::Supports => true,
    }
}

impl RelationKind {
    /// Whether a relation of this kind may join a source and a target of these kinds
    /// (see `endpoints_allowed`).
    pub fn validate_endpoints(&self, source: ThoughtKind, target: ThoughtKind) -> (allowed: bool)
        ensures
            allowed == endpoints_allowed(*self, source, target),
    {
        match self {
            RelationKind::Supersedes => source == target,
            RelationKind::Implements => source == ThoughtKind::Claim && target == ThoughtKind::Goal,
            RelationKind::Belongs => target == ThoughtKind::Goal || target == ThoughtKind::Memory,
            RelationKind::Supports => true,
        }
    }
}

/// The content of a thought; its variant is the kind of thought it is.
#[derive(Debug, Clone, PartialEq, Eq)]
pub enum ThoughtBody {
    Goal(String),
    Claim(String),
    Memory(String),
}

impl ThoughtBody {
    pub open spec fn kind_of(self) -> ThoughtKind {
        match self {
            ThoughtBody::Goal(_) => ThoughtKind::Goal,
            ThoughtBody::Claim(_) => ThoughtKind::Claim,
            ThoughtBody::Memory(_) => ThoughtKind::Memory,
        }
    }

    /// The kind of thought that this body holds.
    pub fn kind(&self) -> (kind: ThoughtKind)
        ensures
            kind == self.kind_of(),
    {
        match self {
            ThoughtBody::Goal(_) => ThoughtKind::Goal,
            ThoughtBody::Claim(_) => ThoughtKind::Claim,
            ThoughtBody::Memory(_) => ThoughtKind::Memory,
        }
    }

    pub fn duplicate(&self) -> (copy: Self)
        ensures
            copy == *self,
    {
        match self {
            ThoughtBody::Goal(text) => ThoughtBody::Goal(text.clone()),
            ThoughtBody::Claim(text) => ThoughtBody::Claim(text.clone()),
            ThoughtBody::Memory(text) => ThoughtBody::Memory(text.clone()),
        }
    }
}

/// A committed thought.
#[derive(Debug, Clone, PartialEq, Eq)]
pub struct Thought {
    pub id: String,
    pub kind: ThoughtKind,
    pub body: ThoughtBody,
    pub author: String,
    pub occurred_at: u64,
}

impl Thought {
    pub fn duplicate(&self) -> (copy: Self)
        ensures
            copy == *self,
    {
        Thought {
            id: self.id.clone(),
            kind: self.kind,
            body: self.body.duplicate(),
            author: self.author.clone(),
            occurred_at: self.occurred_at,
        }
    }
}

/// A committed relation between two thoughts.
#[derive(Debug, Clone, PartialEq, Eq)]
pub struct Relation {
    pub id: String,
    pub kind: RelationKind,
    pub source: String,
    pub target: String,
    pub author: String,
    pub occurred_at: u64,
    pub note: Option<String>,
}

impl Relation {
    pub fn duplicate(&self) -> (copy: Self)
        ensures
            copy == *self,
    {
        Relation {
            id: self.id.clone(),
            kind: self.kind,
            source: self.source.clone(),
            target: self.target.clone(),
            author: self.author.clone(),
            occurred_at: self.occurred_at,
            note: duplicate_optional_string(&self.note),
        }
    }
}

#[derive(Debug, Clone, PartialEq, Eq)]
pub struct ByThoughtKind {
    pub kinds: Vec<ThoughtKind>,
}

#[derive(Debug, Clone, PartialEq, Eq)]
pub struct ByThoughtAuthor {
    pub author: String,
}

#[derive(Debug, Clone, Copy, PartialEq, Eq)]
pub struct ByThoughtTimeRange {
    pub start: u64,
    pub end: Option<u64>,
}

#[derive(Debug, Clone, PartialEq, Eq)]
pub struct CompositeThoughtFilter {
    pub kinds: Vec<ThoughtKind>,
    pub author: Option<String>,
    pub time_range: Option<ByThoughtTimeRange>,
    pub goal: Option<String>,
    pub memory: Option<String>,
}

#[derive(Debug, Clone, PartialEq, Eq)]
pub enum ThoughtFilter {
    ByKind(ByThoughtKind),
    ByAuthor(ByThoughtAuthor),
    ByTimeRange(ByThoughtTimeRange),
    InGoal(String),
    InMemory(String),
    Composite(CompositeThoughtFilter),
}

#[derive(Debug, Clone, PartialEq, Eq)]
pub struct ByRelationKind {
    pub kinds: Vec<RelationKind>,
}

#[derive(Debug, Clone, PartialEq, Eq)]
pub struct CompositeRelationFilter {
    pub kinds: Vec<RelationKind>,
    pub source: Option<String>,
    pub target: Option<String>,
}

#[derive(Debug, Clone, PartialEq, Eq)]
pub enum RelationFilter {
    ByKind(ByRelationKind),
    BySource(String),
    ByTarget(String),
    Composite(CompositeRelationFilter),
}

#[derive(Debug, Clone, PartialEq, Eq)]
pub struct SubmitThought {
    pub kind: ThoughtKind,
    pub body: ThoughtBody,
}

#[derive(Debug, Clone, PartialEq, Eq)]
pub struct SubmitRelation {
    pub kind: RelationKind,
    pub source: String,
    pub target: String,
    pub note: Option<String>,
}

#[derive(Debug, Clone, PartialEq, Eq)]
pub struct SubscribeThoughts {
    pub filter: ThoughtFilter,
}

#[derive(Debug, Clone, PartialEq, Eq)]
pub struct SubscribeRelations {
    pub filter: RelationFilter,
}

#[derive(Debug, Clone, PartialEq, Eq)]
pub struct QueryThoughts {
    pub filter: ThoughtFilter,
    pub limit: u32,
}

#[derive(Debug, Clone, PartialEq, Eq)]
pub struct QueryRelations {
    pub filter: RelationFilter,
    pub limit: u32,
}

#[derive(Debug, Clone, PartialEq, Eq)]
pub struct ThoughtCommitted {
    pub record: String,
    pub display: String,
    pub occurred_at: u64,
}

#[derive(Debug, Clone, PartialEq, Eq)]
pub struct RelationCommitted {
    pub relation: String,
    pub occurred_at: u64,
}

#[derive(Debug, Clone, PartialEq, Eq)]
pub struct ThoughtList {
    pub thoughts: Vec<Thought>,
    pub has_more: bool,
}

#[derive(Debug, Clone, PartialEq, Eq)]
pub struct RelationList {
    pub relations: Vec<Relation>,
    pub has_more: bool,
}

#[derive(Debug, Clone, PartialEq, Eq)]
pub enum MindSnapshot {
    Thought(Thought),
    Relation(Relation),
}

/// A change that a subscription is told of.
#[derive(Debug, Clone, PartialEq, Eq)]
pub enum MindDelta {
    ThoughtCommitted(Thought),
    RelationCommitted(Relation),
}

/// A change told to one subscription.
#[derive(Debug, Clone, PartialEq, Eq)]
pub struct SubscriptionEvent {
    pub subscription: String,
    pub delta: MindDelta,
}

impl SubscriptionEvent {
    pub fn duplicate(&self) -> (copy: Self)
        ensures
            copy == *self,
    {
        let delta = match &self.delta {
            MindDelta::ThoughtCommitted(thought) => MindDelta::ThoughtCommitted(thought.duplicate()),
            MindDelta::RelationCommitted(relation) => MindDelta::RelationCommitted(relation.duplicate()),
        };
        SubscriptionEvent { subscription: self.subscription.clone(), delta }
    }
}

#[derive(Debug, Clone, PartialEq, Eq)]
pub struct SubscriptionAccepted {
    pub subscription: String,
    pub initial_snapshot: Vec<MindSnapshot>,
}

#[derive(Debug, Clone, Copy, PartialEq, Eq, Structural)]
pub enum MindUnimplementedReason {
    NotInPrototypeScope,
}

// ---------------------------------------------------------------------------
// Requests and replies
// ---------------------------------------------------------------------------

/// One request to the mind.
#[derive(Debug, Clone, PartialEq, Eq)]
pub enum MindRequest {
    RoleClaim(RoleClaim),
    RoleRelease(RoleRelease),
    RoleHandoff(RoleHandoff),
    RoleObservation(RoleObservation),
    ActivitySubmission(ActivitySubmission),
    ActivityQuery(ActivityQuery),
    Opening(Opening),
    NoteSubmission(NoteSubmission),
    Link(Link),
    StatusChange(StatusChange),
    AliasAssignment(AliasAssignment),
    Query(Query),
    SubmitThought(SubmitThought),
    SubmitRelation(SubmitRelation),
    QueryThoughts(QueryThoughts),
    QueryRelations(QueryRelations),
    SubscribeThoughts(SubscribeThoughts),
    SubscribeRelations(SubscribeRelations),
    AdjudicationRequest,
    ChannelGrant,
    ChannelExtend,
    ChannelRetract,
    AdjudicationDeny,
    ChannelList,
}

/// One reply of the mind.
#[derive(Debug, Clone, PartialEq, Eq)]
pub enum MindReply {
    ClaimAcceptance(ClaimAcceptance),
    ClaimRejection(ClaimRejection),
    ReleaseAcknowledgment(ReleaseAcknowledgment),
    HandoffAcceptance(HandoffAcceptance),
    HandoffRejection(HandoffRejection),
    RoleSnapshot(RoleSnapshot),
    ActivityAcknowledgment(ActivityAcknowledgment),
    ActivityList(ActivityList),
    OpeningReceipt(OpeningReceipt),
    NoteReceipt(NoteReceipt),
    LinkReceipt(LinkReceipt),
    StatusReceipt(StatusReceipt),
    AliasReceipt(AliasReceipt),
    View(MemoryView),
    Rejection(Rejection),
    ThoughtCommitted(ThoughtCommitted),
    RelationCommitted(RelationCommitted),
    ThoughtList(ThoughtList),
    RelationList(RelationList),
    SubscriptionAccepted(SubscriptionAccepted),
    MindRequestUnimplemented(MindUnimplementedReason),
}

} // verus!
