//! The memory/work graph reducer: items, edges, notes, aliases and the event log,
//! with the ready, blocked and per-item views derived from them.

use vstd::prelude::*;

use crate::contract::{
    event_views, item_views, AliasAddedEvent, AliasAssignment, AliasReceipt, Edge,
    EdgeAddedEvent, EdgeKind, EdgeTarget, Event, EventHeader, EventView, Item, ItemKind,
    ItemOpenedEvent, ItemReference, ItemStatus, ItemView, Link, LinkReceipt, LinkTarget,
    MemoryView, MindReply, MindRequest, Note, NoteAddedEvent, NoteReceipt, NoteSubmission,
    Opening, OpeningReceipt, Query, QueryKind, Rejection, RejectionReason, StatusChange,
    StatusChangedEvent, StatusReceipt,
};
use crate::envelope::MindEnvelope;
use crate::ids::{mintable, short_token, ShortIdMint};

verus! {

/// The whole graph as mathematical values.
pub struct GraphModel {
    pub default_actor: String,
    pub next_item: u64,
    pub next_event: u64,
    pub next_operation: u64,
    pub items: Seq<ItemView>,
    pub edges: Seq<Edge>,
    pub notes: Seq<Note>,
    pub events: Seq<EventView>,
}

// ---------------------------------------------------------------------------
// Naming items
// ---------------------------------------------------------------------------

pub open spec fn has_alias(item: ItemView, alias: Seq<char>) -> bool {
    exists|k: int| 0 <= k < item.aliases.len() && (#[trigger] item.aliases[k])@ == alias
}

/// Whether `reference` names `item`.
pub open spec fn reference_matches(item: ItemView, reference: ItemReference) -> bool {
    match reference {
        ItemReference::Stable(id) => item.id@ == id@,
        ItemReference::Display(id) => item.display_id@ == id@,
        ItemReference::Alias(alias) => has_alias(item, alias@),
    }
}

/// The position of the first item that `reference` names, or -1.
pub open spec fn first_match(items: Seq<ItemView>, reference: ItemReference) -> int
    decreases items.len(),
{
    if items.len() == 0 {
        -1
    } else {
        let found = first_match(items.drop_last(), reference);
        if found >= 0 {
            found
        } else if reference_matches(items.last(), reference) {
            items.len() - 1
        } else {
            -1
        }
    }
}

/// The stable id of the first item that `reference` names.
pub open spec fn resolve(items: Seq<ItemView>, reference: ItemReference) -> Option<String> {
    let found = first_match(items, reference);
    if found < 0 {
        None
    } else {
        Some(items[found].id)
    }
}

/// The position of the first item whose stable id is that of the first item that
/// `reference` names, or -1.
pub open spec fn resolve_position(items: Seq<ItemView>, reference: ItemReference) -> int {
    let found = first_match(items, reference);
    if found < 0 {
        -1
    } else {
        first_match(items, ItemReference::Stable(items[found].id))
    }
}

/// Some item carries `alias`.
pub open spec fn alias_taken(items: Seq<ItemView>, alias: Seq<char>) -> bool {
    exists|index: int| 0 <= index < items.len() && has_alias(#[trigger] items[index], alias)
}

proof fn lemma_first_match_none(items: Seq<ItemView>, reference: ItemReference)
    requires
        forall|j: int| 0 <= j < items.len() ==> !reference_matches(#[trigger] items[j], reference),
    ensures
        first_match(items, reference) == -1,
    decreases items.len(),
{
    if items.len() > 0 {
        let rest = items.drop_last();
        assert forall|j: int| 0 <= j < rest.len() implies !reference_matches(
            #[trigger] rest[j],
            reference,
        ) by {
            assert(rest[j] == items[j]);
        }
        lemma_first_match_none(rest, reference);
        assert(items.last() == items[items.len() - 1]);
    }
}

proof fn lemma_first_match_at(items: Seq<ItemView>, reference: ItemReference, at: int)
    requires
        0 <= at < items.len(),
        reference_matches(items[at], reference),
        forall|j: int| 0 <= j < at ==> !reference_matches(#[trigger] items[j], reference),
    ensures
        first_match(items, reference) == at,
    decreases items.len(),
{
    let rest = items.drop_last();
    if at < items.len() - 1 {
        assert(rest[at] == items[at]);
        assert forall|j: int| 0 <= j < at implies !reference_matches(#[trigger] rest[j], reference) by {
            assert(rest[j] == items[j]);
        }
        lemma_first_match_at(rest, reference, at);
    } else {
        assert forall|j: int| 0 <= j < rest.len() implies !reference_matches(
            #[trigger] rest[j],
            reference,
        ) by {
            assert(rest[j] == items[j]);
        }
        lemma_first_match_none(rest, reference);
    }
}

/// The first match, when there is one, is in range and is named by the reference.
pub proof fn lemma_first_match_found(items: Seq<ItemView>, reference: ItemReference)
    ensures
        -1 <= first_match(items, reference) < items.len(),
        first_match(items, reference) >= 0 ==> reference_matches(
            items[first_match(items, reference)],
            reference,
        ),
    decreases items.len(),
{
    if items.len() > 0 {
        lemma_first_match_found(items.drop_last(), reference);
    }
}

// ---------------------------------------------------------------------------
// Views
// ---------------------------------------------------------------------------

/// Which items a query keeps.
pub enum Selector {
    Ready,
    Blocked,
    WithStatus(ItemStatus),
    WithKind(ItemKind),
    WithId(String),
}

/// An item is ready when each of its `DependsOn` edges points at an item whose first
/// holder of that id is closed; an edge to something outside the graph never is.
pub open spec fn item_ready(model: GraphModel, id: String) -> bool {
    forall|e: int|
        0 <= e < model.edges.len() ==> dependency_met(model, id, #[trigger] model.edges[e])
}

pub open spec fn dependency_met(model: GraphModel, id: String, edge: Edge) -> bool {
    if edge.kind != EdgeKind::DependsOn || edge.source@ != id@ {
        true
    } else {
        match edge.target {
            EdgeTarget::Item(target) => {
                let found = first_match(model.items, ItemReference::Stable(target));
                found >= 0 && model.items[found].status == ItemStatus::Closed
            },
            EdgeTarget::External(_) => false,
        }
    }
}

pub open spec fn selects(model: GraphModel, selector: Selector, item: ItemView) -> bool {
    match selector {
        Selector::Ready => item.status == ItemStatus::Open && item_ready(model, item.id),
        Selector::Blocked => item.status == ItemStatus::Open && !item_ready(model, item.id),
        Selector::WithStatus(status) => item.status == status,
        Selector::WithKind(kind) => item.kind == kind,
        Selector::WithId(id) => item.id@ == id@,
    }
}

/// The items of `items` that `selector` keeps, in order.
pub open spec fn selected(model: GraphModel, selector: Selector, items: Seq<ItemView>) -> Seq<ItemView>
    decreases items.len(),
{
    if items.len() == 0 {
        Seq::empty()
    } else {
        let rest = selected(model, selector, items.drop_last());
        if selects(model, selector, items.last()) {
            rest.push(items.last())
        } else {
            rest
        }
    }
}

/// The first `limit` values of `values`.
pub open spec fn limited<A>(values: Seq<A>, limit: int) -> Seq<A> {
    if values.len() <= limit {
        values
    } else {
        values.take(limit)
    }
}

/// Some id of `ids` has the characters of `id`.
pub open spec fn id_listed(ids: Seq<String>, id: String) -> bool {
    exists|k: int| 0 <= k < ids.len() && (#[trigger] ids[k])@ == id@
}

pub open spec fn edge_touches(ids: Seq<String>, edge: Edge) -> bool {
    id_listed(ids, edge.source) || match edge.target {
        EdgeTarget::Item(target) => id_listed(ids, target),
        EdgeTarget::External(_) => false,
    }
}

/// The edges whose source or target item is listed, in order.
pub open spec fn edges_touching(edges: Seq<Edge>, ids: Seq<String>) -> Seq<Edge>
    decreases edges.len(),
{
    if edges.len() == 0 {
        Seq::empty()
    } else {
        let rest = edges_touching(edges.drop_last(), ids);
        if edge_touches(ids, edges.last()) {
            rest.push(edges.last())
        } else {
            rest
        }
    }
}

/// The notes on listed items, in order.
pub open spec fn notes_on(notes: Seq<Note>, ids: Seq<String>) -> Seq<Note>
    decreases notes.len(),
{
    if notes.len() == 0 {
        Seq::empty()
    } else {
        let rest = notes_on(notes.drop_last(), ids);
        if id_listed(ids, notes.last().item) {
            rest.push(notes.last())
        } else {
            rest
        }
    }
}

pub open spec fn item_ids(items: Seq<ItemView>) -> Seq<String> {
    items.map_values(|item: ItemView| item.id)
}

/// A view reply that holds exactly the given items, the edges and notes that touch
/// them, and the whole event log.
pub open spec fn is_items_view(model: GraphModel, view: MemoryView, items: Seq<ItemView>) -> bool {
    &&& item_views(view.items@) == items
    &&& view.edges@ == edges_touching(model.edges, item_ids(items))
    &&& view.notes@ == notes_on(model.notes, item_ids(items))
    &&& event_views(view.events@) == model.events
}

/// The last `limit` events, oldest first.
pub open spec fn recent_events(events: Seq<EventView>, limit: int) -> Seq<EventView> {
    if events.len() <= limit {
        events
    } else {
        events.subrange(events.len() - limit, events.len() as int)
    }
}

/// The selector a query asks for, once its item reference, if any, is resolved.
pub open spec fn query_selector(model: GraphModel, kind: QueryKind) -> Option<Selector> {
    match kind {
        QueryKind::Ready => Some(Selector::Ready),
        QueryKind::Blocked => Some(Selector::Blocked),
        QueryKind::Open => Some(Selector::WithStatus(ItemStatus::Open)),
        QueryKind::ByKind(kind) => Some(Selector::WithKind(kind)),
        QueryKind::ByStatus(status) => Some(Selector::WithStatus(status)),
        QueryKind::ByItem(reference) => match resolve(model.items, reference) {
            Some(id) => Some(Selector::WithId(id)),
            None => None,
        },
        QueryKind::ByAlias(alias) => match resolve(model.items, ItemReference::Alias(alias)) {
            Some(id) => Some(Selector::WithId(id)),
            None => None,
        },
        QueryKind::RecentEvents => None,
    }
}

/// What a query answers: the recent events alone; a view of the selected items,
/// at most `limit` of them; or `UnknownItem` when its item reference names nothing.
pub open spec fn query_answer(model: GraphModel, query: Query, reply: MindReply) -> bool {
    let limit = query.limit as int;
    if query.kind is RecentEvents {
        &&& reply matches MindReply::View(view)
        &&& view.items@.len() == 0
        &&& view.edges@.len() == 0
        &&& view.notes@.len() == 0
        &&& event_views(view.events@) == recent_events(model.events, limit)
    } else {
        match query_selector(model, query.kind) {
            Some(selector) => reply matches MindReply::View(view) && is_items_view(
                model,
                view,
                limited(selected(model, selector, model.items), limit),
            ),
            None => reply == MindReply::Rejection(Rejection { reason: RejectionReason::UnknownItem }),
        }
    }
}

// ---------------------------------------------------------------------------
// Mutations
// ---------------------------------------------------------------------------

/// Enough room in the event and operation counters to mint one more header.
pub open spec fn can_mint_header(model: GraphModel) -> bool {
    &&& model.next_event < u64::MAX
    &&& model.next_operation < u64::MAX
    &&& mintable((model.next_operation + 1) as u64)
}

/// Enough room to mint one more item and its header.
pub open spec fn can_mint_item(model: GraphModel) -> bool {
    &&& can_mint_header(model)
    &&& model.next_item < u64::MAX
    &&& mintable((model.next_item + 1) as u64)
}

/// The header minted next: the next event number, the next operation id, the actor.
pub open spec fn next_header_is(model: GraphModel, actor: String, header: EventHeader) -> bool {
    &&& header.event == model.next_event + 1
    &&& header.operation@ == short_token((model.next_operation + 1) as u64)
    &&& header.actor == actor
}

/// The model once a header is minted.
pub open spec fn after_header(model: GraphModel) -> GraphModel {
    GraphModel {
        next_event: (model.next_event + 1) as u64,
        next_operation: (model.next_operation + 1) as u64,
        ..model
    }
}

/// Room for an item is room for any request.
pub proof fn lemma_item_room_serves_any(model: GraphModel, request: MindRequest)
    requires
        can_mint_item(model),
    ensures
        can_serve(model, request),
{
}

/// Each request that the reducer may serve without running out of ids: the minting
/// that a request does only on success needs room only when it succeeds.
pub open spec fn can_serve(model: GraphModel, request: MindRequest) -> bool {
    match request {
        MindRequest::Opening(_) => can_mint_item(model),
        MindRequest::NoteSubmission(submission) => resolve(model.items, submission.item) is Some
            ==> can_mint_header(model),
        MindRequest::Link(link) => (resolve(model.items, link.source) is Some && match link.target {
            LinkTarget::Item(reference) => resolve(model.items, reference) is Some,
            LinkTarget::External(_) => true,
        }) ==> can_mint_header(model),
        MindRequest::StatusChange(change) => resolve_position(model.items, change.item) >= 0
            ==> can_mint_header(model),
        MindRequest::AliasAssignment(assignment) => (!alias_taken(model.items, assignment.alias@)
            && resolve_position(model.items, assignment.item) >= 0) ==> can_mint_header(model),
        _ => true,
    }
}

pub open spec fn rejected_unknown(before: GraphModel, after: GraphModel, reply: MindReply) -> bool {
    after == before && reply == MindReply::Rejection(Rejection { reason: RejectionReason::UnknownItem })
}

/// Opening appends a new open item, with fresh stable and display ids, and its event.
pub open spec fn opened(
    before: GraphModel,
    opening: Opening,
    actor: String,
    after: GraphModel,
    reply: MindReply,
) -> bool {
    &&& reply matches MindReply::OpeningReceipt(receipt)
    &&& next_header_is(before, actor, receipt.event.header)
    &&& receipt.event.item.id@ == short_token((before.next_item + 1) as u64)
    &&& receipt.event.item.display_id@ == short_token((before.next_item + 1) as u64)
    &&& receipt.event.item.aliases@.len() == 0
    &&& receipt.event.item.kind == opening.kind
    &&& receipt.event.item.status == ItemStatus::Open
    &&& receipt.event.item.priority == opening.priority
    &&& receipt.event.item.title == opening.title
    &&& receipt.event.item.body == opening.body
    &&& after == GraphModel {
        next_item: (before.next_item + 1) as u64,
        items: before.items.push(receipt.event.item@),
        events: before.events.push(EventView::ItemOpened(receipt.event.header, receipt.event.item@)),
        ..after_header(before)
    }
}

/// A note attaches to the item it names, authored by the actor; an unknown item is
/// refused and changes nothing.
pub open spec fn noted(
    before: GraphModel,
    submission: NoteSubmission,
    actor: String,
    after: GraphModel,
    reply: MindReply,
) -> bool {
    match resolve(before.items, submission.item) {
        None => rejected_unknown(before, after, reply),
        Some(item) => {
            &&& reply matches MindReply::NoteReceipt(receipt)
            &&& next_header_is(before, actor, receipt.event.header)
            &&& receipt.event.note == Note {
                event: receipt.event.header.event,
                item,
                author: actor,
                body: submission.body,
            }
            &&& after == GraphModel {
                notes: before.notes.push(receipt.event.note),
                events: before.events.push(EventView::NoteAdded(receipt.event)),
                ..after_header(before)
            }
        },
    }
}

/// Where a link target points once resolved, if it resolves.
pub open spec fn resolve_target(items: Seq<ItemView>, target: LinkTarget) -> Option<EdgeTarget> {
    match target {
        LinkTarget::Item(reference) => match resolve(items, reference) {
            Some(id) => Some(EdgeTarget::Item(id)),
            None => None,
        },
        LinkTarget::External(external) => Some(EdgeTarget::External(external)),
    }
}

/// A link adds an edge between the items it names, or from an item to something
/// outside the graph; an unknown item at either end is refused.
pub open spec fn linked(
    before: GraphModel,
    link: Link,
    actor: String,
    after: GraphModel,
    reply: MindReply,
) -> bool {
    match (resolve(before.items, link.source), resolve_target(before.items, link.target)) {
        (Some(source), Some(target)) => {
            &&& reply matches MindReply::LinkReceipt(receipt)
            &&& next_header_is(before, actor, receipt.event.header)
            &&& receipt.event.edge == Edge {
                event: receipt.event.header.event,
                source,
                kind: link.kind,
                target,
                body: link.body,
            }
            &&& after == GraphModel {
                edges: before.edges.push(receipt.event.edge),
                events: before.events.push(EventView::EdgeAdded(receipt.event)),
                ..after_header(before)
            }
        },
        _ => rejected_unknown(before, after, reply),
    }
}

/// A status change sets the status of the item it names.
pub open spec fn status_changed(
    before: GraphModel,
    change: StatusChange,
    actor: String,
    after: GraphModel,
    reply: MindReply,
) -> bool {
    let position = resolve_position(before.items, change.item);
    if position < 0 {
        rejected_unknown(before, after, reply)
    } else {
        let item = before.items[position];
        &&& reply matches MindReply::StatusReceipt(receipt)
        &&& next_header_is(before, actor, receipt.event.header)
        &&& receipt.event.item == item.id
        &&& receipt.event.status == change.status
        &&& receipt.event.body == change.body
        &&& after == GraphModel {
            items: before.items.update(position, ItemView { status: change.status, ..item }),
            events: before.events.push(EventView::StatusChanged(receipt.event)),
            ..after_header(before)
        }
    }
}

/// An alias joins the aliases of the item it names, unless some item carries it already.
pub open spec fn alias_added(
    before: GraphModel,
    assignment: AliasAssignment,
    actor: String,
    after: GraphModel,
    reply: MindReply,
) -> bool {
    let position = resolve_position(before.items, assignment.item);
    if alias_taken(before.items, assignment.alias@) {
        after == before && reply == MindReply::Rejection(
            Rejection { reason: RejectionReason::DuplicateAlias },
        )
    } else if position < 0 {
        rejected_unknown(before, after, reply)
    } else {
        let item = before.items[position];
        &&& reply matches MindReply::AliasReceipt(receipt)
        &&& next_header_is(before, actor, receipt.event.header)
        &&& receipt.event.item == item.id
        &&& receipt.event.alias == assignment.alias
        &&& after == GraphModel {
            items: before.items.update(
                position,
                ItemView { aliases: item.aliases.push(assignment.alias), ..item },
            ),
            events: before.events.push(EventView::AliasAdded(receipt.event)),
            ..after_header(before)
        }
    }
}

/// What the reducer does with one request from `actor`: the five memory mutations
/// and the memory query are served; every other request is left to other parts of
/// the mind, with no reply and no change.
pub open spec fn dispatched(
    before: GraphModel,
    actor: String,
    request: MindRequest,
    after: GraphModel,
    reply: Option<MindReply>,
) -> bool {
    match request {
        MindRequest::Opening(opening) => reply matches Some(r) && opened(before, opening, actor, after, r),
        MindRequest::NoteSubmission(submission) => reply matches Some(r) && noted(
            before,
            submission,
            actor,
            after,
            r,
        ),
        MindRequest::Link(link) => reply matches Some(r) && linked(before, link, actor, after, r),
        MindRequest::StatusChange(change) => reply matches Some(r) && status_changed(
            before,
            change,
            actor,
            after,
            r,
        ),
        MindRequest::AliasAssignment(assignment) => reply matches Some(r) && alias_added(
            before,
            assignment,
            actor,
            after,
            r,
        ),
        MindRequest::Query(query) => after == before && (reply matches Some(r) && query_answer(
            before,
            query,
            r,
        )),
        _ => after == before && reply is None,
    }
}

/// Whether the reference names the item.
fn item_matches(item: &Item, reference: &ItemReference) -> (result: bool)
    ensures
        result == reference_matches(item@, *reference),
{
    match reference {
        ItemReference::Stable(id) => item.id == *id,
        ItemReference::Display(id) => item.display_id == *id,
        ItemReference::Alias(alias) => carries_alias(item, alias),
    }
}

fn carries_alias(item: &Item, alias: &String) -> (result: bool)
    ensures
        result == has_alias(item@, alias@),
{
    let mut index: usize = 0;
    while index < item.aliases.len()
        invariant
            index <= item.aliases.len(),
            forall|k: int| 0 <= k < index ==> (#[trigger] item.aliases@[k])@ != alias@,
        decreases item.aliases.len() - index,
    {
        if item.aliases[index] == *alias {
            assert(item@.aliases[index as int]@ == alias@);
            return true;
        }
        index = index + 1;
    }
    assert forall|k: int| 0 <= k < item@.aliases.len() implies (#[trigger] item@.aliases[k])@
        != alias@ by {
        assert(item@.aliases[k] == item.aliases@[k]);
    }
    false
}

fn contains_id(ids: &Vec<String>, id: &String) -> (result: bool)
    ensures
        result == id_listed(ids@, *id),
{
    let mut index: usize = 0;
    while index < ids.len()
        invariant
            index <= ids.len(),
            forall|k: int| 0 <= k < index ==> (#[trigger] ids@[k])@ != id@,
        decreases ids.len() - index,
    {
        if ids[index] == *id {
            return true;
        }
        index = index + 1;
    }
    false
}

/// The memory graph: items with their current state, the edges and notes between
/// them, and the append-only log of the events that produced them.
pub struct MemoryGraph {
    default_actor: String,
    next_item: u64,
    next_event: u64,
    next_operation: u64,
    items: Vec<Item>,
    edges: Vec<Edge>,
    notes: Vec<Note>,
    events: Vec<Event>,
}

impl MemoryGraph {
    pub closed spec fn model(&self) -> GraphModel {
        GraphModel {
            default_actor: self.default_actor,
            next_item: self.next_item,
            next_event: self.next_event,
            next_operation: self.next_operation,
            items: item_views(self.items@),
            edges: self.edges@,
            notes: self.notes@,
            events: event_views(self.events@),
        }
    }

    /// An empty graph whose requests without an envelope come from `default_actor`.
    pub fn new(default_actor: String) -> (graph: Self)
        ensures
            graph.model() == (GraphModel {
                default_actor,
                next_item: 0,
                next_event: 0,
                next_operation: 0,
                items: Seq::empty(),
                edges: Seq::empty(),
                notes: Seq::empty(),
                events: Seq::empty(),
            }),
    {
        let graph = MemoryGraph {
            default_actor,
            next_item: 0,
            next_event: 0,
            next_operation: 0,
            items: Vec::new(),
            edges: Vec::new(),
            notes: Vec::new(),
            events: Vec::new(),
        };
        assert(graph.model().items =~= Seq::<ItemView>::empty());
        assert(graph.model().events =~= Seq::<EventView>::empty());
        graph
    }

    /// Whether the graph has room to mint one more event header.
    fn has_header_room(&self) -> (room: bool)
        ensures
            room == can_mint_header(self.model()),
    {
        if self.next_event == u64::MAX || self.next_operation == u64::MAX {
            return false;
        }
        let operation = self.next_operation + 1;
        operation % 32 < 30 && (operation / 32) % 32 < 30 && (operation / 1024) % 32 < 30
    }

    /// Whether the graph has room for what `request` would mint (see `can_serve`).
    pub fn can_serve_request(&self, request: &MindRequest) -> (result: bool)
        ensures
            result == can_serve(self.model(), *request),
    {
        match request {
            MindRequest::Opening(_) => self.has_room(),
            MindRequest::NoteSubmission(submission) => self.resolve_item(&submission.item).is_none()
                || self.has_header_room(),
            MindRequest::Link(link) => {
                let resolved = self.resolve_item(&link.source).is_some() && match &link.target {
                    LinkTarget::Item(reference) => self.resolve_item(reference).is_some(),
                    LinkTarget::External(_) => true,
                };
                !resolved || self.has_header_room()
            },
            MindRequest::StatusChange(change) => self.resolve_item_position(&change.item).is_none()
                || self.has_header_room(),
            MindRequest::AliasAssignment(assignment) => {
                let applies = !self.alias_exists(&assignment.alias) && self.resolve_item_position(
                    &assignment.item,
                ).is_some();
                !applies || self.has_header_room()
            },
            _ => true,
        }
    }

    /// Whether the graph has room to mint one more item and its header, which is
    /// room enough for any request (see `can_serve`).
    pub fn has_room(&self) -> (room: bool)
        ensures
            room == can_mint_item(self.model()),
    {
        if self.next_event == u64::MAX || self.next_operation == u64::MAX || self.next_item == u64::MAX {
            return false;
        }
        let operation = self.next_operation + 1;
        let item = self.next_item + 1;
        operation % 32 < 30 && (operation / 32) % 32 < 30 && (operation / 1024) % 32 < 30
            && item % 32 < 30 && (item / 32) % 32 < 30 && (item / 1024) % 32 < 30
    }

    /// A copy of the whole graph.
    pub fn duplicate(&self) -> (copy: Self)
        ensures
            copy.model() == self.model(),
    {
        let mut items: Vec<Item> = Vec::new();
        let mut index: usize = 0;
        while index < self.items.len()
            invariant
                index <= self.items.len(),
                item_views(items@) == item_views(self.items@).subrange(0, index as int),
            decreases self.items.len() - index,
        {
            let ghost before = item_views(items@);
            items.push(self.items[index].duplicate());
            assert(item_views(items@) =~= before.push(self.items@[index as int]@));
            index = index + 1;
        }
        let mut edges: Vec<Edge> = Vec::new();
        index = 0;
        while index < self.edges.len()
            invariant
                index <= self.edges.len(),
                edges@ == self.edges@.subrange(0, index as int),
            decreases self.edges.len() - index,
        {
            edges.push(self.edges[index].duplicate());
            index = index + 1;
        }
        let mut notes: Vec<Note> = Vec::new();
        index = 0;
        while index < self.notes.len()
            invariant
                index <= self.notes.len(),
                notes@ == self.notes@.subrange(0, index as int),
            decreases self.notes.len() - index,
        {
            notes.push(self.notes[index].duplicate());
            index = index + 1;
        }
        let events = self.all_events();
        let copy = MemoryGraph {
            default_actor: self.default_actor.clone(),
            next_item: self.next_item,
            next_event: self.next_event,
            next_operation: self.next_operation,
            items,
            edges,
            notes,
            events,
        };
        assert(copy.model().items =~= self.model().items);
        assert(copy.model().edges =~= self.model().edges);
        assert(copy.model().notes =~= self.model().notes);
        copy
    }

    fn all_events(&self) -> (events: Vec<Event>)
        ensures
            event_views(events@) == event_views(self.events@),
    {
        let mut events: Vec<Event> = Vec::new();
        let mut index: usize = 0;
        while index < self.events.len()
            invariant
                index <= self.events.len(),
                event_views(events@) == event_views(self.events@).subrange(0, index as int),
            decreases self.events.len() - index,
        {
            let ghost before = event_views(events@);
            events.push(self.events[index].duplicate());
            assert(event_views(events@) =~= before.push(self.events@[index as int]@));
            index = index + 1;
        }
        assert(event_views(events@) =~= event_views(self.events@));
        events
    }

    /// The position of the first item that `reference` names.
    fn find(&self, reference: &ItemReference) -> (found: Option<usize>)
        ensures
            match found {
                Some(position) => position as int == first_match(self.model().items, *reference),
                None => first_match(self.model().items, *reference) == -1,
            },
    {
        let ghost items = self.model().items;
        let mut index: usize = 0;
        while index < self.items.len()
            invariant
                index <= self.items.len(),
                items == item_views(self.items@),
                forall|j: int| 0 <= j < index ==> !reference_matches(#[trigger] items[j], *reference),
            decreases self.items.len() - index,
        {
            if item_matches(&self.items[index], reference) {
                proof {
                    lemma_first_match_at(items, *reference, index as int);
                }
                return Some(index);
            }
            index = index + 1;
        }
        proof {
            lemma_first_match_none(items, *reference);
        }
        None
    }

    /// The stable id of the first item that `reference` names.
    fn resolve_item(&self, reference: &ItemReference) -> (id: Option<String>)
        ensures
            id == resolve(self.model().items, *reference),
    {
        proof {
            lemma_first_match_found(self.model().items, *reference);
        }
        match self.find(reference) {
            Some(position) => Some(self.items[position].id.clone()),
            None => None,
        }
    }

    /// The position of the item that `reference` resolves to.
    fn resolve_item_position(&self, reference: &ItemReference) -> (found: Option<usize>)
        ensures
            match found {
                Some(position) => position as int == resolve_position(self.model().items, *reference),
                None => resolve_position(self.model().items, *reference) == -1,
            },
    {
        proof {
            lemma_first_match_found(self.model().items, *reference);
        }
        match self.resolve_item(reference) {
            Some(id) => self.find(&ItemReference::Stable(id)),
            None => None,
        }
    }

    fn alias_exists(&self, alias: &String) -> (result: bool)
        ensures
            result == alias_taken(self.model().items, alias@),
    {
        let ghost items = self.model().items;
        let mut index: usize = 0;
        while index < self.items.len()
            invariant
                index <= self.items.len(),
                items == item_views(self.items@),
                forall|j: int| 0 <= j < index ==> !has_alias(#[trigger] items[j], alias@),
            decreases self.items.len() - index,
        {
            if carries_alias(&self.items[index], alias) {
                assert(has_alias(items[index as int], alias@));
                return true;
            }
            index = index + 1;
        }
        false
    }

    fn item_is_ready(&self, id: &String) -> (result: bool)
        ensures
            result == item_ready(self.model(), *id),
    {
        let mut index: usize = 0;
        while index < self.edges.len()
            invariant
                index <= self.edges.len(),
                forall|e: int| 0 <= e < index ==> dependency_met(self.model(), *id, #[trigger] self.edges@[e]),
            decreases self.edges.len() - index,
        {
            let edge = &self.edges[index];
            if edge.kind == EdgeKind::DependsOn && edge.source == *id {
                let met = match &edge.target {
                    EdgeTarget::Item(target) => match self.find(&ItemReference::Stable(target.clone())) {
                        Some(position) => {
                            proof {
                                lemma_first_match_found(
                                    self.model().items,
                                    ItemReference::Stable(*target),
                                );
                            }
                            self.items[position].status == ItemStatus::Closed
                        },
                        None => false,
                    },
                    EdgeTarget::External(_) => false,
                };
                if !met {
                    assert(self.model().edges[index as int] == self.edges@[index as int]);
                    assert(!dependency_met(self.model(), *id, self.model().edges[index as int]));
                    return false;
                }
            }
            index = index + 1;
        }
        true
    }

    fn item_selected(&self, selector: &Selector, item: &Item) -> (result: bool)
        ensures
            result == selects(self.model(), *selector, item@),
    {
        match selector {
            Selector::Ready => item.status == ItemStatus::Open && self.item_is_ready(&item.id),
            Selector::Blocked => item.status == ItemStatus::Open && !self.item_is_ready(&item.id),
            Selector::WithStatus(status) => item.status == *status,
            Selector::WithKind(kind) => item.kind == *kind,
            Selector::WithId(id) => item.id == *id,
        }
    }

    /// The first `limit` items that `selector` keeps.
    fn select(&self, selector: &Selector, limit: usize) -> (items: Vec<Item>)
        ensures
            item_views(items@) == limited(
                selected(self.model(), *selector, self.model().items),
                limit as int,
            ),
    {
        let ghost all = self.model().items;
        let mut kept: Vec<Item> = Vec::new();
        let mut index: usize = 0;
        while index < self.items.len()
            invariant
                index <= self.items.len(),
                all == item_views(self.items@),
                item_views(kept@) == limited(
                    selected(self.model(), *selector, all.subrange(0, index as int)),
                    limit as int,
                ),
            decreases self.items.len() - index,
        {
            let ghost prefix = all.subrange(0, index as int);
            let ghost chosen = selected(self.model(), *selector, prefix);
            assert(all.subrange(0, index as int + 1).drop_last() =~= prefix);
            assert(all.subrange(0, index as int + 1).last() == self.items@[index as int]@);
            let keep = self.item_selected(selector, &self.items[index]);
            if keep {
                let ghost next_chosen = chosen.push(self.items@[index as int]@);
                if kept.len() < limit {
                    let ghost before = item_views(kept@);
                    kept.push(self.items[index].duplicate());
                    assert(item_views(kept@) =~= before.push(self.items@[index as int]@));
                    assert(item_views(kept@) =~= limited(next_chosen, limit as int));
                } else {
                    assert(next_chosen.take(limit as int) =~= chosen.take(limit as int));
                }
            }
            index = index + 1;
        }
        assert(all.subrange(0, all.len() as int) =~= all);
        kept
    }

    fn ids_of(items: &Vec<Item>) -> (ids: Vec<String>)
        ensures
            ids@ == item_ids(item_views(items@)),
    {
        let mut ids: Vec<String> = Vec::new();
        let mut index: usize = 0;
        while index < items.len()
            invariant
                index <= items.len(),
                ids@ == item_ids(item_views(items@)).subrange(0, index as int),
            decreases items.len() - index,
        {
            ids.push(items[index].id.clone());
            assert(ids@ =~= item_ids(item_views(items@)).subrange(0, index as int + 1));
            index = index + 1;
        }
        ids
    }

    fn edges_for_items(&self, ids: &Vec<String>) -> (edges: Vec<Edge>)
        ensures
            edges@ == edges_touching(self.model().edges, ids@),
    {
        let mut edges: Vec<Edge> = Vec::new();
        let mut index: usize = 0;
        while index < self.edges.len()
            invariant
                index <= self.edges.len(),
                edges@ == edges_touching(self.edges@.subrange(0, index as int), ids@),
            decreases self.edges.len() - index,
        {
            assert(self.edges@.subrange(0, index as int + 1).drop_last() =~= self.edges@.subrange(
                0,
                index as int,
            ));
            let edge = &self.edges[index];
            let touches = contains_id(ids, &edge.source) || match &edge.target {
                EdgeTarget::Item(target) => contains_id(ids, target),
                EdgeTarget::External(_) => false,
            };
            if touches {
                edges.push(edge.duplicate());
            }
            index = index + 1;
        }
        assert(self.edges@.subrange(0, self.edges@.len() as int) =~= self.edges@);
        edges
    }

    fn notes_for_items(&self, ids: &Vec<String>) -> (notes: Vec<Note>)
        ensures
            notes@ == notes_on(self.model().notes, ids@),
    {
        let mut notes: Vec<Note> = Vec::new();
        let mut index: usize = 0;
        while index < self.notes.len()
            invariant
                index <= self.notes.len(),
                notes@ == notes_on(self.notes@.subrange(0, index as int), ids@),
            decreases self.notes.len() - index,
        {
            assert(self.notes@.subrange(0, index as int + 1).drop_last() =~= self.notes@.subrange(
                0,
                index as int,
            ));
            if contains_id(ids, &self.notes[index].item) {
                notes.push(self.notes[index].duplicate());
            }
            index = index + 1;
        }
        assert(self.notes@.subrange(0, self.notes@.len() as int) =~= self.notes@);
        notes
    }

    fn view_for_items(&self, items: Vec<Item>) -> (view: MemoryView)
        ensures
            is_items_view(self.model(), view, item_views(items@)),
    {
        let ids = Self::ids_of(&items);
        let edges = self.edges_for_items(&ids);
        let notes = self.notes_for_items(&ids);
        let events = self.all_events();
        MemoryView { items, edges, notes, events }
    }

    fn recent_events_view(&self, limit: usize) -> (view: MemoryView)
        ensures
            view.items@.len() == 0,
            view.edges@.len() == 0,
            view.notes@.len() == 0,
            event_views(view.events@) == recent_events(self.model().events, limit as int),
    {
        let length = self.events.len();
        let start = if length <= limit {
            0
        } else {
            length - limit
        };
        let mut events: Vec<Event> = Vec::new();
        let mut index = start;
        while index < length
            invariant
                start <= index <= length,
                length == self.events@.len(),
                event_views(events@) == event_views(self.events@).subrange(
                    start as int,
                    index as int,
                ),
            decreases length - index,
        {
            let ghost before = event_views(events@);
            events.push(self.events[index].duplicate());
            assert(event_views(events@) =~= before.push(self.events@[index as int]@));
            index = index + 1;
        }
        assert(event_views(events@) =~= recent_events(self.model().events, limit as int));
        MemoryView { items: Vec::new(), edges: Vec::new(), notes: Vec::new(), events }
    }

    /// Answers a query (see `query_answer`).
    fn query(&self, query: Query) -> (reply: MindReply)
        ensures
            query_answer(self.model(), query, reply),
    {
        let limit = query.limit as usize;
        let selector = match query.kind {
            QueryKind::RecentEvents => {
                return MindReply::View(self.recent_events_view(limit));
            },
            QueryKind::Ready => Selector::Ready,
            QueryKind::Blocked => Selector::Blocked,
            QueryKind::Open => Selector::WithStatus(ItemStatus::Open),
            QueryKind::ByKind(kind) => Selector::WithKind(kind),
            QueryKind::ByStatus(status) => Selector::WithStatus(status),
            QueryKind::ByItem(reference) => match self.resolve_item(&reference) {
                Some(id) => Selector::WithId(id),
                None => {
                    return MindReply::Rejection(Rejection { reason: RejectionReason::UnknownItem });
                },
            },
            QueryKind::ByAlias(alias) => match self.resolve_item(&ItemReference::Alias(alias)) {
                Some(id) => Selector::WithId(id),
                None => {
                    return MindReply::Rejection(Rejection { reason: RejectionReason::UnknownItem });
                },
            },
        };
        let items = self.select(&selector, limit);
        MindReply::View(self.view_for_items(items))
    }

    fn rejected(reason: RejectionReason) -> (reply: MindReply)
        ensures
            reply == MindReply::Rejection(Rejection { reason }),
    {
        MindReply::Rejection(Rejection { reason })
    }

    /// Mints the next event header for `actor`.
    fn next_header(&mut self, actor: &String) -> (header: EventHeader)
        requires
            can_mint_header(old(self).model()),
        ensures
            next_header_is(old(self).model(), *actor, header),
            final(self).model() == after_header(old(self).model()),
    {
        self.next_event = self.next_event + 1;
        self.next_operation = self.next_operation + 1;
        EventHeader {
            event: self.next_event,
            operation: ShortIdMint::new(self.next_operation).operation_id(),
            actor: actor.clone(),
        }
    }

    fn open(&mut self, opening: Opening, actor: &String) -> (reply: MindReply)
        requires
            can_mint_item(old(self).model()),
        ensures
            opened(old(self).model(), opening, *actor, final(self).model(), reply),
    {
        self.next_item = self.next_item + 1;
        let mint = ShortIdMint::new(self.next_item);
        let header = self.next_header(actor);
        let item = Item {
            id: mint.stable_item_id(),
            display_id: mint.display_id(),
            aliases: Vec::new(),
            kind: opening.kind,
            status: ItemStatus::Open,
            priority: opening.priority,
            title: opening.title,
            body: opening.body,
        };
        let event = ItemOpenedEvent { header, item };
        let ghost items_before = self.items@;
        let ghost events_before = self.events@;
        self.items.push(event.item.duplicate());
        assert(item_views(self.items@) =~= item_views(items_before).push(event.item@));
        self.events.push(
            Event::ItemOpened(
                ItemOpenedEvent { header: event.header.duplicate(), item: event.item.duplicate() },
            ),
        );
        assert(event_views(self.events@) =~= event_views(events_before).push(
            EventView::ItemOpened(event.header, event.item@),
        ));
        MindReply::OpeningReceipt(OpeningReceipt { event })
    }

    fn add_note(&mut self, submission: NoteSubmission, actor: &String) -> (reply: MindReply)
        requires
            resolve(old(self).model().items, submission.item) is Some ==> can_mint_header(
                old(self).model(),
            ),
        ensures
            noted(old(self).model(), submission, *actor, final(self).model(), reply),
    {
        let item = match self.resolve_item(&submission.item) {
            Some(item) => item,
            None => {
                return Self::rejected(RejectionReason::UnknownItem);
            },
        };
        let header = self.next_header(actor);
        let note = Note { event: header.event, item, author: actor.clone(), body: submission.body };
        let event = NoteAddedEvent { header, note };
        let ghost events_before = self.events@;
        self.notes.push(event.note.duplicate());
        self.events.push(
            Event::NoteAdded(
                NoteAddedEvent { header: event.header.duplicate(), note: event.note.duplicate() },
            ),
        );
        assert(event_views(self.events@) =~= event_views(events_before).push(
            EventView::NoteAdded(event),
        ));
        MindReply::NoteReceipt(NoteReceipt { event })
    }

    fn resolve_link_target(&self, target: LinkTarget) -> (resolved: Option<EdgeTarget>)
        ensures
            resolved == resolve_target(self.model().items, target),
    {
        match target {
            LinkTarget::Item(reference) => match self.resolve_item(&reference) {
                Some(id) => Some(EdgeTarget::Item(id)),
                None => None,
            },
            LinkTarget::External(external) => Some(EdgeTarget::External(external)),
        }
    }

    fn link(&mut self, link: Link, actor: &String) -> (reply: MindReply)
        requires
            (resolve(old(self).model().items, link.source) is Some && resolve_target(
                old(self).model().items,
                link.target,
            ) is Some) ==> can_mint_header(old(self).model()),
        ensures
            linked(old(self).model(), link, *actor, final(self).model(), reply),
    {
        let source = match self.resolve_item(&link.source) {
            Some(source) => source,
            None => {
                return Self::rejected(RejectionReason::UnknownItem);
            },
        };
        let target = match self.resolve_link_target(link.target) {
            Some(target) => target,
            None => {
                return Self::rejected(RejectionReason::UnknownItem);
            },
        };
        let header = self.next_header(actor);
        let edge = Edge { event: header.event, source, kind: link.kind, target, body: link.body };
        let event = EdgeAddedEvent { header, edge };
        let ghost events_before = self.events@;
        self.edges.push(event.edge.duplicate());
        self.events.push(
            Event::EdgeAdded(
                EdgeAddedEvent { header: event.header.duplicate(), edge: event.edge.duplicate() },
            ),
        );
        assert(event_views(self.events@) =~= event_views(events_before).push(
            EventView::EdgeAdded(event),
        ));
        MindReply::LinkReceipt(LinkReceipt { event })
    }

    fn change_status(&mut self, change: StatusChange, actor: &String) -> (reply: MindReply)
        requires
            resolve_position(old(self).model().items, change.item) >= 0 ==> can_mint_header(
                old(self).model(),
            ),
        ensures
            status_changed(old(self).model(), change, *actor, final(self).model(), reply),
    {
        let position = match self.resolve_item_position(&change.item) {
            Some(position) => position,
            None => {
                return Self::rejected(RejectionReason::UnknownItem);
            },
        };
        proof {
            lemma_first_match_found(self.model().items, change.item);
            let found = first_match(self.model().items, change.item);
            lemma_first_match_found(
                self.model().items,
                ItemReference::Stable(self.model().items[found].id),
            );
        }
        let ghost items_before = self.items@;
        let mut updated = self.items[position].duplicate();
        updated.status = change.status;
        let item = updated.id.clone();
        self.items.set(position, updated);
        assert(item_views(self.items@) =~= item_views(items_before).update(
            position as int,
            ItemView { status: change.status, ..items_before[position as int]@ },
        ));
        let header = self.next_header(actor);
        let event = StatusChangedEvent { header, item, status: change.status, body: change.body };
        let ghost events_before = self.events@;
        self.events.push(
            Event::StatusChanged(
                StatusChangedEvent {
                    header: event.header.duplicate(),
                    item: event.item.clone(),
                    status: event.status,
                    body: crate::contract::duplicate_optional_string(&event.body),
                },
            ),
        );
        assert(event_views(self.events@) =~= event_views(events_before).push(
            EventView::StatusChanged(event),
        ));
        MindReply::StatusReceipt(StatusReceipt { event })
    }

    fn add_alias(&mut self, assignment: AliasAssignment, actor: &String) -> (reply: MindReply)
        requires
            (!alias_taken(old(self).model().items, assignment.alias@) && resolve_position(
                old(self).model().items,
                assignment.item,
            ) >= 0) ==> can_mint_header(old(self).model()),
        ensures
            alias_added(old(self).model(), assignment, *actor, final(self).model(), reply),
    {
        if self.alias_exists(&assignment.alias) {
            return Self::rejected(RejectionReason::DuplicateAlias);
        }
        let position = match self.resolve_item_position(&assignment.item) {
            Some(position) => position,
            None => {
                return Self::rejected(RejectionReason::UnknownItem);
            },
        };
        proof {
            lemma_first_match_found(self.model().items, assignment.item);
            let found = first_match(self.model().items, assignment.item);
            lemma_first_match_found(
                self.model().items,
                ItemReference::Stable(self.model().items[found].id),
            );
        }
        let ghost items_before = self.items@;
        let mut updated = self.items[position].duplicate();
        let item = updated.id.clone();
        updated.aliases.push(assignment.alias.clone());
        self.items.set(position, updated);
        let ghost old_item = items_before[position as int]@;
        assert(item_views(self.items@) =~= item_views(items_before).update(
            position as int,
            ItemView { aliases: old_item.aliases.push(assignment.alias), ..old_item },
        ));
        let header = self.next_header(actor);
        let event = AliasAddedEvent { header, item, alias: assignment.alias };
        let ghost events_before = self.events@;
        self.events.push(
            Event::AliasAdded(
                AliasAddedEvent {
                    header: event.header.duplicate(),
                    item: event.item.clone(),
                    alias: event.alias.clone(),
                },
            ),
        );
        assert(event_views(self.events@) =~= event_views(events_before).push(
            EventView::AliasAdded(event),
        ));
        MindReply::AliasReceipt(AliasReceipt { event })
    }

    /// Serves a request sent by the graph's default actor.
    pub fn dispatch(&mut self, request: MindRequest) -> (reply: Option<MindReply>)
        requires
            can_serve(old(self).model(), request),
        ensures
            dispatched(
                old(self).model(),
                old(self).model().default_actor,
                request,
                final(self).model(),
                reply,
            ),
    {
        let actor = self.default_actor.clone();
        self.dispatch_envelope(MindEnvelope::new(actor, request))
    }

    /// Serves one request on behalf of the envelope's actor (see `dispatched`).
    pub fn dispatch_envelope(&mut self, envelope: MindEnvelope) -> (reply: Option<MindReply>)
        requires
            can_serve(old(self).model(), envelope.request),
        ensures
            dispatched(old(self).model(), envelope.actor, envelope.request, final(self).model(), reply),
    {
        let MindEnvelope { actor, request } = envelope;
        match request {
            MindRequest::Opening(opening) => Some(self.open(opening, &actor)),
            MindRequest::NoteSubmission(note) => Some(self.add_note(note, &actor)),
            MindRequest::Link(link) => Some(self.link(link, &actor)),
            MindRequest::StatusChange(change) => Some(self.change_status(change, &actor)),
            MindRequest::AliasAssignment(alias) => Some(self.add_alias(alias, &actor)),
            MindRequest::Query(query) => Some(self.query(query)),
            _ => None,
        }
    }
}


/// The path that names the mind's store. The library keeps the store's records in
/// memory and reads or writes nothing at this path; it carries the path for the
/// program that opens the store.
#[derive(Debug, Clone, PartialEq, Eq)]
pub struct StoreLocation {
    path: String,
}

impl StoreLocation {
    pub closed spec fn path(&self) -> Seq<char> {
        self.path@
    }

    pub fn new(path: &str) -> (location: Self)
        ensures
            location.path() == path@,
    {
        StoreLocation { path: String::from_str(path) }
    }

    pub fn as_str(&self) -> (text: &str)
        ensures
            text@ == self.path(),
    {
        self.path.as_str()
    }

    /// The store's path.
    pub fn as_path(&self) -> (path: &str)
        ensures
            path@ == self.path(),
    {
        self.path.as_str()
    }

    pub fn duplicate(&self) -> (copy: Self)
        ensures
            copy.path() == self.path(),
    {
        StoreLocation { path: self.path.clone() }
    }
}

/// The requests that change the graph when they succeed.
pub open spec fn is_memory_write(request: MindRequest) -> bool {
    ||| request is Opening
    ||| request is NoteSubmission
    ||| request is Link
    ||| request is StatusChange
    ||| request is AliasAssignment
}

/// The replies that report a committed change.
pub open spec fn is_committed(reply: Option<MindReply>) -> bool {
    match reply {
        Some(reply) => {
            ||| reply is OpeningReceipt
            ||| reply is NoteReceipt
            ||| reply is LinkReceipt
            ||| reply is StatusReceipt
            ||| reply is AliasReceipt
        },
        None => false,
    }
}

/// Whether a request is a memory write.
struct MemoryWrite {
    persists: bool,
}

impl MemoryWrite {
    fn from_request(request: &MindRequest) -> (write: Self)
        ensures
            write.persists == is_memory_write(*request),
    {
        let persists = match request {
            MindRequest::Opening(_)
            | MindRequest::NoteSubmission(_)
            | MindRequest::Link(_)
            | MindRequest::StatusChange(_)
            | MindRequest::AliasAssignment(_) => true,
            _ => false,
        };
        MemoryWrite { persists }
    }

    fn persists(&self) -> (result: bool)
        ensures
            result == self.persists,
    {
        self.persists
    }
}

/// Whether a reply reports a committed change.
pub fn committed(reply: &Option<MindReply>) -> (result: bool)
    ensures
        result == is_committed(*reply),
{
    match reply {
        Some(MindReply::OpeningReceipt(_))
        | Some(MindReply::NoteReceipt(_))
        | Some(MindReply::LinkReceipt(_))
        | Some(MindReply::StatusReceipt(_))
        | Some(MindReply::AliasReceipt(_)) => true,
        _ => false,
    }
}

/// The reply to a request, and the graph to commit when the request changed it.
pub struct MemoryStage {
    reply: Option<MindReply>,
    graph: Option<MemoryGraph>,
}

impl MemoryStage {
    pub closed spec fn staged_reply(&self) -> Option<MindReply> {
        self.reply
    }

    /// The model of the graph to commit, if any.
    pub closed spec fn staged_graph(&self) -> Option<GraphModel> {
        match self.graph {
            Some(graph) => Some(graph.model()),
            None => None,
        }
    }

    pub fn reply(&self) -> (reply: &Option<MindReply>)
        ensures
            *reply == self.staged_reply(),
    {
        &self.reply
    }

    pub fn graph(&self) -> (graph: Option<&MemoryGraph>)
        ensures
            match graph {
                Some(graph) => self.staged_graph() == Some(graph.model()),
                None => self.staged_graph() is None,
            },
    {
        match &self.graph {
            Some(graph) => Some(graph),
            None => None,
        }
    }

    pub fn into_parts(self) -> (parts: (Option<MindReply>, Option<MemoryGraph>))
        ensures
            parts.0 == self.staged_reply(),
            match parts.1 {
                Some(graph) => self.staged_graph() == Some(graph.model()),
                None => self.staged_graph() is None,
            },
    {
        (self.reply, self.graph)
    }
}

/// The mind's memory state: where it is stored, and the graph it holds.
pub struct MemoryState {
    store: StoreLocation,
    graph: MemoryGraph,
}

/// The name that requests without an envelope are recorded under.
pub open spec fn default_actor_name() -> Seq<char> {
    seq!['p', 'e', 'r', 's', 'o', 'n', 'a', '-', 'm', 'i', 'n', 'd']
}

impl MemoryState {
    pub closed spec fn model(&self) -> GraphModel {
        self.graph.model()
    }

    pub closed spec fn location(&self) -> Seq<char> {
        self.store.path()
    }

    /// An empty graph stored at `store`.
    pub fn open(store: StoreLocation) -> (state: Self)
        ensures
            state.location() == store.path(),
            state.model().default_actor@ == default_actor_name(),
            state.model().next_item == 0,
            state.model().next_event == 0,
            state.model().next_operation == 0,
            state.model().items.len() == 0,
            state.model().edges.len() == 0,
            state.model().notes.len() == 0,
            state.model().events.len() == 0,
    {
        Self::open_with_graph(store, None)
    }

    /// The state at `store`, holding `graph` when one was loaded, else an empty graph.
    pub fn open_with_graph(store: StoreLocation, graph: Option<MemoryGraph>) -> (state: Self)
        ensures
            state.location() == store.path(),
            match graph {
                Some(graph) => state.model() == graph.model(),
                None => {
                    &&& state.model().default_actor@ == default_actor_name()
                    &&& state.model().next_item == 0
                    &&& state.model().next_event == 0
                    &&& state.model().next_operation == 0
                    &&& state.model().items.len() == 0
                    &&& state.model().edges.len() == 0
                    &&& state.model().notes.len() == 0
                    &&& state.model().events.len() == 0
                },
            },
    {
        let graph = match graph {
            Some(graph) => graph,
            None => {
                proof {
                    reveal_strlit("persona-mind");
                }
                let actor = String::from_str("persona-mind");
                assert(actor@ =~= default_actor_name());
                MemoryGraph::new(actor)
            },
        };
        MemoryState { store, graph }
    }

    /// Whether the state has room for what `request` would mint (see `can_serve`).
    pub fn can_serve_request(&self, request: &MindRequest) -> (result: bool)
        ensures
            result == can_serve(self.model(), *request),
    {
        self.graph.can_serve_request(request)
    }

    /// Whether the state has room to serve any request (see `MemoryGraph::has_room`).
    pub fn has_room(&self) -> (room: bool)
        ensures
            room == can_mint_item(self.model()),
    {
        self.graph.has_room()
    }

    pub fn store(&self) -> (store: &StoreLocation)
        ensures
            store.path() == self.location(),
    {
        &self.store
    }

    /// Serves a request on behalf of the default actor (see `dispatched`).
    pub fn dispatch(&mut self, request: MindRequest) -> (reply: Option<MindReply>)
        requires
            can_serve(old(self).model(), request),
        ensures
            dispatched(
                old(self).model(),
                old(self).model().default_actor,
                request,
                final(self).model(),
                reply,
            ),
            final(self).location() == old(self).location(),
    {
        self.graph.dispatch(request)
    }

    /// Serves the envelope's request on behalf of its actor (see `dispatched`).
    pub fn dispatch_envelope(&mut self, envelope: MindEnvelope) -> (reply: Option<MindReply>)
        requires
            can_serve(old(self).model(), envelope.request),
        ensures
            dispatched(old(self).model(), envelope.actor, envelope.request, final(self).model(), reply),
            final(self).location() == old(self).location(),
    {
        self.graph.dispatch_envelope(envelope)
    }

    /// Serves the envelope's request on a copy of the graph, leaving this state as it
    /// is: the stage holds the reply, and the changed graph when the request is a
    /// memory write whose reply reports a commit.
    pub fn stage_envelope(&self, envelope: MindEnvelope) -> (stage: MemoryStage)
        requires
            can_serve(self.model(), envelope.request),
        ensures
            dispatched(
                self.model(),
                envelope.actor,
                envelope.request,
                match stage.staged_graph() {
                    Some(graph) => graph,
                    None => self.model(),
                },
                stage.staged_reply(),
            ),
            stage.staged_graph() is Some <==> (is_memory_write(envelope.request) && is_committed(
                stage.staged_reply(),
            )),
    {
        let write = MemoryWrite::from_request(envelope.request());
        let mut next_graph = self.graph.duplicate();
        let reply = next_graph.dispatch_envelope(envelope);
        let graph = if write.persists() && committed(&reply) {
            Some(next_graph)
        } else {
            None
        };
        MemoryStage { reply, graph }
    }

    /// Replaces the graph with a staged one.
    pub fn replace_graph(&mut self, graph: MemoryGraph)
        ensures
            final(self).model() == graph.model(),
            final(self).location() == old(self).location(),
    {
        self.graph = graph;
    }
}


/// The event log's length is the number of events minted so far.
pub open spec fn log_counts_events(model: GraphModel) -> bool {
    model.events.len() == model.next_event
}

/// Every request the reducer serves either commits and appends exactly one event to the
/// log, leaving the earlier events as they were, or commits nothing and leaves the
/// whole graph unchanged.
pub proof fn lemma_dispatch_appends_at_most_one_event(
    before: GraphModel,
    actor: String,
    request: MindRequest,
    after: GraphModel,
    reply: Option<MindReply>,
)
    requires
        dispatched(before, actor, request, after, reply),
    ensures
        is_committed(reply) ==> after.events.len() == before.events.len() + 1
            && after.events.subrange(0, before.events.len() as int) == before.events
            && after.next_event == before.next_event + 1,
        !is_committed(reply) ==> after == before,
{
    if is_committed(reply) {
        assert(after.events.subrange(0, before.events.len() as int) =~= before.events);
    }
}

/// The log keeps counting the events minted: every served request keeps the number
/// of logged events equal to the event counter.
pub proof fn lemma_dispatch_keeps_log_count(
    before: GraphModel,
    actor: String,
    request: MindRequest,
    after: GraphModel,
    reply: Option<MindReply>,
)
    requires
        dispatched(before, actor, request, after, reply),
        log_counts_events(before),
    ensures
        log_counts_events(after),
{
    lemma_dispatch_appends_at_most_one_event(before, actor, request, after, reply);
}

/// A query never changes the graph.
pub proof fn lemma_query_is_read_only(
    before: GraphModel,
    actor: String,
    query: Query,
    after: GraphModel,
    reply: Option<MindReply>,
)
    requires
        dispatched(before, actor, MindRequest::Query(query), after, reply),
    ensures
        after == before,
        !is_committed(reply),
{
}

/// An opened item can be named by its stable id and by its display id.
pub proof fn lemma_opened_item_resolves(
    before: GraphModel,
    opening: Opening,
    actor: String,
    after: GraphModel,
    reply: MindReply,
)
    requires
        opened(before, opening, actor, after, reply),
    ensures
        reply matches MindReply::OpeningReceipt(receipt) && resolve(
            after.items,
            ItemReference::Stable(receipt.event.item.id),
        ) is Some && resolve(after.items, ItemReference::Display(receipt.event.item.display_id)) is Some,
{
    let receipt = reply->OpeningReceipt_0;
    let last = after.items.len() - 1;
    let stable = ItemReference::Stable(receipt.event.item.id);
    let display = ItemReference::Display(receipt.event.item.display_id);
    assert(after.items[last] == receipt.event.item@);
    assert(after.items.drop_last() =~= before.items);
    lemma_first_match_found(after.items, stable);
    lemma_first_match_found(after.items, display);
    if first_match(after.items, stable) < 0 {
        assert(first_match(after.items.drop_last(), stable) < 0);
        assert(reference_matches(after.items.last(), stable));
    }
    if first_match(after.items, display) < 0 {
        assert(first_match(after.items.drop_last(), display) < 0);
        assert(reference_matches(after.items.last(), display));
    }
}

/// Every open item is in exactly one of the ready and blocked views.
pub proof fn lemma_open_items_ready_or_blocked(model: GraphModel, item: ItemView)
    requires
        item.status == ItemStatus::Open,
    ensures
        selects(model, Selector::Ready, item) != selects(model, Selector::Blocked, item),
{
}

/// An item that depends on an item that is not closed is never ready.
pub proof fn lemma_unmet_dependency_blocks(model: GraphModel, item: ItemView, edge: int)
    requires
        0 <= edge < model.edges.len(),
        model.edges[edge].kind == EdgeKind::DependsOn,
        model.edges[edge].source@ == item.id@,
        !dependency_met(model, item.id, model.edges[edge]),
    ensures
        !selects(model, Selector::Ready, item),
{
}

proof fn lemma_selected_members(model: GraphModel, selector: Selector, items: Seq<ItemView>)
    ensures
        forall|i: int|
            0 <= i < selected(model, selector, items).len() ==> selects(
                model,
                selector,
                #[trigger] selected(model, selector, items)[i],
            ),
    decreases items.len(),
{
    if items.len() > 0 {
        lemma_selected_members(model, selector, items.drop_last());
        let rest = selected(model, selector, items.drop_last());
        let whole = selected(model, selector, items);
        assert forall|i: int| 0 <= i < whole.len() implies selects(model, selector, #[trigger] whole[i]) by {
            if i < rest.len() {
                assert(whole[i] == rest[i]);
            }
        }
    }
}

/// Ready work waits on nothing unfinished: every `DependsOn` edge out of an item that
/// a `Ready` query shows points at an item of the graph whose status is `Closed`.
pub proof fn lemma_ready_view_dependencies_closed(
    model: GraphModel,
    query: Query,
    reply: MindReply,
    shown: int,
    edge: int,
)
    requires
        query.kind is Ready,
        query_answer(model, query, reply),
        0 <= shown < reply->View_0.items@.len(),
        0 <= edge < model.edges.len(),
        model.edges[edge].kind == EdgeKind::DependsOn,
        model.edges[edge].source@ == reply->View_0.items@[shown]@.id@,
    ensures
        model.edges[edge].target matches EdgeTarget::Item(target) && exists|j: int|
            0 <= j < model.items.len() && model.items[j].id@ == target@ && model.items[j].status
                == ItemStatus::Closed,
{
    let view = reply->View_0;
    let chosen = selected(model, Selector::Ready, model.items);
    lemma_selected_members(model, Selector::Ready, model.items);
    let listed = limited(chosen, query.limit as int);
    assert(item_views(view.items@) == listed);
    assert(item_views(view.items@)[shown] == view.items@[shown]@);
    assert(listed[shown] == chosen[shown]);
    let item = chosen[shown];
    assert(selects(model, Selector::Ready, item));
    assert(dependency_met(model, item.id, model.edges[edge]));
    match model.edges[edge].target {
        EdgeTarget::Item(target) => {
            lemma_first_match_found(model.items, ItemReference::Stable(target));
            let found = first_match(model.items, ItemReference::Stable(target));
            assert(model.items[found].id@ == target@);
        },
        EdgeTarget::External(_) => {},
    }
}

/// An open item that depends on an item that is not closed (every item of the
/// target's id has another status) is blocked work, never ready work.
pub proof fn lemma_unfinished_dependency_blocks(model: GraphModel, item: ItemView, edge: int, target: String)
    requires
        item.status == ItemStatus::Open,
        0 <= edge < model.edges.len(),
        model.edges[edge].kind == EdgeKind::DependsOn,
        model.edges[edge].source@ == item.id@,
        model.edges[edge].target == EdgeTarget::Item(target),
        forall|j: int|
            0 <= j < model.items.len() && (#[trigger] model.items[j]).id@ == target@
                ==> model.items[j].status != ItemStatus::Closed,
    ensures
        selects(model, Selector::Blocked, item),
        !selects(model, Selector::Ready, item),
{
    lemma_first_match_found(model.items, ItemReference::Stable(target));
    let found = first_match(model.items, ItemReference::Stable(target));
    if found >= 0 {
        assert(model.items[found].id@ == target@);
    }
    assert(!dependency_met(model, item.id, model.edges[edge]));
}

/// The recent-events view is the newest end of the log: as many events as the limit
/// allows, oldest first, ending with the newest event of the log.
pub proof fn lemma_recent_events_are_newest(model: GraphModel, query: Query, reply: MindReply)
    requires
        query.kind is RecentEvents,
        query_answer(model, query, reply),
    ensures
        ({
            let shown = event_views(reply->View_0.events@);
            let total = model.events.len();
            &&& shown.len() == (if total <= query.limit { total } else { query.limit as nat })
            &&& forall|i: int| 0 <= i < shown.len() ==> #[trigger] shown[i] == model.events[total - shown.len() + i]
        }),
{
}

/// Refused mutations and requests that the reducer does not serve leave the graph
/// unchanged.
pub proof fn lemma_rejection_changes_nothing(
    before: GraphModel,
    actor: String,
    request: MindRequest,
    after: GraphModel,
    reply: Option<MindReply>,
)
    requires
        dispatched(before, actor, request, after, reply),
        reply is None || reply->Some_0 is Rejection,
    ensures
        after == before,
{
}

} // verus!
