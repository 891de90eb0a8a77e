//! The text records of the mind's command line: requests as a person writes them,
//! checked and turned into contract requests, and contract replies turned back into
//! text records.

use vstd::prelude::*;

use crate::contract::{
    EdgeKind, ItemKind, ItemPriority, ItemStatus, MindReply, MindRequest, RejectionReason, RoleName,
    ScopeReference,
};
use crate::contract;
use crate::error::Error;
use crate::path::is_absolute;

verus! {

/// The text form of `RoleName`.
#[derive(Debug, Clone, Copy, PartialEq, Eq, Structural)]
pub enum RoleNameText {
    Operator,
    OperatorAssistant,
    Designer,
    DesignerAssistant,
    SystemSpecialist,
    SystemAssistant,
    Poet,
    PoetAssistant,
}

/// The contract value that a `RoleNameText` names.
pub open spec fn role_name_of(text: RoleNameText) -> RoleName {
    match text {
        RoleNameText::Operator => RoleName::Operator,
        RoleNameText::OperatorAssistant => RoleName::OperatorAssistant,
        RoleNameText::Designer => RoleName::Designer,
        RoleNameText::DesignerAssistant => RoleName::DesignerAssistant,
        RoleNameText::SystemSpecialist => RoleName::SystemSpecialist,
        RoleNameText::SystemAssistant => RoleName::SystemAssistant,
        RoleNameText::Poet => RoleName::Poet,
        RoleNameText::PoetAssistant => RoleName::PoetAssistant,
    }
}

/// The text form of a `RoleName`.
pub open spec fn role_name_text_of(role: RoleName) -> RoleNameText {
    match role {
        RoleName::Operator => RoleNameText::Operator,
        RoleName::OperatorAssistant => RoleNameText::OperatorAssistant,
        RoleName::Designer => RoleNameText::Designer,
        RoleName::DesignerAssistant => RoleNameText::DesignerAssistant,
        RoleName::SystemSpecialist => RoleNameText::SystemSpecialist,
        RoleName::SystemAssistant => RoleNameText::SystemAssistant,
        RoleName::Poet => RoleNameText::Poet,
        RoleName::PoetAssistant => RoleNameText::PoetAssistant,
    }
}

impl RoleNameText {
    pub fn from_contract(role: RoleName) -> (text: Self)
        ensures
            text == role_name_text_of(role),
    {
        match role {
            RoleName::Operator => RoleNameText::Operator,
            RoleName::OperatorAssistant => RoleNameText::OperatorAssistant,
            RoleName::Designer => RoleNameText::Designer,
            RoleName::DesignerAssistant => RoleNameText::DesignerAssistant,
            RoleName::SystemSpecialist => RoleNameText::SystemSpecialist,
            RoleName::SystemAssistant => RoleNameText::SystemAssistant,
            RoleName::Poet => RoleNameText::Poet,
            RoleName::PoetAssistant => RoleNameText::PoetAssistant,
        }
    }

    pub fn into_contract(self) -> (role: RoleName)
        ensures
            role == role_name_of(self),
    {
        match self {
            RoleNameText::Operator => RoleName::Operator,
            RoleNameText::OperatorAssistant => RoleName::OperatorAssistant,
            RoleNameText::Designer => RoleName::Designer,
            RoleNameText::DesignerAssistant => RoleName::DesignerAssistant,
            RoleNameText::SystemSpecialist => RoleName::SystemSpecialist,
            RoleNameText::SystemAssistant => RoleName::SystemAssistant,
            RoleNameText::Poet => RoleName::Poet,
            RoleNameText::PoetAssistant => RoleName::PoetAssistant,
        }
    }
}

/// Naming a `RoleName` by its text form and reading the text back gives it again, and
/// the other way round.
pub proof fn lemma_role_name_text_round_trip(role: RoleName, text: RoleNameText)
    ensures
        role_name_of(role_name_text_of(role)) == role,
        role_name_text_of(role_name_of(text)) == text,
{
}

/// The text form of `ItemKind`.
#[derive(Debug, Clone, Copy, PartialEq, Eq, Structural)]
pub enum ItemKindText {
    Task,
    Defect,
    Question,
    Decision,
    Note,
    Handoff,
}

/// The contract value that a `ItemKindText` names.
pub open spec fn item_kind_of(text: ItemKindText) -> ItemKind {
    match text {
        ItemKindText::Task => ItemKind::Task,
        ItemKindText::Defect => ItemKind::Defect,
        ItemKindText::Question => ItemKind::Question,
        ItemKindText::Decision => ItemKind::Decision,
        ItemKindText::Note => ItemKind::Note,
        ItemKindText::Handoff => ItemKind::Handoff,
    }
}

/// The text form of a `ItemKind`.
pub open spec fn item_kind_text_of(kind: ItemKind) -> ItemKindText {
    match kind {
        ItemKind::Task => ItemKindText::Task,
        ItemKind::Defect => ItemKindText::Defect,
        ItemKind::Question => ItemKindText::Question,
        ItemKind::Decision => ItemKindText::Decision,
        ItemKind::Note => ItemKindText::Note,
        ItemKind::Handoff => ItemKindText::Handoff,
    }
}

impl ItemKindText {
    pub fn from_contract(kind: ItemKind) -> (text: Self)
        ensures
            text == item_kind_text_of(kind),
    {
        match kind {
            ItemKind::Task => ItemKindText::Task,
            ItemKind::Defect => ItemKindText::Defect,
            ItemKind::Question => ItemKindText::Question,
            ItemKind::Decision => ItemKindText::Decision,
            ItemKind::Note => ItemKindText::Note,
            ItemKind::Handoff => ItemKindText::Handoff,
        }
    }

    pub fn into_contract(self) -> (kind: ItemKind)
        ensures
            kind == item_kind_of(self),
    {
        match self {
            ItemKindText::Task => ItemKind::Task,
            ItemKindText::Defect => ItemKind::Defect,
            ItemKindText::Question => ItemKind::Question,
            ItemKindText::Decision => ItemKind::Decision,
            ItemKindText::Note => ItemKind::Note,
            ItemKindText::Handoff => ItemKind::Handoff,
        }
    }
}

/// Naming an `ItemKind` by its text form and reading the text back gives it again, and
/// the other way round.
pub proof fn lemma_item_kind_text_round_trip(kind: ItemKind, text: ItemKindText)
    ensures
        item_kind_of(item_kind_text_of(kind)) == kind,
        item_kind_text_of(item_kind_of(text)) == text,
{
}

/// The text form of `ItemPriority`.
#[derive(Debug, Clone, Copy, PartialEq, Eq, Structural)]
pub enum ItemPriorityText {
    Critical,
    High,
    Normal,
    Low,
    Backlog,
}

/// The contract value that a `ItemPriorityText` names.
pub open spec fn item_priority_of(text: ItemPriorityText) -> ItemPriority {
    match text {
        ItemPriorityText::Critical => ItemPriority::Critical,
        ItemPriorityText::High => ItemPriority::High,
        ItemPriorityText::Normal => ItemPriority::Normal,
        ItemPriorityText::Low => ItemPriority::Low,
        ItemPriorityText::Backlog => ItemPriority::Backlog,
    }
}

/// The text form of a `ItemPriority`.
pub open spec fn item_priority_text_of(priority: ItemPriority) -> ItemPriorityText {
    match priority {
        ItemPriority::Critical => ItemPriorityText::Critical,
        ItemPriority::High => ItemPriorityText::High,
        ItemPriority::Normal => ItemPriorityText::Normal,
        ItemPriority::Low => ItemPriorityText::Low,
        ItemPriority::Backlog => ItemPriorityText::Backlog,
    }
}

impl ItemPriorityText {
    pub fn from_contract(priority: ItemPriority) -> (text: Self)
        ensures
            text == item_priority_text_of(priority),
    {
        match priority {
            ItemPriority::Critical => ItemPriorityText::Critical,
            ItemPriority::High => ItemPriorityText::High,
            ItemPriority::Normal => ItemPriorityText::Normal,
            ItemPriority::Low => ItemPriorityText::Low,
            ItemPriority::Backlog => ItemPriorityText::Backlog,
        }
    }

    pub fn into_contract(self) -> (priority: ItemPriority)
        ensures
            priority == item_priority_of(self),
    {
        match self {
            ItemPriorityText::Critical => ItemPriority::Critical,
            ItemPriorityText::High => ItemPriority::High,
            ItemPriorityText::Normal => ItemPriority::Normal,
            ItemPriorityText::Low => ItemPriority::Low,
            ItemPriorityText::Backlog => ItemPriority::Backlog,
        }
    }
}

/// Naming an `ItemPriority` by its text form and reading the text back gives it again, and
/// the other way round.
pub proof fn lemma_item_priority_text_round_trip(priority: ItemPriority, text: ItemPriorityText)
    ensures
        item_priority_of(item_priority_text_of(priority)) == priority,
        item_priority_text_of(item_priority_of(text)) == text,
{
}

/// The text form of `ItemStatus`.
#[derive(Debug, Clone, Copy, PartialEq, Eq, Structural)]
pub enum ItemStatusText {
    Open,
    InProgress,
    Blocked,
    Closed,
    Deferred,
}

/// The contract value that a `ItemStatusText` names.
pub open spec fn item_status_of(text: ItemStatusText) -> ItemStatus {
    match text {
        ItemStatusText::Open => ItemStatus::Open,
        ItemStatusText::InProgress => ItemStatus::InProgress,
        ItemStatusText::Blocked => ItemStatus::Blocked,
        ItemStatusText::Closed => ItemStatus::Closed,
        ItemStatusText::Deferred => ItemStatus::Deferred,
    }
}

/// The text form of a `ItemStatus`.
pub open spec fn item_status_text_of(status: ItemStatus) -> ItemStatusText {
    match status {
        ItemStatus::Open => ItemStatusText::Open,
        ItemStatus::InProgress => ItemStatusText::InProgress,
        ItemStatus::Blocked => ItemStatusText::Blocked,
        ItemStatus::Closed => ItemStatusText::Closed,
        ItemStatus::Deferred => ItemStatusText::Deferred,
    }
}

impl ItemStatusText {
    pub fn from_contract(status: ItemStatus) -> (text: Self)
        ensures
            text == item_status_text_of(status),
    {
        match status {
            ItemStatus::Open => ItemStatusText::Open,
            ItemStatus::InProgress => ItemStatusText::InProgress,
            ItemStatus::Blocked => ItemStatusText::Blocked,
            ItemStatus::Closed => ItemStatusText::Closed,
            ItemStatus::Deferred => ItemStatusText::Deferred,
        }
    }

    pub fn into_contract(self) -> (status: ItemStatus)
        ensures
            status == item_status_of(self),
    {
        match self {
            ItemStatusText::Open => ItemStatus::Open,
            ItemStatusText::InProgress => ItemStatus::InProgress,
            ItemStatusText::Blocked => ItemStatus::Blocked,
            ItemStatusText::Closed => ItemStatus::Closed,
            ItemStatusText::Deferred => ItemStatus::Deferred,
        }
    }
}

/// Naming an `ItemStatus` by its text form and reading the text back gives it again, and
/// the other way round.
pub proof fn lemma_item_status_text_round_trip(status: ItemStatus, text: ItemStatusText)
    ensures
        item_status_of(item_status_text_of(status)) == status,
        item_status_text_of(item_status_of(text)) == text,
{
}

/// The text form of `EdgeKind`.
#[derive(Debug, Clone, Copy, PartialEq, Eq, Structural)]
pub enum EdgeKindText {
    DependsOn,
    ParentOf,
    RelatesTo,
    Duplicates,
    Supersedes,
    Answers,
    References,
}

/// The contract value that a `EdgeKindText` names.
pub open spec fn edge_kind_of(text: EdgeKindText) -> EdgeKind {
    match text {
        EdgeKindText::DependsOn => EdgeKind::DependsOn,
        EdgeKindText::ParentOf => EdgeKind::ParentOf,
        EdgeKindText::RelatesTo => EdgeKind::RelatesTo,
        EdgeKindText::Duplicates => EdgeKind::Duplicates,
        EdgeKindText::Supersedes => EdgeKind::Supersedes,
        EdgeKindText::Answers => EdgeKind::Answers,
        EdgeKindText::References => EdgeKind::References,
    }
}

/// The text form of a `EdgeKind`.
pub open spec fn edge_kind_text_of(kind: EdgeKind) -> EdgeKindText {
    match kind {
        EdgeKind::DependsOn => EdgeKindText::DependsOn,
        EdgeKind::ParentOf => EdgeKindText::ParentOf,
        EdgeKind::RelatesTo => EdgeKindText::RelatesTo,
        EdgeKind::Duplicates => EdgeKindText::Duplicates,
        EdgeKind::Supersedes => EdgeKindText::Supersedes,
        EdgeKind::Answers => EdgeKindText::Answers,
        EdgeKind::References => EdgeKindText::References,
    }
}

impl EdgeKindText {
    pub fn from_contract(kind: EdgeKind) -> (text: Self)
        ensures
            text == edge_kind_text_of(kind),
    {
        match kind {
            EdgeKind::DependsOn => EdgeKindText::DependsOn,
            EdgeKind::ParentOf => EdgeKindText::ParentOf,
            EdgeKind::RelatesTo => EdgeKindText::RelatesTo,
            EdgeKind::Duplicates => EdgeKindText::Duplicates,
            EdgeKind::Supersedes => EdgeKindText::Supersedes,
            EdgeKind::Answers => EdgeKindText::Answers,
            EdgeKind::References => EdgeKindText::References,
        }
    }

    pub fn into_contract(self) -> (kind: EdgeKind)
        ensures
            kind == edge_kind_of(self),
    {
        match self {
            EdgeKindText::DependsOn => EdgeKind::DependsOn,
            EdgeKindText::ParentOf => EdgeKind::ParentOf,
            EdgeKindText::RelatesTo => EdgeKind::RelatesTo,
            EdgeKindText::Duplicates => EdgeKind::Duplicates,
            EdgeKindText::Supersedes => EdgeKind::Supersedes,
            EdgeKindText::Answers => EdgeKind::Answers,
            EdgeKindText::References => EdgeKind::References,
        }
    }
}

/// Naming an `EdgeKind` by its text form and reading the text back gives it again, and
/// the other way round.
pub proof fn lemma_edge_kind_text_round_trip(kind: EdgeKind, text: EdgeKindText)
    ensures
        edge_kind_of(edge_kind_text_of(kind)) == kind,
        edge_kind_text_of(edge_kind_of(text)) == text,
{
}

/// The text form of `RejectionReason`.
#[derive(Debug, Clone, Copy, PartialEq, Eq, Structural)]
pub enum RejectionReasonText {
    UnknownItem,
    DuplicateAlias,
    InvalidEdge,
    PersistenceRejected,
    UnsupportedQuery,
    CollisionUnresolved,
}

/// The contract value that a `RejectionReasonText` names.
pub open spec fn rejection_reason_of(text: RejectionReasonText) -> RejectionReason {
    match text {
        RejectionReasonText::UnknownItem => RejectionReason::UnknownItem,
        RejectionReasonText::DuplicateAlias => RejectionReason::DuplicateAlias,
        RejectionReasonText::InvalidEdge => RejectionReason::InvalidEdge,
        RejectionReasonText::PersistenceRejected => RejectionReason::PersistenceRejected,
        RejectionReasonText::UnsupportedQuery => RejectionReason::UnsupportedQuery,
        RejectionReasonText::CollisionUnresolved => RejectionReason::CollisionUnresolved,
    }
}

/// The text form of a `RejectionReason`.
pub open spec fn rejection_reason_text_of(reason: RejectionReason) -> RejectionReasonText {
    match reason {
        RejectionReason::UnknownItem => RejectionReasonText::UnknownItem,
        RejectionReason::DuplicateAlias => RejectionReasonText::DuplicateAlias,
        RejectionReason::InvalidEdge => RejectionReasonText::InvalidEdge,
        RejectionReason::PersistenceRejected => RejectionReasonText::PersistenceRejected,
        RejectionReason::UnsupportedQuery => RejectionReasonText::UnsupportedQuery,
        RejectionReason::CollisionUnresolved => RejectionReasonText::CollisionUnresolved,
    }
}

impl RejectionReasonText {
    pub fn from_contract(reason: RejectionReason) -> (text: Self)
        ensures
            text == rejection_reason_text_of(reason),
    {
        match reason {
            RejectionReason::UnknownItem => RejectionReasonText::UnknownItem,
            RejectionReason::DuplicateAlias => RejectionReasonText::DuplicateAlias,
            RejectionReason::InvalidEdge => RejectionReasonText::InvalidEdge,
            RejectionReason::PersistenceRejected => RejectionReasonText::PersistenceRejected,
            RejectionReason::UnsupportedQuery => RejectionReasonText::UnsupportedQuery,
            RejectionReason::CollisionUnresolved => RejectionReasonText::CollisionUnresolved,
        }
    }
}

/// Naming a `RejectionReason` by its text form and reading the text back gives it again, and
/// the other way round.
pub proof fn lemma_rejection_reason_text_round_trip(reason: RejectionReason, text: RejectionReasonText)
    ensures
        rejection_reason_of(rejection_reason_text_of(reason)) == reason,
        rejection_reason_text_of(rejection_reason_of(text)) == text,
{
}

// ---------------------------------------------------------------------------
// Scopes and filters
// ---------------------------------------------------------------------------

/// Whether the text is an absolute path.
pub fn absolute_text(text: &str) -> (result: bool)
    ensures
        result == is_absolute(text@),
{
    text.unicode_len() > 0 && text.get_char(0) == '/'
}

#[derive(Debug, Clone, PartialEq, Eq)]
pub struct Path {
    pub path: String,
}

#[derive(Debug, Clone, PartialEq, Eq)]
pub struct Task {
    pub token: String,
}

/// A scope as text: a path or a task token.
#[derive(Debug, Clone, PartialEq, Eq)]
pub enum ScopeReferenceText {
    Path(Path),
    Task(Task),
}

/// The error that checking a path for the wire gives, if any: it must be absolute.
pub open spec fn wire_path_error(path: String) -> Option<Error> {
    if is_absolute(path@) {
        None
    } else {
        Some(Error::RelativeWirePath { path })
    }
}

/// The error that checking a task token gives, if any: it must not be empty.
pub open spec fn task_token_error(token: String) -> Option<Error> {
    if token@.len() > 0 {
        None
    } else {
        Some(Error::EmptyTaskToken)
    }
}

/// The error that checking a reason gives, if any: it must not be empty.
pub open spec fn reason_error(reason: String) -> Option<Error> {
    if reason@.len() > 0 {
        None
    } else {
        Some(Error::EmptyScopeReason)
    }
}

/// The error that checking a scope gives, if any.
pub open spec fn scope_error(text: ScopeReferenceText) -> Option<Error> {
    match text {
        ScopeReferenceText::Path(path) => wire_path_error(path.path),
        ScopeReferenceText::Task(task) => task_token_error(task.token),
    }
}

/// The contract scope that a checked scope names.
pub open spec fn scope_of(text: ScopeReferenceText) -> ScopeReference {
    match text {
        ScopeReferenceText::Path(path) => ScopeReference::Path(path.path),
        ScopeReferenceText::Task(task) => ScopeReference::Task(task.token),
    }
}

/// The text form of a contract scope.
pub open spec fn scope_text_of(scope: ScopeReference) -> ScopeReferenceText {
    match scope {
        ScopeReference::Path(path) => ScopeReferenceText::Path(Path { path }),
        ScopeReference::Task(token) => ScopeReferenceText::Task(Task { token }),
    }
}

/// `Ok` of the value when the check found no error, else `Err` of the error.
pub open spec fn checked<T>(error: Option<Error>, value: T) -> Result<T, Error> {
    match error {
        Some(error) => Err(error),
        None => Ok(value),
    }
}

/// Checks a path for the wire: it must be absolute.
pub fn check_wire_path(path: String) -> (result: Result<String, Error>)
    ensures
        result == checked(wire_path_error(path), path),
{
    if absolute_text(path.as_str()) {
        Ok(path)
    } else {
        Err(Error::RelativeWirePath { path })
    }
}

/// Checks a task token: it must not be empty.
pub fn check_task_token(token: String) -> (result: Result<String, Error>)
    ensures
        result == checked(task_token_error(token), token),
{
    if token.as_str().unicode_len() > 0 {
        Ok(token)
    } else {
        Err(Error::EmptyTaskToken)
    }
}

/// Checks a reason: it must not be empty.
pub fn check_reason(reason: String) -> (result: Result<String, Error>)
    ensures
        result == checked(reason_error(reason), reason),
{
    if reason.as_str().unicode_len() > 0 {
        Ok(reason)
    } else {
        Err(Error::EmptyScopeReason)
    }
}

impl ScopeReferenceText {
    pub fn from_contract(scope: ScopeReference) -> (text: Self)
        ensures
            text == scope_text_of(scope),
    {
        match scope {
            ScopeReference::Path(path) => ScopeReferenceText::Path(Path { path }),
            ScopeReference::Task(token) => ScopeReferenceText::Task(Task { token }),
        }
    }

    /// The contract scope, once checked.
    pub fn into_contract(self) -> (scope: Result<ScopeReference, Error>)
        ensures
            scope == checked(scope_error(self), scope_of(self)),
    {
        match self {
            ScopeReferenceText::Path(path) => match check_wire_path(path.path) {
                Ok(path) => Ok(ScopeReference::Path(path)),
                Err(error) => Err(error),
            },
            ScopeReferenceText::Task(task) => match check_task_token(task.token) {
                Ok(token) => Ok(ScopeReference::Task(token)),
                Err(error) => Err(error),
            },
        }
    }
}

/// The error of the first scope that fails its check, if any.
pub open spec fn first_scope_error(scopes: Seq<ScopeReferenceText>) -> Option<Error>
    decreases scopes.len(),
{
    if scopes.len() == 0 {
        None
    } else {
        match scope_error(scopes[0]) {
            Some(error) => Some(error),
            None => first_scope_error(scopes.drop_first()),
        }
    }
}

/// Checks every scope in order, stopping at the first that fails.
pub fn scopes_into_contract(scopes: Vec<ScopeReferenceText>) -> (result: Result<Vec<ScopeReference>, Error>)
    ensures
        match first_scope_error(scopes@) {
            Some(error) => result == Err::<Vec<ScopeReference>, Error>(error),
            None => result matches Ok(checked) && checked@ == scopes@.map_values(
                |text: ScopeReferenceText| scope_of(text),
            ),
        },
{
    let ghost all = scopes@;
    let mut converted: Vec<ScopeReference> = Vec::new();
    let mut remaining = scopes;
    let mut index: usize = 0;
    let total = remaining.len();
    assert(all.skip(0) =~= all);
    while remaining.len() > 0
        invariant
            total == all.len(),
            index + remaining@.len() == total,
            remaining@ == all.skip(index as int),
            all == scopes@,
            converted@ == all.take(index as int).map_values(|text: ScopeReferenceText| scope_of(text)),
            first_scope_error(all) == first_scope_error(all.skip(index as int)),
        decreases remaining.len(),
    {
        let ghost rest = all.skip(index as int);
        let text = remaining.remove(0);
        assert(text == rest[0]);
        assert(rest.drop_first() =~= all.skip(index as int + 1));
        match text.into_contract() {
            Ok(scope) => {
                converted.push(scope);
                assert(converted@ =~= all.take(index as int + 1).map_values(
                    |text: ScopeReferenceText| scope_of(text),
                ));
                index = index + 1;
                assert(remaining@ =~= all.skip(index as int));
            },
            Err(error) => {
                assert(first_scope_error(rest) == Some(error));
                return Err(error);
            },
        }
    }
    assert(all.take(total as int) =~= all);
    Ok(converted)
}

#[derive(Debug, Clone, Copy, PartialEq, Eq)]
pub struct RoleFilter {
    pub role: RoleNameText,
}

#[derive(Debug, Clone, PartialEq, Eq)]
pub struct PathPrefix {
    pub path: String,
}

#[derive(Debug, Clone, PartialEq, Eq)]
pub struct TaskFilter {
    pub token: String,
}

/// An activity filter as text.
#[derive(Debug, Clone, PartialEq, Eq)]
pub enum ActivityFilterText {
    RoleFilter(RoleFilter),
    PathPrefix(PathPrefix),
    TaskFilter(TaskFilter),
}

pub open spec fn filter_error(text: ActivityFilterText) -> Option<Error> {
    match text {
        ActivityFilterText::RoleFilter(_) => None,
        ActivityFilterText::PathPrefix(prefix) => wire_path_error(prefix.path),
        ActivityFilterText::TaskFilter(filter) => task_token_error(filter.token),
    }
}

pub open spec fn filter_of(text: ActivityFilterText) -> contract::ActivityFilter {
    match text {
        ActivityFilterText::RoleFilter(filter) => contract::ActivityFilter::RoleFilter(
            role_name_of(filter.role),
        ),
        ActivityFilterText::PathPrefix(prefix) => contract::ActivityFilter::PathPrefix(prefix.path),
        ActivityFilterText::TaskFilter(filter) => contract::ActivityFilter::TaskToken(filter.token),
    }
}

impl ActivityFilterText {
    /// The contract filter, once checked.
    pub fn into_contract(self) -> (filter: Result<contract::ActivityFilter, Error>)
        ensures
            filter == checked(filter_error(self), filter_of(self)),
    {
        match self {
            ActivityFilterText::RoleFilter(filter) => Ok(
                contract::ActivityFilter::RoleFilter(filter.role.into_contract()),
            ),
            ActivityFilterText::PathPrefix(prefix) => match check_wire_path(prefix.path) {
                Ok(path) => Ok(contract::ActivityFilter::PathPrefix(path)),
                Err(error) => Err(error),
            },
            ActivityFilterText::TaskFilter(filter) => match check_task_token(filter.token) {
                Ok(token) => Ok(contract::ActivityFilter::TaskToken(token)),
                Err(error) => Err(error),
            },
        }
    }
}

/// The error of the first filter that fails its check, if any.
pub open spec fn first_filter_error(filters: Seq<ActivityFilterText>) -> Option<Error>
    decreases filters.len(),
{
    if filters.len() == 0 {
        None
    } else {
        match filter_error(filters[0]) {
            Some(error) => Some(error),
            None => first_filter_error(filters.drop_first()),
        }
    }
}

/// Checks every filter in order, stopping at the first that fails.
pub fn filters_into_contract(filters: Vec<ActivityFilterText>) -> (result: Result<
    Vec<contract::ActivityFilter>,
    Error,
>)
    ensures
        match first_filter_error(filters@) {
            Some(error) => result == Err::<Vec<contract::ActivityFilter>, Error>(error),
            None => result matches Ok(checked) && checked@ == filters@.map_values(
                |text: ActivityFilterText| filter_of(text),
            ),
        },
{
    let ghost all = filters@;
    let mut converted: Vec<contract::ActivityFilter> = Vec::new();
    let mut remaining = filters;
    let mut index: usize = 0;
    let total = remaining.len();
    assert(all.skip(0) =~= all);
    while remaining.len() > 0
        invariant
            total == all.len(),
            index + remaining@.len() == total,
            remaining@ == all.skip(index as int),
            all == filters@,
            converted@ == all.take(index as int).map_values(|text: ActivityFilterText| filter_of(text)),
            first_filter_error(all) == first_filter_error(all.skip(index as int)),
        decreases remaining.len(),
    {
        let ghost rest = all.skip(index as int);
        let text = remaining.remove(0);
        assert(text == rest[0]);
        assert(rest.drop_first() =~= all.skip(index as int + 1));
        match text.into_contract() {
            Ok(filter) => {
                converted.push(filter);
                assert(converted@ =~= all.take(index as int + 1).map_values(
                    |text: ActivityFilterText| filter_of(text),
                ));
                index = index + 1;
                assert(remaining@ =~= all.skip(index as int));
            },
            Err(error) => {
                assert(first_filter_error(rest) == Some(error));
                return Err(error);
            },
        }
    }
    assert(all.take(total as int) =~= all);
    Ok(converted)
}

// ---------------------------------------------------------------------------
// Requests
// ---------------------------------------------------------------------------

#[derive(Debug, Clone, PartialEq, Eq)]
pub struct RoleClaim {
    pub role: RoleNameText,
    pub scopes: Vec<ScopeReferenceText>,
    pub reason: String,
}

#[derive(Debug, Clone, Copy, PartialEq, Eq)]
pub struct RoleRelease {
    pub role: RoleNameText,
}

#[derive(Debug, Clone, PartialEq, Eq)]
pub struct RoleHandoff {
    pub from: RoleNameText,
    pub to: RoleNameText,
    pub scopes: Vec<ScopeReferenceText>,
    pub reason: String,
}

#[derive(Debug, Clone, Copy, PartialEq, Eq)]
pub struct RoleObservation {}

#[derive(Debug, Clone, PartialEq, Eq)]
pub struct ActivitySubmission {
    pub role: RoleNameText,
    pub scope: ScopeReferenceText,
    pub reason: String,
}

#[derive(Debug, Clone, PartialEq, Eq)]
pub struct ActivityQuery {
    pub limit: u32,
    pub filters: Vec<ActivityFilterText>,
}

#[derive(Debug, Clone, PartialEq, Eq)]
pub struct Opening {
    pub kind: ItemKindText,
    pub priority: ItemPriorityText,
    pub title: String,
    pub body: String,
}

#[derive(Debug, Clone, PartialEq, Eq)]
pub struct Stable {
    pub id: String,
}

#[derive(Debug, Clone, PartialEq, Eq)]
pub struct Display {
    pub id: String,
}

#[derive(Debug, Clone, PartialEq, Eq)]
pub struct Alias {
    pub alias: String,
}

/// An item reference as text: a stable id, a display id or an alias.
#[derive(Debug, Clone, PartialEq, Eq)]
pub enum ItemReferenceText {
    Stable(Stable),
    Display(Display),
    Alias(Alias),
}

pub open spec fn item_reference_of(text: ItemReferenceText) -> contract::ItemReference {
    match text {
        ItemReferenceText::Stable(stable) => contract::ItemReference::Stable(stable.id),
        ItemReferenceText::Display(display) => contract::ItemReference::Display(display.id),
        ItemReferenceText::Alias(alias) => contract::ItemReference::Alias(alias.alias),
    }
}

impl ItemReferenceText {
    pub fn into_contract(self) -> (reference: contract::ItemReference)
        ensures
            reference == item_reference_of(self),
    {
        match self {
            ItemReferenceText::Stable(stable) => contract::ItemReference::Stable(stable.id),
            ItemReferenceText::Display(display) => contract::ItemReference::Display(display.id),
            ItemReferenceText::Alias(alias) => contract::ItemReference::Alias(alias.alias),
        }
    }
}

#[derive(Debug, Clone, PartialEq, Eq)]
pub struct ItemReferenceTarget {
    pub item: ItemReferenceText,
}

#[derive(Debug, Clone, PartialEq, Eq)]
pub struct Report {
    pub path: String,
}

#[derive(Debug, Clone, PartialEq, Eq)]
pub struct GitCommit {
    pub hash: String,
}

#[derive(Debug, Clone, PartialEq, Eq)]
pub struct BeadsTask {
    pub token: String,
}

#[derive(Debug, Clone, PartialEq, Eq)]
pub struct File {
    pub path: String,
}

/// A link target as text: another item or an external reference.
#[derive(Debug, Clone, PartialEq, Eq)]
pub enum LinkTargetText {
    ItemReferenceTarget(ItemReferenceTarget),
    Report(Report),
    GitCommit(GitCommit),
    BeadsTask(BeadsTask),
    File(File),
}

pub open spec fn link_target_of(text: LinkTargetText) -> contract::LinkTarget {
    match text {
        LinkTargetText::ItemReferenceTarget(target) => contract::LinkTarget::Item(
            item_reference_of(target.item),
        ),
        LinkTargetText::Report(report) => contract::LinkTarget::External(
            contract::ExternalReference::Report(report.path),
        ),
        LinkTargetText::GitCommit(commit) => contract::LinkTarget::External(
            contract::ExternalReference::GitCommit(commit.hash),
        ),
        LinkTargetText::BeadsTask(task) => contract::LinkTarget::External(
            contract::ExternalReference::BeadsTask(task.token),
        ),
        LinkTargetText::File(file) => contract::LinkTarget::External(
            contract::ExternalReference::File(file.path),
        ),
    }
}

impl LinkTargetText {
    pub fn into_contract(self) -> (target: contract::LinkTarget)
        ensures
            target == link_target_of(self),
    {
        match self {
            LinkTargetText::ItemReferenceTarget(target) => contract::LinkTarget::Item(
                target.item.into_contract(),
            ),
            LinkTargetText::Report(report) => contract::LinkTarget::External(
                contract::ExternalReference::Report(report.path),
            ),
            LinkTargetText::GitCommit(commit) => contract::LinkTarget::External(
                contract::ExternalReference::GitCommit(commit.hash),
            ),
            LinkTargetText::BeadsTask(task) => contract::LinkTarget::External(
                contract::ExternalReference::BeadsTask(task.token),
            ),
            LinkTargetText::File(file) => contract::LinkTarget::External(
                contract::ExternalReference::File(file.path),
            ),
        }
    }
}

#[derive(Debug, Clone, PartialEq, Eq)]
pub struct NoteSubmission {
    pub item: ItemReferenceText,
    pub body: String,
}

#[derive(Debug, Clone, PartialEq, Eq)]
pub struct Link {
    pub source: ItemReferenceText,
    pub kind: EdgeKindText,
    pub target: LinkTargetText,
    pub body: Option<String>,
}

#[derive(Debug, Clone, PartialEq, Eq)]
pub struct StatusChange {
    pub item: ItemReferenceText,
    pub status: ItemStatusText,
    pub body: Option<String>,
}

#[derive(Debug, Clone, PartialEq, Eq)]
pub struct AliasAssignment {
    pub item: ItemReferenceText,
    pub alias: String,
}

#[derive(Debug, Clone, Copy, PartialEq, Eq)]
pub struct Ready {}

#[derive(Debug, Clone, Copy, PartialEq, Eq)]
pub struct Blocked {}

#[derive(Debug, Clone, Copy, PartialEq, Eq)]
pub struct Open {}

#[derive(Debug, Clone, Copy, PartialEq, Eq)]
pub struct RecentEvents {}

#[derive(Debug, Clone, PartialEq, Eq)]
pub struct ByItem {
    pub item: ItemReferenceText,
}

#[derive(Debug, Clone, Copy, PartialEq, Eq)]
pub struct ByKind {
    pub kind: ItemKindText,
}

#[derive(Debug, Clone, Copy, PartialEq, Eq)]
pub struct ByStatus {
    pub status: ItemStatusText,
}

#[derive(Debug, Clone, PartialEq, Eq)]
pub struct ByAlias {
    pub alias: String,
}

/// The kind of a memory query as text.
#[derive(Debug, Clone, PartialEq, Eq)]
pub enum QueryKindText {
    Ready(Ready),
    Blocked(Blocked),
    Open(Open),
    RecentEvents(RecentEvents),
    ByItem(ByItem),
    ByKind(ByKind),
    ByStatus(ByStatus),
    ByAlias(ByAlias),
}

pub open spec fn query_kind_of(text: QueryKindText) -> contract::QueryKind {
    match text {
        QueryKindText::Ready(_) => contract::QueryKind::Ready,
        QueryKindText::Blocked(_) => contract::QueryKind::Blocked,
        QueryKindText::Open(_) => contract::QueryKind::Open,
        QueryKindText::RecentEvents(_) => contract::QueryKind::RecentEvents,
        QueryKindText::ByItem(query) => contract::QueryKind::ByItem(item_reference_of(query.item)),
        QueryKindText::ByKind(query) => contract::QueryKind::ByKind(item_kind_of(query.kind)),
        QueryKindText::ByStatus(query) => contract::QueryKind::ByStatus(item_status_of(query.status)),
        QueryKindText::ByAlias(query) => contract::QueryKind::ByAlias(query.alias),
    }
}

impl QueryKindText {
    pub fn into_contract(self) -> (kind: contract::QueryKind)
        ensures
            kind == query_kind_of(self),
    {
        match self {
            QueryKindText::Ready(_) => contract::QueryKind::Ready,
            QueryKindText::Blocked(_) => contract::QueryKind::Blocked,
            QueryKindText::Open(_) => contract::QueryKind::Open,
            QueryKindText::RecentEvents(_) => contract::QueryKind::RecentEvents,
            QueryKindText::ByItem(query) => contract::QueryKind::ByItem(query.item.into_contract()),
            QueryKindText::ByKind(query) => contract::QueryKind::ByKind(query.kind.into_contract()),
            QueryKindText::ByStatus(query) => contract::QueryKind::ByStatus(query.status.into_contract()),
            QueryKindText::ByAlias(query) => contract::QueryKind::ByAlias(query.alias),
        }
    }
}

#[derive(Debug, Clone, PartialEq, Eq)]
pub struct Query {
    pub kind: QueryKindText,
    pub limit: u16,
}

/// A request as a person writes it on the command line.
#[derive(Debug, Clone, PartialEq, Eq)]
pub enum MindTextRequest {
    RoleClaim(RoleClaim),
    RoleRelease(RoleRelease),
    RoleHandoff(RoleHandoff),
    RoleObservation(RoleObservation),
    ActivitySubmission(ActivitySubmission),
    ActivityQuery(ActivityQuery),
    Opening(Opening),
    NoteSubmission(NoteSubmission),
    Link(Link),
    StatusChange(StatusChange),
    AliasAssignment(AliasAssignment),
    Query(Query),
}

/// The first error that checking the text request finds: scopes and filters in
/// order, then the reason; `None` when the request is well formed.
pub open spec fn text_request_error(text: MindTextRequest) -> Option<Error> {
    match text {
        MindTextRequest::RoleClaim(claim) => match first_scope_error(claim.scopes@) {
            Some(error) => Some(error),
            None => reason_error(claim.reason),
        },
        MindTextRequest::RoleHandoff(handoff) => match first_scope_error(handoff.scopes@) {
            Some(error) => Some(error),
            None => reason_error(handoff.reason),
        },
        MindTextRequest::ActivitySubmission(submission) => match scope_error(submission.scope) {
            Some(error) => Some(error),
            None => reason_error(submission.reason),
        },
        MindTextRequest::ActivityQuery(query) => first_filter_error(query.filters@),
        _ => None,
    }
}

/// `request` is the contract request that the well-formed text request names: the
/// same fields, each taken by its contract value.
pub open spec fn request_from_text(text: MindTextRequest, request: MindRequest) -> bool {
    match text {
        MindTextRequest::RoleClaim(claim) => request matches MindRequest::RoleClaim(made)
            && made.role == role_name_of(claim.role) && made.scopes@ == claim.scopes@.map_values(
            |text: ScopeReferenceText| scope_of(text),
        ) && made.reason == claim.reason,
        MindTextRequest::RoleRelease(release) => request == MindRequest::RoleRelease(
            contract::RoleRelease { role: role_name_of(release.role) },
        ),
        MindTextRequest::RoleHandoff(handoff) => request matches MindRequest::RoleHandoff(made)
            && made.from == role_name_of(handoff.from) && made.to == role_name_of(handoff.to)
            && made.scopes@ == handoff.scopes@.map_values(
            |text: ScopeReferenceText| scope_of(text),
        ) && made.reason == handoff.reason,
        MindTextRequest::RoleObservation(_) => request == MindRequest::RoleObservation(
            contract::RoleObservation {},
        ),
        MindTextRequest::ActivitySubmission(submission) => request == MindRequest::ActivitySubmission(
            contract::ActivitySubmission {
                role: role_name_of(submission.role),
                scope: scope_of(submission.scope),
                reason: submission.reason,
            },
        ),
        MindTextRequest::ActivityQuery(query) => request matches MindRequest::ActivityQuery(made)
            && made.limit == query.limit && made.filters@ == query.filters@.map_values(
            |text: ActivityFilterText| filter_of(text),
        ),
        MindTextRequest::Opening(opening) => request == MindRequest::Opening(
            contract::Opening {
                kind: item_kind_of(opening.kind),
                priority: item_priority_of(opening.priority),
                title: opening.title,
                body: opening.body,
            },
        ),
        MindTextRequest::NoteSubmission(submission) => request == MindRequest::NoteSubmission(
            contract::NoteSubmission { item: item_reference_of(submission.item), body: submission.body },
        ),
        MindTextRequest::Link(link) => request == MindRequest::Link(
            contract::Link {
                source: item_reference_of(link.source),
                kind: edge_kind_of(link.kind),
                target: link_target_of(link.target),
                body: link.body,
            },
        ),
        MindTextRequest::StatusChange(change) => request == MindRequest::StatusChange(
            contract::StatusChange {
                item: item_reference_of(change.item),
                status: item_status_of(change.status),
                body: change.body,
            },
        ),
        MindTextRequest::AliasAssignment(assignment) => request == MindRequest::AliasAssignment(
            contract::AliasAssignment { item: item_reference_of(assignment.item), alias: assignment.alias },
        ),
        MindTextRequest::Query(query) => request == MindRequest::Query(
            contract::Query { kind: query_kind_of(query.kind), limit: query.limit },
        ),
    }
}

impl MindTextRequest {
    /// The contract request that the text names, once every scope, filter and
    /// reason is checked (see `text_request_error`).
    pub fn into_request(self) -> (request: Result<MindRequest, Error>)
        ensures
            match text_request_error(self) {
                Some(error) => request == Err::<MindRequest, Error>(error),
                None => request matches Ok(made) && request_from_text(self, made),
            },
    {
        match self {
            MindTextRequest::RoleClaim(claim) => {
                let scopes = match scopes_into_contract(claim.scopes) {
                    Ok(scopes) => scopes,
                    Err(error) => {
                        return Err(error);
                    },
                };
                match check_reason(claim.reason) {
                    Ok(reason) => Ok(
                        MindRequest::RoleClaim(
                            contract::RoleClaim { role: claim.role.into_contract(), scopes, reason },
                        ),
                    ),
                    Err(error) => Err(error),
                }
            },
            MindTextRequest::RoleRelease(release) => Ok(
                MindRequest::RoleRelease(contract::RoleRelease { role: release.role.into_contract() }),
            ),
            MindTextRequest::RoleHandoff(handoff) => {
                let scopes = match scopes_into_contract(handoff.scopes) {
                    Ok(scopes) => scopes,
                    Err(error) => {
                        return Err(error);
                    },
                };
                match check_reason(handoff.reason) {
                    Ok(reason) => Ok(
                        MindRequest::RoleHandoff(
                            contract::RoleHandoff {
                                from: handoff.from.into_contract(),
                                to: handoff.to.into_contract(),
                                scopes,
                                reason,
                            },
                        ),
                    ),
                    Err(error) => Err(error),
                }
            },
            MindTextRequest::RoleObservation(_) => Ok(
                MindRequest::RoleObservation(contract::RoleObservation {}),
            ),
            MindTextRequest::ActivitySubmission(submission) => {
                let scope = match submission.scope.into_contract() {
                    Ok(scope) => scope,
                    Err(error) => {
                        return Err(error);
                    },
                };
                match check_reason(submission.reason) {
                    Ok(reason) => Ok(
                        MindRequest::ActivitySubmission(
                            contract::ActivitySubmission {
                                role: submission.role.into_contract(),
                                scope,
                                reason,
                            },
                        ),
                    ),
                    Err(error) => Err(error),
                }
            },
            MindTextRequest::ActivityQuery(query) => match filters_into_contract(query.filters) {
                Ok(filters) => Ok(
                    MindRequest::ActivityQuery(contract::ActivityQuery { limit: query.limit, filters }),
                ),
                Err(error) => Err(error),
            },
            MindTextRequest::Opening(opening) => Ok(
                MindRequest::Opening(
                    contract::Opening {
                        kind: opening.kind.into_contract(),
                        priority: opening.priority.into_contract(),
                        title: opening.title,
                        body: opening.body,
                    },
                ),
            ),
            MindTextRequest::NoteSubmission(submission) => Ok(
                MindRequest::NoteSubmission(
                    contract::NoteSubmission {
                        item: submission.item.into_contract(),
                        body: submission.body,
                    },
                ),
            ),
            MindTextRequest::Link(link) => Ok(
                MindRequest::Link(
                    contract::Link {
                        source: link.source.into_contract(),
                        kind: link.kind.into_contract(),
                        target: link.target.into_contract(),
                        body: link.body,
                    },
                ),
            ),
            MindTextRequest::StatusChange(change) => Ok(
                MindRequest::StatusChange(
                    contract::StatusChange {
                        item: change.item.into_contract(),
                        status: change.status.into_contract(),
                        body: change.body,
                    },
                ),
            ),
            MindTextRequest::AliasAssignment(assignment) => Ok(
                MindRequest::AliasAssignment(
                    contract::AliasAssignment {
                        item: assignment.item.into_contract(),
                        alias: assignment.alias,
                    },
                ),
            ),
            MindTextRequest::Query(query) => Ok(
                MindRequest::Query(
                    contract::Query { kind: query.kind.into_contract(), limit: query.limit },
                ),
            ),
        }
    }
}

// ---------------------------------------------------------------------------
// Replies
// ---------------------------------------------------------------------------

#[derive(Debug, Clone, PartialEq, Eq)]
pub struct ClaimAcceptance {
    pub role: RoleNameText,
    pub scopes: Vec<ScopeReferenceText>,
}

#[derive(Debug, Clone, PartialEq, Eq)]
pub struct ScopeConflict {
    pub scope: ScopeReferenceText,
    pub held_by: RoleNameText,
    pub held_reason: String,
}

pub open spec fn conflict_text_of(conflict: contract::ScopeConflict) -> ScopeConflict {
    ScopeConflict {
        scope: scope_text_of(conflict.scope),
        held_by: role_name_text_of(conflict.held_by),
        held_reason: conflict.held_reason,
    }
}

impl ScopeConflict {
    pub fn from_contract(conflict: contract::ScopeConflict) -> (text: Self)
        ensures
            text == conflict_text_of(conflict),
    {
        ScopeConflict {
            scope: ScopeReferenceText::from_contract(conflict.scope),
            held_by: RoleNameText::from_contract(conflict.held_by),
            held_reason: conflict.held_reason,
        }
    }
}

#[derive(Debug, Clone, PartialEq, Eq)]
pub struct ClaimRejection {
    pub role: RoleNameText,
    pub conflicts: Vec<ScopeConflict>,
}

#[derive(Debug, Clone, PartialEq, Eq)]
pub struct ReleaseAcknowledgment {
    pub role: RoleNameText,
    pub released_scopes: Vec<ScopeReferenceText>,
}

#[derive(Debug, Clone, PartialEq, Eq)]
pub struct HandoffAcceptance {
    pub from: RoleNameText,
    pub to: RoleNameText,
    pub scopes: Vec<ScopeReferenceText>,
}

#[derive(Debug, Clone, PartialEq, Eq)]
pub struct SourceRoleDoesNotHold {}

#[derive(Debug, Clone, PartialEq, Eq)]
pub struct TargetRoleConflict {
    pub conflicts: Vec<ScopeConflict>,
}

/// Why a handoff was refused, as text.
#[derive(Debug, Clone, PartialEq, Eq)]
pub enum HandoffRejectionReason {
    SourceRoleDoesNotHold(SourceRoleDoesNotHold),
    TargetRoleConflict(TargetRoleConflict),
}

#[derive(Debug, Clone, PartialEq, Eq)]
pub struct HandoffRejection {
    pub from: RoleNameText,
    pub to: RoleNameText,
    pub reason: HandoffRejectionReason,
}

#[derive(Debug, Clone, PartialEq, Eq)]
pub struct ClaimEntry {
    pub scope: ScopeReferenceText,
    pub reason: String,
}

pub open spec fn entry_text_of(entry: contract::ClaimEntry) -> ClaimEntry {
    ClaimEntry { scope: scope_text_of(entry.scope), reason: entry.reason }
}

impl ClaimEntry {
    pub fn from_contract(entry: contract::ClaimEntry) -> (text: Self)
        ensures
            text == entry_text_of(entry),
    {
        ClaimEntry { scope: ScopeReferenceText::from_contract(entry.scope), reason: entry.reason }
    }
}

#[derive(Debug, Clone, PartialEq, Eq)]
pub struct RoleStatus {
    pub role: RoleNameText,
    pub claims: Vec<ClaimEntry>,
}

pub open spec fn status_matches(text: RoleStatus, status: contract::RoleStatus) -> bool {
    &&& text.role == role_name_text_of(status.role)
    &&& text.claims@ == status.claims@.map_values(|entry: contract::ClaimEntry| entry_text_of(entry))
}

#[derive(Debug, Clone, PartialEq, Eq)]
pub struct Activity {
    pub role: RoleNameText,
    pub scope: ScopeReferenceText,
    pub reason: String,
    pub stamped_at: u64,
}

pub open spec fn activity_text_of(activity: contract::Activity) -> Activity {
    Activity {
        role: role_name_text_of(activity.role),
        scope: scope_text_of(activity.scope),
        reason: activity.reason,
        stamped_at: activity.stamped_at,
    }
}

impl Activity {
    pub fn from_contract(activity: contract::Activity) -> (text: Self)
        ensures
            text == activity_text_of(activity),
    {
        Activity {
            role: RoleNameText::from_contract(activity.role),
            scope: ScopeReferenceText::from_contract(activity.scope),
            reason: activity.reason,
            stamped_at: activity.stamped_at,
        }
    }
}

#[derive(Debug, Clone, Copy, PartialEq, Eq)]
pub struct ActivityAcknowledgment {
    pub slot: u64,
}

#[derive(Debug, Clone, PartialEq, Eq)]
pub struct ActivityList {
    pub records: Vec<Activity>,
}

#[derive(Debug, Clone, PartialEq, Eq)]
pub struct Item {
    pub id: String,
    pub display_id: String,
    pub aliases: Vec<String>,
    pub kind: ItemKindText,
    pub status: ItemStatusText,
    pub priority: ItemPriorityText,
    pub title: String,
    pub body: String,
}

pub open spec fn item_matches(text: Item, item: contract::Item) -> bool {
    &&& text.id == item.id
    &&& text.display_id == item.display_id
    &&& text.aliases@ == item.aliases@
    &&& text.kind == item_kind_text_of(item.kind)
    &&& text.status == item_status_text_of(item.status)
    &&& text.priority == item_priority_text_of(item.priority)
    &&& text.title == item.title
    &&& text.body == item.body
}

impl Item {
    pub fn from_contract(item: contract::Item) -> (text: Self)
        ensures
            item_matches(text, item),
    {
        Item {
            id: item.id,
            display_id: item.display_id,
            aliases: item.aliases,
            kind: ItemKindText::from_contract(item.kind),
            status: ItemStatusText::from_contract(item.status),
            priority: ItemPriorityText::from_contract(item.priority),
            title: item.title,
            body: item.body,
        }
    }
}

#[derive(Debug, Clone, PartialEq, Eq)]
pub struct Note {
    pub event: u64,
    pub item: String,
    pub author: String,
    pub body: String,
}

pub open spec fn note_text_of(note: contract::Note) -> Note {
    Note { event: note.event, item: note.item, author: note.author, body: note.body }
}

impl Note {
    pub fn from_contract(note: contract::Note) -> (text: Self)
        ensures
            text == note_text_of(note),
    {
        Note { event: note.event, item: note.item, author: note.author, body: note.body }
    }
}

#[derive(Debug, Clone, PartialEq, Eq)]
pub struct ItemTarget {
    pub id: String,
}

/// Where an edge points, as text.
#[derive(Debug, Clone, PartialEq, Eq)]
pub enum EdgeTargetText {
    ItemTarget(ItemTarget),
    Report(Report),
    GitCommit(GitCommit),
    BeadsTask(BeadsTask),
    File(File),
}

pub open spec fn edge_target_text_of(target: contract::EdgeTarget) -> EdgeTargetText {
    match target {
        contract::EdgeTarget::Item(id) => EdgeTargetText::ItemTarget(ItemTarget { id }),
        contract::EdgeTarget::External(external) => match external {
            contract::ExternalReference::Report(path) => EdgeTargetText::Report(Report { path }),
            contract::ExternalReference::GitCommit(hash) => EdgeTargetText::GitCommit(GitCommit { hash }),
            contract::ExternalReference::BeadsTask(token) => EdgeTargetText::BeadsTask(BeadsTask { token }),
            contract::ExternalReference::File(path) => EdgeTargetText::File(File { path }),
        },
    }
}

impl EdgeTargetText {
    pub fn from_contract(target: contract::EdgeTarget) -> (text: Self)
        ensures
            text == edge_target_text_of(target),
    {
        match target {
            contract::EdgeTarget::Item(id) => EdgeTargetText::ItemTarget(ItemTarget { id }),
            contract::EdgeTarget::External(external) => match external {
                contract::ExternalReference::Report(path) => EdgeTargetText::Report(Report { path }),
                contract::ExternalReference::GitCommit(hash) => EdgeTargetText::GitCommit(
                    GitCommit { hash },
                ),
                contract::ExternalReference::BeadsTask(token) => EdgeTargetText::BeadsTask(
                    BeadsTask { token },
                ),
                contract::ExternalReference::File(path) => EdgeTargetText::File(File { path }),
            },
        }
    }
}

#[derive(Debug, Clone, PartialEq, Eq)]
pub struct Edge {
    pub event: u64,
    pub source: String,
    pub kind: EdgeKindText,
    pub target: EdgeTargetText,
    pub body: Option<String>,
}

pub open spec fn edge_text_of(edge: contract::Edge) -> Edge {
    Edge {
        event: edge.event,
        source: edge.source,
        kind: edge_kind_text_of(edge.kind),
        target: edge_target_text_of(edge.target),
        body: edge.body,
    }
}

impl Edge {
    pub fn from_contract(edge: contract::Edge) -> (text: Self)
        ensures
            text == edge_text_of(edge),
    {
        Edge {
            event: edge.event,
            source: edge.source,
            kind: EdgeKindText::from_contract(edge.kind),
            target: EdgeTargetText::from_contract(edge.target),
            body: edge.body,
        }
    }
}

#[derive(Debug, Clone, PartialEq, Eq)]
pub struct EventHeader {
    pub event: u64,
    pub operation: String,
    pub actor: String,
}

pub open spec fn header_text_of(header: contract::EventHeader) -> EventHeader {
    EventHeader { event: header.event, operation: header.operation, actor: header.actor }
}

impl EventHeader {
    pub fn from_contract(header: contract::EventHeader) -> (text: Self)
        ensures
            text == header_text_of(header),
    {
        EventHeader { event: header.event, operation: header.operation, actor: header.actor }
    }
}

#[derive(Debug, Clone, PartialEq, Eq)]
pub struct ItemOpenedEvent {
    pub header: EventHeader,
    pub item: Item,
}

#[derive(Debug, Clone, PartialEq, Eq)]
pub struct NoteAddedEvent {
    pub header: EventHeader,
    pub note: Note,
}

#[derive(Debug, Clone, PartialEq, Eq)]
pub struct EdgeAddedEvent {
    pub header: EventHeader,
    pub edge: Edge,
}

#[derive(Debug, Clone, PartialEq, Eq)]
pub struct StatusChangedEvent {
    pub header: EventHeader,
    pub item: String,
    pub status: ItemStatusText,
    pub body: Option<String>,
}

#[derive(Debug, Clone, PartialEq, Eq)]
pub struct AliasAddedEvent {
    pub header: EventHeader,
    pub item: String,
    pub alias: String,
}

/// A memory event as text.
#[derive(Debug, Clone, PartialEq, Eq)]
pub enum Event {
    ItemOpened(ItemOpenedEvent),
    NoteAdded(NoteAddedEvent),
    EdgeAdded(EdgeAddedEvent),
    StatusChanged(StatusChangedEvent),
    AliasAdded(AliasAddedEvent),
}

pub open spec fn opened_matches(text: ItemOpenedEvent, event: contract::ItemOpenedEvent) -> bool {
    text.header == header_text_of(event.header) && item_matches(text.item, event.item)
}

pub open spec fn noted_text_of(event: contract::NoteAddedEvent) -> NoteAddedEvent {
    NoteAddedEvent { header: header_text_of(event.header), note: note_text_of(event.note) }
}

pub open spec fn edge_added_text_of(event: contract::EdgeAddedEvent) -> EdgeAddedEvent {
    EdgeAddedEvent { header: header_text_of(event.header), edge: edge_text_of(event.edge) }
}

pub open spec fn status_changed_text_of(event: contract::StatusChangedEvent) -> StatusChangedEvent {
    StatusChangedEvent {
        header: header_text_of(event.header),
        item: event.item,
        status: item_status_text_of(event.status),
        body: event.body,
    }
}

pub open spec fn alias_added_text_of(event: contract::AliasAddedEvent) -> AliasAddedEvent {
    AliasAddedEvent { header: header_text_of(event.header), item: event.item, alias: event.alias }
}

pub open spec fn event_matches(text: Event, event: contract::Event) -> bool {
    match event {
        contract::Event::ItemOpened(opened) => text matches Event::ItemOpened(made) && opened_matches(made, opened),
        contract::Event::NoteAdded(noted) => text == Event::NoteAdded(noted_text_of(noted)),
        contract::Event::EdgeAdded(added) => text == Event::EdgeAdded(edge_added_text_of(added)),
        contract::Event::StatusChanged(changed) => text == Event::StatusChanged(status_changed_text_of(changed)),
        contract::Event::AliasAdded(added) => text == Event::AliasAdded(alias_added_text_of(added)),
    }
}

impl ItemOpenedEvent {
    pub fn from_contract(event: contract::ItemOpenedEvent) -> (text: Self)
        ensures
            opened_matches(text, event),
    {
        ItemOpenedEvent {
            header: EventHeader::from_contract(event.header),
            item: Item::from_contract(event.item),
        }
    }
}

impl NoteAddedEvent {
    pub fn from_contract(event: contract::NoteAddedEvent) -> (text: Self)
        ensures
            text == noted_text_of(event),
    {
        NoteAddedEvent { header: EventHeader::from_contract(event.header), note: Note::from_contract(event.note) }
    }
}

impl EdgeAddedEvent {
    pub fn from_contract(event: contract::EdgeAddedEvent) -> (text: Self)
        ensures
            text == edge_added_text_of(event),
    {
        EdgeAddedEvent { header: EventHeader::from_contract(event.header), edge: Edge::from_contract(event.edge) }
    }
}

impl StatusChangedEvent {
    pub fn from_contract(event: contract::StatusChangedEvent) -> (text: Self)
        ensures
            text == status_changed_text_of(event),
    {
        StatusChangedEvent {
            header: EventHeader::from_contract(event.header),
            item: event.item,
            status: ItemStatusText::from_contract(event.status),
            body: event.body,
        }
    }
}

impl AliasAddedEvent {
    pub fn from_contract(event: contract::AliasAddedEvent) -> (text: Self)
        ensures
            text == alias_added_text_of(event),
    {
        AliasAddedEvent { header: EventHeader::from_contract(event.header), item: event.item, alias: event.alias }
    }
}

impl Event {
    pub fn from_contract(event: contract::Event) -> (text: Self)
        ensures
            event_matches(text, event),
    {
        match event {
            contract::Event::ItemOpened(opened) => Event::ItemOpened(ItemOpenedEvent::from_contract(opened)),
            contract::Event::NoteAdded(noted) => Event::NoteAdded(NoteAddedEvent::from_contract(noted)),
            contract::Event::EdgeAdded(added) => Event::EdgeAdded(EdgeAddedEvent::from_contract(added)),
            contract::Event::StatusChanged(changed) => Event::StatusChanged(
                StatusChangedEvent::from_contract(changed),
            ),
            contract::Event::AliasAdded(added) => Event::AliasAdded(AliasAddedEvent::from_contract(added)),
        }
    }
}

impl RoleStatus {
    pub fn from_contract(status: contract::RoleStatus) -> (text: Self)
        ensures
            status_matches(text, status),
    {
        let claims = entry_texts(status.claims);
        let text = RoleStatus { role: RoleNameText::from_contract(status.role), claims };
        assert(text.claims@ =~= status.claims@.map_values(|entry: contract::ClaimEntry| entry_text_of(entry)));
        text
    }
}

/// The text form of every scope, in order.
pub fn scope_texts(values: Vec<ScopeReference>) -> (texts: Vec<ScopeReferenceText>)
    ensures
        texts@.len() == values@.len(),
        forall|index: int| 0 <= index < values@.len() ==> #[trigger] texts@[index] == scope_text_of(values@[index]),
{
    let ghost all = values@;
    let total = values.len();
    let mut texts: Vec<ScopeReferenceText> = Vec::new();
    let mut remaining = values;
    let mut index: usize = 0;
    assert(all.skip(0) =~= all);
    while remaining.len() > 0
        invariant
            index + remaining@.len() == all.len(),
            all.len() <= usize::MAX,
            remaining@ == all.skip(index as int),
            texts@.len() == index,
            all == values@,
            forall|earlier: int| 0 <= earlier < index ==> #[trigger] texts@[earlier] == scope_text_of(all[earlier]),
        decreases remaining.len(),
    {
        let value = remaining.remove(0);
        assert(value == all[index as int]);
        texts.push(ScopeReferenceText::from_contract(value));
        index = index + 1;
        assert(remaining@ =~= all.skip(index as int));
    }
    texts
}

/// The text form of every conflict, in order.
pub fn conflict_texts(values: Vec<contract::ScopeConflict>) -> (texts: Vec<ScopeConflict>)
    ensures
        texts@.len() == values@.len(),
        forall|index: int| 0 <= index < values@.len() ==> #[trigger] texts@[index] == conflict_text_of(values@[index]),
{
    let ghost all = values@;
    let total = values.len();
    let mut texts: Vec<ScopeConflict> = Vec::new();
    let mut remaining = values;
    let mut index: usize = 0;
    assert(all.skip(0) =~= all);
    while remaining.len() > 0
        invariant
            index + remaining@.len() == all.len(),
            all.len() <= usize::MAX,
            remaining@ == all.skip(index as int),
            texts@.len() == index,
            all == values@,
            forall|earlier: int| 0 <= earlier < index ==> #[trigger] texts@[earlier] == conflict_text_of(all[earlier]),
        decreases remaining.len(),
    {
        let value = remaining.remove(0);
        assert(value == all[index as int]);
        texts.push(ScopeConflict::from_contract(value));
        index = index + 1;
        assert(remaining@ =~= all.skip(index as int));
    }
    texts
}

/// The text form of every claim entry, in order.
pub fn entry_texts(values: Vec<contract::ClaimEntry>) -> (texts: Vec<ClaimEntry>)
    ensures
        texts@.len() == values@.len(),
        forall|index: int| 0 <= index < values@.len() ==> #[trigger] texts@[index] == entry_text_of(values@[index]),
{
    let ghost all = values@;
    let total = values.len();
    let mut texts: Vec<ClaimEntry> = Vec::new();
    let mut remaining = values;
    let mut index: usize = 0;
    assert(all.skip(0) =~= all);
    while remaining.len() > 0
        invariant
            index + remaining@.len() == all.len(),
            all.len() <= usize::MAX,
            remaining@ == all.skip(index as int),
            texts@.len() == index,
            all == values@,
            forall|earlier: int| 0 <= earlier < index ==> #[trigger] texts@[earlier] == entry_text_of(all[earlier]),
        decreases remaining.len(),
    {
        let value = remaining.remove(0);
        assert(value == all[index as int]);
        texts.push(ClaimEntry::from_contract(value));
        index = index + 1;
        assert(remaining@ =~= all.skip(index as int));
    }
    texts
}

/// The text form of every role status, in order.
pub fn status_texts(values: Vec<contract::RoleStatus>) -> (texts: Vec<RoleStatus>)
    ensures
        texts@.len() == values@.len(),
        forall|index: int| 0 <= index < values@.len() ==> status_matches(#[trigger] texts@[index], values@[index]),
{
    let ghost all = values@;
    let total = values.len();
    let mut texts: Vec<RoleStatus> = Vec::new();
    let mut remaining = values;
    let mut index: usize = 0;
    assert(all.skip(0) =~= all);
    while remaining.len() > 0
        invariant
            index + remaining@.len() == all.len(),
            all.len() <= usize::MAX,
            remaining@ == all.skip(index as int),
            texts@.len() == index,
            all == values@,
            forall|earlier: int| 0 <= earlier < index ==> status_matches(#[trigger] texts@[earlier], all[earlier]),
        decreases remaining.len(),
    {
        let value = remaining.remove(0);
        assert(value == all[index as int]);
        texts.push(RoleStatus::from_contract(value));
        index = index + 1;
        assert(remaining@ =~= all.skip(index as int));
    }
    texts
}

/// The text form of every activity, in order.
pub fn activity_texts(values: Vec<contract::Activity>) -> (texts: Vec<Activity>)
    ensures
        texts@.len() == values@.len(),
        forall|index: int| 0 <= index < values@.len() ==> #[trigger] texts@[index] == activity_text_of(values@[index]),
{
    let ghost all = values@;
    let total = values.len();
    let mut texts: Vec<Activity> = Vec::new();
    let mut remaining = values;
    let mut index: usize = 0;
    assert(all.skip(0) =~= all);
    while remaining.len() > 0
        invariant
            index + remaining@.len() == all.len(),
            all.len() <= usize::MAX,
            remaining@ == all.skip(index as int),
            texts@.len() == index,
            all == values@,
            forall|earlier: int| 0 <= earlier < index ==> #[trigger] texts@[earlier] == activity_text_of(all[earlier]),
        decreases remaining.len(),
    {
        let value = remaining.remove(0);
        assert(value == all[index as int]);
        texts.push(Activity::from_contract(value));
        index = index + 1;
        assert(remaining@ =~= all.skip(index as int));
    }
    texts
}

/// The text form of every item, in order.
pub fn item_texts(values: Vec<contract::Item>) -> (texts: Vec<Item>)
    ensures
        texts@.len() == values@.len(),
        forall|index: int| 0 <= index < values@.len() ==> item_matches(#[trigger] texts@[index], values@[index]),
{
    let ghost all = values@;
    let total = values.len();
    let mut texts: Vec<Item> = Vec::new();
    let mut remaining = values;
    let mut index: usize = 0;
    assert(all.skip(0) =~= all);
    while remaining.len() > 0
        invariant
            index + remaining@.len() == all.len(),
            all.len() <= usize::MAX,
            remaining@ == all.skip(index as int),
            texts@.len() == index,
            all == values@,
            forall|earlier: int| 0 <= earlier < index ==> item_matches(#[trigger] texts@[earlier], all[earlier]),
        decreases remaining.len(),
    {
        let value = remaining.remove(0);
        assert(value == all[index as int]);
        texts.push(Item::from_contract(value));
        index = index + 1;
        assert(remaining@ =~= all.skip(index as int));
    }
    texts
}

/// The text form of every note, in order.
pub fn note_texts(values: Vec<contract::Note>) -> (texts: Vec<Note>)
    ensures
        texts@.len() == values@.len(),
        forall|index: int| 0 <= index < values@.len() ==> #[trigger] texts@[index] == note_text_of(values@[index]),
{
    let ghost all = values@;
    let total = values.len();
    let mut texts: Vec<Note> = Vec::new();
    let mut remaining = values;
    let mut index: usize = 0;
    assert(all.skip(0) =~= all);
    while remaining.len() > 0
        invariant
            index + remaining@.len() == all.len(),
            all.len() <= usize::MAX,
            remaining@ == all.skip(index as int),
            texts@.len() == index,
            all == values@,
            forall|earlier: int| 0 <= earlier < index ==> #[trigger] texts@[earlier] == note_text_of(all[earlier]),
        decreases remaining.len(),
    {
        let value = remaining.remove(0);
        assert(value == all[index as int]);
        texts.push(Note::from_contract(value));
        index = index + 1;
        assert(remaining@ =~= all.skip(index as int));
    }
    texts
}

/// The text form of every edge, in order.
pub fn edge_texts(values: Vec<contract::Edge>) -> (texts: Vec<Edge>)
    ensures
        texts@.len() == values@.len(),
        forall|index: int| 0 <= index < values@.len() ==> #[trigger] texts@[index] == edge_text_of(values@[index]),
{
    let ghost all = values@;
    let total = values.len();
    let mut texts: Vec<Edge> = Vec::new();
    let mut remaining = values;
    let mut index: usize = 0;
    assert(all.skip(0) =~= all);
    while remaining.len() > 0
        invariant
            index + remaining@.len() == all.len(),
            all.len() <= usize::MAX,
            remaining@ == all.skip(index as int),
            texts@.len() == index,
            all == values@,
            forall|earlier: int| 0 <= earlier < index ==> #[trigger] texts@[earlier] == edge_text_of(all[earlier]),
        decreases remaining.len(),
    {
        let value = remaining.remove(0);
        assert(value == all[index as int]);
        texts.push(Edge::from_contract(value));
        index = index + 1;
        assert(remaining@ =~= all.skip(index as int));
    }
    texts
}

/// The text form of every event, in order.
pub fn event_texts(values: Vec<contract::Event>) -> (texts: Vec<Event>)
    ensures
        texts@.len() == values@.len(),
        forall|index: int| 0 <= index < values@.len() ==> event_matches(#[trigger] texts@[index], values@[index]),
{
    let ghost all = values@;
    let total = values.len();
    let mut texts: Vec<Event> = Vec::new();
    let mut remaining = values;
    let mut index: usize = 0;
    assert(all.skip(0) =~= all);
    while remaining.len() > 0
        invariant
            index + remaining@.len() == all.len(),
            all.len() <= usize::MAX,
            remaining@ == all.skip(index as int),
            texts@.len() == index,
            all == values@,
            forall|earlier: int| 0 <= earlier < index ==> event_matches(#[trigger] texts@[earlier], all[earlier]),
        decreases remaining.len(),
    {
        let value = remaining.remove(0);
        assert(value == all[index as int]);
        texts.push(Event::from_contract(value));
        index = index + 1;
        assert(remaining@ =~= all.skip(index as int));
    }
    texts
}


#[derive(Debug, Clone, PartialEq, Eq)]
pub struct OpeningReceipt {
    pub event: ItemOpenedEvent,
}

#[derive(Debug, Clone, PartialEq, Eq)]
pub struct NoteReceipt {
    pub event: NoteAddedEvent,
}

#[derive(Debug, Clone, PartialEq, Eq)]
pub struct LinkReceipt {
    pub event: EdgeAddedEvent,
}

#[derive(Debug, Clone, PartialEq, Eq)]
pub struct StatusReceipt {
    pub event: StatusChangedEvent,
}

#[derive(Debug, Clone, PartialEq, Eq)]
pub struct AliasReceipt {
    pub event: AliasAddedEvent,
}

/// A memory view as text.
#[derive(Debug, Clone, PartialEq, Eq)]
pub struct ViewText {
    pub items: Vec<Item>,
    pub edges: Vec<Edge>,
    pub notes: Vec<Note>,
    pub events: Vec<Event>,
}

pub open spec fn view_matches(text: ViewText, view: contract::MemoryView) -> bool {
    &&& text.items@.len() == view.items@.len()
    &&& forall|index: int| 0 <= index < view.items@.len() ==> item_matches(#[trigger] text.items@[index], view.items@[index])
    &&& text.edges@ == view.edges@.map_values(|edge: contract::Edge| edge_text_of(edge))
    &&& text.notes@ == view.notes@.map_values(|note: contract::Note| note_text_of(note))
    &&& text.events@.len() == view.events@.len()
    &&& forall|index: int| 0 <= index < view.events@.len() ==> event_matches(#[trigger] text.events@[index], view.events@[index])
}

impl ViewText {
    pub fn from_contract(view: contract::MemoryView) -> (text: Self)
        ensures
            view_matches(text, view),
    {
        let text = ViewText {
            items: item_texts(view.items),
            edges: edge_texts(view.edges),
            notes: note_texts(view.notes),
            events: event_texts(view.events),
        };
        assert(text.edges@ =~= view.edges@.map_values(|edge: contract::Edge| edge_text_of(edge)));
        assert(text.notes@ =~= view.notes@.map_values(|note: contract::Note| note_text_of(note)));
        text
    }
}

#[derive(Debug, Clone, Copy, PartialEq, Eq)]
pub struct Rejection {
    pub reason: RejectionReasonText,
}

#[derive(Debug, Clone, PartialEq, Eq)]
pub struct RoleSnapshot {
    pub roles: Vec<RoleStatus>,
    pub recent_activity: Vec<Activity>,
}

/// A reply as the command line prints it.
#[derive(Debug, Clone, PartialEq, Eq)]
pub enum MindTextReply {
    ClaimAcceptance(ClaimAcceptance),
    ClaimRejection(ClaimRejection),
    ReleaseAcknowledgment(ReleaseAcknowledgment),
    HandoffAcceptance(HandoffAcceptance),
    HandoffRejection(HandoffRejection),
    RoleSnapshot(RoleSnapshot),
    ActivityAcknowledgment(ActivityAcknowledgment),
    ActivityList(ActivityList),
    OpeningReceipt(OpeningReceipt),
    NoteReceipt(NoteReceipt),
    LinkReceipt(LinkReceipt),
    StatusReceipt(StatusReceipt),
    AliasReceipt(AliasReceipt),
    View(ViewText),
    Rejection(Rejection),
}

/// The replies that have a text form: all but the typed graph's replies and the
/// unimplemented one.
pub open spec fn has_text_form(reply: MindReply) -> bool {
    !(reply is ThoughtCommitted || reply is RelationCommitted || reply is ThoughtList
        || reply is RelationList || reply is SubscriptionAccepted || reply is MindRequestUnimplemented)
}

/// `text` is the text form of `reply`: the same kind of reply, each field taken by
/// its text form.
pub open spec fn reply_matches(text: MindTextReply, reply: MindReply) -> bool {
    match reply {
        MindReply::ClaimAcceptance(acceptance) => text matches MindTextReply::ClaimAcceptance(made)
            && made.role == role_name_text_of(acceptance.role) && made.scopes@
            == acceptance.scopes@.map_values(|scope: ScopeReference| scope_text_of(scope)),
        MindReply::ClaimRejection(rejection) => text matches MindTextReply::ClaimRejection(made)
            && made.role == role_name_text_of(rejection.role) && made.conflicts@
            == rejection.conflicts@.map_values(|conflict: contract::ScopeConflict| conflict_text_of(conflict)),
        MindReply::ReleaseAcknowledgment(acknowledgment) => text matches MindTextReply::ReleaseAcknowledgment(made)
            && made.role == role_name_text_of(acknowledgment.role) && made.released_scopes@
            == acknowledgment.released_scopes@.map_values(|scope: ScopeReference| scope_text_of(scope)),
        MindReply::HandoffAcceptance(acceptance) => text matches MindTextReply::HandoffAcceptance(made)
            && made.from == role_name_text_of(acceptance.from) && made.to == role_name_text_of(acceptance.to)
            && made.scopes@ == acceptance.scopes@.map_values(|scope: ScopeReference| scope_text_of(scope)),
        MindReply::HandoffRejection(rejection) => text matches MindTextReply::HandoffRejection(made)
            && made.from == role_name_text_of(rejection.from) && made.to == role_name_text_of(rejection.to)
            && match rejection.reason {
            contract::HandoffRejectionReason::SourceRoleDoesNotHold => made.reason
                == HandoffRejectionReason::SourceRoleDoesNotHold(SourceRoleDoesNotHold {}),
            contract::HandoffRejectionReason::TargetRoleConflict(conflicts) => made.reason matches HandoffRejectionReason::TargetRoleConflict(found)
                && found.conflicts@ == conflicts@.map_values(
                |conflict: contract::ScopeConflict| conflict_text_of(conflict),
            ),
        },
        MindReply::RoleSnapshot(snapshot) => text matches MindTextReply::RoleSnapshot(made)
            && made.roles@.len() == snapshot.roles@.len() && (forall|index: int|
            0 <= index < snapshot.roles@.len() ==> status_matches(
                #[trigger] made.roles@[index],
                snapshot.roles@[index],
            )) && made.recent_activity@ == snapshot.recent_activity@.map_values(
            |activity: contract::Activity| activity_text_of(activity),
        ),
        MindReply::ActivityAcknowledgment(acknowledgment) => text == MindTextReply::ActivityAcknowledgment(
            ActivityAcknowledgment { slot: acknowledgment.slot },
        ),
        MindReply::ActivityList(list) => text matches MindTextReply::ActivityList(made) && made.records@
            == list.records@.map_values(|activity: contract::Activity| activity_text_of(activity)),
        MindReply::OpeningReceipt(receipt) => text matches MindTextReply::OpeningReceipt(made)
            && opened_matches(made.event, receipt.event),
        MindReply::NoteReceipt(receipt) => text == MindTextReply::NoteReceipt(
            NoteReceipt { event: noted_text_of(receipt.event) },
        ),
        MindReply::LinkReceipt(receipt) => text == MindTextReply::LinkReceipt(
            LinkReceipt { event: edge_added_text_of(receipt.event) },
        ),
        MindReply::StatusReceipt(receipt) => text == MindTextReply::StatusReceipt(
            StatusReceipt { event: status_changed_text_of(receipt.event) },
        ),
        MindReply::AliasReceipt(receipt) => text == MindTextReply::AliasReceipt(
            AliasReceipt { event: alias_added_text_of(receipt.event) },
        ),
        MindReply::View(view) => text matches MindTextReply::View(made) && view_matches(made, view),
        MindReply::Rejection(rejection) => text == MindTextReply::Rejection(
            Rejection { reason: rejection_reason_text_of(rejection.reason) },
        ),
        _ => false,
    }
}

/// The message of the error for a reply that has no text form.
pub open spec fn no_text_form_message() -> Seq<char> {
    "mind reply has no MindTextReply projection"@
}

fn sequence_of<T>(values: Vec<T>) -> (same: Vec<T>)
    ensures
        same@ == values@,
{
    values
}

impl MindTextReply {
    /// The text form of the reply; the replies of the typed graph and the
    /// unimplemented reply have none.
    pub fn from_reply(reply: MindReply) -> (text: Result<Self, Error>)
        ensures
            has_text_form(reply) ==> (text matches Ok(made) && reply_matches(made, reply)),
            !has_text_form(reply) ==> (text matches Err(Error::UnexpectedFrame(message)) && message@
                == no_text_form_message()),
    {
        match reply {
            MindReply::ClaimAcceptance(acceptance) => {
                let scopes = scope_texts(acceptance.scopes);
                let made = ClaimAcceptance { role: RoleNameText::from_contract(acceptance.role), scopes };
                assert(made.scopes@ =~= acceptance.scopes@.map_values(|scope: ScopeReference| scope_text_of(scope)));
                Ok(MindTextReply::ClaimAcceptance(made))
            },
            MindReply::ClaimRejection(rejection) => {
                let conflicts = conflict_texts(rejection.conflicts);
                let made = ClaimRejection { role: RoleNameText::from_contract(rejection.role), conflicts };
                assert(made.conflicts@ =~= rejection.conflicts@.map_values(
                    |conflict: contract::ScopeConflict| conflict_text_of(conflict),
                ));
                Ok(MindTextReply::ClaimRejection(made))
            },
            MindReply::ReleaseAcknowledgment(acknowledgment) => {
                let released_scopes = scope_texts(acknowledgment.released_scopes);
                let made = ReleaseAcknowledgment {
                    role: RoleNameText::from_contract(acknowledgment.role),
                    released_scopes,
                };
                assert(made.released_scopes@ =~= acknowledgment.released_scopes@.map_values(
                    |scope: ScopeReference| scope_text_of(scope),
                ));
                Ok(MindTextReply::ReleaseAcknowledgment(made))
            },
            MindReply::HandoffAcceptance(acceptance) => {
                let scopes = scope_texts(acceptance.scopes);
                let made = HandoffAcceptance {
                    from: RoleNameText::from_contract(acceptance.from),
                    to: RoleNameText::from_contract(acceptance.to),
                    scopes,
                };
                assert(made.scopes@ =~= acceptance.scopes@.map_values(|scope: ScopeReference| scope_text_of(scope)));
                Ok(MindTextReply::HandoffAcceptance(made))
            },
            MindReply::HandoffRejection(rejection) => {
                let reason = match rejection.reason {
                    contract::HandoffRejectionReason::SourceRoleDoesNotHold => HandoffRejectionReason::SourceRoleDoesNotHold(
                        SourceRoleDoesNotHold {},
                    ),
                    contract::HandoffRejectionReason::TargetRoleConflict(conflicts) => {
                        let ghost before = conflicts@;
                        let found = conflict_texts(conflicts);
                        assert(found@ =~= before.map_values(
                            |conflict: contract::ScopeConflict| conflict_text_of(conflict),
                        ));
                        HandoffRejectionReason::TargetRoleConflict(TargetRoleConflict { conflicts: found })
                    },
                };
                Ok(
                    MindTextReply::HandoffRejection(
                        HandoffRejection {
                            from: RoleNameText::from_contract(rejection.from),
                            to: RoleNameText::from_contract(rejection.to),
                            reason,
                        },
                    ),
                )
            },
            MindReply::RoleSnapshot(snapshot) => {
                let roles = status_texts(snapshot.roles);
                let recent_activity = activity_texts(snapshot.recent_activity);
                let made = RoleSnapshot { roles, recent_activity };
                assert(made.recent_activity@ =~= snapshot.recent_activity@.map_values(
                    |activity: contract::Activity| activity_text_of(activity),
                ));
                Ok(MindTextReply::RoleSnapshot(made))
            },
            MindReply::ActivityAcknowledgment(acknowledgment) => Ok(
                MindTextReply::ActivityAcknowledgment(ActivityAcknowledgment { slot: acknowledgment.slot }),
            ),
            MindReply::ActivityList(list) => {
                let records = activity_texts(list.records);
                let made = ActivityList { records };
                assert(made.records@ =~= list.records@.map_values(
                    |activity: contract::Activity| activity_text_of(activity),
                ));
                Ok(MindTextReply::ActivityList(made))
            },
            MindReply::OpeningReceipt(receipt) => Ok(
                MindTextReply::OpeningReceipt(OpeningReceipt { event: ItemOpenedEvent::from_contract(receipt.event) }),
            ),
            MindReply::NoteReceipt(receipt) => Ok(
                MindTextReply::NoteReceipt(NoteReceipt { event: NoteAddedEvent::from_contract(receipt.event) }),
            ),
            MindReply::LinkReceipt(receipt) => Ok(
                MindTextReply::LinkReceipt(LinkReceipt { event: EdgeAddedEvent::from_contract(receipt.event) }),
            ),
            MindReply::StatusReceipt(receipt) => Ok(
                MindTextReply::StatusReceipt(
                    StatusReceipt { event: StatusChangedEvent::from_contract(receipt.event) },
                ),
            ),
            MindReply::AliasReceipt(receipt) => Ok(
                MindTextReply::AliasReceipt(AliasReceipt { event: AliasAddedEvent::from_contract(receipt.event) }),
            ),
            MindReply::View(view) => Ok(MindTextReply::View(ViewText::from_contract(view))),
            MindReply::Rejection(rejection) => Ok(
                MindTextReply::Rejection(
                    Rejection { reason: RejectionReasonText::from_contract(rejection.reason) },
                ),
            ),
            _ => Err(
                Error::UnexpectedFrame(String::from_str("mind reply has no MindTextReply projection")),
            ),
        }
    }
}

} // verus!
