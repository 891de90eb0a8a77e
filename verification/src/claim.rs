//! Claimed scopes: a single role's claim set, and the ledger of every role's claims.

use vstd::prelude::*;

use crate::path::{
    is_absolute, lemma_normal_path_absolute, lemma_path_contains_transitive, normal_path,
    normalize_path, path_contains, path_contains_spec,
};
use crate::contract::{
    all_roles, duplicate_scopes, Activity, ClaimAcceptance, ClaimEntry, ClaimRejection,
    HandoffAcceptance, HandoffRejection, HandoffRejectionReason, MindReply, ReleaseAcknowledgment,
    RoleClaim, RoleHandoff, RoleName, RoleObservation, RoleRelease, RoleSnapshot, RoleStatus,
    ScopeConflict, ScopeReference,
};
use crate::role::PersonaRole;

verus! {

/// A path that a role can claim; `new` puts it in normal form, which is absolute
/// (see `lemma_normal_path_absolute`).
#[derive(Debug, PartialEq, Eq)]
pub struct ClaimScope {
    path: String,
}

impl ClaimScope {
    /// The scope's path.
    pub closed spec fn path(&self) -> Seq<char> {
        self.path@
    }

    /// Every scope's path is absolute.
    #[verifier::type_invariant]
    closed spec fn absolute(self) -> bool {
        is_absolute(self.path@)
    }

    /// The scope of `path` in normal form (see `normal_path`).
    pub fn new(path: &str) -> (scope: Self)
        ensures
            scope.path() == normal_path(path@),
    {
        let normal = normalize_path(path);
        proof {
            lemma_normal_path_absolute(path@);
        }
        ClaimScope { path: normal }
    }

    pub fn duplicate(&self) -> (copy: Self)
        ensures
            copy.path() == self.path(),
    {
        proof {
            use_type_invariant(self);
        }
        ClaimScope { path: self.path.clone() }
    }

    pub fn as_str(&self) -> (text: &str)
        ensures
            text@ == self.path(),
    {
        self.path.as_str()
    }

    /// Whether this scope is the root, the same path as `other`, or an ancestor of it.
    pub fn contains(&self, other: &ClaimScope) -> (result: bool)
        ensures
            result == path_contains_spec(self.path(), other.path()),
    {
        path_contains(self.path.as_str(), other.path.as_str())
    }

    /// Whether either scope contains the other.
    pub fn overlaps(&self, other: &ClaimScope) -> (result: bool)
        ensures
            result == scopes_overlap_spec(self.path(), other.path()),
    {
        self.contains(other) || other.contains(self)
    }
}

pub open spec fn scopes_overlap_spec(left: Seq<char>, right: Seq<char>) -> bool {
    path_contains_spec(left, right) || path_contains_spec(right, left)
}

/// Some path of `scopes` contains `scope`.
pub open spec fn covered(scopes: Seq<Seq<char>>, scope: Seq<char>) -> bool {
    exists|index: int| 0 <= index < scopes.len() && path_contains_spec(scopes[index], scope)
}

/// The paths of `scopes` that `scope` does not contain, in order.
pub open spec fn uncovered_by(scopes: Seq<Seq<char>>, scope: Seq<char>) -> Seq<Seq<char>>
    decreases scopes.len(),
{
    if scopes.len() == 0 {
        Seq::empty()
    } else {
        let rest = uncovered_by(scopes.drop_last(), scope);
        if path_contains_spec(scope, scopes.last()) {
            rest
        } else {
            rest.push(scopes.last())
        }
    }
}

/// The claim set after claiming `scope`: unchanged when a held path already contains
/// `scope`; otherwise the held paths that `scope` contains give way to `scope`.
pub open spec fn claim_scopes(scopes: Seq<Seq<char>>, scope: Seq<char>) -> Seq<Seq<char>> {
    if covered(scopes, scope) {
        scopes
    } else {
        uncovered_by(scopes, scope).push(scope)
    }
}

/// No path of the set contains another one.
pub open spec fn no_nested_scopes(scopes: Seq<Seq<char>>) -> bool {
    forall|i: int, j: int|
        0 <= i < scopes.len() && 0 <= j < scopes.len() && i != j ==> !path_contains_spec(
            #[trigger] scopes[i],
            #[trigger] scopes[j],
        )
}

pub open spec fn all_absolute(scopes: Seq<Seq<char>>) -> bool {
    forall|index: int| 0 <= index < scopes.len() ==> is_absolute(#[trigger] scopes[index])
}

proof fn lemma_uncovered_by_members(scopes: Seq<Seq<char>>, scope: Seq<char>)
    ensures
        uncovered_by(scopes, scope).len() <= scopes.len(),
        forall|index: int|
            0 <= index < uncovered_by(scopes, scope).len() ==> !path_contains_spec(
                scope,
                #[trigger] uncovered_by(scopes, scope)[index],
            ),
        forall|index: int|
            0 <= index < uncovered_by(scopes, scope).len() ==> scopes.contains(
                #[trigger] uncovered_by(scopes, scope)[index],
            ),
        forall|index: int|
            0 <= index < scopes.len() && !path_contains_spec(scope, #[trigger] scopes[index])
                ==> uncovered_by(scopes, scope).contains(scopes[index]),
    decreases scopes.len(),
{
    if scopes.len() > 0 {
        let rest = scopes.drop_last();
        lemma_uncovered_by_members(rest, scope);
        assert forall|index: int|
            0 <= index < uncovered_by(scopes, scope).len() implies scopes.contains(
                #[trigger] uncovered_by(scopes, scope)[index],
            ) by {
            let value = uncovered_by(scopes, scope)[index];
            if index < uncovered_by(rest, scope).len() {
                assert(rest.contains(value));
                let at = choose|at: int| 0 <= at < rest.len() && rest[at] == value;
                assert(scopes[at] == value);
            } else {
                assert(scopes[scopes.len() - 1] == value);
            }
        }
        assert forall|index: int|
            0 <= index < scopes.len() && !path_contains_spec(
                scope,
                #[trigger] scopes[index],
            ) implies uncovered_by(scopes, scope).contains(scopes[index]) by {
            if index < rest.len() {
                assert(rest[index] == scopes[index]);
                assert(uncovered_by(rest, scope).contains(scopes[index]));
                let at = choose|at: int|
                    0 <= at < uncovered_by(rest, scope).len() && uncovered_by(rest, scope)[at]
                        == scopes[index];
                assert(uncovered_by(scopes, scope)[at] == scopes[index]);
            } else {
                let last = uncovered_by(scopes, scope).len() - 1;
                assert(uncovered_by(scopes, scope)[last] == scopes[index]);
            }
        }
    }
}

proof fn lemma_uncovered_by_keeps_order(scopes: Seq<Seq<char>>, scope: Seq<char>)
    requires
        no_nested_scopes(scopes),
    ensures
        no_nested_scopes(uncovered_by(scopes, scope)),
    decreases scopes.len(),
{
    if scopes.len() > 0 {
        let rest = scopes.drop_last();
        assert forall|i: int, j: int|
            0 <= i < rest.len() && 0 <= j < rest.len() && i != j implies !path_contains_spec(
                #[trigger] rest[i],
                #[trigger] rest[j],
            ) by {
            assert(rest[i] == scopes[i] && rest[j] == scopes[j]);
        }
        lemma_uncovered_by_keeps_order(rest, scope);
        let kept = uncovered_by(rest, scope);
        lemma_uncovered_by_members(rest, scope);
        if !path_contains_spec(scope, scopes.last()) {
            let grown = kept.push(scopes.last());
            assert forall|i: int, j: int|
                0 <= i < grown.len() && 0 <= j < grown.len() && i != j implies !path_contains_spec(
                    #[trigger] grown[i],
                    #[trigger] grown[j],
                ) by {
                if i < kept.len() && j < kept.len() {
                    assert(grown[i] == kept[i] && grown[j] == kept[j]);
                } else if i < kept.len() {
                    assert(rest.contains(kept[i]));
                    let at = choose|at: int| 0 <= at < rest.len() && rest[at] == kept[i];
                    assert(scopes[at] == grown[i]);
                    assert(scopes[scopes.len() - 1] == grown[j]);
                } else {
                    assert(rest.contains(kept[j]));
                    let at = choose|at: int| 0 <= at < rest.len() && rest[at] == kept[j];
                    assert(scopes[at] == grown[j]);
                    assert(scopes[scopes.len() - 1] == grown[i]);
                }
            }
        }
    }
}

/// Claiming a scope keeps a claim set free of nested paths.
pub proof fn lemma_claim_keeps_scopes_unnested(scopes: Seq<Seq<char>>, scope: Seq<char>)
    requires
        no_nested_scopes(scopes),
    ensures
        no_nested_scopes(claim_scopes(scopes, scope)),
{
    if !covered(scopes, scope) {
        lemma_uncovered_by_keeps_order(scopes, scope);
        lemma_uncovered_by_members(scopes, scope);
        let kept = uncovered_by(scopes, scope);
        let grown = kept.push(scope);
        assert forall|i: int, j: int|
            0 <= i < grown.len() && 0 <= j < grown.len() && i != j implies !path_contains_spec(
                #[trigger] grown[i],
                #[trigger] grown[j],
            ) by {
            if i < kept.len() && j < kept.len() {
                assert(grown[i] == kept[i] && grown[j] == kept[j]);
            } else if i < kept.len() {
                assert(scopes.contains(kept[i]));
                let at = choose|at: int| 0 <= at < scopes.len() && scopes[at] == kept[i];
                assert(path_contains_spec(scopes[at], scope) == false);
            } else {
                assert(grown[i] == scope && grown[j] == kept[j]);
            }
        }
    }
}

/// After claiming a scope, the claim set owns that scope.
pub proof fn lemma_claim_then_owns(scopes: Seq<Seq<char>>, scope: Seq<char>)
    ensures
        covered(claim_scopes(scopes, scope), scope),
{
    if !covered(scopes, scope) {
        let grown = uncovered_by(scopes, scope).push(scope);
        assert(path_contains_spec(grown[grown.len() - 1], scope));
    }
}

/// Claiming a scope twice is the same as claiming it once.
pub proof fn lemma_claim_idempotent(scopes: Seq<Seq<char>>, scope: Seq<char>)
    ensures
        claim_scopes(claim_scopes(scopes, scope), scope) == claim_scopes(scopes, scope),
{
    lemma_claim_then_owns(scopes, scope);
}

/// Claiming a scope never loses a scope that was owned before.
pub proof fn lemma_claim_keeps_ownership(
    scopes: Seq<Seq<char>>,
    scope: Seq<char>,
    owned: Seq<char>,
)
    requires
        all_absolute(scopes),
        is_absolute(scope),
        covered(scopes, owned),
    ensures
        covered(claim_scopes(scopes, scope), owned),
{
    if !covered(scopes, scope) {
        lemma_uncovered_by_members(scopes, scope);
        let kept = uncovered_by(scopes, scope);
        let grown = kept.push(scope);
        let at = choose|at: int| 0 <= at < scopes.len() && path_contains_spec(scopes[at], owned);
        if path_contains_spec(scope, scopes[at]) {
            lemma_path_contains_transitive(scope, scopes[at], owned);
            assert(path_contains_spec(grown[grown.len() - 1], owned));
        } else {
            assert(kept.contains(scopes[at]));
            let position = choose|position: int|
                0 <= position < kept.len() && kept[position] == scopes[at];
            assert(grown[position] == scopes[at]);
        }
    }
}

/// Claiming a scope among absolute paths owns exactly what was owned before and what
/// the scope contains.
pub proof fn lemma_claim_owns_exactly(scopes: Seq<Seq<char>>, scope: Seq<char>, owned: Seq<char>)
    requires
        all_absolute(scopes),
        is_absolute(scope),
    ensures
        covered(claim_scopes(scopes, scope), owned) == (covered(scopes, owned) || path_contains_spec(
            scope,
            owned,
        )),
{
    if covered(scopes, scope) {
        if path_contains_spec(scope, owned) {
            let at = choose|at: int| 0 <= at < scopes.len() && path_contains_spec(scopes[at], scope);
            lemma_path_contains_transitive(scopes[at], scope, owned);
        }
    } else {
        lemma_uncovered_by_members(scopes, scope);
        let kept = uncovered_by(scopes, scope);
        let grown = kept.push(scope);
        if covered(scopes, owned) {
            lemma_claim_keeps_ownership(scopes, scope, owned);
        }
        if path_contains_spec(scope, owned) {
            assert(path_contains_spec(grown[grown.len() - 1], owned));
        }
        if covered(grown, owned) {
            let at = choose|at: int| 0 <= at < grown.len() && path_contains_spec(grown[at], owned);
            if at < kept.len() {
                assert(scopes.contains(kept[at]));
                let position = choose|position: int| 0 <= position < scopes.len() && scopes[position] == kept[at];
                assert(path_contains_spec(scopes[position], owned));
            }
        }
    }
}

/// The paths that claiming `scope` keeps are absolute when the held ones are.
proof fn lemma_claim_keeps_absolute(scopes: Seq<Seq<char>>, scope: Seq<char>)
    requires
        all_absolute(scopes),
        is_absolute(scope),
    ensures
        all_absolute(claim_scopes(scopes, scope)),
{
    if !covered(scopes, scope) {
        lemma_uncovered_by_members(scopes, scope);
        let kept = uncovered_by(scopes, scope);
        let grown = kept.push(scope);
        assert forall|index: int| 0 <= index < grown.len() implies is_absolute(#[trigger] grown[index]) by {
            if index < kept.len() {
                assert(scopes.contains(kept[index]));
            }
        }
    }
}

/// One role's set of claimed scopes, kept free of nested paths.
#[derive(Debug, PartialEq, Eq)]
pub struct ClaimState {
    role: PersonaRole,
    scopes: Vec<ClaimScope>,
}

impl ClaimState {
    /// The paths that the role holds, in the order they were claimed.
    pub closed spec fn scopes(&self) -> Seq<Seq<char>> {
        self.scopes@.map_values(|scope: ClaimScope| scope.path())
    }

    /// Every held path is absolute.
    #[verifier::type_invariant]
    closed spec fn held_absolute(self) -> bool {
        all_absolute(self.scopes@.map_values(|scope: ClaimScope| scope.path()))
    }

    pub closed spec fn role_name(&self) -> Seq<char> {
        self.role.name()
    }

    pub fn new(role: PersonaRole) -> (state: Self)
        ensures
            state.role_name() == role.name(),
            state.scopes() == Seq::<Seq<char>>::empty(),
    {
        let state = ClaimState { role, scopes: Vec::new() };
        assert(state.scopes() =~= Seq::<Seq<char>>::empty());
        state
    }

    /// Claims `scope` (see `claim_scopes`): afterwards the role owns exactly what it
    /// owned before and what `scope` contains.
    pub fn claim(&mut self, scope: ClaimScope)
        ensures
            final(self).role_name() == old(self).role_name(),
            final(self).scopes() == claim_scopes(old(self).scopes(), scope.path()),
            forall|owned: Seq<char>|
                #[trigger] covered(final(self).scopes(), owned) == (covered(old(self).scopes(), owned)
                    || path_contains_spec(scope.path(), owned)),
    {
        proof {
            use_type_invariant(&*self);
            use_type_invariant(&scope);
            assert forall|owned: Seq<char>|
                #[trigger] covered(claim_scopes(self.scopes(), scope.path()), owned) == (covered(
                    self.scopes(),
                    owned,
                ) || path_contains_spec(scope.path(), owned)) by {
                lemma_claim_owns_exactly(self.scopes(), scope.path(), owned);
            }
            lemma_claim_keeps_absolute(self.scopes(), scope.path());
        }
        if self.owns(&scope) {
            return;
        }
        let ghost before = self.scopes();
        let mut kept: Vec<ClaimScope> = Vec::new();
        let mut index: usize = 0;
        while index < self.scopes.len()
            invariant
                index <= self.scopes.len(),
                before == self.scopes@.map_values(|held: ClaimScope| held.path()),
                kept@.map_values(|held: ClaimScope| held.path()) == uncovered_by(
                    before.subrange(0, index as int),
                    scope.path(),
                ),
            decreases self.scopes.len() - index,
        {
            assert(before.subrange(0, index as int + 1).drop_last() =~= before.subrange(
                0,
                index as int,
            ));
            let ghost kept_before = kept@.map_values(|held: ClaimScope| held.path());
            if !scope.contains(&self.scopes[index]) {
                kept.push(self.scopes[index].duplicate());
                assert(kept@.map_values(|held: ClaimScope| held.path()) =~= kept_before.push(
                    before[index as int],
                ));
            }
            index = index + 1;
        }
        assert(before.subrange(0, before.len() as int) =~= before);
        let ghost kept_paths = kept@.map_values(|held: ClaimScope| held.path());
        kept.push(scope);
        assert(kept@.map_values(|held: ClaimScope| held.path()) =~= kept_paths.push(scope.path()));
        self.scopes = kept;
    }

    /// Whether some claimed scope contains `scope`.
    pub fn owns(&self, scope: &ClaimScope) -> (result: bool)
        ensures
            result == covered(self.scopes(), scope.path()),
    {
        let mut index: usize = 0;
        while index < self.scopes.len()
            invariant
                index <= self.scopes.len(),
                forall|earlier: int|
                    0 <= earlier < index ==> !path_contains_spec(
                        #[trigger] self.scopes()[earlier],
                        scope.path(),
                    ),
            decreases self.scopes.len() - index,
        {
            if self.scopes[index].contains(scope) {
                assert(path_contains_spec(self.scopes()[index as int], scope.path()));
                return true;
            }
            index = index + 1;
        }
        false
    }

    pub fn role(&self) -> (role: &PersonaRole)
        ensures
            role.name() == self.role_name(),
    {
        &self.role
    }

    pub fn scope_count(&self) -> (count: usize)
        ensures
            count == self.scopes().len(),
    {
        self.scopes.len()
    }
}

// ---------------------------------------------------------------------------
// The claim ledger: every role's claims
// ---------------------------------------------------------------------------

impl Clone for ClaimScope {
    fn clone(&self) -> (copy: Self)
        ensures
            copy.path() == self.path(),
    {
        self.duplicate()
    }
}

impl Clone for ClaimState {
    fn clone(&self) -> (copy: Self)
        ensures
            copy.role_name() == self.role_name(),
            copy.scopes() == self.scopes(),
    {
        proof {
            use_type_invariant(self);
        }
        let mut scopes: Vec<ClaimScope> = Vec::new();
        let mut index: usize = 0;
        while index < self.scopes.len()
            invariant
                index <= self.scopes.len(),
                scopes@.map_values(|scope: ClaimScope| scope.path()) == self.scopes().subrange(
                    0,
                    index as int,
                ),
            decreases self.scopes.len() - index,
        {
            let ghost before = scopes@.map_values(|scope: ClaimScope| scope.path());
            let copy = self.scopes[index].duplicate();
            assert(copy.path() == self.scopes()[index as int]);
            scopes.push(copy);
            assert(scopes@.map_values(|scope: ClaimScope| scope.path()) =~= before.push(copy.path()));
            assert(self.scopes().subrange(0, index as int + 1) =~= self.scopes().subrange(
                0,
                index as int,
            ).push(self.scopes()[index as int]));
            index = index + 1;
        }
        assert(self.scopes().subrange(0, self.scopes().len() as int) =~= self.scopes());
        ClaimState { role: self.role.duplicate(), scopes }
    }
}

/// Whether scope `left` contains scope `right`: paths by path containment, task
/// tokens by equality, and never across the two.
pub open spec fn scope_contains_spec(left: ScopeReference, right: ScopeReference) -> bool {
    match (left, right) {
        (ScopeReference::Path(left), ScopeReference::Path(right)) => path_contains_spec(
            left@,
            right@,
        ),
        (ScopeReference::Task(left), ScopeReference::Task(right)) => left@ == right@,
        _ => false,
    }
}

pub open spec fn scope_overlaps_spec(left: ScopeReference, right: ScopeReference) -> bool {
    scope_contains_spec(left, right) || scope_contains_spec(right, left)
}

/// A scope whose path, if it has one, is absolute.
pub open spec fn valid_scope(scope: ScopeReference) -> bool {
    match scope {
        ScopeReference::Path(path) => is_absolute(path@),
        ScopeReference::Task(_) => true,
    }
}

pub fn scope_contains(left: &ScopeReference, right: &ScopeReference) -> (result: bool)
    ensures
        result == scope_contains_spec(*left, *right),
{
    match (left, right) {
        (ScopeReference::Path(left), ScopeReference::Path(right)) => path_contains(
            left.as_str(),
            right.as_str(),
        ),
        (ScopeReference::Task(left), ScopeReference::Task(right)) => *left == *right,
        _ => false,
    }
}

pub fn scopes_overlap(left: &ScopeReference, right: &ScopeReference) -> (result: bool)
    ensures
        result == scope_overlaps_spec(*left, *right),
{
    scope_contains(left, right) || scope_contains(right, left)
}

proof fn lemma_scope_contains_transitive(
    left: ScopeReference,
    middle: ScopeReference,
    right: ScopeReference,
)
    requires
        valid_scope(left),
        valid_scope(middle),
        scope_contains_spec(left, middle),
        scope_contains_spec(middle, right),
    ensures
        scope_contains_spec(left, right),
{
    match (left, middle, right) {
        (ScopeReference::Path(l), ScopeReference::Path(m), ScopeReference::Path(r)) => {
            lemma_path_contains_transitive(l@, m@, r@);
        },
        _ => {},
    }
}

/// One role's hold on one scope.
#[derive(Debug, Clone, PartialEq, Eq)]
pub struct ClaimRecord {
    pub role: RoleName,
    pub scope: ScopeReference,
    pub reason: String,
}

impl ClaimRecord {
    pub fn duplicate(&self) -> (copy: Self)
        ensures
            copy == *self,
    {
        ClaimRecord { role: self.role, scope: self.scope.duplicate(), reason: self.reason.clone() }
    }
}

/// Some record of `role` contains `scope`.
pub open spec fn role_owns(entries: Seq<ClaimRecord>, role: RoleName, scope: ScopeReference) -> bool {
    exists|index: int|
        0 <= index < entries.len() && entries[index].role == role && scope_contains_spec(
            entries[index].scope,
            scope,
        )
}

/// The conflicts that `scope` meets among the records held by roles other than
/// `first` and `second`, in record order.
pub open spec fn scope_conflicts(
    entries: Seq<ClaimRecord>,
    first: RoleName,
    second: RoleName,
    scope: ScopeReference,
) -> Seq<ScopeConflict>
    decreases entries.len(),
{
    if entries.len() == 0 {
        Seq::empty()
    } else {
        let rest = scope_conflicts(entries.drop_last(), first, second, scope);
        let entry = entries.last();
        if entry.role != first && entry.role != second && scope_overlaps_spec(scope, entry.scope) {
            rest.push(ScopeConflict { scope, held_by: entry.role, held_reason: entry.reason })
        } else {
            rest
        }
    }
}

/// The conflicts of every scope of `scopes`, scope by scope.
pub open spec fn claim_conflicts(
    entries: Seq<ClaimRecord>,
    first: RoleName,
    second: RoleName,
    scopes: Seq<ScopeReference>,
) -> Seq<ScopeConflict>
    decreases scopes.len(),
{
    if scopes.len() == 0 {
        Seq::empty()
    } else {
        claim_conflicts(entries, first, second, scopes.drop_last()) + scope_conflicts(
            entries,
            first,
            second,
            scopes.last(),
        )
    }
}

/// The records other than those of `role` that `scope` contains, in order.
pub open spec fn without_contained(
    entries: Seq<ClaimRecord>,
    role: RoleName,
    scope: ScopeReference,
) -> Seq<ClaimRecord>
    decreases entries.len(),
{
    if entries.len() == 0 {
        Seq::empty()
    } else {
        let rest = without_contained(entries.drop_last(), role, scope);
        let entry = entries.last();
        if entry.role == role && scope_contains_spec(scope, entry.scope) {
            rest
        } else {
            rest.push(entry)
        }
    }
}

/// The records after `role` claims `scope` for `reason`: unchanged when the role
/// already owns the scope; otherwise the role's records inside `scope` give way to it.
pub open spec fn place_claim(
    entries: Seq<ClaimRecord>,
    role: RoleName,
    scope: ScopeReference,
    reason: String,
) -> Seq<ClaimRecord> {
    if role_owns(entries, role, scope) {
        entries
    } else {
        without_contained(entries, role, scope).push(ClaimRecord { role, scope, reason })
    }
}

/// The records after `role` claims every scope of `scopes` in turn.
pub open spec fn place_claims(
    entries: Seq<ClaimRecord>,
    role: RoleName,
    scopes: Seq<ScopeReference>,
    reason: String,
) -> Seq<ClaimRecord>
    decreases scopes.len(),
{
    if scopes.len() == 0 {
        entries
    } else {
        place_claim(place_claims(entries, role, scopes.drop_last(), reason), role, scopes.last(), reason)
    }
}

/// The records except those of `role`, in order.
pub open spec fn without_role(entries: Seq<ClaimRecord>, role: RoleName) -> Seq<ClaimRecord>
    decreases entries.len(),
{
    if entries.len() == 0 {
        Seq::empty()
    } else {
        let rest = without_role(entries.drop_last(), role);
        if entries.last().role == role {
            rest
        } else {
            rest.push(entries.last())
        }
    }
}

/// The scopes that `role` holds, in record order.
pub open spec fn role_scopes(entries: Seq<ClaimRecord>, role: RoleName) -> Seq<ScopeReference>
    decreases entries.len(),
{
    if entries.len() == 0 {
        Seq::empty()
    } else {
        let rest = role_scopes(entries.drop_last(), role);
        if entries.last().role == role {
            rest.push(entries.last().scope)
        } else {
            rest
        }
    }
}

/// The claim entries of `role`, in record order.
pub open spec fn role_claims(entries: Seq<ClaimRecord>, role: RoleName) -> Seq<ClaimEntry>
    decreases entries.len(),
{
    if entries.len() == 0 {
        Seq::empty()
    } else {
        let rest = role_claims(entries.drop_last(), role);
        if entries.last().role == role {
            rest.push(ClaimEntry { scope: entries.last().scope, reason: entries.last().reason })
        } else {
            rest
        }
    }
}

/// Some scope of `scopes` overlaps `scope`.
pub open spec fn overlaps_any(scopes: Seq<ScopeReference>, scope: ScopeReference) -> bool {
    exists|index: int| 0 <= index < scopes.len() && scope_overlaps_spec(scopes[index], scope)
}

/// The records except those of `role` that overlap some scope of `scopes`, in order.
pub open spec fn release_overlapping(
    entries: Seq<ClaimRecord>,
    role: RoleName,
    scopes: Seq<ScopeReference>,
) -> Seq<ClaimRecord>
    decreases entries.len(),
{
    if entries.len() == 0 {
        Seq::empty()
    } else {
        let rest = release_overlapping(entries.drop_last(), role, scopes);
        let entry = entries.last();
        if entry.role == role && overlaps_any(scopes, entry.scope) {
            rest
        } else {
            rest.push(entry)
        }
    }
}

/// Every scope of `scopes` is owned by `role`.
pub open spec fn owns_all(entries: Seq<ClaimRecord>, role: RoleName, scopes: Seq<ScopeReference>) -> bool {
    forall|index: int| 0 <= index < scopes.len() ==> role_owns(entries, role, #[trigger] scopes[index])
}

/// No two records of different roles overlap.
pub open spec fn roles_disjoint(entries: Seq<ClaimRecord>) -> bool {
    forall|i: int, j: int|
        0 <= i < entries.len() && 0 <= j < entries.len() && #[trigger] entries[i].role
            != #[trigger] entries[j].role ==> !scope_overlaps_spec(entries[i].scope, entries[j].scope)
}

pub open spec fn all_valid(entries: Seq<ClaimRecord>) -> bool {
    forall|index: int| 0 <= index < entries.len() ==> valid_scope(#[trigger] entries[index].scope)
}

pub open spec fn all_valid_scopes(scopes: Seq<ScopeReference>) -> bool {
    forall|index: int| 0 <= index < scopes.len() ==> valid_scope(#[trigger] scopes[index])
}


/// The records after `claim`: unchanged when it meets a conflict, otherwise each of
/// its scopes placed in turn.
pub open spec fn claim_outcome(entries: Seq<ClaimRecord>, claim: RoleClaim) -> Seq<ClaimRecord> {
    if claim_conflicts(entries, claim.role, claim.role, claim.scopes@).len() > 0 {
        entries
    } else {
        place_claims(entries, claim.role, claim.scopes@, claim.reason)
    }
}

/// The records after `handoff`: unchanged when refused, otherwise the source's
/// overlapping records dropped and each scope placed for the target in turn.
pub open spec fn handoff_outcome(entries: Seq<ClaimRecord>, handoff: RoleHandoff) -> Seq<ClaimRecord> {
    if !owns_all(entries, handoff.from, handoff.scopes@) || claim_conflicts(
        entries,
        handoff.from,
        handoff.to,
        handoff.scopes@,
    ).len() > 0 {
        entries
    } else {
        place_claims(
            release_overlapping(entries, handoff.from, handoff.scopes@),
            handoff.to,
            handoff.scopes@,
            handoff.reason,
        )
    }
}

/// No scope of `scopes` overlaps a record held by a role other than `role`.
pub open spec fn free_for(entries: Seq<ClaimRecord>, role: RoleName, scopes: Seq<ScopeReference>) -> bool {
    forall|s: int, e: int|
        0 <= s < scopes.len() && 0 <= e < entries.len() && (#[trigger] entries[e]).role != role
            ==> !scope_overlaps_spec(#[trigger] scopes[s], entries[e].scope)
}

proof fn lemma_scope_conflicts_empty(
    entries: Seq<ClaimRecord>,
    first: RoleName,
    second: RoleName,
    scope: ScopeReference,
)
    requires
        scope_conflicts(entries, first, second, scope).len() == 0,
    ensures
        forall|e: int|
            0 <= e < entries.len() && (#[trigger] entries[e]).role != first && entries[e].role
                != second ==> !scope_overlaps_spec(scope, entries[e].scope),
    decreases entries.len(),
{
    if entries.len() > 0 {
        let rest = entries.drop_last();
        lemma_scope_conflicts_empty(rest, first, second, scope);
        assert forall|e: int|
            0 <= e < entries.len() && (#[trigger] entries[e]).role != first && entries[e].role
                != second implies !scope_overlaps_spec(scope, entries[e].scope) by {
            if e < rest.len() {
                assert(rest[e] == entries[e]);
            }
        }
    }
}

proof fn lemma_claim_conflicts_empty(
    entries: Seq<ClaimRecord>,
    first: RoleName,
    second: RoleName,
    scopes: Seq<ScopeReference>,
)
    requires
        claim_conflicts(entries, first, second, scopes).len() == 0,
    ensures
        forall|s: int, e: int|
            0 <= s < scopes.len() && 0 <= e < entries.len() && (#[trigger] entries[e]).role
                != first && entries[e].role != second ==> !scope_overlaps_spec(
                #[trigger] scopes[s],
                entries[e].scope,
            ),
    decreases scopes.len(),
{
    if scopes.len() > 0 {
        let rest = scopes.drop_last();
        lemma_claim_conflicts_empty(entries, first, second, rest);
        lemma_scope_conflicts_empty(entries, first, second, scopes.last());
        assert forall|s: int, e: int|
            0 <= s < scopes.len() && 0 <= e < entries.len() && (#[trigger] entries[e]).role
                != first && entries[e].role != second implies !scope_overlaps_spec(
                #[trigger] scopes[s],
                entries[e].scope,
            ) by {
            if s < rest.len() {
                assert(rest[s] == scopes[s]);
            }
        }
    }
}

proof fn lemma_without_contained_members(entries: Seq<ClaimRecord>, role: RoleName, scope: ScopeReference)
    ensures
        forall|i: int|
            0 <= i < without_contained(entries, role, scope).len() ==> entries.contains(
                #[trigger] without_contained(entries, role, scope)[i],
            ),
        forall|i: int|
            0 <= i < entries.len() && !((#[trigger] entries[i]).role == role && scope_contains_spec(
                scope,
                entries[i].scope,
            )) ==> without_contained(entries, role, scope).contains(entries[i]),
    decreases entries.len(),
{
    if entries.len() > 0 {
        let rest = entries.drop_last();
        lemma_without_contained_members(rest, role, scope);
        let result = without_contained(entries, role, scope);
        assert forall|i: int| 0 <= i < result.len() implies entries.contains(#[trigger] result[i]) by {
            if i < without_contained(rest, role, scope).len() {
                let at = choose|at: int| 0 <= at < rest.len() && rest[at] == result[i];
                assert(entries[at] == result[i]);
            } else {
                assert(entries[entries.len() - 1] == result[i]);
            }
        }
        assert forall|i: int|
            0 <= i < entries.len() && !((#[trigger] entries[i]).role == role && scope_contains_spec(
                scope,
                entries[i].scope,
            )) implies result.contains(entries[i]) by {
            if i < rest.len() {
                assert(rest[i] == entries[i]);
                let at = choose|at: int|
                    0 <= at < without_contained(rest, role, scope).len() && without_contained(
                        rest,
                        role,
                        scope,
                    )[at] == entries[i];
                assert(result[at] == entries[i]);
            } else {
                assert(result[result.len() - 1] == entries[i]);
            }
        }
    }
}

/// Every record after placing claims was there before or is one of the new claims,
/// and every record of another role is still there.
proof fn lemma_place_claims_members(
    entries: Seq<ClaimRecord>,
    role: RoleName,
    scopes: Seq<ScopeReference>,
    reason: String,
)
    ensures
        forall|i: int|
            0 <= i < place_claims(entries, role, scopes, reason).len() ==> ({
                let record = #[trigger] place_claims(entries, role, scopes, reason)[i];
                entries.contains(record) || (record.role == role && record.reason == reason
                    && scopes.contains(record.scope))
            }),
        forall|i: int|
            0 <= i < entries.len() && (#[trigger] entries[i]).role != role ==> place_claims(
                entries,
                role,
                scopes,
                reason,
            ).contains(entries[i]),
    decreases scopes.len(),
{
    if scopes.len() > 0 {
        let rest = scopes.drop_last();
        let before = place_claims(entries, role, rest, reason);
        lemma_place_claims_members(entries, role, rest, reason);
        lemma_without_contained_members(before, role, scopes.last());
        let result = place_claims(entries, role, scopes, reason);
        assert forall|i: int| 0 <= i < result.len() implies ({
            let record = #[trigger] result[i];
            entries.contains(record) || (record.role == role && record.reason == reason
                && scopes.contains(record.scope))
        }) by {
            let record = result[i];
            if role_owns(before, role, scopes.last()) {
                assert(before[i] == record);
            } else if i < without_contained(before, role, scopes.last()).len() {
                assert(before.contains(record));
                let at = choose|at: int| 0 <= at < before.len() && before[at] == record;
                if !entries.contains(record) {
                    assert(rest.contains(record.scope));
                    let s = choose|s: int| 0 <= s < rest.len() && rest[s] == record.scope;
                    assert(scopes[s] == record.scope);
                }
            } else {
                assert(scopes[scopes.len() - 1] == record.scope);
            }
        }
        assert forall|i: int|
            0 <= i < entries.len() && (#[trigger] entries[i]).role != role implies result.contains(
                entries[i],
            ) by {
            assert(before.contains(entries[i]));
            if !role_owns(before, role, scopes.last()) {
                let at = choose|at: int| 0 <= at < before.len() && before[at] == entries[i];
                assert(before[at].role != role);
                assert(without_contained(before, role, scopes.last()).contains(entries[i]));
                let k = choose|k: int|
                    0 <= k < without_contained(before, role, scopes.last()).len()
                        && without_contained(before, role, scopes.last())[k] == entries[i];
                assert(result[k] == entries[i]);
            }
        }
    }
}

/// Placing claims that meet no other role's record keeps the roles disjoint.
proof fn lemma_place_claims_disjoint(
    entries: Seq<ClaimRecord>,
    role: RoleName,
    scopes: Seq<ScopeReference>,
    reason: String,
)
    requires
        roles_disjoint(entries),
        free_for(entries, role, scopes),
    ensures
        roles_disjoint(place_claims(entries, role, scopes, reason)),
{
    lemma_place_claims_members(entries, role, scopes, reason);
    let result = place_claims(entries, role, scopes, reason);
    assert forall|i: int, j: int|
        0 <= i < result.len() && 0 <= j < result.len() && #[trigger] result[i].role
            != #[trigger] result[j].role implies !scope_overlaps_spec(result[i].scope, result[j].scope) by {
        let left = result[i];
        let right = result[j];
        if entries.contains(left) && entries.contains(right) {
            let a = choose|a: int| 0 <= a < entries.len() && entries[a] == left;
            let b = choose|b: int| 0 <= b < entries.len() && entries[b] == right;
            assert(entries[a].role != entries[b].role);
        } else if entries.contains(left) {
            let a = choose|a: int| 0 <= a < entries.len() && entries[a] == left;
            let s = choose|s: int| 0 <= s < scopes.len() && scopes[s] == right.scope;
            assert(entries[a].role != role);
            assert(!scope_overlaps_spec(scopes[s], entries[a].scope));
        } else if entries.contains(right) {
            let b = choose|b: int| 0 <= b < entries.len() && entries[b] == right;
            let s = choose|s: int| 0 <= s < scopes.len() && scopes[s] == left.scope;
            assert(entries[b].role != role);
            assert(!scope_overlaps_spec(scopes[s], entries[b].scope));
        }
    }
}

proof fn lemma_release_overlapping_members(
    entries: Seq<ClaimRecord>,
    role: RoleName,
    scopes: Seq<ScopeReference>,
)
    ensures
        forall|i: int|
            0 <= i < release_overlapping(entries, role, scopes).len() ==> ({
                let record = #[trigger] release_overlapping(entries, role, scopes)[i];
                entries.contains(record) && !(record.role == role && overlaps_any(scopes, record.scope))
            }),
    decreases entries.len(),
{
    if entries.len() > 0 {
        let rest = entries.drop_last();
        lemma_release_overlapping_members(rest, role, scopes);
        let result = release_overlapping(entries, role, scopes);
        assert forall|i: int| 0 <= i < result.len() implies ({
            let record = #[trigger] result[i];
            entries.contains(record) && !(record.role == role && overlaps_any(scopes, record.scope))
        }) by {
            if i < release_overlapping(rest, role, scopes).len() {
                let at = choose|at: int| 0 <= at < rest.len() && rest[at] == result[i];
                assert(entries[at] == result[i]);
            } else {
                assert(entries[entries.len() - 1] == result[i]);
            }
        }
    }
}

proof fn lemma_release_overlapping_keeps(
    entries: Seq<ClaimRecord>,
    role: RoleName,
    scopes: Seq<ScopeReference>,
)
    ensures
        forall|i: int|
            0 <= i < entries.len() && !((#[trigger] entries[i]).role == role && overlaps_any(
                scopes,
                entries[i].scope,
            )) ==> release_overlapping(entries, role, scopes).contains(entries[i]),
    decreases entries.len(),
{
    if entries.len() > 0 {
        let rest = entries.drop_last();
        lemma_release_overlapping_keeps(rest, role, scopes);
        let tail = release_overlapping(rest, role, scopes);
        let result = release_overlapping(entries, role, scopes);
        assert forall|i: int|
            0 <= i < entries.len() && !((#[trigger] entries[i]).role == role && overlaps_any(
                scopes,
                entries[i].scope,
            )) implies result.contains(entries[i]) by {
            if i < entries.len() - 1 {
                assert(rest[i] == entries[i]);
                let at = choose|at: int| 0 <= at < tail.len() && tail[at] == entries[i];
                if !(entries.last().role == role && overlaps_any(scopes, entries.last().scope)) {
                    assert(result[at] == entries[i]);
                }
            } else {
                assert(result[result.len() - 1] == entries[i]);
            }
        }
    }
}

/// A handoff moves only what it names: a record of the source role that overlaps none
/// of the handed-off scopes stays, so the source still owns its scope afterwards,
/// whether the handoff is accepted or refused.
pub proof fn lemma_handoff_keeps_untouched_claims(entries: Seq<ClaimRecord>, handoff: RoleHandoff, kept: int)
    requires
        handoff.from != handoff.to,
        0 <= kept < entries.len(),
        entries[kept].role == handoff.from,
        forall|s: int|
            0 <= s < handoff.scopes@.len() ==> !scope_overlaps_spec(
                #[trigger] handoff.scopes@[s],
                entries[kept].scope,
            ),
    ensures
        handoff_outcome(entries, handoff).contains(entries[kept]),
        role_owns(handoff_outcome(entries, handoff), handoff.from, entries[kept].scope),
{
    let scopes = handoff.scopes@;
    let record = entries[kept];
    let released = release_overlapping(entries, handoff.from, scopes);
    lemma_release_overlapping_keeps(entries, handoff.from, scopes);
    assert(!overlaps_any(scopes, record.scope));
    assert(released.contains(record));
    let at = choose|at: int| 0 <= at < released.len() && released[at] == record;
    lemma_place_claims_members(released, handoff.to, scopes, handoff.reason);
    assert(released[at].role != handoff.to);
    let result = handoff_outcome(entries, handoff);
    assert(result.contains(record));
    let position = choose|position: int| 0 <= position < result.len() && result[position] == record;
    assert(scope_contains_spec(record.scope, record.scope));
    assert(result[position].role == handoff.from && scope_contains_spec(result[position].scope, record.scope));
}

/// No two roles ever hold overlapping scopes: every claim keeps the ledger's roles disjoint.
pub proof fn lemma_claim_keeps_roles_disjoint(entries: Seq<ClaimRecord>, claim: RoleClaim)
    requires
        roles_disjoint(entries),
    ensures
        roles_disjoint(claim_outcome(entries, claim)),
{
    if claim_conflicts(entries, claim.role, claim.role, claim.scopes@).len() == 0 {
        lemma_claim_conflicts_empty(entries, claim.role, claim.role, claim.scopes@);
        lemma_place_claims_disjoint(entries, claim.role, claim.scopes@, claim.reason);
    }
}

/// Every handoff keeps the ledger's roles disjoint.
pub proof fn lemma_handoff_keeps_roles_disjoint(entries: Seq<ClaimRecord>, handoff: RoleHandoff)
    requires
        roles_disjoint(entries),
    ensures
        roles_disjoint(handoff_outcome(entries, handoff)),
{
    let scopes = handoff.scopes@;
    if owns_all(entries, handoff.from, scopes) && claim_conflicts(
        entries,
        handoff.from,
        handoff.to,
        scopes,
    ).len() == 0 {
        lemma_claim_conflicts_empty(entries, handoff.from, handoff.to, scopes);
        let released = release_overlapping(entries, handoff.from, scopes);
        lemma_release_overlapping_members(entries, handoff.from, scopes);
        assert forall|i: int, j: int|
            0 <= i < released.len() && 0 <= j < released.len() && #[trigger] released[i].role
                != #[trigger] released[j].role implies !scope_overlaps_spec(
                released[i].scope,
                released[j].scope,
            ) by {
            let a = choose|a: int| 0 <= a < entries.len() && entries[a] == released[i];
            let b = choose|b: int| 0 <= b < entries.len() && entries[b] == released[j];
            assert(entries[a].role != entries[b].role);
        }
        assert forall|s: int, e: int|
            0 <= s < scopes.len() && 0 <= e < released.len() && (#[trigger] released[e]).role
                != handoff.to implies !scope_overlaps_spec(#[trigger] scopes[s], released[e].scope) by {
            let a = choose|a: int| 0 <= a < entries.len() && entries[a] == released[e];
            if released[e].role == handoff.from {
                if scope_overlaps_spec(scopes[s], released[e].scope) {
                    assert(overlaps_any(scopes, released[e].scope));
                }
            } else {
                assert(entries[a].role != handoff.from && entries[a].role != handoff.to);
            }
        }
        lemma_place_claims_disjoint(released, handoff.to, scopes, handoff.reason);
    }
}

proof fn lemma_without_role_members(entries: Seq<ClaimRecord>, role: RoleName)
    ensures
        forall|i: int|
            0 <= i < without_role(entries, role).len() ==> entries.contains(
                #[trigger] without_role(entries, role)[i],
            ) && without_role(entries, role)[i].role != role,
    decreases entries.len(),
{
    if entries.len() > 0 {
        let rest = entries.drop_last();
        lemma_without_role_members(rest, role);
        let result = without_role(entries, role);
        assert forall|i: int| 0 <= i < result.len() implies entries.contains(#[trigger] result[i])
            && result[i].role != role by {
            if i < without_role(rest, role).len() {
                let at = choose|at: int| 0 <= at < rest.len() && rest[at] == result[i];
                assert(entries[at] == result[i]);
            } else {
                assert(entries[entries.len() - 1] == result[i]);
            }
        }
    }
}

/// A release keeps the ledger's roles disjoint, and afterwards the released role
/// owns nothing.
pub proof fn lemma_release_clears_role(entries: Seq<ClaimRecord>, role: RoleName, scope: ScopeReference)
    requires
        roles_disjoint(entries),
    ensures
        roles_disjoint(without_role(entries, role)),
        !role_owns(without_role(entries, role), role, scope),
{
    lemma_without_role_members(entries, role);
    let result = without_role(entries, role);
    assert forall|i: int, j: int|
        0 <= i < result.len() && 0 <= j < result.len() && #[trigger] result[i].role
            != #[trigger] result[j].role implies !scope_overlaps_spec(result[i].scope, result[j].scope) by {
        let a = choose|a: int| 0 <= a < entries.len() && entries[a] == result[i];
        let b = choose|b: int| 0 <= b < entries.len() && entries[b] == result[j];
        assert(entries[a].role != entries[b].role);
    }
}

proof fn lemma_place_claim_keeps_ownership(
    entries: Seq<ClaimRecord>,
    role: RoleName,
    scope: ScopeReference,
    reason: String,
    owned: ScopeReference,
)
    requires
        all_valid(entries),
        valid_scope(scope),
        role_owns(entries, role, owned),
    ensures
        role_owns(place_claim(entries, role, scope, reason), role, owned),
        role_owns(place_claim(entries, role, scope, reason), role, scope),
        all_valid(place_claim(entries, role, scope, reason)),
{
    lemma_without_contained_members(entries, role, scope);
    let result = place_claim(entries, role, scope, reason);
    let at = choose|at: int|
        0 <= at < entries.len() && entries[at].role == role && scope_contains_spec(
            entries[at].scope,
            owned,
        );
    if !role_owns(entries, role, scope) {
        let kept = without_contained(entries, role, scope);
        let last = result.len() - 1;
        assert(result[last].role == role && result[last].scope == scope);
        assert(scope_contains_spec(scope, scope)) by {
            match scope {
                ScopeReference::Path(path) => {},
                ScopeReference::Task(token) => {},
            }
        }
        if scope_contains_spec(scope, entries[at].scope) {
            lemma_scope_contains_transitive(scope, entries[at].scope, owned);
        } else {
            assert(kept.contains(entries[at]));
            let k = choose|k: int| 0 <= k < kept.len() && kept[k] == entries[at];
            assert(result[k] == entries[at]);
        }
        assert forall|i: int| 0 <= i < result.len() implies valid_scope(#[trigger] result[i].scope) by {
            if i < kept.len() {
                let a = choose|a: int| 0 <= a < entries.len() && entries[a] == kept[i];
                assert(valid_scope(entries[a].scope));
            }
        }
    }
}

proof fn lemma_place_claim_owns_new(
    entries: Seq<ClaimRecord>,
    role: RoleName,
    scope: ScopeReference,
    reason: String,
)
    requires
        all_valid(entries),
        valid_scope(scope),
    ensures
        role_owns(place_claim(entries, role, scope, reason), role, scope),
        all_valid(place_claim(entries, role, scope, reason)),
{
    if role_owns(entries, role, scope) {
    } else {
        lemma_without_contained_members(entries, role, scope);
        let result = place_claim(entries, role, scope, reason);
        let kept = without_contained(entries, role, scope);
        let last = result.len() - 1;
        assert(scope_contains_spec(scope, scope)) by {
            match scope {
                ScopeReference::Path(path) => {},
                ScopeReference::Task(token) => {},
            }
        }
        assert(result[last].role == role && result[last].scope == scope);
        assert forall|i: int| 0 <= i < result.len() implies valid_scope(#[trigger] result[i].scope) by {
            if i < kept.len() {
                let a = choose|a: int| 0 <= a < entries.len() && entries[a] == kept[i];
                assert(valid_scope(entries[a].scope));
            }
        }
    }
}

/// After placing claims for a role, the role owns every one of those scopes.
pub proof fn lemma_place_claims_owns_all(
    entries: Seq<ClaimRecord>,
    role: RoleName,
    scopes: Seq<ScopeReference>,
    reason: String,
)
    requires
        all_valid(entries),
        all_valid_scopes(scopes),
    ensures
        owns_all(place_claims(entries, role, scopes, reason), role, scopes),
        all_valid(place_claims(entries, role, scopes, reason)),
    decreases scopes.len(),
{
    if scopes.len() > 0 {
        let rest = scopes.drop_last();
        assert forall|index: int| 0 <= index < rest.len() implies valid_scope(#[trigger] rest[index]) by {
            assert(rest[index] == scopes[index]);
        }
        lemma_place_claims_owns_all(entries, role, rest, reason);
        let before = place_claims(entries, role, rest, reason);
        let last = scopes.last();
        assert(valid_scope(scopes[scopes.len() - 1]));
        lemma_place_claim_owns_new(before, role, last, reason);
        assert forall|index: int| 0 <= index < scopes.len() implies role_owns(
            place_claims(entries, role, scopes, reason),
            role,
            #[trigger] scopes[index],
        ) by {
            if index < rest.len() {
                assert(rest[index] == scopes[index]);
                lemma_place_claim_keeps_ownership(before, role, last, reason, scopes[index]);
            }
        }
    }
}

/// An accepted claim leaves its role owning every scope it named.
pub proof fn lemma_accepted_claim_owns_scopes(entries: Seq<ClaimRecord>, claim: RoleClaim)
    requires
        all_valid(entries),
        all_valid_scopes(claim.scopes@),
        claim_conflicts(entries, claim.role, claim.role, claim.scopes@).len() == 0,
    ensures
        owns_all(claim_outcome(entries, claim), claim.role, claim.scopes@),
{
    lemma_place_claims_owns_all(entries, claim.role, claim.scopes@, claim.reason);
}

/// An accepted handoff leaves the target owning every handed-off scope and the
/// source owning none of them.
pub proof fn lemma_accepted_handoff_moves_scopes(
    entries: Seq<ClaimRecord>,
    handoff: RoleHandoff,
    scope: ScopeReference,
)
    requires
        all_valid(entries),
        all_valid_scopes(handoff.scopes@),
        handoff.from != handoff.to,
        owns_all(entries, handoff.from, handoff.scopes@),
        claim_conflicts(entries, handoff.from, handoff.to, handoff.scopes@).len() == 0,
        handoff.scopes@.contains(scope),
    ensures
        owns_all(handoff_outcome(entries, handoff), handoff.to, handoff.scopes@),
        !role_owns(handoff_outcome(entries, handoff), handoff.from, scope),
{
    let scopes = handoff.scopes@;
    let released = release_overlapping(entries, handoff.from, scopes);
    lemma_release_overlapping_members(entries, handoff.from, scopes);
    assert forall|i: int| 0 <= i < released.len() implies valid_scope(#[trigger] released[i].scope) by {
        let a = choose|a: int| 0 <= a < entries.len() && entries[a] == released[i];
        assert(valid_scope(entries[a].scope));
    }
    lemma_place_claims_owns_all(released, handoff.to, scopes, handoff.reason);
    lemma_place_claims_members(released, handoff.to, scopes, handoff.reason);
    let result = handoff_outcome(entries, handoff);
    if role_owns(result, handoff.from, scope) {
        let at = choose|at: int|
            0 <= at < result.len() && result[at].role == handoff.from && scope_contains_spec(
                result[at].scope,
                scope,
            );
        let record = result[at];
        assert(released.contains(record));
        let k = choose|k: int| 0 <= k < released.len() && released[k] == record;
        let s = choose|s: int| 0 <= s < scopes.len() && scopes[s] == scope;
        assert(scope_overlaps_spec(scopes[s], record.scope));
        assert(overlaps_any(scopes, record.scope));
    }
}

/// `reply` and `after` are what serving `claim` on `before` gives: the whole claim
/// is refused when a scope overlaps a scope of another role, else every scope is
/// placed for the role.
pub open spec fn claim_served(
    before: Seq<ClaimRecord>,
    claim: RoleClaim,
    after: Seq<ClaimRecord>,
    reply: MindReply,
) -> bool {
    &&& after == claim_outcome(before, claim)
    &&& ({
        let conflicts = claim_conflicts(before, claim.role, claim.role, claim.scopes@);
        if conflicts.len() > 0 {
            &&& after == before
            &&& reply matches MindReply::ClaimRejection(rejection)
            &&& rejection.role == claim.role
            &&& rejection.conflicts@ == conflicts
        } else {
            &&& after == place_claims(before, claim.role, claim.scopes@, claim.reason)
            &&& reply matches MindReply::ClaimAcceptance(acceptance)
            &&& acceptance.role == claim.role
            &&& acceptance.scopes@ == claim.scopes@
        }
    })
}

/// `reply` and `after` are what serving `release` on `before` gives: every record of
/// the role is dropped and its scopes acknowledged.
pub open spec fn release_served(
    before: Seq<ClaimRecord>,
    release: RoleRelease,
    after: Seq<ClaimRecord>,
    reply: MindReply,
) -> bool {
    &&& after == without_role(before, release.role)
    &&& reply matches MindReply::ReleaseAcknowledgment(acknowledgment)
    &&& acknowledgment.role == release.role
    &&& acknowledgment.released_scopes@ == role_scopes(before, release.role)
}

/// `reply` and `after` are what serving `handoff` on `before` gives (see
/// `ClaimLedger::apply_handoff`).
pub open spec fn handoff_served(
    before: Seq<ClaimRecord>,
    handoff: RoleHandoff,
    after: Seq<ClaimRecord>,
    reply: MindReply,
) -> bool {
    &&& after == handoff_outcome(before, handoff)
    &&& ({
        let conflicts = claim_conflicts(before, handoff.from, handoff.to, handoff.scopes@);
        if !owns_all(before, handoff.from, handoff.scopes@) {
            &&& after == before
            &&& reply matches MindReply::HandoffRejection(rejection)
            &&& rejection.from == handoff.from
            &&& rejection.to == handoff.to
            &&& rejection.reason matches HandoffRejectionReason::SourceRoleDoesNotHold
        } else if conflicts.len() > 0 {
            &&& after == before
            &&& reply matches MindReply::HandoffRejection(rejection)
            &&& rejection.from == handoff.from
            &&& rejection.to == handoff.to
            &&& rejection.reason matches HandoffRejectionReason::TargetRoleConflict(found)
            &&& found@ == conflicts
        } else {
            &&& after == place_claims(
                release_overlapping(before, handoff.from, handoff.scopes@),
                handoff.to,
                handoff.scopes@,
                handoff.reason,
            )
            &&& reply matches MindReply::HandoffAcceptance(acceptance)
            &&& acceptance.from == handoff.from
            &&& acceptance.to == handoff.to
            &&& acceptance.scopes@ == handoff.scopes@
        }
    })
}

/// `reply` is the snapshot of `records`: every role in canonical order with its
/// claims, beside the given recent activity.
pub open spec fn observation_served(records: Seq<ClaimRecord>, recent: Seq<Activity>, reply: MindReply) -> bool {
    reply matches MindReply::RoleSnapshot(snapshot) && snapshot.roles@.len() == all_roles().len()
        && (forall|index: int|
        0 <= index < all_roles().len() ==> (#[trigger] snapshot.roles@[index]).role == all_roles()[index]
            && snapshot.roles@[index].claims@ == role_claims(records, all_roles()[index]))
        && snapshot.recent_activity@ == recent
}

/// The ledger of every role's claimed scopes.
pub struct ClaimLedger {
    entries: Vec<ClaimRecord>,
}

impl ClaimLedger {
    /// The ledger's records, in the order they were placed.
    pub closed spec fn records(&self) -> Seq<ClaimRecord> {
        self.entries@
    }

    pub fn open() -> (ledger: Self)
        ensures
            ledger.records() == Seq::<ClaimRecord>::empty(),
    {
        ClaimLedger { entries: Vec::new() }
    }

    /// Claims every scope of `claim` for its role, or refuses the whole claim when a
    /// scope overlaps a scope that another role holds.
    pub fn apply_claim(&mut self, claim: RoleClaim) -> (reply: MindReply)
        ensures
            claim_served(old(self).records(), claim, final(self).records(), reply),
    {
        let conflicts = self.conflicts_for(claim.role, claim.role, &claim.scopes);
        if conflicts.len() > 0 {
            return MindReply::ClaimRejection(ClaimRejection { role: claim.role, conflicts });
        }
        self.place_all(claim.role, &claim.scopes, &claim.reason);
        MindReply::ClaimAcceptance(ClaimAcceptance { role: claim.role, scopes: claim.scopes })
    }

    /// Drops every record of the role and acknowledges the scopes it held.
    pub fn apply_release(&mut self, release: RoleRelease) -> (reply: MindReply)
        ensures
            release_served(old(self).records(), release, final(self).records(), reply),
    {
        let ghost before = self.entries@;
        let mut kept: Vec<ClaimRecord> = Vec::new();
        let mut released_scopes: Vec<ScopeReference> = Vec::new();
        let mut index: usize = 0;
        while index < self.entries.len()
            invariant
                index <= self.entries.len(),
                before == self.entries@,
                kept@ == without_role(before.subrange(0, index as int), release.role),
                released_scopes@ == role_scopes(before.subrange(0, index as int), release.role),
            decreases self.entries.len() - index,
        {
            assert(before.subrange(0, index as int + 1).drop_last() =~= before.subrange(
                0,
                index as int,
            ));
            if self.entries[index].role == release.role {
                released_scopes.push(self.entries[index].scope.duplicate());
            } else {
                kept.push(self.entries[index].duplicate());
            }
            index = index + 1;
        }
        assert(before.subrange(0, before.len() as int) =~= before);
        self.entries = kept;
        MindReply::ReleaseAcknowledgment(
            ReleaseAcknowledgment { role: release.role, released_scopes },
        )
    }

    /// Moves the scopes of `handoff` from one role to another. Refused when the source
    /// role does not own every scope, or when a scope overlaps a scope that a third role
    /// holds. On acceptance the source gives up every record that overlaps a handed-off
    /// scope, and the target claims each scope in turn.
    pub fn apply_handoff(&mut self, handoff: RoleHandoff) -> (reply: MindReply)
        ensures
            handoff_served(old(self).records(), handoff, final(self).records(), reply),
    {
        let mut index: usize = 0;
        while index < handoff.scopes.len()
            invariant
                index <= handoff.scopes.len(),
                forall|earlier: int|
                    0 <= earlier < index ==> role_owns(
                        self.entries@,
                        handoff.from,
                        #[trigger] handoff.scopes@[earlier],
                    ),
            decreases handoff.scopes.len() - index,
        {
            if !self.role_already_owns(handoff.from, &handoff.scopes[index]) {
                return MindReply::HandoffRejection(
                    HandoffRejection {
                        from: handoff.from,
                        to: handoff.to,
                        reason: HandoffRejectionReason::SourceRoleDoesNotHold,
                    },
                );
            }
            index = index + 1;
        }
        let conflicts = self.conflicts_for(handoff.from, handoff.to, &handoff.scopes);
        if conflicts.len() > 0 {
            return MindReply::HandoffRejection(
                HandoffRejection {
                    from: handoff.from,
                    to: handoff.to,
                    reason: HandoffRejectionReason::TargetRoleConflict(conflicts),
                },
            );
        }
        self.release_overlapping(handoff.from, &handoff.scopes);
        self.place_all(handoff.to, &handoff.scopes, &handoff.reason);
        MindReply::HandoffAcceptance(
            HandoffAcceptance { from: handoff.from, to: handoff.to, scopes: handoff.scopes },
        )
    }

    /// Every role in canonical order with its claims, beside the given recent activity.
    pub fn observe(&self, observation: RoleObservation, recent_activity: Vec<Activity>) -> (reply:
        MindReply)
        ensures
            observation_served(self.records(), recent_activity@, reply),
    {
        let roles = RoleName::all();
        let mut statuses: Vec<RoleStatus> = Vec::new();
        let mut index: usize = 0;
        while index < roles.len()
            invariant
                index <= roles.len(),
                roles@ == all_roles(),
                statuses@.len() == index,
                forall|earlier: int|
                    0 <= earlier < index ==> (#[trigger] statuses@[earlier]).role == all_roles()[earlier]
                        && statuses@[earlier].claims@ == role_claims(
                        self.records(),
                        all_roles()[earlier],
                    ),
            decreases roles.len() - index,
        {
            let role = roles[index];
            statuses.push(RoleStatus { role, claims: self.claims_for(role) });
            index = index + 1;
        }
        MindReply::RoleSnapshot(RoleSnapshot { roles: statuses, recent_activity })
    }

    /// The claim entries of `role`, in record order.
    pub fn claims_for(&self, role: RoleName) -> (claims: Vec<ClaimEntry>)
        ensures
            claims@ == role_claims(self.records(), role),
    {
        let mut claims: Vec<ClaimEntry> = Vec::new();
        let mut index: usize = 0;
        while index < self.entries.len()
            invariant
                index <= self.entries.len(),
                claims@ == role_claims(self.entries@.subrange(0, index as int), role),
            decreases self.entries.len() - index,
        {
            assert(self.entries@.subrange(0, index as int + 1).drop_last()
                =~= self.entries@.subrange(0, index as int));
            if self.entries[index].role == role {
                claims.push(
                    ClaimEntry {
                        scope: self.entries[index].scope.duplicate(),
                        reason: self.entries[index].reason.clone(),
                    },
                );
            }
            index = index + 1;
        }
        assert(self.entries@.subrange(0, self.entries@.len() as int) =~= self.entries@);
        claims
    }

    /// Whether some record of `role` contains `scope`.
    pub fn role_already_owns(&self, role: RoleName, scope: &ScopeReference) -> (result: bool)
        ensures
            result == role_owns(self.records(), role, *scope),
    {
        let mut index: usize = 0;
        while index < self.entries.len()
            invariant
                index <= self.entries.len(),
                forall|earlier: int|
                    0 <= earlier < index ==> !((#[trigger] self.entries@[earlier]).role == role
                        && scope_contains_spec(self.entries@[earlier].scope, *scope)),
            decreases self.entries.len() - index,
        {
            if self.entries[index].role == role && scope_contains(&self.entries[index].scope, scope) {
                return true;
            }
            index = index + 1;
        }
        false
    }

    fn scope_conflicts_for(&self, first: RoleName, second: RoleName, scope: &ScopeReference) -> (found:
        Vec<ScopeConflict>)
        ensures
            found@ == scope_conflicts(self.records(), first, second, *scope),
    {
        let mut found: Vec<ScopeConflict> = Vec::new();
        let mut index: usize = 0;
        while index < self.entries.len()
            invariant
                index <= self.entries.len(),
                found@ == scope_conflicts(self.entries@.subrange(0, index as int), first, second, *scope),
            decreases self.entries.len() - index,
        {
            assert(self.entries@.subrange(0, index as int + 1).drop_last()
                =~= self.entries@.subrange(0, index as int));
            let entry = &self.entries[index];
            if entry.role != first && entry.role != second && scopes_overlap(scope, &entry.scope) {
                found.push(
                    ScopeConflict {
                        scope: scope.duplicate(),
                        held_by: entry.role,
                        held_reason: entry.reason.clone(),
                    },
                );
            }
            index = index + 1;
        }
        assert(self.entries@.subrange(0, self.entries@.len() as int) =~= self.entries@);
        found
    }

    /// The conflicts of every scope with the records of roles other than `first`
    /// and `second`.
    fn conflicts_for(&self, first: RoleName, second: RoleName, scopes: &Vec<ScopeReference>) -> (found:
        Vec<ScopeConflict>)
        ensures
            found@ == claim_conflicts(self.records(), first, second, scopes@),
    {
        let mut found: Vec<ScopeConflict> = Vec::new();
        let mut index: usize = 0;
        while index < scopes.len()
            invariant
                index <= scopes.len(),
                found@ == claim_conflicts(self.entries@, first, second, scopes@.subrange(0, index as int)),
            decreases scopes.len() - index,
        {
            assert(scopes@.subrange(0, index as int + 1).drop_last() =~= scopes@.subrange(
                0,
                index as int,
            ));
            let mut more = self.scope_conflicts_for(first, second, &scopes[index]);
            let ghost previous = found@;
            found.append(&mut more);
            assert(found@ =~= previous + scope_conflicts(self.entries@, first, second, scopes@[index as int]));
            index = index + 1;
        }
        assert(scopes@.subrange(0, scopes@.len() as int) =~= scopes@);
        found
    }

    fn place(&mut self, role: RoleName, scope: &ScopeReference, reason: &String)
        ensures
            final(self).records() == place_claim(old(self).records(), role, *scope, *reason),
    {
        if self.role_already_owns(role, scope) {
            return;
        }
        let ghost before = self.entries@;
        let mut kept: Vec<ClaimRecord> = Vec::new();
        let mut index: usize = 0;
        while index < self.entries.len()
            invariant
                index <= self.entries.len(),
                before == self.entries@,
                kept@ == without_contained(before.subrange(0, index as int), role, *scope),
            decreases self.entries.len() - index,
        {
            assert(before.subrange(0, index as int + 1).drop_last() =~= before.subrange(
                0,
                index as int,
            ));
            if !(self.entries[index].role == role && scope_contains(scope, &self.entries[index].scope)) {
                kept.push(self.entries[index].duplicate());
            }
            index = index + 1;
        }
        assert(before.subrange(0, before.len() as int) =~= before);
        kept.push(ClaimRecord { role, scope: scope.duplicate(), reason: reason.clone() });
        self.entries = kept;
    }

    fn place_all(&mut self, role: RoleName, scopes: &Vec<ScopeReference>, reason: &String)
        ensures
            final(self).records() == place_claims(old(self).records(), role, scopes@, *reason),
    {
        let ghost before = self.entries@;
        let mut index: usize = 0;
        while index < scopes.len()
            invariant
                index <= scopes.len(),
                self.entries@ == place_claims(before, role, scopes@.subrange(0, index as int), *reason),
            decreases scopes.len() - index,
        {
            assert(scopes@.subrange(0, index as int + 1).drop_last() =~= scopes@.subrange(
                0,
                index as int,
            ));
            self.place(role, &scopes[index], reason);
            index = index + 1;
        }
        assert(scopes@.subrange(0, scopes@.len() as int) =~= scopes@);
    }

    fn overlaps_some(scopes: &Vec<ScopeReference>, scope: &ScopeReference) -> (result: bool)
        ensures
            result == overlaps_any(scopes@, *scope),
    {
        let mut index: usize = 0;
        while index < scopes.len()
            invariant
                index <= scopes.len(),
                forall|earlier: int|
                    0 <= earlier < index ==> !scope_overlaps_spec(#[trigger] scopes@[earlier], *scope),
            decreases scopes.len() - index,
        {
            if scopes_overlap(&scopes[index], scope) {
                return true;
            }
            index = index + 1;
        }
        false
    }

    fn release_overlapping(&mut self, role: RoleName, scopes: &Vec<ScopeReference>)
        ensures
            final(self).records() == release_overlapping(old(self).records(), role, scopes@),
    {
        let ghost before = self.entries@;
        let mut kept: Vec<ClaimRecord> = Vec::new();
        let mut index: usize = 0;
        while index < self.entries.len()
            invariant
                index <= self.entries.len(),
                before == self.entries@,
                kept@ == release_overlapping(before.subrange(0, index as int), role, scopes@),
            decreases self.entries.len() - index,
        {
            assert(before.subrange(0, index as int + 1).drop_last() =~= before.subrange(
                0,
                index as int,
            ));
            if !(self.entries[index].role == role && Self::overlaps_some(scopes, &self.entries[index].scope)) {
                kept.push(self.entries[index].duplicate());
            }
            index = index + 1;
        }
        assert(before.subrange(0, before.len() as int) =~= before);
        self.entries = kept;
    }
}

impl Default for ClaimLedger {
    fn default() -> (ledger: Self)
        ensures
            ledger.records() == Seq::<ClaimRecord>::empty(),
    {
        Self::open()
    }
}

} // verus!
