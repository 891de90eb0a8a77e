use persona_mind::claim::{scope_contains, scopes_overlap};
use persona_mind::contract::{
    HandoffRejectionReason, MindReply, RoleClaim, RoleHandoff, RoleName, RoleObservation,
    RoleRelease, ScopeReference,
};
use persona_mind::path::{has_prefix, is_root, normalize_path, path_contains, same_text};
use persona_mind::{ClaimLedger, ClaimScope};

fn path(text: &str) -> ScopeReference {
    ScopeReference::Path(text.to_string())
}

fn claim(role: RoleName, scopes: Vec<ScopeReference>) -> RoleClaim {
    RoleClaim {
        role,
        scopes,
        reason: "test reason".to_string(),
    }
}

#[test]
fn normalize_path_keeps_absolute_segments_and_drops_empty_and_dot() {
    assert_eq!(normalize_path("/a//b/./c/"), "/a/b/c");
    assert_eq!(normalize_path("relative/./path"), "/relative/path");
    assert_eq!(normalize_path(""), "/");
    assert_eq!(normalize_path("///"), "/");
    assert_eq!(normalize_path("/a/../b"), "/a/../b");
}

#[test]
fn path_contains_is_segment_wise() {
    assert!(path_contains("/git", "/git/persona"));
    assert!(path_contains("/git", "/git"));
    assert!(!path_contains("/git/persona", "/git/persona-router"));
    assert!(!path_contains("/git/persona/src", "/git/persona"));
    assert!(path_contains("/", "/anything/at/all"));
}

#[test]
fn small_text_helpers_answer_exactly() {
    assert!(has_prefix("--socket", "--"));
    assert!(!has_prefix("-", "--"));
    assert!(is_root("/"));
    assert!(!is_root("/a"));
    assert!(same_text("mind", "mind"));
    assert!(!same_text("mind", "minds"));
}

#[test]
fn claim_scope_containment_and_overlap() {
    let parent = ClaimScope::new("/git/persona");
    let child = ClaimScope::new("/git/persona/src");
    let other = ClaimScope::new("/git/persona-router");
    assert!(parent.contains(&child));
    assert!(!child.contains(&parent));
    assert!(!parent.overlaps(&other));
    assert!(other.overlaps(&other));
}

#[test]
fn task_scopes_only_match_the_same_token() {
    let task = ScopeReference::Task("primary-abc".to_string());
    let same = ScopeReference::Task("primary-abc".to_string());
    let other = ScopeReference::Task("primary-abd".to_string());
    assert!(scope_contains(&task, &same));
    assert!(!scope_contains(&task, &other));
    assert!(!scopes_overlap(&task, &path("/primary-abc")));
}

#[test]
fn conflicting_claim_changes_nothing_and_names_the_holder() {
    let mut ledger = ClaimLedger::open();
    let accepted = ledger.apply_claim(claim(RoleName::Operator, vec![path("/git/persona")]));
    assert!(matches!(accepted, MindReply::ClaimAcceptance(_)));

    let rejected = ledger.apply_claim(claim(RoleName::Designer, vec![path("/git/persona/src")]));
    let MindReply::ClaimRejection(rejection) = rejected else {
        panic!("expected rejection");
    };
    assert_eq!(rejection.role, RoleName::Designer);
    assert_eq!(rejection.conflicts.len(), 1);
    assert_eq!(rejection.conflicts[0].held_by, RoleName::Operator);
    assert_eq!(rejection.conflicts[0].scope, path("/git/persona/src"));
    assert_eq!(rejection.conflicts[0].held_reason, "test reason");

    assert!(ledger.claims_for(RoleName::Designer).is_empty());
    assert_eq!(ledger.claims_for(RoleName::Operator).len(), 1);
}

#[test]
fn roles_never_share_a_scope() {
    let mut ledger = ClaimLedger::open();
    let _ = ledger.apply_claim(claim(RoleName::Operator, vec![path("/a"), path("/b/c")]));
    let _ = ledger.apply_claim(claim(RoleName::Designer, vec![path("/b")]));
    let _ = ledger.apply_claim(claim(RoleName::Poet, vec![path("/d")]));
    let operator = ledger.claims_for(RoleName::Operator);
    let poet = ledger.claims_for(RoleName::Poet);
    assert_eq!(operator.len(), 2);
    assert!(ledger.claims_for(RoleName::Designer).is_empty());
    assert_eq!(poet.len(), 1);
    for held in &operator {
        for other in &poet {
            assert!(!scopes_overlap(&held.scope, &other.scope));
        }
    }
}

#[test]
fn claiming_twice_is_idempotent_and_parents_absorb_children() {
    let mut ledger = ClaimLedger::open();
    let _ = ledger.apply_claim(claim(RoleName::Operator, vec![path("/a/b")]));
    let _ = ledger.apply_claim(claim(RoleName::Operator, vec![path("/a/b")]));
    assert_eq!(ledger.claims_for(RoleName::Operator).len(), 1);
    let _ = ledger.apply_claim(claim(RoleName::Operator, vec![path("/a")]));
    let held = ledger.claims_for(RoleName::Operator);
    assert_eq!(held.len(), 1);
    assert_eq!(held[0].scope, path("/a"));
    assert!(ledger.role_already_owns(RoleName::Operator, &path("/a/b/c")));
}

#[test]
fn release_acknowledges_every_scope_and_clears_the_role() {
    let mut ledger = ClaimLedger::open();
    let _ = ledger.apply_claim(claim(RoleName::Operator, vec![path("/a"), path("/b")]));
    let _ = ledger.apply_claim(claim(RoleName::Designer, vec![path("/c")]));
    let reply = ledger.apply_release(RoleRelease {
        role: RoleName::Operator,
    });
    let MindReply::ReleaseAcknowledgment(acknowledgment) = reply else {
        panic!("expected acknowledgment");
    };
    assert_eq!(acknowledgment.released_scopes, vec![path("/a"), path("/b")]);
    assert!(ledger.claims_for(RoleName::Operator).is_empty());
    assert_eq!(ledger.claims_for(RoleName::Designer).len(), 1);
}

#[test]
fn handoff_refuses_a_target_conflict_with_a_third_role() {
    let mut ledger = ClaimLedger::open();
    let _ = ledger.apply_claim(claim(RoleName::Operator, vec![path("/a")]));
    let _ = ledger.apply_claim(claim(RoleName::Poet, vec![path("/b")]));
    let reply = ledger.apply_handoff(RoleHandoff {
        from: RoleName::Operator,
        to: RoleName::Designer,
        scopes: vec![path("/a"), path("/b")],
        reason: "move".to_string(),
    });
    let MindReply::HandoffRejection(rejection) = reply else {
        panic!("expected rejection");
    };
    assert_eq!(rejection.reason, HandoffRejectionReason::SourceRoleDoesNotHold);

    let reply = ledger.apply_handoff(RoleHandoff {
        from: RoleName::Operator,
        to: RoleName::Poet,
        scopes: vec![path("/a")],
        reason: "move".to_string(),
    });
    assert!(matches!(reply, MindReply::HandoffAcceptance(_)));
    assert!(ledger.claims_for(RoleName::Operator).is_empty());
    assert_eq!(ledger.claims_for(RoleName::Poet).len(), 2);
}

#[test]
fn handoff_of_a_child_scope_takes_the_whole_overlapping_record_from_the_source() {
    let mut ledger = ClaimLedger::open();
    let _ = ledger.apply_claim(claim(RoleName::Operator, vec![path("/a")]));
    let refused = ledger.apply_claim(claim(RoleName::Poet, vec![path("/a/b")]));
    assert!(matches!(refused, MindReply::ClaimRejection(_)));

    let reply = ledger.apply_handoff(RoleHandoff {
        from: RoleName::Operator,
        to: RoleName::Designer,
        scopes: vec![path("/a/c")],
        reason: "move".to_string(),
    });
    let MindReply::HandoffAcceptance(acceptance) = reply else {
        panic!("expected acceptance");
    };
    assert_eq!(acceptance.scopes, vec![path("/a/c")]);
    assert!(ledger.claims_for(RoleName::Operator).is_empty());
    let designer = ledger.claims_for(RoleName::Designer);
    assert_eq!(designer.len(), 1);
    assert_eq!(designer[0].scope, path("/a/c"));
    assert_eq!(designer[0].reason, "move");
}

#[test]
fn observation_lists_every_role_in_canonical_order() {
    let mut ledger = ClaimLedger::open();
    let _ = ledger.apply_claim(claim(RoleName::Poet, vec![path("/p")]));
    let MindReply::RoleSnapshot(snapshot) = ledger.observe(RoleObservation {}, Vec::new()) else {
        panic!("expected snapshot");
    };
    assert_eq!(snapshot.roles.len(), 8);
    assert_eq!(snapshot.roles[0].role, RoleName::Operator);
    assert_eq!(snapshot.roles[7].role, RoleName::PoetAssistant);
    assert_eq!(snapshot.roles[6].role, RoleName::Poet);
    assert_eq!(snapshot.roles[6].claims.len(), 1);
    assert!(snapshot.recent_activity.is_empty());
}

#[test]
fn a_claim_owns_what_was_owned_and_what_the_scope_contains() {
    let mut state = persona_mind::ClaimState::new(persona_mind::PersonaRole::operator());
    state.claim(persona_mind::ClaimScope::new("/a/b"));
    state.claim(persona_mind::ClaimScope::new("/c"));
    let copy = state.clone();
    assert_eq!(copy.scope_count(), 2);
    for path in ["/a/b", "/a/b/x", "/c", "/c/d"] {
        assert!(state.owns(&persona_mind::ClaimScope::new(path)));
    }
    for path in ["/a", "/a/c", "/cd", "/"] {
        assert!(!state.owns(&persona_mind::ClaimScope::new(path)));
    }
    state.claim(persona_mind::ClaimScope::new("/a"));
    assert!(state.owns(&persona_mind::ClaimScope::new("/a/c")));
    assert!(state.owns(&persona_mind::ClaimScope::new("/c/d")));
    assert_eq!(state.scope_count(), 2);
}
