use persona_mind::contract::{RoleName, ScopeReference};
use persona_mind::ids::{CompactGraphId, ShortIdMint};
use persona_mind::tables::{role_wire_token_text, stamp_from_elapsed, ActivitySlot, GraphSlot, StoreClock};
use persona_mind::Error;
use persona_mind::{StoredActivity, StoredClaim};

#[test]
fn short_ids_spell_three_base_thirty_two_digits() {
    assert_eq!(ShortIdMint::new(0).token(), "aaa");
    assert_eq!(ShortIdMint::new(1).stable_item_id(), "aab");
    assert_eq!(ShortIdMint::new(29).display_id(), "aa9");
    assert_eq!(ShortIdMint::new(32).operation_id(), "aba");
    assert_eq!(ShortIdMint::new(32 * 32 + 2).token(), "bac");
}

#[test]
fn compact_graph_ids_are_base_twenty_six_padded_to_three() {
    assert_eq!(CompactGraphId::new(0).into_string(), "aaa");
    assert_eq!(CompactGraphId::new(1).into_string(), "aab");
    assert_eq!(CompactGraphId::new(26).into_string(), "aba");
    assert_eq!(CompactGraphId::new(26 * 26 * 26).into_string(), "baaa");
    assert_eq!(CompactGraphId::new(17575).into_string(), "zzz");
}

#[test]
fn claim_keys_join_role_and_scope() {
    let path = StoredClaim::new(
        RoleName::OperatorAssistant,
        ScopeReference::Path("/git/persona".to_string()),
        "reason".to_string(),
    );
    let task = StoredClaim::new(
        RoleName::Poet,
        ScopeReference::Task("primary-abc".to_string()),
        "reason".to_string(),
    );
    assert_eq!(path.key(), "OperatorAssistant|path:/git/persona");
    assert_eq!(task.key(), "Poet|task:primary-abc");
    assert_eq!(role_wire_token_text(RoleName::SystemSpecialist), "SystemSpecialist");
}

#[test]
fn slots_follow_the_records() {
    let records = vec![
        StoredActivity::new(
            4,
            RoleName::Operator,
            ScopeReference::Task("t".to_string()),
            "r".to_string(),
            1,
        ),
        StoredActivity::new(
            2,
            RoleName::Operator,
            ScopeReference::Task("t".to_string()),
            "r".to_string(),
            1,
        ),
    ];
    assert_eq!(ActivitySlot::after_records(&records).value(), 5);
    assert_eq!(ActivitySlot::after_records(&Vec::new()).value(), 0);
    assert_eq!(ActivitySlot::new(7).next_value(), 8);
    assert_eq!(GraphSlot::after_records(3).value(), 3);
    assert_eq!(GraphSlot::new(3).next_value(), 4);
}

#[test]
fn stored_activity_becomes_the_contract_activity() {
    let stored = StoredActivity::new(
        1,
        RoleName::Designer,
        ScopeReference::Path("/a".to_string()),
        "why".to_string(),
        99,
    );
    let activity = stored.duplicate().into_activity();
    assert_eq!(activity.role, RoleName::Designer);
    assert_eq!(activity.scope, ScopeReference::Path("/a".to_string()));
    assert_eq!(activity.reason, "why");
    assert_eq!(activity.stamped_at, 99);
}

#[test]
fn clock_stamps_hold_at_the_largest_u64() {
    assert_eq!(stamp_from_elapsed(Some(1_500)), Ok(1_500));
    assert_eq!(stamp_from_elapsed(Some(u64::MAX as u128)), Ok(u64::MAX));
    assert_eq!(stamp_from_elapsed(Some(u64::MAX as u128 + 7)), Ok(u64::MAX));
    assert_eq!(stamp_from_elapsed(None), Err(Error::SystemTime));
}

#[test]
fn the_system_clock_reads_after_the_epoch() {
    let stamp = StoreClock::system().timestamp().expect("clock reads after the epoch");
    assert!(stamp > 0);
}
