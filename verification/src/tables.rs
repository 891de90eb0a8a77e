//! The records that the mind keeps in its tables, their keys, and the counters and
//! clock that stamp them.

use vstd::prelude::*;

use crate::contract::{Activity, RoleName, ScopeReference};
use crate::error::Error;

verus! {

/// A claim as the claims table holds it.
#[derive(Debug, Clone, PartialEq, Eq)]
pub struct StoredClaim {
    pub role: RoleName,
    pub scope: ScopeReference,
    pub reason: String,
}

/// An activity as the activity table holds it: its slot, and what was done, by
/// whom, when.
#[derive(Debug, Clone, PartialEq, Eq)]
pub struct StoredActivity {
    pub slot: u64,
    pub role: RoleName,
    pub scope: ScopeReference,
    pub reason: String,
    pub stamped_at: u64,
}

pub open spec fn activity_of(stored: StoredActivity) -> Activity {
    Activity {
        role: stored.role,
        scope: stored.scope,
        reason: stored.reason,
        stamped_at: stored.stamped_at,
    }
}

impl StoredActivity {
    pub fn new(
        slot: u64,
        role: RoleName,
        scope: ScopeReference,
        reason: String,
        stamped_at: u64,
    ) -> (activity: Self)
        ensures
            activity == (StoredActivity { slot, role, scope, reason, stamped_at }),
    {
        StoredActivity { slot, role, scope, reason, stamped_at }
    }

    /// The activity without its slot.
    pub fn into_activity(self) -> (activity: Activity)
        ensures
            activity == activity_of(self),
    {
        Activity {
            role: self.role,
            scope: self.scope,
            reason: self.reason,
            stamped_at: self.stamped_at,
        }
    }

    pub fn duplicate(&self) -> (copy: Self)
        ensures
            copy == *self,
    {
        StoredActivity {
            slot: self.slot,
            role: self.role,
            scope: self.scope.duplicate(),
            reason: self.reason.clone(),
            stamped_at: self.stamped_at,
        }
    }
}

/// The name of a role on the wire: the variant's own name.
pub open spec fn role_wire_token(role: RoleName) -> Seq<char> {
    match role {
        RoleName::Operator => "Operator"@,
        RoleName::OperatorAssistant => "OperatorAssistant"@,
        RoleName::Designer => "Designer"@,
        RoleName::DesignerAssistant => "DesignerAssistant"@,
        RoleName::SystemSpecialist => "SystemSpecialist"@,
        RoleName::SystemAssistant => "SystemAssistant"@,
        RoleName::Poet => "Poet"@,
        RoleName::PoetAssistant => "PoetAssistant"@,
    }
}

pub fn role_wire_token_text(role: RoleName) -> (token: &'static str)
    ensures
        token@ == role_wire_token(role),
{
    match role {
        RoleName::Operator => "Operator",
        RoleName::OperatorAssistant => "OperatorAssistant",
        RoleName::Designer => "Designer",
        RoleName::DesignerAssistant => "DesignerAssistant",
        RoleName::SystemSpecialist => "SystemSpecialist",
        RoleName::SystemAssistant => "SystemAssistant",
        RoleName::Poet => "Poet",
        RoleName::PoetAssistant => "PoetAssistant",
    }
}

/// The key of a scope: `path:` or `task:` in front of the path or token.
pub open spec fn scope_key(scope: ScopeReference) -> Seq<char> {
    match scope {
        ScopeReference::Path(path) => "path:"@ + path@,
        ScopeReference::Task(token) => "task:"@ + token@,
    }
}

/// The key of a claim: the role's wire name, `|`, and the scope's key.
pub open spec fn claim_key(role: RoleName, scope: ScopeReference) -> Seq<char> {
    role_wire_token(role) + "|"@ + scope_key(scope)
}

impl StoredClaim {
    pub fn new(role: RoleName, scope: ScopeReference, reason: String) -> (claim: Self)
        ensures
            claim == (StoredClaim { role, scope, reason }),
    {
        StoredClaim { role, scope, reason }
    }

    /// The claims table key of this claim (see `claim_key`).
    pub fn key(&self) -> (key: String)
        ensures
            key@ == claim_key(self.role, self.scope),
    {
        let mut key = String::from_str(role_wire_token_text(self.role));
        key.append("|");
        match &self.scope {
            ScopeReference::Path(path) => {
                key.append("path:");
                key.append(path.as_str());
            },
            ScopeReference::Task(token) => {
                key.append("task:");
                key.append(token.as_str());
            },
        }
        assert(key@ =~= claim_key(self.role, self.scope));
        key
    }
}

/// The slot after the highest slot of `records`, or 0 when there is none.
pub open spec fn slot_after(records: Seq<StoredActivity>) -> int
    decreases records.len(),
{
    if records.len() == 0 {
        0
    } else {
        let rest = slot_after(records.drop_last());
        let next = records.last().slot + 1;
        if next > rest {
            next
        } else {
            rest
        }
    }
}

/// The slot that the next activity gets.
pub struct ActivitySlot {
    value: u64,
}

impl ActivitySlot {
    pub closed spec fn slot(&self) -> u64 {
        self.value
    }

    pub fn new(value: u64) -> (slot: Self)
        ensures
            slot.slot() == value,
    {
        ActivitySlot { value }
    }

    /// The slot after the highest slot of `records` (see `slot_after`).
    pub fn after_records(records: &Vec<StoredActivity>) -> (slot: Self)
        requires
            forall|index: int| 0 <= index < records@.len() ==> (#[trigger] records@[index]).slot < u64::MAX,
        ensures
            slot.slot() == slot_after(records@),
    {
        let mut value: u64 = 0;
        let mut index: usize = 0;
        while index < records.len()
            invariant
                index <= records.len(),
                forall|k: int| 0 <= k < records@.len() ==> (#[trigger] records@[k]).slot < u64::MAX,
                value == slot_after(records@.subrange(0, index as int)),
            decreases records.len() - index,
        {
            assert(records@.subrange(0, index as int + 1).drop_last() =~= records@.subrange(
                0,
                index as int,
            ));
            let next = records[index].slot + 1;
            if next > value {
                value = next;
            }
            index = index + 1;
        }
        assert(records@.subrange(0, records@.len() as int) =~= records@);
        ActivitySlot { value }
    }

    pub fn value(&self) -> (value: u64)
        ensures
            value == self.slot(),
    {
        self.value
    }

    pub fn next_value(&self) -> (value: u64)
        requires
            self.slot() < u64::MAX,
        ensures
            value == self.slot() + 1,
    {
        self.value + 1
    }
}

/// The slot that the next graph subscription gets.
pub struct GraphSlot {
    value: u64,
}

impl GraphSlot {
    pub closed spec fn slot(&self) -> u64 {
        self.value
    }

    pub fn new(value: u64) -> (slot: Self)
        ensures
            slot.slot() == value,
    {
        GraphSlot { value }
    }

    /// The slot after `count` subscriptions.
    pub fn after_records(count: usize) -> (slot: Self)
        ensures
            slot.slot() == count,
    {
        GraphSlot { value: count as u64 }
    }

    pub fn value(&self) -> (value: u64)
        ensures
            value == self.slot(),
    {
        self.value
    }

    pub fn next_value(&self) -> (value: u64)
        requires
            self.slot() < u64::MAX,
        ensures
            value == self.slot() + 1,
    {
        self.value + 1
    }
}

#[verifier::external_type_specification]
#[verifier::external_body]
pub struct ExSystemTime(std::time::SystemTime);

/// `std::time::SystemTime::now`: the current time of the system clock. Nothing is
/// claimed of the value, which depends on the clock.
#[verifier::external_body]
fn system_now() -> (now: std::time::SystemTime) {
    std::time::SystemTime::now()
}

/// `std::time::SystemTime::duration_since` taken from `std::time::UNIX_EPOCH`: the
/// time elapsed since the epoch, or `None` when `time` is earlier. Nothing is
/// claimed of the value, which depends on the clock.
#[verifier::external_body]
fn since_unix_epoch(time: &std::time::SystemTime) -> (elapsed: Option<core::time::Duration>) {
    time.duration_since(std::time::UNIX_EPOCH).ok()
}

/// `core::time::Duration::as_nanos`: the whole nanoseconds of the duration. Nothing
/// is claimed of the value, which depends on the clock that produced the duration.
#[verifier::external_body]
fn duration_nanos(duration: &core::time::Duration) -> (nanos: u128) {
    duration.as_nanos()
}

/// The stamp that an elapsed time since the Unix epoch gives: its nanoseconds, held at
/// `u64::MAX`; `SystemTime` when the clock read a time before the epoch (`None`).
pub fn stamp_from_elapsed(nanos: Option<u128>) -> (stamp: core::result::Result<u64, Error>)
    ensures
        match nanos {
            Some(nanos) => stamp == Ok::<u64, Error>(if nanos > u64::MAX { u64::MAX } else { nanos as u64 }),
            None => stamp == Err::<u64, Error>(Error::SystemTime),
        },
{
    match nanos {
        Some(nanos) => {
            if nanos > u64::MAX as u128 {
                Ok(u64::MAX)
            } else {
                Ok(nanos as u64)
            }
        },
        None => Err(Error::SystemTime),
    }
}

/// The mind's clock: nanoseconds since the Unix epoch.
pub struct StoreClock {}

impl StoreClock {
    pub fn system() -> (clock: Self)
        ensures
            clock == (StoreClock {}),
    {
        StoreClock {}
    }

    /// The current time in nanoseconds since the Unix epoch, held at `u64::MAX`;
    /// `SystemTime` when the system clock reads a time before the epoch. The time
    /// itself is the clock's: what is stated is what holds of every reading (see
    /// `stamp_from_elapsed`).
    pub fn timestamp(&self) -> (stamp: core::result::Result<u64, Error>)
        ensures
            stamp matches Err(error) ==> error == Error::SystemTime,
    {
        let now = system_now();
        let elapsed = match since_unix_epoch(&now) {
            Some(elapsed) => Some(duration_nanos(&elapsed)),
            None => None,
        };
        stamp_from_elapsed(elapsed)
    }
}

} // verus!
