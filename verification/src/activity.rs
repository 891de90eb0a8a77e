//! The activity ledger: what each role reports doing, newest first on query.

use vstd::prelude::*;

use crate::contract::{
    Activity, ActivityAcknowledgment, ActivityFilter, ActivityList, ActivityQuery,
    ActivitySubmission, MindReply, ScopeReference,
};
use crate::error::Error;
use crate::memory::limited;
use crate::path::has_prefix;
use crate::tables::{activity_of, StoreClock, StoredActivity};

verus! {

/// Whether one filter accepts an activity: by role; by a path scope that begins with
/// the prefix; or by a task scope with the same token.
pub open spec fn filter_accepts(filter: ActivityFilter, record: StoredActivity) -> bool {
    match filter {
        ActivityFilter::RoleFilter(role) => record.role == role,
        ActivityFilter::PathPrefix(prefix) => match record.scope {
            ScopeReference::Path(path) => prefix@.len() <= path@.len() && path@.subrange(
                0,
                prefix@.len() as int,
            ) == prefix@,
            ScopeReference::Task(_) => false,
        },
        ActivityFilter::TaskToken(token) => match record.scope {
            ScopeReference::Path(_) => false,
            ScopeReference::Task(held) => held@ == token@,
        },
    }
}

/// Every filter accepts the activity.
pub open spec fn filters_accept(filters: Seq<ActivityFilter>, record: StoredActivity) -> bool {
    forall|index: int| 0 <= index < filters.len() ==> filter_accepts(#[trigger] filters[index], record)
}

/// The accepted activities, last recorded first.
pub open spec fn newest_accepted(records: Seq<StoredActivity>, filters: Seq<ActivityFilter>) -> Seq<
    StoredActivity,
>
    decreases records.len(),
{
    if records.len() == 0 {
        Seq::empty()
    } else {
        let rest = newest_accepted(records.drop_last(), filters);
        if filters_accept(filters, records.last()) {
            seq![records.last()] + rest
        } else {
            rest
        }
    }
}

/// The answer to an activity query: the first `limit` accepted activities, last
/// recorded first.
pub open spec fn activity_answer(records: Seq<StoredActivity>, query: ActivityQuery) -> Seq<Activity> {
    limited(newest_accepted(records, query.filters@), query.limit as int).map_values(
        |record: StoredActivity| activity_of(record),
    )
}

/// Slots strictly increase along the ledger and stay below the next slot.
pub open spec fn slots_ascending(records: Seq<StoredActivity>, next_slot: u64) -> bool {
    &&& forall|i: int, j: int| 0 <= i < j < records.len() ==> records[i].slot < records[j].slot
    &&& forall|i: int| 0 <= i < records.len() ==> (#[trigger] records[i]).slot < next_slot
}

proof fn lemma_newest_accepted_front(
    first: StoredActivity,
    rest: Seq<StoredActivity>,
    filters: Seq<ActivityFilter>,
)
    ensures
        newest_accepted(seq![first] + rest, filters) == newest_accepted(rest, filters) + (if filters_accept(
            filters,
            first,
        ) {
            seq![first]
        } else {
            Seq::empty()
        }),
    decreases rest.len(),
{
    let whole = seq![first] + rest;
    if rest.len() == 0 {
        assert(whole.drop_last() =~= Seq::<StoredActivity>::empty());
        assert(newest_accepted(Seq::<StoredActivity>::empty(), filters) =~= Seq::<StoredActivity>::empty());
        if filters_accept(filters, first) {
            assert(newest_accepted(whole, filters) =~= seq![first]);
        }
    } else {
        assert(whole.drop_last() =~= seq![first] + rest.drop_last());
        assert(whole.last() == rest.last());
        lemma_newest_accepted_front(first, rest.drop_last(), filters);
        let tail = if filters_accept(filters, first) {
            seq![first]
        } else {
            Seq::empty()
        };
        if filters_accept(filters, rest.last()) {
            assert(newest_accepted(whole, filters) =~= seq![rest.last()] + (newest_accepted(
                rest.drop_last(),
                filters,
            ) + tail));
        }
    }
}

fn filter_accepts_record(filter: &ActivityFilter, record: &StoredActivity) -> (result: bool)
    ensures
        result == filter_accepts(*filter, *record),
{
    match filter {
        ActivityFilter::RoleFilter(role) => record.role == *role,
        ActivityFilter::PathPrefix(prefix) => match &record.scope {
            ScopeReference::Path(path) => has_prefix(path.as_str(), prefix.as_str()),
            ScopeReference::Task(_) => false,
        },
        ActivityFilter::TaskToken(token) => match &record.scope {
            ScopeReference::Path(_) => false,
            ScopeReference::Task(held) => *held == *token,
        },
    }
}

/// Whether every filter accepts the activity.
pub fn filters_accept_record(filters: &Vec<ActivityFilter>, record: &StoredActivity) -> (result: bool)
    ensures
        result == filters_accept(filters@, *record),
{
    let mut index: usize = 0;
    while index < filters.len()
        invariant
            index <= filters.len(),
            forall|k: int| 0 <= k < index ==> filter_accepts(#[trigger] filters@[k], *record),
        decreases filters.len() - index,
    {
        if !filter_accepts_record(&filters[index], record) {
            return false;
        }
        index = index + 1;
    }
    true
}

/// `after`, `after_next` and `reply` are what recording `submission` after `before`
/// gives: the submission in the next slot with some stamp, acknowledged; or, when the
/// clock reads a time before the epoch, `SystemTime` and nothing recorded.
pub open spec fn activity_recorded(
    before: Seq<StoredActivity>,
    before_next: u64,
    submission: ActivitySubmission,
    after: Seq<StoredActivity>,
    after_next: u64,
    reply: core::result::Result<MindReply, Error>,
) -> bool {
    match reply {
        Ok(reply) => {
            let stamp = after.last().stamped_at;
            &&& after == before.push(
                StoredActivity {
                    slot: before_next,
                    role: submission.role,
                    scope: submission.scope,
                    reason: submission.reason,
                    stamped_at: stamp,
                },
            )
            &&& after_next == before_next + 1
            &&& reply == MindReply::ActivityAcknowledgment(ActivityAcknowledgment { slot: before_next })
        },
        Err(error) => {
            &&& error == Error::SystemTime
            &&& after == before
            &&& after_next == before_next
        },
    }
}

/// Every activity reported so far, in the order of their slots.
pub struct ActivityLedger {
    records: Vec<StoredActivity>,
    next_slot: u64,
}

impl ActivityLedger {
    pub closed spec fn records(&self) -> Seq<StoredActivity> {
        self.records@
    }

    /// The slot that the next activity gets.
    pub closed spec fn next(&self) -> u64 {
        self.next_slot
    }

    /// The slot that the next activity gets.
    pub fn next_slot(&self) -> (slot: u64)
        ensures
            slot == self.next(),
    {
        self.next_slot
    }

    pub fn new() -> (ledger: Self)
        ensures
            ledger.records() == Seq::<StoredActivity>::empty(),
            ledger.next() == 0,
    {
        ActivityLedger { records: Vec::new(), next_slot: 0 }
    }

    /// Records the submission in the next slot, stamped with the current time, and
    /// acknowledges the slot; `SystemTime` when the clock reads a time before the
    /// epoch. Nothing is claimed of the stamp, which is the clock's.
    pub fn submit(&mut self, submission: ActivitySubmission) -> (reply: core::result::Result<MindReply, Error>)
        requires
            old(self).next() < u64::MAX,
        ensures
            activity_recorded(
                old(self).records(),
                old(self).next(),
                submission,
                final(self).records(),
                final(self).next(),
                reply,
            ),
    {
        match StoreClock::system().timestamp() {
            Ok(stamp) => Ok(self.submit_stamped(submission, stamp)),
            Err(error) => Err(error),
        }
    }

    /// Records the submission in the next slot with the given stamp, and acknowledges
    /// the slot.
    pub fn submit_stamped(&mut self, submission: ActivitySubmission, stamped_at: u64) -> (reply:
        MindReply)
        requires
            old(self).next() < u64::MAX,
        ensures
            final(self).records() == old(self).records().push(
                StoredActivity {
                    slot: old(self).next(),
                    role: submission.role,
                    scope: submission.scope,
                    reason: submission.reason,
                    stamped_at,
                },
            ),
            final(self).next() == old(self).next() + 1,
            reply == MindReply::ActivityAcknowledgment(
                ActivityAcknowledgment { slot: old(self).next() },
            ),
    {
        let slot = self.next_slot;
        self.records.push(
            StoredActivity::new(slot, submission.role, submission.scope, submission.reason, stamped_at),
        );
        self.next_slot = slot + 1;
        MindReply::ActivityAcknowledgment(ActivityAcknowledgment { slot })
    }

    /// The activities that every filter accepts, at most `limit` of them, last
    /// recorded first.
    pub fn query(&self, query: ActivityQuery) -> (reply: MindReply)
        ensures
            reply matches MindReply::ActivityList(list) && list.records@ == activity_answer(
                self.records(),
                query,
            ),
    {
        let limit = query.limit as usize;
        let ghost records = self.records@;
        let ghost filters = query.filters@;
        let mut chosen: Vec<Activity> = Vec::new();
        let mut index = self.records.len();
        assert(records.subrange(records.len() as int, records.len() as int) =~= Seq::<StoredActivity>::empty());
        while index > 0
            invariant
                index <= records.len(),
                records == self.records@,
                filters == query.filters@,
                limit == query.limit as usize,
                chosen@ == limited(
                    newest_accepted(records.subrange(index as int, records.len() as int), filters),
                    limit as int,
                ).map_values(|record: StoredActivity| activity_of(record)),
            decreases index,
        {
            index = index - 1;
            let ghost suffix = records.subrange(index as int + 1, records.len() as int);
            let ghost chosen_before = newest_accepted(suffix, filters);
            assert(records.subrange(index as int, records.len() as int) =~= seq![records[index as int]]
                + suffix);
            proof {
                lemma_newest_accepted_front(records[index as int], suffix, filters);
            }
            let record = &self.records[index];
            if filters_accept_record(&query.filters, record) {
                let ghost grown = chosen_before + seq![records[index as int]];
                if chosen.len() < limit {
                    let ghost before = chosen@;
                    chosen.push(record.duplicate().into_activity());
                    assert(chosen@ =~= limited(grown, limit as int).map_values(
                        |record: StoredActivity| activity_of(record),
                    ));
                } else {
                    assert(grown.take(limit as int) =~= chosen_before.take(limit as int));
                }
            }
        }
        assert(records.subrange(0, records.len() as int) =~= records);
        MindReply::ActivityList(ActivityList { records: chosen })
    }

    /// Every activity, last recorded first.
    pub fn newest_first(&self) -> (activities: Vec<Activity>)
        ensures
            activities@ == newest_accepted(self.records(), Seq::empty()).map_values(
                |record: StoredActivity| activity_of(record),
            ),
    {
        let ghost records = self.records@;
        let ghost none = Seq::<ActivityFilter>::empty();
        let mut chosen: Vec<Activity> = Vec::new();
        let mut index = self.records.len();
        assert(records.subrange(records.len() as int, records.len() as int) =~= Seq::<StoredActivity>::empty());
        while index > 0
            invariant
                index <= records.len(),
                records == self.records@,
                none == Seq::<ActivityFilter>::empty(),
                chosen@ == newest_accepted(records.subrange(index as int, records.len() as int), none)
                    .map_values(|record: StoredActivity| activity_of(record)),
            decreases index,
        {
            index = index - 1;
            let ghost suffix = records.subrange(index as int + 1, records.len() as int);
            assert(records.subrange(index as int, records.len() as int) =~= seq![records[index as int]]
                + suffix);
            proof {
                lemma_newest_accepted_front(records[index as int], suffix, none);
            }
            let ghost before = newest_accepted(suffix, none);
            assert(filters_accept(none, records[index as int]));
            chosen.push(self.records[index].duplicate().into_activity());
            assert(chosen@ =~= (before + seq![records[index as int]]).map_values(
                |record: StoredActivity| activity_of(record),
            ));
        }
        assert(records.subrange(0, records.len() as int) =~= records);
        chosen
    }
}

proof fn lemma_newest_accepted_members(records: Seq<StoredActivity>, filters: Seq<ActivityFilter>)
    ensures
        forall|i: int|
            0 <= i < newest_accepted(records, filters).len() ==> records.contains(
                #[trigger] newest_accepted(records, filters)[i],
            ) && filters_accept(filters, newest_accepted(records, filters)[i]),
    decreases records.len(),
{
    if records.len() > 0 {
        let rest = records.drop_last();
        lemma_newest_accepted_members(rest, filters);
        let tail = newest_accepted(rest, filters);
        let whole = newest_accepted(records, filters);
        assert forall|i: int| 0 <= i < whole.len() implies records.contains(#[trigger] whole[i])
            && filters_accept(filters, whole[i]) by {
            if filters_accept(filters, records.last()) {
                if i == 0 {
                    assert(whole[0] == records.last());
                    assert(records[records.len() - 1] == records.last());
                } else {
                    assert(whole[i] == tail[i - 1]);
                    let at = choose|at: int| 0 <= at < rest.len() && rest[at] == tail[i - 1];
                    assert(records[at] == rest[at]);
                }
            } else {
                assert(whole[i] == tail[i]);
                let at = choose|at: int| 0 <= at < rest.len() && rest[at] == tail[i];
                assert(records[at] == rest[at]);
            }
        }
    }
}

/// Filters narrow a query: every activity answered is that of a recorded activity
/// that each of the query's filters accepts.
pub proof fn lemma_answer_meets_every_filter(
    records: Seq<StoredActivity>,
    query: ActivityQuery,
    answered: int,
    filter: int,
)
    requires
        0 <= answered < activity_answer(records, query).len(),
        0 <= filter < query.filters@.len(),
    ensures
        exists|j: int|
            0 <= j < records.len() && activity_of(records[j]) == activity_answer(records, query)[answered]
                && filter_accepts(query.filters@[filter], records[j]),
{
    let accepted = newest_accepted(records, query.filters@);
    lemma_newest_accepted_members(records, query.filters@);
    let kept = limited(accepted, query.limit as int);
    assert(kept[answered] == accepted[answered]);
    let record = accepted[answered];
    assert(filters_accept(query.filters@, record));
    assert(filter_accepts(query.filters@[filter], record));
    let j = choose|j: int| 0 <= j < records.len() && records[j] == record;
    assert(activity_answer(records, query)[answered] == activity_of(record));
}

/// Slots keep strictly increasing: every submission keeps the ledger's slots
/// ascending and below the next slot.
pub proof fn lemma_submission_keeps_slots_ascending(
    records: Seq<StoredActivity>,
    next_slot: u64,
    submission: ActivitySubmission,
    stamped_at: u64,
)
    requires
        slots_ascending(records, next_slot),
        next_slot < u64::MAX,
    ensures
        slots_ascending(
            records.push(
                StoredActivity {
                    slot: next_slot,
                    role: submission.role,
                    scope: submission.scope,
                    reason: submission.reason,
                    stamped_at,
                },
            ),
            (next_slot + 1) as u64,
        ),
{
}

} // verus!
