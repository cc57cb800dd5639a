//! Listing workloads, and clearing the history of those that ended.

use vstd::prelude::*;
use vstd::string::*;

use crate::clock::{display_text, instant_text};
use crate::failure::{plain, Failure};
use crate::launch::{session_status_text, status_text};
use crate::lifecycle_remove::PruneError;
use crate::model::{session_id_text, SessionId};
use crate::state::{
    is_listed_before, list_place, list_place_lies_in_the_list, listed_before, listing,
    record_views, GroupView, OrchestrationGroup, RecordView, SessionRecord, SessionStatus, State,
};
use crate::text::{decimal, numeral};

verus! {

/// A workload that is listed: every one but those that were removed.
pub open spec fn normal(record: RecordView) -> bool {
    record.status != SessionStatus::Removed
}

/// Whether a workload is listed.
pub fn is_normal_session(record: &SessionRecord) -> (r: bool)
    ensures
        r == normal(record@),
{
    record.status != SessionStatus::Removed
}

/// The workloads that are listed, in the order of the state.
pub open spec fn normal_records(records: Seq<RecordView>) -> Seq<RecordView>
    decreases records.len(),
{
    if records.len() == 0 {
        Seq::empty()
    } else {
        let front = normal_records(records.drop_last());
        if normal(records.last()) {
            front.push(records.last())
        } else {
            front
        }
    }
}

/// Puts a record where it stands in a list.
fn insert_listed(list: &mut Vec<SessionRecord>, record: SessionRecord)
    ensures
        record_views(final(list)@) == record_views(old(list)@).insert(
            list_place(record_views(old(list)@), record@),
            record@,
        ),
{
    let ghost listed = record_views(list@);
    let ghost shown = record@;
    let mut place: usize = 0;
    assert(listed.skip(0) =~= listed);
    while place < list.len() && !is_listed_before(&record, &list[place])
        invariant
            place <= list@.len(),
            listed == record_views(list@),
            record@ == shown,
            list_place(listed, shown) == place + list_place(listed.skip(place as int), shown),
        decreases list.len() - place,
    {
        let ghost rest = listed.skip(place as int);
        assert(rest[0] == listed[place as int]);
        assert(listed[place as int] == list@[place as int]@);
        assert(rest.drop_first() =~= listed.skip(place + 1));
        place += 1;
    }
    proof {
        if place < list@.len() {
            assert(listed.skip(place as int)[0] == listed[place as int]);
            assert(listed[place as int] == list@[place as int]@);
        }
    }
    list.insert(place, record);
    assert(record_views(list@) =~= listed.insert(place as int, shown));
}

/// The workloads of a state, as they are listed.
pub fn list_sessions(state: &State) -> (sessions: Vec<SessionRecord>)
    ensures
        record_views(sessions@) == listing(normal_records(state@.sessions)),
{
    let ghost all = state@.sessions;
    let mut sessions: Vec<SessionRecord> = Vec::new();
    let mut i: usize = 0;
    assert(record_views(sessions@) =~= Seq::empty());
    while i < state.sessions.len()
        invariant
            i <= state.sessions@.len(),
            all == state@.sessions,
            record_views(sessions@) == listing(normal_records(all.take(i as int))),
        decreases state.sessions.len() - i,
    {
        let record = &state.sessions[i];
        let ghost front = normal_records(all.take(i as int));
        assert(all.take(i + 1).drop_last() =~= all.take(i as int));
        assert(all.take(i + 1).last() == record@);
        if is_normal_session(record) {
            assert(front.push(record@).drop_last() =~= front);
            insert_listed(&mut sessions, record.clone());
        }
        i += 1;
    }
    assert(all.take(i as int) =~= all);
    sessions
}

/// The line on which a workload is listed.
pub open spec fn session_line(record: RecordView) -> Seq<char> {
    session_id_text(record.id@) + "\t"@ + record.host + "\t"@ + record.directory + "\t"@
        + instant_text(record.last_used_at.secs, record.last_used_at.nanos) + "\t"@ + status_text(
        record,
    )
}

/// The line on which a workload is listed.
pub fn session_row(record: &SessionRecord) -> (line: String)
    requires
        record.last_used_at.valid(),
    ensures
        line@ == session_line(record@),
{
    record.id.to_string().concat("\t").concat(record.host.as_str()).concat("\t").concat(
        record.directory.as_str(),
    ).concat("\t").concat(display_text(record.last_used_at).as_str()).concat("\t").concat(
        session_status_text(record).as_str(),
    )
}

/// The line on which a group is listed.
pub open spec fn group_line(group: GroupView) -> Seq<char> {
    group.id + "\t"@ + group.title + "\t"@ + session_id_text(group.orchestrator@) + "\t"@
        + numeral(group.workers.len()) + " workers"@
}

/// The line on which a group is listed.
pub fn group_row(group: &OrchestrationGroup) -> (line: String)
    ensures
        line@ == group_line(group@),
{
    let workers: u64 = group.workers.len() as u64;
    assert(group@.workers.len() == group.workers@.len());
    group.id.to_string().concat("\t").concat(group.title.as_str()).concat("\t").concat(
        group.orchestrator_session_id.to_string().as_str(),
    ).concat("\t").concat(decimal(workers).as_str()).concat(" workers")
}

/// How long history is kept, and which setting says so.
pub fn prune_retention(older_than_days: Option<u64>, configured_days: u64) -> (r: (u64, &'static str))
    ensures
        match older_than_days {
            Some(days) => r.0 == days && r.1@ == "--older-than-days"@,
            None => r.0 == configured_days && r.1@ == "retention.closed_days"@,
        },
{
    match older_than_days {
        Some(days) => (days, "--older-than-days"),
        None => (configured_days, "retention.closed_days"),
    }
}

/// The retention that is too long, as the setting that asks for it.
pub fn prune_failed(error: &PruneError, source: &str) -> (failure: Failure)
    ensures
        failure@ == plain(
            match error {
                PruneError::RetentionTooLarge(_) => source@ + " is too large"@,
            },
        ),
{
    match error {
        PruneError::RetentionTooLarge(_) => Failure::new(source.to_owned().concat(" is too large")),
    }
}

/// What is said of a record that changed while its removal was looked at.
pub fn skipped_message(id: SessionId) -> (text: String)
    ensures
        text@ == "skipped "@ + session_id_text(id@) + ": changed since preview"@,
{
    "skipped ".to_owned().concat(id.to_string().as_str()).concat(": changed since preview")
}

/// A list is in order: no record stands before one that is listed ahead of it.
pub open spec fn in_order(list: Seq<RecordView>) -> bool {
    forall|i: int, j: int|
        0 <= i < j < list.len() ==> !listed_before(#[trigger] list[j], #[trigger] list[i])
}

/// A record that is put into a list in order leaves it in order.
proof fn lemma_place_keeps_order(list: Seq<RecordView>, record: RecordView)
    requires
        in_order(list),
    ensures
        in_order(list.insert(list_place(list, record), record)),
{
    let place = list_place(list, record);
    let after = list.insert(place, record);
    list_place_lies_in_the_list(list, record);
    lemma_list_place(list, record);
    assert forall|i: int, j: int| 0 <= i < j < after.len() implies !listed_before(
        #[trigger] after[j],
        #[trigger] after[i],
    ) by {
        let a = if i < place { i } else { i - 1 };
        let b = if j < place { j } else { j - 1 };
        if i != place && j != place {
            assert(after[i] == list[a] && after[j] == list[b]);
        } else if j == place {
            assert(after[i] == list[i]);
        } else {
            assert(after[j] == list[j - 1]);
            if place < j - 1 {
                assert(!listed_before(list[j - 1], list[place]));
            }
        }
    }
}

/// Where a record is put, none ahead of it stands behind it, and the next one
/// does.
proof fn lemma_list_place(list: Seq<RecordView>, record: RecordView)
    ensures
        forall|i: int| 0 <= i < list_place(list, record) ==> !listed_before(record, #[trigger] list[i]),
        list_place(list, record) < list.len() ==> listed_before(
            record,
            list[list_place(list, record)],
        ),
    decreases list.len(),
{
    if list.len() > 0 && !listed_before(record, list[0]) {
        let rest = list.drop_first();
        lemma_list_place(rest, record);
        list_place_lies_in_the_list(rest, record);
        assert forall|i: int| 0 <= i < list_place(list, record) implies !listed_before(
            record,
            #[trigger] list[i],
        ) by {
            if i > 0 {
                assert(list[i] == rest[i - 1]);
            }
        }
        if list_place(rest, record) < rest.len() {
            assert(list[list_place(list, record)] == rest[list_place(rest, record)]);
        }
    }
}

/// Workloads are listed in order: those that run first, and of two alike the
/// one that was used last.
pub proof fn listings_are_in_order(records: Seq<RecordView>)
    ensures
        in_order(listing(records)),
    decreases records.len(),
{
    if records.len() > 0 {
        listings_are_in_order(records.drop_last());
        lemma_place_keeps_order(listing(records.drop_last()), records.last());
    }
}

/// A list holds every workload that it was made of, each as often as it
/// occurs, and nothing else.
pub proof fn listings_hold_every_workload(records: Seq<RecordView>)
    ensures
        listing(records).to_multiset() == records.to_multiset(),
    decreases records.len(),
{
    if records.len() > 0 {
        let front = records.drop_last();
        let place = list_place(listing(front), records.last());
        listings_hold_every_workload(front);
        list_place_lies_in_the_list(listing(front), records.last());
        vstd::seq_lib::to_multiset_insert(listing(front), place, records.last());
        vstd::seq_lib::to_multiset_build(front, records.last());
        assert(front.push(records.last()) =~= records);
    } else {
        assert(records =~= Seq::empty());
    }
}

} // verus!
