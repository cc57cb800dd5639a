//! What the observer may capture, shows of its workers, and opens.

use vstd::prelude::*;
use vstd::string::*;

use crate::model::{session_id_text, SessionId};
use crate::observer::{
    find_worker_finds, CaptureStatus, ObserverAgentState, ObserverKey, ObserverLifecycle,
    ObserverView, WorkerView,
};
use crate::observer_runtime::{
    authorized, fingerprint_for, group_fingerprints, latest_record, member_named, observer_key,
    openable_record, planned_captures, refused_notice, shown_member, with_capture, with_captures,
    with_kept_capture, within_epoch, CapturedWorker, EntryView, GateView, OpenWorkerError, PlanView,
    TerminalKeyCode,
};
use crate::state::{
    find_group_finds, find_record_finds, MemberView, RecordView, SessionStatus, StateView,
};
use crate::text::opt_view;
use crate::text_laws::{holds_part, lemma_holds};

verus! {

/// A worker that was opened less than half a second ago is not opened again;
/// every other is. What was asked for too soon counts anew.
pub proof fn workers_are_not_opened_twice_at_once(
    last: Seq<char>,
    at: u64,
    worker: Seq<char>,
    now: u64,
)
    ensures
        ({
            let gate = GateView { last: Some((last, at)) };
            &&& gate.too_soon(worker, now) <==> worker == last && now < at + 500_000_000
            &&& gate.too_soon(worker, now) ==> gate.asked(worker, now).last == Some((worker, now))
            &&& !gate.too_soon(worker, now) ==> gate.asked(worker, now).last == Some((last, at))
        }),
        !(GateView { last: None }).too_soon(worker, now),
        (GateView { last: None }).asked(worker, now).last is None,
{
}

/// A key of the terminal is the key of the observer with its name. Control and
/// C always stop.
pub proof fn keys_keep_their_names(c: char, control: bool)
    ensures
        observer_key(TerminalKeyCode::Up, control) == Some(ObserverKey::Up),
        observer_key(TerminalKeyCode::Down, control) == Some(ObserverKey::Down),
        observer_key(TerminalKeyCode::Left, control) == Some(ObserverKey::Left),
        observer_key(TerminalKeyCode::Right, control) == Some(ObserverKey::Right),
        observer_key(TerminalKeyCode::PageUp, control) == Some(ObserverKey::PageUp),
        observer_key(TerminalKeyCode::PageDown, control) == Some(ObserverKey::PageDown),
        observer_key(TerminalKeyCode::Tab, control) == Some(ObserverKey::Tab),
        observer_key(TerminalKeyCode::BackTab, control) == Some(ObserverKey::BackTab),
        observer_key(TerminalKeyCode::Enter, control) == Some(ObserverKey::Enter),
        observer_key(TerminalKeyCode::Escape, control) == Some(ObserverKey::Escape),
        observer_key(TerminalKeyCode::Backspace, control) is None,
        observer_key(TerminalKeyCode::Other, control) is None,
        control && (c == 'c' || c == 'C') ==> observer_key(TerminalKeyCode::Char(c), control)
            == Some(ObserverKey::ControlC),
        !(control && (c == 'c' || c == 'C')) ==> observer_key(TerminalKeyCode::Char(c), control)
            == Some(ObserverKey::Char(c)),
{
}

/// A failure to open stays visible when more keys come; nothing else does.
pub proof fn failures_to_open_stay_visible(notice: Seq<char>)
    ensures
        "Open failed:"@.is_prefix_of(notice) ==> notice.is_prefix_of(refused_notice(Some(notice))),
        !"Open failed:"@.is_prefix_of(notice) ==> refused_notice(Some(notice))
            == "Queued Enter ignored; wait before retrying"@,
        refused_notice(None) == "Queued Enter ignored; wait before retrying"@,
{
    let more = notice + " · queued Enter ignored; wait before retrying"@;
    assert(more.take(notice.len() as int) =~= notice);
}

/// A session's last record is the one at `at`.
pub open spec fn last_recorded(records: Seq<RecordView>, id: SessionId, at: int) -> bool {
    &&& 0 <= at < records.len()
    &&& records[at].id == id
    &&& forall|i: int| at < i < records.len() ==> (#[trigger] records[i]).id != id
}

/// The last record of a session counts.
proof fn lemma_last_recorded(records: Seq<RecordView>, id: SessionId, at: int)
    ensures
        last_recorded(records, id, at) ==> latest_record(records, id) == Some(records[at]),
        (forall|i: int| 0 <= i < records.len() ==> (#[trigger] records[i]).id != id)
            ==> latest_record(records, id) is None,
    decreases records.len(),
{
    if records.len() > 0 {
        let front = records.drop_last();
        lemma_last_recorded(front, id, at);
        assert(forall|i: int| 0 <= i < front.len() ==> front[i] == records[i]);
    }
}

/// The output of a member may be captured exactly if it allows that and its
/// workload runs, is owned and has an identity; the capture then belongs to that
/// very workload.
pub proof fn only_owned_running_workloads_are_captured(
    member: MemberView,
    records: Seq<RecordView>,
    at: int,
)
    ensures
        !member.capabilities.observe_output ==> authorized(member, records) is None,
        (forall|i: int| 0 <= i < records.len() ==> (#[trigger] records[i]).id != member.session_id)
            ==> authorized(member, records) is None,
        member.capabilities.observe_output && last_recorded(records, member.session_id, at) ==> {
            let record = records[at];
            let found = authorized(member, records);
            &&& found is Some <==> record.status == SessionStatus::Running
                && record.ownership_proof is Some && record.tmux_session_id is Some
            &&& found is Some ==> {
                &&& found->0.membership_id == member.membership_id
                &&& found->0.session_id == member.session_id
                &&& Some(found->0.ownership_proof) == record.ownership_proof
                &&& Some(found->0.tmux_session_id) == record.tmux_session_id
                &&& found->0.capabilities == member.capabilities
            }
        },
{
    lemma_last_recorded(records, member.session_id, at);
}

/// Every member whose output may be captured has its fingerprint, in order, and
/// no other has one.
pub proof fn members_have_their_fingerprints(members: Seq<MemberView>, records: Seq<RecordView>)
    ensures
        group_fingerprints(members, records) == members.filter(
            |member: MemberView| authorized(member, records) is Some,
        ).map_values(
            |member: MemberView|
                EntryView {
                    worker_id: session_id_text(member.session_id@),
                    fingerprint: authorized(member, records)->0,
                },
        ),
    decreases members.len(),
{
    reveal(Seq::filter);
    let may = |member: MemberView| authorized(member, records) is Some;
    let entry = |member: MemberView|
        EntryView {
            worker_id: session_id_text(member.session_id@),
            fingerprint: authorized(member, records)->0,
        };
    if members.len() > 0 {
        let front = members.drop_last();
        members_have_their_fingerprints(front, records);
        assert(front.filter(may).push(members.last()).map_values(entry) =~= front.filter(
            may,
        ).map_values(entry).push(entry(members.last())));
    } else {
        assert(members.filter(may) =~= Seq::empty());
        assert(members.filter(may).map_values(entry) =~= Seq::empty());
    }
}

/// Exactly the visible members whose output may be captured are captured, each
/// at the target of its workload.
pub proof fn visible_members_are_captured(
    members: Seq<MemberView>,
    records: Seq<RecordView>,
    visible: Set<Seq<char>>,
)
    ensures
        planned_captures(members, records, visible) == members.filter(
            |member: MemberView|
                authorized(member, records) is Some && visible.contains(
                    session_id_text(member.session_id@),
                ),
        ).map_values(
            |member: MemberView|
                PlanView {
                    fingerprint: authorized(member, records)->0,
                    target: latest_record(records, member.session_id)->0.target,
                },
        ),
    decreases members.len(),
{
    reveal(Seq::filter);
    let may = |member: MemberView|
        authorized(member, records) is Some && visible.contains(
            session_id_text(member.session_id@),
        );
    let plan = |member: MemberView|
        PlanView {
            fingerprint: authorized(member, records)->0,
            target: latest_record(records, member.session_id)->0.target,
        };
    if members.len() > 0 {
        let front = members.drop_last();
        visible_members_are_captured(front, records, visible);
        assert(front.filter(may).push(members.last()).map_values(plan) =~= front.filter(
            may,
        ).map_values(plan).push(plan(members.last())));
    } else {
        assert(members.filter(may) =~= Seq::empty());
        assert(members.filter(may).map_values(plan) =~= Seq::empty());
    }
}

/// A member is shown with its own title and permissions and as its workload is
/// recorded; nothing is said of an agent or of output before it is known.
pub proof fn members_are_shown_as_recorded(
    member: MemberView,
    records: Seq<RecordView>,
    at: int,
)
    ensures
        ({
            let shown = shown_member(member, records);
            &&& shown.id == session_id_text(member.session_id@)
            &&& shown.title == member.title
            &&& shown.capabilities.observe_output == member.capabilities.observe_output
            &&& shown.capabilities.open_interactive == member.capabilities.open_interactive
            &&& shown.capabilities.prompt_agent == member.capabilities.prompt_agent
            &&& shown.agent_state == ObserverAgentState::Unknown
            &&& !shown.live_agent
            &&& shown.capture is None
            &&& !shown.sampled
            &&& shown.last_observed is None
            &&& shown.latency_ms is None
            &&& shown.stale_reason is None
            &&& (forall|i: int|
                0 <= i < records.len() ==> (#[trigger] records[i]).id != member.session_id) ==> {
                &&& shown.lifecycle == ObserverLifecycle::Missing
                &&& !shown.owned
                &&& shown.incarnation is None
            }
            &&& last_recorded(records, member.session_id, at) ==> {
                let record = records[at];
                &&& shown.incarnation == record.tmux_session_id
                &&& shown.owned <==> record.ownership_proof is Some && record.tmux_session_id
                    is Some
                &&& shown.lifecycle == ObserverLifecycle::Starting <==> record.status
                    == SessionStatus::Creating
                &&& shown.lifecycle == ObserverLifecycle::Running <==> record.status
                    == SessionStatus::Running
                &&& shown.lifecycle == ObserverLifecycle::Stopping <==> record.status
                    == SessionStatus::Stopping
                &&& shown.lifecycle == ObserverLifecycle::Ended <==> record.status
                    == SessionStatus::Ended
                &&& shown.lifecycle == ObserverLifecycle::Removed <==> record.status
                    == SessionStatus::Removed
            }
        }),
{
    lemma_last_recorded(records, member.session_id, at);
}

/// A worker's last fingerprint is the one at `at`.
pub open spec fn last_entered(entries: Seq<EntryView>, id: Seq<char>, at: int) -> bool {
    &&& 0 <= at < entries.len()
    &&& entries[at].worker_id == id
    &&& forall|i: int| at < i < entries.len() ==> (#[trigger] entries[i]).worker_id != id
}

/// The fingerprint of a worker is the last that was entered for it.
pub proof fn the_last_fingerprint_counts(entries: Seq<EntryView>, id: Seq<char>, at: int)
    ensures
        last_entered(entries, id, at) ==> fingerprint_for(entries, id) == Some(
            entries[at].fingerprint,
        ),
        (forall|i: int| 0 <= i < entries.len() ==> (#[trigger] entries[i]).worker_id != id)
            ==> fingerprint_for(entries, id) is None,
    decreases entries.len(),
{
    if entries.len() > 0 {
        let front = entries.drop_last();
        the_last_fingerprint_counts(front, id, at);
        assert(forall|i: int| 0 <= i < front.len() ==> front[i] == entries[i]);
    }
}

/// When the state is read again, a worker keeps what was captured of it exactly
/// while its fingerprint is the same; all else is as it is read.
pub proof fn captures_are_kept_within_an_epoch(
    observer: ObserverView,
    previous: Seq<EntryView>,
    current: Seq<EntryView>,
    worker: WorkerView,
    at: int,
)
    ensures
        ({
            let kept = with_kept_capture(observer, previous, current, worker);
            &&& kept == (WorkerView { capture: kept.capture, ..worker })
            &&& fingerprint_for(previous, worker.id) != fingerprint_for(current, worker.id)
                ==> kept.capture == worker.capture
            &&& 0 <= at < observer.workers.len() && observer.workers[at].id == worker.id && (forall|
                i: int,
            |
                0 <= i < at ==> (#[trigger] observer.workers[i]).id != worker.id)
                && fingerprint_for(previous, worker.id) == fingerprint_for(current, worker.id)
                && observer.workers[at].capture is Some ==> kept.capture
                == observer.workers[at].capture
        }),
{
    find_worker_finds(observer.workers, worker.id);
}

/// What was captured of a worker is dropped exactly when its fingerprint
/// changes; nothing else of the observer changes.
pub proof fn captures_of_another_epoch_are_dropped(
    observer: ObserverView,
    previous: Seq<EntryView>,
    current: Seq<EntryView>,
    at: int,
)
    requires
        observer.statuses.len() == observer.workers.len(),
        0 <= at < observer.workers.len(),
    ensures
        ({
            let after = within_epoch(observer, previous, current);
            let id = observer.workers[at].id;
            &&& after == (ObserverView {
                workers: after.workers,
                statuses: after.statuses,
                ..observer
            })
            &&& after.workers.len() == observer.workers.len()
            &&& after.statuses.len() == observer.statuses.len()
            &&& fingerprint_for(previous, id) == fingerprint_for(current, id)
                ==> after.workers[at] == observer.workers[at] && after.statuses[at]
                == observer.statuses[at]
            &&& fingerprint_for(previous, id) != fingerprint_for(current, id)
                ==> after.workers[at].capture is None && !after.workers[at].sampled
                && after.statuses[at] == CaptureStatus::Loading
            &&& after.workers[at] == (WorkerView {
                capture: after.workers[at].capture,
                sampled: after.workers[at].sampled,
                ..observer.workers[at]
            })
        }),
{
}

/// A capture is merged in exactly if its worker is visible and its fingerprint
/// is the current one in every field. It changes no more than what was captured
/// of that worker.
pub proof fn only_current_captures_are_shown(
    workers: Seq<WorkerView>,
    visible: Set<Seq<char>>,
    current: Seq<EntryView>,
    captured: CapturedWorker,
    at: int,
)
    requires
        0 <= at < workers.len(),
    ensures
        ({
            let id = session_id_text(captured.fingerprint.session_id@);
            let after = with_capture(workers, visible, current, captured);
            let first = workers[at].id == id && forall|i: int|
                0 <= i < at ==> (#[trigger] workers[i]).id != id;
            &&& after.len() == workers.len()
            &&& after[at] == (WorkerView { capture: after[at].capture, ..workers[at] })
            &&& !visible.contains(id) || fingerprint_for(current, id) != Some(captured.fingerprint)
                ==> after == workers
            &&& visible.contains(id) && fingerprint_for(current, id) == Some(captured.fingerprint)
                && first ==> after[at].capture == opt_view(captured.capture)
            &&& !first ==> after[at] == workers[at]
        }),
{
    find_worker_finds(workers, session_id_text(captured.fingerprint.session_id@));
}

/// Captures are merged in one after the other, and the last one of a worker
/// counts.
pub proof fn captures_are_merged_in_order(
    workers: Seq<WorkerView>,
    visible: Set<Seq<char>>,
    current: Seq<EntryView>,
    captured: Seq<CapturedWorker>,
    more: CapturedWorker,
    at: int,
)
    requires
        0 <= at < workers.len(),
    ensures
        with_captures(workers, visible, current, Seq::empty()) == workers,
        with_captures(workers, visible, current, captured.push(more)) == with_capture(
            with_captures(workers, visible, current, captured),
            visible,
            current,
            more,
        ),
        with_captures(workers, visible, current, captured).len() == workers.len(),
        with_captures(workers, visible, current, captured)[at] == (WorkerView {
            capture: with_captures(workers, visible, current, captured)[at].capture,
            ..workers[at]
        }),
    decreases captured.len(),
{
    assert(captured.push(more).drop_last() =~= captured);
    if captured.len() > 0 {
        let front = captured.drop_last();
        captures_are_merged_in_order(workers, visible, current, front, more, at);
        only_current_captures_are_shown(
            with_captures(workers, visible, current, front),
            visible,
            current,
            captured.last(),
            at,
        );
    }
}

/// The member at `at` is the first with this text.
pub open spec fn first_named(members: Seq<MemberView>, worker: Seq<char>, at: int) -> bool {
    &&& 0 <= at < members.len()
    &&& session_id_text(members[at].session_id@) == worker
    &&& forall|i: int|
        0 <= i < at ==> session_id_text((#[trigger] members[i]).session_id@) != worker
}

/// The first member with a text is found, and none where there is none.
proof fn lemma_named(members: Seq<MemberView>, worker: Seq<char>, at: int)
    ensures
        first_named(members, worker, at) ==> member_named(members, worker) == Some(at),
        (forall|i: int|
            0 <= i < members.len() ==> session_id_text((#[trigger] members[i]).session_id@)
                != worker) ==> member_named(members, worker) is None,
    decreases members.len(),
{
    if members.len() > 0 {
        let front = members.drop_last();
        lemma_named(front, worker, at);
        assert(forall|i: int| 0 <= i < front.len() ==> front[i] == members[i]);
    }
}

/// A worker is opened exactly if it is a member of the group that allows it and
/// its workload runs and is owned; each refusal says what is lacking.
pub proof fn only_allowed_members_are_opened(
    state: StateView,
    group: Seq<char>,
    worker: Seq<char>,
    place: int,
    at: int,
    recorded: int,
)
    ensures
        (forall|i: int| 0 <= i < state.groups.len() ==> (#[trigger] state.groups[i]).id != group)
            ==> openable_record(state, group, worker) == Err::<RecordView, OpenWorkerError>(
            OpenWorkerError::GroupDeleted,
        ),
        0 <= place < state.groups.len() && state.groups[place].id == group && (forall|i: int|
            0 <= i < place ==> (#[trigger] state.groups[i]).id != group) ==> {
            let members = state.groups[place].workers;
            let found = openable_record(state, group, worker);
            &&& (forall|i: int|
                0 <= i < members.len() ==> session_id_text((#[trigger] members[i]).session_id@)
                    != worker) ==> found == Err::<RecordView, OpenWorkerError>(
                OpenWorkerError::NotMember,
            )
            &&& first_named(members, worker, at) && !members[at].capabilities.open_interactive
                ==> found == Err::<RecordView, OpenWorkerError>(OpenWorkerError::NotAllowed)
            &&& first_named(members, worker, at) && members[at].capabilities.open_interactive && (
            forall|i: int|
                0 <= i < state.sessions.len() ==> (#[trigger] state.sessions[i]).id
                    != members[at].session_id) ==> found == Err::<RecordView, OpenWorkerError>(
                OpenWorkerError::SessionMissing,
            )
            &&& first_named(members, worker, at) && members[at].capabilities.open_interactive && 0
                <= recorded < state.sessions.len() && state.sessions[recorded].id
                == members[at].session_id && (forall|i: int|
                0 <= i < recorded ==> (#[trigger] state.sessions[i]).id != members[at].session_id)
                ==> {
                let record = state.sessions[recorded];
                if record.status == SessionStatus::Running && record.ownership_proof is Some
                    && record.tmux_session_id is Some {
                    found == Ok::<RecordView, OpenWorkerError>(record)
                } else {
                    found == Err::<RecordView, OpenWorkerError>(OpenWorkerError::NotRunning)
                }
            }
        },
{
    find_group_finds(state.groups, group);
    if 0 <= place < state.groups.len() {
        let members = state.groups[place].workers;
        lemma_named(members, worker, at);
        if 0 <= at < members.len() {
            find_record_finds(state.sessions, members[at].session_id);
        }
    }
}

/// Every refusal to open names the worker, or the group that is gone.
pub proof fn refusals_to_open_name_the_worker(
    error: OpenWorkerError,
    group: Seq<char>,
    worker: Seq<char>,
)
    ensures
        error != OpenWorkerError::GroupDeleted ==> holds_part(error.text(group, worker), worker),
        error == OpenWorkerError::GroupDeleted || error == OpenWorkerError::NotMember
            ==> holds_part(error.text(group, worker), group),
{
    match error {
        OpenWorkerError::GroupDeleted => {
            lemma_holds("orchestration group `"@, group, "` was deleted"@);
        },
        OpenWorkerError::NotMember => {
            let middle = "` is no longer a member of `"@;
            lemma_holds("worker `"@, worker, middle + group + "`"@);
            assert("worker `"@ + worker + middle + group + "`"@ =~= "worker `"@ + worker + (middle
                + group + "`"@));
            lemma_holds("worker `"@ + worker + middle, group, "`"@);
        },
        OpenWorkerError::NotAllowed => {
            lemma_holds("worker `"@, worker, "` does not allow interactive open"@);
        },
        OpenWorkerError::SessionMissing => {
            lemma_holds("worker session `"@, worker, "` is missing"@);
        },
        OpenWorkerError::NotRunning => {
            lemma_holds(
                "worker session `"@,
                worker,
                "` is not a running exact-owned session"@,
            );
        },
    }
}

} // verus!
