//! What the operations on a workload do to its record and to everything beside
//! it, field by field.

use vstd::prelude::*;

use crate::audit::AuditAction;
use crate::backend::WorkloadState;
use crate::clock::Timestamp;
use crate::lifecycle::{
    close_error, ended_state, note_of, observation, stop_identity,
    stop_recheck, stop_subject, stopping_state, CloseOutcome, CloseOwnedError, Inspection,
    Operation, SubjectView,
};
use crate::lifecycle_open::{
    observe_subject, open_identity, open_recheck, open_subject, observed_record, reconciled_state,
    reconciliation, used_state, Reconciliation,
};
use crate::lifecycle_remove::{
    eligibility, expired_records, prunable_records, pruned_state,
    record_ids, remaining_groups, remaining_members, remaining_records, remove_choice,
    remove_identity, remove_recheck, removed_state, sorted_candidates, CleanupEligibility,
    RemoveChoice,
};
use crate::lifecycle_restart::{
    promoted_state, reserved_state, restart_choice, restart_recheck, restart_subject,
    RestartChoice,
};
use crate::model::{SessionId, TmuxSessionId};
use crate::state::{
    find_record, find_record_finds, GroupView, MemberView, RecordView, SessionStatus, StateView,
};

verus! {

/// The record of a session: the first one with its identifier.
pub open spec fn recorded(state: StateView, id: SessionId, index: int) -> bool {
    &&& 0 <= index < state.sessions.len()
    &&& state.sessions[index].id == id
    &&& forall|i: int| 0 <= i < index ==> (#[trigger] state.sessions[i]).id != id
}

/// Two records of one workload: what it is, where it runs, what it runs and who
/// owns it agree.
pub open spec fn same_workload(a: RecordView, b: RecordView) -> bool {
    &&& a.id == b.id
    &&& a.host == b.host
    &&& a.target == b.target
    &&& a.directory == b.directory
    &&& a.preset == b.preset
    &&& a.herdr_agent == b.herdr_agent
    &&& a.command == b.command
    &&& a.ownership_proof == b.ownership_proof
    &&& a.created_at == b.created_at
}

/// The records beside the one at `index` are as they were.
pub open spec fn others_kept(before: StateView, after: StateView, index: int) -> bool {
    &&& after.version == before.version
    &&& after.sessions.len() == before.sessions.len()
    &&& forall|i: int|
        0 <= i < before.sessions.len() && i != index ==> #[trigger] after.sessions[i]
            == before.sessions[i]
}

/// Everything beside the record at `index` is as it was.
pub open spec fn rest_kept(before: StateView, after: StateView, index: int) -> bool {
    others_kept(before, after, index) && after.groups == before.groups
}

/// The record of a session is the one that is found.
proof fn lemma_recorded(state: StateView, id: SessionId, index: int)
    requires
        recorded(state, id, index),
    ensures
        find_record(state.sessions, id) == Some(index),
{
    find_record_finds(state.sessions, id);
    match find_record(state.sessions, id) {
        Some(found) => {
            if found < index {
                assert(state.sessions[found].id != id);
            }
            if index < found {
                assert(state.sessions[index].id != id);
            }
        },
        None => {
            assert(state.sessions[index].id != id);
        },
    }
}

/// A record that keeps its identifier stays the record of its session.
proof fn lemma_still_recorded(before: StateView, after: StateView, id: SessionId, index: int)
    requires
        recorded(before, id, index),
        others_kept(before, after, index),
        after.sessions[index].id == id,
    ensures
        recorded(after, id, index),
{
    assert forall|i: int| 0 <= i < index implies (#[trigger] after.sessions[i]).id != id by {
        assert(after.sessions[i] == before.sessions[i]);
    }
}

/// Marking a workload as stopping changes its status and, where an incarnation
/// was seen, which one it is. Nothing else changes. It is marked exactly if it
/// is not closed yet and still as it was read.
pub proof fn marking_changes_status_and_incarnation(
    state: StateView,
    read: RecordView,
    identity: Option<TmuxSessionId>,
    index: int,
)
    requires
        recorded(state, read.id, index),
    ensures
        stopping_state(state, read, identity) is Some <==> (state.sessions[index] == read && (
        read.status == SessionStatus::Creating || read.status == SessionStatus::Running
            || read.status == SessionStatus::Stopping)),
        stopping_state(state, read, identity) matches Some(next) ==> {
            let marked = next.sessions[index];
            &&& rest_kept(state, next, index)
            &&& same_workload(read, marked)
            &&& marked.status == SessionStatus::Stopping
            &&& marked.last_used_at == read.last_used_at
            &&& marked.closed_at == read.closed_at
            &&& marked.exit_status == read.exit_status
            &&& identity is Some ==> marked.tmux_session_id == identity
            &&& identity is None ==> marked.tmux_session_id == read.tmux_session_id
        },
{
    lemma_recorded(state, read.id, index);
}

/// Ending a workload that is stopping notes when and how it ended. Nothing else
/// changes, and one that has ended already is left alone.
pub proof fn ending_notes_when_and_how(
    state: StateView,
    read: RecordView,
    exit_status: Option<i32>,
    now: Timestamp,
    index: int,
)
    requires
        recorded(state, read.id, index),
    ensures
        ended_state(state, read, exit_status, now) is Some <==> state.sessions[index].target
            == read.target && (state.sessions[index].status == SessionStatus::Stopping
            || state.sessions[index].status == SessionStatus::Ended),
        state.sessions[index].status == SessionStatus::Ended && state.sessions[index].target
            == read.target ==> ended_state(state, read, exit_status, now) == Some(state),
        state.sessions[index].status == SessionStatus::Stopping ==> (ended_state(
            state,
            read,
            exit_status,
            now,
        ) matches Some(next) ==> {
            let current = state.sessions[index];
            let ended = next.sessions[index];
            &&& rest_kept(state, next, index)
            &&& same_workload(current, ended)
            &&& ended.status == SessionStatus::Ended
            &&& ended.closed_at == Some(now)
            &&& ended.exit_status == exit_status
            &&& ended.tmux_session_id == current.tmux_session_id
            &&& ended.last_used_at == current.last_used_at
        }),
{
    lemma_recorded(state, read.id, index);
}

/// A workload of which there is no record is neither marked nor ended, used,
/// restarted or removed.
pub proof fn what_is_not_recorded_is_left_alone(
    state: StateView,
    read: RecordView,
    identity: TmuxSessionId,
    exit_status: Option<i32>,
    now: Timestamp,
)
    requires
        forall|i: int| 0 <= i < state.sessions.len() ==> (#[trigger] state.sessions[i]).id
            != read.id,
    ensures
        stopping_state(state, read, None) is None,
        stopping_state(state, read, Some(identity)) is None,
        ended_state(state, read, exit_status, now) is None,
        reserved_state(state, read) is None,
        promoted_state(state, read, identity, now) is None,
        used_state(state, read, identity, now) is None,
        removed_state(state, read, now) is None,
        stop_subject(state, read.id) == Err::<SubjectView, CloseOwnedError>(
            CloseOwnedError::UnknownSession(read.id),
        ),
        open_subject(state, read.id) == Err::<SubjectView, CloseOwnedError>(
            CloseOwnedError::UnknownSession(read.id),
        ),
        observe_subject(state, read.id) == Err::<SubjectView, CloseOwnedError>(
            CloseOwnedError::UnknownSession(read.id),
        ),
        restart_subject(state, read.id) == Err::<(SubjectView, Seq<char>), CloseOwnedError>(
            CloseOwnedError::UnknownSession(read.id),
        ),
        remove_choice(state, read.id) == Err::<RemoveChoice, CloseOwnedError>(
            CloseOwnedError::UnknownSession(read.id),
        ),
{
    find_record_finds(state.sessions, read.id);
    match find_record(state.sessions, read.id) {
        Some(index) => {
            assert(state.sessions[index].id != read.id);
        },
        None => {},
    }
}

/// A stop from beginning to end leaves a workload that is what it was, and that
/// can be restarted with the command that it had.
pub proof fn a_stopped_workload_can_be_restarted(
    state: StateView,
    id: SessionId,
    index: int,
    identity: Option<TmuxSessionId>,
    exit_status: Option<i32>,
    now: Timestamp,
)
    requires
        recorded(state, id, index),
        ({
            let status = state.sessions[index].status;
            ||| status == SessionStatus::Creating
            ||| status == SessionStatus::Running
            ||| status == SessionStatus::Stopping
        }),
    ensures
        ({
            let read = state.sessions[index];
            let marked = stopping_state(state, read, identity);
            let ended = ended_state(marked->0, read, exit_status, now);
            &&& marked is Some
            &&& ended is Some
            &&& recorded(ended->0, id, index)
            &&& rest_kept(state, ended->0, index)
            &&& same_workload(read, ended->0.sessions[index])
            &&& ended->0.sessions[index].last_used_at == read.last_used_at
            &&& ended->0.sessions[index].status == SessionStatus::Ended
            &&& ended->0.sessions[index].closed_at == Some(now)
            &&& ended->0.sessions[index].exit_status == exit_status
            &&& ended->0.sessions[index].tmux_session_id == if identity is Some {
                identity
            } else {
                read.tmux_session_id
            }
            &&& read.ownership_proof matches Some(proof) ==> (read.command matches Some(command) ==> {
                &&& restart_subject(ended->0, id) is Ok
                &&& restart_subject(ended->0, id)->Ok_0.1 == command
                &&& restart_subject(ended->0, id)->Ok_0.0.ownership_proof == proof
                &&& restart_subject(ended->0, id)->Ok_0.0.record == ended->0.sessions[index]
            })
        }),
{
    let read = state.sessions[index];
    marking_changes_status_and_incarnation(state, read, identity, index);
    let marked = stopping_state(state, read, identity)->0;
    lemma_still_recorded(state, marked, id, index);
    ending_notes_when_and_how(marked, read, exit_status, now, index);
    let ended = ended_state(marked, read, exit_status, now)->0;
    lemma_still_recorded(marked, ended, id, index);
    lemma_recorded(ended, id, index);
}

/// Reserving a new incarnation clears what was known of the old one. Nothing
/// else changes.
pub proof fn reserving_clears_the_old_incarnation(state: StateView, read: RecordView, index: int)
    requires
        recorded(state, read.id, index),
    ensures
        reserved_state(state, read) is Some <==> state.sessions[index] == read,
        reserved_state(state, read) matches Some(next) ==> {
            let reserved = next.sessions[index];
            &&& rest_kept(state, next, index)
            &&& same_workload(read, reserved)
            &&& reserved.status == SessionStatus::Creating
            &&& reserved.tmux_session_id is None
            &&& reserved.closed_at is None
            &&& reserved.exit_status is None
            &&& reserved.last_used_at == read.last_used_at
        },
{
    lemma_recorded(state, read.id, index);
}

/// A workload that was found or made to run is noted as running, as used, and
/// as the incarnation that runs. Nothing else changes.
pub proof fn promoting_notes_the_running_incarnation(
    state: StateView,
    read: RecordView,
    identity: TmuxSessionId,
    now: Timestamp,
    index: int,
)
    requires
        recorded(state, read.id, index),
    ensures
        promoted_state(state, read, identity, now) is Some <==> state.sessions[index] == read,
        promoted_state(state, read, identity, now) matches Some(next) ==> {
            let running = next.sessions[index];
            &&& rest_kept(state, next, index)
            &&& same_workload(read, running)
            &&& running.status == SessionStatus::Running
            &&& running.tmux_session_id == Some(identity)
            &&& running.closed_at is None
            &&& running.exit_status is None
            &&& running.last_used_at == now
        },
{
    lemma_recorded(state, read.id, index);
}

/// A restarted workload is what it was, and can be opened, stopped and
/// restarted with the proof of ownership and the command that it had.
pub proof fn a_restarted_workload_is_still_owned(
    state: StateView,
    id: SessionId,
    index: int,
    identity: TmuxSessionId,
    now: Timestamp,
)
    requires
        recorded(state, id, index),
    ensures
        ({
            let read = state.sessions[index];
            let reserved = reserved_state(state, read);
            let running = promoted_state(reserved->0, reserved->0.sessions[index], identity, now);
            &&& reserved is Some
            &&& running is Some
            &&& recorded(running->0, id, index)
            &&& rest_kept(state, running->0, index)
            &&& same_workload(read, running->0.sessions[index])
            &&& running->0.sessions[index].status == SessionStatus::Running
            &&& running->0.sessions[index].tmux_session_id == Some(identity)
            &&& running->0.sessions[index].closed_at is None
            &&& running->0.sessions[index].exit_status is None
            &&& running->0.sessions[index].last_used_at == now
            &&& read.ownership_proof matches Some(proof) ==> {
                &&& stop_subject(running->0, id) is Ok
                &&& stop_subject(running->0, id)->Ok_0.ownership_proof == proof
                &&& stop_subject(running->0, id)->Ok_0.record == running->0.sessions[index]
                &&& open_subject(running->0, id) is Ok
                &&& open_subject(running->0, id)->Ok_0.ownership_proof == proof
                &&& open_subject(running->0, id)->Ok_0.record == running->0.sessions[index]
                &&& read.command matches Some(command) ==> {
                    &&& restart_subject(running->0, id) is Ok
                    &&& restart_subject(running->0, id)->Ok_0.1 == command
                }
            }
        }),
{
    let read = state.sessions[index];
    reserving_clears_the_old_incarnation(state, read, index);
    let reserved = reserved_state(state, read)->0;
    lemma_still_recorded(state, reserved, id, index);
    promoting_notes_the_running_incarnation(
        reserved,
        reserved.sessions[index],
        identity,
        now,
        index,
    );
    let running = promoted_state(reserved, reserved.sessions[index], identity, now)->0;
    lemma_still_recorded(reserved, running, id, index);
    lemma_recorded(running, id, index);
}

/// Opening a workload notes when it was used and which incarnation was seen.
/// Nothing else changes.
pub proof fn opening_notes_the_use(
    state: StateView,
    read: RecordView,
    identity: TmuxSessionId,
    now: Timestamp,
    index: int,
)
    requires
        recorded(state, read.id, index),
    ensures
        used_state(state, read, identity, now) is Some <==> state.sessions[index] == read,
        used_state(state, read, identity, now) matches Some(next) ==> {
            let used = next.sessions[index];
            &&& rest_kept(state, next, index)
            &&& same_workload(read, used)
            &&& used.status == read.status
            &&& used.tmux_session_id == Some(identity)
            &&& used.last_used_at == now
            &&& used.closed_at == read.closed_at
            &&& used.exit_status == read.exit_status
        },
{
    lemma_recorded(state, read.id, index);
}

/// A look at a workload never makes it another one. One that is seen running is
/// noted as running with the incarnation that was seen, if it was expected to
/// run; one that has ended or is gone is noted as ended, with the first instant
/// at which that was known. A removed one stays removed.
pub proof fn looking_brings_the_record_in_line(
    state: StateView,
    read: RecordView,
    observed: WorkloadState,
    now: Timestamp,
    index: int,
)
    requires
        recorded(state, read.id, index),
        state.sessions[index] == read,
        reconciliation(read, observed) is Ok,
    ensures
        ({
            let change = reconciliation(read, observed)->Ok_0;
            let next = reconciled_state(state, read, change, now);
            let seen = next->0.sessions[index];
            &&& next is Some
            &&& rest_kept(state, next->0, index)
            &&& same_workload(read, seen)
            &&& seen.last_used_at == read.last_used_at
            &&& read.status == SessionStatus::Removed ==> next->0 == state
            &&& read.status != SessionStatus::Removed ==> match observed {
                WorkloadState::Running { identity, .. } => if read.status == SessionStatus::Creating
                    || read.status == SessionStatus::Running {
                    &&& seen.status == SessionStatus::Running
                    &&& seen.tmux_session_id == Some(identity)
                    &&& seen.closed_at is None
                    &&& seen.exit_status is None
                } else {
                    next->0 == state
                },
                WorkloadState::Ended { identity, exit_status } => {
                    &&& seen.status == SessionStatus::Ended
                    &&& seen.tmux_session_id == Some(identity)
                    &&& seen.exit_status == exit_status
                    &&& seen.closed_at == Some(
                        match read.closed_at {
                            Some(at) => at,
                            None => now,
                        },
                    )
                },
                WorkloadState::Missing => {
                    &&& seen.status == SessionStatus::Ended
                    &&& seen.tmux_session_id == read.tmux_session_id
                    &&& seen.exit_status is None
                    &&& seen.closed_at == Some(
                        match read.closed_at {
                            Some(at) => at,
                            None => now,
                        },
                    )
                },
                WorkloadState::Unknown => false,
            }
        }),
{
    lemma_recorded(state, read.id, index);
    assert(state.sessions.update(index, read) =~= state.sessions);
}

/// A record that changed since it was read is not brought in line.
pub proof fn changed_records_are_not_brought_in_line(
    state: StateView,
    read: RecordView,
    observed: WorkloadState,
    now: Timestamp,
    index: int,
)
    requires
        recorded(state, read.id, index),
        state.sessions[index] != read,
        reconciliation(read, observed) is Ok,
    ensures
        ({
            let next = reconciled_state(state, read, reconciliation(read, observed)->Ok_0, now);
            next is None || next == Some(state)
        }),
{
    lemma_recorded(state, read.id, index);
}

/// Removing a workload notes that and when, leaves what it is alone, and takes it
/// out of every group.
pub proof fn removing_notes_the_removal(
    state: StateView,
    read: RecordView,
    now: Timestamp,
    index: int,
)
    requires
        recorded(state, read.id, index),
    ensures
        removed_state(state, read, now) is Some <==> state.sessions[index] == read,
        removed_state(state, read, now) matches Some(next) ==> {
            let removed = next.sessions[index];
            &&& others_kept(state, next, index)
            &&& same_workload(read, removed)
            &&& removed.status == SessionStatus::Removed
            &&& removed.tmux_session_id == read.tmux_session_id
            &&& removed.exit_status == read.exit_status
            &&& removed.last_used_at == now
            &&& removed.closed_at == Some(
                match read.closed_at {
                    Some(at) => at,
                    None => now,
                },
            )
            &&& next.groups == groups_without(state.groups, seq![read.id])
        },
{
    lemma_recorded(state, read.id, index);
    groups_lose_only_removed_sessions(state.groups, seq![read.id]);
}

/// The groups of other orchestrators than the removed ones, each without the
/// workers that were removed.
pub open spec fn groups_without(groups: Seq<GroupView>, removed: Seq<SessionId>) -> Seq<GroupView> {
    groups.filter(|group: GroupView| !removed.contains(group.orchestrator)).map_values(
        |group: GroupView|
            GroupView {
                id: group.id,
                title: group.title,
                orchestrator: group.orchestrator,
                workers: group.workers.filter(
                    |member: MemberView| !removed.contains(member.session_id),
                ),
            },
    )
}

/// What remains of the members of a group are exactly those whose session was
/// not removed, unchanged and in their order.
pub proof fn members_lose_only_removed_sessions(members: Seq<MemberView>, removed: Seq<SessionId>)
    ensures
        remaining_members(members, removed) == members.filter(
            |member: MemberView| !removed.contains(member.session_id),
        ),
        forall|i: int|
            0 <= i < members.len() && !removed.contains((#[trigger] members[i]).session_id)
                ==> remaining_members(members, removed).contains(members[i]),
        forall|member: MemberView| #[trigger]
            remaining_members(members, removed).contains(member) ==> members.contains(member)
                && !removed.contains(member.session_id),
        (forall|i: int|
            0 <= i < members.len() ==> !removed.contains((#[trigger] members[i]).session_id))
            ==> remaining_members(members, removed) == members,
    decreases members.len(),
{
    let wanted = |member: MemberView| !removed.contains(member.session_id);
    reveal(Seq::filter);
    if members.len() > 0 {
        let front = members.drop_last();
        let kept = remaining_members(front, removed);
        let all = remaining_members(members, removed);
        members_lose_only_removed_sessions(front, removed);
        assert(all == members.filter(wanted));
        assert forall|i: int|
            0 <= i < members.len() && !removed.contains((#[trigger] members[i]).session_id) implies
            all.contains(members[i]) by {
            if i < front.len() {
                assert(front[i] == members[i]);
                let k = choose|k: int| 0 <= k < kept.len() && kept[k] == members[i];
                assert(all[k] == members[i]);
            } else {
                assert(all.last() == members[i]);
            }
        }
        assert forall|member: MemberView| #[trigger] all.contains(member) implies members.contains(
            member,
        ) && !removed.contains(member.session_id) by {
            let k = choose|k: int| 0 <= k < all.len() && all[k] == member;
            if k < kept.len() {
                assert(kept[k] == member);
                assert(kept.contains(member));
                let j = choose|j: int| 0 <= j < front.len() && front[j] == member;
                assert(members[j] == member);
            } else {
                assert(members[members.len() - 1] == member);
            }
        }
        if forall|i: int|
            0 <= i < members.len() ==> !removed.contains((#[trigger] members[i]).session_id) {
            assert forall|i: int| 0 <= i < front.len() implies !removed.contains(
                (#[trigger] front[i]).session_id,
            ) by {
                assert(front[i] == members[i]);
            }
            assert(!removed.contains(members[members.len() - 1].session_id));
            assert(all =~= members);
        }
    } else {
        assert(members.filter(wanted) =~= Seq::empty());
        assert(members =~= Seq::empty());
    }
}

/// What remains of groups are those whose orchestrator was not removed, in their
/// order, with the same identifier, title and orchestrator, and with exactly
/// those workers that were not removed.
pub proof fn groups_lose_only_removed_sessions(groups: Seq<GroupView>, removed: Seq<SessionId>)
    ensures
        remaining_groups(groups, removed) == groups_without(groups, removed),
        forall|i: int|
            0 <= i < groups.len() && !removed.contains((#[trigger] groups[i]).orchestrator)
                ==> exists|k: int|
                0 <= k < remaining_groups(groups, removed).len() && (
                #[trigger] remaining_groups(groups, removed)[k]).id == groups[i].id
                    && remaining_groups(groups, removed)[k].title == groups[i].title
                    && remaining_groups(groups, removed)[k].orchestrator == groups[i].orchestrator
                    && remaining_groups(groups, removed)[k].workers == groups[i].workers.filter(
                    |member: MemberView| !removed.contains(member.session_id),
                ),
    decreases groups.len(),
{
    let wanted = |group: GroupView| !removed.contains(group.orchestrator);
    let rest = |group: GroupView|
        GroupView {
            id: group.id,
            title: group.title,
            orchestrator: group.orchestrator,
            workers: group.workers.filter(
                |member: MemberView| !removed.contains(member.session_id),
            ),
        };
    reveal(Seq::filter);
    let all = remaining_groups(groups, removed);
    if groups.len() > 0 {
        let front = groups.drop_last();
        let last = groups.last();
        let kept = remaining_groups(front, removed);
        groups_lose_only_removed_sessions(front, removed);
        members_lose_only_removed_sessions(last.workers, removed);
        assert(groups.filter(wanted) == if wanted(last) {
            front.filter(wanted).push(last)
        } else {
            front.filter(wanted)
        });
        if wanted(last) {
            assert(all.last() == rest(last));
            assert(front.filter(wanted).push(last).map_values(rest) =~= front.filter(
                wanted,
            ).map_values(rest).push(rest(last)));
        }
        assert(all =~= groups_without(groups, removed));
        assert forall|i: int|
            0 <= i < groups.len() && !removed.contains(
                (#[trigger] groups[i]).orchestrator,
            ) implies exists|k: int|
            0 <= k < all.len() && (#[trigger] all[k]).id == groups[i].id && all[k].title
                == groups[i].title && all[k].orchestrator == groups[i].orchestrator
                && all[k].workers == groups[i].workers.filter(
                |member: MemberView| !removed.contains(member.session_id),
            ) by {
            if i < front.len() {
                assert(front[i] == groups[i]);
                let k = choose|k: int|
                    0 <= k < kept.len() && (#[trigger] kept[k]).id == groups[i].id && kept[k].title
                        == groups[i].title && kept[k].orchestrator == groups[i].orchestrator
                        && kept[k].workers == groups[i].workers.filter(
                        |member: MemberView| !removed.contains(member.session_id),
                    );
                assert(all[k] == kept[k]);
            } else {
                assert(all[all.len() - 1] == rest(last));
            }
        }
    } else {
        assert(all =~= groups_without(groups, removed));
    }
}

/// A workload with a proof of ownership can be stopped until it is closed, opened
/// while it runs, looked at always, restarted with its command until it is
/// removed, and removed once it has ended. Otherwise the refusal says why.
pub proof fn what_can_be_done_with_a_workload(state: StateView, id: SessionId, index: int)
    requires
        recorded(state, id, index),
    ensures
        ({
            let read = state.sessions[index];
            let closed = read.status == SessionStatus::Ended || read.status
                == SessionStatus::Removed;
            &&& closed ==> stop_subject(state, id) == Err::<SubjectView, CloseOwnedError>(
                CloseOwnedError::AlreadyClosed(id),
            )
            &&& read.status != SessionStatus::Running ==> open_subject(state, id) == Err::<
                SubjectView,
                CloseOwnedError,
            >(
                CloseOwnedError::InvalidStatus {
                    id,
                    operation: Operation::Opened,
                    status: read.status,
                },
            )
            &&& read.status == SessionStatus::Removed ==> remove_choice(state, id) == Ok::<
                RemoveChoice,
                CloseOwnedError,
            >(RemoveChoice::Done)
            &&& match read.ownership_proof {
                None => {
                    let missing = CloseOwnedError::MissingOwnershipProof(id);
                    &&& !closed ==> stop_subject(state, id) == Err::<SubjectView, CloseOwnedError>(
                        missing,
                    )
                    &&& read.status == SessionStatus::Running ==> open_subject(state, id) == Err::<
                        SubjectView,
                        CloseOwnedError,
                    >(missing)
                    &&& observe_subject(state, id) == Err::<SubjectView, CloseOwnedError>(missing)
                    &&& restart_subject(state, id) == Err::<
                        (SubjectView, Seq<char>),
                        CloseOwnedError,
                    >(missing)
                    &&& read.status != SessionStatus::Removed ==> remove_choice(state, id) == Ok::<
                        RemoveChoice,
                        CloseOwnedError,
                    >(RemoveChoice::Forget)
                },
                Some(ownership_proof) => {
                    let subject = SubjectView { record: read, ownership_proof };
                    &&& !closed ==> stop_subject(state, id) == Ok::<SubjectView, CloseOwnedError>(
                        subject,
                    )
                    &&& read.status == SessionStatus::Running ==> open_subject(state, id) == Ok::<
                        SubjectView,
                        CloseOwnedError,
                    >(subject)
                    &&& observe_subject(state, id) == Ok::<SubjectView, CloseOwnedError>(subject)
                    &&& read.status == SessionStatus::Removed ==> restart_subject(state, id)
                        == Err::<(SubjectView, Seq<char>), CloseOwnedError>(
                        CloseOwnedError::InvalidStatus {
                            id,
                            operation: Operation::Restarted,
                            status: SessionStatus::Removed,
                        },
                    )
                    &&& read.status != SessionStatus::Removed ==> restart_subject(state, id)
                        == match read.command {
                        Some(command) => Ok::<(SubjectView, Seq<char>), CloseOwnedError>(
                            (subject, command),
                        ),
                        None => Err(CloseOwnedError::MissingCommand(id)),
                    }
                    &&& read.status == SessionStatus::Ended ==> remove_choice(state, id) == Ok::<
                        RemoveChoice,
                        CloseOwnedError,
                    >(RemoveChoice::Inspect(subject))
                    &&& !closed ==> remove_choice(state, id) == Err::<
                        RemoveChoice,
                        CloseOwnedError,
                    >(
                        CloseOwnedError::InvalidStatus {
                            id,
                            operation: Operation::Removed,
                            status: read.status,
                        },
                    )
                },
            }
        }),
{
    lemma_recorded(state, id, index);
}

/// The record expects the incarnation, or none in particular.
pub open spec fn expected(record: RecordView, identity: TmuxSessionId) -> bool {
    record.tmux_session_id is None || record.tmux_session_id == Some(identity)
}

/// An incarnation that the record expects is stopped, opened, looked at and,
/// once it has ended, replaced or removed. A workload that is gone is finalized
/// without closing anything.
pub proof fn expected_incarnations_are_acted_on(
    record: RecordView,
    identity: TmuxSessionId,
    attached: u32,
    exit_status: Option<i32>,
)
    ensures
        ({
            let running = WorkloadState::Running { identity, attached };
            let ended = WorkloadState::Ended { identity, exit_status };
            let gone = WorkloadState::Missing;
            &&& expected(record, identity) ==> {
                &&& stop_identity(record, running) == Ok::<Option<TmuxSessionId>, CloseOwnedError>(
                    Some(identity),
                )
                &&& stop_identity(record, ended) == Ok::<Option<TmuxSessionId>, CloseOwnedError>(
                    Some(identity),
                )
                &&& open_identity(record, running) == Ok::<TmuxSessionId, CloseOwnedError>(identity)
                &&& remove_identity(record, ended) == Ok::<Option<TmuxSessionId>, CloseOwnedError>(
                    Some(identity),
                )
                &&& restart_choice(record, ended) == Ok::<RestartChoice, CloseOwnedError>(
                    RestartChoice::Recheck(identity),
                )
                &&& reconciliation(record, ended) == Ok::<Reconciliation, CloseOwnedError>(
                    Reconciliation::End { identity: Some(identity), exit_status },
                )
                &&& reconciliation(record, running) == Ok::<Reconciliation, CloseOwnedError>(
                    if record.status == SessionStatus::Creating || record.status
                        == SessionStatus::Running {
                        Reconciliation::Run { identity }
                    } else {
                        Reconciliation::Keep
                    },
                )
            }
            &&& stop_identity(record, gone) == Ok::<Option<TmuxSessionId>, CloseOwnedError>(None)
            &&& remove_identity(record, gone) == Ok::<Option<TmuxSessionId>, CloseOwnedError>(None)
            &&& reconciliation(record, gone) == Ok::<Reconciliation, CloseOwnedError>(
                Reconciliation::End { identity: None, exit_status: None },
            )
            &&& restart_choice(record, running) == if record.status == SessionStatus::Creating
                || record.tmux_session_id == Some(identity) {
                Ok::<RestartChoice, CloseOwnedError>(RestartChoice::Promote(identity))
            } else {
                Err(CloseOwnedError::ConcurrentModification(record.id))
            }
            &&& restart_choice(record, gone) == if record.status == SessionStatus::Creating
                || record.status == SessionStatus::Ended {
                Ok::<RestartChoice, CloseOwnedError>(RestartChoice::Reserve)
            } else {
                Err(
                    CloseOwnedError::InvalidStatus {
                        id: record.id,
                        operation: Operation::Restarted,
                        status: record.status,
                    },
                )
            }
        }),
{
}

/// An incarnation that the record does not expect is refused, and so is one in a
/// state in which the operation makes no sense.
pub proof fn unexpected_incarnations_are_refused(
    record: RecordView,
    identity: TmuxSessionId,
    attached: u32,
    exit_status: Option<i32>,
)
    ensures
        ({
            let running = WorkloadState::Running { identity, attached };
            let ended = WorkloadState::Ended { identity, exit_status };
            let changed = CloseOwnedError::ConcurrentModification(record.id);
            let not_open = CloseOwnedError::InvalidStatus {
                id: record.id,
                operation: Operation::Opened,
                status: SessionStatus::Ended,
            };
            &&& !expected(record, identity) ==> {
                &&& stop_identity(record, running) == Err::<Option<TmuxSessionId>, CloseOwnedError>(
                    changed,
                )
                &&& stop_identity(record, ended) == Err::<Option<TmuxSessionId>, CloseOwnedError>(
                    changed,
                )
                &&& open_identity(record, running) == Err::<TmuxSessionId, CloseOwnedError>(changed)
                &&& remove_identity(record, ended) == Err::<Option<TmuxSessionId>, CloseOwnedError>(
                    changed,
                )
                &&& restart_choice(record, ended) == Err::<RestartChoice, CloseOwnedError>(changed)
                &&& reconciliation(record, running) == Err::<Reconciliation, CloseOwnedError>(
                    changed,
                )
                &&& reconciliation(record, ended) == Err::<Reconciliation, CloseOwnedError>(changed)
            }
            &&& remove_identity(record, running) == Err::<Option<TmuxSessionId>, CloseOwnedError>(
                changed,
            )
            &&& open_identity(record, ended) == Err::<TmuxSessionId, CloseOwnedError>(not_open)
            &&& open_identity(record, WorkloadState::Missing) == Err::<
                TmuxSessionId,
                CloseOwnedError,
            >(not_open)
            &&& open_identity(record, WorkloadState::Unknown) == Err::<
                TmuxSessionId,
                CloseOwnedError,
            >(CloseOwnedError::WorkloadUnknown(record.id))
            &&& restart_choice(record, WorkloadState::Unknown) == Err::<
                RestartChoice,
                CloseOwnedError,
            >(CloseOwnedError::WorkloadUnknown(record.id))
            &&& remove_identity(record, WorkloadState::Unknown) == Err::<
                Option<TmuxSessionId>,
                CloseOwnedError,
            >(CloseOwnedError::WorkloadUnknown(record.id))
            &&& reconciliation(record, WorkloadState::Unknown) == Err::<
                Reconciliation,
                CloseOwnedError,
            >(CloseOwnedError::WorkloadUnknown(record.id))
        }),
{
}

/// The second look goes on with the incarnation that the first one saw and with
/// no other. Its exit status is kept where it has ended.
pub proof fn second_looks_agree_with_the_first(
    record: RecordView,
    identity: TmuxSessionId,
    seen: TmuxSessionId,
    attached: u32,
    exit_status: Option<i32>,
)
    ensures
        ({
            let id = record.id;
            let running = WorkloadState::Running { identity: seen, attached };
            let ended = WorkloadState::Ended { identity: seen, exit_status };
            let gone = WorkloadState::Missing;
            let changed = CloseOwnedError::ConcurrentModification(id);
            let unknown = CloseOwnedError::WorkloadUnknown(id);
            &&& stop_recheck(id, identity, running) == if seen == identity {
                Ok::<Option<Option<i32>>, CloseOwnedError>(Some(None))
            } else {
                Err(changed)
            }
            &&& stop_recheck(id, identity, ended) == if seen == identity {
                Ok::<Option<Option<i32>>, CloseOwnedError>(Some(exit_status))
            } else {
                Err(changed)
            }
            &&& stop_recheck(id, identity, gone) == Ok::<Option<Option<i32>>, CloseOwnedError>(None)
            &&& stop_recheck(id, identity, WorkloadState::Unknown) == Err::<
                Option<Option<i32>>,
                CloseOwnedError,
            >(unknown)
            &&& open_recheck(id, identity, running) == if seen == identity {
                None
            } else {
                Some(changed)
            }
            &&& open_recheck(id, identity, ended) == Some(changed)
            &&& open_recheck(id, identity, gone) == Some(changed)
            &&& open_recheck(id, identity, WorkloadState::Unknown) == Some(unknown)
            &&& restart_recheck(record, identity, ended) == if seen == identity {
                Ok::<bool, CloseOwnedError>(true)
            } else {
                Err(changed)
            }
            &&& restart_recheck(record, identity, running) == Err::<bool, CloseOwnedError>(changed)
            &&& restart_recheck(record, identity, WorkloadState::Unknown) == Err::<
                bool,
                CloseOwnedError,
            >(unknown)
            &&& restart_recheck(record, identity, gone) == if record.status
                == SessionStatus::Creating || record.status == SessionStatus::Ended {
                Ok::<bool, CloseOwnedError>(false)
            } else {
                Err(
                    CloseOwnedError::InvalidStatus {
                        id,
                        operation: Operation::Restarted,
                        status: record.status,
                    },
                )
            }
            &&& remove_recheck(id, identity, ended) == if seen == identity {
                Ok::<bool, CloseOwnedError>(true)
            } else {
                Err(changed)
            }
            &&& remove_recheck(id, identity, gone) == Ok::<bool, CloseOwnedError>(false)
            &&& remove_recheck(id, identity, running) == Err::<bool, CloseOwnedError>(changed)
            &&& remove_recheck(id, identity, WorkloadState::Unknown) == Err::<
                bool,
                CloseOwnedError,
            >(unknown)
        }),
{
}

/// What the backend reports is taken as it is, a failure to ask is told with the
/// session and its detail, and a workload counts as closed only if the backend
/// closed it.
pub proof fn answers_of_the_backend_are_taken_as_they_are(
    id: SessionId,
    inspection: Inspection,
    outcome: CloseOutcome,
)
    ensures
        match inspection {
            Inspection::Observed(state) => observation(id, inspection) == Ok::<
                WorkloadState,
                CloseOwnedError,
            >(state),
            Inspection::Failed(detail) => observation(id, inspection) == Err::<
                WorkloadState,
                CloseOwnedError,
            >(CloseOwnedError::Inspect { id, detail }),
            Inspection::Unconfigured(detail) => observation(id, inspection) == Err::<
                WorkloadState,
                CloseOwnedError,
            >(CloseOwnedError::BackendConfiguration { id, detail }),
        },
        close_error(id, outcome) is None <==> outcome is Closed,
        outcome is GuardRejected ==> close_error(id, outcome) == Some(
            CloseOwnedError::ConcurrentModification(id),
        ),
        outcome matches CloseOutcome::Failed(detail) ==> close_error(id, outcome) == Some(
            CloseOwnedError::Close { id, detail },
        ),
{
}

/// An entry of the trail tells the session, what was done, from and to which
/// status, when, and of which incarnation; of an end that was found, also how it
/// ended.
pub proof fn the_trail_tells_what_was_done(
    record: RecordView,
    action: AuditAction,
    from: SessionStatus,
    to: SessionStatus,
    at: Timestamp,
    identity: TmuxSessionId,
    exit_status: Option<i32>,
)
    ensures
        ({
            let entry = note_of(record, action, from, to, at);
            &&& entry.at == at
            &&& entry.session == record.id
            &&& entry.action == action
            &&& entry.from == Some(from)
            &&& entry.to == to
            &&& entry.incarnation == record.tmux_session_id
            &&& entry.exit_status == record.exit_status
        }),
        ({
            let seen = observed_record(
                record,
                Reconciliation::End { identity: Some(identity), exit_status },
            );
            &&& seen.id == record.id
            &&& seen.status == record.status
            &&& seen.tmux_session_id == Some(identity)
            &&& seen.exit_status == exit_status
        }),
        observed_record(record, Reconciliation::End { identity: None, exit_status }) == record,
        observed_record(record, Reconciliation::Run { identity }) == record,
        observed_record(record, Reconciliation::Keep) == record,
{
}

/// Metadata goes only if its workload is neither running nor unknown, it is
/// closed, and it was closed at least the retention ago.
pub proof fn metadata_goes_once_its_retention_is_over(
    record: RecordView,
    workload: WorkloadState,
    now: Timestamp,
    retention: int,
)
    requires
        now.valid(),
    ensures
        ({
            let verdict = eligibility(record, workload, now, retention);
            let closed = record.status == SessionStatus::Ended || record.status
                == SessionStatus::Removed;
            &&& verdict == CleanupEligibility::RemoveMetadata <==> {
                &&& workload is Missing || workload is Ended
                &&& closed
                &&& retention >= 0
                &&& -8_334_601_228_800 <= now.secs - retention <= 8_210_266_876_799
                &&& record.closed_at matches Some(at) && (at.secs < now.secs - retention || (at.secs
                    == now.secs - retention && at.nanos <= now.nanos))
            }
            &&& workload is Running ==> verdict == CleanupEligibility::KeepActive
            &&& workload is Unknown ==> verdict == CleanupEligibility::KeepUnknown
            &&& (workload is Missing || workload is Ended) && !closed ==> verdict
                == CleanupEligibility::KeepActive
            &&& (workload is Missing || workload is Ended) && closed ==> verdict
                == CleanupEligibility::RemoveMetadata || verdict == CleanupEligibility::KeepRecent
        }),
{
}

/// A record that was closed long enough ago for its metadata to go.
pub open spec fn outdated(record: RecordView, now: Timestamp, retention: int) -> bool {
    &&& record.status == SessionStatus::Ended || record.status == SessionStatus::Removed
    &&& retention >= 0
    &&& -8_334_601_228_800 <= now.secs - retention <= 8_210_266_876_799
    &&& record.closed_at matches Some(at) && (at.secs < now.secs - retention || (at.secs
        == now.secs - retention && at.nanos <= now.nanos))
}

/// A preview lists exactly the records whose retention is over, unchanged and
/// in their order; what goes by itself is what was removed thirty days ago or
/// before.
pub proof fn previews_list_what_may_go(records: Seq<RecordView>, now: Timestamp, retention: int)
    requires
        now.valid(),
    ensures
        prunable_records(records, now, retention) == records.filter(
            |record: RecordView| outdated(record, now, retention),
        ),
        expired_records(records, now) == records.filter(
            |record: RecordView|
                record.status == SessionStatus::Removed && outdated(record, now, 2_592_000),
        ),
    decreases records.len(),
{
    reveal(Seq::filter);
    if records.len() > 0 {
        previews_list_what_may_go(records.drop_last(), now, retention);
        metadata_goes_once_its_retention_is_over(
            records.last(),
            WorkloadState::Missing,
            now,
            retention,
        );
        metadata_goes_once_its_retention_is_over(
            records.last(),
            WorkloadState::Missing,
            now,
            2_592_000,
        );
    } else {
        assert(records.filter(|record: RecordView| outdated(record, now, retention))
            =~= Seq::empty());
    }
}

/// A candidate goes exactly if its record is still as it was and its retention
/// is over; the others are skipped. Each is told once, in its order.
pub proof fn candidates_go_if_they_are_unchanged(
    state: StateView,
    candidates: Seq<RecordView>,
    now: Timestamp,
    retention: int,
)
    requires
        now.valid(),
    ensures
        ({
            let gone = |candidate: RecordView|
                unchanged(state, candidate) && outdated(candidate, now, retention);
            let stays = |candidate: RecordView|
                !(unchanged(state, candidate) && outdated(candidate, now, retention));
            &&& sorted_candidates(state, candidates, now, retention, true) == candidates.filter(
                gone,
            ).map_values(|record: RecordView| record.id)
            &&& sorted_candidates(state, candidates, now, retention, false) == candidates.filter(
                stays,
            ).map_values(|record: RecordView| record.id)
        }),
    decreases candidates.len(),
{
    let gone = |candidate: RecordView|
        unchanged(state, candidate) && outdated(candidate, now, retention);
    let stays = |candidate: RecordView|
        !(unchanged(state, candidate) && outdated(candidate, now, retention));
    let of = |record: RecordView| record.id;
    reveal(Seq::filter);
    if candidates.len() > 0 {
        let front = candidates.drop_last();
        let last = candidates.last();
        candidates_go_if_they_are_unchanged(state, front, now, retention);
        metadata_goes_once_its_retention_is_over(last, WorkloadState::Missing, now, retention);
        find_record_finds(state.sessions, last.id);
        if unchanged(state, last) {
            let index = choose|index: int| #[trigger]
                recorded(state, last.id, index) && state.sessions[index] == last;
            lemma_recorded(state, last.id, index);
        } else {
            match find_record(state.sessions, last.id) {
                Some(index) => {
                    assert(recorded(state, last.id, index));
                },
                None => {},
            }
        }
        assert(front.filter(gone).push(last).map_values(of) =~= front.filter(gone).map_values(
            of,
        ).push(last.id));
        assert(front.filter(stays).push(last).map_values(of) =~= front.filter(stays).map_values(
            of,
        ).push(last.id));
    } else {
        assert(candidates.filter(gone).map_values(of) =~= Seq::empty());
        assert(candidates.filter(stays).map_values(of) =~= Seq::empty());
    }
}

/// The record of the session is exactly this one.
pub open spec fn unchanged(state: StateView, record: RecordView) -> bool {
    exists|index: int| #[trigger]
        recorded(state, record.id, index) && state.sessions[index] == record
}

/// Pruning leaves exactly the records of the sessions that were not pruned,
/// unchanged and in their order, and takes those that were out of every group.
pub proof fn pruning_leaves_the_other_sessions(state: StateView, removed: Seq<SessionId>)
    ensures
        ({
            let next = pruned_state(state, removed);
            &&& next.version == state.version
            &&& next.sessions == state.sessions.filter(
                |record: RecordView| !removed.contains(record.id),
            )
            &&& next.groups == groups_without(state.groups, removed)
        }),
{
    records_lose_only_removed_sessions(state.sessions, removed);
    groups_lose_only_removed_sessions(state.groups, removed);
}

/// What remains of records are exactly those whose session was not removed,
/// unchanged and in their order.
pub proof fn records_lose_only_removed_sessions(records: Seq<RecordView>, removed: Seq<SessionId>)
    ensures
        remaining_records(records, removed) == records.filter(
            |record: RecordView| !removed.contains(record.id),
        ),
    decreases records.len(),
{
    reveal(Seq::filter);
    if records.len() > 0 {
        records_lose_only_removed_sessions(records.drop_last(), removed);
    } else {
        assert(records.filter(|record: RecordView| !removed.contains(record.id))
            =~= Seq::empty());
    }
}

/// The sessions of records are their identifiers, one for each and in order.
pub proof fn sessions_of_records(records: Seq<RecordView>)
    ensures
        record_ids(records).len() == records.len(),
        forall|i: int|
            0 <= i < records.len() ==> #[trigger] record_ids(records)[i] == records[i].id,
{
}

} // verus!
