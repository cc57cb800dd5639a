//! Removing ended workloads, and pruning the history of closed ones.
//!
//! Metadata that goes away takes its place in orchestration groups with it, in
//! one step.

use vstd::prelude::*;

use crate::audit::{AuditAction, AuditEntry};
use crate::backend::WorkloadState;
use crate::clock::{seconds_of_days, try_days, Timestamp, LONGEST_SPAN};
use crate::lifecycle::{
    check_close, close_error, exact_position, find_exact, note, note_of, observation, observed,
    put_record, with_record, CloseOutcome, CloseOwnedError, ClosedWorkload, Inspection,
    LifecycleService, Operation, RemoveOwnedResult, Subject, SubjectView,
};
use crate::model::{SessionId, TmuxSessionId};
use crate::orchestration::{valid_group, valid_groups};
use crate::state::{
    find_record, group_views, member_views, record_views, same_identity, GroupView, MemberView,
    OrchestrationGroup, OrchestrationMember, RecordView, SessionRecord, SessionStatus, State,
    StateStore, StateView,
};
use crate::text::{decimal, numeral};

verus! {

/// Whether `id` is one of `ids`.
fn holds(ids: &Vec<SessionId>, id: SessionId) -> (r: bool)
    ensures
        r == ids@.contains(id),
{
    let mut i: usize = 0;
    while i < ids.len()
        invariant
            i <= ids@.len(),
            forall|j: int| 0 <= j < i ==> ids@[j] != id,
        decreases ids.len() - i,
    {
        if ids[i] == id {
            assert(ids@[i as int] == id);
            return true;
        }
        i += 1;
    }
    false
}

/// The members of sessions that were not removed, in their order.
pub open spec fn remaining_members(members: Seq<MemberView>, removed: Seq<SessionId>) -> Seq<
    MemberView,
>
    decreases members.len(),
{
    if members.len() == 0 {
        Seq::empty()
    } else {
        let front = remaining_members(members.drop_last(), removed);
        if removed.contains(members.last().session_id) {
            front
        } else {
            front.push(members.last())
        }
    }
}

/// The groups whose orchestrator was not removed, with the members that
/// remain, in their order.
pub open spec fn remaining_groups(groups: Seq<GroupView>, removed: Seq<SessionId>) -> Seq<GroupView>
    decreases groups.len(),
{
    if groups.len() == 0 {
        Seq::empty()
    } else {
        let front = remaining_groups(groups.drop_last(), removed);
        if removed.contains(groups.last().orchestrator) {
            front
        } else {
            front.push(
                GroupView {
                    workers: remaining_members(groups.last().workers, removed),
                    ..groups.last()
                },
            )
        }
    }
}

/// A group that has nothing to do with the removed sessions.
pub open spec fn free_of(group: GroupView, removed: Seq<SessionId>) -> bool {
    &&& !removed.contains(group.orchestrator)
    &&& forall|i: int|
        0 <= i < group.workers.len() ==> !removed.contains((#[trigger] group.workers[i]).session_id)
}

/// What remains of members is free of the removed sessions and valid.
proof fn lemma_remaining_members(members: Seq<MemberView>, removed: Seq<SessionId>)
    ensures
        remaining_members(members, removed).len() <= members.len(),
        forall|i: int|
            0 <= i < remaining_members(members, removed).len() ==> members.contains(
                #[trigger] remaining_members(members, removed)[i],
            ) && !removed.contains(remaining_members(members, removed)[i].session_id),
        (forall|i: int, j: int|
            0 <= i < j < members.len() ==> (#[trigger] members[i]).session_id != (
            #[trigger] members[j]).session_id) ==> (forall|i: int, j: int|
            0 <= i < j < remaining_members(members, removed).len() ==> (
            #[trigger] remaining_members(members, removed)[i]).session_id != (
            #[trigger] remaining_members(members, removed)[j]).session_id),
    decreases members.len(),
{
    if members.len() > 0 {
        let front = members.drop_last();
        let kept = remaining_members(front, removed);
        let all = remaining_members(members, removed);
        lemma_remaining_members(front, removed);
        assert forall|i: int| 0 <= i < all.len() implies members.contains(#[trigger] all[i])
            && !removed.contains(all[i].session_id) by {
            if i < kept.len() {
                assert(kept[i] == all[i]);
                let k = choose|k: int| 0 <= k < front.len() && front[k] == kept[i];
                assert(members[k] == all[i]);
            } else {
                assert(members[members.len() - 1] == all[i]);
            }
        }
        if forall|i: int, j: int|
            0 <= i < j < members.len() ==> (#[trigger] members[i]).session_id != (
            #[trigger] members[j]).session_id {
            assert forall|i: int, j: int| 0 <= i < j < front.len() implies (
            #[trigger] front[i]).session_id != (#[trigger] front[j]).session_id by {
                assert(members[i].session_id != members[j].session_id);
            }
            assert forall|i: int, j: int| 0 <= i < j < all.len() implies (
            #[trigger] all[i]).session_id != (#[trigger] all[j]).session_id by {
                assert(kept[i] == all[i]);
                if j < kept.len() {
                    assert(kept[j] == all[j]);
                } else {
                    let k = choose|k: int| 0 <= k < front.len() && front[k] == kept[i];
                    assert(members[k].session_id != members[members.len() - 1].session_id);
                }
            }
        }
    }
}

/// No group refers to a session that was removed, and valid groups stay valid.
pub proof fn remaining_groups_are_free_of_removed_sessions(
    groups: Seq<GroupView>,
    removed: Seq<SessionId>,
)
    ensures
        forall|i: int|
            0 <= i < remaining_groups(groups, removed).len() ==> free_of(
                #[trigger] remaining_groups(groups, removed)[i],
                removed,
            ),
        valid_groups(groups) ==> valid_groups(remaining_groups(groups, removed)),
    decreases groups.len(),
{
    if groups.len() > 0 {
        let front = groups.drop_last();
        let last = groups.last();
        let kept = remaining_groups(front, removed);
        let all = remaining_groups(groups, removed);
        remaining_groups_are_free_of_removed_sessions(front, removed);
        lemma_remaining_members(last.workers, removed);
        lemma_remaining_ids(front, removed);
        if valid_groups(groups) {
            assert forall|i: int| 0 <= i < front.len() implies valid_group(#[trigger] front[i]) by {
                assert(front[i] == groups[i]);
            }
            assert forall|i: int, j: int| 0 <= i < j < front.len() implies (#[trigger] front[i]).id
                != (#[trigger] front[j]).id by {
                assert(groups[i].id != groups[j].id);
            }
            assert(valid_group(groups[groups.len() - 1]));
            if !removed.contains(last.orchestrator) {
                let next = all.last();
                assert(valid_group(next)) by {
                    assert forall|i: int| 0 <= i < next.workers.len() implies (
                    #[trigger] next.workers[i]).session_id != next.orchestrator
                        && !next.workers[i].capabilities.none() by {
                        let k = choose|k: int|
                            0 <= k < last.workers.len() && last.workers[k] == next.workers[i];
                        assert(!last.workers[k].capabilities.none());
                    }
                }
                assert forall|i: int, j: int| 0 <= i < j < all.len() implies (#[trigger] all[i]).id
                    != (#[trigger] all[j]).id by {
                    assert(all[i] == kept[i]);
                    if j < kept.len() {
                        assert(all[j] == kept[j]);
                    } else {
                        let k = choose|k: int|
                            0 <= k < front.len() && (#[trigger] front[k]).id == kept[i].id;
                        assert(groups[k].id != groups[groups.len() - 1].id);
                    }
                }
                assert forall|i: int| 0 <= i < all.len() implies valid_group(#[trigger] all[i]) by {
                    if i < kept.len() {
                        assert(all[i] == kept[i]);
                    }
                }
            }
        }
        assert forall|i: int| 0 <= i < all.len() implies free_of(#[trigger] all[i], removed) by {
            if i < kept.len() {
                assert(all[i] == kept[i]);
            }
        }
    }
}

/// What remains are groups that were there.
proof fn lemma_remaining_ids(groups: Seq<GroupView>, removed: Seq<SessionId>)
    ensures
        remaining_groups(groups, removed).len() <= groups.len(),
        forall|i: int|
            0 <= i < remaining_groups(groups, removed).len() ==> exists|k: int|
                0 <= k < groups.len() && (#[trigger] groups[k]).id == (
                #[trigger] remaining_groups(groups, removed)[i]).id,
    decreases groups.len(),
{
    if groups.len() > 0 {
        let front = groups.drop_last();
        lemma_remaining_ids(front, removed);
        let kept = remaining_groups(front, removed);
        let all = remaining_groups(groups, removed);
        assert forall|i: int| 0 <= i < all.len() implies exists|k: int|
            0 <= k < groups.len() && (#[trigger] groups[k]).id == (#[trigger] all[i]).id by {
            if i < kept.len() {
                assert(all[i] == kept[i]);
                let k = choose|k: int|
                    0 <= k < front.len() && (#[trigger] front[k]).id == kept[i].id;
                assert(groups[k].id == all[i].id);
            } else {
                assert(groups[groups.len() - 1].id == all[i].id);
            }
        }
    }
}

/// The members of sessions that were not removed.
fn retain_members(members: &Vec<OrchestrationMember>, removed: &Vec<SessionId>) -> (kept: Vec<
    OrchestrationMember,
>)
    ensures
        member_views(kept@) == remaining_members(member_views(members@), removed@),
{
    let ghost all = member_views(members@);
    let mut kept: Vec<OrchestrationMember> = Vec::new();
    let mut i: usize = 0;
    assert(all.take(0) =~= Seq::empty());
    assert(member_views(kept@) =~= Seq::empty());
    while i < members.len()
        invariant
            i <= members@.len(),
            all == member_views(members@),
            member_views(kept@) == remaining_members(all.take(i as int), removed@),
        decreases members.len() - i,
    {
        assert(all.take(i + 1).drop_last() =~= all.take(i as int));
        assert(all.take(i + 1).last() == members@[i as int]@);
        if !holds(removed, members[i].session_id) {
            let ghost before = kept@;
            let member = members[i].clone();
            let ghost shown = member@;
            kept.push(member);
            assert(member_views(kept@) =~= member_views(before).push(shown));
        }
        i += 1;
    }
    assert(all.take(i as int) =~= all);
    kept
}

/// Takes removed sessions out of every group.
fn reconcile_orchestration_groups(state: &mut State, removed: &Vec<SessionId>)
    ensures
        final(state)@ == (StateView {
            groups: remaining_groups(old(state)@.groups, removed@),
            ..old(state)@
        }),
{
    let ghost all = state@.groups;
    let ghost before = state@;
    let mut kept: Vec<OrchestrationGroup> = Vec::new();
    let mut i: usize = 0;
    assert(all.take(0) =~= Seq::empty());
    assert(group_views(kept@) =~= Seq::empty());
    while i < state.orchestration_groups.len()
        invariant
            i <= state.orchestration_groups@.len(),
            state@ == before,
            before == old(state)@,
            all == group_views(state.orchestration_groups@),
            group_views(kept@) == remaining_groups(all.take(i as int), removed@),
        decreases state.orchestration_groups.len() - i,
    {
        let group = &state.orchestration_groups[i];
        assert(all.take(i + 1).drop_last() =~= all.take(i as int));
        assert(all.take(i + 1).last() == group@);
        if !holds(removed, group.orchestrator_session_id) {
            let ghost listed = kept@;
            let next = OrchestrationGroup {
                id: group.id.clone(),
                title: group.title.clone(),
                orchestrator_session_id: group.orchestrator_session_id,
                workers: retain_members(&group.workers, removed),
            };
            let ghost shown = next@;
            kept.push(next);
            assert(group_views(kept@) =~= group_views(listed).push(shown));
        }
        i += 1;
    }
    assert(all.take(i as int) =~= all);
    state.orchestration_groups = kept;
    assert(state@.sessions =~= before.sessions);
}

/// The step that begins a removal, or why nothing is removed.
pub enum RemoveChoice {
    /// The workload was removed already.
    Done,
    /// Metadata without a proof is forgotten without asking any backend.
    Forget,
    /// The ended workload is looked at first.
    Inspect(SubjectView),
}

/// The step that begins a removal, or why nothing is removed.
pub open spec fn remove_choice(state: StateView, id: SessionId) -> Result<
    RemoveChoice,
    CloseOwnedError,
> {
    match find_record(state.sessions, id) {
        None => Err(CloseOwnedError::UnknownSession(id)),
        Some(index) => {
            let record = state.sessions[index];
            if record.status == SessionStatus::Removed {
                Ok(RemoveChoice::Done)
            } else {
                match record.ownership_proof {
                    None => Ok(RemoveChoice::Forget),
                    Some(ownership_proof) => if record.status != SessionStatus::Ended {
                        Err(
                            CloseOwnedError::InvalidStatus {
                                id,
                                operation: Operation::Removed,
                                status: record.status,
                            },
                        )
                    } else {
                        Ok(RemoveChoice::Inspect(SubjectView { record, ownership_proof }))
                    },
                }
            }
        },
    }
}

/// The ended incarnation to look at again, none if the workload is gone, or why
/// nothing is removed.
pub open spec fn remove_identity(record: RecordView, observed: WorkloadState) -> Result<
    Option<TmuxSessionId>,
    CloseOwnedError,
> {
    match observed {
        WorkloadState::Unknown => Err(CloseOwnedError::WorkloadUnknown(record.id)),
        WorkloadState::Missing => Ok(None),
        WorkloadState::Ended { identity, .. } => if record.tmux_session_id is None
            || record.tmux_session_id == Some(identity) {
            Ok(Some(identity))
        } else {
            Err(CloseOwnedError::ConcurrentModification(record.id))
        },
        WorkloadState::Running { .. } => Err(CloseOwnedError::ConcurrentModification(record.id)),
    }
}

/// Whether the second look leaves an incarnation to close, or why nothing is
/// removed.
pub open spec fn remove_recheck(id: SessionId, identity: TmuxSessionId, observed: WorkloadState) -> Result<
    bool,
    CloseOwnedError,
> {
    match observed {
        WorkloadState::Unknown => Err(CloseOwnedError::WorkloadUnknown(id)),
        WorkloadState::Missing => Ok(false),
        WorkloadState::Ended { identity: current, .. } => if current == identity {
            Ok(true)
        } else {
            Err(CloseOwnedError::ConcurrentModification(id))
        },
        WorkloadState::Running { .. } => Err(CloseOwnedError::ConcurrentModification(id)),
    }
}

/// The state in which the workload is removed and no group refers to it, if the
/// record is still exactly as it was read.
pub open spec fn removed_state(state: StateView, record: RecordView, now: Timestamp) -> Option<
    StateView,
> {
    match exact_position(state, record) {
        Some(index) => {
            let next = with_record(
                state,
                index,
                RecordView {
                    status: SessionStatus::Removed,
                    last_used_at: now,
                    closed_at: if record.closed_at is Some {
                        record.closed_at
                    } else {
                        Some(now)
                    },
                    ..record
                },
            );
            Some(StateView { groups: remaining_groups(next.groups, seq![record.id]), ..next })
        },
        None => None,
    }
}

/// A removal that waits for the first inspection.
#[derive(Debug, PartialEq, Eq)]
pub struct RemoveInspection {
    subject: Subject,
}

/// A removal that waits for the second inspection.
#[derive(Debug, PartialEq, Eq)]
pub struct RemoveRecheck {
    subject: Subject,
    identity: TmuxSessionId,
}

/// The permission to close an ended incarnation.
#[derive(Debug, PartialEq, Eq)]
pub struct RemoveClose {
    subject: Subject,
    identity: TmuxSessionId,
}

/// A removal that waits to be saved.
#[derive(Debug, PartialEq, Eq)]
pub struct RemoveCommit {
    record: SessionRecord,
    workload: ClosedWorkload,
}

/// How a removal begins.
#[derive(Debug, PartialEq, Eq)]
pub enum RemoveStart {
    Done(RemoveOwnedResult),
    Commit(RemoveCommit),
    Inspect(RemoveInspection),
}

/// What follows after the first inspection.
#[derive(Debug, PartialEq, Eq)]
pub enum RemoveStep {
    Recheck(RemoveRecheck),
    Commit(RemoveCommit),
}

/// What follows after the second inspection.
#[derive(Debug, PartialEq, Eq)]
pub enum RemoveAct {
    Close(RemoveClose),
    Commit(RemoveCommit),
}

impl RemoveInspection {
    /// The workload to remove.
    pub closed spec fn subject_view(self) -> SubjectView {
        self.subject@
    }

    /// The workload to remove.
    pub fn subject(&self) -> (subject: &Subject)
        ensures
            subject@ == self.subject_view(),
    {
        &self.subject
    }

    /// Takes the first inspection.
    pub fn inspected(self, inspection: Inspection) -> (r: Result<RemoveStep, CloseOwnedError>)
        ensures
            match observation(self.subject_view().record.id, inspection) {
                Err(error) => r == Err::<RemoveStep, CloseOwnedError>(error),
                Ok(observed) => match remove_identity(self.subject_view().record, observed) {
                    Err(error) => r == Err::<RemoveStep, CloseOwnedError>(error),
                    Ok(Some(identity)) => r is Ok && r->Ok_0 is Recheck
                        && r->Ok_0->Recheck_0.subject_view() == self.subject_view()
                        && r->Ok_0->Recheck_0.identity_view() == identity,
                    Ok(None) => r is Ok && r->Ok_0 is Commit && r->Ok_0->Commit_0.record_view()
                        == self.subject_view().record && r->Ok_0->Commit_0.workload_view()
                        == ClosedWorkload::Missing,
                },
            },
    {
        let record = self.subject.record();
        let id = record.id;
        let state = match observed(id, inspection) {
            Ok(state) => state,
            Err(error) => {
                return Err(error);
            },
        };
        match state {
            WorkloadState::Unknown => Err(CloseOwnedError::WorkloadUnknown(id)),
            WorkloadState::Missing => Ok(
                RemoveStep::Commit(
                    RemoveCommit { record: record.clone(), workload: ClosedWorkload::Missing },
                ),
            ),
            WorkloadState::Ended { identity, .. } => {
                if record.tmux_session_id.is_none() || same_identity(
                    record.tmux_session_id,
                    Some(identity),
                ) {
                    Ok(RemoveStep::Recheck(RemoveRecheck { subject: self.subject, identity }))
                } else {
                    Err(CloseOwnedError::ConcurrentModification(id))
                }
            },
            WorkloadState::Running { .. } => Err(CloseOwnedError::ConcurrentModification(id)),
        }
    }
}

impl RemoveRecheck {
    /// The workload to remove.
    pub closed spec fn subject_view(self) -> SubjectView {
        self.subject@
    }

    /// The ended incarnation that was seen.
    pub closed spec fn identity_view(self) -> TmuxSessionId {
        self.identity
    }

    /// The workload to remove.
    pub fn subject(&self) -> (subject: &Subject)
        ensures
            subject@ == self.subject_view(),
    {
        &self.subject
    }

    /// Takes the second inspection. Only an incarnation that both inspections
    /// saw ended may be closed.
    pub fn inspected(self, inspection: Inspection) -> (r: Result<RemoveAct, CloseOwnedError>)
        ensures
            match observation(self.subject_view().record.id, inspection) {
                Err(error) => r == Err::<RemoveAct, CloseOwnedError>(error),
                Ok(observed) => match remove_recheck(
                    self.subject_view().record.id,
                    self.identity_view(),
                    observed,
                ) {
                    Err(error) => r == Err::<RemoveAct, CloseOwnedError>(error),
                    Ok(true) => r is Ok && r->Ok_0 is Close && r->Ok_0->Close_0.subject_view()
                        == self.subject_view() && r->Ok_0->Close_0.identity_view()
                        == self.identity_view(),
                    Ok(false) => r is Ok && r->Ok_0 is Commit && r->Ok_0->Commit_0.record_view()
                        == self.subject_view().record && r->Ok_0->Commit_0.workload_view()
                        == ClosedWorkload::Terminated,
                },
            },
    {
        let record = self.subject.record();
        let id = record.id;
        let state = match observed(id, inspection) {
            Ok(state) => state,
            Err(error) => {
                return Err(error);
            },
        };
        match state {
            WorkloadState::Unknown => Err(CloseOwnedError::WorkloadUnknown(id)),
            WorkloadState::Missing => Ok(
                RemoveAct::Commit(
                    RemoveCommit { record: record.clone(), workload: ClosedWorkload::Terminated },
                ),
            ),
            WorkloadState::Ended { identity, .. } => {
                if identity == self.identity {
                    Ok(RemoveAct::Close(RemoveClose { subject: self.subject, identity }))
                } else {
                    Err(CloseOwnedError::ConcurrentModification(id))
                }
            },
            WorkloadState::Running { .. } => Err(CloseOwnedError::ConcurrentModification(id)),
        }
    }
}

impl RemoveClose {
    /// The workload to remove.
    pub closed spec fn subject_view(self) -> SubjectView {
        self.subject@
    }

    /// The ended incarnation to close.
    pub closed spec fn identity_view(self) -> TmuxSessionId {
        self.identity
    }

    /// The workload to remove.
    pub fn subject(&self) -> (subject: &Subject)
        ensures
            subject@ == self.subject_view(),
    {
        &self.subject
    }

    /// The ended incarnation to close.
    pub fn identity(&self) -> (identity: TmuxSessionId)
        ensures
            identity == self.identity_view(),
    {
        self.identity
    }

    /// Takes the answer of the backend.
    pub fn closed(self, outcome: CloseOutcome) -> (r: Result<RemoveCommit, CloseOwnedError>)
        ensures
            match close_error(self.subject_view().record.id, outcome) {
                Some(error) => r == Err::<RemoveCommit, CloseOwnedError>(error),
                None => r is Ok && r->Ok_0.record_view() == self.subject_view().record
                    && r->Ok_0.workload_view() == ClosedWorkload::Terminated,
            },
    {
        let record = self.subject.record();
        match check_close(record.id, outcome) {
            Ok(_) => Ok(
                RemoveCommit { record: record.clone(), workload: ClosedWorkload::Terminated },
            ),
            Err(error) => Err(error),
        }
    }
}

impl RemoveCommit {
    /// The record to remove.
    pub closed spec fn record_view(self) -> RecordView {
        self.record@
    }

    /// What became of the workload.
    pub closed spec fn workload_view(self) -> ClosedWorkload {
        self.workload
    }

    /// Removes the workload and takes it out of every group, if the record is
    /// still exactly as it was read.
    pub fn remove(&self, state: &mut State, now: Timestamp) -> (removed: bool)
        ensures
            match removed_state(old(state)@, self.record_view(), now) {
                Some(next) => removed && final(state)@ == next,
                None => !removed && final(state)@ == old(state)@,
            },
    {
        match find_exact(state, &self.record) {
            Some(index) => {
                let mut record = self.record.clone();
                let id = record.id;
                record.status = SessionStatus::Removed;
                record.last_used_at = now;
                if record.closed_at.is_none() {
                    record.closed_at = Some(now);
                }
                put_record(state, index, record);
                let mut ids: Vec<SessionId> = Vec::new();
                ids.push(id);
                assert(ids@ =~= seq![id]);
                reconcile_orchestration_groups(state, &ids);
                true
            },
            None => false,
        }
    }

    /// The entry of the trail for the removal.
    pub fn note(&self, at: Timestamp) -> (entry: AuditEntry)
        ensures
            entry == note_of(
                self.record_view(),
                AuditAction::Removed,
                self.record_view().status,
                SessionStatus::Removed,
                at,
            ),
    {
        note(&self.record, AuditAction::Removed, self.record.status, SessionStatus::Removed, at)
    }

    /// Takes the answer of the store: whether the removal was saved.
    pub fn committed(self, saved: bool) -> (r: Result<RemoveOwnedResult, CloseOwnedError>)
        ensures
            r == if saved {
                Ok::<RemoveOwnedResult, CloseOwnedError>(
                    RemoveOwnedResult {
                        id: self.record_view().id,
                        workload: self.workload_view(),
                    },
                )
            } else {
                Err(CloseOwnedError::ConcurrentModification(self.record_view().id))
            },
    {
        let id = self.record.id;
        if saved {
            Ok(RemoveOwnedResult { id, workload: self.workload })
        } else {
            Err(CloseOwnedError::ConcurrentModification(id))
        }
    }
}

impl LifecycleService {
    /// Begins to finalize ended metadata, or to forget proofless metadata
    /// without asking any backend.
    pub fn remove_owned(&self, state: &State, id: SessionId) -> (r: Result<
        RemoveStart,
        CloseOwnedError,
    >)
        ensures
            match remove_choice(state@, id) {
                Err(error) => r == Err::<RemoveStart, CloseOwnedError>(error),
                Ok(RemoveChoice::Done) => r == Ok::<RemoveStart, CloseOwnedError>(
                    RemoveStart::Done(RemoveOwnedResult { id, workload: ClosedWorkload::Missing }),
                ),
                Ok(RemoveChoice::Forget) => r is Ok && r->Ok_0 is Commit
                    && r->Ok_0->Commit_0.record_view() == state@.sessions[find_record(
                    state@.sessions,
                    id,
                )->0] && r->Ok_0->Commit_0.workload_view() == ClosedWorkload::Missing,
                Ok(RemoveChoice::Inspect(subject)) => r is Ok && r->Ok_0 is Inspect
                    && r->Ok_0->Inspect_0.subject_view() == subject,
            },
    {
        let record = match self.owned_record(state, id) {
            Some(record) => record,
            None => {
                return Err(CloseOwnedError::UnknownSession(id));
            },
        };
        if record.status == SessionStatus::Removed {
            return Ok(
                RemoveStart::Done(RemoveOwnedResult { id, workload: ClosedWorkload::Missing }),
            );
        }
        let ownership_proof = match record.ownership_proof {
            Some(ownership_proof) => ownership_proof,
            None => {
                return Ok(
                    RemoveStart::Commit(
                        RemoveCommit { record, workload: ClosedWorkload::Missing },
                    ),
                );
            },
        };
        if record.status != SessionStatus::Ended {
            return Err(
                CloseOwnedError::InvalidStatus {
                    id,
                    operation: Operation::Removed,
                    status: record.status,
                },
            );
        }
        Ok(RemoveStart::Inspect(RemoveInspection { subject: Subject::of(record, ownership_proof) }))
    }
}

/// Finalized removed metadata is retained for this many days by default.
pub const DEFAULT_RETENTION_DAYS: u64 = 30;

/// Whether metadata may go.
#[derive(Clone, Copy, Debug, PartialEq, Eq, Structural)]
pub enum CleanupEligibility {
    KeepActive,
    KeepUnknown,
    KeepRecent,
    RemoveMetadata,
}

/// A closed workload: one that has ended or was removed.
pub open spec fn closed_status(status: SessionStatus) -> bool {
    status == SessionStatus::Ended || status == SessionStatus::Removed
}

/// Whether the metadata of a workload may go. One that still runs always wins
/// over its metadata, and what is unknown or malformed is kept.
pub open spec fn eligibility(
    record: RecordView,
    workload: WorkloadState,
    now: Timestamp,
    retention: int,
) -> CleanupEligibility {
    if workload is Running {
        CleanupEligibility::KeepActive
    } else if workload is Unknown {
        CleanupEligibility::KeepUnknown
    } else if !closed_status(record.status) {
        CleanupEligibility::KeepActive
    } else if record.closed_at is Some && now.earlier(retention) is Some && retention >= 0
        && !now.earlier(retention)->0.before(record.closed_at->0) {
        CleanupEligibility::RemoveMetadata
    } else {
        CleanupEligibility::KeepRecent
    }
}

/// Determines whether closed, missing session metadata is old enough to prune.
/// `retention` is in seconds.
pub fn cleanup_eligibility(
    record: &SessionRecord,
    workload: WorkloadState,
    now: Timestamp,
    retention: i64,
) -> (r: CleanupEligibility)
    requires
        now.valid(),
        -LONGEST_SPAN <= retention <= LONGEST_SPAN,
    ensures
        r == eligibility(record@, workload, now, retention as int),
{
    match workload {
        WorkloadState::Running { .. } => {
            return CleanupEligibility::KeepActive;
        },
        WorkloadState::Unknown => {
            return CleanupEligibility::KeepUnknown;
        },
        _ => {},
    }
    if !matches!(record.status, SessionStatus::Ended | SessionStatus::Removed) {
        return CleanupEligibility::KeepActive;
    }
    let closed_at = match record.closed_at {
        Some(closed_at) => closed_at,
        None => {
            return CleanupEligibility::KeepRecent;
        },
    };
    match now.earlier_by(retention) {
        None => CleanupEligibility::KeepRecent,
        Some(cutoff) => {
            if retention < 0 || cutoff.is_before(closed_at) {
                CleanupEligibility::KeepRecent
            } else {
                CleanupEligibility::RemoveMetadata
            }
        },
    }
}

/// Why nothing is pruned.
#[derive(Clone, Copy, Debug, PartialEq, Eq, Structural)]
pub enum PruneError {
    RetentionTooLarge(u64),
}

impl PruneError {
    /// What went wrong, for a reader.
    pub fn message(&self) -> (text: String)
        ensures
            text@ == match self {
                PruneError::RetentionTooLarge(days) => "retention of "@ + numeral(*days as nat)
                    + " days is too large"@,
            },
    {
        match self {
            PruneError::RetentionTooLarge(days) => "retention of ".to_owned().concat(
                decimal(*days).as_str(),
            ).concat(" days is too large"),
        }
    }
}

/// The seconds of a retention in days, unless it is too long.
pub open spec fn retention_seconds(days: u64) -> Option<int> {
    if days > i64::MAX {
        None
    } else {
        seconds_of_days(days as int)
    }
}

/// The seconds of a retention in days.
fn retention_duration(days: u64) -> (r: Result<i64, PruneError>)
    ensures
        match retention_seconds(days) {
            Some(seconds) => r is Ok && r->Ok_0 == seconds && 0 <= seconds <= LONGEST_SPAN,
            None => r == Err::<i64, PruneError>(PruneError::RetentionTooLarge(days)),
        },
{
    if days > i64::MAX as u64 {
        return Err(PruneError::RetentionTooLarge(days));
    }
    match try_days(days as i64) {
        Some(seconds) => Ok(seconds),
        None => Err(PruneError::RetentionTooLarge(days)),
    }
}

/// An immutable set of exact persisted records selected for a possible prune.
///
/// The candidate snapshots are private: callers can display the identifiers but
/// cannot widen or alter the set that is revalidated when it is applied.
#[derive(Debug, PartialEq, Eq)]
pub struct PrunePreview {
    captured_at: Timestamp,
    retention_days: u64,
    candidates: Vec<SessionRecord>,
}

/// The contents of a [`PrunePreview`].
pub struct PreviewView {
    pub captured_at: Timestamp,
    pub retention_days: u64,
    pub candidates: Seq<RecordView>,
}

impl View for PrunePreview {
    type V = PreviewView;

    closed spec fn view(&self) -> PreviewView {
        PreviewView {
            captured_at: self.captured_at,
            retention_days: self.retention_days,
            candidates: record_views(self.candidates@),
        }
    }
}

/// The sessions of records.
pub open spec fn record_ids(records: Seq<RecordView>) -> Seq<SessionId> {
    records.map_values(|record: RecordView| record.id)
}

impl PrunePreview {
    /// When the preview was taken.
    pub fn captured_at(&self) -> (at: Timestamp)
        ensures
            at == self@.captured_at,
    {
        self.captured_at
    }

    /// The retention of the preview in days.
    pub fn older_than_days(&self) -> (days: u64)
        ensures
            days == self@.retention_days,
    {
        self.retention_days
    }

    /// The sessions of the candidates.
    pub fn ids(&self) -> (ids: Vec<SessionId>)
        ensures
            ids@ == record_ids(self@.candidates),
    {
        let ghost all = record_ids(self@.candidates);
        let mut ids: Vec<SessionId> = Vec::new();
        let mut i: usize = 0;
        while i < self.candidates.len()
            invariant
                i <= self.candidates@.len(),
                all == record_ids(record_views(self.candidates@)),
                ids@ == all.take(i as int),
            decreases self.candidates.len() - i,
        {
            ids.push(self.candidates[i].id);
            i += 1;
            assert(all.take(i as int) =~= all.take(i - 1).push(all[i - 1]));
        }
        assert(all.take(i as int) =~= all);
        ids
    }
}

/// The truthful outcome of applying a previously captured prune preview.
#[derive(Debug, PartialEq, Eq)]
pub struct PruneResult {
    pub removed_ids: Vec<SessionId>,
    pub skipped_ids: Vec<SessionId>,
}

/// A record whose metadata may go, its workload being gone.
pub open spec fn prunable(record: RecordView, now: Timestamp, retention: int) -> bool {
    eligibility(record, WorkloadState::Missing, now, retention)
        == CleanupEligibility::RemoveMetadata
}

/// The records whose metadata may go, in their order.
pub open spec fn prunable_records(records: Seq<RecordView>, now: Timestamp, retention: int) -> Seq<
    RecordView,
>
    decreases records.len(),
{
    if records.len() == 0 {
        Seq::empty()
    } else {
        let front = prunable_records(records.drop_last(), now, retention);
        if prunable(records.last(), now, retention) {
            front.push(records.last())
        } else {
            front
        }
    }
}

/// A candidate that may still go: unchanged and still old enough.
pub open spec fn still_prunable(
    state: StateView,
    snapshot: RecordView,
    now: Timestamp,
    retention: int,
) -> bool {
    exact_position(state, snapshot) is Some && prunable(snapshot, now, retention)
}

/// The sessions of the candidates that may still go, or of those that may not.
pub open spec fn sorted_candidates(
    state: StateView,
    candidates: Seq<RecordView>,
    now: Timestamp,
    retention: int,
    wanted: bool,
) -> Seq<SessionId>
    decreases candidates.len(),
{
    if candidates.len() == 0 {
        Seq::empty()
    } else {
        let front = sorted_candidates(state, candidates.drop_last(), now, retention, wanted);
        if still_prunable(state, candidates.last(), now, retention) == wanted {
            front.push(candidates.last().id)
        } else {
            front
        }
    }
}

/// The records of sessions that were not removed, in their order.
pub open spec fn remaining_records(records: Seq<RecordView>, removed: Seq<SessionId>) -> Seq<
    RecordView,
>
    decreases records.len(),
{
    if records.len() == 0 {
        Seq::empty()
    } else {
        let front = remaining_records(records.drop_last(), removed);
        if removed.contains(records.last().id) {
            front
        } else {
            front.push(records.last())
        }
    }
}

/// The state without some sessions: no record and no group refers to them.
pub open spec fn pruned_state(state: StateView, removed: Seq<SessionId>) -> StateView {
    StateView {
        sessions: remaining_records(state.sessions, removed),
        groups: remaining_groups(state.groups, removed),
        ..state
    }
}

/// Takes sessions out of the state.
fn prune_sessions(state: &mut State, removed: &Vec<SessionId>)
    ensures
        final(state)@ == pruned_state(old(state)@, removed@),
{
    let ghost all = state@.sessions;
    let ghost before = state@;
    let mut kept: Vec<SessionRecord> = Vec::new();
    let mut i: usize = 0;
    assert(all.take(0) =~= Seq::empty());
    assert(record_views(kept@) =~= Seq::empty());
    while i < state.sessions.len()
        invariant
            i <= state.sessions@.len(),
            state@ == before,
            before == old(state)@,
            all == record_views(state.sessions@),
            record_views(kept@) == remaining_records(all.take(i as int), removed@),
        decreases state.sessions.len() - i,
    {
        assert(all.take(i + 1).drop_last() =~= all.take(i as int));
        assert(all.take(i + 1).last() == state.sessions@[i as int]@);
        if !holds(removed, state.sessions[i].id) {
            let ghost listed = kept@;
            let record = state.sessions[i].clone();
            let ghost shown = record@;
            kept.push(record);
            assert(record_views(kept@) =~= record_views(listed).push(shown));
        }
        i += 1;
    }
    assert(all.take(i as int) =~= all);
    state.sessions = kept;
    assert(state@.groups =~= before.groups);
    reconcile_orchestration_groups(state, removed);
}

/// Previews and atomically applies closed-metadata pruning using state only.
#[derive(Debug, PartialEq, Eq)]
pub struct PruneService {
    store: StateStore,
}

impl View for PruneService {
    type V = Seq<char>;

    closed spec fn view(&self) -> Seq<char> {
        self.store@
    }
}

impl PruneService {
    /// Pruning of the sessions in `store`.
    pub fn new(store: StateStore) -> (service: Self)
        ensures
            service@ == store@,
    {
        PruneService { store }
    }

    /// The store whose sessions are pruned.
    pub fn store(&self) -> (store: &StateStore)
        ensures
            store@ == self@,
    {
        &self.store
    }

    /// Captures one wall-clock instant and one immutable candidate snapshot.
    pub fn preview(&self, state: &State, retention_days: u64) -> (r: Result<
        PrunePreview,
        PruneError,
    >)
        ensures
            match retention_seconds(retention_days) {
                Some(seconds) => r is Ok && r->Ok_0@.captured_at.valid()
                    && r->Ok_0@.retention_days == retention_days && r->Ok_0@.candidates
                    == prunable_records(state@.sessions, r->Ok_0@.captured_at, seconds),
                None => r == Err::<PrunePreview, PruneError>(
                    PruneError::RetentionTooLarge(retention_days),
                ),
            },
    {
        self.preview_at(state, retention_days, Timestamp::now())
    }

    /// Captures a preview at an explicit instant.
    pub fn preview_at(&self, state: &State, retention_days: u64, captured_at: Timestamp) -> (r: Result<
        PrunePreview,
        PruneError,
    >)
        requires
            captured_at.valid(),
        ensures
            match retention_seconds(retention_days) {
                Some(seconds) => r is Ok && r->Ok_0@ == (PreviewView {
                    captured_at,
                    retention_days,
                    candidates: prunable_records(state@.sessions, captured_at, seconds),
                }),
                None => r == Err::<PrunePreview, PruneError>(
                    PruneError::RetentionTooLarge(retention_days),
                ),
            },
    {
        let retention = match retention_duration(retention_days) {
            Ok(retention) => retention,
            Err(error) => {
                return Err(error);
            },
        };
        let ghost all = state@.sessions;
        let mut candidates: Vec<SessionRecord> = Vec::new();
        let mut i: usize = 0;
        assert(all.take(0) =~= Seq::empty());
        assert(record_views(candidates@) =~= Seq::empty());
        while i < state.sessions.len()
            invariant
                i <= state.sessions@.len(),
                captured_at.valid(),
                0 <= retention <= LONGEST_SPAN,
                all == record_views(state.sessions@),
                record_views(candidates@) == prunable_records(
                    all.take(i as int),
                    captured_at,
                    retention as int,
                ),
            decreases state.sessions.len() - i,
        {
            assert(all.take(i + 1).drop_last() =~= all.take(i as int));
            assert(all.take(i + 1).last() == state.sessions@[i as int]@);
            if cleanup_eligibility(
                &state.sessions[i],
                WorkloadState::Missing,
                captured_at,
                retention,
            ) == CleanupEligibility::RemoveMetadata {
                let ghost listed = candidates@;
                let record = state.sessions[i].clone();
                let ghost shown = record@;
                candidates.push(record);
                assert(record_views(candidates@) =~= record_views(listed).push(shown));
            }
            i += 1;
        }
        assert(all.take(i as int) =~= all);
        Ok(PrunePreview { captured_at, retention_days, candidates })
    }

    /// Applies only unchanged, still-eligible records from `preview`.
    ///
    /// Missing, changed, or no-longer-eligible candidates are reported as
    /// skipped and do not prevent independent valid candidates from being
    /// removed.
    pub fn apply(&self, state: &mut State, preview: &PrunePreview, now: Timestamp) -> (r: Result<
        PruneResult,
        PruneError,
    >)
        requires
            now.valid(),
        ensures
            match retention_seconds(preview@.retention_days) {
                Some(seconds) => {
                    &&& r is Ok
                    &&& r->Ok_0.removed_ids@ == sorted_candidates(
                        old(state)@,
                        preview@.candidates,
                        now,
                        seconds,
                        true,
                    )
                    &&& r->Ok_0.skipped_ids@ == sorted_candidates(
                        old(state)@,
                        preview@.candidates,
                        now,
                        seconds,
                        false,
                    )
                    &&& final(state)@ == pruned_state(old(state)@, r->Ok_0.removed_ids@)
                },
                None => r == Err::<PruneResult, PruneError>(
                    PruneError::RetentionTooLarge(preview@.retention_days),
                ) && final(state)@ == old(state)@,
            },
    {
        let retention = match retention_duration(preview.retention_days) {
            Ok(retention) => retention,
            Err(error) => {
                return Err(error);
            },
        };
        let ghost all = preview@.candidates;
        let ghost before = state@;
        let mut removed_ids: Vec<SessionId> = Vec::new();
        let mut skipped_ids: Vec<SessionId> = Vec::new();
        let mut i: usize = 0;
        assert(all.take(0) =~= Seq::empty());
        while i < preview.candidates.len()
            invariant
                i <= preview.candidates@.len(),
                now.valid(),
                0 <= retention <= LONGEST_SPAN,
                state@ == before,
                before == old(state)@,
                all == record_views(preview.candidates@),
                removed_ids@ == sorted_candidates(
                    before,
                    all.take(i as int),
                    now,
                    retention as int,
                    true,
                ),
                skipped_ids@ == sorted_candidates(
                    before,
                    all.take(i as int),
                    now,
                    retention as int,
                    false,
                ),
            decreases preview.candidates.len() - i,
        {
            let snapshot = &preview.candidates[i];
            assert(all.take(i + 1).drop_last() =~= all.take(i as int));
            assert(all.take(i + 1).last() == snapshot@);
            let unchanged = find_exact(state, snapshot).is_some();
            if unchanged && cleanup_eligibility(
                snapshot,
                WorkloadState::Missing,
                now,
                retention,
            ) == CleanupEligibility::RemoveMetadata {
                removed_ids.push(snapshot.id);
            } else {
                skipped_ids.push(snapshot.id);
            }
            i += 1;
        }
        assert(all.take(i as int) =~= all);
        prune_sessions(state, &removed_ids);
        Ok(PruneResult { removed_ids, skipped_ids })
    }

    /// Automatically removes only finalized `Removed` metadata after retention,
    /// as of the current instant.
    pub fn automatic_cleanup(&self, state: &mut State) -> (removed: Vec<SessionId>)
        ensures
            exists|now: Timestamp|
                now.valid() && removed@ == record_ids(
                    #[trigger] expired_records(old(state)@.sessions, now),
                ),
            final(state)@ == pruned_state(old(state)@, removed@),
    {
        self.automatic_cleanup_at(state, Timestamp::now())
    }

    /// Automatically removes only finalized `Removed` metadata after retention.
    ///
    /// This asks no backend and therefore cannot terminate or otherwise change
    /// any workload.
    pub fn automatic_cleanup_at(&self, state: &mut State, now: Timestamp) -> (removed: Vec<SessionId>)
        requires
            now.valid(),
        ensures
            removed@ == record_ids(expired_records(old(state)@.sessions, now)),
            final(state)@ == pruned_state(old(state)@, removed@),
    {
        let retention: i64 = 2_592_000;
        let ghost all = state@.sessions;
        let ghost before = state@;
        let mut removed: Vec<SessionId> = Vec::new();
        let mut i: usize = 0;
        assert(all.take(0) =~= Seq::empty());
        assert(removed@ =~= record_ids(expired_records(all.take(0), now)));
        while i < state.sessions.len()
            invariant
                i <= state.sessions@.len(),
                now.valid(),
                retention == 2_592_000,
                state@ == before,
                before == old(state)@,
                all == record_views(state.sessions@),
                removed@ == record_ids(expired_records(all.take(i as int), now)),
            decreases state.sessions.len() - i,
        {
            let record = &state.sessions[i];
            assert(all.take(i + 1).drop_last() =~= all.take(i as int));
            assert(all.take(i + 1).last() == record@);
            if record.status == SessionStatus::Removed && cleanup_eligibility(
                record,
                WorkloadState::Missing,
                now,
                retention,
            ) == CleanupEligibility::RemoveMetadata {
                removed.push(record.id);
                assert(record_ids(expired_records(all.take(i + 1), now)) =~= record_ids(
                    expired_records(all.take(i as int), now),
                ).push(record.id));
            }
            i += 1;
        }
        assert(all.take(i as int) =~= all);
        prune_sessions(state, &removed);
        removed
    }
}

/// The removed records whose default retention is over, in their order.
pub open spec fn expired_records(records: Seq<RecordView>, now: Timestamp) -> Seq<RecordView>
    decreases records.len(),
{
    if records.len() == 0 {
        Seq::empty()
    } else {
        let front = expired_records(records.drop_last(), now);
        if records.last().status == SessionStatus::Removed && prunable(
            records.last(),
            now,
            DEFAULT_RETENTION_DAYS * 86_400,
        ) {
            front.push(records.last())
        } else {
            front
        }
    }
}

/// Pruning never touches the record of a workload that is not closed.
pub proof fn open_workloads_are_never_pruned(record: RecordView, now: Timestamp, retention: int)
    requires
        !closed_status(record.status),
    ensures
        !prunable(record, now, retention),
{
}

} // verus!
