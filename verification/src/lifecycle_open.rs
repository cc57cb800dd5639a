//! Opening a running workload, and bringing its record in line with what the
//! backend sees.

use vstd::prelude::*;

use crate::audit::{AuditAction, AuditEntry};
use crate::backend::WorkloadState;
use crate::clock::Timestamp;
use crate::lifecycle::{
    exact_position, find_exact, is_mismatched, mismatched, note, note_of, observation, observed,
    put_record, with_record, CloseOwnedError, Inspection, LifecycleService, Operation, Subject,
    SubjectView,
};
use crate::model::{SessionId, TmuxSessionId};
use crate::state::{find_record, RecordView, SessionStatus, State, StateView};

verus! {

/// The record of a workload to open, or why it is not opened.
pub open spec fn open_subject(state: StateView, id: SessionId) -> Result<SubjectView, CloseOwnedError> {
    match find_record(state.sessions, id) {
        None => Err(CloseOwnedError::UnknownSession(id)),
        Some(index) => {
            let record = state.sessions[index];
            if record.status != SessionStatus::Running {
                Err(
                    CloseOwnedError::InvalidStatus {
                        id,
                        operation: Operation::Opened,
                        status: record.status,
                    },
                )
            } else {
                match record.ownership_proof {
                    Some(ownership_proof) => Ok(SubjectView { record, ownership_proof }),
                    None => Err(CloseOwnedError::MissingOwnershipProof(id)),
                }
            }
        },
    }
}

/// The incarnation to open, or why nothing is opened.
pub open spec fn open_identity(record: RecordView, observed: WorkloadState) -> Result<
    TmuxSessionId,
    CloseOwnedError,
> {
    match observed {
        WorkloadState::Unknown => Err(CloseOwnedError::WorkloadUnknown(record.id)),
        WorkloadState::Running { identity, .. } => if mismatched(record, identity) {
            Err(CloseOwnedError::ConcurrentModification(record.id))
        } else {
            Ok(identity)
        },
        _ => Err(
            CloseOwnedError::InvalidStatus {
                id: record.id,
                operation: Operation::Opened,
                status: SessionStatus::Ended,
            },
        ),
    }
}

/// The state in which the use of the workload is noted, if it is still exactly
/// as it was read.
pub open spec fn used_state(
    state: StateView,
    record: RecordView,
    identity: TmuxSessionId,
    now: Timestamp,
) -> Option<StateView> {
    match exact_position(state, record) {
        Some(index) => Some(
            with_record(
                state,
                index,
                RecordView { tmux_session_id: Some(identity), last_used_at: now, ..record },
            ),
        ),
        None => None,
    }
}

/// Why the second look refuses to open the incarnation, if it does.
pub open spec fn open_recheck(id: SessionId, identity: TmuxSessionId, observed: WorkloadState) -> Option<
    CloseOwnedError,
> {
    match observed {
        WorkloadState::Unknown => Some(CloseOwnedError::WorkloadUnknown(id)),
        WorkloadState::Running { identity: current, .. } => if current == identity {
            None
        } else {
            Some(CloseOwnedError::ConcurrentModification(id))
        },
        _ => Some(CloseOwnedError::ConcurrentModification(id)),
    }
}

/// An open that waits for the first inspection.
#[derive(Debug, PartialEq, Eq)]
pub struct OpenInspection {
    subject: Subject,
}

/// An open that waits to be noted in the state.
#[derive(Debug, PartialEq, Eq)]
pub struct OpenReservation {
    subject: Subject,
    identity: TmuxSessionId,
}

/// An open that waits for the second inspection.
#[derive(Debug, PartialEq, Eq)]
pub struct OpenRecheck {
    subject: Subject,
    identity: TmuxSessionId,
}

/// The permission to attach to one exact live incarnation.
#[derive(Debug, PartialEq, Eq)]
pub struct OpenAttach {
    subject: Subject,
    identity: TmuxSessionId,
}

impl OpenInspection {
    /// The workload to open.
    pub closed spec fn subject_view(self) -> SubjectView {
        self.subject@
    }

    /// The workload to open.
    pub fn subject(&self) -> (subject: &Subject)
        ensures
            subject@ == self.subject_view(),
    {
        &self.subject
    }

    /// Takes the first inspection.
    pub fn inspected(self, inspection: Inspection) -> (r: Result<OpenReservation, CloseOwnedError>)
        ensures
            match observation(self.subject_view().record.id, inspection) {
                Err(error) => r == Err::<OpenReservation, CloseOwnedError>(error),
                Ok(observed) => match open_identity(self.subject_view().record, observed) {
                    Err(error) => r == Err::<OpenReservation, CloseOwnedError>(error),
                    Ok(identity) => r is Ok && r->Ok_0.subject_view() == self.subject_view()
                        && r->Ok_0.identity_view() == identity,
                },
            },
    {
        let id = self.subject.record().id;
        let state = match observed(id, inspection) {
            Ok(state) => state,
            Err(error) => {
                return Err(error);
            },
        };
        match state {
            WorkloadState::Running { identity, .. } => {
                if is_mismatched(self.subject.record(), identity) {
                    Err(CloseOwnedError::ConcurrentModification(id))
                } else {
                    Ok(OpenReservation { subject: self.subject, identity })
                }
            },
            WorkloadState::Unknown => Err(CloseOwnedError::WorkloadUnknown(id)),
            _ => Err(
                CloseOwnedError::InvalidStatus {
                    id,
                    operation: Operation::Opened,
                    status: SessionStatus::Ended,
                },
            ),
        }
    }
}

impl OpenReservation {
    /// The workload to open.
    pub closed spec fn subject_view(self) -> SubjectView {
        self.subject@
    }

    /// The incarnation that was seen.
    pub closed spec fn identity_view(self) -> TmuxSessionId {
        self.identity
    }

    /// Notes the use of the workload, if it is still exactly as it was read.
    pub fn note_use(&self, state: &mut State, now: Timestamp) -> (noted: bool)
        ensures
            match used_state(
                old(state)@,
                self.subject_view().record,
                self.identity_view(),
                now,
            ) {
                Some(next) => noted && final(state)@ == next,
                None => !noted && final(state)@ == old(state)@,
            },
    {
        match find_exact(state, self.subject.record()) {
            Some(index) => {
                let mut record = self.subject.record().clone();
                record.tmux_session_id = Some(self.identity);
                record.last_used_at = now;
                put_record(state, index, record);
                true
            },
            None => false,
        }
    }

    /// Takes the answer of the store: whether the use was saved.
    pub fn reserved(self, saved: bool) -> (r: Result<OpenRecheck, CloseOwnedError>)
        ensures
            if saved {
                r is Ok && r->Ok_0.subject_view() == self.subject_view() && r->Ok_0.identity_view()
                    == self.identity_view()
            } else {
                r == Err::<OpenRecheck, CloseOwnedError>(
                    CloseOwnedError::ConcurrentModification(self.subject_view().record.id),
                )
            },
    {
        if saved {
            Ok(OpenRecheck { subject: self.subject, identity: self.identity })
        } else {
            Err(CloseOwnedError::ConcurrentModification(self.subject.record().id))
        }
    }
}

impl OpenRecheck {
    /// The workload to open.
    pub closed spec fn subject_view(self) -> SubjectView {
        self.subject@
    }

    /// The incarnation that was seen.
    pub closed spec fn identity_view(self) -> TmuxSessionId {
        self.identity
    }

    /// The workload to open.
    pub fn subject(&self) -> (subject: &Subject)
        ensures
            subject@ == self.subject_view(),
    {
        &self.subject
    }

    /// Takes the second inspection. A permission to attach is only handed out
    /// for the live incarnation that both inspections saw.
    pub fn inspected(self, inspection: Inspection) -> (r: Result<OpenAttach, CloseOwnedError>)
        ensures
            match observation(self.subject_view().record.id, inspection) {
                Err(error) => r == Err::<OpenAttach, CloseOwnedError>(error),
                Ok(observed) => match open_recheck(
                    self.subject_view().record.id,
                    self.identity_view(),
                    observed,
                ) {
                    Some(error) => r == Err::<OpenAttach, CloseOwnedError>(error),
                    None => r is Ok && r->Ok_0.subject_view() == self.subject_view()
                        && r->Ok_0.identity_view() == self.identity_view(),
                },
            },
    {
        let id = self.subject.record().id;
        let state = match observed(id, inspection) {
            Ok(state) => state,
            Err(error) => {
                return Err(error);
            },
        };
        match state {
            WorkloadState::Unknown => Err(CloseOwnedError::WorkloadUnknown(id)),
            WorkloadState::Running { identity, .. } => {
                if identity == self.identity {
                    Ok(OpenAttach { subject: self.subject, identity })
                } else {
                    Err(CloseOwnedError::ConcurrentModification(id))
                }
            },
            _ => Err(CloseOwnedError::ConcurrentModification(id)),
        }
    }
}

impl OpenAttach {
    /// The workload to attach to.
    pub closed spec fn subject_view(self) -> SubjectView {
        self.subject@
    }

    /// The incarnation to attach to.
    pub closed spec fn identity_view(self) -> TmuxSessionId {
        self.identity
    }

    /// The workload to attach to.
    pub fn subject(&self) -> (subject: &Subject)
        ensures
            subject@ == self.subject_view(),
    {
        &self.subject
    }

    /// The incarnation to attach to.
    pub fn identity(&self) -> (identity: TmuxSessionId)
        ensures
            identity == self.identity_view(),
    {
        self.identity
    }
}

/// The record of a workload to look at, or why there is none.
pub open spec fn observe_subject(state: StateView, id: SessionId) -> Result<
    SubjectView,
    CloseOwnedError,
> {
    match find_record(state.sessions, id) {
        None => Err(CloseOwnedError::UnknownSession(id)),
        Some(index) => match state.sessions[index].ownership_proof {
            Some(ownership_proof) => Ok(
                SubjectView { record: state.sessions[index], ownership_proof },
            ),
            None => Err(CloseOwnedError::MissingOwnershipProof(id)),
        },
    }
}

/// How a record is to be brought in line with what was seen.
#[derive(Clone, Copy, Debug, PartialEq, Eq, Structural)]
pub enum Reconciliation {
    /// The record needs no change.
    Keep,
    /// The workload runs.
    Run { identity: TmuxSessionId },
    /// The workload has ended or is gone.
    End { identity: Option<TmuxSessionId>, exit_status: Option<i32> },
}

/// How a record is brought in line with what was seen, or why it is not.
pub open spec fn reconciliation(record: RecordView, observed: WorkloadState) -> Result<
    Reconciliation,
    CloseOwnedError,
> {
    match observed {
        WorkloadState::Unknown => Err(CloseOwnedError::WorkloadUnknown(record.id)),
        WorkloadState::Missing => Ok(Reconciliation::End { identity: None, exit_status: None }),
        WorkloadState::Running { identity, .. } => if mismatched(record, identity) {
            Err(CloseOwnedError::ConcurrentModification(record.id))
        } else if record.status == SessionStatus::Creating || record.status
            == SessionStatus::Running {
            Ok(Reconciliation::Run { identity })
        } else {
            Ok(Reconciliation::Keep)
        },
        WorkloadState::Ended { identity, exit_status } => if mismatched(record, identity) {
            Err(CloseOwnedError::ConcurrentModification(record.id))
        } else {
            Ok(Reconciliation::End { identity: Some(identity), exit_status })
        },
    }
}

/// The state in which the record is in line, if it is still exactly as it was
/// read. A removed record stays as it is.
pub open spec fn reconciled_state(
    state: StateView,
    record: RecordView,
    change: Reconciliation,
    now: Timestamp,
) -> Option<StateView> {
    match change {
        Reconciliation::Keep => Some(state),
        Reconciliation::Run { identity } => match exact_position(state, record) {
            Some(index) => Some(
                with_record(
                    state,
                    index,
                    RecordView {
                        status: SessionStatus::Running,
                        tmux_session_id: Some(identity),
                        closed_at: None,
                        exit_status: None,
                        ..record
                    },
                ),
            ),
            None => None,
        },
        Reconciliation::End { identity, exit_status } => if record.status
            == SessionStatus::Removed {
            Some(state)
        } else {
            match exact_position(state, record) {
                Some(index) => Some(
                    with_record(
                        state,
                        index,
                        RecordView {
                            status: SessionStatus::Ended,
                            tmux_session_id: if identity is Some {
                                identity
                            } else {
                                record.tmux_session_id
                            },
                            closed_at: if record.closed_at is Some {
                                record.closed_at
                            } else {
                                Some(now)
                            },
                            exit_status,
                            ..record
                        },
                    ),
                ),
                None => None,
            }
        },
    }
}

/// An observation that waits for its inspection.
#[derive(Debug, PartialEq, Eq)]
pub struct ObserveInspection {
    subject: Subject,
}

/// An observation that waits to be saved.
#[derive(Debug, PartialEq, Eq)]
pub struct ObserveCommit {
    subject: Subject,
    observed: WorkloadState,
    change: Reconciliation,
}

impl ObserveInspection {
    /// The workload to look at.
    pub closed spec fn subject_view(self) -> SubjectView {
        self.subject@
    }

    /// The workload to look at.
    pub fn subject(&self) -> (subject: &Subject)
        ensures
            subject@ == self.subject_view(),
    {
        &self.subject
    }

    /// Takes the inspection.
    pub fn inspected(self, inspection: Inspection) -> (r: Result<ObserveCommit, CloseOwnedError>)
        ensures
            match observation(self.subject_view().record.id, inspection) {
                Err(error) => r == Err::<ObserveCommit, CloseOwnedError>(error),
                Ok(observed) => match reconciliation(self.subject_view().record, observed) {
                    Err(error) => r == Err::<ObserveCommit, CloseOwnedError>(error),
                    Ok(change) => r is Ok && r->Ok_0.subject_view() == self.subject_view()
                        && r->Ok_0.observed_view() == observed && r->Ok_0.change_view() == change,
                },
            },
    {
        let record = self.subject.record();
        let id = record.id;
        let status = record.status;
        let observed = match observed(id, inspection) {
            Ok(state) => state,
            Err(error) => {
                return Err(error);
            },
        };
        let change = match observed {
            WorkloadState::Unknown => {
                return Err(CloseOwnedError::WorkloadUnknown(id));
            },
            WorkloadState::Missing => Reconciliation::End { identity: None, exit_status: None },
            WorkloadState::Running { identity, .. } => {
                if is_mismatched(record, identity) {
                    return Err(CloseOwnedError::ConcurrentModification(id));
                }
                if matches!(status, SessionStatus::Creating | SessionStatus::Running) {
                    Reconciliation::Run { identity }
                } else {
                    Reconciliation::Keep
                }
            },
            WorkloadState::Ended { identity, exit_status } => {
                if is_mismatched(record, identity) {
                    return Err(CloseOwnedError::ConcurrentModification(id));
                }
                Reconciliation::End { identity: Some(identity), exit_status }
            },
        };
        Ok(ObserveCommit { subject: self.subject, observed, change })
    }
}

/// The record as the trail speaks of it after an observation.
pub open spec fn observed_record(record: RecordView, change: Reconciliation) -> RecordView {
    match change {
        Reconciliation::End { identity: Some(identity), exit_status } => RecordView {
            tmux_session_id: Some(identity),
            exit_status,
            ..record
        },
        _ => record,
    }
}

impl ObserveCommit {
    /// The workload that was looked at.
    pub closed spec fn subject_view(self) -> SubjectView {
        self.subject@
    }

    /// What was seen.
    pub closed spec fn observed_view(self) -> WorkloadState {
        self.observed
    }

    /// How the record is brought in line.
    pub closed spec fn change_view(self) -> Reconciliation {
        self.change
    }

    /// Brings the record in line, if it is still exactly as it was read.
    pub fn reconcile(&self, state: &mut State, now: Timestamp) -> (saved: bool)
        ensures
            match reconciled_state(
                old(state)@,
                self.subject_view().record,
                self.change_view(),
                now,
            ) {
                Some(next) => saved && final(state)@ == next,
                None => !saved && final(state)@ == old(state)@,
            },
    {
        let snapshot = self.subject.record();
        match self.change {
            Reconciliation::Keep => true,
            Reconciliation::Run { identity } => match find_exact(state, snapshot) {
                Some(index) => {
                    let mut record = snapshot.clone();
                    record.status = SessionStatus::Running;
                    record.tmux_session_id = Some(identity);
                    record.closed_at = None;
                    record.exit_status = None;
                    put_record(state, index, record);
                    true
                },
                None => false,
            },
            Reconciliation::End { identity, exit_status } => {
                if snapshot.status == SessionStatus::Removed {
                    return true;
                }
                match find_exact(state, snapshot) {
                    Some(index) => {
                        let mut record = snapshot.clone();
                        record.status = SessionStatus::Ended;
                        if identity.is_some() {
                            record.tmux_session_id = identity;
                        }
                        if record.closed_at.is_none() {
                            record.closed_at = Some(now);
                        }
                        record.exit_status = exit_status;
                        put_record(state, index, record);
                        true
                    },
                    None => false,
                }
            },
        }
    }

    /// The entry of the trail for an end that was found, if one was.
    pub fn note(&self, at: Timestamp) -> (entry: Option<AuditEntry>)
        ensures
            entry == match self.change_view() {
                Reconciliation::End { .. } => Some(
                    note_of(
                        observed_record(self.subject_view().record, self.change_view()),
                        AuditAction::Reconciled,
                        self.subject_view().record.status,
                        SessionStatus::Ended,
                        at,
                    ),
                ),
                _ => None,
            },
    {
        match self.change {
            Reconciliation::End { identity, exit_status } => {
                let mut record = self.subject.record().clone();
                let from = record.status;
                if identity.is_some() {
                    record.tmux_session_id = identity;
                    record.exit_status = exit_status;
                }
                Some(note(&record, AuditAction::Reconciled, from, SessionStatus::Ended, at))
            },
            _ => None,
        }
    }

    /// Takes the answer of the store: whether the record was saved.
    pub fn reconciled(self, saved: bool) -> (r: Result<WorkloadState, CloseOwnedError>)
        ensures
            r == if saved {
                Ok::<WorkloadState, CloseOwnedError>(self.observed_view())
            } else {
                Err(CloseOwnedError::ConcurrentModification(self.subject_view().record.id))
            },
    {
        if saved {
            Ok(self.observed)
        } else {
            Err(CloseOwnedError::ConcurrentModification(self.subject.record().id))
        }
    }
}

impl LifecycleService {
    /// Begins to open a running workload.
    pub fn open_owned(&self, state: &State, id: SessionId) -> (r: Result<
        OpenInspection,
        CloseOwnedError,
    >)
        ensures
            match open_subject(state@, id) {
                Ok(subject) => r is Ok && r->Ok_0.subject_view() == subject,
                Err(error) => r == Err::<OpenInspection, CloseOwnedError>(error),
            },
    {
        let record = match self.owned_record(state, id) {
            Some(record) => record,
            None => {
                return Err(CloseOwnedError::UnknownSession(id));
            },
        };
        if record.status != SessionStatus::Running {
            return Err(
                CloseOwnedError::InvalidStatus {
                    id,
                    operation: Operation::Opened,
                    status: record.status,
                },
            );
        }
        match record.ownership_proof {
            Some(ownership_proof) => Ok(
                OpenInspection { subject: Subject::of(record, ownership_proof) },
            ),
            None => Err(CloseOwnedError::MissingOwnershipProof(id)),
        }
    }

    /// Begins to bring a record in line with what the backend sees.
    pub fn observe_owned(&self, state: &State, id: SessionId) -> (r: Result<
        ObserveInspection,
        CloseOwnedError,
    >)
        ensures
            match observe_subject(state@, id) {
                Ok(subject) => r is Ok && r->Ok_0.subject_view() == subject,
                Err(error) => r == Err::<ObserveInspection, CloseOwnedError>(error),
            },
    {
        match self.owned_record(state, id) {
            Some(record) => match record.ownership_proof {
                Some(ownership_proof) => Ok(
                    ObserveInspection { subject: Subject::of(record, ownership_proof) },
                ),
                None => Err(CloseOwnedError::MissingOwnershipProof(id)),
            },
            None => Err(CloseOwnedError::UnknownSession(id)),
        }
    }
}

} // verus!
