//! Restarting an ended workload from its privately retained exact command.
//!
//! A reservation in the state survives every failure. A retry promotes a
//! session that was created already instead of creating a duplicate.

use vstd::prelude::*;

use crate::audit::{AuditAction, AuditEntry};
use crate::backend::{LaunchSpec, WorkloadState};
use crate::clock::Timestamp;
use crate::lifecycle::{
    check_close, close_error, exact_position, find_exact, is_mismatched, lemma_find_after_update,
    mismatched, note, note_of, observation, observed, put_record, with_record, CloseOutcome,
    CloseOwnedError, Inspection, LifecycleService, Operation, RestartOwnedResult, Subject,
    SubjectView,
};
use crate::model::{SessionId, TmuxSessionId};
use crate::state::{
    find_record, find_record_finds, record_position, same_identity, RecordView, SessionStatus,
    State, StateView,
};

verus! {

/// The record of a workload to restart, with its command, or why it is not
/// restarted.
pub open spec fn restart_subject(state: StateView, id: SessionId) -> Result<
    (SubjectView, Seq<char>),
    CloseOwnedError,
> {
    match find_record(state.sessions, id) {
        None => Err(CloseOwnedError::UnknownSession(id)),
        Some(index) => {
            let record = state.sessions[index];
            match record.ownership_proof {
                None => Err(CloseOwnedError::MissingOwnershipProof(id)),
                Some(ownership_proof) => if record.status == SessionStatus::Removed {
                    Err(
                        CloseOwnedError::InvalidStatus {
                            id,
                            operation: Operation::Restarted,
                            status: record.status,
                        },
                    )
                } else {
                    match record.command {
                        None => Err(CloseOwnedError::MissingCommand(id)),
                        Some(command) => Ok((SubjectView { record, ownership_proof }, command)),
                    }
                },
            }
        },
    }
}

/// What the first look at a workload to restart calls for.
pub enum RestartChoice {
    /// It runs already: take it over.
    Promote(TmuxSessionId),
    /// Its old incarnation has ended: look again before closing it.
    Recheck(TmuxSessionId),
    /// Nothing is there: reserve a new incarnation.
    Reserve,
}

/// A workload may be restarted in this status.
pub open spec fn restartable(status: SessionStatus) -> bool {
    status == SessionStatus::Ended || status == SessionStatus::Creating
}

/// The refusal to restart a workload in its status.
pub open spec fn not_restartable(record: RecordView) -> CloseOwnedError {
    CloseOwnedError::InvalidStatus {
        id: record.id,
        operation: Operation::Restarted,
        status: record.status,
    }
}

/// What the first look calls for, or why nothing is restarted.
pub open spec fn restart_choice(record: RecordView, observed: WorkloadState) -> Result<
    RestartChoice,
    CloseOwnedError,
> {
    match observed {
        WorkloadState::Unknown => Err(CloseOwnedError::WorkloadUnknown(record.id)),
        WorkloadState::Running { identity, .. } => if record.status != SessionStatus::Creating
            && record.tmux_session_id != Some(identity) {
            Err(CloseOwnedError::ConcurrentModification(record.id))
        } else {
            Ok(RestartChoice::Promote(identity))
        },
        WorkloadState::Ended { identity, .. } => if mismatched(record, identity) {
            Err(CloseOwnedError::ConcurrentModification(record.id))
        } else {
            Ok(RestartChoice::Recheck(identity))
        },
        WorkloadState::Missing => if restartable(record.status) {
            Ok(RestartChoice::Reserve)
        } else {
            Err(not_restartable(record))
        },
    }
}

/// What the second look at an ended incarnation allows: closing it, or going
/// on without.
pub open spec fn restart_recheck(
    record: RecordView,
    identity: TmuxSessionId,
    observed: WorkloadState,
) -> Result<bool, CloseOwnedError> {
    match observed {
        WorkloadState::Unknown => Err(CloseOwnedError::WorkloadUnknown(record.id)),
        WorkloadState::Ended { identity: current, .. } => if current == identity {
            Ok(true)
        } else {
            Err(CloseOwnedError::ConcurrentModification(record.id))
        },
        WorkloadState::Missing => if restartable(record.status) {
            Ok(false)
        } else {
            Err(not_restartable(record))
        },
        WorkloadState::Running { .. } => Err(CloseOwnedError::ConcurrentModification(record.id)),
    }
}

/// The state in which a new incarnation is reserved, if the record is still
/// exactly as it was read.
pub open spec fn reserved_state(state: StateView, record: RecordView) -> Option<StateView> {
    match exact_position(state, record) {
        Some(index) => Some(
            with_record(
                state,
                index,
                RecordView {
                    status: SessionStatus::Creating,
                    tmux_session_id: None,
                    closed_at: None,
                    exit_status: None,
                    ..record
                },
            ),
        ),
        None => None,
    }
}

/// The state in which the workload runs, if the record is still exactly as it
/// was read.
pub open spec fn promoted_state(
    state: StateView,
    record: RecordView,
    identity: TmuxSessionId,
    now: Timestamp,
) -> Option<StateView> {
    match exact_position(state, record) {
        Some(index) => Some(
            with_record(
                state,
                index,
                RecordView {
                    status: SessionStatus::Running,
                    tmux_session_id: Some(identity),
                    closed_at: None,
                    exit_status: None,
                    last_used_at: now,
                    ..record
                },
            ),
        ),
        None => None,
    }
}

/// A restart that waits for the first inspection.
#[derive(Debug, PartialEq, Eq)]
pub struct RestartInspection {
    subject: Subject,
    command: String,
}

/// A restart that waits for the second inspection of the old incarnation.
#[derive(Debug, PartialEq, Eq)]
pub struct RestartRecheck {
    subject: Subject,
    command: String,
    identity: TmuxSessionId,
}

/// The permission to close the ended old incarnation.
#[derive(Debug, PartialEq, Eq)]
pub struct RestartClose {
    subject: Subject,
    command: String,
    identity: TmuxSessionId,
}

/// A restart that waits for its reservation to be saved.
#[derive(Debug, PartialEq, Eq)]
pub struct RestartReservation {
    subject: Subject,
    command: String,
}

/// The permission to create the reserved incarnation.
#[derive(Debug, PartialEq, Eq)]
pub struct RestartLaunch {
    reservation: Subject,
    command: String,
}

/// A restart that waits for the running workload to be saved.
#[derive(Debug, PartialEq, Eq)]
pub struct RestartPromotion {
    subject: Subject,
    identity: TmuxSessionId,
    /// Whether a new incarnation was created, rather than one taken over.
    created: bool,
}

/// What follows after the first inspection.
#[derive(Debug, PartialEq, Eq)]
pub enum RestartStep {
    Promote(RestartPromotion),
    Recheck(RestartRecheck),
    Reserve(RestartReservation),
}

/// What follows after the second inspection.
#[derive(Debug, PartialEq, Eq)]
pub enum RestartAct {
    Close(RestartClose),
    Reserve(RestartReservation),
}

impl RestartInspection {
    /// The workload to restart.
    pub closed spec fn subject_view(self) -> SubjectView {
        self.subject@
    }

    /// The command to run.
    pub closed spec fn command_view(self) -> Seq<char> {
        self.command@
    }

    /// The workload to restart.
    pub fn subject(&self) -> (subject: &Subject)
        ensures
            subject@ == self.subject_view(),
    {
        &self.subject
    }

    /// Takes the first inspection.
    pub fn inspected(self, inspection: Inspection) -> (r: Result<RestartStep, CloseOwnedError>)
        ensures
            match observation(self.subject_view().record.id, inspection) {
                Err(error) => r == Err::<RestartStep, CloseOwnedError>(error),
                Ok(observed) => match restart_choice(self.subject_view().record, observed) {
                    Err(error) => r == Err::<RestartStep, CloseOwnedError>(error),
                    Ok(RestartChoice::Promote(identity)) => r is Ok && r->Ok_0 is Promote
                        && r->Ok_0->Promote_0.subject_view() == self.subject_view()
                        && r->Ok_0->Promote_0.identity_view() == identity
                        && !r->Ok_0->Promote_0.created_view(),
                    Ok(RestartChoice::Recheck(identity)) => r is Ok && r->Ok_0 is Recheck
                        && r->Ok_0->Recheck_0.subject_view() == self.subject_view()
                        && r->Ok_0->Recheck_0.command_view() == self.command_view()
                        && r->Ok_0->Recheck_0.identity_view() == identity,
                    Ok(RestartChoice::Reserve) => r is Ok && r->Ok_0 is Reserve
                        && r->Ok_0->Reserve_0.subject_view() == self.subject_view()
                        && r->Ok_0->Reserve_0.command_view() == self.command_view(),
                },
            },
    {
        let record = self.subject.record();
        let id = record.id;
        let state = match observed(id, inspection) {
            Ok(state) => state,
            Err(error) => {
                return Err(error);
            },
        };
        match state {
            WorkloadState::Unknown => Err(CloseOwnedError::WorkloadUnknown(id)),
            WorkloadState::Running { identity, .. } => {
                if record.status != SessionStatus::Creating && !same_identity(
                    record.tmux_session_id,
                    Some(identity),
                ) {
                    return Err(CloseOwnedError::ConcurrentModification(id));
                }
                Ok(
                    RestartStep::Promote(
                        RestartPromotion { subject: self.subject, identity, created: false },
                    ),
                )
            },
            WorkloadState::Ended { identity, .. } => {
                if is_mismatched(record, identity) {
                    return Err(CloseOwnedError::ConcurrentModification(id));
                }
                Ok(
                    RestartStep::Recheck(
                        RestartRecheck { subject: self.subject, command: self.command, identity },
                    ),
                )
            },
            WorkloadState::Missing => match reserve(self.subject, self.command) {
                Ok(reservation) => Ok(RestartStep::Reserve(reservation)),
                Err(error) => Err(error),
            },
        }
    }
}

/// The reservation of a new incarnation, unless the status forbids it.
fn reserve(subject: Subject, command: String) -> (r: Result<RestartReservation, CloseOwnedError>)
    ensures
        if restartable(subject@.record.status) {
            r is Ok && r->Ok_0.subject_view() == subject@ && r->Ok_0.command_view() == command@
        } else {
            r == Err::<RestartReservation, CloseOwnedError>(not_restartable(subject@.record))
        },
{
    let id = subject.record().id;
    let status = subject.record().status;
    if !matches!(status, SessionStatus::Ended | SessionStatus::Creating) {
        return Err(
            CloseOwnedError::InvalidStatus { id, operation: Operation::Restarted, status },
        );
    }
    Ok(RestartReservation { subject, command })
}

impl RestartRecheck {
    /// The workload to restart.
    pub closed spec fn subject_view(self) -> SubjectView {
        self.subject@
    }

    /// The command to run.
    pub closed spec fn command_view(self) -> Seq<char> {
        self.command@
    }

    /// The ended incarnation that was seen.
    pub closed spec fn identity_view(self) -> TmuxSessionId {
        self.identity
    }

    /// The workload to restart.
    pub fn subject(&self) -> (subject: &Subject)
        ensures
            subject@ == self.subject_view(),
    {
        &self.subject
    }

    /// Takes the second inspection. Only an incarnation that both inspections
    /// saw ended may be closed.
    pub fn inspected(self, inspection: Inspection) -> (r: Result<RestartAct, CloseOwnedError>)
        ensures
            match observation(self.subject_view().record.id, inspection) {
                Err(error) => r == Err::<RestartAct, CloseOwnedError>(error),
                Ok(observed) => match restart_recheck(
                    self.subject_view().record,
                    self.identity_view(),
                    observed,
                ) {
                    Err(error) => r == Err::<RestartAct, CloseOwnedError>(error),
                    Ok(true) => r is Ok && r->Ok_0 is Close && r->Ok_0->Close_0.subject_view()
                        == self.subject_view() && r->Ok_0->Close_0.command_view()
                        == self.command_view() && r->Ok_0->Close_0.identity_view()
                        == self.identity_view(),
                    Ok(false) => r is Ok && r->Ok_0 is Reserve && r->Ok_0->Reserve_0.subject_view()
                        == self.subject_view() && r->Ok_0->Reserve_0.command_view()
                        == self.command_view(),
                },
            },
    {
        let id = self.subject.record().id;
        let state = match observed(id, inspection) {
            Ok(state) => state,
            Err(error) => {
                return Err(error);
            },
        };
        match state {
            WorkloadState::Unknown => Err(CloseOwnedError::WorkloadUnknown(id)),
            WorkloadState::Ended { identity, .. } => {
                if identity != self.identity {
                    return Err(CloseOwnedError::ConcurrentModification(id));
                }
                Ok(
                    RestartAct::Close(
                        RestartClose { subject: self.subject, command: self.command, identity },
                    ),
                )
            },
            WorkloadState::Missing => match reserve(self.subject, self.command) {
                Ok(reservation) => Ok(RestartAct::Reserve(reservation)),
                Err(error) => Err(error),
            },
            WorkloadState::Running { .. } => Err(CloseOwnedError::ConcurrentModification(id)),
        }
    }
}

impl RestartClose {
    /// The workload to restart.
    pub closed spec fn subject_view(self) -> SubjectView {
        self.subject@
    }

    /// The command to run.
    pub closed spec fn command_view(self) -> Seq<char> {
        self.command@
    }

    /// The ended incarnation to close.
    pub closed spec fn identity_view(self) -> TmuxSessionId {
        self.identity
    }

    /// The workload to restart.
    pub fn subject(&self) -> (subject: &Subject)
        ensures
            subject@ == self.subject_view(),
    {
        &self.subject
    }

    /// The ended incarnation to close.
    pub fn identity(&self) -> (identity: TmuxSessionId)
        ensures
            identity == self.identity_view(),
    {
        self.identity
    }

    /// Takes the answer of the backend.
    pub fn closed(self, outcome: CloseOutcome) -> (r: Result<RestartReservation, CloseOwnedError>)
        ensures
            match close_error(self.subject_view().record.id, outcome) {
                Some(error) => r == Err::<RestartReservation, CloseOwnedError>(error),
                None => if restartable(self.subject_view().record.status) {
                    r is Ok && r->Ok_0.subject_view() == self.subject_view()
                        && r->Ok_0.command_view() == self.command_view()
                } else {
                    r == Err::<RestartReservation, CloseOwnedError>(
                        not_restartable(self.subject_view().record),
                    )
                },
            },
    {
        match check_close(self.subject.record().id, outcome) {
            Ok(_) => reserve(self.subject, self.command),
            Err(error) => Err(error),
        }
    }
}

impl RestartReservation {
    /// The workload to restart.
    pub closed spec fn subject_view(self) -> SubjectView {
        self.subject@
    }

    /// The command to run.
    pub closed spec fn command_view(self) -> Seq<char> {
        self.command@
    }

    /// Reserves a new incarnation, if the record is still exactly as it was
    /// read.
    pub fn reserve(&self, state: &mut State) -> (reserved: bool)
        ensures
            match reserved_state(old(state)@, self.subject_view().record) {
                Some(next) => reserved && final(state)@ == next,
                None => !reserved && final(state)@ == old(state)@,
            },
    {
        match find_exact(state, self.subject.record()) {
            Some(index) => {
                let mut record = self.subject.record().clone();
                record.status = SessionStatus::Creating;
                record.tmux_session_id = None;
                record.closed_at = None;
                record.exit_status = None;
                put_record(state, index, record);
                true
            },
            None => false,
        }
    }

    /// Takes the answer of the store: whether the reservation was saved, and
    /// the state as it was read back.
    pub fn reserved(self, saved: bool, state: &State) -> (r: Result<RestartLaunch, CloseOwnedError>)
        ensures
            if !saved {
                r == Err::<RestartLaunch, CloseOwnedError>(
                    CloseOwnedError::ConcurrentModification(self.subject_view().record.id),
                )
            } else {
                match find_record(state@.sessions, self.subject_view().record.id) {
                    None => r == Err::<RestartLaunch, CloseOwnedError>(
                        CloseOwnedError::UnknownSession(self.subject_view().record.id),
                    ),
                    Some(index) => r is Ok && r->Ok_0.reservation_view() == (SubjectView {
                        record: state@.sessions[index],
                        ..self.subject_view()
                    }) && r->Ok_0.command_view() == self.command_view(),
                }
            },
    {
        let id = self.subject.record().id;
        if !saved {
            return Err(CloseOwnedError::ConcurrentModification(id));
        }
        match record_position(&state.sessions, id) {
            None => Err(CloseOwnedError::UnknownSession(id)),
            Some(index) => Ok(
                RestartLaunch {
                    reservation: Subject::of(
                        state.sessions[index].clone(),
                        self.subject.ownership_proof(),
                    ),
                    command: self.command,
                },
            ),
        }
    }
}

impl RestartLaunch {
    /// The reservation as it was read back.
    pub closed spec fn reservation_view(self) -> SubjectView {
        self.reservation@
    }

    /// The command to run.
    pub closed spec fn command_view(self) -> Seq<char> {
        self.command@
    }

    /// The reservation as it was read back.
    pub fn reservation(&self) -> (subject: &Subject)
        ensures
            subject@ == self.reservation_view(),
    {
        &self.reservation
    }

    /// What is to be launched.
    pub fn launch(&self) -> (launch: LaunchSpec)
        ensures
            launch.id == self.reservation_view().record.id,
            launch.ownership_proof == self.reservation_view().ownership_proof,
            launch.directory@ == self.reservation_view().record.directory,
            launch.command@ == self.command_view(),
    {
        LaunchSpec {
            id: self.reservation.record().id,
            ownership_proof: self.reservation.ownership_proof(),
            directory: self.reservation.record().directory.clone(),
            command: self.command.clone(),
        }
    }

    /// Takes the answer of the backend: the incarnation that was created.
    pub fn created(self, outcome: Result<TmuxSessionId, String>) -> (r: Result<
        RestartPromotion,
        CloseOwnedError,
    >)
        ensures
            match outcome {
                Err(detail) => r == Err::<RestartPromotion, CloseOwnedError>(
                    CloseOwnedError::Create { id: self.reservation_view().record.id, detail },
                ),
                Ok(identity) => r is Ok && r->Ok_0.subject_view() == self.reservation_view()
                    && r->Ok_0.identity_view() == identity && r->Ok_0.created_view(),
            },
    {
        match outcome {
            Err(detail) => Err(
                CloseOwnedError::Create { id: self.reservation.record().id, detail },
            ),
            Ok(identity) => Ok(
                RestartPromotion { subject: self.reservation, identity, created: true },
            ),
        }
    }
}

impl RestartPromotion {
    /// The workload that runs.
    pub closed spec fn subject_view(self) -> SubjectView {
        self.subject@
    }

    /// The incarnation that runs.
    pub closed spec fn identity_view(self) -> TmuxSessionId {
        self.identity
    }

    /// A new incarnation was created.
    pub closed spec fn created_view(self) -> bool {
        self.created
    }

    /// Marks the workload as running, if the record is still exactly as it was
    /// read.
    pub fn promote_running(&self, state: &mut State, now: Timestamp) -> (promoted: bool)
        ensures
            match promoted_state(
                old(state)@,
                self.subject_view().record,
                self.identity_view(),
                now,
            ) {
                Some(next) => promoted && final(state)@ == next,
                None => !promoted && final(state)@ == old(state)@,
            },
    {
        match find_exact(state, self.subject.record()) {
            Some(index) => {
                let mut record = self.subject.record().clone();
                record.status = SessionStatus::Running;
                record.tmux_session_id = Some(self.identity);
                record.closed_at = None;
                record.exit_status = None;
                record.last_used_at = now;
                put_record(state, index, record);
                true
            },
            None => false,
        }
    }

    /// The entry of the trail: a restart, or a workload that was found running.
    pub fn note(&self, at: Timestamp) -> (entry: AuditEntry)
        ensures
            ({
                let record = RecordView {
                    tmux_session_id: Some(self.identity_view()),
                    exit_status: None,
                    ..self.subject_view().record
                };
                entry == if self.created_view() {
                    note_of(
                        record,
                        AuditAction::Restart,
                        SessionStatus::Creating,
                        SessionStatus::Running,
                        at,
                    )
                } else {
                    note_of(record, AuditAction::Observed, record.status, SessionStatus::Running, at)
                }
            }),
    {
        let mut record = self.subject.record().clone();
        let from = record.status;
        record.tmux_session_id = Some(self.identity);
        record.exit_status = None;
        if self.created {
            note(
                &record,
                AuditAction::Restart,
                SessionStatus::Creating,
                SessionStatus::Running,
                at,
            )
        } else {
            note(&record, AuditAction::Observed, from, SessionStatus::Running, at)
        }
    }

    /// Takes the answer of the store: whether the running workload was saved.
    pub fn promoted(self, saved: bool) -> (r: Result<RestartOwnedResult, CloseOwnedError>)
        ensures
            r == if saved {
                Ok::<RestartOwnedResult, CloseOwnedError>(
                    RestartOwnedResult {
                        id: self.subject_view().record.id,
                        identity: self.identity_view(),
                    },
                )
            } else {
                Err(CloseOwnedError::ConcurrentModification(self.subject_view().record.id))
            },
    {
        let id = self.subject.record().id;
        if saved {
            Ok(RestartOwnedResult { id, identity: self.identity })
        } else {
            Err(CloseOwnedError::ConcurrentModification(id))
        }
    }
}

impl LifecycleService {
    /// Begins to restart a workload from its retained command.
    pub fn restart_owned(&self, state: &State, id: SessionId) -> (r: Result<
        RestartInspection,
        CloseOwnedError,
    >)
        ensures
            match restart_subject(state@, id) {
                Ok((subject, command)) => r is Ok && r->Ok_0.subject_view() == subject
                    && r->Ok_0.command_view() == command,
                Err(error) => r == Err::<RestartInspection, CloseOwnedError>(error),
            },
    {
        let record = match self.owned_record(state, id) {
            Some(record) => record,
            None => {
                return Err(CloseOwnedError::UnknownSession(id));
            },
        };
        let ownership_proof = match record.ownership_proof {
            Some(ownership_proof) => ownership_proof,
            None => {
                return Err(CloseOwnedError::MissingOwnershipProof(id));
            },
        };
        if record.status == SessionStatus::Removed {
            return Err(
                CloseOwnedError::InvalidStatus {
                    id,
                    operation: Operation::Restarted,
                    status: record.status,
                },
            );
        }
        let command = match &record.command {
            Some(command) => command.clone(),
            None => {
                return Err(CloseOwnedError::MissingCommand(id));
            },
        };
        Ok(RestartInspection { subject: Subject::of(record, ownership_proof), command })
    }
}

/// If a restart is interrupted after the backend created the workload, a retry
/// takes the created incarnation over: no second one is created.
pub proof fn retry_takes_over_a_created_workload(
    state: StateView,
    record: RecordView,
    identity: TmuxSessionId,
    attached: u32,
)
    requires
        reserved_state(state, record) is Some,
        record.ownership_proof is Some,
        record.command is Some,
    ensures
        ({
            let reserved = reserved_state(state, record)->0;
            match restart_subject(reserved, record.id) {
                Ok((subject, command)) => {
                    &&& command == record.command->0
                    &&& subject.record.status == SessionStatus::Creating
                    &&& restart_choice(
                        subject.record,
                        WorkloadState::Running { identity, attached },
                    ) == Ok::<RestartChoice, CloseOwnedError>(RestartChoice::Promote(identity))
                },
                Err(_) => false,
            }
        }),
{
    let index = exact_position(state, record)->0;
    let reserved = reserved_state(state, record)->0;
    find_record_finds(state.sessions, record.id);
    lemma_find_after_update(state.sessions, record.id, index, reserved.sessions[index]);
    assert(reserved.sessions =~= state.sessions.update(index, reserved.sessions[index]));
}

} // verus!
