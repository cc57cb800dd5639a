//! Stopping, opening, observing, restarting and removing one exact workload.
//!
//! Each operation is a chain of steps. A step takes what the backend or the
//! store answered and either refuses or hands out the next step, so that no
//! step can be skipped: a workload is only ever closed by a ticket that two
//! agreeing inspections produced. Steps that change state do so on a snapshot
//! that the caller loads and saves under its lock; no backend is asked while
//! the lock is held.

use vstd::prelude::*;
use vstd::string::*;

use crate::audit::{AuditAction, AuditEntry, AuditStore};
use crate::backend::{BinariesView, ProcessBinaries, WorkloadState};
use crate::clock::Timestamp;
use crate::model::{session_id_text, OwnershipProof, SessionId, TmuxSessionId};
use crate::state::{
    find_record, find_record_finds, record_position, RecordView, SessionRecord, SessionStatus,
    State, StateStore, StateView,
};
use crate::text::same_text;

verus! {

/// The disposition of the owned workload when a close completed.
#[derive(Clone, Copy, Debug, PartialEq, Eq, Structural)]
pub enum ClosedWorkload {
    /// No exact tmux session existed, so only metadata needed finalizing.
    Missing,
    /// The exact tmux session existed and was terminated.
    Terminated,
}

/// Successful result of closing one exact, persisted owned session.
#[derive(Clone, Copy, Debug, PartialEq, Eq, Structural)]
pub struct CloseOwnedResult {
    pub id: SessionId,
    pub workload: ClosedWorkload,
}

/// Successful result of restarting one session.
#[derive(Clone, Copy, Debug, PartialEq, Eq, Structural)]
pub struct RestartOwnedResult {
    pub id: SessionId,
    pub identity: TmuxSessionId,
}

/// Successful result of removing one session.
#[derive(Clone, Copy, Debug, PartialEq, Eq, Structural)]
pub struct RemoveOwnedResult {
    pub id: SessionId,
    pub workload: ClosedWorkload,
}

/// What was to be done with a session.
#[derive(Clone, Copy, Debug, PartialEq, Eq, Structural)]
pub enum Operation {
    Opened,
    Restarted,
    Removed,
}

/// Why an operation on a session was refused or failed.
#[derive(Debug, PartialEq, Eq)]
pub enum CloseOwnedError {
    UnknownSession(SessionId),
    AlreadyClosed(SessionId),
    WorkloadUnknown(SessionId),
    ConcurrentModification(SessionId),
    State { detail: String },
    BackendConfiguration { id: SessionId, detail: String },
    Inspect { id: SessionId, detail: String },
    Close { id: SessionId, detail: String },
    Finalize { id: SessionId, detail: String },
    MissingOwnershipProof(SessionId),
    MissingCommand(SessionId),
    InvalidStatus { id: SessionId, operation: Operation, status: SessionStatus },
    Create { id: SessionId, detail: String },
}

/// The name of a status.
pub open spec fn status_name(status: SessionStatus) -> Seq<char> {
    match status {
        SessionStatus::Creating => "Creating"@,
        SessionStatus::Running => "Running"@,
        SessionStatus::Stopping => "Stopping"@,
        SessionStatus::Ended => "Ended"@,
        SessionStatus::Removed => "Removed"@,
    }
}

/// The name of a status.
pub fn name_of_status(status: SessionStatus) -> (name: &'static str)
    ensures
        name@ == status_name(status),
{
    match status {
        SessionStatus::Creating => "Creating",
        SessionStatus::Running => "Running",
        SessionStatus::Stopping => "Stopping",
        SessionStatus::Ended => "Ended",
        SessionStatus::Removed => "Removed",
    }
}

impl CloseOwnedError {
    /// What went wrong, for a reader. Details of a transport are not part of it.
    pub open spec fn text(self) -> Seq<char> {
        match self {
            CloseOwnedError::UnknownSession(id) => "unknown session `"@ + session_id_text(id@) + "`"@,
            CloseOwnedError::AlreadyClosed(id) => "session `"@ + session_id_text(id@)
                + "` is already closed"@,
            CloseOwnedError::WorkloadUnknown(id) => "could not determine whether session `"@
                + session_id_text(id@) + "` exists"@,
            CloseOwnedError::ConcurrentModification(id) => "session `"@ + session_id_text(id@)
                + "` changed while it was closing; retry close"@,
            CloseOwnedError::State { .. } => "access session state"@,
            CloseOwnedError::BackendConfiguration { id, .. } => "configure backend for session `"@
                + session_id_text(id@) + "`"@,
            CloseOwnedError::Inspect { id, .. } => "inspect session `"@ + session_id_text(id@)
                + "`"@,
            CloseOwnedError::Close { id, .. } => "close session `"@ + session_id_text(id@) + "`"@,
            CloseOwnedError::Finalize { id, .. } => "workload for session `"@ + session_id_text(id@)
                + "` was closed but final state could not be saved; retry close to reconcile"@,
            CloseOwnedError::MissingOwnershipProof(id) => "session `"@ + session_id_text(id@)
                + "` has no private ownership proof; refusing to inspect or mutate it"@,
            CloseOwnedError::MissingCommand(id) => "session `"@ + session_id_text(id@)
                + "` has no retained command and cannot be restarted"@,
            CloseOwnedError::InvalidStatus { id, operation, status } => "session `"@
                + session_id_text(id@) + (match operation {
                Operation::Opened => "` cannot be opened while it is "@,
                Operation::Restarted => "` cannot be restarted while it is "@,
                Operation::Removed => "` cannot be removed while it is "@,
            }) + status_name(status),
            CloseOwnedError::Create { id, .. } => "create session `"@ + session_id_text(id@) + "`"@,
        }
    }

    /// What went wrong, for a reader.
    pub fn message(&self) -> (text: String)
        ensures
            text@ == self.text(),
    {
        match self {
            CloseOwnedError::UnknownSession(id) => "unknown session `".to_owned().concat(
                id.to_string().as_str(),
            ).concat("`"),
            CloseOwnedError::AlreadyClosed(id) => "session `".to_owned().concat(
                id.to_string().as_str(),
            ).concat("` is already closed"),
            CloseOwnedError::WorkloadUnknown(id) =>
                "could not determine whether session `".to_owned().concat(
                id.to_string().as_str(),
            ).concat("` exists"),
            CloseOwnedError::ConcurrentModification(id) => "session `".to_owned().concat(
                id.to_string().as_str(),
            ).concat("` changed while it was closing; retry close"),
            CloseOwnedError::State { .. } => "access session state".to_owned(),
            CloseOwnedError::BackendConfiguration { id, .. } =>
                "configure backend for session `".to_owned().concat(id.to_string().as_str()).concat(
                "`",
            ),
            CloseOwnedError::Inspect { id, .. } => "inspect session `".to_owned().concat(
                id.to_string().as_str(),
            ).concat("`"),
            CloseOwnedError::Close { id, .. } => "close session `".to_owned().concat(
                id.to_string().as_str(),
            ).concat("`"),
            CloseOwnedError::Finalize { id, .. } => "workload for session `".to_owned().concat(
                id.to_string().as_str(),
            ).concat(
                "` was closed but final state could not be saved; retry close to reconcile",
            ),
            CloseOwnedError::MissingOwnershipProof(id) => "session `".to_owned().concat(
                id.to_string().as_str(),
            ).concat("` has no private ownership proof; refusing to inspect or mutate it"),
            CloseOwnedError::MissingCommand(id) => "session `".to_owned().concat(
                id.to_string().as_str(),
            ).concat("` has no retained command and cannot be restarted"),
            CloseOwnedError::InvalidStatus { id, operation, status } => {
                let reason = match operation {
                    Operation::Opened => "` cannot be opened while it is ",
                    Operation::Restarted => "` cannot be restarted while it is ",
                    Operation::Removed => "` cannot be removed while it is ",
                };
                "session `".to_owned().concat(id.to_string().as_str()).concat(reason).concat(
                    name_of_status(*status),
                )
            },
            CloseOwnedError::Create { id, .. } => "create session `".to_owned().concat(
                id.to_string().as_str(),
            ).concat("`"),
        }
    }
}

/// What came of asking the backend about a workload.
#[derive(Debug, PartialEq, Eq)]
pub enum Inspection {
    Observed(WorkloadState),
    /// The transport failed.
    Failed(String),
    /// There is no backend for the workload's target.
    Unconfigured(String),
}

/// What came of asking the backend to close a workload.
#[derive(Debug, PartialEq, Eq)]
pub enum CloseOutcome {
    Closed,
    /// The backend found another owner and closed nothing.
    GuardRejected,
    Failed(String),
}

/// What the backend reported, or the error of an inspection that failed.
pub open spec fn observation(id: SessionId, inspection: Inspection) -> Result<
    WorkloadState,
    CloseOwnedError,
> {
    match inspection {
        Inspection::Observed(state) => Ok(state),
        Inspection::Failed(detail) => Err(CloseOwnedError::Inspect { id, detail }),
        Inspection::Unconfigured(detail) => Err(CloseOwnedError::BackendConfiguration { id, detail }),
    }
}

/// What the backend reported, or the error of an inspection that failed.
pub(crate) fn observed(id: SessionId, inspection: Inspection) -> (r: Result<WorkloadState, CloseOwnedError>)
    ensures
        r == observation(id, inspection),
{
    match inspection {
        Inspection::Observed(state) => Ok(state),
        Inspection::Failed(detail) => Err(CloseOwnedError::Inspect { id, detail }),
        Inspection::Unconfigured(detail) => Err(CloseOwnedError::BackendConfiguration { id, detail }),
    }
}

/// The error of a close that failed.
pub open spec fn close_error(id: SessionId, outcome: CloseOutcome) -> Option<CloseOwnedError> {
    match outcome {
        CloseOutcome::Closed => None,
        CloseOutcome::GuardRejected => Some(CloseOwnedError::ConcurrentModification(id)),
        CloseOutcome::Failed(detail) => Some(CloseOwnedError::Close { id, detail }),
    }
}

/// The error of a close that failed.
pub(crate) fn check_close(id: SessionId, outcome: CloseOutcome) -> (r: Result<(), CloseOwnedError>)
    ensures
        match close_error(id, outcome) {
            None => r is Ok,
            Some(error) => r == Err::<(), CloseOwnedError>(error),
        },
{
    match outcome {
        CloseOutcome::Closed => Ok(()),
        CloseOutcome::GuardRejected => Err(CloseOwnedError::ConcurrentModification(id)),
        CloseOutcome::Failed(detail) => Err(CloseOwnedError::Close { id, detail }),
    }
}

/// The record expects another incarnation than `identity`.
pub open spec fn mismatched(record: RecordView, identity: TmuxSessionId) -> bool {
    record.tmux_session_id is Some && record.tmux_session_id != Some(identity)
}

/// Whether the record expects another incarnation than `identity`.
pub(crate) fn is_mismatched(record: &SessionRecord, identity: TmuxSessionId) -> (r: bool)
    ensures
        r == mismatched(record@, identity),
{
    match record.tmux_session_id {
        Some(expected) => expected != identity,
        None => false,
    }
}

/// The position of the record that is exactly the snapshot.
pub open spec fn exact_position(state: StateView, snapshot: RecordView) -> Option<int> {
    match find_record(state.sessions, snapshot.id) {
        Some(index) => if state.sessions[index] == snapshot {
            Some(index)
        } else {
            None
        },
        None => None,
    }
}

/// The state with another record at `index`.
pub open spec fn with_record(state: StateView, index: int, record: RecordView) -> StateView {
    StateView { sessions: state.sessions.update(index, record), ..state }
}

/// The position of the record that is exactly the snapshot.
pub(crate) fn find_exact(state: &State, snapshot: &SessionRecord) -> (found: Option<usize>)
    ensures
        match found {
            Some(index) => exact_position(state@, snapshot@) == Some(index as int) && index
                < state.sessions@.len(),
            None => exact_position(state@, snapshot@) is None,
        },
{
    match record_position(&state.sessions, snapshot.id) {
        Some(index) => {
            if state.sessions[index].same(snapshot) {
                Some(index)
            } else {
                None
            }
        },
        None => None,
    }
}

/// Puts `record` in the place of the one at `index`.
pub(crate) fn put_record(state: &mut State, index: usize, record: SessionRecord)
    requires
        index < old(state).sessions@.len(),
    ensures
        final(state)@ == with_record(old(state)@, index as int, record@),
        final(state).orchestration_groups == old(state).orchestration_groups,
        final(state).version == old(state).version,
{
    let ghost before = state@;
    let ghost shown = record@;
    state.sessions.set(index, record);
    assert(state@.sessions =~= before.sessions.update(index as int, shown));
    assert(state@.groups =~= before.groups);
}

/// Coordinates recoverable operations on one exact persisted, owned session.
#[derive(Debug, PartialEq, Eq)]
pub struct LifecycleService {
    store: StateStore,
    binaries: ProcessBinaries,
    /// Where transitions are recorded, when a caller wants a trail.
    audit: Option<AuditStore>,
}

impl LifecycleService {
    /// The store of the sessions.
    pub closed spec fn store_view(self) -> Seq<char> {
        self.store@
    }

    /// The programs that the service uses.
    pub closed spec fn binaries_view(self) -> BinariesView {
        self.binaries@
    }

    /// Where transitions are recorded.
    pub closed spec fn trail(self) -> Option<AuditStore> {
        self.audit
    }

    /// A service that keeps no trail.
    pub fn new(store: StateStore, binaries: ProcessBinaries) -> (service: Self)
        ensures
            service.store_view() == store@,
            service.binaries_view() == binaries@,
            service.trail() is None,
    {
        LifecycleService { store, binaries, audit: None }
    }

    /// Records the transitions this service commits.
    pub fn with_audit(self, audit: AuditStore) -> (service: Self)
        ensures
            service.store_view() == self.store_view(),
            service.binaries_view() == self.binaries_view(),
            service.trail() == Some(audit),
    {
        LifecycleService { store: self.store, binaries: self.binaries, audit: Some(audit) }
    }

    /// The store of the sessions.
    pub fn store(&self) -> (store: &StateStore)
        ensures
            store@ == self.store_view(),
    {
        &self.store
    }

    /// The programs that the service uses.
    pub fn binaries(&self) -> (binaries: &ProcessBinaries)
        ensures
            binaries@ == self.binaries_view(),
    {
        &self.binaries
    }

    /// Where transitions are recorded, if anywhere.
    pub fn audit(&self) -> (audit: Option<&AuditStore>)
        ensures
            match audit {
                Some(store) => self.trail() == Some(*store),
                None => self.trail() is None,
            },
    {
        match &self.audit {
            Some(store) => Some(store),
            None => None,
        }
    }

    /// Reads the exact persisted record.
    pub fn owned_record(&self, state: &State, id: SessionId) -> (record: Option<SessionRecord>)
        ensures
            match record {
                Some(record) => match find_record(state@.sessions, id) {
                    Some(index) => record@ == state@.sessions[index] && record.id == id,
                    None => false,
                },
                None => find_record(state@.sessions, id) is None,
            },
    {
        match record_position(&state.sessions, id) {
            Some(index) => Some(state.sessions[index].clone()),
            None => None,
        }
    }
}

/// The entry of the trail for one transition.
pub open spec fn note_of(
    record: RecordView,
    action: AuditAction,
    from: SessionStatus,
    to: SessionStatus,
    at: Timestamp,
) -> AuditEntry {
    AuditEntry {
        at,
        session: record.id,
        action,
        from: Some(from),
        to,
        incarnation: record.tmux_session_id,
        exit_status: record.exit_status,
    }
}

/// A workload on which an operation is under way: its record as it was read,
/// and the proof that it is owned.
#[derive(Debug, PartialEq, Eq)]
pub struct Subject {
    record: SessionRecord,
    ownership_proof: OwnershipProof,
}

/// The contents of a [`Subject`].
pub struct SubjectView {
    pub record: RecordView,
    pub ownership_proof: OwnershipProof,
}

impl View for Subject {
    type V = SubjectView;

    closed spec fn view(&self) -> SubjectView {
        SubjectView { record: self.record@, ownership_proof: self.ownership_proof }
    }
}

impl Subject {
    /// The workload of a record, and the proof that it is owned.
    pub(crate) fn of(record: SessionRecord, ownership_proof: OwnershipProof) -> (subject: Self)
        ensures
            subject@ == (SubjectView { record: record@, ownership_proof }),
    {
        Subject { record, ownership_proof }
    }

    /// The record as it was read.
    pub fn record(&self) -> (record: &SessionRecord)
        ensures
            record@ == self@.record,
    {
        &self.record
    }

    /// The proof that the workload is owned.
    pub fn ownership_proof(&self) -> (ownership_proof: OwnershipProof)
        ensures
            ownership_proof == self@.ownership_proof,
    {
        self.ownership_proof
    }

    /// The machine that the workload runs on.
    pub fn target(&self) -> (target: &str)
        ensures
            target@ == self@.record.target,
    {
        self.record.target.as_str()
    }
}

/// The record of a workload to stop, or why it is not stopped.
pub open spec fn stop_subject(state: StateView, id: SessionId) -> Result<SubjectView, CloseOwnedError> {
    match find_record(state.sessions, id) {
        None => Err(CloseOwnedError::UnknownSession(id)),
        Some(index) => {
            let record = state.sessions[index];
            if record.status == SessionStatus::Ended || record.status == SessionStatus::Removed {
                Err(CloseOwnedError::AlreadyClosed(id))
            } else {
                match record.ownership_proof {
                    Some(ownership_proof) => Ok(SubjectView { record, ownership_proof }),
                    None => Err(CloseOwnedError::MissingOwnershipProof(id)),
                }
            }
        },
    }
}

/// The incarnation to stop, none if the workload is missing, or why nothing is
/// stopped.
pub open spec fn stop_identity(record: RecordView, observed: WorkloadState) -> Result<
    Option<TmuxSessionId>,
    CloseOwnedError,
> {
    match observed {
        WorkloadState::Unknown => Err(CloseOwnedError::WorkloadUnknown(record.id)),
        WorkloadState::Missing => Ok(None),
        WorkloadState::Running { identity, .. } => if mismatched(record, identity) {
            Err(CloseOwnedError::ConcurrentModification(record.id))
        } else {
            Ok(Some(identity))
        },
        WorkloadState::Ended { identity, .. } => if mismatched(record, identity) {
            Err(CloseOwnedError::ConcurrentModification(record.id))
        } else {
            Ok(Some(identity))
        },
    }
}

/// A workload that can be stopped: not closed yet.
pub open spec fn stoppable(status: SessionStatus) -> bool {
    status == SessionStatus::Running || status == SessionStatus::Creating || status
        == SessionStatus::Stopping
}

/// The state in which the workload is marked as stopping, if it is still
/// exactly as it was read.
pub open spec fn stopping_state(
    state: StateView,
    record: RecordView,
    identity: Option<TmuxSessionId>,
) -> Option<StateView> {
    match exact_position(state, record) {
        Some(index) => if stoppable(record.status) {
            Some(
                with_record(
                    state,
                    index,
                    RecordView {
                        tmux_session_id: if identity is Some {
                            identity
                        } else {
                            record.tmux_session_id
                        },
                        status: SessionStatus::Stopping,
                        ..record
                    },
                ),
            )
        } else {
            None
        },
        None => None,
    }
}

/// What a second look allows: closing the incarnation, with the exit status to
/// keep, or finalizing alone if it is gone.
pub open spec fn stop_recheck(id: SessionId, identity: TmuxSessionId, observed: WorkloadState) -> Result<
    Option<Option<i32>>,
    CloseOwnedError,
> {
    match observed {
        WorkloadState::Unknown => Err(CloseOwnedError::WorkloadUnknown(id)),
        WorkloadState::Missing => Ok(None),
        WorkloadState::Running { identity: current, .. } => if current == identity {
            Ok(Some(None))
        } else {
            Err(CloseOwnedError::ConcurrentModification(id))
        },
        WorkloadState::Ended { identity: current, exit_status } => if current == identity {
            Ok(Some(exit_status))
        } else {
            Err(CloseOwnedError::ConcurrentModification(id))
        },
    }
}

/// The state in which a stopped workload has ended, and whether that is so. A
/// workload that has ended already is left alone.
pub open spec fn ended_state(
    state: StateView,
    record: RecordView,
    exit_status: Option<i32>,
    now: Timestamp,
) -> Option<StateView> {
    match find_record(state.sessions, record.id) {
        None => None,
        Some(index) => {
            let current = state.sessions[index];
            if current.target != record.target {
                None
            } else if current.status == SessionStatus::Ended {
                Some(state)
            } else if current.status != SessionStatus::Stopping {
                None
            } else {
                Some(
                    with_record(
                        state,
                        index,
                        RecordView {
                            status: SessionStatus::Ended,
                            closed_at: Some(now),
                            exit_status,
                            ..current
                        },
                    ),
                )
            }
        },
    }
}

/// A stop that waits for the first inspection.
#[derive(Debug, PartialEq, Eq)]
pub struct StopInspection {
    subject: Subject,
}

/// A stop that waits to be marked in the state.
#[derive(Debug, PartialEq, Eq)]
pub struct StopReservation {
    subject: Subject,
    identity: Option<TmuxSessionId>,
}

/// A stop that waits for the second inspection.
#[derive(Debug, PartialEq, Eq)]
pub struct StopRecheck {
    subject: Subject,
    identity: TmuxSessionId,
}

/// The permission to close one exact incarnation of a workload.
#[derive(Debug, PartialEq, Eq)]
pub struct StopClose {
    subject: Subject,
    identity: TmuxSessionId,
    exit_status: Option<i32>,
}

/// A stop that waits for its end to be saved.
#[derive(Debug, PartialEq, Eq)]
pub struct StopFinish {
    subject: Subject,
    workload: ClosedWorkload,
    exit_status: Option<i32>,
}

/// What follows after a stop was marked.
#[derive(Debug, PartialEq, Eq)]
pub enum StopReserved {
    Recheck(StopRecheck),
    Finish(StopFinish),
}

/// What follows after the second inspection.
#[derive(Debug, PartialEq, Eq)]
pub enum StopAct {
    Close(StopClose),
    Finish(StopFinish),
}

impl StopInspection {
    /// The workload to stop.
    pub closed spec fn subject_view(self) -> SubjectView {
        self.subject@
    }

    /// The workload to stop.
    pub fn subject(&self) -> (subject: &Subject)
        ensures
            subject@ == self.subject_view(),
    {
        &self.subject
    }

    /// Takes the first inspection.
    pub fn inspected(self, inspection: Inspection) -> (r: Result<StopReservation, CloseOwnedError>)
        ensures
            match observation(self.subject_view().record.id, inspection) {
                Err(error) => r == Err::<StopReservation, CloseOwnedError>(error),
                Ok(observed) => match stop_identity(self.subject_view().record, observed) {
                    Err(error) => r == Err::<StopReservation, CloseOwnedError>(error),
                    Ok(identity) => r is Ok && r->Ok_0.subject_view() == self.subject_view()
                        && r->Ok_0.identity_view() == identity,
                },
            },
    {
        let id = self.subject.record.id;
        let state = match observed(id, inspection) {
            Ok(state) => state,
            Err(error) => {
                return Err(error);
            },
        };
        let identity = match state {
            WorkloadState::Unknown => {
                return Err(CloseOwnedError::WorkloadUnknown(id));
            },
            WorkloadState::Missing => None,
            WorkloadState::Running { identity, .. } => Some(identity),
            WorkloadState::Ended { identity, .. } => Some(identity),
        };
        if let Some(identity) = identity {
            if is_mismatched(&self.subject.record, identity) {
                return Err(CloseOwnedError::ConcurrentModification(id));
            }
        }
        Ok(StopReservation { subject: self.subject, identity })
    }
}

impl StopReservation {
    /// The workload to stop.
    pub closed spec fn subject_view(self) -> SubjectView {
        self.subject@
    }

    /// The incarnation that was seen.
    pub closed spec fn identity_view(self) -> Option<TmuxSessionId> {
        self.identity
    }

    /// The workload to stop.
    pub fn subject(&self) -> (subject: &Subject)
        ensures
            subject@ == self.subject_view(),
    {
        &self.subject
    }

    /// Marks the workload as stopping, if it is still exactly as it was read.
    pub fn ensure_stopping(&self, state: &mut State) -> (marked: bool)
        ensures
            match stopping_state(old(state)@, self.subject_view().record, self.identity_view()) {
                Some(next) => marked && final(state)@ == next,
                None => !marked && final(state)@ == old(state)@,
            },
    {
        let index = match find_exact(state, &self.subject.record) {
            Some(index) => index,
            None => {
                return false;
            },
        };
        let mut record = self.subject.record.clone();
        if !matches!(
            record.status,
            SessionStatus::Running | SessionStatus::Creating | SessionStatus::Stopping
        ) {
            return false;
        }
        if self.identity.is_some() {
            record.tmux_session_id = self.identity;
        }
        record.status = SessionStatus::Stopping;
        put_record(state, index, record);
        true
    }

    /// The entry of the trail for the stop that began.
    pub fn note(&self, at: Timestamp) -> (entry: AuditEntry)
        ensures
            entry == note_of(
                self.subject_view().record,
                AuditAction::Stop,
                self.subject_view().record.status,
                SessionStatus::Stopping,
                at,
            ),
    {
        note(
            &self.subject.record,
            AuditAction::Stop,
            self.subject.record.status,
            SessionStatus::Stopping,
            at,
        )
    }

    /// Takes the answer of the store: whether the mark was saved.
    pub fn reserved(self, saved: Result<bool, String>) -> (r: Result<StopReserved, CloseOwnedError>)
        ensures
            match saved {
                Err(detail) => r == Err::<StopReserved, CloseOwnedError>(
                    CloseOwnedError::State { detail },
                ),
                Ok(false) => r == Err::<StopReserved, CloseOwnedError>(
                    CloseOwnedError::ConcurrentModification(self.subject_view().record.id),
                ),
                Ok(true) => match self.identity_view() {
                    Some(identity) => r is Ok && r->Ok_0 is Recheck
                        && r->Ok_0->Recheck_0.subject_view() == self.subject_view()
                        && r->Ok_0->Recheck_0.identity_view() == identity,
                    None => r is Ok && r->Ok_0 is Finish && r->Ok_0->Finish_0.subject_view()
                        == self.subject_view() && r->Ok_0->Finish_0.workload_view()
                        == ClosedWorkload::Missing && r->Ok_0->Finish_0.exit_view() is None,
                },
            },
    {
        match saved {
            Err(detail) => Err(CloseOwnedError::State { detail }),
            Ok(false) => Err(CloseOwnedError::ConcurrentModification(self.subject.record.id)),
            Ok(true) => match self.identity {
                Some(identity) => Ok(
                    StopReserved::Recheck(StopRecheck { subject: self.subject, identity }),
                ),
                None => Ok(
                    StopReserved::Finish(
                        StopFinish {
                            subject: self.subject,
                            workload: ClosedWorkload::Missing,
                            exit_status: None,
                        },
                    ),
                ),
            },
        }
    }
}

/// The entry of the trail for one transition.
pub(crate) fn note(
    record: &SessionRecord,
    action: AuditAction,
    from: SessionStatus,
    to: SessionStatus,
    at: Timestamp,
) -> (entry: AuditEntry)
    ensures
        entry == note_of(record@, action, from, to, at),
{
    AuditEntry {
        at,
        session: record.id,
        action,
        from: Some(from),
        to,
        incarnation: record.tmux_session_id,
        exit_status: record.exit_status,
    }
}

impl StopRecheck {
    /// The workload to stop.
    pub closed spec fn subject_view(self) -> SubjectView {
        self.subject@
    }

    /// The incarnation that was seen.
    pub closed spec fn identity_view(self) -> TmuxSessionId {
        self.identity
    }

    /// The workload to stop.
    pub fn subject(&self) -> (subject: &Subject)
        ensures
            subject@ == self.subject_view(),
    {
        &self.subject
    }

    /// Takes the second inspection. A permission to close is only handed out
    /// for the incarnation that both inspections saw.
    pub fn inspected(self, inspection: Inspection) -> (r: Result<StopAct, CloseOwnedError>)
        ensures
            match observation(self.subject_view().record.id, inspection) {
                Err(error) => r == Err::<StopAct, CloseOwnedError>(error),
                Ok(observed) => match stop_recheck(
                    self.subject_view().record.id,
                    self.identity_view(),
                    observed,
                ) {
                    Err(error) => r == Err::<StopAct, CloseOwnedError>(error),
                    Ok(Some(exit_status)) => r is Ok && r->Ok_0 is Close
                        && r->Ok_0->Close_0.subject_view() == self.subject_view()
                        && r->Ok_0->Close_0.identity_view() == self.identity_view()
                        && r->Ok_0->Close_0.exit_view() == exit_status,
                    Ok(None) => r is Ok && r->Ok_0 is Finish && r->Ok_0->Finish_0.subject_view()
                        == self.subject_view() && r->Ok_0->Finish_0.workload_view()
                        == ClosedWorkload::Missing && r->Ok_0->Finish_0.exit_view() is None,
                },
            },
    {
        let id = self.subject.record.id;
        let state = match observed(id, inspection) {
            Ok(state) => state,
            Err(error) => {
                return Err(error);
            },
        };
        let exit_status = match state {
            WorkloadState::Unknown => {
                return Err(CloseOwnedError::WorkloadUnknown(id));
            },
            WorkloadState::Missing => {
                return Ok(
                    StopAct::Finish(
                        StopFinish {
                            subject: self.subject,
                            workload: ClosedWorkload::Missing,
                            exit_status: None,
                        },
                    ),
                );
            },
            WorkloadState::Running { identity, .. } => {
                if identity != self.identity {
                    return Err(CloseOwnedError::ConcurrentModification(id));
                }
                None
            },
            WorkloadState::Ended { identity, exit_status } => {
                if identity != self.identity {
                    return Err(CloseOwnedError::ConcurrentModification(id));
                }
                exit_status
            },
        };
        Ok(
            StopAct::Close(
                StopClose { subject: self.subject, identity: self.identity, exit_status },
            ),
        )
    }
}

impl StopClose {
    /// The workload to close.
    pub closed spec fn subject_view(self) -> SubjectView {
        self.subject@
    }

    /// The incarnation to close.
    pub closed spec fn identity_view(self) -> TmuxSessionId {
        self.identity
    }

    /// The exit status that the pane still holds.
    pub closed spec fn exit_view(self) -> Option<i32> {
        self.exit_status
    }

    /// The workload to close.
    pub fn subject(&self) -> (subject: &Subject)
        ensures
            subject@ == self.subject_view(),
    {
        &self.subject
    }

    /// The incarnation to close.
    pub fn identity(&self) -> (identity: TmuxSessionId)
        ensures
            identity == self.identity_view(),
    {
        self.identity
    }

    /// Takes the answer of the backend.
    pub fn closed(self, outcome: CloseOutcome) -> (r: Result<StopFinish, CloseOwnedError>)
        ensures
            match close_error(self.subject_view().record.id, outcome) {
                Some(error) => r == Err::<StopFinish, CloseOwnedError>(error),
                None => r is Ok && r->Ok_0.subject_view() == self.subject_view()
                    && r->Ok_0.workload_view() == ClosedWorkload::Terminated && r->Ok_0.exit_view()
                    == self.exit_view(),
            },
    {
        match check_close(self.subject.record.id, outcome) {
            Ok(_) => Ok(
                StopFinish {
                    subject: self.subject,
                    workload: ClosedWorkload::Terminated,
                    exit_status: self.exit_status,
                },
            ),
            Err(error) => Err(error),
        }
    }
}

impl StopFinish {
    /// The workload that was stopped.
    pub closed spec fn subject_view(self) -> SubjectView {
        self.subject@
    }

    /// What became of the workload.
    pub closed spec fn workload_view(self) -> ClosedWorkload {
        self.workload
    }

    /// The exit status to keep.
    pub closed spec fn exit_view(self) -> Option<i32> {
        self.exit_status
    }

    /// Marks the workload as ended. The start of the incarnation is kept, so
    /// that the record still says how long it ran.
    pub fn finish_close(&self, state: &mut State, now: Timestamp) -> (ended: bool)
        ensures
            match ended_state(old(state)@, self.subject_view().record, self.exit_view(), now) {
                Some(next) => ended && final(state)@ == next,
                None => !ended && final(state)@ == old(state)@,
            },
    {
        let index = match record_position(&state.sessions, self.subject.record.id) {
            Some(index) => index,
            None => {
                return false;
            },
        };
        let mut record = state.sessions[index].clone();
        if !same_text(record.target.as_str(), self.subject.record.target.as_str()) {
            return false;
        }
        if record.status == SessionStatus::Ended {
            return true;
        }
        if record.status != SessionStatus::Stopping {
            return false;
        }
        record.status = SessionStatus::Ended;
        record.closed_at = Some(now);
        record.exit_status = self.exit_status;
        put_record(state, index, record);
        true
    }

    /// The entry of the trail for the stop that finished.
    pub fn note(&self, at: Timestamp) -> (entry: AuditEntry)
        ensures
            entry == note_of(
                RecordView { exit_status: self.exit_view(), ..self.subject_view().record },
                AuditAction::Stopped,
                SessionStatus::Stopping,
                SessionStatus::Ended,
                at,
            ),
    {
        let mut record = self.subject.record.clone();
        record.exit_status = self.exit_status;
        note(&record, AuditAction::Stopped, SessionStatus::Stopping, SessionStatus::Ended, at)
    }

    /// Takes the answer of the store: whether the end was saved.
    pub fn finished(self, saved: Result<bool, String>) -> (r: Result<
        CloseOwnedResult,
        CloseOwnedError,
    >)
        ensures
            r == match saved {
                Err(detail) => Err::<CloseOwnedResult, CloseOwnedError>(
                    CloseOwnedError::Finalize { id: self.subject_view().record.id, detail },
                ),
                Ok(false) => Err(
                    CloseOwnedError::ConcurrentModification(self.subject_view().record.id),
                ),
                Ok(true) => Ok(
                    CloseOwnedResult {
                        id: self.subject_view().record.id,
                        workload: self.workload_view(),
                    },
                ),
            },
    {
        let id = self.subject.record.id;
        match saved {
            Err(detail) => Err(CloseOwnedError::Finalize { id, detail }),
            Ok(false) => Err(CloseOwnedError::ConcurrentModification(id)),
            Ok(true) => Ok(CloseOwnedResult { id, workload: self.workload }),
        }
    }
}

impl LifecycleService {
    /// Begins to stop a workload.
    ///
    /// The workload is inspected, marked as stopping, inspected again, closed
    /// if it is still there, and marked as ended. An indeterminate inspection
    /// changes nothing.
    pub fn stop_owned(&self, state: &State, id: SessionId) -> (r: Result<
        StopInspection,
        CloseOwnedError,
    >)
        ensures
            match stop_subject(state@, id) {
                Ok(subject) => r is Ok && r->Ok_0.subject_view() == subject,
                Err(error) => r == Err::<StopInspection, CloseOwnedError>(error),
            },
    {
        let record = match self.owned_record(state, id) {
            Some(record) => record,
            None => {
                return Err(CloseOwnedError::UnknownSession(id));
            },
        };
        if matches!(record.status, SessionStatus::Ended | SessionStatus::Removed) {
            return Err(CloseOwnedError::AlreadyClosed(id));
        }
        match record.ownership_proof {
            Some(ownership_proof) => Ok(
                StopInspection { subject: Subject { record, ownership_proof } },
            ),
            None => Err(CloseOwnedError::MissingOwnershipProof(id)),
        }
    }

    /// Begins to close a workload, which is to stop it.
    pub fn close_owned(&self, state: &State, id: SessionId) -> (r: Result<
        StopInspection,
        CloseOwnedError,
    >)
        ensures
            match stop_subject(state@, id) {
                Ok(subject) => r is Ok && r->Ok_0.subject_view() == subject,
                Err(error) => r == Err::<StopInspection, CloseOwnedError>(error),
            },
    {
        self.stop_owned(state, id)
    }
}

/// If the end of a stop could not be saved, a retry that finds the workload
/// gone reaches the end without closing anything: it is admitted, sees no
/// incarnation to close, is marked again, and ends.
pub proof fn retry_ends_an_interrupted_stop(
    state: StateView,
    id: SessionId,
    index: int,
    now: Timestamp,
)
    requires
        find_record(state.sessions, id) == Some(index),
        state.sessions[index].status == SessionStatus::Stopping,
        state.sessions[index].ownership_proof is Some,
    ensures
        ({
            let record = state.sessions[index];
            &&& stop_subject(state, id) == Ok::<SubjectView, CloseOwnedError>(
                SubjectView { record, ownership_proof: record.ownership_proof->0 },
            )
            &&& stop_identity(record, WorkloadState::Missing) == Ok::<
                Option<TmuxSessionId>,
                CloseOwnedError,
            >(None)
            &&& stopping_state(state, record, None) == Some(state)
            &&& ended_state(state, record, None, now) == Some(
                with_record(
                    state,
                    index,
                    RecordView {
                        status: SessionStatus::Ended,
                        closed_at: Some(now),
                        exit_status: None,
                        ..record
                    },
                ),
            )
        }),
{
    find_record_finds(state.sessions, id);
    assert(state.sessions.update(index, state.sessions[index]) =~= state.sessions);
}

/// A workload that has ended is not stopped again.
pub proof fn ended_workloads_stay_closed(
    state: StateView,
    record: RecordView,
    exit_status: Option<i32>,
    now: Timestamp,
)
    requires
        ended_state(state, record, exit_status, now) is Some,
    ensures
        stop_subject(ended_state(state, record, exit_status, now)->0, record.id) == Err::<
            SubjectView,
            CloseOwnedError,
        >(CloseOwnedError::AlreadyClosed(record.id)),
{
    find_record_finds(state.sessions, record.id);
    let index = find_record(state.sessions, record.id)->0;
    let next = ended_state(state, record, exit_status, now)->0;
    lemma_find_after_update(state.sessions, record.id, index, next.sessions[index]);
    assert(next.sessions =~= state.sessions.update(index, next.sessions[index]));
}

/// A record that keeps its session is found where it was.
pub proof fn lemma_find_after_update(
    records: Seq<RecordView>,
    id: SessionId,
    index: int,
    record: RecordView,
)
    requires
        find_record(records, id) == Some(index),
        record.id == id,
    ensures
        find_record(records.update(index, record), id) == Some(index),
{
    find_record_finds(records, id);
    let next = records.update(index, record);
    find_record_finds(next, id);
    match find_record(next, id) {
        Some(found) => {
            if found < index {
                assert(records[found].id != id);
                assert(next[found] == records[found]);
            }
            if found > index {
                assert(next[index].id != id);
            }
        },
        None => {
            assert(next[index].id != id);
        },
    }
}

} // verus!
