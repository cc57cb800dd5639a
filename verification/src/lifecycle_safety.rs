//! What holds of every operation on a workload: only owned workloads are
//! touched, and only incarnations that were seen are closed.

use vstd::prelude::*;

use crate::backend::WorkloadState;
use crate::lifecycle::{
    mismatched, stop_identity, stop_recheck, stop_subject, CloseOwnedError, SubjectView,
};
use crate::lifecycle_open::{observe_subject, open_subject, reconciliation};
use crate::lifecycle_remove::{remove_choice, remove_identity, remove_recheck, RemoveChoice};
use crate::lifecycle_restart::{
    restart_choice, restart_recheck, restart_subject, RestartChoice,
};
use crate::model::{SessionId, TmuxSessionId};
use crate::state::{find_record_finds, RecordView, StateView};

verus! {

/// Every operation is about a record of the state, and reaches a workload only
/// with the proof of ownership that the record holds.
pub proof fn only_owned_workloads_are_touched(state: StateView, id: SessionId)
    ensures
        stop_subject(state, id) matches Ok(subject) ==> recorded_owner(state, id, subject),
        restart_subject(state, id) matches Ok((subject, _)) ==> recorded_owner(state, id, subject),
        open_subject(state, id) matches Ok(subject) ==> recorded_owner(state, id, subject),
        observe_subject(state, id) matches Ok(subject) ==> recorded_owner(state, id, subject),
        remove_choice(state, id) matches Ok(RemoveChoice::Inspect(subject)) ==> recorded_owner(
            state,
            id,
            subject,
        ),
{
    find_record_finds(state.sessions, id);
}

/// The subject of an operation is the record of the session, with its proof of
/// ownership.
pub open spec fn recorded_owner(state: StateView, id: SessionId, subject: SubjectView) -> bool {
    &&& state.sessions.contains(subject.record)
    &&& subject.record.id == id
    &&& subject.record.ownership_proof == Some(subject.ownership_proof)
}

/// A workload that cannot be seen is not taken for dead: no operation goes on
/// with it.
pub proof fn unknown_is_not_dead(record: RecordView, id: SessionId, identity: TmuxSessionId)
    ensures
        stop_identity(record, WorkloadState::Unknown) == Err::<
            Option<TmuxSessionId>,
            CloseOwnedError,
        >(CloseOwnedError::WorkloadUnknown(record.id)),
        stop_recheck(id, identity, WorkloadState::Unknown) is Err,
        restart_choice(record, WorkloadState::Unknown) is Err,
        restart_recheck(record, identity, WorkloadState::Unknown) is Err,
        remove_identity(record, WorkloadState::Unknown) is Err,
        remove_recheck(id, identity, WorkloadState::Unknown) is Err,
        reconciliation(record, WorkloadState::Unknown) is Err,
{
}

/// Only an incarnation that was seen twice is closed, and only the one that the
/// record expects. Removing and restarting close it only once it has ended.
pub proof fn only_the_expected_incarnation_is_closed(
    record: RecordView,
    first: WorkloadState,
    second: WorkloadState,
    identity: TmuxSessionId,
)
    ensures
        stop_identity(record, first) == Ok::<Option<TmuxSessionId>, CloseOwnedError>(Some(identity))
            && stop_recheck(record.id, identity, second) is Ok && stop_recheck(
            record.id,
            identity,
            second,
        )->Ok_0 is Some ==> {
            &&& incarnation(first) == Some(identity)
            &&& incarnation(second) == Some(identity)
            &&& !mismatched(record, identity)
        },
        restart_choice(record, first) == Ok::<RestartChoice, CloseOwnedError>(
            RestartChoice::Recheck(identity),
        ) && restart_recheck(record, identity, second) == Ok::<bool, CloseOwnedError>(true) ==> {
            &&& first is Ended && incarnation(first) == Some(identity)
            &&& second is Ended && incarnation(second) == Some(identity)
            &&& !mismatched(record, identity)
        },
        remove_identity(record, first) == Ok::<Option<TmuxSessionId>, CloseOwnedError>(
            Some(identity),
        ) && remove_recheck(record.id, identity, second) == Ok::<bool, CloseOwnedError>(true) ==> {
            &&& first is Ended && incarnation(first) == Some(identity)
            &&& second is Ended && incarnation(second) == Some(identity)
            &&& !mismatched(record, identity)
        },
{
}

/// The incarnation that was seen.
pub open spec fn incarnation(observed: WorkloadState) -> Option<TmuxSessionId> {
    match observed {
        WorkloadState::Running { identity, .. } => Some(identity),
        WorkloadState::Ended { identity, .. } => Some(identity),
        _ => None,
    }
}

} // verus!
