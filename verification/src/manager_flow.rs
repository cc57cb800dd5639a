//! The changes that the Observer manager and the orchestration commands make,
//! each with what is said of it.

use vstd::prelude::*;
use vstd::string::*;

use crate::agent_view::AgentViewFilter;
use crate::failure::{plain, Failure, FailureView};
use crate::model::{session_id_text, OrchestrationGroupId, OrchestrationTitle, SessionId};
use crate::notices::{
    created_notice, deletion_end, metadata_failure, reassigned_notice, reassignment, updated_notice,
    DeletionEnd,
};
use crate::observer_manager::{ActionView, ObserverManagerAction};
use crate::orchestration::{
    addition_refusal, admitted, creation_refusal, edit_refusal, eligible, reassigned,
    replacement_refusal, valid_groups, workers_problem, OrchestrationError, OrchestrationErrorView,
    OrchestrationService,
};
use crate::state::{
    find_group, find_group_finds, find_member, title_view, GroupView, MemberView, OrchestrationCapabilities,
    OrchestrationGroup, State, StateView,
};

verus! {

/// What the manager goes on with.
#[derive(Debug, PartialEq, Eq)]
pub enum FlowStep {
    /// The picker is shown again.
    BackToPicker,
    /// The state was changed, or the change was refused: it is saved where it
    /// was changed, and the manager is shown again.
    Changed {
        changed: bool,
        /// What is said once the change is saved, or of its refusal.
        notice: String,
        /// What is said where the change cannot be saved.
        unsaved: String,
    },
    /// The sidebar view of the group is cleared, and then the group is deleted.
    ClearView { expected_group: OrchestrationGroup },
    /// The sidebar shows the agents of the group, and the manager is shown again.
    ShowView { group_id: OrchestrationGroupId, filter: AgentViewFilter },
    /// The sidebar is shown as usual, and the manager is shown again.
    RestoreView,
    /// An Observer of the group is launched.
    Launch { group: OrchestrationGroup },
    /// There is no such group: the manager is shown again with this notice.
    Refused { notice: String },
}

/// Why a change of the manager is refused.
pub open spec fn change_refusal(state: StateView, action: ActionView) -> Option<
    OrchestrationErrorView,
> {
    match action {
        ActionView::Create { id, orchestrator, workers, .. } => if workers_problem(
            orchestrator,
            workers,
        ) is Some {
            workers_problem(orchestrator, workers)
        } else {
            creation_refusal(state, id, orchestrator, workers)
        },
        ActionView::ReplaceWorkers { group, workers } => replacement_refusal(state, group, workers),
        ActionView::ReassignOrchestrator { group, orchestrator } => if edit_refusal(
            state,
            group,
        ) is Some {
            edit_refusal(state, group)
        } else if !eligible(state.sessions, orchestrator) {
            Some(OrchestrationErrorView::NotEligible { role: "orchestrator"@ })
        } else {
            None
        },
        _ => None,
    }
}

/// A change of the manager was made: `after` is what it leaves of the state.
pub open spec fn change_made(state: StateView, action: ActionView, after: StateView) -> bool {
    match action {
        ActionView::Create { id, title, orchestrator, workers } => {
            &&& after.groups.len() == state.groups.len() + 1
            &&& after.groups.drop_last() == state.groups
            &&& after.groups.last().id == id
            &&& after.groups.last().title == title
            &&& after.groups.last().orchestrator == orchestrator
            &&& admitted(Seq::empty(), workers, after.groups.last().workers)
            &&& after == (StateView { groups: after.groups, ..state })
        },
        ActionView::ReplaceWorkers { group, workers } => {
            let at = find_group(state.groups, group.id)->0;
            &&& after.groups.len() == state.groups.len()
            &&& admitted(group.workers, workers, after.groups[at].workers)
            &&& after == (StateView {
                groups: state.groups.update(
                    at,
                    GroupView { workers: after.groups[at].workers, ..group },
                ),
                ..state
            })
        },
        ActionView::ReassignOrchestrator { group, orchestrator } => after == (StateView {
            groups: state.groups.update(
                find_group(state.groups, group.id)->0,
                reassigned(group, orchestrator),
            ),
            ..state
        }),
        _ => after == state,
    }
}

/// What is said of a change of the manager that was made.
pub open spec fn made_notice(action: ActionView) -> Seq<char> {
    match action {
        ActionView::Create { title, .. } => "Created "@ + title
            + "; workload lifecycle unchanged"@,
        ActionView::ReplaceWorkers { group, .. } => "Updated "@ + group.title
            + "; workload lifecycle unchanged"@,
        ActionView::ReassignOrchestrator { group, .. } => "Updated "@ + group.title
            + " metadata; workload lifecycle and placement unchanged"@,
        _ => ""@,
    }
}

/// What is said of a change of the manager that was refused.
pub open spec fn refused_notice(action: ActionView, reason: Seq<char>) -> Seq<char> {
    match action {
        ActionView::Create { .. } => "Could not create Observer; metadata was unchanged"@,
        ActionView::ReplaceWorkers { .. } => metadata_failure("update"@, plain(reason)),
        ActionView::ReassignOrchestrator { .. } => reassignment(
            Err::<GroupView, FailureView>(plain(reason)),
        ),
        _ => ""@,
    }
}

/// What is said of a change of the manager that cannot be saved.
pub open spec fn unsaved_notice(action: ActionView) -> Seq<char> {
    match action {
        ActionView::Create { .. } => "Could not create Observer; metadata was unchanged"@,
        ActionView::ReplaceWorkers { .. } => "Could not update Observer; metadata was unchanged"@,
        ActionView::ReassignOrchestrator { .. } =>
            "Could not reassign Observer; metadata was unchanged; workload lifecycle and placement unchanged"@,
        _ => ""@,
    }
}

/// The outcome of a change, with its error as a failure.
fn as_outcome(r: Result<OrchestrationGroup, OrchestrationError>) -> (outcome: Result<
    OrchestrationGroup,
    Failure,
>)
    ensures
        match r {
            Ok(group) => outcome == Ok::<OrchestrationGroup, Failure>(group),
            Err(error) => outcome is Err && outcome->Err_0@ == plain(error@.text()),
        },
{
    match r {
        Ok(group) => Ok(group),
        Err(error) => Err(Failure::new(error.message())),
    }
}

/// Has the manager's action take effect on the state, as far as it changes it.
pub fn manage(service: &OrchestrationService, state: &mut State, action: ObserverManagerAction) -> (step:
    FlowStep)
    ensures
        valid_groups(old(state)@.groups) ==> valid_groups(final(state)@.groups),
        match action@ {
            ActionView::BackToPicker => step is BackToPicker && final(state)@ == old(state)@,
            ActionView::Delete { group } => step is ClearView && step->expected_group@ == group
                && final(state)@ == old(state)@,
            ActionView::SetAgentView { group_id, filter } => step is ShowView
                && step->group_id@ == group_id && step->filter == filter && final(state)@ == old(
                state,
            )@,
            ActionView::ClearAgentView => step is RestoreView && final(state)@ == old(state)@,
            ActionView::Launch { group_id } => final(state)@ == old(state)@ && match find_group(
                old(state)@.groups,
                group_id,
            ) {
                Some(at) => step is Launch && step->group@ == old(state)@.groups[at],
                None => step is Refused && step->Refused_notice@
                    == "Could not launch Observer; source pane was preserved"@,
            },
            _ => {
                &&& step is Changed
                &&& step->unsaved@ == unsaved_notice(action@)
                &&& match change_refusal(old(state)@, action@) {
                    None => step->changed && step->Changed_notice@ == made_notice(action@)
                        && change_made(old(state)@, action@, final(state)@),
                    Some(error) => !step->changed && step->Changed_notice@ == refused_notice(
                        action@,
                        error.text(),
                    ) && final(state)@ == old(state)@,
                }
            },
        },
{
    let ghost before = state@;
    match action {
        ObserverManagerAction::BackToPicker => FlowStep::BackToPicker,
        ObserverManagerAction::Delete { expected_group } => FlowStep::ClearView { expected_group },
        ObserverManagerAction::SetAgentView { group_id, filter } => FlowStep::ShowView {
            group_id,
            filter,
        },
        ObserverManagerAction::ClearAgentView => FlowStep::RestoreView,
        ObserverManagerAction::Launch { group_id } => match service.group(state, &group_id) {
            Ok(group) => FlowStep::Launch { group },
            Err(_) => FlowStep::Refused {
                notice: "Could not launch Observer; source pane was preserved".to_owned(),
            },
        },
        ObserverManagerAction::Create { id, title, orchestrator_session_id, workers } => {
            let outcome = as_outcome(
                service.create_group_with_workers(state, id, title, orchestrator_session_id, workers),
            );
            assert(outcome is Ok ==> state@.groups.drop_last() =~= before.groups);
            FlowStep::Changed {
                changed: outcome.is_ok(),
                notice: created_notice(&outcome),
                unsaved: "Could not create Observer; metadata was unchanged".to_owned(),
            }
        },
        ObserverManagerAction::ReplaceWorkers { expected_group, workers } => {
            let outcome = as_outcome(service.replace_workers(state, &expected_group, workers));
            proof {
                find_group_finds(before.groups, expected_group@.id);
            }
            FlowStep::Changed {
                changed: outcome.is_ok(),
                notice: updated_notice(&outcome),
                unsaved: "Could not update Observer; metadata was unchanged".to_owned(),
            }
        },
        ObserverManagerAction::ReassignOrchestrator { expected_group, orchestrator_session_id } => {
            let outcome = as_outcome(
                service.reassign_orchestrator(state, &expected_group, orchestrator_session_id),
            );
            let changed = outcome.is_ok();
            FlowStep::Changed {
                changed,
                notice: reassigned_notice(&outcome),
                unsaved:
                    "Could not reassign Observer; metadata was unchanged; workload lifecycle and placement unchanged".to_owned(),
            }
        },
    }
}

/// Deletes a group once its sidebar view was cleared, and says what follows.
pub fn finish_deletion(
    service: &OrchestrationService,
    state: &mut State,
    expected_group: &OrchestrationGroup,
    was_active: bool,
) -> (end: DeletionEnd)
    ensures
        valid_groups(old(state)@.groups) ==> valid_groups(final(state)@.groups),
        match edit_refusal(old(state)@, expected_group@) {
            None => {
                &&& !end.restore_view
                &&& end.notice@ == "Deleted "@ + expected_group@.title
                    + " metadata; workloads keep running"@
                &&& final(state)@ == (StateView {
                    groups: old(state)@.groups.remove(
                        find_group(old(state)@.groups, expected_group@.id)->0,
                    ),
                    ..old(state)@
                })
            },
            Some(error) => {
                &&& end.restore_view == was_active
                &&& end.notice@ == metadata_failure("delete"@, plain(error.text()))
                &&& final(state)@ == old(state)@
            },
        },
{
    let outcome = as_outcome(service.delete_group_if_unchanged(state, expected_group));
    deletion_end(&outcome, was_active)
}

/// A change that an orchestration command asks for.
#[derive(Debug, PartialEq, Eq)]
pub enum OrchestrationRequest {
    Create { id: OrchestrationGroupId, title: OrchestrationTitle, orchestrator: SessionId },
    Delete { id: OrchestrationGroupId },
    AddWorker {
        group: OrchestrationGroupId,
        session: SessionId,
        title: Option<OrchestrationTitle>,
        capabilities: OrchestrationCapabilities,
    },
    RemoveWorker { group: OrchestrationGroupId, session: SessionId },
}

/// The contents of an [`OrchestrationRequest`].
pub enum RequestedView {
    Create { id: Seq<char>, title: Seq<char>, orchestrator: SessionId },
    Delete { id: Seq<char> },
    AddWorker {
        group: Seq<char>,
        session: SessionId,
        title: Option<Seq<char>>,
        capabilities: OrchestrationCapabilities,
    },
    RemoveWorker { group: Seq<char>, session: SessionId },
}

impl View for OrchestrationRequest {
    type V = RequestedView;

    open spec fn view(&self) -> RequestedView {
        match self {
            OrchestrationRequest::Create { id, title, orchestrator } => RequestedView::Create {
                id: id@,
                title: title@,
                orchestrator: *orchestrator,
            },
            OrchestrationRequest::Delete { id } => RequestedView::Delete { id: id@ },
            OrchestrationRequest::AddWorker { group, session, title, capabilities } =>
                RequestedView::AddWorker {
                group: group@,
                session: *session,
                title: title_view(*title),
                capabilities: *capabilities,
            },
            OrchestrationRequest::RemoveWorker { group, session } => RequestedView::RemoveWorker {
                group: group@,
                session: *session,
            },
        }
    }
}

/// Why an orchestration command is refused.
pub open spec fn request_refusal(state: StateView, request: RequestedView) -> Option<
    OrchestrationErrorView,
> {
    match request {
        RequestedView::Create { id, orchestrator, .. } => creation_refusal(
            state,
            id,
            orchestrator,
            Seq::empty(),
        ),
        RequestedView::Delete { id } => if find_group(state.groups, id) is None {
            Some(OrchestrationErrorView::UnknownGroup { group: id })
        } else {
            None
        },
        RequestedView::AddWorker { group, session, capabilities, .. } => addition_refusal(
            state,
            group,
            session,
            capabilities,
        ),
        RequestedView::RemoveWorker { group, session } => match find_group(state.groups, group) {
            None => Some(OrchestrationErrorView::UnknownGroup { group }),
            Some(at) => if find_member(state.groups[at].workers, session) is None {
                Some(OrchestrationErrorView::NotMember { session, group })
            } else {
                None
            },
        },
    }
}

/// An orchestration command took effect: `after` is what it leaves of the state.
pub open spec fn request_met(state: StateView, request: RequestedView, after: StateView) -> bool {
    match request {
        RequestedView::Create { id, title, orchestrator } => after == (StateView {
            groups: state.groups.push(
                GroupView { id, title, orchestrator, workers: Seq::empty() },
            ),
            ..state
        }),
        RequestedView::Delete { id } => after == (StateView {
            groups: state.groups.remove(find_group(state.groups, id)->0),
            ..state
        }),
        RequestedView::AddWorker { group, session, title, capabilities } => {
            let at = find_group(state.groups, group)->0;
            let old_group = state.groups[at];
            let member = after.groups[at].workers.last();
            &&& member == (MemberView {
                session_id: session,
                membership_id: member.membership_id,
                title,
                capabilities,
            })
            &&& after == (StateView {
                groups: state.groups.update(
                    at,
                    GroupView { workers: old_group.workers.push(member), ..old_group },
                ),
                ..state
            })
        },
        RequestedView::RemoveWorker { group, session } => {
            let at = find_group(state.groups, group)->0;
            let old_group = state.groups[at];
            after == (StateView {
                groups: state.groups.update(
                    at,
                    GroupView {
                        workers: old_group.workers.remove(
                            find_member(old_group.workers, session)->0,
                        ),
                        ..old_group
                    },
                ),
                ..state
            })
        },
    }
}

/// What is said of an orchestration command that took effect.
pub open spec fn met_text(request: RequestedView) -> Seq<char> {
    match request {
        RequestedView::Create { id, .. } => "created "@ + id,
        RequestedView::Delete { id } => "deleted "@ + id,
        RequestedView::AddWorker { group, session, .. } => "added "@ + session_id_text(session@)
            + " to "@ + group,
        RequestedView::RemoveWorker { group, session } => "removed "@ + session_id_text(session@)
            + " from "@ + group,
    }
}

/// Has an orchestration command take effect on the state.
pub fn orchestrate(service: &OrchestrationService, state: &mut State, request: OrchestrationRequest) -> (r:
    Result<String, Failure>)
    ensures
        valid_groups(old(state)@.groups) ==> valid_groups(final(state)@.groups),
        match request_refusal(old(state)@, request@) {
            None => r is Ok && r->Ok_0@ == met_text(request@) && request_met(
                old(state)@,
                request@,
                final(state)@,
            ),
            Some(error) => r is Err && r->Err_0@ == plain(error.text()) && final(state)@ == old(
                state,
            )@,
        },
{
    let ghost before = state@;
    match request {
        OrchestrationRequest::Create { id, title, orchestrator } => {
            let text = "created ".to_owned().concat(id.as_str());
            match service.create_group(state, id, title, orchestrator) {
                Ok(_) => Ok(text),
                Err(error) => Err(Failure::new(error.message())),
            }
        },
        OrchestrationRequest::Delete { id } => match service.delete_group(state, &id) {
            Ok(_) => Ok("deleted ".to_owned().concat(id.as_str())),
            Err(error) => Err(Failure::new(error.message())),
        },
        OrchestrationRequest::AddWorker { group, session, title, capabilities } => {
            proof {
                find_group_finds(before.groups, group@);
            }
            match service.add_worker(state, &group, session, title, capabilities) {
                Ok(_) => Ok(
                    "added ".to_owned().concat(session.to_string().as_str()).concat(" to ").concat(
                        group.as_str(),
                    ),
                ),
                Err(error) => Err(Failure::new(error.message())),
            }
        },
        OrchestrationRequest::RemoveWorker { group, session } => {
            match service.remove_worker(state, &group, session) {
                Ok(_) => Ok(
                    "removed ".to_owned().concat(session.to_string().as_str()).concat(
                        " from ",
                    ).concat(group.as_str()),
                ),
                Err(error) => Err(Failure::new(error.message())),
            }
        },
    }
}

/// Groups only organize workloads: no change of the manager and no command
/// touches a workload.
pub proof fn groups_leave_workloads_alone(
    state: StateView,
    action: ActionView,
    request: RequestedView,
    after: StateView,
)
    requires
        change_made(state, action, after) || request_met(state, request, after),
    ensures
        after.sessions == state.sessions,
        after.version == state.version,
{
}

} // verus!
