//! What the Observer manager says of each change that was tried.
//!
//! A notice never holds an identifier of a session, a pane or a group: it says
//! what became of the change, and what to do next.

use vstd::prelude::*;
use vstd::string::*;

use crate::agent_view::AgentViewFilter;
use crate::failure::{led_to, Failure, FailureView};
use crate::herdr::{env_context, plugin_env_context, HerdrContext, HerdrEnvironment};
use crate::model::{OrchestrationGroupId, SessionId};
use crate::orchestration::MANAGER_STALE_GROUP_ERROR;
use crate::state::{find_group, group_position, GroupView, OrchestrationGroup, State, StateView};

verus! {

/// What went wrong where an Observer is launched from elsewhere than the plugin
/// pane.
pub const OBSERVER_PLUGIN_CONTEXT_ERROR: &'static str =
    "Observer must be launched from the Tether plugin pane";

/// The contents of the outcome of a change to a group.
pub open spec fn outcome_view(outcome: Result<OrchestrationGroup, Failure>) -> Result<
    GroupView,
    FailureView,
> {
    match outcome {
        Ok(group) => Ok(group@),
        Err(failure) => Err(failure@),
    }
}

/// A change was refused because its group was changed by another in between.
pub open spec fn stale(failure: FailureView) -> bool {
    failure.chain().contains(MANAGER_STALE_GROUP_ERROR@)
}

/// What is said of a change to the metadata that failed.
pub open spec fn metadata_failure(operation: Seq<char>, failure: FailureView) -> Seq<char> {
    if stale(failure) {
        "Observer changed while this screen was open; refreshed current metadata; review and retry"@
    } else {
        "Could not "@ + operation + " Observer; metadata was unchanged"@
    }
}

/// What is said of a change to the metadata that failed.
pub fn observer_metadata_failure_notice(operation: &str, error: &Failure) -> (notice: String)
    ensures
        notice@ == metadata_failure(operation@, error@),
{
    if error.mentions(MANAGER_STALE_GROUP_ERROR) {
        return "Observer changed while this screen was open; refreshed current metadata; review and retry".to_owned();
    }
    "Could not ".to_owned().concat(operation).concat(" Observer; metadata was unchanged")
}

/// What is said of an Observer that could not be launched.
pub open spec fn launch_failure(failure: FailureView) -> Seq<char> {
    if failure.chain().contains(OBSERVER_PLUGIN_CONTEXT_ERROR@) {
        "Could not launch Observer; open it through prefix+t in a Herdr pane; source pane was preserved"@
    } else {
        "Could not launch Observer; source pane was preserved"@
    }
}

/// What is said of an Observer that could not be launched.
pub fn observer_launch_failure_notice(error: &Failure) -> (notice: String)
    ensures
        notice@ == launch_failure(error@),
{
    if error.mentions(OBSERVER_PLUGIN_CONTEXT_ERROR) {
        return "Could not launch Observer; open it through prefix+t in a Herdr pane; source pane was preserved".to_owned();
    }
    "Could not launch Observer; source pane was preserved".to_owned()
}

/// What is said of an orchestrator that was to be replaced.
pub open spec fn reassignment(outcome: Result<GroupView, FailureView>) -> Seq<char> {
    match outcome {
        Ok(group) => "Updated "@ + group.title
            + " metadata; workload lifecycle and placement unchanged"@,
        Err(failure) => if stale(failure) {
            metadata_failure("reassign"@, failure)
        } else {
            "Could not reassign Observer; metadata was unchanged; workload lifecycle and placement unchanged"@
        },
    }
}

/// What is said of an orchestrator that was to be replaced.
pub fn reassigned_notice(outcome: &Result<OrchestrationGroup, Failure>) -> (notice: String)
    ensures
        notice@ == reassignment(outcome_view(*outcome)),
{
    match outcome {
        Ok(group) => "Updated ".to_owned().concat(group.title.as_str()).concat(
            " metadata; workload lifecycle and placement unchanged",
        ),
        Err(error) => {
            if error.mentions(MANAGER_STALE_GROUP_ERROR) {
                return observer_metadata_failure_notice("reassign", error);
            }
            "Could not reassign Observer; metadata was unchanged; workload lifecycle and placement unchanged".to_owned()
        },
    }
}

/// Has an orchestrator replaced, once, and says what became of it. The group is
/// handed on as the screen showed it.
pub fn dispatch_reassign_orchestrator<
    F: FnOnce(&OrchestrationGroup, SessionId) -> Result<OrchestrationGroup, Failure>,
>(expected_group: OrchestrationGroup, orchestrator_session_id: SessionId, reassign: F) -> (notice:
    String)
    requires
        reassign.requires((&expected_group, orchestrator_session_id)),
    ensures
        exists|outcome: Result<OrchestrationGroup, Failure>|
            reassign.ensures((&expected_group, orchestrator_session_id), outcome) && notice@
                == reassignment(#[trigger] outcome_view(outcome)),
{
    let outcome = reassign(&expected_group, orchestrator_session_id);
    reassigned_notice(&outcome)
}

/// What is said of a group that was to be created.
pub fn created_notice(outcome: &Result<OrchestrationGroup, Failure>) -> (notice: String)
    ensures
        notice@ == match outcome_view(*outcome) {
            Ok(group) => "Created "@ + group.title + "; workload lifecycle unchanged"@,
            Err(_) => "Could not create Observer; metadata was unchanged"@,
        },
{
    match outcome {
        Ok(group) => "Created ".to_owned().concat(group.title.as_str()).concat(
            "; workload lifecycle unchanged",
        ),
        Err(_) => "Could not create Observer; metadata was unchanged".to_owned(),
    }
}

/// What is said of workers that were to be replaced.
pub fn updated_notice(outcome: &Result<OrchestrationGroup, Failure>) -> (notice: String)
    ensures
        notice@ == match outcome_view(*outcome) {
            Ok(group) => "Updated "@ + group.title + "; workload lifecycle unchanged"@,
            Err(failure) => metadata_failure("update"@, failure),
        },
{
    match outcome {
        Ok(group) => "Updated ".to_owned().concat(group.title.as_str()).concat(
            "; workload lifecycle unchanged",
        ),
        Err(error) => observer_metadata_failure_notice("update", error),
    }
}

/// The title of a group, where the state holds it.
pub open spec fn group_title(state: StateView, id: Seq<char>) -> Option<Seq<char>> {
    match find_group(state.groups, id) {
        Some(at) => Some(state.groups[at].title),
        None => None,
    }
}

/// What is said of a sidebar view that was to be shown.
pub open spec fn view_text(shown: bool, title: Option<Seq<char>>, filter: AgentViewFilter) -> Seq<char> {
    if !shown {
        "Could not apply Agents sidebar view; previous view was preserved"@
    } else {
        match title {
            Some(title) => "Agents sidebar now shows "@ + filter.text() + " for "@ + title
                + "; open members to add them"@,
            None => "Agents sidebar view applied"@,
        }
    }
}

/// What is said of the sidebar view of a group that was to be shown.
pub fn view_notice(
    state: &State,
    group_id: &OrchestrationGroupId,
    filter: AgentViewFilter,
    outcome: &Result<(), Failure>,
) -> (notice: String)
    ensures
        notice@ == view_text(outcome is Ok, group_title(state@, group_id@), filter),
{
    if outcome.is_err() {
        return "Could not apply Agents sidebar view; previous view was preserved".to_owned();
    }
    match group_position(&state.orchestration_groups, group_id) {
        Some(at) => {
            assert(state@.groups[at as int] == state.orchestration_groups@[at as int]@);
            "Agents sidebar now shows ".to_owned().concat(filter.label()).concat(" for ").concat(
                state.orchestration_groups[at].title.as_str(),
            ).concat("; open members to add them")
        },
        None => "Agents sidebar view applied".to_owned(),
    }
}

/// What is said of the sidebar that was to be shown as usual.
pub fn default_view_notice(outcome: &Result<(), Failure>) -> (notice: String)
    ensures
        notice@ == if outcome is Ok {
            "Restored default Agents sidebar"@
        } else {
            "Could not restore default Agents sidebar; previous view was preserved"@
        },
{
    if outcome.is_ok() {
        "Restored default Agents sidebar".to_owned()
    } else {
        "Could not restore default Agents sidebar; previous view was preserved".to_owned()
    }
}

/// What the deletion of a group calls for, once its sidebar view was cleared.
#[derive(Debug, PartialEq, Eq)]
pub enum DeletionStep {
    /// The view could not be cleared: nothing is deleted, and this is said.
    Stop(String),
    /// The group is deleted. Its view was active.
    Delete { was_active: bool },
}

/// What the deletion of a group calls for, once its sidebar view was cleared.
pub fn deletion_step(cleared: Result<bool, Failure>) -> (step: DeletionStep)
    ensures
        match cleared {
            Ok(was_active) => step == (DeletionStep::Delete { was_active }),
            Err(_) => step is Stop && step->Stop_0@
                == "Could not delete Observer; active Agents view was preserved"@,
        },
{
    match cleared {
        Ok(was_active) => DeletionStep::Delete { was_active },
        Err(_) => DeletionStep::Stop(
            "Could not delete Observer; active Agents view was preserved".to_owned(),
        ),
    }
}

/// What follows on a deletion that was tried.
#[derive(Debug, PartialEq, Eq)]
pub struct DeletionEnd {
    pub notice: String,
    /// The sidebar view that was cleared is shown again.
    pub restore_view: bool,
}

/// What follows on a deletion that was tried. A view that was cleared for a
/// group that is still there is shown again.
pub fn deletion_end(outcome: &Result<OrchestrationGroup, Failure>, was_active: bool) -> (end:
    DeletionEnd)
    ensures
        end.restore_view == (outcome is Err && was_active),
        end.notice@ == match outcome_view(*outcome) {
            Ok(group) => "Deleted "@ + group.title + " metadata; workloads keep running"@,
            Err(failure) => metadata_failure("delete"@, failure),
        },
{
    match outcome {
        Ok(group) => DeletionEnd {
            notice: "Deleted ".to_owned().concat(group.title.as_str()).concat(
                " metadata; workloads keep running",
            ),
            restore_view: false,
        },
        Err(error) => DeletionEnd {
            notice: observer_metadata_failure_notice("delete", error),
            restore_view: was_active,
        },
    }
}

/// The pane from which the manager launches an Observer: that of the plugin.
pub fn manager_launch_context(environment: &HerdrEnvironment) -> (r: Result<HerdrContext, Failure>)
    ensures
        match plugin_env_context(*environment) {
            Ok(context) => r is Ok && r->Ok_0@ == context,
            Err(failure) => r is Err && r->Err_0@ == led_to(OBSERVER_PLUGIN_CONTEXT_ERROR@, failure),
        },
{
    match HerdrContext::from_plugin_env(environment) {
        Ok(context) => Ok(context),
        Err(failure) => Err(failure.context(OBSERVER_PLUGIN_CONTEXT_ERROR.to_owned())),
    }
}

/// The pane from which a command launches an Observer.
pub fn observe_context(environment: &HerdrEnvironment) -> (r: Result<HerdrContext, Failure>)
    ensures
        match env_context(*environment) {
            Ok(context) => r is Ok && r->Ok_0@ == context,
            Err(failure) => r is Err && r->Err_0@ == led_to(
                "orchestration observe must be launched from a Herdr pane"@,
                failure,
            ),
        },
{
    match HerdrContext::from_env(environment) {
        Ok(context) => Ok(context),
        Err(failure) => Err(
            failure.context("orchestration observe must be launched from a Herdr pane".to_owned()),
        ),
    }
}

/// What is said of a failed change does not depend on what went wrong, beyond
/// that the group was changed in between: no detail of the failure is shown.
pub proof fn failure_notices_hold_no_detail(
    operation: Seq<char>,
    a: FailureView,
    b: FailureView,
)
    requires
        stale(a) == stale(b),
    ensures
        metadata_failure(operation, a) == metadata_failure(operation, b),
        reassignment(Err::<GroupView, FailureView>(a)) == reassignment(
            Err::<GroupView, FailureView>(b),
        ),
{
}

} // verus!
