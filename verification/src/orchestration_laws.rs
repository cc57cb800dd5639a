//! What the changes of groups do, and what they are refused for.

use vstd::prelude::*;
use vstd::string::*;

use crate::manager_flow::{
    change_made, change_refusal, made_notice, met_text, request_met, request_refusal, RequestedView,
};
use crate::model::{session_id_text, Placement, SessionId};
use crate::observer_manager::ActionView;
use crate::orchestration::{
    addition_refusal, admits, admitted, beside, creation_refusal, edit_refusal, eligible,
    first_worker_problem, latest_member, members_without, reassigned, replacement_refusal,
    worker_problem, workers_problem, OrchestrationErrorView, WorkerSpecView,
};
use crate::state::{
    find_group, find_group_finds, find_member, find_member_finds, GroupView, MemberView,
    OrchestrationCapabilities, SessionStatus, StateView,
};
use crate::text_laws::holds_part;

verus! {

/// The group of an identifier: the first one that has it.
pub open spec fn grouped(state: StateView, id: Seq<char>, at: int) -> bool {
    &&& 0 <= at < state.groups.len()
    &&& state.groups[at].id == id
    &&& forall|i: int| 0 <= i < at ==> (#[trigger] state.groups[i]).id != id
}

/// No group has the identifier.
pub open spec fn ungrouped(state: StateView, id: Seq<char>) -> bool {
    forall|i: int| 0 <= i < state.groups.len() ==> (#[trigger] state.groups[i]).id != id
}

/// Everything beside the group at `at` is as it was.
pub open spec fn other_groups_kept(before: StateView, after: StateView, at: int) -> bool {
    &&& after.version == before.version
    &&& after.sessions == before.sessions
    &&& after.groups.len() == before.groups.len()
    &&& forall|i: int|
        0 <= i < before.groups.len() && i != at ==> #[trigger] after.groups[i] == before.groups[i]
}

/// A session that takes a role runs, under a proof of ownership and as a known
/// incarnation.
pub open spec fn runs(state: StateView, id: SessionId) -> bool {
    exists|i: int|
        0 <= i < state.sessions.len() && (#[trigger] state.sessions[i]).id == id
            && state.sessions[i].status == SessionStatus::Running
            && state.sessions[i].ownership_proof is Some && state.sessions[i].tmux_session_id
            is Some
}

/// The group of an identifier is the one that is found.
proof fn lemma_grouped(state: StateView, id: Seq<char>, at: int)
    requires
        grouped(state, id, at),
    ensures
        find_group(state.groups, id) == Some(at),
{
    find_group_finds(state.groups, id);
    match find_group(state.groups, id) {
        Some(found) => {
            if found < at {
                assert(state.groups[found].id != id);
            }
            if at < found {
                assert(state.groups[at].id != id);
            }
        },
        None => {
            assert(state.groups[at].id != id);
        },
    }
}

/// Where no group has the identifier, none is found.
proof fn lemma_ungrouped(state: StateView, id: Seq<char>)
    ensures
        find_group(state.groups, id) is None <==> ungrouped(state, id),
{
    find_group_finds(state.groups, id);
    match find_group(state.groups, id) {
        Some(at) => {
            assert(state.groups[at].id == id);
        },
        None => {},
    }
}

/// A session is eligible exactly if it runs.
proof fn lemma_eligible(state: StateView, id: SessionId)
    ensures
        eligible(state.sessions, id) <==> runs(state, id),
{
    if eligible(state.sessions, id) {
        let i = choose|i: int|
            0 <= i < state.sessions.len() && (#[trigger] state.sessions[i]).id == id
                && state.sessions[i].exact_running();
        assert(state.sessions[i].id == id && state.sessions[i].status == SessionStatus::Running);
    }
    if runs(state, id) {
        let i = choose|i: int|
            0 <= i < state.sessions.len() && (#[trigger] state.sessions[i]).id == id
                && state.sessions[i].status == SessionStatus::Running
                && state.sessions[i].ownership_proof is Some && state.sessions[i].tmux_session_id
                is Some;
        assert(state.sessions[i].exact_running());
    }
}

/// Only a workload that runs, is owned and is known as an incarnation takes a
/// role in a group.
pub proof fn roles_go_to_running_workloads(state: StateView, id: SessionId)
    ensures
        eligible(state.sessions, id) <==> runs(state, id),
{
    lemma_eligible(state, id);
}

/// Workers are in order exactly if there are at most 64, none is the
/// orchestrator, none comes twice and each is allowed something.
pub proof fn workers_in_order_are_accepted(
    orchestrator: SessionId,
    workers: Seq<WorkerSpecView>,
)
    ensures
        workers_problem(orchestrator, workers) is None <==> {
            &&& workers.len() <= 64
            &&& forall|i: int|
                0 <= i < workers.len() ==> (#[trigger] workers[i]).session_id != orchestrator && (
                workers[i].capabilities.observe_output || workers[i].capabilities.open_interactive
                    || workers[i].capabilities.prompt_agent)
            &&& forall|i: int, j: int|
                0 <= i < j < workers.len() ==> (#[trigger] workers[i]).session_id != (
                #[trigger] workers[j]).session_id
        },
        workers.len() > 64 ==> workers_problem(orchestrator, workers) == Some(
            OrchestrationErrorView::TooManyWorkers,
        ),
{
    lemma_workers(orchestrator, workers);
}

/// No worker is in the way of another exactly if none has a problem of its own.
proof fn lemma_workers(orchestrator: SessionId, workers: Seq<WorkerSpecView>)
    ensures
        first_worker_problem(orchestrator, workers) is None <==> {
            &&& forall|i: int|
                0 <= i < workers.len() ==> (#[trigger] workers[i]).session_id != orchestrator
                    && !workers[i].capabilities.none()
            &&& forall|i: int, j: int|
                0 <= i < j < workers.len() ==> (#[trigger] workers[i]).session_id != (
                #[trigger] workers[j]).session_id
        },
    decreases workers.len(),
{
    if workers.len() > 0 {
        let front = workers.drop_last();
        let last = workers.last();
        let n = front.len() as int;
        lemma_workers(orchestrator, front);
        assert(workers[n] == last);
        assert(forall|i: int| 0 <= i < n ==> front[i] == workers[i]);
        if first_worker_problem(orchestrator, workers) is None {
            assert forall|i: int| 0 <= i < workers.len() implies (
            #[trigger] workers[i]).session_id != orchestrator && !workers[i].capabilities.none() by {
                if i < n {
                    assert(front[i] == workers[i]);
                }
            }
            assert forall|i: int, j: int| 0 <= i < j < workers.len() implies (
            #[trigger] workers[i]).session_id != (#[trigger] workers[j]).session_id by {
                assert(front[i] == workers[i]);
                if j < n {
                    assert(front[j] == workers[j]);
                }
            }
        } else if first_worker_problem(orchestrator, front) is None {
            assert(worker_problem(orchestrator, front, last) is Some);
            if exists|i: int|
                0 <= i < front.len() && (#[trigger] front[i]).session_id == last.session_id {
                let i = choose|i: int|
                    0 <= i < front.len() && (#[trigger] front[i]).session_id == last.session_id;
                assert(workers[i].session_id == workers[n].session_id);
            }
        } else {
            if (forall|i: int|
                0 <= i < workers.len() ==> (#[trigger] workers[i]).session_id != orchestrator
                    && !workers[i].capabilities.none()) && (forall|i: int, j: int|
                0 <= i < j < workers.len() ==> (#[trigger] workers[i]).session_id != (
                #[trigger] workers[j]).session_id) {
                assert forall|i: int| 0 <= i < front.len() implies (
                #[trigger] front[i]).session_id != orchestrator && !front[i].capabilities.none() by {
                    assert(workers[i].session_id != orchestrator);
                }
                assert forall|i: int, j: int| 0 <= i < j < front.len() implies (
                #[trigger] front[i]).session_id != (#[trigger] front[j]).session_id by {
                    assert(workers[i].session_id != workers[j].session_id);
                }
            }
        }
    }
}

/// What is wrong with one worker is told: that it is the orchestrator, that it
/// came before, or that it is allowed nothing.
pub proof fn problems_of_a_worker_are_told(
    orchestrator: SessionId,
    before: Seq<WorkerSpecView>,
    worker: WorkerSpecView,
)
    ensures
        ({
            let problem = worker_problem(orchestrator, before, worker);
            let twice = exists|i: int|
                0 <= i < before.len() && (#[trigger] before[i]).session_id == worker.session_id;
            let nothing = !worker.capabilities.observe_output
                && !worker.capabilities.open_interactive && !worker.capabilities.prompt_agent;
            &&& worker.session_id == orchestrator ==> problem == Some(
                OrchestrationErrorView::OrchestratorIsWorker,
            )
            &&& worker.session_id != orchestrator && twice ==> problem == Some(
                OrchestrationErrorView::DuplicateWorker { session: worker.session_id },
            )
            &&& worker.session_id != orchestrator && !twice && nothing ==> problem == Some(
                OrchestrationErrorView::NoCapability { session: worker.session_id },
            )
            &&& worker.session_id != orchestrator && !twice && !nothing ==> problem is None
        }),
{
}

/// A worker becomes a member as it was asked for: under its own session, with its
/// title and capabilities, in its place. One that was a member stays the same
/// member.
pub proof fn workers_become_members_as_asked_for(
    existing: Seq<MemberView>,
    workers: Seq<WorkerSpecView>,
    members: Seq<MemberView>,
    i: int,
    at: int,
)
    requires
        admitted(existing, workers, members),
        0 <= i < workers.len(),
        forall|j: int, k: int|
            0 <= j < k < existing.len() ==> (#[trigger] existing[j]).session_id != (
            #[trigger] existing[k]).session_id,
    ensures
        members.len() == workers.len(),
        members[i].session_id == workers[i].session_id,
        members[i].title == workers[i].title,
        members[i].capabilities == workers[i].capabilities,
        0 <= at < existing.len() && existing[at].session_id == workers[i].session_id
            ==> members[i].membership_id == existing[at].membership_id,
{
    assert(admits(existing, workers[i], members[i]));
    lemma_latest(existing, workers[i].session_id);
    if 0 <= at < existing.len() && existing[at].session_id == workers[i].session_id {
        match latest_member(existing, workers[i].session_id) {
            Some(known) => {
                let k = choose|k: int| 0 <= k < existing.len() && existing[k] == known;
                if k < at {
                    assert(existing[k].session_id != existing[at].session_id);
                }
                if at < k {
                    assert(existing[at].session_id != existing[k].session_id);
                }
            },
            None => {
                assert(existing[at].session_id != workers[i].session_id);
            },
        }
    }
}

/// The last member of a session is one of them.
proof fn lemma_latest(members: Seq<MemberView>, id: SessionId)
    ensures
        match latest_member(members, id) {
            Some(known) => members.contains(known) && known.session_id == id,
            None => forall|i: int|
                0 <= i < members.len() ==> (#[trigger] members[i]).session_id != id,
        },
    decreases members.len(),
{
    if members.len() > 0 {
        let front = members.drop_last();
        if members.last().session_id == id {
            assert(members[members.len() - 1] == members.last());
        } else {
            lemma_latest(front, id);
            match latest_member(members, id) {
                Some(known) => {
                    let k = choose|k: int| 0 <= k < front.len() && front[k] == known;
                    assert(members[k] == known);
                },
                None => {
                    assert forall|i: int| 0 <= i < members.len() implies (
                    #[trigger] members[i]).session_id != id by {
                        if i < front.len() {
                            assert(front[i] == members[i]);
                        }
                    }
                },
            }
        }
    }
}

/// A group is made exactly if its orchestrator and all of its workers run, its
/// identifier is free and there are fewer than 64 groups.
pub proof fn groups_are_made_of_running_workloads(
    state: StateView,
    id: Seq<char>,
    orchestrator: SessionId,
    workers: Seq<WorkerSpecView>,
)
    ensures
        ({
            let refusal = creation_refusal(state, id, orchestrator, workers);
            let all_run = forall|i: int|
                0 <= i < workers.len() ==> runs(state, (#[trigger] workers[i]).session_id);
            &&& refusal is None <==> runs(state, orchestrator) && all_run && ungrouped(state, id)
                && state.groups.len() < 64
            &&& !runs(state, orchestrator) ==> refusal == Some(
                OrchestrationErrorView::NotEligible { role: "orchestrator"@ },
            )
            &&& runs(state, orchestrator) && !all_run ==> refusal == Some(
                OrchestrationErrorView::NotEligible { role: "worker"@ },
            )
            &&& runs(state, orchestrator) && all_run && !ungrouped(state, id) ==> refusal == Some(
                OrchestrationErrorView::GroupExists { group: id },
            )
            &&& runs(state, orchestrator) && all_run && ungrouped(state, id) && state.groups.len()
                >= 64 ==> refusal == Some(OrchestrationErrorView::GroupLimit)
        }),
{
    lemma_eligible(state, orchestrator);
    lemma_ungrouped(state, id);
    assert forall|i: int| 0 <= i < workers.len() implies eligible(
        state.sessions,
        (#[trigger] workers[i]).session_id,
    ) == runs(state, workers[i].session_id) by {
        lemma_eligible(state, workers[i].session_id);
    }
}

/// A group is edited exactly if it is still the one that was seen.
pub proof fn edits_need_the_group_that_was_seen(state: StateView, expected: GroupView, at: int)
    ensures
        ungrouped(state, expected.id) ==> edit_refusal(state, expected) == Some(
            OrchestrationErrorView::UnknownGroup { group: expected.id },
        ),
        grouped(state, expected.id, at) && state.groups[at] == expected ==> edit_refusal(
            state,
            expected,
        ) is None,
        grouped(state, expected.id, at) && state.groups[at] != expected ==> edit_refusal(
            state,
            expected,
        ) == Some(OrchestrationErrorView::Stale),
{
    lemma_ungrouped(state, expected.id);
    if grouped(state, expected.id, at) {
        lemma_grouped(state, expected.id, at);
    }
}

/// Workers are replaced exactly if they are in order, the group is the one that
/// was seen, and each that is new to it runs. One that stays need not run.
pub proof fn only_new_workers_need_to_run(
    state: StateView,
    expected: GroupView,
    workers: Seq<WorkerSpecView>,
)
    ensures
        replacement_refusal(state, expected, workers) is None <==> {
            &&& workers_problem(expected.orchestrator, workers) is None
            &&& edit_refusal(state, expected) is None
            &&& forall|i: int|
                0 <= i < workers.len() ==> runs(state, (#[trigger] workers[i]).session_id)
                    || holds_member(expected.workers, workers[i].session_id)
        },
        workers_problem(expected.orchestrator, workers) is Some ==> replacement_refusal(
            state,
            expected,
            workers,
        ) == workers_problem(expected.orchestrator, workers),
        workers_problem(expected.orchestrator, workers) is None && edit_refusal(state, expected)
            is Some ==> replacement_refusal(state, expected, workers) == edit_refusal(
            state,
            expected,
        ),
{
    assert forall|i: int| 0 <= i < workers.len() implies (eligible(
        state.sessions,
        (#[trigger] workers[i]).session_id,
    ) == runs(state, workers[i].session_id) && (find_member(
        expected.workers,
        workers[i].session_id,
    ) is Some) == holds_member(expected.workers, workers[i].session_id)) by {
        lemma_eligible(state, workers[i].session_id);
        lemma_member(expected.workers, workers[i].session_id);
    }
}

/// A session is among members.
pub open spec fn holds_member(members: Seq<MemberView>, id: SessionId) -> bool {
    exists|i: int| 0 <= i < members.len() && (#[trigger] members[i]).session_id == id
}

/// A member is found exactly if there is one.
proof fn lemma_member(members: Seq<MemberView>, id: SessionId)
    ensures
        find_member(members, id) is Some <==> holds_member(members, id),
{
    find_member_finds(members, id);
    match find_member(members, id) {
        Some(at) => {
            assert(members[at].session_id == id);
        },
        None => {},
    }
}

/// A worker is added exactly if it is allowed something, runs, is not the
/// orchestrator and no member yet, and there are fewer than 64.
pub proof fn workers_are_added_while_there_is_room(
    state: StateView,
    group: Seq<char>,
    session: SessionId,
    capabilities: OrchestrationCapabilities,
    at: int,
)
    requires
        grouped(state, group, at),
    ensures
        addition_refusal(state, group, session, capabilities) is None <==> {
            &&& capabilities.observe_output || capabilities.open_interactive
                || capabilities.prompt_agent
            &&& runs(state, session)
            &&& state.groups[at].orchestrator != session
            &&& !holds_member(state.groups[at].workers, session)
            &&& state.groups[at].workers.len() < 64
        },
{
    lemma_grouped(state, group, at);
    lemma_eligible(state, session);
    lemma_member(state.groups[at].workers, session);
}

/// Each refusal to add a worker tells its own reason, and no worker is added to a
/// group that there is not.
pub proof fn additions_are_refused_for_their_reason(
    state: StateView,
    group: Seq<char>,
    session: SessionId,
    capabilities: OrchestrationCapabilities,
)
    ensures
        ({
            let refusal = addition_refusal(state, group, session, capabilities);
            let nothing = !capabilities.observe_output && !capabilities.open_interactive
                && !capabilities.prompt_agent;
            &&& nothing ==> refusal == Some(OrchestrationErrorView::NoCapability { session })
            &&& !nothing && !runs(state, session) ==> refusal == Some(
                OrchestrationErrorView::NotEligible { role: "worker"@ },
            )
            &&& !nothing && runs(state, session) && ungrouped(state, group) ==> refusal == Some(
                OrchestrationErrorView::UnknownGroup { group },
            )
        }),
{
    lemma_eligible(state, session);
    lemma_ungrouped(state, group);
}

/// Leaving a session out of members leaves exactly the others, in their order.
pub proof fn members_without_a_session(members: Seq<MemberView>, session: SessionId)
    ensures
        members_without(members, session) == members.filter(
            |member: MemberView| member.session_id != session,
        ),
    decreases members.len(),
{
    reveal(Seq::filter);
    if members.len() > 0 {
        members_without_a_session(members.drop_last(), session);
    } else {
        assert(members.filter(|member: MemberView| member.session_id != session)
            =~= Seq::empty());
    }
}

/// A group with another orchestrator keeps its identifier, its title and all
/// workers but the one that took over.
pub proof fn reassigning_changes_the_orchestrator(group: GroupView, session: SessionId)
    ensures
        reassigned(group, session).id == group.id,
        reassigned(group, session).title == group.title,
        reassigned(group, session).orchestrator == session,
        reassigned(group, session).workers == group.workers.filter(
            |member: MemberView| member.session_id != session,
        ),
{
    members_without_a_session(group.workers, session);
}

/// A companion opens where it was asked to, but never in place of the pane that
/// asked.
pub proof fn companions_leave_the_source_pane(placement: Placement)
    ensures
        placement == Placement::ReplaceCurrentPane ==> beside(placement) == Placement::SplitRight,
        placement != Placement::ReplaceCurrentPane ==> beside(placement) == placement,
{
}

/// A group that was made stands behind the others, as it was asked for, and
/// nothing else changed.
pub proof fn made_groups_stand_behind_the_others(
    state: StateView,
    id: Seq<char>,
    title: Seq<char>,
    orchestrator: SessionId,
    workers: Seq<WorkerSpecView>,
    after: StateView,
)
    ensures
        change_made(state, ActionView::Create { id, title, orchestrator, workers }, after) ==> {
            let made = after.groups.last();
            &&& after.version == state.version
            &&& after.sessions == state.sessions
            &&& after.groups == state.groups.push(made)
            &&& made.id == id
            &&& made.title == title
            &&& made.orchestrator == orchestrator
            &&& made.workers.len() == workers.len()
            &&& forall|i: int|
                0 <= i < workers.len() ==> {
                    &&& (#[trigger] made.workers[i]).session_id == workers[i].session_id
                    &&& made.workers[i].title == workers[i].title
                    &&& made.workers[i].capabilities == workers[i].capabilities
                }
        },
        request_met(state, RequestedView::Create { id, title, orchestrator }, after) ==> {
            let made = after.groups.last();
            &&& after.version == state.version
            &&& after.sessions == state.sessions
            &&& after.groups == state.groups.push(made)
            &&& made.id == id
            &&& made.title == title
            &&& made.orchestrator == orchestrator
            &&& made.workers.len() == 0
        },
{
    if change_made(state, ActionView::Create { id, title, orchestrator, workers }, after) {
        let made = after.groups.last();
        assert(after.groups =~= state.groups.push(made));
        assert forall|i: int| 0 <= i < workers.len() implies {
            &&& (#[trigger] made.workers[i]).session_id == workers[i].session_id
            &&& made.workers[i].title == workers[i].title
            &&& made.workers[i].capabilities == workers[i].capabilities
        } by {
            assert(admits(Seq::empty(), workers[i], made.workers[i]));
        }
    }
}

/// Replacing workers and reassigning the orchestrator change nothing else, in
/// the group or beside it.
pub proof fn edits_change_one_group(
    state: StateView,
    group: GroupView,
    workers: Seq<WorkerSpecView>,
    orchestrator: SessionId,
    after: StateView,
    at: int,
)
    requires
        grouped(state, group.id, at),
        state.groups[at] == group,
    ensures
        change_made(state, ActionView::ReplaceWorkers { group, workers }, after) ==> {
            let edited = after.groups[at];
            &&& other_groups_kept(state, after, at)
            &&& edited.id == group.id
            &&& edited.title == group.title
            &&& edited.orchestrator == group.orchestrator
            &&& edited.workers.len() == workers.len()
            &&& forall|i: int|
                0 <= i < workers.len() ==> {
                    &&& (#[trigger] edited.workers[i]).session_id == workers[i].session_id
                    &&& edited.workers[i].title == workers[i].title
                    &&& edited.workers[i].capabilities == workers[i].capabilities
                }
        },
        change_made(state, ActionView::ReassignOrchestrator { group, orchestrator }, after) ==> {
            let edited = after.groups[at];
            &&& other_groups_kept(state, after, at)
            &&& edited.id == group.id
            &&& edited.title == group.title
            &&& edited.orchestrator == orchestrator
            &&& edited.workers == group.workers.filter(
                |member: MemberView| member.session_id != orchestrator,
            )
        },
{
    lemma_grouped(state, group.id, at);
    reassigning_changes_the_orchestrator(group, orchestrator);
    if change_made(state, ActionView::ReplaceWorkers { group, workers }, after) {
        let edited = after.groups[at];
        assert forall|i: int| 0 <= i < workers.len() implies {
            &&& (#[trigger] edited.workers[i]).session_id == workers[i].session_id
            &&& edited.workers[i].title == workers[i].title
            &&& edited.workers[i].capabilities == workers[i].capabilities
        } by {
            assert(admits(group.workers, workers[i], edited.workers[i]));
        }
    }
}

/// A deleted group is gone, and every other one stays as it was, in its order.
/// A worker that is added stands behind the others, and one that is removed is
/// gone from among them; nothing else changes.
pub proof fn commands_change_one_group(
    state: StateView,
    id: Seq<char>,
    session: SessionId,
    title: Option<Seq<char>>,
    capabilities: OrchestrationCapabilities,
    after: StateView,
    at: int,
    place: int,
)
    requires
        grouped(state, id, at),
    ensures
        request_met(state, RequestedView::Delete { id }, after) ==> {
            &&& after.version == state.version
            &&& after.sessions == state.sessions
            &&& after.groups == state.groups.take(at) + state.groups.skip(at + 1)
        },
        request_met(
            state,
            RequestedView::AddWorker { group: id, session, title, capabilities },
            after,
        ) ==> {
            let before = state.groups[at];
            let edited = after.groups[at];
            &&& other_groups_kept(state, after, at)
            &&& edited.id == before.id
            &&& edited.title == before.title
            &&& edited.orchestrator == before.orchestrator
            &&& edited.workers.len() == before.workers.len() + 1
            &&& edited.workers.drop_last() == before.workers
            &&& edited.workers.last().session_id == session
            &&& edited.workers.last().title == title
            &&& edited.workers.last().capabilities == capabilities
        },
        request_met(state, RequestedView::RemoveWorker { group: id, session }, after) && 0 <= place
            < state.groups[at].workers.len() && state.groups[at].workers[place].session_id
            == session && (forall|i: int|
            0 <= i < place ==> (#[trigger] state.groups[at].workers[i]).session_id != session) ==> {
            let before = state.groups[at];
            let edited = after.groups[at];
            &&& other_groups_kept(state, after, at)
            &&& edited.id == before.id
            &&& edited.title == before.title
            &&& edited.orchestrator == before.orchestrator
            &&& edited.workers == before.workers.take(place) + before.workers.skip(place + 1)
        },
{
    lemma_grouped(state, id, at);
    let before = state.groups[at];
    assert(state.groups.remove(at) =~= state.groups.take(at) + state.groups.skip(at + 1));
    if request_met(
        state,
        RequestedView::AddWorker { group: id, session, title, capabilities },
        after,
    ) {
        let member = after.groups[at].workers.last();
        assert(after.groups[at].workers == before.workers.push(member));
        assert(before.workers.push(member).drop_last() =~= before.workers);
    }
    if 0 <= place < before.workers.len() && before.workers[place].session_id == session && (forall|
        i: int,
    |
        0 <= i < place ==> (#[trigger] before.workers[i]).session_id != session) {
        find_member_finds(before.workers, session);
        match find_member(before.workers, session) {
            Some(found) => {
                if found < place {
                    assert(before.workers[found].session_id != session);
                }
                if place < found {
                    assert(before.workers[place].session_id != session);
                }
            },
            None => {
                assert(before.workers[place].session_id != session);
            },
        }
        assert(before.workers.remove(place) =~= before.workers.take(place) + before.workers.skip(
            place + 1,
        ));
    }
}

/// The manager refuses a change for what the change itself is refused for.
pub proof fn changes_are_refused_for_their_reason(
    state: StateView,
    id: Seq<char>,
    title: Seq<char>,
    orchestrator: SessionId,
    workers: Seq<WorkerSpecView>,
    group: GroupView,
)
    ensures
        change_refusal(state, ActionView::Create { id, title, orchestrator, workers }) is None
            <==> workers_problem(orchestrator, workers) is None && creation_refusal(
            state,
            id,
            orchestrator,
            workers,
        ) is None,
        change_refusal(state, ActionView::ReplaceWorkers { group, workers }) == replacement_refusal(
            state,
            group,
            workers,
        ),
        change_refusal(state, ActionView::ReassignOrchestrator { group, orchestrator }) is None
            <==> edit_refusal(state, group) is None && runs(state, orchestrator),
        edit_refusal(state, group) is Some ==> change_refusal(
            state,
            ActionView::ReassignOrchestrator { group, orchestrator },
        ) == edit_refusal(state, group),
        workers_problem(orchestrator, workers) is Some ==> change_refusal(
            state,
            ActionView::Create { id, title, orchestrator, workers },
        ) == workers_problem(orchestrator, workers),
{
    lemma_eligible(state, orchestrator);
}

/// A command deletes any group that there is, and removes any worker that is in
/// its group; a worker is added and a group made as elsewhere.
pub proof fn commands_are_refused_for_their_reason(
    state: StateView,
    id: Seq<char>,
    title: Seq<char>,
    session: SessionId,
    shown: Option<Seq<char>>,
    capabilities: OrchestrationCapabilities,
    at: int,
)
    ensures
        ungrouped(state, id) ==> {
            let unknown = Some(OrchestrationErrorView::UnknownGroup { group: id });
            &&& request_refusal(state, RequestedView::Delete { id }) == unknown
            &&& request_refusal(state, RequestedView::RemoveWorker { group: id, session })
                == unknown
        },
        grouped(state, id, at) ==> {
            &&& request_refusal(state, RequestedView::Delete { id }) is None
            &&& holds_member(state.groups[at].workers, session) ==> request_refusal(
                state,
                RequestedView::RemoveWorker { group: id, session },
            ) is None
            &&& !holds_member(state.groups[at].workers, session) ==> request_refusal(
                state,
                RequestedView::RemoveWorker { group: id, session },
            ) == Some(OrchestrationErrorView::NotMember { session, group: id })
        },
        request_refusal(
            state,
            RequestedView::AddWorker { group: id, session, title: shown, capabilities },
        ) == addition_refusal(state, id, session, capabilities),
        request_refusal(state, RequestedView::Create { id, title, orchestrator: session })
            == creation_refusal(state, id, session, Seq::empty()),
{
    lemma_ungrouped(state, id);
    if grouped(state, id, at) {
        lemma_grouped(state, id, at);
        lemma_member(state.groups[at].workers, session);
    }
}

/// What is said of a change tells the group by its title, and of a command its
/// group and session.
pub proof fn changes_tell_what_they_changed(
    id: Seq<char>,
    title: Seq<char>,
    session: SessionId,
    workers: Seq<WorkerSpecView>,
    group: GroupView,
    shown: Option<Seq<char>>,
    capabilities: OrchestrationCapabilities,
)
    ensures
        holds_part(
            made_notice(ActionView::Create { id, title, orchestrator: session, workers }),
            title,
        ),
        holds_part(made_notice(ActionView::ReplaceWorkers { group, workers }), group.title),
        holds_part(
            made_notice(ActionView::ReassignOrchestrator { group, orchestrator: session }),
            group.title,
        ),
        met_text(RequestedView::Create { id, title, orchestrator: session }) == "created "@ + id,
        met_text(RequestedView::Delete { id }) == "deleted "@ + id,
        holds_part(
            met_text(
                RequestedView::AddWorker { group: id, session, title: shown, capabilities },
            ),
            session_id_text(session@),
        ),
        holds_part(
            met_text(RequestedView::RemoveWorker { group: id, session }),
            session_id_text(session@),
        ),
{
    let made = made_notice(ActionView::Create { id, title, orchestrator: session, workers });
    let replaced = made_notice(ActionView::ReplaceWorkers { group, workers });
    let moved = made_notice(ActionView::ReassignOrchestrator { group, orchestrator: session });
    let at = "Created "@.len() as int;
    assert(made.subrange(at, at + title.len()) =~= title);
    let at = "Updated "@.len() as int;
    assert(replaced.subrange(at, at + group.title.len()) =~= group.title);
    assert(moved.subrange(at, at + group.title.len()) =~= group.title);
    let name = session_id_text(session@);
    let added = met_text(
        RequestedView::AddWorker { group: id, session, title: shown, capabilities },
    );
    let removed = met_text(RequestedView::RemoveWorker { group: id, session });
    let at = "added "@.len() as int;
    assert(added.subrange(at, at + name.len()) =~= name);
    let at = "removed "@.len() as int;
    assert(removed.subrange(at, at + name.len()) =~= name);
}

} // verus!
