//! Which agent a worker is bound to, when a prompt goes to it, and which agents
//! are shown.

use vstd::prelude::*;
use vstd::string::*;

use crate::agent_view::{
    belongs, filter_condition, group_condition, no_preference, view_params, AgentViewFilter,
};
use crate::herdr_socket::{
    agent_views, AgentStatus, AgentView, DeliveryErrorView, HerdrSessionSnapshot,
};
use crate::json_text::json_string;
use crate::lifecycle_laws::recorded;
use crate::mission_control::{
    authorization, binding, claimants, claims, confirmation, delivery, expectation, metadata_tokens,
    planned, related, BindingFailure, BindingView, DeliveryView, ExpectationView, MemberTarget,
    MissionAgentState, PlanView, RequiredCapability,
};
use crate::model::{session_id_text, SessionId};
use crate::orchestration_laws::{grouped, holds_member, ungrouped};
use crate::state::{
    find_group, find_group_finds, find_member, find_member_finds, find_record, find_record_finds,
    GroupView, MemberView, SessionStatus, StateView,
};
use crate::text_laws::holds_part;
use crate::tokens::{looked_up, table_of, Token};
use crate::uuids::simple_text;

verus! {

/// The member of a session: the first one of it.
pub open spec fn joined(members: Seq<MemberView>, id: SessionId, at: int) -> bool {
    &&& 0 <= at < members.len()
    &&& members[at].session_id == id
    &&& forall|i: int| 0 <= i < at ==> (#[trigger] members[i]).session_id != id
}

/// What is found is what stands there first.
proof fn lemma_found(
    state: StateView,
    group_id: Seq<char>,
    id: SessionId,
    group_at: int,
    member_at: int,
    index: int,
)
    requires
        grouped(state, group_id, group_at),
        joined(state.groups[group_at].workers, id, member_at),
    ensures
        find_group(state.groups, group_id) == Some(group_at),
        find_member(state.groups[group_at].workers, id) == Some(member_at),
        recorded(state, id, index) ==> find_record(state.sessions, id) == Some(index),
{
    find_group_finds(state.groups, group_id);
    match find_group(state.groups, group_id) {
        Some(found) => {
            if found < group_at {
                assert(state.groups[found].id != group_id);
            }
            if group_at < found {
                assert(state.groups[group_at].id != group_id);
            }
        },
        None => {
            assert(state.groups[group_at].id != group_id);
        },
    }
    let members = state.groups[group_at].workers;
    find_member_finds(members, id);
    match find_member(members, id) {
        Some(found) => {
            if found < member_at {
                assert(members[found].session_id != id);
            }
            if member_at < found {
                assert(members[member_at].session_id != id);
            }
        },
        None => {
            assert(members[member_at].session_id != id);
        },
    }
    if recorded(state, id, index) {
        find_record_finds(state.sessions, id);
        match find_record(state.sessions, id) {
            Some(found) => {
                if found < index {
                    assert(state.sessions[found].id != id);
                }
                if index < found {
                    assert(state.sessions[index].id != id);
                }
            },
            None => {
                assert(state.sessions[index].id != id);
            },
        }
    }
}

/// A worker may be used for something exactly if it is the member that is meant,
/// allows it, runs as an owned and known incarnation, and names its agent. What
/// is expected is then that agent, of that worker.
pub proof fn workers_are_used_as_they_allow(
    state: StateView,
    group_id: Seq<char>,
    target: MemberTarget,
    capability: RequiredCapability,
    group_at: int,
    member_at: int,
    index: int,
)
    requires
        grouped(state, group_id, group_at),
        joined(state.groups[group_at].workers, target.session_id, member_at),
        recorded(state, target.session_id, index),
    ensures
        ({
            let member = state.groups[group_at].workers[member_at];
            let record = state.sessions[index];
            let allowed = match capability {
                RequiredCapability::ObserveOutput => member.capabilities.observe_output,
                RequiredCapability::OpenInteractive => member.capabilities.open_interactive,
                RequiredCapability::PromptAgent => member.capabilities.prompt_agent,
            };
            let ready = record.status == SessionStatus::Running && record.ownership_proof is Some
                && record.tmux_session_id is Some && record.herdr_agent is Some;
            let r = expectation(state, group_id, target, Some(capability));
            let unasked = expectation(state, group_id, target, None);
            &&& r is Ok <==> member.membership_id == target.membership_id && allowed && ready
            &&& unasked is Ok <==> member.membership_id == target.membership_id && ready
            &&& r matches Ok(expected) ==> expected.group_id == group_id && expected.session_id
                == target.session_id && expected.membership_id == target.membership_id && Some(
                expected.expected_agent,
            ) == record.herdr_agent
            &&& unasked is Ok && r is Ok ==> unasked == r
        }),
{
    lemma_found(state, group_id, target.session_id, group_at, member_at, index);
}

/// A worker of a group that there is not, or that is none of its members, is not
/// used.
pub proof fn strangers_are_not_used(
    state: StateView,
    group_id: Seq<char>,
    target: MemberTarget,
    capability: Option<RequiredCapability>,
    at: int,
)
    ensures
        ungrouped(state, group_id) ==> expectation(state, group_id, target, capability) is Err,
        grouped(state, group_id, at) && !holds_member(state.groups[at].workers, target.session_id)
            ==> expectation(state, group_id, target, capability) is Err,
{
    find_group_finds(state.groups, group_id);
    match find_group(state.groups, group_id) {
        Some(found) => {
            assert(state.groups[found].id == group_id);
            if grouped(state, group_id, at) {
                if found < at {
                    assert(state.groups[found].id != group_id);
                }
                if at < found {
                    assert(state.groups[at].id != group_id);
                }
                find_member_finds(state.groups[at].workers, target.session_id);
                match find_member(state.groups[at].workers, target.session_id) {
                    Some(k) => {
                        assert(state.groups[at].workers[k].session_id == target.session_id);
                    },
                    None => {},
                }
            }
        },
        None => {},
    }
}

/// The agents that claim to be a worker are exactly those whose pane is labelled
/// with its group, its session and its membership, in their order.
pub proof fn claims_are_made_by_labels(agents: Seq<AgentView>, expected: ExpectationView)
    ensures
        claimants(agents, expected) == agents.filter(
            |agent: AgentView| labelled(agent, expected),
        ),
    decreases agents.len(),
{
    let wanted = |agent: AgentView| labelled(agent, expected);
    reveal(Seq::filter);
    if agents.len() > 0 {
        claims_are_made_by_labels(agents.drop_last(), expected);
        assert(claims(agents.last(), expected) == wanted(agents.last()));
    } else {
        assert(agents.filter(wanted) =~= Seq::empty());
    }
}

/// A pane carries the labels of a worker's membership.
pub open spec fn labelled(agent: AgentView, expected: ExpectationView) -> bool {
    &&& looked_up(agent.tokens, "tether_group"@) == Some(expected.group_id)
    &&& looked_up(agent.tokens, "tether_session"@) == Some(
        session_id_text(expected.session_id@),
    )
    &&& looked_up(agent.tokens, "tether_membership"@) == Some(simple_text(expected.membership_id@))
}

/// A worker is bound to the one agent that claims to be it, if that is of the
/// expected kind, and to nothing else. Why it is not bound is told.
pub proof fn workers_are_bound_to_their_one_agent(
    agents: Seq<AgentView>,
    expected: ExpectationView,
)
    ensures
        ({
            let exact = agents.filter(|agent: AgentView| labelled(agent, expected));
            let near = exists|i: int|
                0 <= i < agents.len() && looked_up(
                    (#[trigger] agents[i]).tokens,
                    "tether_group"@,
                ) == Some(expected.group_id) && looked_up(agents[i].tokens, "tether_session"@)
                    == Some(session_id_text(expected.session_id@));
            let r = binding(agents, expected);
            &&& exact.len() == 0 && !near ==> r == Err::<BindingView, BindingFailure>(
                BindingFailure::Detached,
            )
            &&& exact.len() == 0 && near ==> r == Err::<BindingView, BindingFailure>(
                BindingFailure::StaleMembership,
            )
            &&& exact.len() > 1 ==> r == Err::<BindingView, BindingFailure>(
                BindingFailure::Ambiguous,
            )
            &&& exact.len() == 1 && (exact[0].agent is None || exact[0].agent->0.len() == 0) ==> r
                == Err::<BindingView, BindingFailure>(BindingFailure::UnknownAgent)
            &&& exact.len() == 1 && exact[0].agent is Some && exact[0].agent->0.len() > 0
                && exact[0].agent->0 != expected.expected_agent ==> r == Err::<
                BindingView,
                BindingFailure,
            >(BindingFailure::AgentKindMismatch)
            &&& exact.len() == 1 && exact[0].agent == Some(expected.expected_agent)
                && expected.expected_agent.len() > 0 ==> {
                &&& r is Ok
                &&& r->Ok_0.group_id == expected.group_id
                &&& r->Ok_0.session_id == expected.session_id
                &&& r->Ok_0.membership_id == expected.membership_id
                &&& r->Ok_0.agent == expected.expected_agent
                &&& r->Ok_0.pane_id == exact[0].pane_id
                &&& r->Ok_0.terminal_id == exact[0].terminal_id
                &&& r->Ok_0.name == exact[0].name
                &&& r->Ok_0.status == exact[0].agent_status
                &&& r->Ok_0.state_change_seq == exact[0].state_change_seq
                &&& r->Ok_0.revision == exact[0].revision
            }
        }),
{
    claims_are_made_by_labels(agents, expected);
    let near = exists|i: int|
        0 <= i < agents.len() && looked_up((#[trigger] agents[i]).tokens, "tether_group"@) == Some(
            expected.group_id,
        ) && looked_up(agents[i].tokens, "tether_session"@) == Some(
            session_id_text(expected.session_id@),
        );
    if near {
        let i = choose|i: int|
            0 <= i < agents.len() && looked_up((#[trigger] agents[i]).tokens, "tether_group"@)
                == Some(expected.group_id) && looked_up(agents[i].tokens, "tether_session"@)
                == Some(session_id_text(expected.session_id@));
        assert(related(agents[i], expected));
    }
    if exists|i: int| 0 <= i < agents.len() && related(#[trigger] agents[i], expected) {
        let i = choose|i: int| 0 <= i < agents.len() && related(#[trigger] agents[i], expected);
        assert(looked_up(agents[i].tokens, "tether_group"@) == Some(expected.group_id));
        assert(near);
    }
}

/// A snapshot authorizes a worker exactly if Herdr is new enough, the worker is
/// bound and, for a prompt, its agent is idle or done.
pub proof fn authorization_needs_a_binding(
    snapshot: HerdrSessionSnapshot,
    expected: ExpectationView,
    for_prompt: bool,
)
    ensures
        ({
            let bound = binding(agent_views(snapshot.agents@), expected);
            let r = authorization(snapshot, expected, for_prompt);
            &&& r is Ok <==> snapshot.supported() && bound is Ok && (for_prompt ==> (
            bound->Ok_0.status == AgentStatus::Idle || bound->Ok_0.status == AgentStatus::Done))
            &&& r is Ok ==> r->Ok_0 == bound->Ok_0
            &&& snapshot.supported() && bound is Err ==> r == Err::<BindingView, Seq<char>>(
                bound->Err_0.text(),
            )
        }),
{
}

/// A prompt is confirmed exactly if the worker is still bound to the same agent
/// in the same terminal, which did nothing in between and is idle or done.
pub proof fn confirmation_needs_the_same_occupant(
    first: BindingView,
    snapshot: HerdrSessionSnapshot,
    expected: ExpectationView,
)
    ensures
        ({
            let bound = binding(agent_views(snapshot.agents@), expected);
            let r = confirmation(first, snapshot, expected);
            &&& r is Ok <==> {
                &&& bound is Ok
                &&& bound->Ok_0.group_id == first.group_id
                &&& bound->Ok_0.session_id == first.session_id
                &&& bound->Ok_0.membership_id == first.membership_id
                &&& bound->Ok_0.terminal_id == first.terminal_id
                &&& bound->Ok_0.agent == first.agent
                &&& bound->Ok_0.name == first.name
                &&& bound->Ok_0.state_change_seq == first.state_change_seq
                &&& bound->Ok_0.status == AgentStatus::Idle || bound->Ok_0.status
                    == AgentStatus::Done
            }
            &&& r is Ok ==> r->Ok_0 == bound->Ok_0
        }),
{
}

/// A prompt is attempted exactly for destinations that were reviewed, of which
/// there are at most eight, and once for each.
pub proof fn prompts_are_attempted_once_each(
    targets: Seq<MemberTarget>,
    reviewed: bool,
    at: int,
)
    requires
        0 <= at < targets.len(),
    ensures
        ({
            let plan = planned(targets, reviewed, at);
            let first = forall|i: int| 0 <= i < at ==> #[trigger] targets[i] != targets[at];
            &&& plan is Attempt <==> reviewed && targets.len() <= 8 && first
            &&& plan matches PlanView::Attempt(target) ==> target == targets[at]
            &&& plan matches PlanView::Refused(told) ==> (told matches DeliveryView::Rejected {
                session_id,
                reason,
            } && session_id == targets[at].session_id)
        }),
{
    let first = forall|i: int| 0 <= i < at ==> #[trigger] targets[i] != targets[at];
    if targets.take(at).contains(targets[at]) {
        let k = choose|k: int| 0 <= k < at && targets.take(at)[k] == targets[at];
        assert(targets[k] == targets[at]);
    } else if !first {
        let k = choose|k: int| 0 <= k < at && #[trigger] targets[k] == targets[at];
        assert(targets.take(at)[k] == targets[at]);
    }
}

/// A prompt counts as delivered only if the agent that answered is the one that
/// was bound; its state is told as Herdr reports it. A rejection is told with its
/// code and message, and anything else is uncertain.
pub proof fn deliveries_tell_what_is_known(
    session_id: SessionId,
    bound: BindingView,
    agent: AgentView,
    code: Seq<char>,
    message: Seq<char>,
)
    ensures
        ({
            let same = agent.terminal_id == bound.terminal_id && agent.agent == Some(bound.agent);
            let told = delivery(session_id, bound, Ok(agent));
            &&& !same ==> told == (DeliveryView::Uncertain { session_id })
            &&& same ==> told == (DeliveryView::Delivered {
                session_id,
                final_state: match agent.agent_status {
                    AgentStatus::Idle => MissionAgentState::Idle,
                    AgentStatus::Working => MissionAgentState::Working,
                    AgentStatus::Blocked => MissionAgentState::Blocked,
                    AgentStatus::Done => MissionAgentState::Done,
                    AgentStatus::Unknown => MissionAgentState::Unknown,
                },
            })
        }),
        delivery(session_id, bound, Err(DeliveryErrorView::Uncertain)) == (
        DeliveryView::Uncertain { session_id }),
        delivery(session_id, bound, Err(DeliveryErrorView::Rejected { code, message })) matches
            DeliveryView::Rejected { session_id: told, reason } && told == session_id
            && holds_part(reason, code) && holds_part(reason, message),
{
    let reason = "Herdr rejected prompt: "@ + code + ": "@ + message;
    let at = "Herdr rejected prompt: "@.len() as int;
    assert(reason.subrange(at, at + code.len()) =~= code);
    let at = reason.len() - message.len();
    assert(reason.subrange(at, at + message.len()) =~= message);
}

/// The labels of a worker's pane name its group, its session, its membership and
/// whether it runs elsewhere.
pub proof fn labels_name_the_worker(group_id: Seq<char>, member: MemberView, remote: bool)
    ensures
        ({
            let labels = metadata_tokens(group_id, member, remote);
            &&& labels.len() == 4
            &&& labels.contains(("tether_group"@, group_id))
            &&& labels.contains(("tether_session"@, session_id_text(member.session_id@)))
            &&& labels.contains(("tether_membership"@, simple_text(member.membership_id@)))
            &&& remote ==> labels.contains(("tether_remote"@, "true"@))
            &&& !remote ==> labels.contains(("tether_remote"@, "false"@))
        }),
{
    let labels = metadata_tokens(group_id, member, remote);
    assert(labels[0] == ("tether_group"@, group_id));
    assert(labels[1] == ("tether_session"@, session_id_text(member.session_id@)));
    assert(labels[2] == ("tether_membership"@, simple_text(member.membership_id@)));
    assert(labels[3].0 == "tether_remote"@);
    if remote {
        assert(labels[3] == ("tether_remote"@, "true"@));
    } else {
        assert(labels[3] == ("tether_remote"@, "false"@));
    }
}

/// A table of labels gives the last text of a name, and nothing for a name that
/// it does not hold.
pub proof fn tables_give_the_last_text(entries: Seq<Token>, name: Seq<char>, at: int)
    ensures
        0 <= at < entries.len() && entries[at].name@ == name && (forall|i: int|
            at < i < entries.len() ==> (#[trigger] entries[i]).name@ != name) ==> looked_up(
            table_of(entries),
            name,
        ) == Some(entries[at].value@),
        (forall|i: int| 0 <= i < entries.len() ==> (#[trigger] entries[i]).name@ != name)
            ==> looked_up(table_of(entries), name) is None,
    decreases entries.len(),
{
    if entries.len() > 0 {
        let front = entries.drop_last();
        let n = entries.len() - 1;
        assert(entries.last() == entries[n]);
        tables_give_the_last_text(front, name, at);
        if 0 <= at < n && entries[at].name@ == name && (forall|i: int|
            at < i < entries.len() ==> (#[trigger] entries[i]).name@ != name) {
            assert(entries[n].name@ != name);
            assert forall|i: int| at < i < front.len() implies (
            #[trigger] front[i]).name@ != name by {
                assert(entries[i].name@ != name);
            }
            assert(front[at] == entries[at]);
        }
        if forall|i: int| 0 <= i < entries.len() ==> (#[trigger] entries[i]).name@ != name {
            assert(entries[n].name@ != name);
            assert forall|i: int| 0 <= i < front.len() implies (
            #[trigger] front[i]).name@ != name by {
                assert(entries[i].name@ != name);
            }
        }
    }
}

/// A session belongs to a group as its orchestrator or as one of its workers.
pub proof fn members_belong_to_their_group(group: GroupView, id: SessionId)
    ensures
        belongs(group, id) <==> group.orchestrator == id || holds_member(group.workers, id),
{
    find_member_finds(group.workers, id);
    match find_member(group.workers, id) {
        Some(at) => {
            assert(group.workers[at].session_id == id);
        },
        None => {},
    }
}

/// A view is about one group, whose identifier is part of its condition: of all
/// its agents, of those that are blocked or done, or of those elsewhere.
pub proof fn views_are_about_their_group(group_id: Seq<char>, filter: AgentViewFilter)
    ensures
        holds_part(view_params(group_id, filter), filter_condition(group_id, filter)),
        holds_part(filter_condition(group_id, filter), group_condition(group_id)),
        holds_part(group_condition(group_id), json_string(group_id)),
        holds_part(group_condition(group_id), json_string("tether_group"@)),
        filter == AgentViewFilter::All ==> filter_condition(group_id, filter) == group_condition(
            group_id,
        ),
        filter == AgentViewFilter::NeedsAttention ==> holds_part(
            filter_condition(group_id, filter),
            "\"values\":[\"blocked\",\"done\"]"@,
        ),
        filter == AgentViewFilter::Remote ==> holds_part(
            filter_condition(group_id, filter),
            json_string("tether_remote"@),
        ),
        no_preference().group_id is None,
        no_preference().filter == AgentViewFilter::All,
{
    let condition = filter_condition(group_id, filter);
    let group = group_condition(group_id);
    let params = view_params(group_id, filter);
    let at = "{\"filter\":"@.len() as int;
    assert(params.subrange(at, at + condition.len()) =~= condition);
    let name = json_string("tether_group"@);
    let at = "{\"field\":{\"token\":"@.len() as int;
    assert(group.subrange(at, at + name.len()) =~= name);
    let value = json_string(group_id);
    let at = group.len() - "}"@.len() - value.len();
    assert(group.subrange(at, at + value.len()) =~= value);
    match filter {
        AgentViewFilter::All => {
            let at: int = 0;
            assert(condition.subrange(at, at + group.len()) =~= group);
        },
        AgentViewFilter::NeedsAttention => {
            let at = "{\"filters\":["@.len() as int;
            assert(condition.subrange(at, at + group.len()) =~= group);
            reveal_strlit(
                ",{\"field\":\"status\",\"op\":\"in\",\"values\":[\"blocked\",\"done\"]}],\"op\":\"all\"}",
            );
            reveal_strlit("\"values\":[\"blocked\",\"done\"]");
            let part = "\"values\":[\"blocked\",\"done\"]"@;
            let at = "{\"filters\":["@.len() + group.len() + 29;
            assert(condition.subrange(at as int, at as int + part.len()) =~= part);
        },
        AgentViewFilter::Remote => {
            let at = "{\"filters\":["@.len() as int;
            assert(condition.subrange(at, at + group.len()) =~= group);
            let part = json_string("tether_remote"@);
            let at = "{\"filters\":["@.len() + group.len() + ",{\"field\":{\"token\":"@.len();
            assert(condition.subrange(at as int, at as int + part.len()) =~= part);
        },
    }
}

} // verus!
