//! Mission Control: which pane of Herdr holds a worker's agent, and when a
//! prompt may be handed to it.

use vstd::prelude::*;
use vstd::string::*;

use crate::agent_view::{AGENT_VIEW_SOURCE, GROUP_TOKEN, REMOTE_TOKEN};
use crate::failure::{plain, Failure};
use crate::herdr_socket::{
    agent_views, AgentStatus, AgentView, DeliveryErrorView, HerdrAgentInfo, HerdrSessionSnapshot,
    PromptDeliveryError,
};
use crate::model::{session_id_text, OrchestrationGroupId, OrchestrationMembershipId, SessionId};
use crate::socket_client::{
    asked, gives_call, made_call, metadata_params, HerdrSocketClient, SocketCall,
};
use crate::herdr_socket::DEFAULT_SOCKET_TIMEOUT_MILLIS;
use crate::state::{
    find_group, find_member, find_record, group_position, member_position, record_position,
    MemberView, OrchestrationMember, State, StateStore, StateView,
};
use crate::text::{blank, copy_opt, decimal, numeral, opt_view, same_text};
use crate::tokens::{looked_up, token_views, Token};
use crate::uuids::simple_text;

verus! {

pub const SESSION_TOKEN: &'static str = "tether_session";

pub const MEMBERSHIP_TOKEN: &'static str = "tether_membership";

pub const MAX_PROMPT_TARGETS: usize = 8;

/// How long an agent may work on a prompt, in milliseconds.
pub const PROMPT_WAIT_MILLIS: u128 = 1_800_000;

/// What is known of a worker's agent.
#[derive(Clone, Copy, Debug, PartialEq, Eq, Structural)]
pub enum MissionAgentState {
    Detached,
    Idle,
    Working,
    Blocked,
    Done,
    Unknown,
    Unreachable,
    Stale,
}

impl Default for MissionAgentState {
    fn default() -> (state: Self)
        ensures
            state == MissionAgentState::Unknown,
    {
        MissionAgentState::Unknown
    }
}

impl MissionAgentState {
    /// The state, as a reader sees it.
    pub fn label(self) -> (text: &'static str)
        ensures
            text@ == match self {
                MissionAgentState::Detached => "DETACHED"@,
                MissionAgentState::Idle => "IDLE"@,
                MissionAgentState::Working => "WORKING"@,
                MissionAgentState::Blocked => "BLOCKED"@,
                MissionAgentState::Done => "DONE"@,
                MissionAgentState::Unknown => "UNKNOWN"@,
                MissionAgentState::Unreachable => "UNREACHABLE"@,
                MissionAgentState::Stale => "STALE"@,
            },
    {
        match self {
            MissionAgentState::Detached => "DETACHED",
            MissionAgentState::Idle => "IDLE",
            MissionAgentState::Working => "WORKING",
            MissionAgentState::Blocked => "BLOCKED",
            MissionAgentState::Done => "DONE",
            MissionAgentState::Unknown => "UNKNOWN",
            MissionAgentState::Unreachable => "UNREACHABLE",
            MissionAgentState::Stale => "STALE",
        }
    }

    /// Whether a prompt may be handed over in this state.
    pub fn permits_prompt(self) -> (r: bool)
        ensures
            r == (self == MissionAgentState::Idle || self == MissionAgentState::Done),
    {
        matches!(self, MissionAgentState::Idle | MissionAgentState::Done)
    }

    /// No state of an agent lets anything be destroyed.
    pub fn permits_destructive_action(self) -> (r: bool)
        ensures
            !r,
    {
        false
    }

    /// The state of an agent that Herdr recognizes.
    pub open spec fn of(status: AgentStatus) -> MissionAgentState {
        match status {
            AgentStatus::Idle => MissionAgentState::Idle,
            AgentStatus::Working => MissionAgentState::Working,
            AgentStatus::Blocked => MissionAgentState::Blocked,
            AgentStatus::Done => MissionAgentState::Done,
            AgentStatus::Unknown => MissionAgentState::Unknown,
        }
    }

    /// The state of an agent that Herdr recognizes.
    pub fn from_status(status: AgentStatus) -> (state: Self)
        ensures
            state == MissionAgentState::of(status),
    {
        match status {
            AgentStatus::Idle => MissionAgentState::Idle,
            AgentStatus::Working => MissionAgentState::Working,
            AgentStatus::Blocked => MissionAgentState::Blocked,
            AgentStatus::Done => MissionAgentState::Done,
            AgentStatus::Unknown => MissionAgentState::Unknown,
        }
    }
}

/// The agent that a worker must turn out to be.
#[derive(Debug, PartialEq, Eq)]
pub struct MemberExpectation {
    pub group_id: OrchestrationGroupId,
    pub session_id: SessionId,
    pub membership_id: OrchestrationMembershipId,
    pub expected_agent: String,
}

/// The contents of a [`MemberExpectation`].
pub struct ExpectationView {
    pub group_id: Seq<char>,
    pub session_id: SessionId,
    pub membership_id: OrchestrationMembershipId,
    pub expected_agent: Seq<char>,
}

impl View for MemberExpectation {
    type V = ExpectationView;

    open spec fn view(&self) -> ExpectationView {
        ExpectationView {
            group_id: self.group_id@,
            session_id: self.session_id,
            membership_id: self.membership_id,
            expected_agent: self.expected_agent@,
        }
    }
}

impl MemberExpectation {
    /// Whether two expectations are the same.
    pub fn same(&self, other: &Self) -> (r: bool)
        ensures
            r == (self@ == other@),
    {
        self.group_id.same(&other.group_id) && self.session_id == other.session_id
            && self.membership_id == other.membership_id && same_text(
            self.expected_agent.as_str(),
            other.expected_agent.as_str(),
        )
    }
}

/// The pane and the agent that a worker is bound to.
#[derive(Debug, PartialEq, Eq)]
pub struct AgentBinding {
    pub group_id: OrchestrationGroupId,
    pub session_id: SessionId,
    pub membership_id: OrchestrationMembershipId,
    pub pane_id: String,
    pub terminal_id: String,
    pub name: Option<String>,
    pub agent: String,
    pub status: AgentStatus,
    pub state_change_seq: u64,
    pub revision: u64,
}

/// The contents of an [`AgentBinding`].
pub struct BindingView {
    pub group_id: Seq<char>,
    pub session_id: SessionId,
    pub membership_id: OrchestrationMembershipId,
    pub pane_id: Seq<char>,
    pub terminal_id: Seq<char>,
    pub name: Option<Seq<char>>,
    pub agent: Seq<char>,
    pub status: AgentStatus,
    pub state_change_seq: u64,
    pub revision: u64,
}

impl View for AgentBinding {
    type V = BindingView;

    open spec fn view(&self) -> BindingView {
        BindingView {
            group_id: self.group_id@,
            session_id: self.session_id,
            membership_id: self.membership_id,
            pane_id: self.pane_id@,
            terminal_id: self.terminal_id@,
            name: opt_view(self.name),
            agent: self.agent@,
            status: self.status,
            state_change_seq: self.state_change_seq,
            revision: self.revision,
        }
    }
}

/// The same agent in the same terminal, in the pane where it was or in another
/// one, that has done nothing in between.
pub open spec fn same_occupant(first: BindingView, next: BindingView) -> bool {
    &&& first.group_id == next.group_id
    &&& first.session_id == next.session_id
    &&& first.membership_id == next.membership_id
    &&& first.terminal_id == next.terminal_id
    &&& first.agent == next.agent
    &&& first.name == next.name
    &&& first.state_change_seq == next.state_change_seq
}

impl AgentBinding {
    /// What Herdr knows the agent by: its name, or else its pane.
    pub fn target(&self) -> (target: &str)
        ensures
            target@ == match self@.name {
                Some(name) => name,
                None => self@.pane_id,
            },
    {
        match &self.name {
            Some(name) => name.as_str(),
            None => self.pane_id.as_str(),
        }
    }

    /// Whether the next binding is of the same occupant, moved or not.
    pub fn same_occupant_or_move(&self, next: &Self) -> (r: bool)
        ensures
            r == same_occupant(self@, next@),
    {
        let same_name = match (&self.name, &next.name) {
            (Some(a), Some(b)) => same_text(a.as_str(), b.as_str()),
            (None, None) => true,
            _ => false,
        };
        self.group_id.same(&next.group_id) && self.session_id == next.session_id
            && self.membership_id == next.membership_id && same_text(
            self.terminal_id.as_str(),
            next.terminal_id.as_str(),
        ) && same_text(self.agent.as_str(), next.agent.as_str()) && same_name
            && self.state_change_seq == next.state_change_seq
    }
}

/// Why a worker is bound to no pane.
#[derive(Clone, Copy, Debug, PartialEq, Eq, Structural)]
pub enum BindingFailure {
    Detached,
    StaleMembership,
    Ambiguous,
    UnknownAgent,
    AgentKindMismatch,
    Replaced,
}

impl BindingFailure {
    /// What a reader is told.
    pub open spec fn text(self) -> Seq<char> {
        match self {
            BindingFailure::Detached => "worker is not materialized in Herdr"@,
            BindingFailure::StaleMembership => "pane belongs to an earlier worker membership"@,
            BindingFailure::Ambiguous =>
                "more than one Herdr pane claims this worker membership"@,
            BindingFailure::UnknownAgent =>
                "Herdr does not recognize an agent in the materialized pane"@,
            BindingFailure::AgentKindMismatch => "Herdr recognized a different agent kind"@,
            BindingFailure::Replaced => "the materialized pane occupant changed"@,
        }
    }

    /// What is known of the worker's agent.
    pub fn state(self) -> (state: MissionAgentState)
        ensures
            state == match self {
                BindingFailure::Detached => MissionAgentState::Detached,
                BindingFailure::StaleMembership => MissionAgentState::Stale,
                BindingFailure::Ambiguous => MissionAgentState::Stale,
                BindingFailure::Replaced => MissionAgentState::Stale,
                BindingFailure::UnknownAgent => MissionAgentState::Unknown,
                BindingFailure::AgentKindMismatch => MissionAgentState::Unknown,
            },
    {
        match self {
            BindingFailure::Detached => MissionAgentState::Detached,
            BindingFailure::StaleMembership
            | BindingFailure::Ambiguous
            | BindingFailure::Replaced => MissionAgentState::Stale,
            BindingFailure::UnknownAgent
            | BindingFailure::AgentKindMismatch => MissionAgentState::Unknown,
        }
    }

    /// What a reader is told.
    pub fn message(self) -> (text: &'static str)
        ensures
            text@ == self.text(),
    {
        match self {
            BindingFailure::Detached => "worker is not materialized in Herdr",
            BindingFailure::StaleMembership => "pane belongs to an earlier worker membership",
            BindingFailure::Ambiguous => "more than one Herdr pane claims this worker membership",
            BindingFailure::UnknownAgent =>
                "Herdr does not recognize an agent in the materialized pane",
            BindingFailure::AgentKindMismatch => "Herdr recognized a different agent kind",
            BindingFailure::Replaced => "the materialized pane occupant changed",
        }
    }
}

/// A worker of a group, in one of its memberships.
#[derive(Clone, Copy, Debug, PartialEq, Eq, Structural)]
pub struct MemberTarget {
    pub session_id: SessionId,
    pub membership_id: OrchestrationMembershipId,
}

/// What became of a prompt for one worker.
#[derive(Debug, PartialEq, Eq)]
pub enum TargetDelivery {
    Delivered { session_id: SessionId, final_state: MissionAgentState },
    Rejected { session_id: SessionId, reason: String },
    Uncertain { session_id: SessionId },
}

/// The contents of a [`TargetDelivery`].
pub enum DeliveryView {
    Delivered { session_id: SessionId, final_state: MissionAgentState },
    Rejected { session_id: SessionId, reason: Seq<char> },
    Uncertain { session_id: SessionId },
}

impl View for TargetDelivery {
    type V = DeliveryView;

    open spec fn view(&self) -> DeliveryView {
        match self {
            TargetDelivery::Delivered { session_id, final_state } => DeliveryView::Delivered {
                session_id: *session_id,
                final_state: *final_state,
            },
            TargetDelivery::Rejected { session_id, reason } => DeliveryView::Rejected {
                session_id: *session_id,
                reason: reason@,
            },
            TargetDelivery::Uncertain { session_id } => DeliveryView::Uncertain {
                session_id: *session_id,
            },
        }
    }
}

/// What a worker must allow.
#[derive(Clone, Copy, Debug, PartialEq, Eq, Structural)]
pub enum RequiredCapability {
    ObserveOutput,
    OpenInteractive,
    PromptAgent,
}

impl RequiredCapability {
    /// The worker allows it.
    pub open spec fn given(self, member: MemberView) -> bool {
        match self {
            RequiredCapability::ObserveOutput => member.capabilities.observe_output,
            RequiredCapability::OpenInteractive => member.capabilities.open_interactive,
            RequiredCapability::PromptAgent => member.capabilities.prompt_agent,
        }
    }

    /// What a reader is told where the worker does not allow it.
    pub open spec fn rejection_text(self) -> Seq<char> {
        match self {
            RequiredCapability::ObserveOutput => "worker does not authorize agent observation"@,
            RequiredCapability::OpenInteractive => "worker does not authorize interactive open"@,
            RequiredCapability::PromptAgent => "worker does not authorize agent prompts"@,
        }
    }

    /// Whether the worker allows it.
    pub fn allowed(self, member: &OrchestrationMember) -> (r: bool)
        ensures
            r == self.given(member@),
    {
        match self {
            RequiredCapability::ObserveOutput => member.capabilities.observe_output,
            RequiredCapability::OpenInteractive => member.capabilities.open_interactive,
            RequiredCapability::PromptAgent => member.capabilities.prompt_agent,
        }
    }

    /// What a reader is told where the worker does not allow it.
    pub fn rejection(self) -> (text: &'static str)
        ensures
            text@ == self.rejection_text(),
    {
        match self {
            RequiredCapability::ObserveOutput => "worker does not authorize agent observation",
            RequiredCapability::OpenInteractive => "worker does not authorize interactive open",
            RequiredCapability::PromptAgent => "worker does not authorize agent prompts",
        }
    }
}

/// The agent that a worker must turn out to be, or why the worker may not be
/// used.
pub open spec fn expectation(
    state: StateView,
    group_id: Seq<char>,
    target: MemberTarget,
    capability: Option<RequiredCapability>,
) -> Result<ExpectationView, Seq<char>> {
    match find_group(state.groups, group_id) {
        None => Err("Mission Control group no longer exists"@),
        Some(at) => {
            let group = state.groups[at];
            match find_member(group.workers, target.session_id) {
                None => Err("worker is no longer a member of the Mission Control group"@),
                Some(at) => {
                    let member = group.workers[at];
                    if member.membership_id != target.membership_id {
                        Err("worker membership changed"@)
                    } else if capability is Some && !capability->0.given(member) {
                        Err(capability->0.rejection_text())
                    } else {
                        expectation_of_record(state, group_id, target)
                    }
                },
            }
        },
    }
}

/// The agent that a member's record names, or why it cannot be expected.
pub open spec fn expectation_of_record(
    state: StateView,
    group_id: Seq<char>,
    target: MemberTarget,
) -> Result<ExpectationView, Seq<char>> {
    match find_record(state.sessions, target.session_id) {
        None => Err("worker session no longer exists"@),
        Some(at) => {
            let record = state.sessions[at];
            if !record.exact_running() {
                Err("worker is not a running exact-owned workload"@)
            } else {
                match record.herdr_agent {
                    None => Err("worker has no explicit Herdr agent identity"@),
                    Some(agent) => Ok(
                        ExpectationView {
                            group_id,
                            session_id: target.session_id,
                            membership_id: target.membership_id,
                            expected_agent: agent,
                        },
                    ),
                }
            }
        },
    }
}

/// The outcome is exactly the expectation, or the reason against it.
pub open spec fn gives_expectation(
    r: Result<MemberExpectation, Failure>,
    found: Result<ExpectationView, Seq<char>>,
) -> bool {
    match found {
        Ok(expected) => r is Ok && r->Ok_0@ == expected,
        Err(text) => r is Err && r->Err_0@ == plain(text),
    }
}

/// The agent that a worker must turn out to be.
fn member_expectation(
    state: &State,
    group_id: &OrchestrationGroupId,
    target: MemberTarget,
    capability: Option<RequiredCapability>,
) -> (r: Result<MemberExpectation, Failure>)
    ensures
        gives_expectation(r, expectation(state@, group_id@, target, capability)),
{
    let group = match group_position(&state.orchestration_groups, group_id) {
        Some(at) => {
            assert(state@.groups[at as int] == state.orchestration_groups@[at as int]@);
            &state.orchestration_groups[at]
        },
        None => {
            return Err(Failure::new("Mission Control group no longer exists".to_owned()));
        },
    };
    let member = match member_position(&group.workers, target.session_id) {
        Some(at) => {
            assert(group@.workers[at as int] == group.workers@[at as int]@);
            &group.workers[at]
        },
        None => {
            return Err(
                Failure::new(
                    "worker is no longer a member of the Mission Control group".to_owned(),
                ),
            );
        },
    };
    if member.membership_id != target.membership_id {
        return Err(Failure::new("worker membership changed".to_owned()));
    }
    if let Some(capability) = capability {
        if !capability.allowed(member) {
            return Err(Failure::new(capability.rejection().to_owned()));
        }
    }
    let record = match record_position(&state.sessions, target.session_id) {
        Some(at) => {
            assert(state@.sessions[at as int] == state.sessions@[at as int]@);
            &state.sessions[at]
        },
        None => {
            return Err(Failure::new("worker session no longer exists".to_owned()));
        },
    };
    if !record.is_exact_running() {
        return Err(Failure::new("worker is not a running exact-owned workload".to_owned()));
    }
    match &record.herdr_agent {
        None => Err(Failure::new("worker has no explicit Herdr agent identity".to_owned())),
        Some(agent) => Ok(
            MemberExpectation {
                group_id: group_id.clone(),
                session_id: target.session_id,
                membership_id: target.membership_id,
                expected_agent: agent.to_string(),
            },
        ),
    }
}

/// Builds identity-only binding expectations for read-only status projection.
///
/// Action paths ask for an explicit capability.
pub fn binding_expectation(state: &State, group_id: &OrchestrationGroupId, target: MemberTarget) -> (r:
    Result<MemberExpectation, Failure>)
    ensures
        gives_expectation(r, expectation(state@, group_id@, target, None)),
{
    member_expectation(state, group_id, target, None)
}

/// The agent that a worker must turn out to be, where it allows what is asked.
pub fn expectation_for(
    state: &State,
    group_id: &OrchestrationGroupId,
    target: MemberTarget,
    capability: RequiredCapability,
) -> (r: Result<MemberExpectation, Failure>)
    ensures
        gives_expectation(r, expectation(state@, group_id@, target, Some(capability))),
{
    member_expectation(state, group_id, target, Some(capability))
}

/// A pane is labelled with the worker's group and session.
pub open spec fn related(agent: AgentView, expected: ExpectationView) -> bool {
    &&& looked_up(agent.tokens, GROUP_TOKEN@) == Some(expected.group_id)
    &&& looked_up(agent.tokens, SESSION_TOKEN@) == Some(session_id_text(expected.session_id@))
}

/// A pane is labelled with the worker's group, session and membership.
pub open spec fn claims(agent: AgentView, expected: ExpectationView) -> bool {
    &&& related(agent, expected)
    &&& looked_up(agent.tokens, MEMBERSHIP_TOKEN@) == Some(simple_text(expected.membership_id@))
}

/// The agents that claim to be the worker.
pub open spec fn claimants(agents: Seq<AgentView>, expected: ExpectationView) -> Seq<AgentView>
    decreases agents.len(),
{
    if agents.len() == 0 {
        Seq::empty()
    } else {
        let front = claimants(agents.drop_last(), expected);
        if claims(agents.last(), expected) {
            front.push(agents.last())
        } else {
            front
        }
    }
}

/// The binding of a worker to the one agent that claims to be it, or why there
/// is none.
pub open spec fn binding(agents: Seq<AgentView>, expected: ExpectationView) -> Result<
    BindingView,
    BindingFailure,
> {
    let exact = claimants(agents, expected);
    if exact.len() == 0 {
        if exists|i: int| 0 <= i < agents.len() && related(#[trigger] agents[i], expected) {
            Err(BindingFailure::StaleMembership)
        } else {
            Err(BindingFailure::Detached)
        }
    } else if exact.len() != 1 {
        Err(BindingFailure::Ambiguous)
    } else {
        binding_to(exact[0], expected)
    }
}

/// The binding of a worker to an agent, if it is of the right kind.
pub open spec fn binding_to(agent: AgentView, expected: ExpectationView) -> Result<
    BindingView,
    BindingFailure,
> {
    match agent.agent {
        None => Err(BindingFailure::UnknownAgent),
        Some(kind) => if kind.len() == 0 {
            Err(BindingFailure::UnknownAgent)
        } else if kind != expected.expected_agent {
            Err(BindingFailure::AgentKindMismatch)
        } else {
            Ok(
                BindingView {
                    group_id: expected.group_id,
                    session_id: expected.session_id,
                    membership_id: expected.membership_id,
                    pane_id: agent.pane_id,
                    terminal_id: agent.terminal_id,
                    name: agent.name,
                    agent: kind,
                    status: agent.agent_status,
                    state_change_seq: agent.state_change_seq,
                    revision: agent.revision,
                },
            )
        },
    }
}

/// The outcome is exactly the binding, or the reason against it.
pub open spec fn gives_binding(
    r: Result<AgentBinding, BindingFailure>,
    found: Result<BindingView, BindingFailure>,
) -> bool {
    match found {
        Ok(binding) => r is Ok && r->Ok_0@ == binding,
        Err(failure) => r == Err::<AgentBinding, BindingFailure>(failure),
    }
}

/// The binding of a worker to an agent, if it is of the right kind.
fn bind(agent: &HerdrAgentInfo, expected: &MemberExpectation) -> (r: Result<
    AgentBinding,
    BindingFailure,
>)
    ensures
        gives_binding(r, binding_to(agent@, expected@)),
{
    let kind = match &agent.agent {
        Some(kind) => kind.clone(),
        None => {
            return Err(BindingFailure::UnknownAgent);
        },
    };
    if kind.as_str().is_empty() {
        return Err(BindingFailure::UnknownAgent);
    }
    if !same_text(kind.as_str(), expected.expected_agent.as_str()) {
        return Err(BindingFailure::AgentKindMismatch);
    }
    Ok(
        AgentBinding {
            group_id: expected.group_id.clone(),
            session_id: expected.session_id,
            membership_id: expected.membership_id,
            pane_id: agent.pane_id.clone(),
            terminal_id: agent.terminal_id.clone(),
            name: copy_opt(&agent.name),
            agent: kind,
            status: agent.agent_status,
            state_change_seq: agent.state_change_seq,
            revision: agent.revision,
        },
    )
}

/// The binding of a worker to the one agent that claims to be it.
pub fn resolve_binding(snapshot: &HerdrSessionSnapshot, expected: &MemberExpectation) -> (r: Result<
    AgentBinding,
    BindingFailure,
>)
    ensures
        gives_binding(r, binding(agent_views(snapshot.agents@), expected@)),
{
    let session = expected.session_id.to_string();
    let membership = expected.membership_id.to_string();
    let ghost all = agent_views(snapshot.agents@);
    let mut any_related = false;
    let mut claimed = false;
    let mut first: usize = 0;
    let mut i: usize = 0;
    while i < snapshot.agents.len()
        invariant
            i <= snapshot.agents@.len(),
            all == agent_views(snapshot.agents@),
            session@ == session_id_text(expected@.session_id@),
            membership@ == simple_text(expected@.membership_id@),
            any_related == exists|j: int| 0 <= j < i && related(#[trigger] all[j], expected@),
            claimed == (claimants(all.take(i as int), expected@).len() > 0),
            claimed ==> claimants(all.take(i as int), expected@).len() == 1 && first < i
                && claimants(all.take(i as int), expected@)[0] == all[first as int],
        decreases snapshot.agents.len() - i,
    {
        let agent = &snapshot.agents[i];
        proof {
            assert(all[i as int] == agent@);
            assert(all.take(i + 1).drop_last() =~= all.take(i as int));
            assert(all.take(i + 1).last() == agent@);
        }
        let relates = agent.tokens.holds(GROUP_TOKEN, expected.group_id.as_str())
            && agent.tokens.holds(SESSION_TOKEN, session.as_str());
        if relates {
            any_related = true;
            if agent.tokens.holds(MEMBERSHIP_TOKEN, membership.as_str()) {
                if claimed {
                    proof {
                        lemma_claimants_grow(all, i + 1, expected@);
                    }
                    return Err(BindingFailure::Ambiguous);
                }
                claimed = true;
                first = i;
            }
        }
        i += 1;
    }
    assert(all.take(i as int) =~= all);
    if !claimed {
        return Err(
            if any_related {
                BindingFailure::StaleMembership
            } else {
                BindingFailure::Detached
            },
        );
    }
    assert(all[first as int] == snapshot.agents@[first as int]@);
    bind(&snapshot.agents[first], expected)
}

/// More agents never make fewer claimants.
proof fn lemma_claimants_grow(agents: Seq<AgentView>, k: int, expected: ExpectationView)
    requires
        0 <= k <= agents.len(),
    ensures
        claimants(agents, expected).len() >= claimants(agents.take(k), expected).len(),
    decreases agents.len(),
{
    if k < agents.len() {
        assert(agents.drop_last().take(k) =~= agents.take(k));
        lemma_claimants_grow(agents.drop_last(), k, expected);
    } else {
        assert(agents.take(k) =~= agents);
    }
}

/// A worker is only ever bound to an agent that carries exactly its group, its
/// session and its membership, and that is of the kind it names.
pub proof fn bindings_are_exact(agents: Seq<AgentView>, expected: ExpectationView)
    requires
        binding(agents, expected) is Ok,
    ensures
        exists|i: int|
            0 <= i < agents.len() && claims(#[trigger] agents[i], expected) && agents[i].agent
                == Some(expected.expected_agent) && binding(agents, expected)->Ok_0.pane_id
                == agents[i].pane_id && binding(agents, expected)->Ok_0.terminal_id
                == agents[i].terminal_id,
{
    lemma_claimants_claim(agents, expected);
    let exact = claimants(agents, expected);
    let i = choose|i: int| 0 <= i < agents.len() && #[trigger] agents[i] == exact[0];
    assert(claims(agents[i], expected));
}

/// Every claimant is one of the agents, and claims.
proof fn lemma_claimants_claim(agents: Seq<AgentView>, expected: ExpectationView)
    ensures
        forall|k: int|
            0 <= k < claimants(agents, expected).len() ==> claims(
                #[trigger] claimants(agents, expected)[k],
                expected,
            ) && exists|i: int|
                0 <= i < agents.len() && #[trigger] agents[i] == claimants(agents, expected)[k],
    decreases agents.len(),
{
    if agents.len() > 0 {
        let front = agents.drop_last();
        lemma_claimants_claim(front, expected);
        let exact = claimants(agents, expected);
        assert forall|k: int| 0 <= k < exact.len() implies claims(#[trigger] exact[k], expected)
            && exists|i: int| 0 <= i < agents.len() && #[trigger] agents[i] == exact[k] by {
            if k < claimants(front, expected).len() {
                assert(exact[k] == claimants(front, expected)[k]);
                let i = choose|i: int|
                    0 <= i < front.len() && #[trigger] front[i] == claimants(front, expected)[k];
                assert(agents[i] == exact[k]);
            } else {
                assert(agents[agents.len() - 1] == exact[k]);
            }
        }
    }
}

/// A worker that may be used, and the pane that it is bound to.
#[derive(Debug, PartialEq, Eq)]
pub struct AuthorizedBinding {
    pub expectation: MemberExpectation,
    pub binding: AgentBinding,
}

/// Why a snapshot does not authorize a worker, if it does not.
pub open spec fn authorization(
    snapshot: HerdrSessionSnapshot,
    expected: ExpectationView,
    require_settled: bool,
) -> Result<BindingView, Seq<char>> {
    if !snapshot.supported() {
        Err("Mission Control requires Herdr 0.7.5 or newer"@)
    } else {
        match binding(agent_views(snapshot.agents@), expected) {
            Err(failure) => Err(failure.text()),
            Ok(found) => if require_settled && !found.status.settled() {
                Err("agent must be IDLE or DONE before prompt delivery"@)
            } else {
                Ok(found)
            },
        }
    }
}

/// Why a second look does not confirm a prompt, if it does not.
pub open spec fn confirmation(
    first: BindingView,
    snapshot: HerdrSessionSnapshot,
    expected: ExpectationView,
) -> Result<BindingView, Seq<char>> {
    match binding(agent_views(snapshot.agents@), expected) {
        Err(failure) => Err(failure.text()),
        Ok(found) => if !same_occupant(first, found) {
            Err("materialized pane occupant changed before prompt delivery"@)
        } else if !found.status.settled() {
            Err("agent must be IDLE or DONE before prompt delivery"@)
        } else {
            Ok(found)
        },
    }
}

/// What becomes of a destination before anything is sent.
#[derive(Debug, PartialEq, Eq)]
pub enum PlannedDelivery {
    /// The destination is tried.
    Attempt(MemberTarget),
    /// The destination is refused.
    Refused(TargetDelivery),
}

/// The contents of a [`PlannedDelivery`].
pub enum PlanView {
    Attempt(MemberTarget),
    Refused(DeliveryView),
}

impl View for PlannedDelivery {
    type V = PlanView;

    open spec fn view(&self) -> PlanView {
        match self {
            PlannedDelivery::Attempt(target) => PlanView::Attempt(*target),
            PlannedDelivery::Refused(delivery) => PlanView::Refused(delivery@),
        }
    }
}

/// What becomes of the destination at `at`: nothing is sent to destinations
/// that nobody reviewed, to too many, or twice to one.
pub open spec fn planned(targets: Seq<MemberTarget>, reviewed: bool, at: int) -> PlanView {
    let session_id = targets[at].session_id;
    if !reviewed {
        PlanView::Refused(
            DeliveryView::Rejected { session_id, reason: "prompt destinations were not reviewed"@ },
        )
    } else if targets.len() > MAX_PROMPT_TARGETS {
        PlanView::Refused(
            DeliveryView::Rejected {
                session_id,
                reason: "at most "@ + numeral(MAX_PROMPT_TARGETS as nat)
                    + " prompt destinations are allowed"@,
            },
        )
    } else if targets.take(at).contains(targets[at]) {
        PlanView::Refused(
            DeliveryView::Rejected { session_id, reason: "duplicate prompt destination"@ },
        )
    } else {
        PlanView::Attempt(targets[at])
    }
}

/// The contents of each plan.
pub open spec fn plan_views(plans: Seq<PlannedDelivery>) -> Seq<PlanView> {
    plans.map_values(|plan: PlannedDelivery| plan@)
}

/// Whether a destination stands among the first `count`.
fn seen_before(targets: &Vec<MemberTarget>, count: usize, target: MemberTarget) -> (r: bool)
    requires
        count <= targets@.len(),
    ensures
        r == targets@.take(count as int).contains(target),
{
    let ghost front = targets@.take(count as int);
    let mut i: usize = 0;
    while i < count
        invariant
            i <= count <= targets@.len(),
            front == targets@.take(count as int),
            forall|j: int| 0 <= j < i ==> front[j] != target,
        decreases count - i,
    {
        if targets[i].session_id == target.session_id && targets[i].membership_id
            == target.membership_id {
            assert(front[i as int] == target);
            return true;
        }
        i += 1;
    }
    false
}

/// Mission Control of the groups in a state file.
#[derive(Debug, PartialEq, Eq)]
pub struct MissionControlService {
    store: StateStore,
}

/// A prompt for a worker whose state and pane were seen once.
#[derive(Debug, PartialEq, Eq)]
pub struct PromptAttempt {
    first: AuthorizedBinding,
}

impl PromptAttempt {
    /// What was expected of the worker.
    pub closed spec fn expected(self) -> ExpectationView {
        self.first.expectation@
    }

    /// The binding that was seen.
    pub closed spec fn seen(self) -> BindingView {
        self.first.binding@
    }

    /// A prompt for a worker that was authorized.
    pub fn new(first: AuthorizedBinding) -> (attempt: Self)
        ensures
            attempt.expected() == first.expectation@,
            attempt.seen() == first.binding@,
    {
        PromptAttempt { first }
    }

    /// Checks the state once more, just before the prompt is sent.
    pub fn revalidate(&self, state: &State, group_id: &OrchestrationGroupId, target: MemberTarget) -> (r:
        Result<(), Failure>)
        ensures
            match expectation(
                state@,
                group_id@,
                target,
                Some(RequiredCapability::PromptAgent),
            ) {
                Err(text) => r is Err && r->Err_0@ == plain(text),
                Ok(expected) => if expected == self.expected() {
                    r is Ok
                } else {
                    r is Err && r->Err_0@ == plain(
                        "worker authorization changed before prompt delivery"@,
                    )
                },
            },
    {
        match expectation_for(state, group_id, target, RequiredCapability::PromptAgent) {
            Err(failure) => Err(failure),
            Ok(expected) => {
                if expected.same(&self.first.expectation) {
                    Ok(())
                } else {
                    Err(
                        Failure::new(
                            "worker authorization changed before prompt delivery".to_owned(),
                        ),
                    )
                }
            },
        }
    }

    /// Checks the pane once more, just before the prompt is sent.
    pub fn confirm(&self, snapshot: &HerdrSessionSnapshot) -> (r: Result<AgentBinding, Failure>)
        ensures
            match confirmation(self.seen(), *snapshot, self.expected()) {
                Ok(found) => r is Ok && r->Ok_0@ == found,
                Err(text) => r is Err && r->Err_0@ == plain(text),
            },
    {
        let found = match resolve_binding(snapshot, &self.first.expectation) {
            Ok(found) => found,
            Err(failure) => {
                return Err(Failure::new(failure.message().to_owned()));
            },
        };
        if !self.first.binding.same_occupant_or_move(&found) {
            return Err(
                Failure::new(
                    "materialized pane occupant changed before prompt delivery".to_owned(),
                ),
            );
        }
        if !found.status.is_settled() {
            return Err(
                Failure::new("agent must be IDLE or DONE before prompt delivery".to_owned()),
            );
        }
        Ok(found)
    }
}

/// What became of a prompt that was sent.
pub open spec fn delivery(
    session_id: SessionId,
    binding: BindingView,
    outcome: Result<AgentView, DeliveryErrorView>,
) -> DeliveryView {
    match outcome {
        Ok(agent) => if agent.terminal_id == binding.terminal_id && agent.agent == Some(
            binding.agent,
        ) {
            DeliveryView::Delivered {
                session_id,
                final_state: MissionAgentState::of(agent.agent_status),
            }
        } else {
            DeliveryView::Uncertain { session_id }
        },
        Err(DeliveryErrorView::Uncertain) => DeliveryView::Uncertain { session_id },
        Err(DeliveryErrorView::Rejected { code, message }) => DeliveryView::Rejected {
            session_id,
            reason: "Herdr rejected prompt: "@ + code + ": "@ + message,
        },
    }
}

/// The contents of the outcome of a prompt.
pub open spec fn outcome_view(outcome: Result<HerdrAgentInfo, PromptDeliveryError>) -> Result<
    AgentView,
    DeliveryErrorView,
> {
    match outcome {
        Ok(agent) => Ok(agent@),
        Err(error) => Err(error@),
    }
}

/// What became of a prompt that was sent.
pub fn finish_delivery(
    session_id: SessionId,
    binding: &AgentBinding,
    outcome: Result<HerdrAgentInfo, PromptDeliveryError>,
) -> (r: TargetDelivery)
    ensures
        r@ == delivery(session_id, binding@, outcome_view(outcome)),
{
    match outcome {
        Ok(agent) => {
            let same_kind = match &agent.agent {
                Some(kind) => same_text(kind.as_str(), binding.agent.as_str()),
                None => false,
            };
            if same_kind && same_text(agent.terminal_id.as_str(), binding.terminal_id.as_str()) {
                TargetDelivery::Delivered {
                    session_id,
                    final_state: MissionAgentState::from_status(agent.agent_status),
                }
            } else {
                TargetDelivery::Uncertain { session_id }
            }
        },
        Err(PromptDeliveryError::Uncertain) => TargetDelivery::Uncertain { session_id },
        Err(PromptDeliveryError::Rejected { code, message }) => TargetDelivery::Rejected {
            session_id,
            reason: "Herdr rejected prompt: ".to_owned().concat(code.as_str()).concat(": ").concat(
                message.as_str(),
            ),
        },
    }
}

/// What became of a prompt that was not sent.
pub fn refuse_delivery(session_id: SessionId, failure: &Failure) -> (r: TargetDelivery)
    ensures
        r@ == (DeliveryView::Rejected { session_id, reason: failure@.full() }),
{
    TargetDelivery::Rejected { session_id, reason: failure.detail() }
}

impl MissionControlService {
    /// Mission Control of the groups in `store`.
    pub fn new(store: StateStore) -> (service: Self)
        ensures
            service.store_view() == store@,
    {
        MissionControlService { store }
    }

    /// The state file.
    pub closed spec fn store_view(self) -> Seq<char> {
        self.store@
    }

    /// The state file.
    pub fn store(&self) -> (store: &StateStore)
        ensures
            store@ == self.store_view(),
    {
        &self.store
    }

    /// Plans a prompt for some destinations: which of them are tried, and what
    /// the others are told.
    pub fn deliver_reviewed_prompt(&self, targets: &Vec<MemberTarget>, reviewed: bool) -> (plans:
        Vec<PlannedDelivery>)
        ensures
            plans@.len() == targets@.len(),
            forall|i: int|
                0 <= i < targets@.len() ==> (#[trigger] plan_views(plans@)[i]) == planned(
                    targets@,
                    reviewed,
                    i,
                ),
    {
        let mut plans: Vec<PlannedDelivery> = Vec::new();
        let mut i: usize = 0;
        while i < targets.len()
            invariant
                i <= targets@.len(),
                plans@.len() == i,
                forall|j: int|
                    0 <= j < i ==> (#[trigger] plan_views(plans@)[j]) == planned(
                        targets@,
                        reviewed,
                        j,
                    ),
            decreases targets.len() - i,
        {
            let target = targets[i];
            let session_id = target.session_id;
            let plan = if !reviewed {
                PlannedDelivery::Refused(
                    TargetDelivery::Rejected {
                        session_id,
                        reason: "prompt destinations were not reviewed".to_owned(),
                    },
                )
            } else if targets.len() > MAX_PROMPT_TARGETS {
                PlannedDelivery::Refused(
                    TargetDelivery::Rejected {
                        session_id,
                        reason: "at most ".to_owned().concat(
                            decimal(MAX_PROMPT_TARGETS as u64).as_str(),
                        ).concat(" prompt destinations are allowed"),
                    },
                )
            } else if seen_before(targets, i, target) {
                PlannedDelivery::Refused(
                    TargetDelivery::Rejected {
                        session_id,
                        reason: "duplicate prompt destination".to_owned(),
                    },
                )
            } else {
                PlannedDelivery::Attempt(target)
            };
            let ghost before = plans@;
            let ghost shown = plan@;
            assert(shown == planned(targets@, reviewed, i as int));
            plans.push(plan);
            assert(plan_views(plans@) =~= plan_views(before).push(shown));
            i += 1;
        }
        plans
    }

    /// Checks that a snapshot authorizes a worker.
    pub fn authorize_binding(
        &self,
        expectation: MemberExpectation,
        snapshot: &HerdrSessionSnapshot,
        require_settled: bool,
    ) -> (r: Result<AuthorizedBinding, Failure>)
        ensures
            match authorization(*snapshot, expectation@, require_settled) {
                Ok(found) => r is Ok && r->Ok_0.expectation == expectation && r->Ok_0.binding@
                    == found,
                Err(text) => r is Err && r->Err_0@ == plain(text),
            },
    {
        if !snapshot.supports_mission_control() {
            return Err(Failure::new("Mission Control requires Herdr 0.7.5 or newer".to_owned()));
        }
        let binding = match resolve_binding(snapshot, &expectation) {
            Ok(binding) => binding,
            Err(failure) => {
                return Err(Failure::new(failure.message().to_owned()));
            },
        };
        if require_settled && !binding.status.is_settled() {
            return Err(
                Failure::new("agent must be IDLE or DONE before prompt delivery".to_owned()),
            );
        }
        Ok(AuthorizedBinding { expectation, binding })
    }

    /// The pane of a worker that allows its output to be observed.
    pub fn binding_for_observation(
        &self,
        state: &State,
        group_id: &OrchestrationGroupId,
        target: MemberTarget,
        snapshot: &HerdrSessionSnapshot,
    ) -> (r: Result<AgentBinding, Failure>)
        ensures
            gives_action(
                r,
                state@,
                group_id@,
                target,
                *snapshot,
                RequiredCapability::ObserveOutput,
            ),
    {
        self.binding_for(state, group_id, target, snapshot, RequiredCapability::ObserveOutput)
    }

    /// The pane of a worker that allows itself to be opened.
    pub fn binding_for_open(
        &self,
        state: &State,
        group_id: &OrchestrationGroupId,
        target: MemberTarget,
        snapshot: &HerdrSessionSnapshot,
    ) -> (r: Result<AgentBinding, Failure>)
        ensures
            gives_action(
                r,
                state@,
                group_id@,
                target,
                *snapshot,
                RequiredCapability::OpenInteractive,
            ),
    {
        self.binding_for(state, group_id, target, snapshot, RequiredCapability::OpenInteractive)
    }

    /// The pane of a worker that allows what is asked.
    fn binding_for(
        &self,
        state: &State,
        group_id: &OrchestrationGroupId,
        target: MemberTarget,
        snapshot: &HerdrSessionSnapshot,
        capability: RequiredCapability,
    ) -> (r: Result<AgentBinding, Failure>)
        ensures
            gives_action(r, state@, group_id@, target, *snapshot, capability),
    {
        match expectation_for(state, group_id, target, capability) {
            Err(failure) => Err(failure),
            Ok(expectation) => match self.authorize_binding(expectation, snapshot, false) {
                Ok(authorized) => Ok(authorized.binding),
                Err(failure) => Err(failure),
            },
        }
    }
}

/// The outcome is the binding of a worker that allows what is asked, or the
/// first reason against it.
pub open spec fn gives_action(
    r: Result<AgentBinding, Failure>,
    state: StateView,
    group_id: Seq<char>,
    target: MemberTarget,
    snapshot: HerdrSessionSnapshot,
    capability: RequiredCapability,
) -> bool {
    match expectation(state, group_id, target, Some(capability)) {
        Err(text) => r is Err && r->Err_0@ == plain(text),
        Ok(expected) => match authorization(snapshot, expected, false) {
            Ok(found) => r is Ok && r->Ok_0@ == found,
            Err(text) => r is Err && r->Err_0@ == plain(text),
        },
    }
}

/// A prompt is only confirmed for the very agent that was seen before, in a
/// group whose worker still allows prompts, and only while that agent waits.
pub proof fn confirmed_prompts_go_to_the_agent_that_was_seen(
    first: BindingView,
    snapshot: HerdrSessionSnapshot,
    expected: ExpectationView,
)
    requires
        confirmation(first, snapshot, expected) is Ok,
    ensures
        same_occupant(first, confirmation(first, snapshot, expected)->Ok_0),
        confirmation(first, snapshot, expected)->Ok_0.status.settled(),
        binding(agent_views(snapshot.agents@), expected) is Ok,
{
}

/// A worker that does not allow prompts is never expected for one, whatever
/// else it allows.
pub proof fn prompts_need_their_own_permission(
    state: StateView,
    group_id: Seq<char>,
    target: MemberTarget,
)
    ensures
        expectation(state, group_id, target, Some(RequiredCapability::PromptAgent)) is Ok ==> {
            let group = state.groups[find_group(state.groups, group_id)->0];
            let member = group.workers[find_member(group.workers, target.session_id)->0];
            member.capabilities.prompt_agent && member.membership_id == target.membership_id
        },
{
}

/// At most the bounded number of destinations are tried, and none twice.
pub proof fn attempts_are_few_and_distinct(
    targets: Seq<MemberTarget>,
    reviewed: bool,
    a: int,
    b: int,
)
    requires
        0 <= a < b < targets.len(),
        planned(targets, reviewed, a) is Attempt,
        planned(targets, reviewed, b) is Attempt,
    ensures
        reviewed,
        targets.len() <= MAX_PROMPT_TARGETS,
        targets[a] != targets[b],
{
    assert(targets.take(b)[a] == targets[a]);
}

/// The labels of a worker's pane.
pub open spec fn metadata_tokens(group_id: Seq<char>, member: MemberView, remote: bool) -> Seq<(
    Seq<char>,
    Seq<char>,
)> {
    seq![
        (GROUP_TOKEN@, group_id),
        (SESSION_TOKEN@, session_id_text(member.session_id@)),
        (MEMBERSHIP_TOKEN@, simple_text(member.membership_id@)),
        (
            REMOTE_TOKEN@,
            if remote {
                "true"@
            } else {
                "false"@
            },
        ),
    ]
}

/// The labels of a worker's pane.
pub fn member_metadata_tokens(
    group_id: &OrchestrationGroupId,
    member: &OrchestrationMember,
    remote: bool,
) -> (tokens: Vec<Token>)
    ensures
        token_views(tokens@) == metadata_tokens(group_id@, member@, remote),
{
    let remote_text = if remote {
        "true".to_owned()
    } else {
        "false".to_owned()
    };
    let tokens = vec![
        Token { name: GROUP_TOKEN.to_owned(), value: group_id.to_string() },
        Token { name: SESSION_TOKEN.to_owned(), value: member.session_id.to_string() },
        Token { name: MEMBERSHIP_TOKEN.to_owned(), value: member.membership_id.to_string() },
        Token { name: REMOTE_TOKEN.to_owned(), value: remote_text },
    ];
    assert(token_views(tokens@) =~= metadata_tokens(group_id@, member@, remote));
    tokens
}

/// Asks to label a pane as a worker's.
pub fn label_materialized_member(
    client: &mut HerdrSocketClient,
    pane_id: &str,
    group_id: &OrchestrationGroupId,
    member: &OrchestrationMember,
    remote: bool,
) -> (r: Result<SocketCall, Failure>)
    ensures
        if blank(pane_id@) || blank(AGENT_VIEW_SOURCE@) {
            r is Err && r->Err_0@ == plain("pane metadata target and source must not be empty"@)
                && final(client)@ == old(client)@
        } else {
            final(client)@ == asked(old(client)@) && gives_call(
                r,
                made_call(
                    old(client)@.next_id,
                    "pane.report_metadata"@,
                    metadata_params(
                        pane_id@,
                        AGENT_VIEW_SOURCE@,
                        metadata_tokens(group_id@, member@, remote),
                    ),
                    DEFAULT_SOCKET_TIMEOUT_MILLIS as int,
                    "pane_info"@,
                    "pane"@,
                    "metadata pane"@,
                ),
            )
        },
{
    let tokens = member_metadata_tokens(group_id, member, remote);
    client.report_pane_metadata(pane_id, AGENT_VIEW_SOURCE, &tokens)
}

/// A pane that carries a worker's labels claims to be that worker.
pub proof fn labelled_panes_claim_their_worker(
    agent: AgentView,
    expected: ExpectationView,
    member: MemberView,
    remote: bool,
)
    requires
        member.session_id == expected.session_id,
        member.membership_id == expected.membership_id,
        forall|i: int|
            0 <= i < 4 ==> looked_up(
                agent.tokens,
                (#[trigger] metadata_tokens(expected.group_id, member, remote)[i]).0,
            ) == Some(metadata_tokens(expected.group_id, member, remote)[i].1),
    ensures
        claims(agent, expected),
{
    let tokens = metadata_tokens(expected.group_id, member, remote);
    assert(tokens[0].0 == GROUP_TOKEN@ && tokens[0].1 == expected.group_id);
    assert(tokens[1].0 == SESSION_TOKEN@ && tokens[1].1 == session_id_text(member.session_id@));
    assert(tokens[2].0 == MEMBERSHIP_TOKEN@);
}

} // verus!
