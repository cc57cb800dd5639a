//! Herdr's agent view: which group it shows, and how a choice is kept and
//! taken back.

use vstd::prelude::*;
use vstd::string::*;

use crate::document::{field, field_path, root, root_path};
use crate::failure::{led_to, plain, Failure, FailureView};
use crate::herdr::gives_done;
use crate::herdr_socket::DEFAULT_SOCKET_TIMEOUT_MILLIS;
use crate::json_text::{
    find_value, is_text_at, json_string, node_views, text_at, value_at, write_json_string,
    JsonNode, JsonValue, JsonView, NodeView,
};
use crate::model::{OrchestrationGroupId, SessionId};
use crate::socket_client::{
    asked, gives_call, made_call, value_reply, ClientView, HerdrSocketClient, SocketCall,
};
use crate::state::{find_group, find_member, group_position, member_position, GroupView, State};
use crate::text::{byte_len, byte_length, decimal, numeral, opt_view};

verus! {

pub const AGENT_VIEW_SOURCE: &'static str = "plugin:moneycaringcoder.tether";

pub const GROUP_TOKEN: &'static str = "tether_group";

pub const REMOTE_TOKEN: &'static str = "tether_remote";

pub const PREFERENCE_SCHEMA_VERSION: u32 = 1;

pub const MAX_PREFERENCE_BYTES: usize = 4_096;

/// Which agents of a group are shown.
#[derive(Clone, Copy, Debug, PartialEq, Eq, Structural)]
pub enum AgentViewFilter {
    All,
    NeedsAttention,
    Remote,
}

impl Default for AgentViewFilter {
    fn default() -> (filter: Self)
        ensures
            filter == AgentViewFilter::All,
    {
        AgentViewFilter::All
    }
}

impl AgentViewFilter {
    /// Whether all agents are shown.
    pub fn is_all(&self) -> (r: bool)
        ensures
            r == (*self == AgentViewFilter::All),
    {
        matches!(self, AgentViewFilter::All)
    }

    /// What is shown, for a reader.
    pub open spec fn text(self) -> Seq<char> {
        match self {
            AgentViewFilter::All => "group"@,
            AgentViewFilter::NeedsAttention => "group agents needing attention"@,
            AgentViewFilter::Remote => "remote group agents"@,
        }
    }

    /// What is shown, for a reader.
    pub fn label(self) -> (text: &'static str)
        ensures
            text@ == self.text(),
    {
        match self {
            AgentViewFilter::All => "group",
            AgentViewFilter::NeedsAttention => "group agents needing attention",
            AgentViewFilter::Remote => "remote group agents",
        }
    }
}

/// The group that the user wants to see, if any.
#[derive(Debug, PartialEq, Eq)]
pub struct AgentViewPreference {
    pub schema_version: u32,
    pub group_id: Option<OrchestrationGroupId>,
    pub filter: AgentViewFilter,
}

/// The contents of an [`AgentViewPreference`].
pub struct PreferenceView {
    pub schema_version: u32,
    pub group_id: Option<Seq<char>>,
    pub filter: AgentViewFilter,
}

impl View for AgentViewPreference {
    type V = PreferenceView;

    open spec fn view(&self) -> PreferenceView {
        PreferenceView {
            schema_version: self.schema_version,
            group_id: match self.group_id {
                Some(id) => Some(id@),
                None => None,
            },
            filter: self.filter,
        }
    }
}

/// No group is shown.
pub open spec fn no_preference() -> PreferenceView {
    PreferenceView {
        schema_version: PREFERENCE_SCHEMA_VERSION,
        group_id: None,
        filter: AgentViewFilter::All,
    }
}

impl Default for AgentViewPreference {
    fn default() -> (preference: Self)
        ensures
            preference@ == no_preference(),
    {
        AgentViewPreference {
            schema_version: PREFERENCE_SCHEMA_VERSION,
            group_id: None,
            filter: AgentViewFilter::All,
        }
    }
}

/// What a reader is told of a preference that is too large.
pub open spec fn oversized_preference() -> Seq<char> {
    "Agent view preference exceeds "@ + numeral(MAX_PREFERENCE_BYTES as nat) + " bytes"@
}

/// The failure for a preference that is too large.
fn oversized_failure(before: &str) -> (failure: Failure)
    ensures
        failure@ == plain(before@ + oversized_preference()),
{
    let text = before.to_owned().concat("Agent view preference exceeds ").concat(
        decimal(MAX_PREFERENCE_BYTES as u64).as_str(),
    ).concat(" bytes");
    assert(text@ =~= before@ + oversized_preference());
    Failure::new(text)
}

/// Checks the size of a preference before it is read, or what was read.
pub fn accept_preference_size(size: u64) -> (r: Result<(), Failure>)
    ensures
        gives_done(
            r,
            if size > MAX_PREFERENCE_BYTES {
                Some(plain(oversized_preference()))
            } else {
                None
            },
        ),
{
    if size > MAX_PREFERENCE_BYTES as u64 {
        let failure = oversized_failure("");
        proof {
            reveal_strlit("");
            assert(""@ + oversized_preference() =~= oversized_preference());
        }
        return Err(failure);
    }
    Ok(())
}

/// Checks a preference that was decoded.
pub fn load_preference(preference: AgentViewPreference) -> (r: Result<AgentViewPreference, Failure>)
    ensures
        if preference.schema_version == PREFERENCE_SCHEMA_VERSION {
            r == Ok::<AgentViewPreference, Failure>(preference)
        } else {
            r is Err && r->Err_0@ == plain("unsupported Agent view preference schema"@)
        },
{
    if preference.schema_version != PREFERENCE_SCHEMA_VERSION {
        return Err(Failure::new("unsupported Agent view preference schema".to_owned()));
    }
    Ok(preference)
}

/// Checks the text of a preference before it is written.
pub fn save_preference(serialized: &str) -> (r: Result<(), Failure>)
    ensures
        gives_done(
            r,
            if byte_len(serialized@) > MAX_PREFERENCE_BYTES {
                Some(plain("serialized "@ + oversized_preference()))
            } else {
                None
            },
        ),
{
    if byte_length(serialized) > MAX_PREFERENCE_BYTES {
        return Err(oversized_failure("serialized "));
    }
    Ok(())
}

/// The condition that an agent's pane is labelled with a group.
pub open spec fn group_condition(group_id: Seq<char>) -> Seq<char> {
    "{\"field\":{\"token\":"@ + json_string(GROUP_TOKEN@) + "},\"op\":\"eq\",\"value\":"@
        + json_string(group_id) + "}"@
}

/// The condition on the agents that are shown.
pub open spec fn filter_condition(group_id: Seq<char>, filter: AgentViewFilter) -> Seq<char> {
    let group = group_condition(group_id);
    match filter {
        AgentViewFilter::All => group,
        AgentViewFilter::NeedsAttention => "{\"filters\":["@ + group
            + ",{\"field\":\"status\",\"op\":\"in\",\"values\":[\"blocked\",\"done\"]}],\"op\":\"all\"}"@,
        AgentViewFilter::Remote => "{\"filters\":["@ + group + ",{\"field\":{\"token\":"@
            + json_string(REMOTE_TOKEN@)
            + "},\"op\":\"eq\",\"value\":\"true\"}],\"op\":\"all\"}"@,
    }
}

/// The parameters of a request to show a group.
pub open spec fn view_params(group_id: Seq<char>, filter: AgentViewFilter) -> Seq<char> {
    "{\"filter\":"@ + filter_condition(group_id, filter) + ",\"label\":"@ + json_string(
        "Tether "@ + filter.text(),
    )
        + ",\"sort\":[{\"field\":\"attention\",\"order\":\"desc\"},{\"field\":\"state_change_seq\",\"order\":\"desc\"}],\"source\":"@
        + json_string(AGENT_VIEW_SOURCE@) + "}"@
}

/// The parameters of a request to show no group.
pub open spec fn clear_params() -> Seq<char> {
    "{\"source\":"@ + json_string(AGENT_VIEW_SOURCE@) + "}"@
}

/// The condition on the agents that are shown.
fn write_condition(group_id: &str, filter: AgentViewFilter) -> (text: String)
    ensures
        text@ == filter_condition(group_id@, filter),
{
    let group = "{\"field\":{\"token\":".to_owned().concat(
        write_json_string(GROUP_TOKEN).as_str(),
    ).concat("},\"op\":\"eq\",\"value\":").concat(write_json_string(group_id).as_str()).concat("}");
    match filter {
        AgentViewFilter::All => group,
        AgentViewFilter::NeedsAttention => "{\"filters\":[".to_owned().concat(
            group.as_str(),
        ).concat(
            ",{\"field\":\"status\",\"op\":\"in\",\"values\":[\"blocked\",\"done\"]}],\"op\":\"all\"}",
        ),
        AgentViewFilter::Remote => "{\"filters\":[".to_owned().concat(group.as_str()).concat(
            ",{\"field\":{\"token\":",
        ).concat(write_json_string(REMOTE_TOKEN).as_str()).concat(
            "},\"op\":\"eq\",\"value\":\"true\"}],\"op\":\"all\"}",
        ),
    }
}

/// A view that Herdr reports is on or off.
pub open spec fn reports_view(nodes: Seq<NodeView>, active: bool) -> bool {
    let result = field(root(), "result"@);
    &&& text_at(nodes, field(result, "type"@)) == Some("agent_view"@)
    &&& value_at(nodes, field(result, "active"@)) == Some(JsonView::Bool(active))
}

/// Accepts a result that reports a view on or off.
pub fn require_agent_view_response(nodes: &Vec<JsonNode>, active: bool) -> (r: Result<(), Failure>)
    ensures
        gives_done(
            r,
            if reports_view(node_views(nodes@), active) {
                None
            } else {
                Some(plain("Herdr Agent view response had an unexpected shape"@))
            },
        ),
{
    let typed = is_text_at(
        nodes,
        &field_path(field_path(root_path(), "result"), "type"),
        "agent_view",
    );
    let as_asked = match find_value(
        nodes,
        &field_path(field_path(root_path(), "result"), "active"),
    ) {
        Some(JsonValue::Bool(found)) => *found == active,
        _ => false,
    };
    if typed && as_asked {
        Ok(())
    } else {
        Err(Failure::new("Herdr Agent view response had an unexpected shape".to_owned()))
    }
}

/// A change of the view: what is kept if Herdr agrees, and what is restored if
/// it does not.
#[derive(Debug, PartialEq, Eq)]
pub struct ViewChange {
    previous: AgentViewPreference,
    next: AgentViewPreference,
}

/// How a change of the view ended.
#[derive(Debug, PartialEq, Eq)]
pub enum ViewOutcome {
    /// Herdr shows what was chosen.
    Kept,
    /// Herdr did not agree: this preference is restored.
    Restore { previous: AgentViewPreference, failure: Failure },
}

/// Why Herdr does not show what was chosen, if it does not.
pub open spec fn view_problem(
    call: Result<SocketCall, Failure>,
    response: Result<Vec<u8>, Failure>,
    active: bool,
) -> Option<FailureView> {
    match call {
        Err(failure) => Some(failure@),
        Ok(call) => match value_reply(response, call@.id, call@.method) {
            Err(failure) => Some(failure),
            Ok(nodes) => if reports_view(nodes, active) {
                None
            } else {
                Some(plain("Herdr Agent view response had an unexpected shape"@))
            },
        },
    }
}

/// Accepts an answer that says that Herdr shows what was chosen.
fn view_reply(
    call: Result<SocketCall, Failure>,
    response: Result<Vec<u8>, Failure>,
    active: bool,
) -> (r: Result<(), Failure>)
    ensures
        gives_done(r, view_problem(call, response, active)),
{
    match call {
        Err(failure) => Err(failure),
        Ok(call) => match call.request_value(response) {
            Err(failure) => Err(failure),
            Ok(nodes) => require_agent_view_response(&nodes, active),
        },
    }
}

impl ViewChange {
    /// The preference from before.
    pub closed spec fn previous_view(self) -> PreferenceView {
        self.previous@
    }

    /// The preference that was chosen.
    pub closed spec fn next_view(self) -> PreferenceView {
        self.next@
    }

    /// The preference that is written before Herdr is asked.
    pub fn next(&self) -> (preference: &AgentViewPreference)
        ensures
            preference@ == self.next_view(),
    {
        &self.next
    }

    /// Takes Herdr's answer. `call` is the request that was made, if it could
    /// be made.
    pub fn answered(self, call: Result<SocketCall, Failure>, response: Result<Vec<u8>, Failure>) -> (outcome:
        ViewOutcome)
        ensures
            match view_problem(call, response, self.next_view().group_id is Some) {
                None => outcome is Kept,
                Some(failure) => outcome is Restore && outcome->previous@ == self.previous_view()
                    && outcome->failure@ == failure,
            },
    {
        let active = self.next.group_id.is_some();
        match view_reply(call, response, active) {
            Ok(()) => ViewOutcome::Kept,
            Err(failure) => ViewOutcome::Restore { previous: self.previous, failure },
        }
    }

    /// The failure where the earlier preference could not be restored.
    pub fn unrestored(cleared: bool, failure: Failure) -> (r: Failure)
        ensures
            r@ == led_to(
                if cleared {
                    "restore prior Agent view preference after Herdr rejected the clear"@
                } else {
                    "restore prior Agent view preference after Herdr rejected the view"@
                },
                failure@,
            ),
    {
        if cleared {
            failure.context(
                "restore prior Agent view preference after Herdr rejected the clear".to_owned(),
            )
        } else {
            failure.context(
                "restore prior Agent view preference after Herdr rejected the view".to_owned(),
            )
        }
    }
}

/// What is done with a preference when Tether starts.
#[derive(Debug, PartialEq, Eq)]
pub enum RestoreStep {
    /// No group was chosen.
    Nothing,
    /// The chosen group is gone, so the preference is dropped.
    Drop(AgentViewPreference),
    /// The chosen group is shown again.
    Show { group_id: OrchestrationGroupId, filter: AgentViewFilter },
}

/// A session belongs to a group, as its orchestrator or as a worker.
pub open spec fn belongs(group: GroupView, session_id: SessionId) -> bool {
    group.orchestrator == session_id || find_member(group.workers, session_id) is Some
}

/// The agent view of one preference file.
#[derive(Debug, PartialEq, Eq)]
pub struct AgentViewService {
    preference_file: String,
    client: Option<HerdrSocketClient>,
}

/// The contents of an [`AgentViewService`].
pub struct ServiceView {
    pub preference_file: Seq<char>,
    pub client: Option<ClientView>,
}

impl View for AgentViewService {
    type V = ServiceView;

    closed spec fn view(&self) -> ServiceView {
        ServiceView {
            preference_file: self.preference_file@,
            client: match self.client {
                Some(client) => Some(client@),
                None => None,
            },
        }
    }
}

/// The request that a service makes, and the service behind it. Without a
/// socket there is no request.
pub open spec fn requests(
    before: ServiceView,
    after: ServiceView,
    r: Result<SocketCall, Failure>,
    method: Seq<char>,
    params: Seq<char>,
) -> bool {
    match before.client {
        None => after == before && r is Err && r->Err_0@ == plain(
            "Herdr did not provide HERDR_SOCKET_PATH"@,
        ),
        Some(client) => after == (ServiceView { client: Some(asked(client)), ..before })
            && gives_call(
            r,
            made_call(
                client.next_id,
                method,
                params,
                DEFAULT_SOCKET_TIMEOUT_MILLIS as int,
                "agent_view"@,
                "active"@,
                "Agent view"@,
            ),
        ),
    }
}

impl AgentViewService {
    /// The agent view of a preference file, over the socket that the
    /// environment names.
    pub fn from_env(preference_file: String, socket_path: Option<String>) -> (service: Self)
        ensures
            service@ == (ServiceView {
                preference_file: preference_file@,
                client: match opt_view(socket_path) {
                    Some(path) => if path.len() > 0 {
                        Some(ClientView { socket_path: path, next_id: 1 })
                    } else {
                        None
                    },
                    None => None,
                },
            }),
    {
        let client = match socket_path {
            Some(path) => {
                if path.as_str().is_empty() {
                    None
                } else {
                    Some(HerdrSocketClient::new(path))
                }
            },
            None => None,
        };
        AgentViewService { preference_file, client }
    }

    /// The preference file.
    pub fn preference_file(&self) -> (path: &str)
        ensures
            path@ == self@.preference_file,
    {
        self.preference_file.as_str()
    }

    /// The path of the socket, if there is one.
    pub fn socket_path(&self) -> (path: Option<String>)
        ensures
            opt_view(path) == match self@.client {
                Some(client) => Some(client.socket_path),
                None => None,
            },
    {
        match &self.client {
            Some(client) => Some(client.socket_path().to_owned()),
            None => None,
        }
    }

    /// Chooses to show all agents of a group.
    pub fn set_group(
        &self,
        state: &State,
        group_id: &OrchestrationGroupId,
        previous: AgentViewPreference,
    ) -> (r: Result<ViewChange, Failure>)
        ensures
            chooses(r, state@.groups, group_id@, AgentViewFilter::All, previous@),
    {
        self.set_group_filter(state, group_id, AgentViewFilter::All, previous)
    }

    /// Chooses to show some agents of a group.
    pub fn set_group_filter(
        &self,
        state: &State,
        group_id: &OrchestrationGroupId,
        filter: AgentViewFilter,
        previous: AgentViewPreference,
    ) -> (r: Result<ViewChange, Failure>)
        ensures
            chooses(r, state@.groups, group_id@, filter, previous@),
    {
        if group_position(&state.orchestration_groups, group_id).is_none() {
            return Err(Failure::new("unknown orchestration group".to_owned()));
        }
        let next = AgentViewPreference {
            schema_version: PREFERENCE_SCHEMA_VERSION,
            group_id: Some(group_id.clone()),
            filter,
        };
        Ok(ViewChange { previous, next })
    }

    /// Chooses to show no group.
    pub fn clear(&self, previous: AgentViewPreference) -> (change: ViewChange)
        ensures
            change.previous_view() == previous@,
            change.next_view() == no_preference(),
    {
        ViewChange { previous, next: AgentViewPreference::default() }
    }

    /// Chooses to show no group, if the given one is shown.
    pub fn clear_group_if_active(
        &self,
        group_id: &OrchestrationGroupId,
        previous: AgentViewPreference,
    ) -> (change: Option<ViewChange>)
        ensures
            if previous@.group_id == Some(group_id@) {
                change is Some && change->0.previous_view() == previous@ && change->0.next_view()
                    == no_preference()
            } else {
                change is None
            },
    {
        let active = match &previous.group_id {
            Some(shown) => shown.same(group_id),
            None => false,
        };
        if active {
            Some(self.clear(previous))
        } else {
            None
        }
    }

    /// What is done with the preference when Tether starts.
    pub fn restore(&self, state: &State, preference: AgentViewPreference) -> (step: RestoreStep)
        ensures
            match preference@.group_id {
                None => step is Nothing,
                Some(group_id) => if find_group(state@.groups, group_id) is None {
                    step is Drop && step->Drop_0@ == no_preference()
                } else {
                    step is Show && step->group_id@ == group_id && step->filter
                        == preference.filter
                },
            },
    {
        match preference.group_id {
            None => RestoreStep::Nothing,
            Some(group_id) => {
                if group_position(&state.orchestration_groups, &group_id).is_none() {
                    RestoreStep::Drop(AgentViewPreference::default())
                } else {
                    RestoreStep::Show { group_id, filter: preference.filter }
                }
            },
        }
    }

    /// The chosen group, if a session belongs to it.
    pub fn group_for_session(
        &self,
        state: &State,
        preference: &AgentViewPreference,
        session_id: SessionId,
    ) -> (group: Option<OrchestrationGroupId>)
        ensures
            match group {
                Some(group) => preference@.group_id == Some(group@) && exists|i: int|
                    0 <= i < state@.groups.len() && (#[trigger] state@.groups[i]).id == group@
                        && belongs(state@.groups[i], session_id),
                None => forall|i: int|
                    0 <= i < state@.groups.len() && preference@.group_id == Some(
                        (#[trigger] state@.groups[i]).id,
                    ) ==> !belongs(state@.groups[i], session_id),
            },
    {
        let group_id = match &preference.group_id {
            Some(group_id) => group_id,
            None => {
                return None;
            },
        };
        let ghost all = state@.groups;
        let mut i: usize = 0;
        while i < state.orchestration_groups.len()
            invariant
                i <= state.orchestration_groups@.len(),
                all == state@.groups,
                preference@.group_id == Some(group_id@),
                forall|j: int|
                    0 <= j < i && (#[trigger] all[j]).id == group_id@ ==> !belongs(
                        all[j],
                        session_id,
                    ),
            decreases state.orchestration_groups.len() - i,
        {
            let group = &state.orchestration_groups[i];
            assert(all[i as int] == group@);
            if group.id.same(group_id) && (group.orchestrator_session_id == session_id
                || member_position(&group.workers, session_id).is_some()) {
                let found = group.id.clone();
                assert(state@.groups[i as int].id == found@ && belongs(
                    state@.groups[i as int],
                    session_id,
                ));
                return Some(found);
            }
            i += 1;
        }
        None
    }

    /// Asks Herdr to show a group.
    pub fn apply_group(&mut self, group_id: &OrchestrationGroupId, mode: AgentViewFilter) -> (r:
        Result<SocketCall, Failure>)
        ensures
            requests(
                old(self)@,
                final(self)@,
                r,
                "agent.view.set"@,
                view_params(group_id@, mode),
            ),
    {
        let label = "Tether ".to_owned().concat(mode.label());
        let params = "{\"filter\":".to_owned().concat(
            write_condition(group_id.as_str(), mode).as_str(),
        ).concat(",\"label\":").concat(write_json_string(label.as_str()).as_str()).concat(
            ",\"sort\":[{\"field\":\"attention\",\"order\":\"desc\"},{\"field\":\"state_change_seq\",\"order\":\"desc\"}],\"source\":",
        ).concat(write_json_string(AGENT_VIEW_SOURCE).as_str()).concat("}");
        self.request("agent.view.set", params.as_str())
    }

    /// Asks Herdr to show no group.
    pub fn clear_runtime(&mut self) -> (r: Result<SocketCall, Failure>)
        ensures
            requests(old(self)@, final(self)@, r, "agent.view.clear"@, clear_params()),
    {
        let params = "{\"source\":".to_owned().concat(
            write_json_string(AGENT_VIEW_SOURCE).as_str(),
        ).concat("}");
        self.request("agent.view.clear", params.as_str())
    }

    /// Makes a request, if there is a socket.
    fn request(&mut self, method: &str, params: &str) -> (r: Result<SocketCall, Failure>)
        ensures
            requests(old(self)@, final(self)@, r, method@, params@),
    {
        match &mut self.client {
            None => Err(Failure::new("Herdr did not provide HERDR_SOCKET_PATH".to_owned())),
            Some(client) => client.call(
                method,
                params,
                DEFAULT_SOCKET_TIMEOUT_MILLIS as u128,
                "agent_view",
                "active",
                "Agent view",
            ),
        }
    }
}

/// Choosing a group succeeds exactly for a group that there is.
pub open spec fn chooses(
    r: Result<ViewChange, Failure>,
    groups: Seq<GroupView>,
    group_id: Seq<char>,
    filter: AgentViewFilter,
    previous: PreferenceView,
) -> bool {
    if find_group(groups, group_id) is None {
        r is Err && r->Err_0@ == plain("unknown orchestration group"@)
    } else {
        r is Ok && r->Ok_0.previous_view() == previous && r->Ok_0.next_view() == (PreferenceView {
            schema_version: PREFERENCE_SCHEMA_VERSION,
            group_id: Some(group_id),
            filter,
        })
    }
}

} // verus!
