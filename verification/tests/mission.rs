//! Mission Control, the sidebar view and the socket behind both.

use std::cell::{Cell, RefCell};

use herdr_tether::agent_view::{
    accept_preference_size, load_preference, require_agent_view_response, save_preference,
    AgentViewFilter, AgentViewPreference, AgentViewService, RestoreStep, ViewChange, ViewOutcome,
    AGENT_VIEW_SOURCE, GROUP_TOKEN, MAX_PREFERENCE_BYTES, PREFERENCE_SCHEMA_VERSION, REMOTE_TOKEN,
};
use herdr_tether::clock::Timestamp;
use herdr_tether::failure::Failure;
use herdr_tether::herdr_socket::{
    AgentStatus, EventSignal, HerdrAgentInfo, HerdrPaneInfo, HerdrSessionSnapshot,
    PromptDeliveryError,
};
use herdr_tether::json_text::{parse_json, JsonNode, JsonValue};
use herdr_tether::document::Step;
use herdr_tether::mission_control::{
    binding_expectation, expectation_for, finish_delivery, label_materialized_member,
    member_metadata_tokens, refuse_delivery, resolve_binding, BindingFailure, MemberExpectation,
    MemberTarget, MissionAgentState, MissionControlService, PlannedDelivery, PromptAttempt,
    RequiredCapability, TargetDelivery, MEMBERSHIP_TOKEN, SESSION_TOKEN,
};
use herdr_tether::model::{OrchestrationGroupId, SessionId};
use herdr_tether::socket_client::{HerdrSocketClient, MonitorState, MonitorStep};
use herdr_tether::state::{
    OrchestrationCapabilities, OrchestrationGroup, OrchestrationMember, SessionRecord,
    SessionStatus, State, StateStore,
};
use herdr_tether::tokens::Tokens;

const SESSION: &str = "tether-0197f198000070008000000000000002";
const MEMBERSHIP: &str = "0197f198000070008000000000000011";
const SECOND_SESSION: &str = "tether-0197f198000070008000000000000003";
const SECOND_MEMBERSHIP: &str = "0197f198000070008000000000000012";

fn group_id() -> OrchestrationGroupId {
    "build-group".parse().unwrap()
}

fn member(prompt_agent: bool) -> OrchestrationMember {
    OrchestrationMember {
        session_id: SESSION.parse().unwrap(),
        membership_id: MEMBERSHIP.parse().unwrap(),
        title: Some("Worker".parse().unwrap()),
        capabilities: OrchestrationCapabilities {
            observe_output: true,
            open_interactive: true,
            prompt_agent,
        },
    }
}

fn test_state(prompt_agent: bool) -> State {
    let now = Timestamp::now();
    let member = member(prompt_agent);
    State {
        version: State::CURRENT_VERSION,
        sessions: vec![SessionRecord {
            id: member.session_id,
            host: "local".to_owned(),
            target: "local".to_owned(),
            directory: "/work".to_owned(),
            preset: None,
            herdr_agent: Some("codex".parse().unwrap()),
            command: Some("codex".to_owned()),
            tmux_session_id: Some("$1".parse().unwrap()),
            ownership_proof: Some("0197f198000070008000000000000099".parse().unwrap()),
            status: SessionStatus::Running,
            created_at: now,
            last_used_at: now,
            closed_at: None,
            exit_status: None,
        }],
        orchestration_groups: vec![OrchestrationGroup {
            id: group_id(),
            title: "Build group".parse().unwrap(),
            orchestrator_session_id: "tether-0197f198000070008000000000000001".parse().unwrap(),
            workers: vec![member],
        }],
    }
}

fn agent(
    membership: &str,
    pane_id: &str,
    terminal_id: &str,
    kind: Option<&str>,
    status: AgentStatus,
) -> HerdrAgentInfo {
    let mut tokens = Tokens::new();
    tokens.insert(GROUP_TOKEN.to_owned(), "build-group".to_owned());
    tokens.insert(SESSION_TOKEN.to_owned(), SESSION.to_owned());
    tokens.insert(MEMBERSHIP_TOKEN.to_owned(), membership.to_owned());
    HerdrAgentInfo {
        terminal_id: terminal_id.to_owned(),
        name: Some("worker".to_owned()),
        agent: kind.map(str::to_owned),
        title: None,
        agent_status: status,
        tokens,
        workspace_id: "w1".to_owned(),
        tab_id: "w1:t1".to_owned(),
        pane_id: pane_id.to_owned(),
        focused: false,
        state_change_seq: 4,
        revision: 9,
    }
}

fn codex(status: AgentStatus) -> HerdrAgentInfo {
    agent(MEMBERSHIP, "w1:p1", "term-1", Some("codex"), status)
}

fn snapshot(agents: Vec<HerdrAgentInfo>) -> HerdrSessionSnapshot {
    HerdrSessionSnapshot {
        version: "0.7.5".to_owned(),
        protocol: 17,
        focused_workspace_id: None,
        focused_tab_id: None,
        focused_pane_id: None,
        panes: agents
            .iter()
            .map(|agent| HerdrPaneInfo {
                pane_id: agent.pane_id.clone(),
                terminal_id: agent.terminal_id.clone(),
                workspace_id: agent.workspace_id.clone(),
                tab_id: agent.tab_id.clone(),
                agent: agent.agent.clone(),
                agent_status: agent.agent_status,
                tokens: agent.tokens.clone(),
                revision: agent.revision,
            })
            .collect(),
        agents,
    }
}

fn expected() -> MemberExpectation {
    MemberExpectation {
        group_id: group_id(),
        session_id: SESSION.parse().unwrap(),
        membership_id: MEMBERSHIP.parse().unwrap(),
        expected_agent: "codex".to_owned(),
    }
}

fn target() -> MemberTarget {
    MemberTarget {
        session_id: SESSION.parse().unwrap(),
        membership_id: MEMBERSHIP.parse().unwrap(),
    }
}

fn service() -> MissionControlService {
    MissionControlService::new(StateStore::new("/state.json".to_owned()))
}

/// A Herdr that shows one snapshot after the other, the last one for good, and
/// keeps whom it was asked to prompt.
struct FakeHerdr {
    snapshots: Vec<HerdrSessionSnapshot>,
    shown: Cell<usize>,
    prompts: RefCell<Vec<String>>,
}

impl FakeHerdr {
    fn new(snapshots: Vec<HerdrSessionSnapshot>) -> Self {
        FakeHerdr { snapshots, shown: Cell::new(0), prompts: RefCell::new(Vec::new()) }
    }

    fn snapshot(&self) -> &HerdrSessionSnapshot {
        let at = self.shown.get().min(self.snapshots.len() - 1);
        self.shown.set(at + 1);
        &self.snapshots[at]
    }
}

/// Delivers a prompt to one destination, as the application does.
fn deliver_one(
    state: &State,
    herdr: &FakeHerdr,
    target: MemberTarget,
    result: Result<HerdrAgentInfo, PromptDeliveryError>,
) -> Result<TargetDelivery, Failure> {
    let group = group_id();
    let expectation = expectation_for(state, &group, target, RequiredCapability::PromptAgent)?;
    let first = service().authorize_binding(expectation, herdr.snapshot(), true)?;
    let attempt = PromptAttempt::new(first);
    attempt.revalidate(state, &group, target)?;
    let binding = attempt.confirm(herdr.snapshot())?;
    herdr.prompts.borrow_mut().push(binding.target().to_owned());
    Ok(finish_delivery(target.session_id, &binding, result))
}

/// Delivers a prompt to some destinations, as the application does.
fn deliver(
    state: &State,
    herdr: &FakeHerdr,
    targets: &[MemberTarget],
    reviewed: bool,
    result: impl Fn() -> Result<HerdrAgentInfo, PromptDeliveryError>,
) -> Vec<TargetDelivery> {
    service()
        .deliver_reviewed_prompt(&targets.to_vec(), reviewed)
        .into_iter()
        .map(|plan| match plan {
            PlannedDelivery::Refused(delivery) => delivery,
            PlannedDelivery::Attempt(target) => deliver_one(state, herdr, target, result())
                .unwrap_or_else(|failure| refuse_delivery(target.session_id, &failure)),
        })
        .collect()
}

#[test]
fn binding_requires_exact_group_session_and_membership_tokens() {
    assert_eq!(
        resolve_binding(&snapshot(vec![codex(AgentStatus::Idle)]), &expected()).unwrap().pane_id,
        "w1:p1"
    );
    assert_eq!(
        resolve_binding(
            &snapshot(vec![agent(
                "0197f198000070008000000000000012",
                "w1:p1",
                "term-1",
                Some("codex"),
                AgentStatus::Idle,
            )]),
            &expected(),
        ),
        Err(BindingFailure::StaleMembership)
    );
    assert_eq!(
        resolve_binding(
            &snapshot(vec![codex(AgentStatus::Idle), codex(AgentStatus::Idle)]),
            &expected()
        ),
        Err(BindingFailure::Ambiguous)
    );
}

#[test]
fn read_only_live_binding_never_inherits_prompt_authority() {
    let state = test_state(false);
    let herdr = FakeHerdr::new(vec![snapshot(vec![codex(AgentStatus::Idle)])]);

    assert_eq!(
        service()
            .binding_for_observation(&state, &group_id(), target(), herdr.snapshot())
            .unwrap()
            .pane_id,
        "w1:p1"
    );
    assert_eq!(
        service()
            .binding_for_open(&state, &group_id(), target(), herdr.snapshot())
            .unwrap()
            .pane_id,
        "w1:p1"
    );
    let result = deliver(&state, &herdr, &[target()], true, || Ok(codex(AgentStatus::Idle)));
    assert!(matches!(result[0], TargetDelivery::Rejected { .. }));
    assert!(herdr.prompts.borrow().is_empty());
}

#[test]
fn binding_rejects_unknown_and_different_agents() {
    assert_eq!(
        resolve_binding(
            &snapshot(vec![agent(MEMBERSHIP, "w1:p1", "term-1", None, AgentStatus::Unknown)]),
            &expected(),
        ),
        Err(BindingFailure::UnknownAgent)
    );
    assert_eq!(
        resolve_binding(
            &snapshot(vec![agent(
                MEMBERSHIP,
                "w1:p1",
                "term-1",
                Some("gemini"),
                AgentStatus::Idle
            )]),
            &expected(),
        ),
        Err(BindingFailure::AgentKindMismatch)
    );
}

#[test]
fn reviewed_authorized_settled_prompt_is_delivered_once() {
    let herdr = FakeHerdr::new(vec![snapshot(vec![codex(AgentStatus::Idle)])]);
    let result = deliver(&test_state(true), &herdr, &[target()], true, || {
        Ok(codex(AgentStatus::Done))
    });
    assert_eq!(
        result,
        vec![TargetDelivery::Delivered {
            session_id: SESSION.parse().unwrap(),
            final_state: MissionAgentState::Done,
        }]
    );
    assert_eq!(herdr.prompts.borrow().as_slice(), ["worker"]);
}

#[test]
fn revoked_or_unreviewed_prompt_delivers_no_input() {
    for (state, reviewed) in [(test_state(false), true), (test_state(true), false)] {
        let herdr = FakeHerdr::new(vec![snapshot(vec![codex(AgentStatus::Idle)])]);
        let result =
            deliver(&state, &herdr, &[target()], reviewed, || Ok(codex(AgentStatus::Idle)));
        assert!(matches!(result[0], TargetDelivery::Rejected { .. }));
        assert!(herdr.prompts.borrow().is_empty());
    }
}

#[test]
fn pane_replacement_between_checks_delivers_no_input() {
    let replacement = agent(MEMBERSHIP, "w1:p1", "term-2", Some("codex"), AgentStatus::Idle);
    let herdr = FakeHerdr::new(vec![
        snapshot(vec![codex(AgentStatus::Idle)]),
        snapshot(vec![replacement]),
    ]);
    let result =
        deliver(&test_state(true), &herdr, &[target()], true, || Ok(codex(AgentStatus::Idle)));
    assert!(matches!(result[0], TargetDelivery::Rejected { .. }));
    assert!(herdr.prompts.borrow().is_empty());
}

#[test]
fn pane_move_between_checks_preserves_exact_agent_delivery() {
    let moved = || {
        let mut moved = agent(MEMBERSHIP, "w2:p9", "term-1", Some("codex"), AgentStatus::Done);
        moved.workspace_id = "w2".to_owned();
        moved.tab_id = "w2:t3".to_owned();
        moved.state_change_seq = codex(AgentStatus::Idle).state_change_seq;
        moved
    };
    let herdr = FakeHerdr::new(vec![
        snapshot(vec![codex(AgentStatus::Idle)]),
        snapshot(vec![moved()]),
    ]);
    let result = deliver(&test_state(true), &herdr, &[target()], true, || Ok(moved()));
    assert!(matches!(
        result[0],
        TargetDelivery::Delivered { final_state: MissionAgentState::Done, .. }
    ));
    assert_eq!(herdr.prompts.borrow().as_slice(), ["worker"]);
}

#[test]
fn mixed_multi_target_fanout_reports_each_target_independently() {
    let mut state = test_state(true);
    let mut second_record = state.sessions[0].clone();
    second_record.id = SECOND_SESSION.parse().unwrap();
    second_record.tmux_session_id = Some("$2".parse().unwrap());
    second_record.ownership_proof = Some("0197f198000070008000000000000098".parse().unwrap());
    state.sessions.push(second_record);
    state.orchestration_groups[0].workers.push(OrchestrationMember {
        session_id: SECOND_SESSION.parse().unwrap(),
        membership_id: SECOND_MEMBERSHIP.parse().unwrap(),
        title: Some("Worker two".parse().unwrap()),
        capabilities: OrchestrationCapabilities {
            observe_output: true,
            open_interactive: true,
            prompt_agent: true,
        },
    });
    let mut blocked =
        agent(SECOND_MEMBERSHIP, "w1:p2", "term-2", Some("codex"), AgentStatus::Working);
    blocked.name = Some("worker-two".to_owned());
    blocked.tokens.insert(SESSION_TOKEN.to_owned(), SECOND_SESSION.to_owned());
    let herdr = FakeHerdr::new(vec![snapshot(vec![codex(AgentStatus::Idle), blocked])]);
    let second = MemberTarget {
        session_id: SECOND_SESSION.parse().unwrap(),
        membership_id: SECOND_MEMBERSHIP.parse().unwrap(),
    };

    let result =
        deliver(&state, &herdr, &[target(), second], true, || Ok(codex(AgentStatus::Done)));

    assert!(matches!(result[0], TargetDelivery::Delivered { .. }));
    assert!(matches!(result[1], TargetDelivery::Rejected { .. }));
    assert_eq!(herdr.prompts.borrow().as_slice(), ["worker"]);
}

#[test]
fn uncertain_delivery_is_never_retried() {
    let herdr = FakeHerdr::new(vec![snapshot(vec![codex(AgentStatus::Idle)])]);
    let result = deliver(&test_state(true), &herdr, &[target()], true, || {
        Err(PromptDeliveryError::Uncertain)
    });
    assert!(matches!(result[0], TargetDelivery::Uncertain { .. }));
    assert_eq!(herdr.prompts.borrow().len(), 1);
}

#[test]
fn destinations_are_few_and_distinct() {
    let plans = service().deliver_reviewed_prompt(&vec![target(), target()], true);
    assert_eq!(plans[0], PlannedDelivery::Attempt(target()));
    match &plans[1] {
        PlannedDelivery::Refused(TargetDelivery::Rejected { reason, .. }) => {
            assert_eq!(reason, "duplicate prompt destination");
        }
        other => panic!("{other:?}"),
    }
    let many = vec![target(); 500];
    assert!(service()
        .deliver_reviewed_prompt(&many, true)
        .iter()
        .all(|plan| matches!(plan, PlannedDelivery::Refused(_))));
}

#[test]
fn an_old_herdr_authorizes_nothing() {
    let mut old = snapshot(vec![codex(AgentStatus::Idle)]);
    old.version = "0.7.4".to_owned();
    assert_eq!(
        service().authorize_binding(expected(), &old, true).unwrap_err().message(),
        "Mission Control requires Herdr 0.7.5 or newer"
    );
    let busy = snapshot(vec![codex(AgentStatus::Working)]);
    assert_eq!(
        service().authorize_binding(expected(), &busy, true).unwrap_err().message(),
        "agent must be IDLE or DONE before prompt delivery"
    );
    assert!(service().authorize_binding(expected(), &busy, false).is_ok());
}

#[test]
fn a_worker_is_expected_only_in_its_own_membership() {
    let state = test_state(false);
    assert_eq!(binding_expectation(&state, &group_id(), target()).unwrap(), expected());
    let mut other = target();
    other.membership_id = SECOND_MEMBERSHIP.parse().unwrap();
    assert!(binding_expectation(&state, &group_id(), other).is_err());
    assert!(binding_expectation(&state, &"other".parse().unwrap(), target()).is_err());
    assert_eq!(
        expectation_for(&state, &group_id(), target(), RequiredCapability::PromptAgent)
            .unwrap_err()
            .message(),
        "worker does not authorize agent prompts"
    );
}

#[test]
fn a_labelled_pane_claims_its_worker() {
    let labels = member_metadata_tokens(&group_id(), &member(true), true);
    let mut tokens = Tokens::new();
    for label in labels {
        tokens.insert(label.name, label.value);
    }
    assert_eq!(tokens.get(GROUP_TOKEN).as_deref(), Some("build-group"));
    assert!(tokens.holds(REMOTE_TOKEN, "true"));
    let mut labelled = codex(AgentStatus::Idle);
    labelled.tokens = tokens;
    assert!(resolve_binding(&snapshot(vec![labelled]), &expected()).is_ok());

    let mut client = HerdrSocketClient::new("/run/herdr.sock".to_owned());
    let call = label_materialized_member(&mut client, "w1:p1", &group_id(), &member(true), false)
        .unwrap();
    let nodes = parse_json(call.bytes()).unwrap();
    assert_eq!(text_at(&nodes, &["method"]), "pane.report_metadata");
    assert_eq!(text_at(&nodes, &["params", "tokens", SESSION_TOKEN]), SESSION);
    assert!(label_materialized_member(&mut client, " ", &group_id(), &member(true), false)
        .is_err());

    let id = text_at(&nodes, &["id"]);
    let answer = |result: &str| Ok(format!("{{\"id\":\"{id}\",\"result\":{result}}}").into_bytes());
    let undecoded = || Err(Failure::new("no pane".to_owned()));
    assert!(call.metadata_reply(answer("{\"type\":\"ok\"}"), undecoded(), "w1:p1").is_ok());
    assert_eq!(
        call.metadata_reply(answer("{\"type\":\"tab\"}"), undecoded(), "w1:p1")
            .unwrap_err()
            .message(),
        "Herdr pane metadata response had an unexpected type"
    );
    let pane = |pane_id: &str| HerdrPaneInfo {
        pane_id: pane_id.to_owned(),
        terminal_id: "term-1".to_owned(),
        workspace_id: "w1".to_owned(),
        tab_id: "w1:t1".to_owned(),
        agent: None,
        agent_status: AgentStatus::Unknown,
        tokens: Tokens::new(),
        revision: 0,
    };
    let labelled = || answer("{\"type\":\"pane_info\",\"pane\":{}}");
    assert!(call.metadata_reply(labelled(), Ok(pane("w1:p1")), "w1:p1").is_ok());
    assert_eq!(
        call.metadata_reply(labelled(), Ok(pane("w1:p2")), "w1:p1").unwrap_err().message(),
        "Herdr labeled a different pane than requested"
    );
}

#[test]
fn states_of_agents_have_labels_and_permit_nothing_destructive() {
    for (status, label, prompts) in [
        (AgentStatus::Idle, "IDLE", true),
        (AgentStatus::Working, "WORKING", false),
        (AgentStatus::Blocked, "BLOCKED", false),
        (AgentStatus::Done, "DONE", true),
        (AgentStatus::Unknown, "UNKNOWN", false),
    ] {
        let state = MissionAgentState::from_status(status);
        assert_eq!(state.label(), label);
        assert_eq!(status.label(), label);
        assert_eq!(state.permits_prompt(), prompts);
        assert_eq!(status.is_settled(), prompts);
        assert!(!state.permits_destructive_action());
    }
    assert_eq!(BindingFailure::Ambiguous.state(), MissionAgentState::Stale);
    assert_eq!(BindingFailure::Detached.message(), "worker is not materialized in Herdr");
}

fn state(group: &str) -> State {
    State {
        version: State::CURRENT_VERSION,
        sessions: Vec::new(),
        orchestration_groups: vec![OrchestrationGroup {
            id: group.parse().unwrap(),
            title: "Build group".parse().unwrap(),
            orchestrator_session_id: "tether-0197f198000070008000000000000001".parse().unwrap(),
            workers: Vec::new(),
        }],
    }
}

fn view_service() -> AgentViewService {
    AgentViewService::from_env("/agent-view.json".to_owned(), Some("/herdr.sock".to_owned()))
}

fn preference(group: Option<&str>, filter: AgentViewFilter) -> AgentViewPreference {
    AgentViewPreference {
        schema_version: PREFERENCE_SCHEMA_VERSION,
        group_id: group.map(|id| id.parse().unwrap()),
        filter,
    }
}

fn node<'a>(nodes: &'a [JsonNode], path: &[&str]) -> Option<&'a JsonValue> {
    let steps: Vec<Step> = path
        .iter()
        .map(|step| match step.parse::<usize>() {
            Ok(at) => Step::Item(at),
            Err(_) => Step::Key((*step).to_owned()),
        })
        .collect();
    nodes.iter().find(|node| node.path == steps).map(|node| &node.value)
}

fn text_at(nodes: &[JsonNode], path: &[&str]) -> String {
    match node(nodes, path) {
        Some(JsonValue::Text(text)) => text.clone(),
        other => panic!("{path:?}: {other:?}"),
    }
}

/// Has Herdr agree to a change of the view, or not.
fn answer(change: ViewChange, service: &mut AgentViewService, agrees: bool) -> ViewOutcome {
    let next = change.next();
    let call = match &next.group_id {
        Some(group) => service.apply_group(&group.clone(), next.filter),
        None => service.clear_runtime(),
    };
    let id = text_at(&parse_json(call.as_ref().unwrap().bytes()).unwrap(), &["id"]);
    let active = next.group_id.is_some();
    let response = if agrees {
        format!(r#"{{"id":"{id}","result":{{"type":"agent_view","active":{active}}}}}"#)
    } else {
        format!(r#"{{"id":"{id}","error":{{"code":"unsupported","message":"unsupported"}}}}"#)
    };
    change.answered(call, Ok(response.into_bytes()))
}

#[test]
fn set_group_persists_and_sends_source_owned_token_query() {
    let mut service = view_service();
    let change = service
        .set_group(&state("build-group"), &group_id(), AgentViewPreference::default())
        .unwrap();
    assert_eq!(change.next(), &preference(Some("build-group"), AgentViewFilter::All));
    assert_eq!(change.next().schema_version, 1);

    let call = service.apply_group(&group_id(), AgentViewFilter::All).unwrap();
    let request = parse_json(call.bytes()).unwrap();
    assert_eq!(text_at(&request, &["method"]), "agent.view.set");
    assert_eq!(text_at(&request, &["params", "source"]), AGENT_VIEW_SOURCE);
    assert_eq!(text_at(&request, &["params", "filter", "field", "token"]), GROUP_TOKEN);
    assert_eq!(text_at(&request, &["params", "filter", "value"]), "build-group");
    assert_eq!(answer(change, &mut service, true), ViewOutcome::Kept);
}

#[test]
fn filtered_views_combine_exact_group_with_status_or_remote_metadata() {
    for mode in [AgentViewFilter::NeedsAttention, AgentViewFilter::Remote] {
        let mut service = view_service();
        let change = service
            .set_group_filter(
                &state("build-group"),
                &group_id(),
                mode,
                AgentViewPreference::default(),
            )
            .unwrap();
        assert_eq!(change.next().filter, mode);
        let call = service.apply_group(&group_id(), mode).unwrap();
        let request = parse_json(call.bytes()).unwrap();
        let filters = ["params", "filter", "filters"];
        let at = |rest: &[&str]| {
            let path: Vec<&str> = filters.iter().copied().chain(rest.iter().copied()).collect();
            text_at(&request, &path)
        };
        assert_eq!(at(&["0", "field", "token"]), GROUP_TOKEN);
        assert_eq!(at(&["0", "value"]), "build-group");
        match mode {
            AgentViewFilter::NeedsAttention => {
                assert_eq!(at(&["1", "field"]), "status");
                assert_eq!(at(&["1", "values", "0"]), "blocked");
                assert_eq!(at(&["1", "values", "1"]), "done");
            }
            AgentViewFilter::Remote => {
                assert_eq!(at(&["1", "field", "token"]), REMOTE_TOKEN);
                assert_eq!(at(&["1", "value"]), "true");
            }
            AgentViewFilter::All => unreachable!(),
        }
        assert_eq!(answer(change, &mut service, true), ViewOutcome::Kept);
    }
}

#[test]
fn startup_restore_reapplies_the_persisted_group_view() {
    let mut service = view_service();
    let step = service
        .restore(&state("build-group"), preference(Some("build-group"), AgentViewFilter::All));
    match step {
        RestoreStep::Show { group_id, filter } => {
            let call = service.apply_group(&group_id, filter).unwrap();
            let request = parse_json(call.bytes()).unwrap();
            assert_eq!(text_at(&request, &["method"]), "agent.view.set");
            assert_eq!(text_at(&request, &["params", "filter", "value"]), "build-group");
        }
        other => panic!("{other:?}"),
    }
    assert_eq!(
        service.restore(&state("other"), preference(Some("build-group"), AgentViewFilter::All)),
        RestoreStep::Drop(AgentViewPreference::default())
    );
    assert_eq!(
        service.restore(&state("other"), AgentViewPreference::default()),
        RestoreStep::Nothing
    );
}

#[test]
fn rejected_view_change_restores_the_previous_preference() {
    let mut service = view_service();
    let change = service
        .set_group(&state("build-group"), &group_id(), AgentViewPreference::default())
        .unwrap();
    match answer(change, &mut service, false) {
        ViewOutcome::Restore { previous, .. } => {
            assert_eq!(previous, AgentViewPreference::default());
        }
        ViewOutcome::Kept => panic!("a refused view is not kept"),
    }
    assert!(ViewChange::unrestored(false, Failure::new("disk full".to_owned()))
        .detail()
        .ends_with("rejected the view: disk full"));
}

#[test]
fn inactive_group_cleanup_needs_no_herdr_socket() {
    let service = AgentViewService::from_env("/agent-view.json".to_owned(), None);
    assert!(service
        .clear_group_if_active(&group_id(), AgentViewPreference::default())
        .is_none());
}

#[test]
fn active_group_cleanup_without_a_socket_fails_and_preserves_preference() {
    let mut service = AgentViewService::from_env("/agent-view.json".to_owned(), None);
    let change = service
        .clear_group_if_active(&group_id(), preference(Some("build-group"), AgentViewFilter::All))
        .unwrap();
    let call = service.clear_runtime();
    assert!(call.is_err());
    match change.answered(call, Err(Failure::new("never asked".to_owned()))) {
        ViewOutcome::Restore { previous, failure } => {
            assert_eq!(previous, preference(Some("build-group"), AgentViewFilter::All));
            assert_eq!(failure.message(), "Herdr did not provide HERDR_SOCKET_PATH");
        }
        ViewOutcome::Kept => panic!("without a socket nothing is cleared"),
    }
}

#[test]
fn preferences_are_bounded_and_of_one_schema() {
    assert!(accept_preference_size(MAX_PREFERENCE_BYTES as u64).is_ok());
    assert!(accept_preference_size(MAX_PREFERENCE_BYTES as u64 + 1).is_err());
    assert!(save_preference("{}").is_ok());
    assert!(save_preference(&"x".repeat(MAX_PREFERENCE_BYTES + 1))
        .unwrap_err()
        .message()
        .starts_with("serialized Agent view preference exceeds "));
    let mut newer = AgentViewPreference::default();
    newer.schema_version = 2;
    assert_eq!(
        load_preference(newer).unwrap_err().message(),
        "unsupported Agent view preference schema"
    );
    assert!(load_preference(AgentViewPreference::default()).is_ok());
}

#[test]
fn a_view_is_shown_only_where_herdr_says_so() {
    let said = |text: &str, active: bool| {
        require_agent_view_response(&parse_json(text.as_bytes()).unwrap(), active).is_ok()
    };
    assert!(said(r#"{"result":{"type":"agent_view","active":true}}"#, true));
    assert!(!said(r#"{"result":{"type":"agent_view","active":true}}"#, false));
    assert!(!said(r#"{"result":{"type":"other","active":true}}"#, true));
}

#[test]
fn replies_must_answer_the_request_that_was_made() {
    let mut client = HerdrSocketClient::new("/run/herdr.sock".to_owned());
    let call = client.snapshot().unwrap();
    let id = text_at(&parse_json(call.bytes()).unwrap(), &["id"]);
    let other = format!(r#"{{"id":"{id}x","result":{{"type":"session_snapshot"}}}}"#);
    assert!(call.reply(Ok(other.into_bytes())).is_err());
    let failed = format!(r#"{{"id":"{id}","error":{{"code":"denied","message":"no"}}}}"#);
    assert!(call.reply(Ok(failed.into_bytes())).unwrap_err().detail().contains("denied"));
    assert!(call.reply(Ok(b"{".to_vec())).is_err());
}

#[test]
fn a_prompt_that_may_have_arrived_is_uncertain() {
    let mut client = HerdrSocketClient::new("/run/herdr.sock".to_owned());
    let call = client.prompt_and_wait("worker", "Do work", 1_000).unwrap();
    let id = text_at(&parse_json(call.bytes()).unwrap(), &["id"]);
    let refused =
        format!(r#"{{"id":"{id}","error":{{"code":"agent_not_running","message":"no"}}}}"#);
    assert!(matches!(
        call.prompt_reply(Ok(refused.into_bytes())),
        Err(PromptDeliveryError::Rejected { .. })
    ));
    let unclear = format!(r#"{{"id":"{id}","error":{{"code":"timeout","message":"?"}}}}"#);
    assert!(matches!(
        call.prompt_reply(Ok(unclear.into_bytes())),
        Err(PromptDeliveryError::Uncertain)
    ));
    assert!(matches!(
        call.prompt_reply(Err(Failure::new("closed".to_owned()))),
        Err(PromptDeliveryError::Uncertain)
    ));
}

#[test]
fn a_group_is_told_by_its_sessions() {
    let state = test_state(true);
    let service = view_service();
    let shown = preference(Some("build-group"), AgentViewFilter::All);
    let session: SessionId = SESSION.parse().unwrap();
    assert_eq!(service.group_for_session(&state, &shown, session), Some(group_id()));
    assert_eq!(
        service.group_for_session(&state, &shown, SECOND_SESSION.parse().unwrap()),
        None
    );
    assert_eq!(
        service.group_for_session(&state, &AgentViewPreference::default(), session),
        None
    );
}

#[test]
fn prompts_are_sent_on_one_line_and_read_back() {
    let mut client = HerdrSocketClient::new("/run/herdr.sock".to_owned());
    let prompt = "say \"hi\"\\\n\t\u{1}\u{8}\u{c}\r é";
    let call = client.prompt_and_wait("worker", prompt, 1_000).unwrap();
    let sent = String::from_utf8(call.bytes().clone()).unwrap();
    assert_eq!(sent.matches('\n').count(), 1);
    assert!(sent.ends_with('\n'));
    assert!(sent.contains(r#""text":"say \"hi\"\\\n\t\u0001\b\f\r é""#), "{sent}");
    assert_eq!(text_at(&parse_json(call.bytes()).unwrap(), &["params", "text"]), prompt);
}

#[test]
fn event_monitor_reconnects_and_requests_a_resnapshot() {
    let mut client = HerdrSocketClient::new("/run/herdr.sock".to_owned());
    let mut state = MonitorState::new();
    let mut signals = Vec::new();
    for connection in 0..2 {
        let reconnected = state.connected_once;
        let subscription = client.subscribe().unwrap();
        let request = parse_json(subscription.bytes()).unwrap();
        assert_eq!(text_at(&request, &["method"]), "events.subscribe");
        assert!(request
            .iter()
            .any(|node| node.value == JsonValue::Text("pane.agent_status_changed".to_owned())));
        let id = text_at(&request, &["id"]);
        let started = format!("{{\"id\":\"{id}\",\"result\":{{\"type\":\"subscription_started\"}}}}\n");
        signals.push(
            subscription.acknowledged(Some(started.into_bytes()), reconnected).unwrap(),
        );
        if connection == 0 {
            let event = r#"{"event":"pane.agent_status_changed","data":{"pane_id":"w1:p1","agent_status":"done"}}"#;
            signals.push(subscription.event(&event.as_bytes().to_vec()).unwrap());
            match state.ended(true, false) {
                MonitorStep::Reconnect(signal) => signals.push(signal),
                MonitorStep::Stop => panic!("nobody stopped the monitor"),
            }
        }
        assert!(subscription.acknowledged(None, reconnected).is_err());
        assert!(subscription.event(&b"{}".to_vec()).is_err());
    }
    assert_eq!(
        signals,
        [
            EventSignal::Resnapshot { reconnected: false },
            EventSignal::Changed,
            EventSignal::Disconnected,
            EventSignal::Resnapshot { reconnected: true },
        ]
    );
    assert_eq!(state.ended(true, true), MonitorStep::Stop);
}
