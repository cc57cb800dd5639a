//! Orchestration groups, and the Observer that watches their workers.

use std::cell::{Cell, RefCell};
use std::collections::{HashSet, VecDeque};

use herdr_tether::agent_view::AgentViewFilter;
use herdr_tether::clock::Timestamp;
use herdr_tether::manager_flow::{
    finish_deletion, manage, orchestrate, FlowStep, OrchestrationRequest,
};
use herdr_tether::model::{
    OrchestrationGroupId, OrchestrationMembershipId, Placement, SessionId,
};
use herdr_tether::observer::{
    action_for_input, ObserverAction, ObserverAgentState, ObserverCapabilities, ObserverLifecycle,
    ObserverOutcome, ObserverState, ObserverWorker,
};
use herdr_tether::observer_manager::ObserverManagerAction;
use herdr_tether::observer_runtime::{
    apply_observer_refresh_result, begin_observer_open, capture_fingerprint,
    capture_fingerprints_for, capture_text, captured_workers, finish_observer_open,
    merge_captured_workers, observer_key_for_event, observer_workers, open_worker,
    restore_terminal, same_ids, update_observer_metadata, visible_worker_ids, CaptureFingerprint,
    CaptureResult, CapturedWorker, CleanupStep, FingerprintEntry, ObserverOpenGate, TerminalKey,
    TerminalKeyCode, TerminalKeyKind, OBSERVER_OPEN_DEBOUNCE_NANOS,
};
use herdr_tether::observer_view::render_to_text;
use herdr_tether::orchestration::{
    are_valid_groups, companion_placement, is_valid_group, OrchestrationService,
    OrchestrationWorkerSpec, MANAGER_STALE_GROUP_ERROR,
};
use herdr_tether::state::{
    OrchestrationCapabilities, OrchestrationGroup, OrchestrationMember, SessionRecord,
    SessionStatus, State, StateStore,
};

const MILLI: u64 = 1_000_000;

fn now() -> Timestamp {
    Timestamp { secs: 1_783_814_400, nanos: 0 }
}

fn service() -> OrchestrationService {
    OrchestrationService::new(StateStore::new("/state.json".to_owned()))
}

fn worker(id: &str, lifecycle: ObserverLifecycle, capture: Option<&str>) -> ObserverWorker {
    ObserverWorker {
        id: id.to_owned(),
        title: Some(format!("Worker {id}")),
        capabilities: ObserverCapabilities {
            observe_output: true,
            open_interactive: true,
            prompt_agent: false,
        },
        lifecycle,
        agent_state: ObserverAgentState::Detached,
        live_agent: false,
        owned: true,
        last_observed: None,
        latency_ms: None,
        incarnation: None,
        capture: capture.map(str::to_owned),
        sampled: false,
        stale_reason: None,
    }
}

fn exact_running_session(id: SessionId, tmux_id: &str) -> SessionRecord {
    SessionRecord {
        id,
        host: "local".to_owned(),
        target: "local".to_owned(),
        directory: "/tmp".to_owned(),
        preset: None,
        herdr_agent: None,
        command: Some("exec true".to_owned()),
        tmux_session_id: Some(tmux_id.parse().unwrap()),
        ownership_proof: Some(
            format!("0197f1980000700080000000000000{:0>2}", tmux_id.trim_start_matches('$'))
                .parse()
                .unwrap(),
        ),
        status: SessionStatus::Running,
        created_at: now(),
        last_used_at: now(),
        closed_at: None,
        exit_status: None,
    }
}

fn capabilities(observe_output: bool, open_interactive: bool) -> OrchestrationCapabilities {
    OrchestrationCapabilities { observe_output, open_interactive, prompt_agent: false }
}

fn id(tail: u8) -> SessionId {
    format!("tether-0197f1980000700080000000000000{tail:02}").parse().unwrap()
}

fn state_of(sessions: Vec<SessionRecord>, groups: Vec<OrchestrationGroup>) -> State {
    State { version: State::CURRENT_VERSION, sessions, orchestration_groups: groups }
}

fn ended(mut record: SessionRecord) -> SessionRecord {
    record.status = SessionStatus::Ended;
    record.closed_at = Some(record.last_used_at);
    record
}

/// A session that may not take part, in each way that it may not.
fn ineligible(candidate: SessionId, tmux_id: &str) -> Vec<(&'static str, Option<SessionRecord>)> {
    let mut proofless = exact_running_session(candidate, tmux_id);
    proofless.ownership_proof = None;
    let mut nameless = exact_running_session(candidate, tmux_id);
    nameless.tmux_session_id = None;
    vec![
        ("absent", None),
        ("ended", Some(ended(exact_running_session(candidate, tmux_id)))),
        ("proofless", Some(proofless)),
        ("identity-less", Some(nameless)),
    ]
}

/// A terminal of which some restorations fail.
#[derive(Default)]
struct MockCleanup {
    attempts: Vec<&'static str>,
    fail: HashSet<&'static str>,
}

fn restore(cleanup: &mut MockCleanup) {
    let mut attempted = None;
    while let Some(step) = restore_terminal(attempted) {
        let name = match step {
            CleanupStep::ShowCursor => "show",
            CleanupStep::LeaveAlternateScreen => "leave",
            CleanupStep::DisableRawMode => "raw",
        };
        cleanup.attempts.push(name);
        attempted = Some((step, !cleanup.fail.contains(name)));
    }
}

#[test]
fn terminal_cleanup_attempts_every_restoration_on_normal_exit() {
    let mut cleanup = MockCleanup::default();
    restore(&mut cleanup);
    assert_eq!(cleanup.attempts, ["show", "leave", "raw"]);
}

#[test]
fn terminal_cleanup_attempts_every_restoration_after_errors() {
    let mut cleanup =
        MockCleanup { fail: HashSet::from(["show", "leave", "raw"]), ..MockCleanup::default() };
    restore(&mut cleanup);
    assert_eq!(cleanup.attempts, ["show", "leave", "raw"]);
}

fn press(code: TerminalKeyCode, kind: TerminalKeyKind) -> TerminalKey {
    TerminalKey { code, control: false, alt: false, kind }
}

#[test]
fn queued_enter_events_place_the_selected_worker_once_until_input_is_quiet() {
    let start = 1_000 * MILLI;
    let now = Cell::new(start);
    let placements = Cell::new(0usize);
    let feedback = RefCell::new(Vec::new());
    let mut gate = ObserverOpenGate::new();
    let mut observer =
        ObserverState::new(vec![worker("selected", ObserverLifecycle::Running, Some("output"))]);

    let press_enter = |observer: &mut ObserverState, gate: &mut ObserverOpenGate| {
        let key = press(TerminalKeyCode::Enter, TerminalKeyKind::Press);
        let (observer_key, input_kind) =
            observer_key_for_event(key).expect("Enter press is handled");
        let action = action_for_input(observer_key, input_kind, false).expect("Enter maps once");
        let ObserverOutcome::OpenSelected { worker_id } = observer.apply(action) else {
            panic!("eligible Enter must request an open");
        };
        if begin_observer_open(observer, gate, &worker_id, now.get()) {
            feedback.borrow_mut().push(observer.notice().unwrap_or_default().to_owned());
            placements.set(placements.get() + 1);
            finish_observer_open(observer, gate, &worker_id, now.get(), Ok(()));
        }
    };

    press_enter(&mut observer, &mut gate);
    now.set(start + 25 * MILLI);
    press_enter(&mut observer, &mut gate);
    now.set(start + 50 * MILLI);
    press_enter(&mut observer, &mut gate);

    assert_eq!(placements.get(), 1, "queued Enter must not fan out panes");
    assert!(feedback.borrow().iter().any(|notice| notice.contains("Opening")));
    assert_eq!(observer.notice(), Some("Queued Enter ignored; wait before retrying"));
    now.set(start + OBSERVER_OPEN_DEBOUNCE_NANOS + 20 * MILLI);
    press_enter(&mut observer, &mut gate);
    assert_eq!(placements.get(), 1, "suppressed input must extend the quiet window");

    now.set(start + OBSERVER_OPEN_DEBOUNCE_NANOS * 2 + 21 * MILLI);
    press_enter(&mut observer, &mut gate);
    assert_eq!(placements.get(), 2, "a later intentional gesture remains available");
}

#[test]
fn queued_enter_preserves_open_failure_feedback() {
    let start = 1_000 * MILLI;
    let mut gate = ObserverOpenGate::new();
    let mut observer =
        ObserverState::new(vec![worker("selected", ObserverLifecycle::Running, Some("output"))]);

    assert!(begin_observer_open(&mut observer, &mut gate, "selected", start));
    finish_observer_open(
        &mut observer,
        &mut gate,
        "selected",
        start,
        Err("destination unavailable".to_owned()),
    );
    assert!(observer.notice().is_some_and(|notice| notice.contains("destination unavailable")));

    assert!(
        !begin_observer_open(&mut observer, &mut gate, "selected", start + 25 * MILLI),
        "queued Enter must not place again"
    );
    let notice = observer.notice().unwrap();
    assert!(notice.contains("destination unavailable"), "{notice}");
    assert!(notice.contains("ignored"), "{notice}");
}

#[test]
fn observer_input_repeats_navigation_but_not_single_shot_actions() {
    let repeat_navigation = press(TerminalKeyCode::Down, TerminalKeyKind::Repeat);
    let (key, kind) = observer_key_for_event(repeat_navigation).unwrap();
    assert_eq!(action_for_input(key, kind, false), Some(ObserverAction::NextWorker));

    let repeat_open = press(TerminalKeyCode::Enter, TerminalKeyKind::Repeat);
    let (key, kind) = observer_key_for_event(repeat_open).unwrap();
    assert_eq!(action_for_input(key, kind, false), None);

    let release = press(TerminalKeyCode::Down, TerminalKeyKind::Release);
    assert_eq!(observer_key_for_event(release), None);
}

#[test]
fn refresh_failure_retains_stale_tiles_and_context_until_retry_succeeds() {
    let mut observer = ObserverState::new(
        (0..5)
            .map(|index| {
                worker(
                    &index.to_string(),
                    ObserverLifecycle::Running,
                    Some(&format!("first-{index}")),
                )
            })
            .collect(),
    );
    for _ in 0..4 {
        observer.apply(ObserverAction::NextWorker);
    }
    let selected = observer.selected_id().unwrap().to_owned();
    let page = observer.page();
    let stale = observer.workers().to_vec();
    let mut refreshes = VecDeque::from([
        Some(stale.clone()),
        None,
        Some(
            stale
                .iter()
                .cloned()
                .map(|mut worker| {
                    worker.capture = Some(format!("retry-{}", worker.id));
                    worker
                })
                .collect(),
        ),
    ]);

    for expected_success in [true, false, true] {
        let refreshed = match refreshes.pop_front().unwrap() {
            Some(workers) => {
                observer.update_workers(workers);
                true
            }
            None => false,
        };
        assert_eq!(apply_observer_refresh_result(&mut observer, refreshed), expected_success);
        assert_eq!(observer.selected_id(), Some(selected.as_str()));
        assert_eq!(observer.page(), page);
        if !expected_success {
            assert_eq!(observer.workers(), stale);
            let rendered = render_to_text(100, 14, &observer);
            assert!(rendered.contains("first-4"), "{rendered}");
            assert!(rendered.contains("stale output retained"), "{rendered}");
            assert!(rendered.contains("r retry"), "{rendered}");
            assert!(rendered.contains("q back"), "{rendered}");
        }
    }
    assert!(observer.notice().is_none());
    assert_eq!(
        observer.selected_worker().and_then(|worker| worker.capture.as_deref()),
        Some("retry-4")
    );
}

fn fingerprint(membership: &str, identity: &str) -> CaptureFingerprint {
    CaptureFingerprint {
        membership_id: membership.parse().unwrap(),
        session_id: "tether-0197f198000070008000000000000002".parse().unwrap(),
        ownership_proof: "0197f198000070008000000000000099".parse().unwrap(),
        tmux_session_id: identity.parse().unwrap(),
        capabilities: capabilities(true, true),
    }
}

fn capture_state(membership: &str) -> (State, OrchestrationGroupId, SessionId) {
    let orchestrator = "tether-0197f198000070008000000000000001".parse().unwrap();
    let worker_id = "tether-0197f198000070008000000000000002".parse().unwrap();
    let group_id: OrchestrationGroupId = "group".parse().unwrap();
    let mut record = exact_running_session(worker_id, "$7");
    record.ownership_proof = Some("0197f198000070008000000000000099".parse().unwrap());
    (
        state_of(
            vec![record],
            vec![OrchestrationGroup {
                id: group_id.clone(),
                title: "Group".parse().unwrap(),
                orchestrator_session_id: orchestrator,
                workers: vec![OrchestrationMember {
                    session_id: worker_id,
                    membership_id: membership.parse().unwrap(),
                    title: None,
                    capabilities: capabilities(true, true),
                }],
            }],
        ),
        group_id,
        worker_id,
    )
}

fn capture_result(fingerprint: CaptureFingerprint, capture: &str) -> CaptureResult {
    CaptureResult {
        visible: vec![fingerprint.session_id.to_string()],
        workers: vec![CapturedWorker { fingerprint, capture: Some(capture.to_owned()) }],
    }
}

fn entry(worker_id: &str, fingerprint: CaptureFingerprint) -> FingerprintEntry {
    FingerprintEntry { worker_id: worker_id.to_owned(), fingerprint }
}

#[test]
fn metadata_refresh_preserves_captures_only_within_the_same_exact_epoch() {
    let mut observer = ObserverState::new(vec![
        worker("same", ObserverLifecycle::Running, Some("previous")),
        worker("changed", ObserverLifecycle::Running, Some("stale")),
    ]);
    let previous = vec![
        entry("same", fingerprint("0197f198000070008000000000000011", "$7")),
        entry("changed", fingerprint("0197f198000070008000000000000012", "$7")),
    ];
    let current = vec![
        entry("same", fingerprint("0197f198000070008000000000000011", "$7")),
        entry("changed", fingerprint("0197f198000070008000000000000012", "$8")),
    ];

    update_observer_metadata(
        &mut observer,
        &previous,
        &current,
        vec![
            worker("same", ObserverLifecycle::Running, None),
            worker("changed", ObserverLifecycle::Running, None),
            worker("new", ObserverLifecycle::Starting, None),
        ],
    );

    assert_eq!(observer.workers()[0].capture.as_deref(), Some("previous"));
    assert_eq!(observer.workers()[1].capture, None);
    assert_eq!(observer.workers()[2].capture, None);
}

#[test]
fn capture_merge_accepts_the_complete_current_fingerprint() {
    let (state, group_id, worker_id) = capture_state("0197f198000070008000000000000011");
    let fingerprint =
        capture_fingerprint(&state.orchestration_groups[0].workers[0], &state.sessions[0])
            .unwrap();
    let mut observer = ObserverState::new(vec![worker(
        &worker_id.to_string(),
        ObserverLifecycle::Running,
        Some("old"),
    )]);

    merge_captured_workers(&state, &group_id, &mut observer, capture_result(fingerprint, "new"));

    assert_eq!(observer.workers()[0].capture.as_deref(), Some("new"));
}

#[test]
fn capture_merge_rejects_a_changed_tmux_identity() {
    let (mut state, group_id, worker_id) = capture_state("0197f198000070008000000000000011");
    let captured =
        capture_fingerprint(&state.orchestration_groups[0].workers[0], &state.sessions[0])
            .unwrap();
    state.sessions[0].tmux_session_id = Some("$8".parse().unwrap());
    let mut observer = ObserverState::new(vec![worker(
        &worker_id.to_string(),
        ObserverLifecycle::Running,
        Some("current"),
    )]);

    merge_captured_workers(
        &state,
        &group_id,
        &mut observer,
        capture_result(captured, "stale-$7"),
    );

    assert_eq!(observer.workers()[0].capture.as_deref(), Some("current"));
}

#[test]
fn capture_merge_rejects_capability_revocation() {
    let (mut state, group_id, worker_id) = capture_state("0197f198000070008000000000000011");
    let captured =
        capture_fingerprint(&state.orchestration_groups[0].workers[0], &state.sessions[0])
            .unwrap();
    state.orchestration_groups[0].workers[0].capabilities.observe_output = false;
    let mut observer = ObserverState::new(vec![worker(
        &worker_id.to_string(),
        ObserverLifecycle::Running,
        Some("current"),
    )]);

    merge_captured_workers(&state, &group_id, &mut observer, capture_result(captured, "revoked"));

    assert_eq!(observer.workers()[0].capture.as_deref(), Some("current"));
}

#[test]
fn capture_merge_rejects_remove_and_readd_with_identical_visible_metadata() {
    let (mut state, group_id, worker_id) = capture_state("0197f198000070008000000000000011");
    let captured =
        capture_fingerprint(&state.orchestration_groups[0].workers[0], &state.sessions[0])
            .unwrap();
    state.orchestration_groups[0].workers[0].membership_id =
        "0197f198000070008000000000000012".parse().unwrap();
    let mut observer = ObserverState::new(vec![worker(
        &worker_id.to_string(),
        ObserverLifecycle::Running,
        Some("current"),
    )]);

    merge_captured_workers(
        &state,
        &group_id,
        &mut observer,
        capture_result(captured, "pre-removal"),
    );

    assert_eq!(observer.workers()[0].capture.as_deref(), Some("current"));
}

#[test]
fn remove_and_readd_allocates_a_new_persisted_membership_epoch() {
    let service = service();
    let group_id: OrchestrationGroupId = "group".parse().unwrap();
    let orchestrator = id(1);
    let worker_id = id(2);
    let allowed = capabilities(true, false);
    let mut state = state_of(
        vec![exact_running_session(orchestrator, "$1"), exact_running_session(worker_id, "$2")],
        Vec::new(),
    );
    service
        .create_group(&mut state, group_id.clone(), "Group".parse().unwrap(), orchestrator)
        .unwrap();
    let first = service.add_worker(&mut state, &group_id, worker_id, None, allowed).unwrap();
    service.remove_worker(&mut state, &group_id, worker_id).unwrap();
    let second = service.add_worker(&mut state, &group_id, worker_id, None, allowed).unwrap();

    assert_ne!(first.membership_id, second.membership_id);
    assert_eq!(
        state.orchestration_groups[0].workers[0].membership_id,
        second.membership_id
    );
}

#[test]
fn ui_group_edits_are_atomic_and_preserve_retained_membership_epochs() {
    let service = service();
    let group_id: OrchestrationGroupId = "observer-build".parse().unwrap();
    let (orchestrator, first_worker, second_worker) = (id(1), id(2), id(3));
    let mut state = state_of(
        vec![
            exact_running_session(orchestrator, "$1"),
            exact_running_session(first_worker, "$2"),
            exact_running_session(second_worker, "$3"),
        ],
        Vec::new(),
    );
    let first_spec = OrchestrationWorkerSpec {
        session_id: first_worker,
        title: Some("build worker".parse().unwrap()),
        capabilities: capabilities(true, true),
    };

    let created = service
        .create_group_with_workers(
            &mut state,
            group_id,
            "Observer build".parse().unwrap(),
            orchestrator,
            vec![first_spec.clone()],
        )
        .unwrap();
    let retained_epoch = created.workers[0].membership_id;
    let second_spec = OrchestrationWorkerSpec {
        session_id: second_worker,
        title: Some("test worker".parse().unwrap()),
        capabilities: capabilities(true, true),
    };
    let edited = service
        .replace_workers(&mut state, &created, vec![first_spec, second_spec.clone()])
        .unwrap();

    assert_eq!(edited.workers.len(), 2);
    assert_eq!(edited.workers[0].membership_id, retained_epoch);
    assert_eq!(edited.workers[1].session_id, second_worker);
    assert_ne!(edited.workers[1].membership_id, retained_epoch);

    let duplicate_error = service
        .replace_workers(&mut state, &edited, vec![second_spec.clone(), second_spec])
        .unwrap_err()
        .message();
    assert!(duplicate_error.contains("duplicate worker"), "{duplicate_error}");
    assert_eq!(
        state.orchestration_groups[0].workers, edited.workers,
        "a rejected edit must not partially rewrite membership"
    );
}

#[test]
fn ui_create_revalidates_exact_running_sessions_under_the_state_lock() {
    let service = service();
    let (orchestrator, worker) = (id(1), id(2));
    let spec = OrchestrationWorkerSpec {
        session_id: worker,
        title: None,
        capabilities: capabilities(true, true),
    };
    let mut state = state_of(
        vec![exact_running_session(orchestrator, "$1"), exact_running_session(worker, "$2")],
        Vec::new(),
    );
    state.sessions[1].status = SessionStatus::Ended;
    state.sessions[1].closed_at = Some(state.sessions[1].last_used_at);

    let error = service
        .create_group_with_workers(
            &mut state,
            "observer-stale-worker".parse().unwrap(),
            "Observer stale worker".parse().unwrap(),
            orchestrator,
            vec![spec.clone()],
        )
        .unwrap_err()
        .message();
    assert!(error.contains("running exact-owned"), "{error}");
    assert!(state.orchestration_groups.is_empty());

    state.sessions[1] = exact_running_session(worker, "$2");
    state.sessions[0].ownership_proof = None;
    let error = service
        .create_group_with_workers(
            &mut state,
            "observer-stale-orchestrator".parse().unwrap(),
            "Observer stale orchestrator".parse().unwrap(),
            orchestrator,
            vec![spec],
        )
        .unwrap_err()
        .message();
    assert!(error.contains("running exact-owned"), "{error}");
    assert!(state.orchestration_groups.is_empty());
}

#[test]
fn ui_edit_rejects_stale_snapshots_and_ineligible_new_workers() {
    let service = service();
    let (orchestrator, first, second, stale_new) = (id(1), id(2), id(3), id(4));
    let spec = |session_id| OrchestrationWorkerSpec {
        session_id,
        title: None,
        capabilities: capabilities(true, true),
    };
    let mut state = state_of(
        vec![
            exact_running_session(orchestrator, "$1"),
            exact_running_session(first, "$2"),
            exact_running_session(second, "$3"),
            exact_running_session(stale_new, "$4"),
        ],
        Vec::new(),
    );
    let group_id: OrchestrationGroupId = "observer-conflict".parse().unwrap();
    let displayed = service
        .create_group_with_workers(
            &mut state,
            group_id.clone(),
            "Observer conflict".parse().unwrap(),
            orchestrator,
            vec![spec(first)],
        )
        .unwrap();
    service.add_worker(&mut state, &group_id, second, None, capabilities(true, true)).unwrap();

    let error = service
        .replace_workers(&mut state, &displayed, vec![spec(first)])
        .unwrap_err()
        .message();
    assert!(error.contains("changed while the manager was open"), "{error}");
    let current = service.group(&state, &group_id).unwrap();
    assert_eq!(current.workers.len(), 2);

    state.sessions[3] = ended(exact_running_session(stale_new, "$4"));
    let error = service
        .replace_workers(&mut state, &current, vec![spec(first), spec(second), spec(stale_new)])
        .unwrap_err()
        .message();
    assert!(error.contains("running exact-owned"), "{error}");
    assert_eq!(service.group(&state, &group_id).unwrap(), current);

    state.sessions[1] = ended(exact_running_session(first, "$2"));
    state.sessions[2] = ended(exact_running_session(second, "$3"));
    let retained =
        service.replace_workers(&mut state, &current, vec![spec(first), spec(second)]).unwrap();
    assert_eq!(retained.workers, current.workers);
}

#[test]
fn ui_delete_rejects_modified_and_recreated_groups() {
    let service = service();
    let (orchestrator, first, second) = (id(1), id(2), id(3));
    let spec = |session_id| OrchestrationWorkerSpec {
        session_id,
        title: None,
        capabilities: capabilities(true, true),
    };
    let mut state = state_of(
        vec![
            exact_running_session(orchestrator, "$1"),
            exact_running_session(first, "$2"),
            exact_running_session(second, "$3"),
        ],
        Vec::new(),
    );
    let group_id: OrchestrationGroupId = "observer-delete-conflict".parse().unwrap();
    let displayed = service
        .create_group_with_workers(
            &mut state,
            group_id.clone(),
            "Observer delete conflict".parse().unwrap(),
            orchestrator,
            vec![spec(first)],
        )
        .unwrap();
    service.add_worker(&mut state, &group_id, second, None, capabilities(true, true)).unwrap();

    let error = service.delete_group_if_unchanged(&mut state, &displayed).unwrap_err().message();
    assert!(error.contains("changed while the manager was open"), "{error}");
    let recreated_from = service.group(&state, &group_id).unwrap();
    service.delete_group(&mut state, &group_id).unwrap();
    service
        .create_group_with_workers(
            &mut state,
            group_id,
            recreated_from.title.clone(),
            orchestrator,
            vec![spec(first), spec(second)],
        )
        .unwrap();

    let error =
        service.delete_group_if_unchanged(&mut state, &recreated_from).unwrap_err().message();
    assert!(error.contains("changed while the manager was open"), "{error}");
    assert_eq!(service.list_groups(&state).len(), 1);
}

#[test]
fn companion_placement_always_preserves_the_source_pane() {
    assert_eq!(companion_placement(Placement::ReplaceCurrentPane), Placement::SplitRight);
    for placement in [Placement::SplitRight, Placement::SplitDown, Placement::NewTab] {
        assert_eq!(companion_placement(placement), placement);
    }
}

#[test]
fn groups_that_are_not_in_order_are_told_apart() {
    let member = |number: u8, observe: bool| OrchestrationMember {
        session_id: id(number),
        membership_id: OrchestrationMembershipId::new(),
        title: None,
        capabilities: capabilities(observe, false),
    };
    let group = |name: &str, workers: Vec<OrchestrationMember>| OrchestrationGroup {
        id: name.parse().unwrap(),
        title: "Group".parse().unwrap(),
        orchestrator_session_id: id(1),
        workers,
    };
    assert!(is_valid_group(&group("one", vec![member(2, true), member(3, true)])));
    assert!(!is_valid_group(&group("one", vec![member(1, true)])));
    assert!(!is_valid_group(&group("one", vec![member(2, false)])));
    assert!(!is_valid_group(&group("one", vec![member(2, true), member(2, true)])));
    assert!(are_valid_groups(&Vec::new()));
    assert!(are_valid_groups(&vec![group("one", Vec::new()), group("two", Vec::new())]));
    assert!(!are_valid_groups(&vec![group("one", Vec::new()), group("one", Vec::new())]));
    let many = |count: usize| {
        (0..count).map(|at| group(&format!("group-{at}"), Vec::new())).collect::<Vec<_>>()
    };
    assert!(are_valid_groups(&many(State::MAX_ORCHESTRATION_GROUPS)));
    assert!(!are_valid_groups(&many(State::MAX_ORCHESTRATION_GROUPS + 1)));
}

#[test]
fn open_worker_revalidates_live_membership_capability_and_exact_state() {
    let orchestrator = id(1);
    let worker_id = id(2);
    let group_id: OrchestrationGroupId = "group".parse().unwrap();
    let mut record = exact_running_session(worker_id, "$7");
    record.ownership_proof = Some("0197f198000070008000000000000099".parse().unwrap());
    let member = OrchestrationMember {
        session_id: worker_id,
        membership_id: OrchestrationMembershipId::new(),
        title: None,
        capabilities: capabilities(true, false),
    };
    let group = OrchestrationGroup {
        id: group_id.clone(),
        title: "Group".parse().unwrap(),
        orchestrator_session_id: orchestrator,
        workers: vec![member],
    };
    let mut state = state_of(vec![record], vec![group]);
    let name = worker_id.to_string();
    let message = |state: &State| {
        open_worker(state, &group_id, &name).unwrap_err().message(&group_id, &name)
    };

    let error = message(&state);
    assert!(error.contains("does not allow interactive open"), "{error}");

    state.orchestration_groups[0].workers[0].capabilities.open_interactive = true;
    assert_eq!(open_worker(&state, &group_id, &name).unwrap().id, worker_id);
    state.sessions[0].status = SessionStatus::Ended;
    state.sessions[0].closed_at = Some(now());
    let error = message(&state);
    assert!(error.contains("not a running exact-owned session"), "{error}");

    state.sessions[0].status = SessionStatus::Running;
    state.sessions[0].closed_at = None;
    state.sessions[0].ownership_proof = None;
    let error = message(&state);
    assert!(error.contains("not a running exact-owned session"), "{error}");

    state.orchestration_groups[0].workers.clear();
    let error = message(&state);
    assert!(error.contains("no longer a member"), "{error}");
}

#[test]
fn adapter_role_admissions_require_live_exact_owned_sessions_without_mutation() {
    let service = service();
    let candidate: SessionId = "tether-0197f198000070008000000000000041".parse().unwrap();

    for (case, session) in ineligible(candidate, "$41") {
        let mut state = state_of(session.clone().into_iter().collect(), Vec::new());

        let error = service
            .create_group(
                &mut state,
                format!("invalid-{case}").parse().unwrap(),
                "Invalid".parse().unwrap(),
                candidate,
            )
            .unwrap_err()
            .message();

        assert!(error.contains("running exact-owned workload"), "{case}: {error}");
        assert_eq!(state, state_of(session.into_iter().collect(), Vec::new()), "{case}");
    }
}

#[test]
fn adapter_add_worker_rejects_current_orchestrator_atomically() {
    let service = service();
    let (previous, current, retained) = (id(50), id(51), id(52));
    let group_id: OrchestrationGroupId = "adapter-current-orchestrator".parse().unwrap();
    let before = || {
        state_of(
            vec![exact_running_session(previous, "$50"), exact_running_session(current, "$51")],
            vec![OrchestrationGroup {
                id: "adapter-current-orchestrator".parse().unwrap(),
                title: "Current topology".parse().unwrap(),
                orchestrator_session_id: current,
                workers: vec![OrchestrationMember {
                    session_id: retained,
                    membership_id: "0197f198000070008000000000000052".parse().unwrap(),
                    title: Some("retained".parse().unwrap()),
                    capabilities: capabilities(true, false),
                }],
            }],
        )
    };
    let mut state = before();

    let error = service
        .add_worker(
            &mut state,
            &group_id,
            current,
            Some("invalid worker".parse().unwrap()),
            capabilities(true, false),
        )
        .unwrap_err()
        .message();

    assert_eq!(error, "orchestrator must not also be a worker");
    assert_eq!(state, before());
}

#[test]
fn adapter_add_worker_revalidates_before_mutation_and_retains_unavailable_members() {
    let service = service();
    let (orchestrator, retained, candidate) = (id(51), id(52), id(53));
    let group_id: OrchestrationGroupId = "adapter-add".parse().unwrap();
    let allowed = capabilities(true, false);
    let retained_member = OrchestrationMember {
        session_id: retained,
        membership_id: "0197f198000070008000000000000052".parse().unwrap(),
        title: Some("retained unavailable".parse().unwrap()),
        capabilities: allowed,
    };
    let group = OrchestrationGroup {
        id: group_id.clone(),
        title: "Adapter add".parse().unwrap(),
        orchestrator_session_id: orchestrator,
        workers: vec![retained_member.clone()],
    };
    let mut state = state_of(vec![exact_running_session(candidate, "$53")], vec![group.clone()]);

    let added = service
        .add_worker(&mut state, &group_id, candidate, Some("new".parse().unwrap()), allowed)
        .unwrap();
    assert_eq!(state.orchestration_groups[0].workers[0], retained_member);
    assert_eq!(state.orchestration_groups[0].workers[1], added);

    for (case, session) in ineligible(candidate, "$53") {
        let mut state = state_of(session.clone().into_iter().collect(), vec![group.clone()]);
        let error = service
            .add_worker(&mut state, &group_id, candidate, None, allowed)
            .unwrap_err()
            .message();
        assert!(error.contains("running exact-owned workload"), "{case}: {error}");
        assert_eq!(
            state,
            state_of(session.into_iter().collect(), vec![group.clone()]),
            "{case}"
        );
    }
}

#[test]
fn reassign_orchestrator_preserves_group_and_unaffected_worker_metadata() {
    let service = service();
    let (old_orchestrator, promoted, unaffected, non_worker) = (id(61), id(62), id(63), id(64));
    let first = OrchestrationMember {
        session_id: promoted,
        membership_id: "0197f198000070008000000000000062".parse().unwrap(),
        title: Some("promote me".parse().unwrap()),
        capabilities: capabilities(true, false),
    };
    let second = OrchestrationMember {
        session_id: unaffected,
        membership_id: "0197f198000070008000000000000063".parse().unwrap(),
        title: Some("leave me".parse().unwrap()),
        capabilities: capabilities(false, true),
    };
    let expected = OrchestrationGroup {
        id: "reassign".parse().unwrap(),
        title: "Stable identity".parse().unwrap(),
        orchestrator_session_id: old_orchestrator,
        workers: vec![first, second.clone()],
    };
    let mut state = state_of(
        vec![
            exact_running_session(promoted, "$62"),
            exact_running_session(unaffected, "$63"),
            exact_running_session(non_worker, "$64"),
        ],
        vec![expected.clone()],
    );

    let promoted_group = service.reassign_orchestrator(&mut state, &expected, promoted).unwrap();
    assert_eq!(promoted_group.id, expected.id);
    assert_eq!(promoted_group.title, expected.title);
    assert_eq!(promoted_group.orchestrator_session_id, promoted);
    assert_eq!(promoted_group.workers, vec![second.clone()]);
    assert!(promoted_group.workers.iter().all(|worker| worker.session_id != promoted));
    assert!(promoted_group.workers.iter().all(|worker| worker.session_id != old_orchestrator));

    let reassigned =
        service.reassign_orchestrator(&mut state, &promoted_group, non_worker).unwrap();
    assert_eq!(reassigned.workers, vec![second]);
    assert_eq!(reassigned.orchestrator_session_id, non_worker);
}

#[test]
fn reassign_orchestrator_rejects_conflicts_and_ineligible_replacements_atomically() {
    let service = service();
    let (old_orchestrator, candidate) = (id(71), id(72));
    let current = OrchestrationGroup {
        id: "reassign-conflict".parse().unwrap(),
        title: "Current".parse().unwrap(),
        orchestrator_session_id: old_orchestrator,
        workers: Vec::new(),
    };
    let mut state =
        state_of(vec![exact_running_session(candidate, "$72")], vec![current.clone()]);
    let mut stale = current.clone();
    stale.title = "Stale".parse().unwrap();

    let error =
        service.reassign_orchestrator(&mut state, &stale, candidate).unwrap_err().message();
    assert_eq!(error, MANAGER_STALE_GROUP_ERROR);
    assert_eq!(
        state,
        state_of(vec![exact_running_session(candidate, "$72")], vec![current.clone()])
    );

    for (case, session) in ineligible(candidate, "$72") {
        let mut state = state_of(session.clone().into_iter().collect(), vec![current.clone()]);
        let error = service
            .reassign_orchestrator(&mut state, &current, candidate)
            .unwrap_err()
            .message();
        assert!(error.contains("running exact-owned workload"), "{case}: {error}");
        assert_eq!(
            state,
            state_of(session.into_iter().collect(), vec![current.clone()]),
            "{case}"
        );
    }
}

#[test]
fn captures_are_planned_for_what_is_visible_and_allowed() {
    let (state, _, worker_id) = capture_state("0197f198000070008000000000000011");
    let group = &state.orchestration_groups[0];
    let visible = vec![worker_id.to_string()];
    let plans = captured_workers(group, &state.sessions, &visible);
    assert_eq!(plans.len(), 1);
    assert_eq!(plans[0].target, "local");
    assert!(captured_workers(group, &state.sessions, &Vec::new()).is_empty());
    assert_eq!(
        capture_fingerprints_for(group, &state.sessions)[0].fingerprint,
        plans[0].fingerprint
    );
    assert_eq!(capture_text(Ok("out".to_owned())), "out");
    assert_eq!(capture_text(Err("gone".to_owned())), "[capture unavailable: gone]");

    let workers = observer_workers(group, &state.sessions);
    assert_eq!(workers[0].lifecycle, ObserverLifecycle::Running);
    let observer = ObserverState::new(workers);
    assert!(same_ids(&visible_worker_ids(&observer), &visible));
    assert!(!same_ids(&visible, &Vec::new()));
}

#[test]
fn the_manager_changes_groups_and_says_so() {
    let service = service();
    let mut state = state_of(
        vec![exact_running_session(id(1), "$1"), exact_running_session(id(2), "$2")],
        Vec::new(),
    );
    let create = || ObserverManagerAction::Create {
        id: "observer-a".parse().unwrap(),
        title: "Observer a".parse().unwrap(),
        orchestrator_session_id: id(1),
        workers: Vec::new(),
    };
    match manage(&service, &mut state, create()) {
        FlowStep::Changed { changed, notice, .. } => {
            assert!(changed);
            assert_eq!(notice, "Created Observer a; workload lifecycle unchanged");
        }
        other => panic!("{other:?}"),
    }
    match manage(&service, &mut state, create()) {
        FlowStep::Changed { changed, notice, .. } => {
            assert!(!changed);
            assert_eq!(notice, "Could not create Observer; metadata was unchanged");
        }
        other => panic!("{other:?}"),
    }
    let shown = state.orchestration_groups[0].clone();
    let reassign = ObserverManagerAction::ReassignOrchestrator {
        expected_group: shown.clone(),
        orchestrator_session_id: id(2),
    };
    assert!(matches!(
        manage(&service, &mut state, reassign),
        FlowStep::Changed { changed: true, .. }
    ));
    let again = ObserverManagerAction::ReplaceWorkers {
        expected_group: shown.clone(),
        workers: Vec::new(),
    };
    match manage(&service, &mut state, again) {
        FlowStep::Changed { changed, notice, unsaved } => {
            assert!(!changed);
            assert!(notice.contains("changed while this screen was open"));
            assert_eq!(unsaved, "Could not update Observer; metadata was unchanged");
        }
        other => panic!("{other:?}"),
    }
    let unknown = ObserverManagerAction::Launch { group_id: "other".parse().unwrap() };
    assert!(matches!(manage(&service, &mut state, unknown), FlowStep::Refused { .. }));
    let known = ObserverManagerAction::Launch { group_id: "observer-a".parse().unwrap() };
    assert!(matches!(manage(&service, &mut state, known), FlowStep::Launch { .. }));
    let before = format!("{state:?}");
    let view = ObserverManagerAction::SetAgentView {
        group_id: "build-group".parse().unwrap(),
        filter: AgentViewFilter::Remote,
    };
    assert_eq!(
        manage(&service, &mut state, view),
        FlowStep::ShowView {
            group_id: "build-group".parse().unwrap(),
            filter: AgentViewFilter::Remote,
        }
    );
    assert_eq!(
        manage(&service, &mut state, ObserverManagerAction::ClearAgentView),
        FlowStep::RestoreView
    );
    assert_eq!(format!("{state:?}"), before);
    assert_eq!(
        manage(&service, &mut state, ObserverManagerAction::BackToPicker),
        FlowStep::BackToPicker
    );
    let refused = finish_deletion(&service, &mut state, &shown, true);
    assert!(refused.restore_view);
    let current = state.orchestration_groups[0].clone();
    let delete = ObserverManagerAction::Delete { expected_group: current.clone() };
    assert!(matches!(manage(&service, &mut state, delete), FlowStep::ClearView { .. }));
    let gone = finish_deletion(&service, &mut state, &current, true);
    assert!(!gone.restore_view);
    assert_eq!(gone.notice, "Deleted Observer a metadata; workloads keep running");
    assert!(state.orchestration_groups.is_empty());
}

#[test]
fn orchestration_commands_say_what_they_did() {
    let service = service();
    let mut state = state_of(
        vec![exact_running_session(id(1), "$1"), exact_running_session(id(2), "$2")],
        Vec::new(),
    );
    let group = || -> OrchestrationGroupId { "atlas".parse().unwrap() };
    let name = id(2).to_string();
    let create = OrchestrationRequest::Create {
        id: group(),
        title: "Atlas".parse().unwrap(),
        orchestrator: id(1),
    };
    assert_eq!(orchestrate(&service, &mut state, create).unwrap(), "created atlas");
    let add = || OrchestrationRequest::AddWorker {
        group: group(),
        session: id(2),
        title: None,
        capabilities: capabilities(true, false),
    };
    assert_eq!(
        orchestrate(&service, &mut state, add()).unwrap(),
        format!("added {name} to atlas")
    );
    assert_eq!(
        orchestrate(&service, &mut state, add()).unwrap_err().message(),
        format!("worker `{name}` is already a member of orchestration group `atlas`")
    );
    let remove = || OrchestrationRequest::RemoveWorker { group: group(), session: id(2) };
    assert_eq!(
        orchestrate(&service, &mut state, remove()).unwrap(),
        format!("removed {name} from atlas")
    );
    assert_eq!(
        orchestrate(&service, &mut state, remove()).unwrap_err().message(),
        format!("worker `{name}` is not a member of orchestration group `atlas`")
    );
    let delete = || OrchestrationRequest::Delete { id: group() };
    assert_eq!(orchestrate(&service, &mut state, delete()).unwrap(), "deleted atlas");
    assert_eq!(
        orchestrate(&service, &mut state, delete()).unwrap_err().message(),
        "unknown orchestration group `atlas`"
    );
}
