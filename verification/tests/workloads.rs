//! Stopping, restarting, opening, removing and pruning workloads.

use herdr_tether::audit::{
    retain_bounded, AuditAction, AuditEntry, AuditStore, AuditTrail, MAX_AUDIT_BYTES,
    MAX_AUDIT_ENTRIES,
};
use herdr_tether::backend::{LaunchSpec, ProcessBinaries, WorkloadState};
use herdr_tether::clock::Timestamp;
use herdr_tether::discovery_remote::SshDestination;
use herdr_tether::lifecycle::{
    CloseOutcome, CloseOwnedError, CloseOwnedResult, ClosedWorkload, Inspection, LifecycleService,
    Operation, StopAct, StopReserved,
};
use herdr_tether::lifecycle_remove::{
    cleanup_eligibility, CleanupEligibility, PruneError, PruneService, RemoveAct, RemoveStart,
    RemoveStep,
};
use herdr_tether::lifecycle_restart::{RestartAct, RestartStep};
use herdr_tether::model::{ExternalSessionName, OwnershipProof, SessionId, TmuxSessionId};
use herdr_tether::state::{
    OrchestrationCapabilities, OrchestrationGroup, OrchestrationMember, SessionRecord,
    SessionStatus, State, StateStore,
};
use herdr_tether::tmux_command::{
    attach_arguments, attach_external_arguments, close_arguments, create_arguments, tmux_command,
    OWNERSHIP_GUARD_REJECTED,
};
use herdr_tether::tmux_listing::find_workload;

fn test_id() -> SessionId {
    "tether-0197f198000070008000000000000001".parse().unwrap()
}

fn test_proof() -> OwnershipProof {
    "0197f198000070008000000000000002".parse().unwrap()
}

fn at(secs: i64) -> Timestamp {
    Timestamp { secs, nanos: 0 }
}

fn tmux(text: &str) -> TmuxSessionId {
    text.parse().unwrap()
}

fn record(status: SessionStatus, identity: Option<&str>) -> SessionRecord {
    SessionRecord {
        herdr_agent: None,
        id: test_id(),
        host: "local".into(),
        target: "local".into(),
        directory: "/srv/code".into(),
        preset: Some("shell".into()),
        command: Some("exec shell".into()),
        tmux_session_id: identity.map(tmux),
        ownership_proof: Some(test_proof()),
        status,
        created_at: at(1_000),
        last_used_at: at(1_000),
        closed_at: None,
        exit_status: None,
    }
}

fn state_of(records: Vec<SessionRecord>) -> State {
    State {
        version: State::CURRENT_VERSION,
        sessions: records,
        orchestration_groups: Vec::new(),
    }
}

fn service() -> LifecycleService {
    LifecycleService::new(
        StateStore::new("/state.json".to_owned()),
        ProcessBinaries::new("ssh".to_owned(), "tmux".to_owned()),
    )
}

#[test]
fn a_service_keeps_the_programs_it_was_made_with() {
    let programs = || ProcessBinaries::new("/opt/ssh".to_owned(), "/opt/tmux".to_owned());
    let service =
        LifecycleService::new(StateStore::new("/state.json".to_owned()), programs());
    assert_eq!(service.binaries(), &programs());
    let audited = service.with_audit(AuditStore::new("/audit.json".to_owned(), 30));
    assert_eq!(audited.binaries(), &programs());
}

/// A backend with at most one workload, which counts how often it was closed.
struct Tmux {
    workload: WorkloadState,
    kills: usize,
}

impl Tmux {
    fn running(identity: &str) -> Self {
        Tmux {
            workload: WorkloadState::Running { identity: tmux(identity), attached: 0 },
            kills: 0,
        }
    }

    fn inspect(&self) -> Inspection {
        Inspection::Observed(self.workload)
    }

    fn close(&mut self) -> CloseOutcome {
        self.kills += 1;
        self.workload = WorkloadState::Missing;
        CloseOutcome::Closed
    }
}

/// Stops the workload as the application does. The last save fails where it is
/// told to.
fn close_owned(
    state: &mut State,
    backend: &mut Tmux,
    now: Timestamp,
    fail_final_save: bool,
) -> Result<CloseOwnedResult, CloseOwnedError> {
    let reservation = service().close_owned(state, test_id())?.inspected(backend.inspect())?;
    let marked = reservation.ensure_stopping(state);
    let finish = match reservation.reserved(Ok(marked))? {
        StopReserved::Finish(finish) => finish,
        StopReserved::Recheck(recheck) => match recheck.inspected(backend.inspect())? {
            StopAct::Finish(finish) => finish,
            StopAct::Close(close) => close.closed(backend.close())?,
        },
    };
    if fail_final_save {
        return finish.finished(Err("injected".to_owned()));
    }
    let ended = finish.finish_close(state, now);
    finish.finished(Ok(ended))
}

#[test]
fn final_save_failure_after_kill_recovers_idempotently_without_second_kill() {
    let mut state = state_of(vec![record(SessionStatus::Running, None)]);
    let mut backend = Tmux::running("$7");

    let error = close_owned(&mut state, &mut backend, at(2_000), true).unwrap_err();
    assert!(matches!(error, CloseOwnedError::Finalize { .. }));
    let rendered = error.message();
    assert!(rendered.contains("was closed but final state could not be saved"));
    assert!(rendered.contains("retry close to reconcile"));
    let stopping = state.sessions[0].clone();
    assert_eq!(stopping.status, SessionStatus::Stopping);
    assert_eq!(stopping.closed_at, None);
    assert_eq!(stopping.tmux_session_id, Some(tmux("$7")));
    assert_eq!(backend.kills, 1);

    assert_eq!(
        close_owned(&mut state, &mut backend, at(2_001), false).unwrap().workload,
        ClosedWorkload::Missing
    );
    let terminal = state.sessions[0].clone();
    assert_eq!(terminal.status, SessionStatus::Ended);
    assert!(terminal.closed_at.unwrap() > terminal.last_used_at);
    assert_eq!(terminal.last_used_at, stopping.last_used_at);
    assert_eq!(terminal.tmux_session_id, Some(tmux("$7")));
    assert_eq!(backend.kills, 1);
    assert!(matches!(
        close_owned(&mut state, &mut backend, at(2_002), false),
        Err(CloseOwnedError::AlreadyClosed(_))
    ));
    assert_eq!(state.sessions[0], terminal);
}

#[test]
fn a_running_workload_is_closed_once_and_ends() {
    let mut state = state_of(vec![record(SessionStatus::Running, Some("$7"))]);
    let mut backend = Tmux::running("$7");
    let result = close_owned(&mut state, &mut backend, at(2_000), false).unwrap();
    assert_eq!(result.id, test_id());
    assert_eq!(result.workload, ClosedWorkload::Terminated);
    assert_eq!(backend.kills, 1);
    assert_eq!(state.sessions[0].status, SessionStatus::Ended);
    assert_eq!(state.sessions[0].closed_at, Some(at(2_000)));
}

#[test]
fn a_workload_that_nobody_knows_is_left_alone() {
    let mut empty = state_of(Vec::new());
    let mut backend = Tmux::running("$7");
    assert_eq!(
        close_owned(&mut empty, &mut backend, at(2_000), false),
        Err(CloseOwnedError::UnknownSession(test_id()))
    );
    let mut proofless = record(SessionStatus::Running, Some("$7"));
    proofless.ownership_proof = None;
    assert_eq!(
        close_owned(&mut state_of(vec![proofless]), &mut backend, at(2_000), false),
        Err(CloseOwnedError::MissingOwnershipProof(test_id()))
    );
    let mut unclear = Tmux { workload: WorkloadState::Unknown, kills: 0 };
    assert_eq!(
        close_owned(
            &mut state_of(vec![record(SessionStatus::Running, Some("$7"))]),
            &mut unclear,
            at(2_000),
            false
        ),
        Err(CloseOwnedError::WorkloadUnknown(test_id()))
    );
    let mut other = Tmux::running("$8");
    assert_eq!(
        close_owned(
            &mut state_of(vec![record(SessionStatus::Running, Some("$7"))]),
            &mut other,
            at(2_000),
            false
        ),
        Err(CloseOwnedError::ConcurrentModification(test_id()))
    );
    assert_eq!((backend.kills, unclear.kills, other.kills), (0, 0, 0));
}

#[test]
fn an_inspection_that_fails_says_so() {
    let state = state_of(vec![record(SessionStatus::Running, Some("$7"))]);
    let begin = || service().close_owned(&state, test_id()).unwrap();
    assert!(matches!(
        begin().inspected(Inspection::Failed("no tmux".to_owned())),
        Err(CloseOwnedError::Inspect { .. })
    ));
    assert!(matches!(
        begin().inspected(Inspection::Unconfigured("no target".to_owned())),
        Err(CloseOwnedError::BackendConfiguration { .. })
    ));
}

#[test]
fn an_ended_workload_is_restarted_from_its_reservation() {
    let mut state = state_of(vec![record(SessionStatus::Ended, Some("$7"))]);
    let inspection = service().restart_owned(&state, test_id()).unwrap();
    let reservation = match inspection
        .inspected(Inspection::Observed(WorkloadState::Missing))
        .unwrap()
    {
        RestartStep::Reserve(reservation) => reservation,
        other => panic!("{other:?}"),
    };
    assert!(reservation.reserve(&mut state));
    assert_eq!(state.sessions[0].status, SessionStatus::Creating);
    assert_eq!(state.sessions[0].tmux_session_id, None);
    let launch = reservation.reserved(true, &state).unwrap();
    assert_eq!(launch.launch().command, "exec shell");
    assert!(launch.created(Err("no tmux".to_owned())).is_err());

    let retry = service().restart_owned(&state, test_id()).unwrap();
    let running = WorkloadState::Running { identity: tmux("$9"), attached: 0 };
    let promotion = match retry.inspected(Inspection::Observed(running)).unwrap() {
        RestartStep::Promote(promotion) => promotion,
        other => panic!("a created workload is taken over, not made twice: {other:?}"),
    };
    assert!(promotion.promote_running(&mut state, at(3_000)));
    assert_eq!(state.sessions[0].status, SessionStatus::Running);
    assert_eq!(state.sessions[0].tmux_session_id, Some(tmux("$9")));
    assert!(promotion.promoted(true).is_ok());
}

#[test]
fn an_ended_incarnation_is_closed_before_a_restart() {
    let state = state_of(vec![record(SessionStatus::Ended, Some("$7"))]);
    let ended = || {
        Inspection::Observed(WorkloadState::Ended { identity: tmux("$7"), exit_status: Some(1) })
    };
    let recheck = match service()
        .restart_owned(&state, test_id())
        .unwrap()
        .inspected(ended())
        .unwrap()
    {
        RestartStep::Recheck(recheck) => recheck,
        other => panic!("{other:?}"),
    };
    match recheck.inspected(ended()).unwrap() {
        RestartAct::Close(close) => {
            assert_eq!(close.identity(), tmux("$7"));
            assert!(close.closed(CloseOutcome::Closed).is_ok());
        }
        other => panic!("{other:?}"),
    }
    let mut commandless = record(SessionStatus::Ended, Some("$7"));
    commandless.command = None;
    assert_eq!(
        service().restart_owned(&state_of(vec![commandless]), test_id()),
        Err(CloseOwnedError::MissingCommand(test_id()))
    );
    let stopping = state_of(vec![record(SessionStatus::Stopping, Some("$7"))]);
    assert_eq!(
        service()
            .restart_owned(&stopping, test_id())
            .unwrap()
            .inspected(Inspection::Observed(WorkloadState::Missing)),
        Err(CloseOwnedError::InvalidStatus {
            id: test_id(),
            operation: Operation::Restarted,
            status: SessionStatus::Stopping,
        })
    );
}

#[test]
fn an_open_notes_its_use_between_two_looks() {
    let mut state = state_of(vec![record(SessionStatus::Running, Some("$7"))]);
    let running =
        || Inspection::Observed(WorkloadState::Running { identity: tmux("$7"), attached: 1 });
    let reservation =
        service().open_owned(&state, test_id()).unwrap().inspected(running()).unwrap();
    assert!(reservation.note_use(&mut state, at(4_000)));
    assert_eq!(state.sessions[0].last_used_at, at(4_000));
    let attach = reservation.reserved(true).unwrap().inspected(running()).unwrap();
    assert_eq!(attach.identity(), tmux("$7"));

    let ended = state_of(vec![record(SessionStatus::Ended, Some("$7"))]);
    assert!(service().open_owned(&ended, test_id()).is_err());
}

#[test]
fn what_is_seen_of_a_workload_is_kept() {
    let mut state = state_of(vec![record(SessionStatus::Running, Some("$7"))]);
    let ended = WorkloadState::Ended { identity: tmux("$7"), exit_status: Some(2) };
    let commit = service()
        .observe_owned(&state, test_id())
        .unwrap()
        .inspected(Inspection::Observed(ended))
        .unwrap();
    assert!(commit.note(at(5_000)).is_some());
    assert!(commit.reconcile(&mut state, at(5_000)));
    assert_eq!(commit.reconciled(true), Ok(ended));
    assert_eq!(state.sessions[0].status, SessionStatus::Ended);
    assert_eq!(state.sessions[0].exit_status, Some(2));
}

fn grouped(state: &mut State) {
    state.orchestration_groups.push(OrchestrationGroup {
        id: "group".parse().unwrap(),
        title: "Group".parse().unwrap(),
        orchestrator_session_id: "tether-0197f198000070008000000000000009".parse().unwrap(),
        workers: vec![OrchestrationMember {
            session_id: test_id(),
            membership_id: "0197f198000070008000000000000011".parse().unwrap(),
            title: None,
            capabilities: OrchestrationCapabilities {
                observe_output: true,
                open_interactive: false,
                prompt_agent: false,
            },
        }],
    });
}

#[test]
fn removing_a_workload_takes_it_out_of_its_groups() {
    let mut state = state_of(vec![record(SessionStatus::Ended, Some("$7"))]);
    grouped(&mut state);
    let ended =
        || Inspection::Observed(WorkloadState::Ended { identity: tmux("$7"), exit_status: None });
    let commit = match service().remove_owned(&state, test_id()).unwrap() {
        RemoveStart::Inspect(inspection) => match inspection.inspected(ended()).unwrap() {
            RemoveStep::Recheck(recheck) => match recheck.inspected(ended()).unwrap() {
                RemoveAct::Close(close) => close.closed(CloseOutcome::Closed).unwrap(),
                other => panic!("{other:?}"),
            },
            other => panic!("{other:?}"),
        },
        other => panic!("{other:?}"),
    };
    assert!(commit.remove(&mut state, at(6_000)));
    assert_eq!(commit.committed(true).unwrap().workload, ClosedWorkload::Terminated);
    assert_eq!(state.sessions[0].status, SessionStatus::Removed);
    assert!(state.orchestration_groups.iter().all(|group| group.workers.is_empty()));
    assert!(matches!(
        service().remove_owned(&state, test_id()).unwrap(),
        RemoveStart::Done(_)
    ));
}

#[test]
fn metadata_without_proof_is_forgotten_without_a_look() {
    let mut proofless = record(SessionStatus::Ended, None);
    proofless.ownership_proof = None;
    let state = state_of(vec![proofless]);
    assert!(matches!(
        service().remove_owned(&state, test_id()).unwrap(),
        RemoveStart::Commit(_)
    ));
    let running = state_of(vec![record(SessionStatus::Running, Some("$7"))]);
    assert!(service().remove_owned(&running, test_id()).is_err());
}

#[test]
fn history_is_pruned_by_age_and_never_while_it_is_open() {
    let now = at(10_000_000);
    let mut old = record(SessionStatus::Ended, Some("$7"));
    old.closed_at = Some(at(1_000));
    let days = 86_400;
    let eligibility = |record: &SessionRecord, workload: WorkloadState| {
        cleanup_eligibility(record, workload, now, 7 * days)
    };
    assert_eq!(
        eligibility(&old, WorkloadState::Missing),
        CleanupEligibility::RemoveMetadata
    );
    assert_eq!(
        eligibility(&old, WorkloadState::Running { identity: tmux("$7"), attached: 0 }),
        CleanupEligibility::KeepActive
    );
    assert_eq!(eligibility(&old, WorkloadState::Unknown), CleanupEligibility::KeepUnknown);
    let running = record(SessionStatus::Running, Some("$7"));
    assert_eq!(
        eligibility(&running, WorkloadState::Missing),
        CleanupEligibility::KeepActive
    );
    let mut recent = record(SessionStatus::Ended, Some("$7"));
    recent.closed_at = Some(at(9_999_000));
    assert_eq!(eligibility(&recent, WorkloadState::Missing), CleanupEligibility::KeepRecent);
    recent.closed_at = None;
    assert_eq!(eligibility(&recent, WorkloadState::Missing), CleanupEligibility::KeepRecent);
}

#[test]
fn only_what_was_previewed_and_is_unchanged_is_pruned() {
    let prune = PruneService::new(StateStore::new("/state.json".to_owned()));
    let now = at(10_000_000);
    let closed = |tail: u8| {
        let mut old = record(SessionStatus::Ended, Some("$7"));
        old.id = format!("tether-0197f1980000700080000000000000{tail:02}").parse().unwrap();
        old.closed_at = Some(at(1_000));
        old
    };
    let mut state = state_of(vec![closed(1), closed(2), record(SessionStatus::Running, None)]);
    state.sessions[2].id = "tether-0197f198000070008000000000000003".parse().unwrap();
    let preview = prune.preview_at(&state, 7, now).unwrap();
    assert_eq!(preview.ids(), [state.sessions[0].id, state.sessions[1].id]);
    assert_eq!((preview.older_than_days(), preview.captured_at()), (7, now));
    state.sessions[1].last_used_at = at(2_000);
    let result = prune.apply(&mut state, &preview, now).unwrap();
    assert_eq!(result.removed_ids, ["tether-0197f198000070008000000000000001".parse().unwrap()]);
    assert_eq!(result.skipped_ids, ["tether-0197f198000070008000000000000002".parse().unwrap()]);
    assert_eq!(state.sessions.len(), 2);
    let error = prune.preview_at(&state, u64::MAX, now).unwrap_err();
    assert_eq!(error, PruneError::RetentionTooLarge(u64::MAX));
    assert_eq!(error.message(), "retention of 18446744073709551615 days is too large");
}

#[test]
fn refusals_say_what_to_do() {
    let name = test_id().to_string();
    let cases = [
        (CloseOwnedError::UnknownSession(test_id()), "unknown"),
        (CloseOwnedError::AlreadyClosed(test_id()), name.as_str()),
        (CloseOwnedError::State { detail: "locked".to_owned() }, "access session state"),
        (CloseOwnedError::Create { id: test_id(), detail: "no tmux".to_owned() }, "create session"),
        (CloseOwnedError::Close { id: test_id(), detail: "denied".to_owned() }, name.as_str()),
    ];
    for (error, part) in cases {
        assert!(error.message().contains(part), "{}", error.message());
    }
}

fn entry(tail: u8, when: Timestamp) -> AuditEntry {
    AuditEntry {
        at: when,
        session: format!("tether-0197f1980000700080000000000000{tail:02}").parse().unwrap(),
        action: AuditAction::Stopped,
        from: Some(SessionStatus::Stopping),
        to: SessionStatus::Ended,
        incarnation: Some(tmux("$7")),
        exit_status: Some(0),
    }
}

#[test]
fn a_transition_survives_a_round_trip_and_says_only_what_it_should() {
    let store = AuditStore::new("/audit.json".to_owned(), 30);
    let now = Timestamp::now();
    let mut trail = AuditTrail::default();
    store.record_at(&mut trail, entry(1, now), now);
    store.record_at(
        &mut trail,
        AuditEntry {
            action: AuditAction::Removed,
            from: Some(SessionStatus::Ended),
            to: SessionStatus::Removed,
            exit_status: None,
            ..entry(1, now)
        },
        now,
    );

    // The trail must not carry where the work runs or what it does.
    let carried = format!("{trail:?}");
    for forbidden in ["host", "target", "directory", "command", "preset", "proof", "ownership"] {
        assert!(!carried.contains(forbidden), "{forbidden}: {carried}");
    }
    let entries = store.entries(trail, 10).unwrap();
    assert_eq!(entries.len(), 2, "{entries:?}");
    assert_eq!(entries[0].action, AuditAction::Stopped);
    assert_eq!(entries[1].to, SessionStatus::Removed);
    for entry in &entries {
        let line = entry.summary();
        for forbidden in ["local", "/srv", "exec", "shell"] {
            assert!(!line.contains(forbidden), "{line}");
        }
    }
}

#[test]
fn a_create_does_not_claim_a_state_it_came_from() {
    let now = Timestamp::now();
    let created = AuditEntry {
        action: AuditAction::Create,
        from: None,
        to: SessionStatus::Creating,
        incarnation: None,
        exit_status: None,
        ..entry(1, now)
    };
    let summary = created.summary();
    assert!(
        summary.ends_with("create\tcreating"),
        "a workload that did not exist came from nowhere: {summary}"
    );
}

#[test]
fn a_transition_is_told_on_one_line() {
    assert_eq!(
        entry(1, at(0)).summary(),
        "1970-01-01T00:00:00Z\ttether-0197f198000070008000000000000001\tstopped\tstopping → ended · $7 · exit 0"
    );
}

#[test]
fn retention_drops_transitions_older_than_the_window() {
    let store = AuditStore::new("/audit.json".to_owned(), 7);
    let now = Timestamp::now();
    let mut trail = AuditTrail::default();
    let fortnight = Timestamp { secs: now.secs - 14 * 86_400, nanos: now.nanos };
    store.record_at(&mut trail, entry(1, fortnight), now);
    assert!(trail.entries.is_empty(), "a transition past the window is not kept");

    store.record_at(&mut trail, entry(2, now), now);
    assert_eq!(store.entries(trail, 10).unwrap().len(), 1);
}

#[test]
fn the_trail_cannot_grow_past_its_ceiling() {
    let mut entries: Vec<AuditEntry> = Vec::new();
    let now = Timestamp::now();
    for index in 0..MAX_AUDIT_ENTRIES + 10 {
        let when = Timestamp { secs: now.secs - index as i64, nanos: now.nanos };
        entries.push(entry(1, when));
    }
    let newest = entries.last().cloned().unwrap();
    retain_bounded(&mut entries, 30, now);
    assert_eq!(entries.len(), MAX_AUDIT_ENTRIES);
    assert_eq!(entries.last(), Some(&newest), "the newest transition is the one kept");
}

#[test]
fn an_unsupported_schema_is_refused_rather_than_guessed() {
    let trail = AuditTrail { schema_version: 99, entries: Vec::new() };
    let store = AuditStore::new("/audit.json".to_owned(), 30);
    let error = store.entries(trail, 40).unwrap_err().message();
    assert!(error.contains("unsupported audit trail schema"), "{error}");
    let error = store.entries(AuditTrail::default(), MAX_AUDIT_BYTES + 1).unwrap_err().message();
    assert_eq!(error, "audit trail exceeds 2097152 bytes");
    assert!(store.accept_serialized(MAX_AUDIT_BYTES).is_ok());
    assert!(store
        .accept_serialized(MAX_AUDIT_BYTES + 1)
        .unwrap_err()
        .message()
        .starts_with("serialized "));
    let mut trail = AuditTrail::default();
    assert!(store.record(&mut trail, entry(1, Timestamp::now())));
    assert_eq!(trail.entries.len(), 1);
}

#[test]
fn a_transition_is_recorded_where_its_window_starts_within_the_calendar() {
    let store = AuditStore::new("/audit.json".to_owned(), 30);
    let now = at(1_000_000_000);
    let mut trail = AuditTrail::default();
    assert!(store.record_if_in_range(&mut trail, entry(1, now), now));
    assert_eq!(trail.entries, [entry(1, now)]);
    let month_later = at(1_000_000_000 + 31 * 86_400);
    assert!(store.record_if_in_range(&mut trail, entry(2, month_later), month_later));
    assert_eq!(trail.entries, [entry(2, month_later)], "the window has passed the first one");

    let first = at(-8_334_601_228_800);
    assert!(!store.record_if_in_range(&mut trail, entry(3, first), first));
    assert_eq!(trail.entries, [entry(2, month_later)], "nothing was recorded");
}

#[test]
fn a_listing_tells_of_the_exact_workload() {
    let id = test_id().to_string();
    let owner = test_proof().to_string();
    let told = |line: String| find_workload(&line, test_id(), &test_proof());
    assert_eq!(
        told(format!("other:$1:0:0::x\n{id}:$7:2:0::{owner}\n")),
        WorkloadState::Running { identity: tmux("$7"), attached: 2 }
    );
    assert_eq!(
        told(format!("{id}:$7:0:1:3:{owner}")),
        WorkloadState::Ended { identity: tmux("$7"), exit_status: Some(3) }
    );
    assert_eq!(
        told(format!("{id}:$7:0:1::{owner}")),
        WorkloadState::Ended { identity: tmux("$7"), exit_status: None }
    );
    assert_eq!(told(String::new()), WorkloadState::Missing);
    assert_eq!(told(format!("other-{id}:$7:0:0::{owner}")), WorkloadState::Missing);
    for stranger in [
        format!("{id}:$7:0:0::"),
        format!("{id}:$7:0:0::{owner}0"),
        format!("{id}:7:0:0::{owner}"),
        format!("{id}:$7:many:0::{owner}"),
        format!("{id}:$7"),
    ] {
        assert_eq!(told(stranger), WorkloadState::Unknown);
    }
}

#[test]
fn sessions_are_attached_and_closed_behind_a_guard() {
    let attach = attach_arguments(tmux("$7"), &test_proof());
    assert_eq!(attach[..4], ["if-shell", "-t", "$7", "-F"]);
    assert_eq!(
        attach[4],
        format!(
            "#{{&&:#{{==:#{{@tether_ownership_proof}},{}}},#{{==:#{{session_id}},$7}}}}",
            test_proof().to_string()
        )
    );
    assert_eq!(attach[5], "set-option -t $7 mouse on ; attach-session -t $7");
    assert!(attach[6].contains(OWNERSHIP_GUARD_REJECTED));
    let close = close_arguments(tmux("$7"), &test_proof());
    assert_eq!(close[5], "kill-session -t $7");
    assert_eq!((&close[..5], &close[6]), (&attach[..5], &attach[6]));

    let create = create_arguments(&LaunchSpec {
        id: test_id(),
        ownership_proof: test_proof(),
        directory: "/srv/code".to_owned(),
        command: "exec shell".to_owned(),
    });
    assert_eq!(create[6], test_id().to_string());
    assert_eq!(create[8..10], ["/srv/code", "exec shell"]);
    assert_eq!(create[13], test_proof().to_string());
}

#[test]
fn tmux_runs_here_or_behind_ssh() {
    let binaries = ProcessBinaries::new("/bin/ssh".to_owned(), "/bin/tmux".to_owned());
    let name: ExternalSessionName = "work box".parse().unwrap();
    let connection = vec!["-o".to_owned(), "BatchMode=yes".to_owned()];
    let here =
        tmux_command(None, &binaries, &connection, attach_external_arguments(&name)).unwrap();
    assert_eq!(here.program, "/bin/tmux");
    assert_eq!(here.args, ["attach-session", "-t", "=work box"]);
    let target = SshDestination { destination: "build".to_owned(), port: Some(2222) };
    let there =
        tmux_command(Some(&target), &binaries, &connection, attach_external_arguments(&name))
            .unwrap();
    assert_eq!(there.program, "/bin/ssh");
    assert_eq!(
        there.args,
        [
            "-o",
            "BatchMode=yes",
            "-p",
            "2222",
            "--",
            "build",
            "'tmux' 'attach-session' '-t' '=work box'"
        ]
    );
    assert!(tmux_command(Some(&target), &binaries, &connection, vec!["\0".to_owned()]).is_err());
}
