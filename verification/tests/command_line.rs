//! What the commands decide and say.

use herdr_tether::agent_view::AgentViewFilter;
use herdr_tether::backend::CommandSpec;
use herdr_tether::clock::Timestamp;
use herdr_tether::command_text::{
    command_outcome, find_reference, host_from_args, host_row, is_correlation, offered_worktrees,
    plugin_correlation_reference, probe_outcome, refused_worktree_warning, reload_herdr_config,
    remove_configured_host, require_probe_success, rollback_diagnostic, setup_lines,
    unrecognized_agent_warning, Reload, WorktreeFinding,
};
use herdr_tether::config::{CommandPreset, Config, HostConfig};
use herdr_tether::failure::Failure;
use herdr_tether::herdr::HerdrContext;
use herdr_tether::herdr_reply::{ForegroundProcess, ReplacementInspection};
use herdr_tether::launch::{
    action_failed, attach_with_agent_hint, begin_creation, external_attach_command,
    observer_runtime_command, open_decision, pane_title_for_record, placement_name,
    removal_message, replacement_answer, replacement_confirmation, restart_decision,
    restart_failed, session_status_text, Confirmation, RestartCall, SessionAction,
};
use herdr_tether::lifecycle_remove::PruneError;
use herdr_tether::model::{
    ExternalSessionName, HerdrAgentKind, OrchestrationGroupId, OwnershipProof, Placement, SessionId,
    TmuxSessionId,
};
use herdr_tether::notices::{
    created_notice, default_view_notice, deletion_end, deletion_step,
    dispatch_reassign_orchestrator, observer_launch_failure_notice,
    observer_metadata_failure_notice, updated_notice, view_notice, DeletionStep,
};
use herdr_tether::orchestration::MANAGER_STALE_GROUP_ERROR;
use herdr_tether::pane_title::PaneTitle;
use herdr_tether::selection::{
    choose_placement, discovery_limits, is_complete, list_hosts, offer_only_creation, parse_preset,
    resolve_command, resolve_host_from, retain_requested_host_groups, scope_to_request,
    selection_from_args, selection_from_picker, OpenRequest, OpenSelection, PickerCommand,
    PickerHost, PickerHostOrigin, PickerOptions, PickerSelection,
};
use herdr_tether::session_list::{
    group_row, list_sessions, prune_failed, prune_retention, session_row, skipped_message,
};
use herdr_tether::state::{OrchestrationGroup, SessionRecord, SessionStatus, State};

fn id(tail: u8) -> SessionId {
    format!("tether-0197f1980000700080000000000000{tail:02}").parse().unwrap()
}

fn at(secs: i64) -> Timestamp {
    Timestamp { secs, nanos: 0 }
}

fn record(tail: u8, status: SessionStatus, used: i64) -> SessionRecord {
    SessionRecord {
        id: id(tail),
        host: "local".to_owned(),
        target: "local".to_owned(),
        directory: "/tmp".to_owned(),
        preset: None,
        herdr_agent: None,
        command: Some("htop".to_owned()),
        tmux_session_id: None,
        ownership_proof: None,
        status,
        created_at: at(0),
        last_used_at: at(used),
        closed_at: None,
        exit_status: None,
    }
}

fn state_of(sessions: Vec<SessionRecord>) -> State {
    State { version: State::CURRENT_VERSION, sessions, orchestration_groups: Vec::new() }
}

fn host(name: &str, target: &str) -> HostConfig {
    HostConfig {
        name: name.to_owned(),
        target: target.to_owned(),
        roots: Vec::new(),
        presets: vec![CommandPreset {
            name: "agent".to_owned(),
            command: "codex --full-auto".to_owned(),
            herdr_agent: Some("codex".parse().unwrap()),
            health_command: None,
        }],
    }
}

fn config() -> Config {
    let mut config = Config::default();
    config.hosts.push(host("build", "builder@example.test"));
    config
}

fn request() -> OpenRequest {
    OpenRequest {
        host: None,
        directory: None,
        command: None,
        preset: None,
        herdr_agent: None,
        placement: None,
    }
}

fn aliases() -> Vec<String> {
    vec!["edge".to_owned(), "build".to_owned()]
}

fn picked() -> OpenSelection {
    OpenSelection {
        host: "local".to_owned(),
        directory: "/repo".to_owned(),
        preset: None,
        herdr_agent: None,
        command: "sh".to_owned(),
        placement: Placement::NewTab,
    }
}

#[test]
fn a_listed_workload_names_a_failing_exit_and_nothing_else() {
    let mut record = SessionRecord {
        herdr_agent: None,
        id: "tether-0197f198000070008000000000000001".parse().unwrap(),
        host: "local".to_owned(),
        target: "local".to_owned(),
        directory: "/tmp".to_owned(),
        preset: None,
        command: None,
        tmux_session_id: None,
        ownership_proof: None,
        status: SessionStatus::Ended,
        created_at: Timestamp::now(),
        last_used_at: Timestamp::now(),
        closed_at: Some(Timestamp::now()),
        exit_status: Some(2),
    };
    assert_eq!(session_status_text(&record), "Failed (exit 2)");

    record.exit_status = Some(0);
    assert_eq!(session_status_text(&record), "Ended");
    record.exit_status = None;
    assert_eq!(
        session_status_text(&record),
        "Ended",
        "an outcome tmux could not report is not a failure"
    );

    record.status = SessionStatus::Running;
    record.exit_status = None;
    record.closed_at = None;
    assert_eq!(session_status_text(&record), "Running");
}

#[test]
fn refused_worktree_paths_are_reported_rather_than_dropped_in_silence() {
    assert_eq!(refused_worktree_warning(0), None);
    let warning = refused_worktree_warning(2).expect("a refusal is worth saying");
    assert!(warning.starts_with("warning: Herdr reported 2 worktree path(s)"));
    assert!(
        warning.contains("--separate-git-dir") && warning.contains("submodule"),
        "the message must name the layouts that produce the refused shape"
    );
}

#[test]
fn a_reported_path_that_is_not_a_checkout_is_left_out_and_counted() {
    let paths = vec![
        "/work/app".to_owned(),
        "/work/gitdirs/app".to_owned(),
        "/work/.git/modules/lib".to_owned(),
        "/work/proj.git".to_owned(),
    ];
    let findings = vec![
        WorktreeFinding::Checkout,
        WorktreeFinding::Unusable,
        WorktreeFinding::Unusable,
        WorktreeFinding::BareRepository,
    ];
    let (offered, refused) = offered_worktrees(&paths, Some(&findings), 0);
    assert_eq!(offered, ["/work/app"]);
    assert_eq!(refused, 2, "the Git directory and the gitdir path, but not the bare repository");
}

#[test]
fn worktrees_that_were_not_looked_at_in_time_are_left_alone() {
    let paths = vec!["/work/app".to_owned()];
    assert_eq!(offered_worktrees(&paths, None, 4), (Vec::new(), 0));
    assert_eq!(offered_worktrees(&paths, Some(&vec![WorktreeFinding::Unusable]), 4).1, 5);
}

#[test]
fn external_attach_command_preserves_target_and_name_as_arguments() {
    let name = "-work 'quoted'".parse::<ExternalSessionName>().unwrap();
    let command = external_attach_command("/plugin/herdr-tether".to_owned(), "user@dev", &name);

    assert_eq!(command.program, "/plugin/herdr-tether");
    assert_eq!(
        command.args,
        ["session", "attach-external", "--target", "user@dev", "--", "-work 'quoted'"]
    );
}

#[test]
fn explicit_agent_hint_wraps_the_host_visible_attach_process() {
    let command = CommandSpec::new(
        "/usr/bin/tmux".to_owned(),
        vec!["attach-session".into(), "-t".into(), "=tether-session".into()],
    );
    let agent = "codex".parse::<HerdrAgentKind>().unwrap();

    let hinted = attach_with_agent_hint(command, Some(&agent));

    assert_eq!(hinted.program, "env");
    assert_eq!(
        hinted.args,
        ["HERDR_AGENT=codex", "/usr/bin/tmux", "attach-session", "-t", "=tether-session"]
    );
}

#[test]
fn a_workload_without_an_agent_is_attached_as_it_is() {
    let command = CommandSpec::new("/usr/bin/tmux".to_owned(), vec!["attach-session".into()]);
    assert_eq!(attach_with_agent_hint(command.clone(), None), command);
}

#[test]
fn reopening_uses_only_safe_stored_presentation_metadata() {
    let now = Timestamp::now();
    let record = SessionRecord {
        herdr_agent: None,
        id: SessionId::new(),
        host: "build-box".into(),
        target: "builder@example.test".into(),
        directory: "/srv/repository".into(),
        preset: None,
        command: Some("exec /opt/agents/codex --token raw-secret".into()),
        tmux_session_id: None,
        ownership_proof: None,
        status: SessionStatus::Running,
        created_at: now,
        last_used_at: now,
        closed_at: None,
        exit_status: None,
    };

    assert_eq!(
        pane_title_for_record(&record),
        PaneTitle::owned("build-box", "/srv/repository", None, Some("codex"))
    );
    assert_eq!(pane_title_for_record(&record).as_str(), "build-box · repository · codex");
}

fn picker_host(name: &str, target: &str, origin: PickerHostOrigin) -> PickerHost {
    PickerHost {
        name: name.into(),
        label: name.into(),
        target: Some(target.into()),
        origin,
        directories: vec!["/repo".into()],
        scan_roots: vec!["/repo".into()],
        commands: vec![PickerCommand::Shell],
        workloads: Vec::new(),
        allow_existing: origin == PickerHostOrigin::Effective,
        allow_create: origin == PickerHostOrigin::Effective,
    }
}

#[test]
fn requested_host_scope_keeps_only_matching_effective_and_retained_groups() {
    let mut options = PickerOptions {
        hosts: vec![
            picker_host("build", "new.example", PickerHostOrigin::Effective),
            picker_host("build", "old.example", PickerHostOrigin::Retained),
            picker_host("foreign", "foreign.example", PickerHostOrigin::Retained),
            picker_host("local", "local", PickerHostOrigin::Retained),
        ],
        default_placement: Placement::SplitRight,
    };

    retain_requested_host_groups(&mut options, Some("build"));

    assert_eq!(options.hosts.len(), 2);
    assert!(options.hosts.iter().all(|host| host.name == "build"));
    assert_eq!(options.hosts[0].origin, PickerHostOrigin::Effective);
    assert_eq!(options.hosts[1].origin, PickerHostOrigin::Retained);
}

#[test]
fn a_new_workload_is_offered_effective_hosts_without_their_workloads() {
    let mut effective = picker_host("build", "new.example", PickerHostOrigin::Effective);
    effective.workloads.push(id(1));
    let mut options = PickerOptions {
        hosts: vec![
            picker_host("old", "old.example", PickerHostOrigin::Retained),
            effective,
        ],
        default_placement: Placement::SplitRight,
    };
    retain_requested_host_groups(&mut options, None);
    assert_eq!(options.hosts.len(), 2);

    offer_only_creation(&mut options);

    assert_eq!(options.hosts.len(), 1);
    assert_eq!(options.hosts[0].name, "build");
    assert!(options.hosts[0].workloads.is_empty());
    assert!(!options.hosts[0].allow_existing);
    assert!(options.hosts[0].allow_create);
}

#[test]
fn missing_plugin_context_launch_notice_is_actionable_and_safe() {
    let error = Failure::new("HERDR_PANE_ID is not set".to_owned())
        .context("Observer must be launched from the Tether plugin pane".to_owned());

    let notice = observer_launch_failure_notice(&error);

    assert!(notice.contains("prefix+t"));
    assert!(notice.contains("Herdr pane"));
    assert!(notice.contains("source pane was preserved"));
    assert!(!notice.contains("HERDR_PANE_ID"));
}

#[test]
fn another_launch_failure_says_only_that_the_pane_was_preserved() {
    let error = Failure::new("no such group".to_owned());
    assert_eq!(
        observer_launch_failure_notice(&error),
        "Could not launch Observer; source pane was preserved"
    );
}

#[test]
fn stale_manager_snapshot_notice_reports_refresh_without_identifiers() {
    let error = Failure::new(MANAGER_STALE_GROUP_ERROR.to_owned());

    let notice = observer_metadata_failure_notice("delete", &error);

    assert!(notice.contains("changed while this screen was open"));
    assert!(notice.contains("refreshed current metadata"));
    assert!(notice.contains("review and retry"));
    assert!(!notice.contains("observer-"));
}

fn manager_group(orchestrator_session_id: SessionId) -> OrchestrationGroup {
    OrchestrationGroup {
        id: "observer-build-atlas".parse().unwrap(),
        title: "Observer build atlas".parse().unwrap(),
        orchestrator_session_id,
        workers: Vec::new(),
    }
}

#[test]
fn reassign_dispatch_forwards_exact_snapshot_and_replacement_once() {
    let original = SessionId::new();
    let replacement = SessionId::new();
    let expected = manager_group(original);
    let returned = manager_group(replacement);
    let mut calls = 0;

    let notice = dispatch_reassign_orchestrator(
        expected.clone(),
        replacement,
        |actual_expected: &OrchestrationGroup, actual_replacement: SessionId| {
            calls += 1;
            assert_eq!(actual_expected, &expected);
            assert_eq!(actual_replacement, replacement);
            Ok(returned.clone())
        },
    );

    assert_eq!(calls, 1);
    assert!(notice.contains("Updated Observer build atlas metadata"));
    assert!(notice.contains("workload lifecycle and placement unchanged"));
    assert!(!notice.contains(&replacement.to_string()));
}

#[test]
fn stale_reassign_dispatch_notice_is_actionable_and_identifier_free() {
    let replacement = SessionId::new();
    let expected = manager_group(SessionId::new());

    let notice = dispatch_reassign_orchestrator(
        expected,
        replacement,
        |_: &OrchestrationGroup, _: SessionId| {
            Err(Failure::new(MANAGER_STALE_GROUP_ERROR.to_owned()))
        },
    );

    assert!(notice.contains("changed while this screen was open"));
    assert!(notice.contains("refreshed current metadata"));
    assert!(notice.contains("review and retry"));
    assert!(!notice.contains(&replacement.to_string()));
    assert!(!notice.contains("observer-"));
}

#[test]
fn failed_reassign_dispatch_reports_metadata_unchanged_without_identifiers() {
    let replacement = SessionId::new();
    let expected = manager_group(SessionId::new());
    let mut calls = 0;

    let notice = dispatch_reassign_orchestrator(
        expected,
        replacement,
        |_: &OrchestrationGroup, _: SessionId| {
            calls += 1;
            Err(Failure::new("replacement became ineligible".to_owned()))
        },
    );

    assert_eq!(calls, 1);
    assert_eq!(
        notice,
        "Could not reassign Observer; metadata was unchanged; workload lifecycle and placement unchanged"
    );
    assert!(!notice.contains(&replacement.to_string()));
}

#[test]
fn manager_notices_name_the_group_and_nothing_of_a_failure() {
    let made = Ok(manager_group(id(1)));
    let failed = Err(Failure::new("disk full".to_owned()));
    let stale = Err(Failure::new(MANAGER_STALE_GROUP_ERROR.to_owned()).context("save".to_owned()));
    assert_eq!(created_notice(&made), "Created Observer build atlas; workload lifecycle unchanged");
    assert_eq!(created_notice(&failed), "Could not create Observer; metadata was unchanged");
    assert_eq!(updated_notice(&made), "Updated Observer build atlas; workload lifecycle unchanged");
    assert_eq!(updated_notice(&failed), "Could not update Observer; metadata was unchanged");
    assert!(updated_notice(&stale).contains("review and retry"));
    assert_eq!(default_view_notice(&Ok(())), "Restored default Agents sidebar");
    assert!(default_view_notice(&Err(Failure::new("x".to_owned()))).contains("preserved"));
}

#[test]
fn a_deletion_that_fails_shows_the_cleared_view_again() {
    assert_eq!(deletion_step(Ok(true)), DeletionStep::Delete { was_active: true });
    assert_eq!(
        deletion_step(Err(Failure::new("no socket".to_owned()))),
        DeletionStep::Stop(
            "Could not delete Observer; active Agents view was preserved".to_owned()
        )
    );
    let failed = Err(Failure::new("disk full".to_owned()));
    assert!(deletion_end(&failed, true).restore_view);
    assert!(!deletion_end(&failed, false).restore_view);
    let gone = deletion_end(&Ok(manager_group(id(1))), true);
    assert!(!gone.restore_view);
    assert_eq!(gone.notice, "Deleted Observer build atlas metadata; workloads keep running");
}

#[test]
fn hosts_resolve_to_this_machine_a_configured_one_or_an_alias() {
    let config = config();
    let aliases = aliases();
    assert_eq!(resolve_host_from(&config, &aliases, "local").unwrap().target, "local");
    let build = resolve_host_from(&config, &aliases, "build").unwrap();
    assert_eq!(build.target, "builder@example.test", "an alias never hides a configured host");
    assert_eq!(build.presets.len(), 1);
    let edge = resolve_host_from(&config, &aliases, "edge").unwrap();
    assert_eq!((edge.name.as_str(), edge.target.as_str()), ("edge", "edge"));
    assert_eq!(
        resolve_host_from(&config, &aliases, "moon").unwrap_err().message(),
        "unknown host `moon`"
    );
}

#[test]
fn listed_hosts_are_those_that_resolve() {
    let listed = list_hosts(&config(), &aliases());
    let rows: Vec<String> = listed.iter().map(host_row).collect();
    assert_eq!(
        rows,
        [
            "local\tlocal\tbuiltin",
            "build\tbuilder@example.test\tconfigured",
            "edge\tedge\tssh_config",
        ]
    );
    let mut odd = list_hosts(&config(), &aliases());
    odd[1].name = "a\nlocal\u{202e}".to_owned();
    assert_eq!(
        host_row(&odd[1]),
        "a\\nlocal\\u{202e}\tbuilder@example.test\tconfigured",
        "one field cannot pass for another"
    );
    for entry in &listed {
        let found = resolve_host_from(&config(), &aliases(), &entry.name).unwrap();
        assert_eq!(found.target, entry.target);
    }
}

#[test]
fn commands_come_from_a_preset_or_as_text_but_not_both() {
    let host = host("build", "b");
    let chosen = resolve_command(&host, Some("agent".to_owned()), None).unwrap();
    assert_eq!(chosen.command, "codex --full-auto");
    assert_eq!(chosen.preset.as_deref(), Some("agent"));
    assert_eq!(chosen.agent.unwrap().as_str(), "codex");
    let plain = resolve_command(&host, None, Some("make".to_owned())).unwrap();
    assert_eq!((plain.preset, plain.command, plain.agent), (None, "make".to_owned(), None));
    let message = |preset: Option<&str>, command: Option<&str>| {
        resolve_command(&host, preset.map(str::to_owned), command.map(str::to_owned))
            .unwrap_err()
            .message()
    };
    assert_eq!(message(Some("none"), None), "unknown preset `none` for host `build`");
    assert_eq!(message(None, Some(" \t")), "--command must not be empty");
    assert_eq!(message(None, None), "exactly one of --command or --preset is required");
    assert_eq!(
        message(Some("agent"), Some("make")),
        "exactly one of --command or --preset is required"
    );
}

#[test]
fn presets_are_written_as_a_name_and_a_command() {
    let preset = parse_preset("build=make test=1").unwrap();
    assert_eq!((preset.name.as_str(), preset.command.as_str()), ("build", "make test=1"));
    assert_eq!(parse_preset("build").unwrap_err(), "expected NAME=COMMAND");
    assert_eq!(parse_preset("=make").unwrap_err(), "preset name and command must not be empty");
    assert_eq!(parse_preset("x= ").unwrap_err(), "preset name and command must not be empty");
}

#[test]
fn a_complete_request_needs_no_picker() {
    let mut wanted = request();
    assert!(!is_complete(&wanted));
    wanted.host = Some("build".to_owned());
    wanted.directory = Some("/srv".to_owned());
    assert!(!is_complete(&wanted));
    wanted.preset = Some("agent".to_owned());
    assert!(is_complete(&wanted));

    let selection = selection_from_args(&config(), &aliases(), wanted).unwrap();
    assert_eq!(selection.host, "build");
    assert_eq!(selection.command, "codex --full-auto");
    assert_eq!(selection.herdr_agent.unwrap().as_str(), "codex");
    assert_eq!(selection.placement, Config::default().ui.placement);
}

#[test]
fn an_incomplete_request_is_refused_by_what_it_lacks() {
    let mut wanted = request();
    wanted.command = Some("make".to_owned());
    let message = |wanted: OpenRequest| {
        selection_from_args(&config(), &aliases(), wanted).unwrap_err().message()
    };
    assert_eq!(message(wanted), "--host is required");
    let mut wanted = request();
    wanted.host = Some("build".to_owned());
    wanted.command = Some("make".to_owned());
    assert_eq!(message(wanted), "--directory is required");
}

#[test]
fn what_was_asked_for_takes_the_place_of_what_was_picked() {
    let mut wanted = request();
    wanted.host = Some("build".to_owned());
    wanted.preset = Some("agent".to_owned());
    wanted.placement = Some(Placement::SplitDown);
    let made = selection_from_picker(
        &config(),
        &aliases(),
        wanted,
        PickerSelection::Create(picked()),
    )
    .unwrap();
    assert_eq!(
        made,
        PickerSelection::Create(OpenSelection {
            host: "build".to_owned(),
            directory: "/repo".to_owned(),
            preset: Some("agent".to_owned()),
            herdr_agent: Some("codex".parse().unwrap()),
            command: "codex --full-auto".to_owned(),
            placement: Placement::SplitDown,
        })
    );
    let mut elsewhere = request();
    elsewhere.host = Some("moon".to_owned());
    assert_eq!(
        selection_from_picker(
            &config(),
            &aliases(),
            elsewhere,
            PickerSelection::Create(picked())
        )
        .unwrap_err()
        .message(),
        "unknown host `moon`"
    );
}

#[test]
fn a_picked_workload_keeps_its_placement_unless_another_is_asked_for() {
    let resumed = PickerSelection::Resume { id: id(1), placement: Placement::NewTab };
    let same = selection_from_picker(&config(), &aliases(), request(), resumed).unwrap();
    assert_eq!(same, PickerSelection::Resume { id: id(1), placement: Placement::NewTab });
    let mut wanted = request();
    wanted.placement = Some(Placement::SplitRight);
    let restarted = PickerSelection::Restart { id: id(1), placement: Placement::NewTab };
    let moved = selection_from_picker(&config(), &aliases(), wanted, restarted).unwrap();
    assert_eq!(moved, PickerSelection::Restart { id: id(1), placement: Placement::SplitRight });
    assert_eq!(choose_placement(None, Placement::NewTab), Placement::NewTab);
}

#[test]
fn a_request_for_a_host_is_about_that_host_alone() {
    let mut everything = config();
    assert!(scope_to_request(&mut everything, &aliases(), None));
    let names: Vec<&str> = everything.hosts.iter().map(|host| host.name.as_str()).collect();
    assert_eq!(names, ["build", "edge"]);

    let mut local = config();
    assert!(scope_to_request(&mut local, &aliases(), Some("local")));
    assert!(local.hosts.is_empty());

    let mut edge = config();
    assert!(!scope_to_request(&mut edge, &aliases(), Some("edge")));
    assert_eq!(edge.hosts.len(), 1);
    assert_eq!(edge.hosts[0].target, "edge");
}

#[test]
fn searches_are_bounded_as_configured() {
    let config = Config::default();
    let limits = discovery_limits(&config);
    assert_eq!(limits.max_depth, config.discovery.max_depth);
    assert_eq!(limits.timeout_nanos, config.discovery.timeout_seconds * 1_000_000_000);
}

fn creation() -> herdr_tether::launch::Creation {
    let mut selection = picked();
    selection.host = "build".to_owned();
    begin_creation(&config(), &aliases(), selection, id(9), OwnershipProof::new(), at(5)).unwrap()
}

#[test]
fn nothing_is_reserved_for_a_selection_that_cannot_run() {
    let message = |selection: OpenSelection| {
        begin_creation(&config(), &aliases(), selection, id(9), OwnershipProof::new(), at(5))
            .unwrap_err()
            .message()
    };
    let mut nowhere = picked();
    nowhere.directory = "  ".to_owned();
    assert_eq!(message(nowhere), "session directory must not be empty");
    let mut nothing = picked();
    nothing.command = "\t".to_owned();
    assert_eq!(message(nothing), "session command must not be empty");
    let mut unknown = picked();
    unknown.host = "moon".to_owned();
    assert_eq!(message(unknown), "unknown host `moon`");
}

#[test]
fn a_created_workload_runs_where_it_was_reserved() {
    let identity: TmuxSessionId = "$7".parse().unwrap();
    let mut state = state_of(vec![record(1, SessionStatus::Running, 0)]);
    let creation = creation();
    assert_eq!(creation.record().target, "builder@example.test");
    assert_eq!(creation.launch().command, "sh");
    creation.reserve(&mut state);
    assert_eq!(state.sessions.len(), 2);
    assert_eq!(state.sessions[1].status, SessionStatus::Creating);

    creation.commit(&mut state, identity, at(8)).unwrap();

    assert_eq!(state.sessions[1].status, SessionStatus::Running);
    assert_eq!(state.sessions[1].tmux_session_id, Some(identity));
    assert_eq!(state.sessions[1].last_used_at, at(8));
    assert_eq!(state.sessions[1].created_at, at(5));
    let again = creation.commit(&mut state, identity, at(9)).unwrap_err();
    assert_eq!(
        again.message(),
        format!("reserved session `{}` changed while it was being created", id(9).to_string())
    );
    let mut empty = state_of(Vec::new());
    let lost = creation.commit(&mut empty, identity, at(9)).unwrap_err();
    assert_eq!(
        lost.message(),
        format!("reserved session `{}` disappeared after creation", id(9).to_string())
    );
    assert!(creation.unrecorded(lost).message().contains("safely recoverable"));
}

#[test]
fn an_abandoned_reservation_leaves_no_trace_and_takes_no_workload() {
    let mut state = state_of(vec![record(1, SessionStatus::Running, 0)]);
    let creation = creation();
    creation.reserve(&mut state);
    creation.abandon(&mut state);
    assert_eq!(state, state_of(vec![record(1, SessionStatus::Running, 0)]));

    creation.reserve(&mut state);
    creation.commit(&mut state, "$7".parse().unwrap(), at(8)).unwrap();
    creation.abandon(&mut state);
    assert_eq!(state.sessions.len(), 2, "a workload that runs is kept");
    let failure = creation.failed(Failure::new("tmux failed".to_owned()));
    assert_eq!(
        failure.detail(),
        format!("create reserved session `{}`: tmux failed", id(9).to_string())
    );
    assert!(creation
        .unplaced(Failure::new("no pane".to_owned()))
        .message()
        .ends_with("it remains running and recorded for retry"));
}

#[test]
fn only_running_workloads_are_opened() {
    let text = |status: SessionStatus| {
        open_decision(&Some(record(1, status, 0)), id(1)).err().map(|failure| failure.message())
    };
    let name = id(1).to_string();
    assert_eq!(text(SessionStatus::Running), None);
    assert_eq!(
        text(SessionStatus::Ended).unwrap(),
        format!("session `{name}` has ended; run `herdr-tether session restart {name}`")
    );
    assert_eq!(
        text(SessionStatus::Creating).unwrap(),
        format!(
            "session `{name}` creation is incomplete; run `herdr-tether session restart {name}`"
        )
    );
    assert!(text(SessionStatus::Stopping).unwrap().ends_with("after Stop completes"));
    assert!(text(SessionStatus::Removed).unwrap().contains("was removed"));
    assert_eq!(
        open_decision(&None, id(1)).unwrap_err().message(),
        format!("unknown session `{name}`")
    );
}

#[test]
fn restarting_depends_on_where_a_workload_stands() {
    let decide = |status: SessionStatus| restart_decision(&Some(record(1, status, 0)), id(1));
    assert_eq!(decide(SessionStatus::Ended).unwrap(), RestartCall::Restart);
    assert_eq!(decide(SessionStatus::Creating).unwrap(), RestartCall::Restart);
    assert_eq!(decide(SessionStatus::Running).unwrap(), RestartCall::Observe);
    let name = id(1).to_string();
    assert_eq!(
        decide(SessionStatus::Stopping).unwrap_err().message(),
        format!("session `{name}` cannot be restarted while it is Stopping")
    );
    assert_eq!(
        restart_decision(&None, id(1)).unwrap_err().message(),
        format!("unknown Tether session `{name}`")
    );
    let failure = restart_failed(RestartCall::Observe, id(1), Failure::new("gone".to_owned()));
    assert_eq!(failure.detail(), format!("verify restarted session `{name}`: gone"));
    let failed = action_failed(SessionAction::Stop, id(1), Failure::new("gone".to_owned()));
    assert_eq!(
        failed.message(),
        format!(
            "stop session `{name}`; retry `herdr-tether session stop {name}` after resolving the reported error"
        )
    );
}

#[test]
fn forgotten_metadata_without_proof_says_that_nothing_was_contacted() {
    let state = state_of(vec![record(1, SessionStatus::Ended, 0)]);
    let name = id(1).to_string();
    assert_eq!(
        removal_message(&state, id(1)),
        format!("removed legacy metadata {name}; no workload was contacted")
    );
    let mut owned = record(1, SessionStatus::Ended, 0);
    owned.ownership_proof = Some(OwnershipProof::new());
    assert_eq!(removal_message(&state_of(vec![owned]), id(1)), format!("removed {name}"));
}

#[test]
fn workloads_are_listed_running_first_and_removed_ones_not_at_all() {
    let state = state_of(vec![
        record(1, SessionStatus::Ended, 90),
        record(2, SessionStatus::Running, 10),
        record(3, SessionStatus::Removed, 95),
        record(4, SessionStatus::Running, 40),
        record(5, SessionStatus::Running, 10),
    ]);
    let listed: Vec<SessionId> = list_sessions(&state).iter().map(|record| record.id).collect();
    assert_eq!(listed, [id(4), id(2), id(5), id(1)]);
    assert_eq!(
        session_row(&record(2, SessionStatus::Running, 0)),
        format!("{}\tlocal\t/tmp\t1970-01-01 00:00:00 UTC\tRunning", id(2).to_string())
    );
    assert_eq!(
        group_row(&manager_group(id(1))),
        format!("observer-build-atlas\tObserver build atlas\t{}\t0 workers", id(1).to_string())
    );
}

#[test]
fn the_setting_that_asks_for_too_long_a_retention_is_named() {
    assert_eq!(prune_retention(Some(3), 30), (3, "--older-than-days"));
    assert_eq!(prune_retention(None, 30), (30, "retention.closed_days"));
    assert_eq!(
        prune_failed(&PruneError::RetentionTooLarge(u64::MAX), "--older-than-days").message(),
        "--older-than-days is too large"
    );
    assert_eq!(
        skipped_message(id(1)),
        format!("skipped {}: changed since preview", id(1).to_string())
    );
}

#[test]
fn placements_have_names() {
    let names: Vec<&str> = [
        Placement::SplitRight,
        Placement::SplitDown,
        Placement::NewTab,
        Placement::ReplaceCurrentPane,
    ]
    .into_iter()
    .map(placement_name)
    .collect();
    assert_eq!(names, ["split-right", "split-down", "new-tab", "replace-current-pane"]);
}

#[test]
fn an_observer_runs_in_the_pane_that_was_made_for_it() {
    let group: OrchestrationGroupId = "atlas".parse().unwrap();
    let destination = HerdrContext {
        binary: "/bin/herdr".to_owned(),
        pane_id: "w1:p2".to_owned(),
        workspace_id: "w1".to_owned(),
    };
    let command = observer_runtime_command("/plugin/tether".to_owned(), &group, &destination);
    assert_eq!(command.program, "/plugin/tether");
    assert_eq!(
        command.args,
        [
            "orchestration",
            "observer-runtime",
            "atlas",
            "--pane-id",
            "w1:p2",
            "--workspace-id",
            "w1",
            "--herdr-bin",
            "/bin/herdr",
        ]
    );
}

#[test]
fn a_busy_pane_is_replaced_only_when_a_person_says_yes() {
    let idle = ReplacementInspection { pane_id: "p".to_owned(), foreground_processes: Vec::new() };
    assert_eq!(replacement_confirmation(&idle, false).unwrap(), Confirmation::Unneeded);
    let busy = ReplacementInspection {
        pane_id: "p".to_owned(),
        foreground_processes: vec![ForegroundProcess {
            pid: 42,
            name: "vim".to_owned(),
            argv: vec!["vim".to_owned()],
        }],
    };
    let refused = replacement_confirmation(&busy, false).unwrap_err().message();
    assert!(refused.starts_with("Replace current pane would terminate "));
    assert!(refused.contains("vim") && refused.ends_with("the source pane was preserved"));
    match replacement_confirmation(&busy, true).unwrap() {
        Confirmation::Ask(text) => assert!(text.ends_with(". Continue? [y/N] ")),
        Confirmation::Unneeded => panic!("a busy pane needs a confirmation"),
    }
    for yes in ["y\n", " YES ", "Yes"] {
        assert!(replacement_answer(yes).is_ok(), "{yes}");
    }
    for no in ["", "n\n", "yess", "ye", "ya"] {
        assert_eq!(
            replacement_answer(no).unwrap_err().message(),
            "Replace current pane was cancelled; the source pane was preserved"
        );
    }
}

#[test]
fn plugin_failures_show_only_a_plain_reference() {
    assert_eq!(
        plugin_correlation_reference(Some(r#"{"correlation_id":"run-7.a:b_c"}"#)),
        "run-7.a:b_c"
    );
    for hidden in [
        r#"{"correlation_id":"has space"}"#,
        r#"{"correlation_id":""}"#,
        r#"{"correlation_id":7}"#,
        r#"{"other":"x"}"#,
        "[\"correlation_id\"]",
        "{",
    ] {
        assert_eq!(plugin_correlation_reference(Some(hidden)), "unavailable", "{hidden}");
    }
    assert_eq!(plugin_correlation_reference(None), "unavailable");
    assert_eq!(find_reference(&Vec::new()), "unavailable");
    assert!(is_correlation(&"a".repeat(64)));
    assert!(!is_correlation(&"a".repeat(65)));
    assert!(!is_correlation("é"));

    let failed = || Err(Failure::new("secret path".to_owned()));
    assert_eq!(
        command_outcome(failed(), true, None).unwrap_err().message(),
        "plugin command failed; correlation unavailable"
    );
    assert_eq!(command_outcome(failed(), false, None).unwrap_err().message(), "secret path");
    assert!(command_outcome(Ok(()), true, None).is_ok());
}

#[test]
fn a_reload_that_fails_says_how_to_go_back() {
    assert_eq!(
        rollback_diagnostic(None),
        "; rerun `herdr server reload-config` when the server is available"
    );
    assert!(reload_herdr_config("/c", Some("/c.bak"), Reload::Succeeded).is_ok());
    assert_eq!(
        reload_herdr_config("/c", Some("/c.bak"), Reload::Failed("exit status: 1".to_owned()))
            .unwrap_err()
            .message(),
        "Herdr config at `/c` was updated but reload failed with status exit status: 1; rollback remains available with `herdr-tether setup keybinding --rollback` from backup `/c.bak`"
    );
    let unstarted = Reload::NotStarted(Failure::new("not found".to_owned()));
    assert_eq!(
        reload_herdr_config("/c", None, unstarted).unwrap_err().detail(),
        "Herdr config at `/c` was updated but reload could not be started; rerun `herdr server reload-config` when the server is available: not found"
    );
}

#[test]
fn an_unknown_agent_is_warned_about_where_any_are_known() {
    let kind: HerdrAgentKind = "codex".parse().unwrap();
    assert_eq!(unrecognized_agent_warning(&kind, &Vec::new()), None);
    assert_eq!(unrecognized_agent_warning(&kind, &vec!["codex".to_owned()]), None);
    let known = vec!["pi".to_owned(), "amp".to_owned()];
    assert!(unrecognized_agent_warning(&kind, &known)
        .unwrap()
        .ends_with("Recognized kinds: pi, amp."));
}

#[test]
fn a_probe_that_fails_tells_its_errors() {
    assert!(probe_outcome("tmux", true, "exit status: 0", "").is_ok());
    assert_eq!(
        require_probe_success("remote tmux", false, "exit status: 1", &b" no \xff tmux\n".to_vec())
            .unwrap_err()
            .message(),
        "remote tmux probe failed with status exit status: 1: no \u{fffd} tmux"
    );
}

#[test]
fn a_host_is_added_as_asked_for_and_removed_by_name() {
    let presets = vec![parse_preset("run=make").unwrap()];
    let host = host_from_args("x".to_owned(), "u@x".to_owned(), vec!["/srv".to_owned()], &presets);
    assert_eq!(host.presets[0].command, "make");
    assert_eq!(host.presets[0].herdr_agent, None);
    let mut config = config();
    remove_configured_host(&mut config, "build").unwrap();
    assert!(config.hosts.is_empty());
    assert_eq!(
        remove_configured_host(&mut config, "build").unwrap_err().message(),
        "unknown configured host `build`"
    );
}

#[test]
fn setup_tells_what_is_in_effect() {
    let mut config = config();
    let lines = setup_lines(&config, "/c/config.toml", "/s/state.json");
    assert_eq!(lines[0], "Tether configuration: /c/config.toml");
    assert!(lines[2].starts_with("Effective discovery: roots HOME fallback; depth "));
    assert_eq!(lines[5], "Configured targets: 1");
    assert_eq!(lines.len(), 10);
    config.discovery.local_roots = vec!["/a".to_owned(), "/b".to_owned()];
    assert!(setup_lines(&config, "", "")[2].contains("roots /a, /b; depth "));
}

#[test]
fn a_sidebar_view_is_announced_with_its_group() {
    let group = OrchestrationGroup {
        id: "build-group".parse().unwrap(),
        title: "Build group".parse().unwrap(),
        orchestrator_session_id: id(1),
        workers: Vec::new(),
    };
    let other: OrchestrationGroupId = "other-group".parse().unwrap();
    let state = State {
        version: State::CURRENT_VERSION,
        sessions: Vec::new(),
        orchestration_groups: vec![group.clone()],
    };
    assert_eq!(
        view_notice(&state, &group.id, AgentViewFilter::All, &Ok(())),
        "Agents sidebar now shows group for Build group; open members to add them"
    );
    assert_eq!(
        view_notice(&state, &other, AgentViewFilter::Remote, &Ok(())),
        "Agents sidebar view applied"
    );
    assert_eq!(
        view_notice(
            &state,
            &group.id,
            AgentViewFilter::NeedsAttention,
            &Err(Failure::new("refused".to_owned()))
        ),
        "Could not apply Agents sidebar view; previous view was preserved"
    );
}
