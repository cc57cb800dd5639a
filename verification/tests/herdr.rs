//! Herdr as it is asked, and what it answers.

use herdr_tether::backend::CommandSpec;
use herdr_tether::failure::Failure;
use herdr_tether::herdr::{
    placed_command_with_paths, placement_pane_id, placement_workspace_id, EnvValue, HerdrClient,
    HerdrContext, HerdrEnvironment, InvocationLocation, PluginPath,
};
use herdr_tether::herdr_place::{CheckStep, RecheckStep};
use herdr_tether::herdr_reply::{
    is_attach_process, parse_herdr_version, process_info, ForegroundProcess, HerdrOutput,
};
use herdr_tether::herdr_socket::{
    duration_millis, encode_request, parse_version, prompt_error_confirms_no_delivery, stop_slices,
    BoundedLine, LineStep, PromptDeliveryError, MAX_REQUEST_BYTES,
};
use herdr_tether::json_text::parse_json;
use herdr_tether::model::Placement;
use herdr_tether::notices::{manager_launch_context, observe_context};
use herdr_tether::pane_title::{truncate_title, PaneTitle, MAX_PANE_TITLE_CHARS};
use herdr_tether::socket_client::HerdrSocketClient;

fn reply(stdout: &str) -> Result<HerdrOutput, Failure> {
    Ok(HerdrOutput {
        success: true,
        status: "exit status: 0".to_owned(),
        stdout: stdout.as_bytes().to_vec(),
        stderr: Vec::new(),
    })
}

fn context() -> HerdrContext {
    HerdrContext {
        binary: "/bin/herdr".to_owned(),
        pane_id: "w1:p1".to_owned(),
        workspace_id: "w1".to_owned(),
    }
}

fn environment() -> HerdrEnvironment {
    HerdrEnvironment {
        binary: Some("/bin/herdr".to_owned()),
        plugin_context: EnvValue::Missing,
        pane_id: EnvValue::Text("w1:p1".to_owned()),
        pane_id_fallback: EnvValue::Missing,
        workspace_id: EnvValue::Missing,
        workspace_id_fallback: EnvValue::Text("w1".to_owned()),
    }
}

#[test]
fn plugin_pane_context_targets_the_invoking_pane() {
    let context = r#"{"focused_pane_id":"w1:p1","invocation_source":"api"}"#;

    assert_eq!(placement_pane_id("w1:pF".to_owned(), Some(context)).unwrap(), "w1:p1");
    assert_eq!(
        placement_pane_id("w1:pF".to_owned(), Some("{}")).unwrap_err().message(),
        "Herdr plugin context did not report the invoking pane"
    );
    assert_eq!(
        placement_pane_id("w1:pF".to_owned(), Some(r#"{"focused_pane_id":null}"#))
            .unwrap_err()
            .message(),
        "Herdr plugin context did not report the invoking pane"
    );
    assert!(placement_pane_id("w1:pF".to_owned(), Some("{"))
        .unwrap_err()
        .message()
        .starts_with("decode HERDR_PLUGIN_CONTEXT_JSON"));
    assert_eq!(
        placement_pane_id("w1:pF".to_owned(), Some(r#"{"focused_pane_id":""}"#))
            .unwrap_err()
            .message(),
        "Herdr provided an empty HERDR_PLUGIN_CONTEXT_JSON focused_pane_id"
    );
    assert_eq!(placement_pane_id("w1:p2".to_owned(), None).unwrap(), "w1:p2");
}

#[test]
fn strict_plugin_context_never_falls_back_to_the_managed_pane() {
    let placements = std::cell::Cell::new(0);
    let result =
        HerdrContext::from_plugin_values("/bin/herdr".to_owned(), Some("w1".to_owned()), None)
            .inspect(|_| {
                placements.set(placements.get() + 1);
            });

    let error = result.unwrap_err().message();
    assert!(error.contains("HERDR_PLUGIN_CONTEXT_JSON"), "{error}");
    assert_eq!(placements.get(), 0, "missing plugin JSON must place no pane");
    assert_eq!(
        HerdrContext::from_plugin_values(
            "/bin/herdr".to_owned(),
            Some("w1".to_owned()),
            Some(r#"{"focused_pane_id":"w1:p1"}"#),
        )
        .unwrap()
        .pane_id,
        "w1:p1"
    );
    assert!(HerdrContext::from_plugin_values(
        "/bin/herdr".to_owned(),
        Some("w1".to_owned()),
        Some(r#"{"pane_id":"w1:pF"}"#),
    )
    .is_err());
}

#[test]
fn popup_context_uses_invoking_pane_without_managed_pane_env() {
    let context = HerdrContext::from_runtime_values(
        "/bin/herdr".to_owned(),
        None,
        None,
        Some(r#"{"workspace_id":"w1","focused_pane_id":"w1:p1"}"#),
    )
    .unwrap();

    assert_eq!(context.pane_id, "w1:p1");
    assert_eq!(context.workspace_id, "w1");
}

#[test]
fn parses_popup_capable_herdr_versions() {
    assert_eq!(parse_herdr_version(&b"herdr 0.7.3\n".to_vec()).unwrap(), (0, 7, 3));
    assert_eq!(parse_herdr_version(&b"herdr 0.7.4\n".to_vec()).unwrap(), (0, 7, 4));
    assert_eq!(parse_herdr_version(&b"herdr 1.0.0-preview\n".to_vec()).unwrap(), (1, 0, 0));
    assert!(parse_herdr_version(&b"unknown\n".to_vec()).is_err());
}

#[test]
fn attach_verification_unwraps_explicit_agent_hint() {
    let expected = CommandSpec::new(
        "env".to_owned(),
        vec![
            "HERDR_AGENT=codex".into(),
            "/usr/bin/tmux".into(),
            "attach-session".into(),
            "-t".into(),
            "=tether-session".into(),
        ],
    );
    let process = ForegroundProcess {
        pid: 42,
        name: "tmux".into(),
        argv: vec![
            "/usr/bin/tmux".into(),
            "attach-session".into(),
            "-t".into(),
            "=tether-session".into(),
        ],
    };

    assert!(is_attach_process(&process, &expected));
}

#[test]
fn pane_title_preserves_an_exactly_full_budget() {
    let exact = "x".repeat(MAX_PANE_TITLE_CHARS);
    assert_eq!(truncate_title(exact.clone()), exact);

    let over = truncate_title("x".repeat(MAX_PANE_TITLE_CHARS + 1));
    assert_eq!(over.chars().count(), MAX_PANE_TITLE_CHARS);
    assert!(over.ends_with('…'));
    assert_eq!(
        PaneTitle::owned("local", "/srv/project", None, Some("exec ${SHELL:-/bin/sh}")).as_str(),
        "project",
    );
}

#[test]
fn placed_command_forwards_exact_plugin_paths_without_recursive_placement() {
    let command = CommandSpec::new(
        "/plugin root/herdr-tether".to_owned(),
        vec!["session".to_owned(), "resume".to_owned(), "tether-id".to_owned()],
    );

    assert_eq!(
        placed_command_with_paths(
            &command,
            &vec![
                PluginPath {
                    name: "HERDR_PLUGIN_CONFIG_DIR".to_owned(),
                    value: "/config path/$literal".to_owned(),
                },
                PluginPath {
                    name: "HERDR_PLUGIN_STATE_DIR".to_owned(),
                    value: "/state path/$(literal)".to_owned(),
                },
            ],
        ),
        CommandSpec::new(
            "env".to_owned(),
            vec![
                "-u".to_owned(),
                "HERDR_BIN_PATH".to_owned(),
                "-u".to_owned(),
                "TMUX".to_owned(),
                "HERDR_PLUGIN_CONFIG_DIR=/config path/$literal".to_owned(),
                "HERDR_PLUGIN_STATE_DIR=/state path/$(literal)".to_owned(),
                "/plugin root/herdr-tether".to_owned(),
                "session".to_owned(),
                "resume".to_owned(),
                "tether-id".to_owned(),
            ],
        )
    );
}

#[test]
fn replacement_readiness_requires_the_expected_attach_target() {
    let process = |name: &str, argv: &[&str]| ForegroundProcess {
        pid: 42,
        name: name.to_owned(),
        argv: argv.iter().map(|argument| (*argument).to_owned()).collect(),
    };
    let owned = CommandSpec::new(
        "/usr/bin/tmux".to_owned(),
        vec![
            "if-shell".to_owned(),
            "-t".to_owned(),
            "$7".to_owned(),
            "-F".to_owned(),
            "#{&&:proof-and-identity}".to_owned(),
            "set-option -t $7 mouse on ; attach-session -t $7".to_owned(),
            "display-message -p TETHER_OWNERSHIP_GUARD_REJECTED ; run-shell 'exit 75'".to_owned(),
        ],
    );
    let external = CommandSpec::new(
        "/plugin/herdr-tether".to_owned(),
        vec![
            "session".to_owned(),
            "attach-external".to_owned(),
            "--target".to_owned(),
            "builder".to_owned(),
            "--".to_owned(),
            "work box".to_owned(),
        ],
    );

    assert!(is_attach_process(
        &process(
            "tmux: client",
            &[
                "/usr/bin/tmux",
                "if-shell",
                "-t",
                "$7",
                "-F",
                "#{&&:proof-and-identity}",
                "set-option -t $7 mouse on ; attach-session -t $7",
                "display-message -p TETHER_OWNERSHIP_GUARD_REJECTED ; run-shell 'exit 75'",
            ],
        ),
        &owned,
    ));
    assert!(is_attach_process(
        &process(
            "ssh",
            &["/usr/bin/ssh", "--", "builder", "'tmux' 'attach-session' '-t' '=work box'"]
        ),
        &external
    ));
    assert!(!is_attach_process(&process("sh", &["sh", "-c", "echo attach-session"]), &owned));
    assert!(!is_attach_process(
        &process(
            "tmux",
            &[
                "tmux",
                "if-shell",
                "-t",
                "$8",
                "-F",
                "#{&&:proof-and-identity}",
                "set-option -t $8 mouse on ; attach-session -t $8",
                "display-message -p TETHER_OWNERSHIP_GUARD_REJECTED ; run-shell 'exit 75'",
            ],
        ),
        &owned,
    ));
    assert!(!is_attach_process(&process("tmux", &["tmux"]), &owned));
}

#[test]
fn versions_gate_mission_control_at_075() {
    assert_eq!(parse_version("0.7.5").unwrap(), (0, 7, 5));
    assert_eq!(parse_version("v0.7.5-preview").unwrap(), (0, 7, 5));
    assert!(parse_version("0.7").is_err());
}

#[test]
fn a_version_that_cannot_be_read_is_explained() {
    let told = |text: &str| parse_version(text).unwrap_err().message();
    assert_eq!(told("1"), "Herdr version did not contain a minor component");
    assert_eq!(told("v1.2-rc.3"), "Herdr version did not contain a patch component");
    assert_eq!(told("1.2.3.4"), "Herdr version contained too many components");
    assert_eq!(told("one"), "invalid digit found in string");
    assert_eq!(told(""), "cannot parse integer from empty string");
    assert_eq!(told("1.2.99999999999999999999"), "number too large to fit in target type");
    assert_eq!(told("1.x"), "invalid digit found in string");
}

#[test]
fn prompt_error_classification_is_conservative() {
    assert!(prompt_error_confirms_no_delivery("agent_not_running"));
    assert!(!prompt_error_confirms_no_delivery("timeout"));
    assert!(!prompt_error_confirms_no_delivery("agent_prompt_stalled"));
    assert!(!prompt_error_confirms_no_delivery("unknown"));
}

/// The line that some bytes begin with, read in chunks of a size.
fn line_of(bytes: &[u8], limit: usize, chunk: usize) -> Result<Option<Vec<u8>>, Failure> {
    let mut line = BoundedLine::new(limit);
    let mut rest = bytes;
    loop {
        let available = &rest[..rest.len().min(chunk)];
        match line.read_bounded_line(&available.to_vec())? {
            LineStep::More(used) => rest = &rest[used..],
            LineStep::Line(whole, _) => return Ok(Some(whole)),
            LineStep::Closed => return Ok(None),
        }
    }
}

#[test]
fn bounded_line_rejects_oversize_and_partial_records() {
    assert_eq!(line_of(b"ok\nrest", 3, 64).unwrap(), Some(b"ok\n".to_vec()));
    assert!(line_of(b"toolong\n", 4, 64).is_err());
    assert!(line_of(b"partial", 16, 64).is_err());
}

#[test]
fn lines_do_not_depend_on_how_they_arrive() {
    for chunk in 1..8 {
        assert_eq!(line_of(b"ok\nrest", 3, chunk).unwrap(), Some(b"ok\n".to_vec()));
        assert!(line_of(b"toolong\n", 4, chunk).is_err());
        assert!(line_of(b"partial", 16, chunk).is_err());
    }
    assert_eq!(line_of(b"", 16, 4).unwrap(), None);
}

#[test]
fn requests_are_one_bounded_line() {
    let request = encode_request("1", "ping", "{\"a\":1}").unwrap();
    assert_eq!(request, b"{\"id\":\"1\",\"method\":\"ping\",\"params\":{\"a\":1}}\n");
    assert_eq!(
        encode_request("1", "ping", &"x".repeat(MAX_REQUEST_BYTES)).unwrap_err().message(),
        format!("Herdr socket request exceeded {MAX_REQUEST_BYTES} bytes")
    );
    let quoted = encode_request("a\"\n", "m", "{}").unwrap();
    assert_eq!(quoted, b"{\"id\":\"a\\\"\\n\",\"method\":\"m\",\"params\":{}}\n");
}

#[test]
fn long_waits_are_cut_into_slices() {
    assert_eq!(stop_slices(0), 0);
    assert_eq!(stop_slices(20), 1);
    assert_eq!(stop_slices(21), 2);
    assert_eq!(duration_millis(7), 7);
    assert_eq!(duration_millis(u128::MAX), u64::MAX);
}

#[test]
fn undelivered_prompts_say_why() {
    let rejected = PromptDeliveryError::Rejected {
        code: "permission_denied".to_owned(),
        message: "no".to_owned(),
    };
    assert_eq!(
        rejected.message(),
        "Herdr rejected the prompt before delivery: permission_denied: no"
    );
    assert_eq!(
        PromptDeliveryError::Uncertain.message(),
        "prompt delivery outcome is uncertain; Tether will not retry automatically"
    );
}

#[test]
fn a_context_is_read_from_the_environment() {
    assert_eq!(HerdrContext::from_env(&environment()).unwrap(), context());
    let mut unnamed = environment();
    unnamed.binary = None;
    assert!(HerdrContext::from_env(&unnamed)
        .unwrap_err()
        .message()
        .contains("HERDR_BIN_PATH"));
    let mut garbled = environment();
    garbled.pane_id = EnvValue::NotUnicode;
    assert!(HerdrContext::from_env(&garbled).is_err());
    let failure = manager_launch_context(&environment()).unwrap_err();
    assert_eq!(failure.message(), "Observer must be launched from the Tether plugin pane");
    assert_eq!(observe_context(&environment()).unwrap(), context());
    assert_eq!(
        observe_context(&unnamed).unwrap_err().message(),
        "orchestration observe must be launched from a Herdr pane"
    );
}

#[test]
fn the_workspace_comes_from_the_environment_or_the_plugin_context() {
    assert_eq!(placement_workspace_id(Some("w1".to_owned()), None).unwrap(), "w1");
    assert_eq!(placement_workspace_id(None, Some(r#"{"workspace_id":"w2"}"#)).unwrap(), "w2");
    assert!(placement_workspace_id(None, None).is_err());
}

#[test]
fn the_directory_of_an_invocation_is_read_from_the_plugin_context() {
    let location = InvocationLocation::from_plugin_context_json(Some(
        r#"{"focused_pane_cwd":"/srv/app"}"#,
    ));
    assert_eq!(location.map(|found| found.directory().to_owned()).as_deref(), Some("/srv/app"));
    assert!(InvocationLocation::from_plugin_context_json(Some("{}")).is_none());
    assert!(InvocationLocation::from_plugin_context_json(Some("{")).is_none());
    assert!(InvocationLocation::from_plugin_context_json(None).is_none());
}

#[test]
fn a_command_is_placed_in_a_pane_of_its_own() {
    let start =
        HerdrClient::new(context()).place_with_destination(Placement::SplitRight).unwrap();
    let arguments = start.arguments();
    assert_eq!(arguments[..2], ["pane", "split"]);
    assert!(arguments.contains(&"right".to_owned()));
    let build = start
        .created(reply(r#"{"result":{"type":"pane_info","pane":{"pane_id":"w1:p9"}}}"#))
        .unwrap();
    assert_eq!(build.context().pane_id, "w1:p9");
    let command = CommandSpec::new("/usr/bin/tmux".to_owned(), vec!["attach-session".to_owned()]);
    let launch = build.built(Ok(command)).unwrap();
    assert_eq!(launch.pane_id(), "w1:p9");
    let placed = launch.ran(reply("")).unwrap();
    assert_eq!(placed.pane_id, "w1:p9");
    assert_eq!(placed.warning, None);
}

#[test]
fn a_pane_that_cannot_run_its_command_is_closed_again() {
    let start =
        HerdrClient::new(context()).place_with_destination(Placement::NewTab).unwrap();
    assert_eq!(start.arguments()[..2], ["tab", "create"]);
    let build = start
        .created(reply(
            r#"{"result":{"type":"tab_created","root_pane":{"pane_id":"w1:p9"}}}"#,
        ))
        .unwrap();
    let failed = build.built(Err(Failure::new("no program".to_owned()))).unwrap_err();
    assert_eq!(failed.pane_id(), "w1:p9");
    assert!(failed.cleaned(reply("")).detail().contains("no program"));
    assert!(HerdrClient::new(context())
        .place_with_destination(Placement::ReplaceCurrentPane)
        .is_err());
}

fn running(pane: &str, argv: &str) -> Result<HerdrOutput, Failure> {
    reply(&format!(
        r#"{{"result":{{"type":"pane_process_info","process_info":{{"pane_id":"{pane}","foreground_processes":[{{"pid":7,"name":"vim","argv":{argv}}}]}}}}}}"#
    ))
}

#[test]
fn processes_are_read_from_a_reply() {
    let output = running("w1:p1", r#"["vim","notes"]"#).unwrap();
    let nodes = parse_json(&output.stdout).unwrap();
    let inspection = process_info(&nodes, "w1:p1").unwrap();
    assert_eq!(inspection.foreground_processes[0].argv, ["vim", "notes"]);
    assert_eq!(
        process_info(&nodes, "w1:p2").unwrap_err().message(),
        "Herdr inspected pane `w1:p1`, not requested pane `w1:p2`"
    );
}

#[test]
fn a_source_pane_that_changed_is_preserved() {
    let client = HerdrClient::new(context());
    let replacement = client
        .replace_current_with_destination(running("w1:p1", r#"["vim","notes"]"#))
        .unwrap();
    let build = replacement
        .created(reply(r#"{"result":{"type":"pane_info","pane":{"pane_id":"w1:p9"}}}"#))
        .unwrap();
    let command =
        CommandSpec::new("vim".to_owned(), vec!["attach-session".to_owned(), "-t".to_owned()]);
    let launch = build.built(Ok(command)).unwrap();
    let check = launch.ran(reply("")).unwrap();
    match check.observed(running("w1:p9", r#"["vim","attach-session","-t"]"#)) {
        CheckStep::Ready(ready) => {
            match ready.rechecked(running("w1:p1", r#"["vim","other"]"#)) {
                RecheckStep::Done(placed) => {
                    assert_eq!(placed.pane_id, "w1:p9");
                    assert!(placed.warning.is_some());
                }
                _ => panic!("a changed pane must be preserved"),
            }
        }
        _ => panic!("the command runs in its pane"),
    }
}

#[test]
fn a_socket_client_needs_a_path() {
    assert!(HerdrSocketClient::from_env(None).is_err());
    assert!(HerdrSocketClient::from_env(Some("/run/herdr.sock".to_owned())).is_ok());
}

#[test]
fn a_given_command_is_placed_without_being_built() {
    let command = CommandSpec::new("/usr/bin/tmux".to_owned(), vec!["attach-session".to_owned()]);
    let placement = HerdrClient::new(context()).place(command.clone(), Placement::SplitDown).unwrap();
    assert!(placement.start().arguments().contains(&"down".to_owned()));
    let launch = placement
        .created(reply(r#"{"result":{"type":"pane_info","pane":{"pane_id":"w1:p9"}}}"#))
        .unwrap();
    assert_eq!(launch.pane_id(), "w1:p9");
    assert_eq!(launch.command(), &command);
    assert!(HerdrClient::new(context())
        .place(command.clone(), Placement::ReplaceCurrentPane)
        .is_err());

    let replacement = HerdrClient::new(context())
        .replace_current(command.clone(), running("w1:p1", r#"["vim","notes"]"#))
        .unwrap();
    assert!(replacement.replacement().arguments().contains(&"right".to_owned()));
    let launch = replacement
        .created(reply(r#"{"result":{"type":"pane_info","pane":{"pane_id":"w1:p9"}}}"#))
        .unwrap();
    assert_eq!(launch.command(), &command);
}
