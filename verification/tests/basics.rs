//! Texts, names, identities, instants and the health of an installation.

use herdr_tether::backend::CommandSpec;
use herdr_tether::clock::Timestamp;
use herdr_tether::config::Config;
use herdr_tether::doctor::{
    concise_probe_detail, doctor_checks, doctor_human, doctor_outcome, doctor_report,
    output_detail, preflight_runtime_tool, report_context, report_herdr_protocol, DoctorStatus,
    Examination, FileFinding, ProtocolProbe, ProtocolRange, ToolFinding, ToolProbe,
};
use herdr_tether::failure::Failure;
use herdr_tether::fields::{cut_at, is_older, parse_number, split_on};
use herdr_tether::herdr::{EnvValue, HerdrEnvironment};
use herdr_tether::lifecycle::CloseOutcome;
use herdr_tether::model::{
    ExternalSessionName, HerdrAgentKind, OrchestrationGroupId, OrchestrationMembershipId,
    OrchestrationTitle, OwnershipProof, SessionId, TmuxSessionId,
};
use herdr_tether::pane_title::{
    command_basename, directory_leaf, sanitize_title_component, PaneTitle, MAX_PANE_TITLE_CHARS,
};
use herdr_tether::text::{
    collapse_whitespace, contains_text, decimal, is_control, is_white_space, parse_decimal,
    replace_all, shorten, signed_decimal, split_words, trim,
};
use herdr_tether::transport::{
    bounded_transport_error, close_outcome, sanitize_transport_detail, BoundedOutput,
};

#[test]
fn characters_are_classified_as_the_standard_library_does() {
    for c in '\0'..=char::MAX {
        assert_eq!(is_control(c), c.is_control(), "{c:?}");
        assert_eq!(is_white_space(c), c.is_whitespace(), "{c:?}");
    }
}

#[test]
fn texts_are_handled_as_the_standard_library_does() {
    for text in ["", " ", "a", " a b ", "\u{3000}x\u{85}", "a\n\tb  c", "é ü"] {
        assert_eq!(trim(text), text.trim(), "{text:?}");
        let words: Vec<&str> = text.split_whitespace().collect();
        assert_eq!(split_words(text), words, "{text:?}");
        assert_eq!(collapse_whitespace(text), words.join(" "));
        assert_eq!(replace_all(text, " ", "--"), text.replace(' ', "--"));
        assert_eq!(contains_text(text, "b "), text.contains("b "));
        assert_eq!(split_on(text, ' '), text.split(' ').collect::<Vec<_>>());
        assert_eq!(cut_at(text, 'b'), text.split('b').next().unwrap());
    }
    for number in [0, 7, 10, 255, u64::MAX] {
        assert_eq!(decimal(number), number.to_string());
        assert_eq!(parse_decimal(&number.to_string()), Some(number));
    }
    for number in [0, -1, i32::MIN, i32::MAX] {
        assert_eq!(signed_decimal(number), number.to_string());
    }
    for text in ["", "+", "+5", "-5", "007", "18446744073709551615", "18446744073709551616", "1 "] {
        assert_eq!(parse_number(text), text.parse::<u64>().ok(), "{text:?}");
    }
    assert_eq!(shorten("abcdef", 3), "abc…");
    assert_eq!(shorten("abc", 3), "abc");
    assert!(is_older((0, 7, 4), (0, 7, 5)) && !is_older((0, 8, 0), (0, 7, 5)));
}

#[test]
fn sessions_are_named_by_their_uuid() {
    let one = SessionId::new();
    let other = SessionId::new();
    assert_ne!(one, other);
    assert_eq!(one.to_string().parse::<SessionId>().unwrap(), one);
    assert!(one.to_string().starts_with("tether-"));
    assert_eq!(one.reference_token(SessionId::SHORT_REFERENCE_WIDTH).len(), 8);
    assert_ne!(one.reference_token(32), other.reference_token(32));
    assert_eq!(uuid::Uuid::from_u128(one.as_uuid()).get_version_num(), 7);
    for wrong in [
        "tether-0197F198000070008000000000000001",
        "tether-0197f198000040008000000000000001",
        "0197f198000070008000000000000001",
        "tether-0197f19800007000800000000000000",
        "tether-0197f198-0000-7000-8000-000000000001",
    ] {
        let error = wrong.parse::<SessionId>().unwrap_err();
        assert!(error.message().contains(wrong), "{}", error.message());
    }
}

#[test]
fn identities_read_back_as_they_are_written() {
    let proof = OwnershipProof::new();
    assert_eq!(proof.to_string().parse::<OwnershipProof>().unwrap(), proof);
    assert_eq!(proof.to_string(), uuid::Uuid::parse_str(&proof.to_string()).unwrap().simple().to_string());
    assert!("zz".parse::<OwnershipProof>().is_err());
    let membership = OrchestrationMembershipId::new();
    assert_eq!(
        membership.to_string().parse::<OrchestrationMembershipId>().unwrap(),
        membership
    );
    assert!("0197f198000040008000000000000011".parse::<OrchestrationMembershipId>().is_err());
    for text in ["$0", "$7", "$18446744073709551615"] {
        assert_eq!(text.parse::<TmuxSessionId>().unwrap().to_string(), text);
    }
    for wrong in ["", "7", "$", "$-1", "$18446744073709551616", "$1x"] {
        assert!(wrong.parse::<TmuxSessionId>().is_err(), "{wrong}");
    }
}

#[test]
fn names_are_held_to_their_shape() {
    assert!("build-group_2".parse::<OrchestrationGroupId>().is_ok());
    for wrong in ["", "-a", "a-", "a--b", "a-_b", "A", "2a", "a b", "a/b", "a.b"] {
        assert!(wrong.parse::<OrchestrationGroupId>().is_err(), "{wrong:?}");
    }
    assert!("a".repeat(64).parse::<OrchestrationGroupId>().is_ok());
    assert!("a".repeat(65).parse::<OrchestrationGroupId>().is_err());
    assert!("Build 1".parse::<OrchestrationTitle>().is_ok());
    for wrong in ["", " ", "a\nb", "Übung"] {
        assert!(wrong.parse::<OrchestrationTitle>().is_err(), "{wrong:?}");
    }
    assert!("x".repeat(129).parse::<OrchestrationTitle>().is_err());
    assert!("work box".parse::<ExternalSessionName>().is_ok());
    for wrong in ["", "a\u{7}", "a\u{202e}"] {
        assert!(wrong.parse::<ExternalSessionName>().is_err(), "{wrong:?}");
    }
    assert_eq!("codex".parse::<HerdrAgentKind>().unwrap().as_str(), "codex");
}

#[test]
fn instants_are_those_of_the_calendar() {
    let now = Timestamp::now();
    let day = now.earlier_by(86_400).unwrap();
    assert_eq!(day.secs, now.secs - 86_400);
    assert!(day.is_before(now) && !now.is_before(day));
    let first = Timestamp { secs: -8_334_601_228_800, nanos: 0 };
    assert_eq!(first.earlier_by(1), None);
    assert!(chrono::DateTime::from_timestamp(first.secs, 0).is_some());
    assert!(chrono::DateTime::from_timestamp(first.secs - 1, 0).is_none());
    assert!(chrono::DateTime::from_timestamp(8_210_266_876_799, 0).is_some());
    assert!(chrono::DateTime::from_timestamp(8_210_266_876_800, 0).is_none());
}

#[test]
fn titles_hold_no_part_twice() {
    assert_eq!(
        PaneTitle::owned("build", "/srv/build", Some("build"), None).as_str(),
        "build"
    );
    assert_eq!(PaneTitle::owned("local", "/", None, None).as_str(), "/");
    assert_eq!(PaneTitle::owned("local", " ", None, None), PaneTitle::fallback());
    assert_eq!(PaneTitle::external("build", "work").as_str(), "build · work");
    assert_eq!(PaneTitle::observer("Atlas").as_str(), "Observer · Atlas");
    assert_eq!(sanitize_title_component("a\u{1b}b").as_deref(), Some("a b"));
    assert_eq!(sanitize_title_component(" \n"), None);
    assert_eq!(directory_leaf("/srv/app/").as_deref(), Some("app"));
    assert_eq!(command_basename("exec env A=1 /usr/bin/htop -x").as_deref(), Some("htop"));
    let long = PaneTitle::observer(&"x".repeat(500));
    assert!(long.as_str().chars().count() <= MAX_PANE_TITLE_CHARS);
}

#[test]
fn failures_tell_what_led_to_them() {
    let failure = Failure::new("disk full".to_owned())
        .context("save state".to_owned())
        .context("stop session".to_owned());
    assert_eq!(failure.message(), "stop session");
    assert_eq!(failure.detail(), "stop session: save state: disk full");
    assert!(failure.mentions("save state") && !failure.mentions("save"));
    assert_eq!(failure.clone(), failure);
}

#[test]
fn transport_errors_hide_the_proof() {
    let proof: OwnershipProof = "0197f198000070008000000000000002".parse().unwrap();
    let detail =
        sanitize_transport_detail("bad 0197f198000070008000000000000002\n here", &proof);
    assert!(!detail.contains("0197f198000070008000000000000002"), "{detail}");
    assert_eq!(
        bounded_transport_error(&BoundedOutput::TimedOut, &proof),
        "transport timed out after 3 seconds"
    );
    let ended = |success: bool, stdout: &str| BoundedOutput::Completed {
        success,
        status: "exit status: 1".to_owned(),
        stdout: stdout.to_owned(),
        stdout_truncated: false,
        stderr: String::new(),
        stderr_truncated: false,
    };
    assert_eq!(close_outcome(ended(true, ""), "GUARD", &proof), CloseOutcome::Closed);
    assert_eq!(
        close_outcome(ended(false, "GUARD"), "GUARD", &proof),
        CloseOutcome::GuardRejected
    );
    assert!(matches!(
        close_outcome(ended(false, ""), "GUARD", &proof),
        CloseOutcome::Failed(_)
    ));
}

const KNOWN: ProtocolRange = ProtocolRange { minimum: 15, audited: 17 };

fn tool(probe: ToolProbe) -> ToolFinding {
    ToolFinding { program: "/usr/bin/tool".to_owned(), probe }
}

fn environment() -> HerdrEnvironment {
    HerdrEnvironment {
        binary: None,
        plugin_context: EnvValue::Missing,
        pane_id: EnvValue::Missing,
        pane_id_fallback: EnvValue::Missing,
        workspace_id: EnvValue::Missing,
        workspace_id_fallback: EnvValue::Missing,
    }
}

fn healthy() -> Examination {
    Examination {
        config_file: "/c".to_owned(),
        config: FileFinding::Usable,
        state_file: "/s".to_owned(),
        state: FileFinding::Usable,
        tmux: tool(ToolProbe::Succeeded),
        ssh: tool(ToolProbe::Succeeded),
        cargo: tool(ToolProbe::Succeeded),
        herdr: tool(ToolProbe::Succeeded),
        protocol: ProtocolProbe::NoSocket,
        known: KNOWN,
        environment: environment(),
    }
}

#[test]
fn a_healthy_installation_passes_in_both_reports() {
    let checks = doctor_checks(&healthy());
    let names: Vec<&str> = checks.iter().map(|check| check.name).collect();
    assert_eq!(
        names,
        ["config", "state", "tmux", "ssh", "cargo", "herdr", "herdr_protocol", "herdr_context"]
    );
    let report = doctor_report(checks);
    assert_eq!((report.completion, report.failure_count), ("complete", 0));
    let (lines, failures) = doctor_human(&healthy());
    assert_eq!(failures, 0);
    assert_eq!(lines[0], "config /c: ok");
    assert_eq!(lines[7], "Herdr protocol: not checked (HERDR_SOCKET_PATH not provided)");
    assert!(doctor_outcome(0).is_ok());
}

#[test]
fn failures_are_counted_alike_in_both_reports() {
    let mut examination = healthy();
    examination.config = FileFinding::Missing;
    examination.state = FileFinding::Unusable("bad version".to_owned());
    examination.tmux.probe = ToolProbe::NotFound;
    examination.ssh.probe = ToolProbe::Ended {
        status: "exit status: 2".to_owned(),
        stdout: b"ignored".to_vec(),
        stdout_truncated: false,
        stderr: b"no\x07 such\n file \xff".to_vec(),
        stderr_truncated: false,
    };
    examination.cargo.probe = ToolProbe::PermissionDenied;
    examination.herdr.probe = ToolProbe::TimedOut;
    examination.protocol = ProtocolProbe::Observed(14);
    examination.environment.pane_id = EnvValue::Text("w1:p1".to_owned());
    let report = doctor_report(doctor_checks(&examination));
    let (lines, failures) = doctor_human(&examination);
    assert_eq!(report.failure_count, 8);
    assert_eq!(failures, 8);
    assert_eq!(report.completion, "failed");
    let diagnostics: Vec<Option<&str>> =
        report.checks.iter().map(|check| check.diagnostic).collect();
    assert_eq!(
        diagnostics,
        [
            Some("not_found"),
            Some("invalid_data"),
            Some("not_found"),
            Some("nonzero_exit"),
            Some("permission_denied"),
            Some("timeout"),
            Some("protocol_too_old"),
            Some("missing_context"),
        ]
    );
    assert_eq!(report.checks[6].observed_protocol, Some(14));
    assert_eq!(
        lines[3],
        "/usr/bin/tool: failed (exit status: 2; no such file \u{fffd}); verify the executable works with `/usr/bin/tool`"
    );
    assert_eq!(lines[7], "Herdr protocol: 14 unsupported; requires 15+");
    assert_eq!(
        lines[8],
        "Herdr context: incomplete (missing HERDR_WORKSPACE_ID, HERDR_BIN_PATH; invoke Tether through a Herdr plugin action)"
    );
    assert_eq!(doctor_outcome(8).unwrap_err().message(), "doctor found 8 required failures");
    assert_eq!(doctor_outcome(1).unwrap_err().message(), "doctor found 1 required failure");
}

#[test]
fn protocols_are_told_by_what_they_are_worth() {
    assert_eq!(
        report_herdr_protocol(ProtocolProbe::Observed(16), KNOWN),
        ("Herdr protocol: 16 audited".to_owned(), true)
    );
    let (line, works) = report_herdr_protocol(ProtocolProbe::Observed(18), KNOWN);
    assert!(line.starts_with("Herdr protocol: 18 newer than audited 17;") && works);
    assert!(!report_herdr_protocol(ProtocolProbe::Unavailable, KNOWN).1);
    assert!(!report_herdr_protocol(ProtocolProbe::TimedOut, KNOWN).1);
    assert!(!report_herdr_protocol(ProtocolProbe::EmptySocket, KNOWN).1);
    let mut plugin = environment();
    plugin.binary = Some("/bin/herdr".to_owned());
    plugin.pane_id = EnvValue::Text("w1:p1".to_owned());
    plugin.workspace_id_fallback = EnvValue::Text("w1".to_owned());
    assert_eq!(
        report_context(&plugin),
        (DoctorStatus::Good, "Herdr context: w1:p1 in workspace w1".to_owned())
    );
}

#[test]
fn output_of_tools_is_shown_on_one_short_line() {
    assert_eq!(output_detail("", false), None);
    assert_eq!(output_detail("\n\u{7}", true).as_deref(), Some("output exceeded 64 KiB"));
    assert_eq!(output_detail("a\tb", true).as_deref(), Some("a b…"));
    let long = output_detail(&"x".repeat(300), false).unwrap();
    assert_eq!(long.chars().count(), 241);
    assert_eq!(concise_probe_detail(&b"a\xffb".to_vec(), false).as_deref(), Some("a\u{fffd}b"));
    assert!(preflight_runtime_tool("tmux", &ToolProbe::Succeeded).is_ok());
    assert_eq!(
        preflight_runtime_tool("tmux", &ToolProbe::Lost).unwrap_err().message(),
        "setup prerequisite unavailable: tmux; install tmux and retry"
    );
}

#[test]
fn commands_are_copied_whole() {
    let command = CommandSpec::new("a".to_owned(), vec!["b".to_owned()]);
    assert_eq!(command.clone(), command);
    assert_eq!(Config::default(), Config::default());
}
