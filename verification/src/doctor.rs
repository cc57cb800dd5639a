//! The health of an installation: what each check found, and what is said of it.

use vstd::prelude::*;
use vstd::string::*;

use crate::failure::{plain, Failure};
use crate::herdr::{EnvValue, HerdrEnvironment};
use crate::text::{
    blank, chars_of, collapse_whitespace, collapsed, control, decimal, is_blank, is_control, join,
    joined, lossy, lossy_text, numeral, opt_view, text_between, views,
};

verus! {

/// What a check found.
#[derive(Clone, Copy, Debug, PartialEq, Eq, Structural)]
pub enum DoctorStatus {
    Good,
    Advisory,
    NotChecked,
    Unsupported,
    Missing,
    Unusable,
    Failed,
    TimedOut,
    PermissionDenied,
    Unavailable,
    Incomplete,
    Standalone,
}

/// A finding with which an installation works.
pub open spec fn passes(status: DoctorStatus) -> bool {
    status == DoctorStatus::Good || status == DoctorStatus::Advisory || status
        == DoctorStatus::NotChecked || status == DoctorStatus::Standalone
}

/// The word for what is wrong, where something is.
pub open spec fn diagnosis(status: DoctorStatus) -> Option<Seq<char>> {
    match status {
        DoctorStatus::Good | DoctorStatus::Standalone => None,
        DoctorStatus::Advisory => Some("newer_protocol_unverified"@),
        DoctorStatus::NotChecked => Some("socket_not_provided"@),
        DoctorStatus::Unsupported => Some("protocol_too_old"@),
        DoctorStatus::Missing => Some("not_found"@),
        DoctorStatus::Unusable => Some("invalid_data"@),
        DoctorStatus::Failed => Some("nonzero_exit"@),
        DoctorStatus::TimedOut => Some("timeout"@),
        DoctorStatus::PermissionDenied => Some("permission_denied"@),
        DoctorStatus::Unavailable => Some("io_error"@),
        DoctorStatus::Incomplete => Some("missing_context"@),
    }
}

/// One check with its finding.
#[derive(Debug, PartialEq, Eq)]
pub struct DoctorCheck {
    pub name: &'static str,
    pub status: DoctorStatus,
    pub required: bool,
    pub diagnostic: Option<&'static str>,
    pub truncated: bool,
    pub observed_protocol: Option<u32>,
}

/// The contents of an optional word.
pub open spec fn word_view(word: Option<&'static str>) -> Option<Seq<char>> {
    match word {
        Some(word) => Some(word@),
        None => None,
    }
}

/// A check with its finding.
pub fn doctor_check(name: &'static str, status: DoctorStatus, required: bool) -> (check: DoctorCheck)
    ensures
        check.name == name,
        check.status == status,
        check.required == required,
        word_view(check.diagnostic) == diagnosis(status),
        !check.truncated,
        check.observed_protocol is None,
{
    let diagnostic: Option<&'static str> = match status {
        DoctorStatus::Good | DoctorStatus::Standalone => None,
        DoctorStatus::Advisory => Some("newer_protocol_unverified"),
        DoctorStatus::NotChecked => Some("socket_not_provided"),
        DoctorStatus::Unsupported => Some("protocol_too_old"),
        DoctorStatus::Missing => Some("not_found"),
        DoctorStatus::Unusable => Some("invalid_data"),
        DoctorStatus::Failed => Some("nonzero_exit"),
        DoctorStatus::TimedOut => Some("timeout"),
        DoctorStatus::PermissionDenied => Some("permission_denied"),
        DoctorStatus::Unavailable => Some("io_error"),
        DoctorStatus::Incomplete => Some("missing_context"),
    };
    DoctorCheck { name, status, required, diagnostic, truncated: false, observed_protocol: None }
}

/// Whether an installation works with a finding.
pub fn doctor_status_passes(status: DoctorStatus) -> (r: bool)
    ensures
        r == passes(status),
{
    match status {
        DoctorStatus::Good | DoctorStatus::Advisory | DoctorStatus::NotChecked
        | DoctorStatus::Standalone => true,
        _ => false,
    }
}

/// The number of required checks that an installation does not work with.
pub open spec fn required_failures(checks: Seq<DoctorCheck>) -> nat
    decreases checks.len(),
{
    if checks.len() == 0 {
        0
    } else {
        required_failures(checks.drop_last()) + if checks.last().required && !passes(
            checks.last().status,
        ) {
            1nat
        } else {
            0nat
        }
    }
}

/// The number of required checks that an installation does not work with.
pub fn count_failures(checks: &Vec<DoctorCheck>) -> (failures: usize)
    ensures
        failures == required_failures(checks@),
{
    let mut failures: usize = 0;
    let mut i: usize = 0;
    while i < checks.len()
        invariant
            failures <= i <= checks@.len(),
            failures == required_failures(checks@.take(i as int)),
        decreases checks.len() - i,
    {
        assert(checks@.take(i + 1).drop_last() =~= checks@.take(i as int));
        assert(checks@.take(i + 1).last() == checks@[i as int]);
        if checks[i].required && !doctor_status_passes(checks[i].status) {
            failures += 1;
        }
        i += 1;
    }
    assert(checks@.take(i as int) =~= checks@);
    failures
}

/// Everything that was checked.
#[derive(Debug, PartialEq, Eq)]
pub struct DoctorReport {
    pub schema_version: u8,
    pub completion: &'static str,
    pub checks: Vec<DoctorCheck>,
    pub failure_count: usize,
    pub truncated: bool,
}

/// The report on some checks.
pub fn doctor_report(checks: Vec<DoctorCheck>) -> (report: DoctorReport)
    ensures
        report.schema_version == 1,
        report.checks == checks,
        report.failure_count == required_failures(checks@),
        report.completion@ == if required_failures(checks@) == 0 {
            "complete"@
        } else {
            "failed"@
        },
        !report.truncated,
{
    let failure_count: usize = count_failures(&checks);
    DoctorReport {
        schema_version: 1,
        completion: if failure_count == 0 {
            "complete"
        } else {
            "failed"
        },
        checks,
        failure_count,
        truncated: false,
    }
}

/// The failure of an examination that found some required failures.
pub open spec fn failures_text(failures: nat) -> Seq<char> {
    "doctor found "@ + numeral(failures) + " required failure"@ + if failures == 1 {
        ""@
    } else {
        "s"@
    }
}

/// The outcome of an examination.
pub fn doctor_outcome(failures: usize) -> (r: Result<(), Failure>)
    ensures
        failures == 0 ==> r is Ok,
        failures != 0 ==> r is Err && r->Err_0@ == plain(failures_text(failures as nat)),
{
    if failures == 0 {
        return Ok(());
    }
    let ending = if failures == 1 {
        ""
    } else {
        "s"
    };
    Err(
        Failure::new(
            "doctor found ".to_owned().concat(decimal(failures as u64).as_str()).concat(
                " required failure",
            ).concat(ending),
        ),
    )
}

/// What was found of a file of the installation.
#[derive(Debug, PartialEq, Eq)]
pub enum FileFinding {
    Missing,
    Usable,
    /// It is there and cannot be used, for this reason.
    Unusable(String),
}

/// The finding on a file as a status.
pub fn file_status(finding: &FileFinding) -> (status: DoctorStatus)
    ensures
        status == status_of_file(*finding),
{
    match finding {
        FileFinding::Missing => DoctorStatus::Missing,
        FileFinding::Usable => DoctorStatus::Good,
        FileFinding::Unusable(_) => DoctorStatus::Unusable,
    }
}

/// What is said of a file of the installation.
pub open spec fn file_text(kind: Seq<char>, path: Seq<char>, finding: FileFinding) -> Seq<char> {
    kind + " "@ + path + match finding {
        FileFinding::Missing => ": missing (run `herdr-tether setup`)"@,
        FileFinding::Usable => ": ok"@,
        FileFinding::Unusable(detail) => ": unusable ("@ + detail@ + ")"@,
    }
}

/// What is said of a file of the installation.
pub fn file_line(kind: &str, path: &str, finding: &FileFinding) -> (line: String)
    ensures
        line@ == file_text(kind@, path@, *finding),
{
    let said = match finding {
        FileFinding::Missing => ": missing (run `herdr-tether setup`)".to_owned(),
        FileFinding::Usable => ": ok".to_owned(),
        FileFinding::Unusable(detail) => ": unusable (".to_owned().concat(detail.as_str()).concat(
            ")",
        ),
    };
    kind.to_owned().concat(" ").concat(path).concat(said.as_str())
}

/// How a tool that was asked for its version behaved.
#[derive(Debug, PartialEq, Eq)]
pub enum ToolProbe {
    /// It ended well.
    Succeeded,
    /// It ended otherwise, with this status and this output.
    Ended {
        status: String,
        stdout: Vec<u8>,
        stdout_truncated: bool,
        stderr: Vec<u8>,
        stderr_truncated: bool,
    },
    TimedOut,
    NotFound,
    PermissionDenied,
    /// It could not be started, for this reason.
    Unavailable(String),
    /// It was started, and its end was not seen.
    Lost,
}

/// The behaviour of a tool as a status.
pub open spec fn tool_status(probe: ToolProbe) -> DoctorStatus {
    match probe {
        ToolProbe::Succeeded => DoctorStatus::Good,
        ToolProbe::Ended { .. } => DoctorStatus::Failed,
        ToolProbe::TimedOut => DoctorStatus::TimedOut,
        ToolProbe::NotFound => DoctorStatus::Missing,
        ToolProbe::PermissionDenied => DoctorStatus::PermissionDenied,
        ToolProbe::Unavailable(_) | ToolProbe::Lost => DoctorStatus::Unavailable,
    }
}

/// The check of a tool.
pub fn probe_binary(name: &'static str, probe: &ToolProbe) -> (check: DoctorCheck)
    ensures
        check.name == name,
        check.status == tool_status(*probe),
        check.required,
        word_view(check.diagnostic) == diagnosis(tool_status(*probe)),
        !check.truncated,
        check.observed_protocol is None,
{
    let status = match probe {
        ToolProbe::Succeeded => DoctorStatus::Good,
        ToolProbe::Ended { .. } => DoctorStatus::Failed,
        ToolProbe::TimedOut => DoctorStatus::TimedOut,
        ToolProbe::NotFound => DoctorStatus::Missing,
        ToolProbe::PermissionDenied => DoctorStatus::PermissionDenied,
        ToolProbe::Unavailable(_) | ToolProbe::Lost => DoctorStatus::Unavailable,
    };
    doctor_check(name, status, true)
}

/// A tool that setup needs, or why setup cannot go on.
pub fn preflight_runtime_tool(name: &str, probe: &ToolProbe) -> (r: Result<(), Failure>)
    ensures
        probe is Succeeded ==> r is Ok,
        !(probe is Succeeded) ==> r is Err && r->Err_0@ == plain(
            "setup prerequisite unavailable: "@ + name@ + "; install "@ + name@ + " and retry"@,
        ),
{
    match probe {
        ToolProbe::Succeeded => Ok(()),
        _ => Err(
            Failure::new(
                "setup prerequisite unavailable: ".to_owned().concat(name).concat(
                    "; install ",
                ).concat(name).concat(" and retry"),
            ),
        ),
    }
}

/// The most characters of a tool's output that are shown.
pub const MAX_DETAIL_CHARS: usize = 240;

/// A text on one line: control characters are spaces, and one space stands
/// between words.
pub open spec fn one_line(text: Seq<char>) -> Seq<char> {
    collapsed(text.map_values(|c: char| if control(c) { ' ' } else { c }))
}

/// What is shown of a tool's output.
pub open spec fn detail_of(output: Seq<char>, truncated: bool) -> Option<Seq<char>> {
    let line = one_line(output);
    if line.len() == 0 {
        if truncated {
            Some("output exceeded 64 KiB"@)
        } else {
            None
        }
    } else if line.len() > MAX_DETAIL_CHARS {
        Some(line.take(MAX_DETAIL_CHARS as int).push('…'))
    } else if truncated {
        Some(line.push('…'))
    } else {
        Some(line)
    }
}

/// What is shown of a tool's output, once it is text.
pub fn output_detail(output: &str, truncated: bool) -> (detail: Option<String>)
    ensures
        opt_view(detail) == detail_of(output@, truncated),
{
    let chars = chars_of(output);
    let ghost wanted = output@.map_values(|c: char| if control(c) { ' ' } else { c });
    let mut plain_text = String::new();
    let mut i: usize = 0;
    assert(plain_text@ =~= wanted.take(0));
    while i < chars.len()
        invariant
            i <= chars@.len(),
            chars@ == output@,
            wanted == output@.map_values(|c: char| if control(c) { ' ' } else { c }),
            plain_text@ == wanted.take(i as int),
        decreases chars.len() - i,
    {
        if is_control(chars[i]) {
            plain_text.push(' ');
        } else {
            plain_text.push(chars[i]);
        }
        i += 1;
        assert(wanted.take(i as int) =~= wanted.take(i - 1).push(wanted[i - 1]));
    }
    assert(wanted.take(i as int) =~= wanted);
    let line = collapse_whitespace(plain_text.as_str());
    let letters = chars_of(line.as_str());
    if letters.len() == 0 {
        if truncated {
            return Some("output exceeded 64 KiB".to_owned());
        }
        return None;
    }
    if letters.len() > MAX_DETAIL_CHARS {
        let mut bounded = text_between(&letters, 0, MAX_DETAIL_CHARS);
        assert(bounded@ =~= line@.take(MAX_DETAIL_CHARS as int));
        bounded.push('…');
        return Some(bounded);
    }
    let mut bounded = line;
    if truncated {
        bounded.push('…');
    }
    Some(bounded)
}

/// What is shown of a tool's output.
pub fn concise_probe_detail(bytes: &Vec<u8>, truncated: bool) -> (detail: Option<String>)
    ensures
        opt_view(detail) == detail_of(lossy_text(bytes@), truncated),
{
    output_detail(lossy(bytes).as_str(), truncated)
}

/// What is shown of the output of a tool that failed: its errors, or else what
/// it wrote.
pub open spec fn failing_output(probe: ToolProbe) -> Option<Seq<char>> {
    match probe {
        ToolProbe::Ended { stdout, stdout_truncated, stderr, stderr_truncated, .. } => if stderr@.len()
            == 0 {
            detail_of(lossy_text(stdout@), stdout_truncated)
        } else {
            detail_of(lossy_text(stderr@), stderr_truncated)
        },
        _ => None,
    }
}

/// What is said of a tool. `detail` is what is shown of its output.
pub open spec fn tool_text(program: Seq<char>, probe: ToolProbe, detail: Option<Seq<char>>) -> Seq<
    char,
> {
    program + match probe {
        ToolProbe::Succeeded => ": ok"@,
        ToolProbe::Ended { status, .. } => ": failed ("@ + status@ + match detail {
            Some(detail) => "; "@ + detail,
            None => ""@,
        } + "); verify the executable works with `"@ + program + "`"@,
        ToolProbe::TimedOut => ": timed out after 3s (run `"@ + program
            + "` directly to diagnose it)"@,
        ToolProbe::NotFound => ": missing (install it or add it to PATH)"@,
        ToolProbe::PermissionDenied => ": permission denied (make the selected file executable)"@,
        ToolProbe::Unavailable(reason) => ": unavailable ("@ + reason@ + ")"@,
        ToolProbe::Lost => ": probe failed (run it directly to diagnose it)"@,
    }
}

/// What is said of a tool, once its output is text.
pub fn tool_line(program: &str, probe: &ToolProbe, detail: Option<String>) -> (line: String)
    ensures
        line@ == tool_text(program@, *probe, opt_view(detail)),
{
    let said = match probe {
        ToolProbe::Succeeded => ": ok".to_owned(),
        ToolProbe::Ended { status, .. } => {
            let shown = match detail {
                Some(detail) => "; ".to_owned().concat(detail.as_str()),
                None => "".to_owned(),
            };
            ": failed (".to_owned().concat(status.as_str()).concat(shown.as_str()).concat(
                "); verify the executable works with `",
            ).concat(program).concat("`")
        },
        ToolProbe::TimedOut => ": timed out after 3s (run `".to_owned().concat(program).concat(
            "` directly to diagnose it)",
        ),
        ToolProbe::NotFound => ": missing (install it or add it to PATH)".to_owned(),
        ToolProbe::PermissionDenied =>
            ": permission denied (make the selected file executable)".to_owned(),
        ToolProbe::Unavailable(reason) => ": unavailable (".to_owned().concat(
            reason.as_str(),
        ).concat(")"),
        ToolProbe::Lost => ": probe failed (run it directly to diagnose it)".to_owned(),
    };
    program.to_owned().concat(said.as_str())
}

/// A tool as it is reported: what is said, and whether it works.
pub fn report_binary_path(program: &str, probe: &ToolProbe) -> (r: (String, bool))
    ensures
        r.0@ == tool_text(program@, *probe, failing_output(*probe)),
        r.1 == (probe is Succeeded),
{
    let detail = match probe {
        ToolProbe::Ended { stdout, stdout_truncated, stderr, stderr_truncated, .. } => {
            if stderr.len() == 0 {
                concise_probe_detail(stdout, *stdout_truncated)
            } else {
                concise_probe_detail(stderr, *stderr_truncated)
            }
        },
        _ => None,
    };
    let works = match probe {
        ToolProbe::Succeeded => true,
        _ => false,
    };
    (tool_line(program, probe, detail), works)
}

/// The protocols of Herdr that are known to work.
#[derive(Clone, Copy, Debug, PartialEq, Eq, Structural)]
pub struct ProtocolRange {
    /// The oldest that is supported.
    pub minimum: u32,
    /// The newest that was tried.
    pub audited: u32,
}

/// What asking Herdr for its protocol gave.
#[derive(Clone, Copy, Debug, PartialEq, Eq, Structural)]
pub enum ProtocolProbe {
    /// No socket was named.
    NoSocket,
    /// The name of the socket was empty.
    EmptySocket,
    Unavailable,
    TimedOut,
    Observed(u32),
}

/// What an observed protocol is worth.
pub open spec fn protocol_status(probe: ProtocolProbe, known: ProtocolRange) -> DoctorStatus {
    match probe {
        ProtocolProbe::NoSocket => DoctorStatus::NotChecked,
        ProtocolProbe::EmptySocket => DoctorStatus::Incomplete,
        ProtocolProbe::Unavailable => DoctorStatus::Unavailable,
        ProtocolProbe::TimedOut => DoctorStatus::TimedOut,
        ProtocolProbe::Observed(protocol) => if protocol < known.minimum {
            DoctorStatus::Unsupported
        } else if protocol <= known.audited {
            DoctorStatus::Good
        } else {
            DoctorStatus::Advisory
        },
    }
}

/// The check of Herdr's protocol. Only where no socket was named it is not
/// required.
pub fn doctor_protocol_check(probe: ProtocolProbe, known: ProtocolRange) -> (check: DoctorCheck)
    ensures
        check.name@ == "herdr_protocol"@,
        check.status == protocol_status(probe, known),
        check.required == !(probe is NoSocket),
        word_view(check.diagnostic) == diagnosis(check.status),
        !check.truncated,
        check.observed_protocol == match probe {
            ProtocolProbe::Observed(protocol) => Some(protocol),
            _ => None::<u32>,
        },
{
    match probe {
        ProtocolProbe::NoSocket => doctor_check("herdr_protocol", DoctorStatus::NotChecked, false),
        ProtocolProbe::EmptySocket => doctor_check("herdr_protocol", DoctorStatus::Incomplete, true),
        ProtocolProbe::Unavailable => doctor_check(
            "herdr_protocol",
            DoctorStatus::Unavailable,
            true,
        ),
        ProtocolProbe::TimedOut => doctor_check("herdr_protocol", DoctorStatus::TimedOut, true),
        ProtocolProbe::Observed(protocol) => {
            let status = if protocol < known.minimum {
                DoctorStatus::Unsupported
            } else if protocol <= known.audited {
                DoctorStatus::Good
            } else {
                DoctorStatus::Advisory
            };
            let mut check = doctor_check("herdr_protocol", status, true);
            check.observed_protocol = Some(protocol);
            check
        },
    }
}

/// What is said of Herdr's protocol.
pub open spec fn protocol_text(probe: ProtocolProbe, known: ProtocolRange) -> Seq<char> {
    "Herdr protocol: "@ + match probe {
        ProtocolProbe::NoSocket => "not checked (HERDR_SOCKET_PATH not provided)"@,
        ProtocolProbe::EmptySocket => "unavailable (HERDR_SOCKET_PATH is empty)"@,
        ProtocolProbe::Unavailable =>
            "unavailable (verify HERDR_SOCKET_PATH points to a running Herdr)"@,
        ProtocolProbe::TimedOut =>
            "timed out after 3s (verify HERDR_SOCKET_PATH points to a responsive Herdr)"@,
        ProtocolProbe::Observed(protocol) => numeral(protocol as nat) + if protocol
            < known.minimum {
            " unsupported; requires "@ + numeral(known.minimum as nat) + "+"@
        } else if protocol <= known.audited {
            " audited"@
        } else {
            " newer than audited "@ + numeral(known.audited as nat)
                + "; continuing (update Tether when compatibility support ships)"@
        },
    }
}

/// Herdr's protocol as it is reported: what is said, and whether it works.
pub fn report_herdr_protocol(probe: ProtocolProbe, known: ProtocolRange) -> (r: (String, bool))
    ensures
        r.0@ == protocol_text(probe, known),
        r.1 == passes(protocol_status(probe, known)),
{
    let said = match probe {
        ProtocolProbe::NoSocket => "not checked (HERDR_SOCKET_PATH not provided)".to_owned(),
        ProtocolProbe::EmptySocket => "unavailable (HERDR_SOCKET_PATH is empty)".to_owned(),
        ProtocolProbe::Unavailable =>
            "unavailable (verify HERDR_SOCKET_PATH points to a running Herdr)".to_owned(),
        ProtocolProbe::TimedOut =>
            "timed out after 3s (verify HERDR_SOCKET_PATH points to a responsive Herdr)".to_owned(),
        ProtocolProbe::Observed(protocol) => {
            let rest = if protocol < known.minimum {
                " unsupported; requires ".to_owned().concat(
                    decimal(known.minimum as u64).as_str(),
                ).concat("+")
            } else if protocol <= known.audited {
                " audited".to_owned()
            } else {
                " newer than audited ".to_owned().concat(
                    decimal(known.audited as u64).as_str(),
                ).concat("; continuing (update Tether when compatibility support ships)")
            };
            decimal(protocol as u64).concat(rest.as_str())
        },
    };
    let check = doctor_protocol_check(probe, known);
    ("Herdr protocol: ".to_owned().concat(said.as_str()), doctor_status_passes(check.status))
}

/// The text of a variable, or else of the one that stands in for it, unless it
/// is blank.
pub open spec fn given_value(value: EnvValue, fallback: EnvValue) -> Option<Seq<char>> {
    let found = match value {
        EnvValue::Text(text) => Some(text@),
        _ => match fallback {
            EnvValue::Text(text) => Some(text@),
            _ => None,
        },
    };
    match found {
        Some(text) => if blank(text) {
            None
        } else {
            Some(text)
        },
        None => None,
    }
}

/// The text of a variable, or else of the one that stands in for it, unless it
/// is blank.
fn find_value(value: &EnvValue, fallback: &EnvValue) -> (found: Option<String>)
    ensures
        opt_view(found) == given_value(*value, *fallback),
{
    let text = match value {
        EnvValue::Text(text) => text,
        _ => match fallback {
            EnvValue::Text(text) => text,
            _ => {
                return None;
            },
        },
    };
    if is_blank(text.as_str()) {
        None
    } else {
        Some(text.clone())
    }
}

/// Herdr's binary is named.
pub open spec fn binary_given(environment: HerdrEnvironment) -> bool {
    match environment.binary {
        Some(path) => !blank(path@),
        None => false,
    }
}

/// Something in the environment speaks of a plugin pane.
pub open spec fn context_signaled(environment: HerdrEnvironment) -> bool {
    binary_given(environment) || !(environment.pane_id is Missing) || !(environment.workspace_id
        is Missing)
}

/// The variables that a plugin pane needs and the environment lacks.
pub open spec fn missing_context(environment: HerdrEnvironment) -> Seq<Seq<char>> {
    let pane = given_value(environment.pane_id, environment.pane_id_fallback);
    let workspace = given_value(environment.workspace_id, environment.workspace_id_fallback);
    (if pane is None {
        seq!["HERDR_PANE_ID"@]
    } else {
        Seq::empty()
    }) + (if workspace is None {
        seq!["HERDR_WORKSPACE_ID"@]
    } else {
        Seq::empty()
    }) + (if !binary_given(environment) {
        seq!["HERDR_BIN_PATH"@]
    } else {
        Seq::empty()
    })
}

/// What the environment says of the plugin pane.
pub open spec fn context_status(environment: HerdrEnvironment) -> DoctorStatus {
    if !context_signaled(environment) {
        DoctorStatus::Standalone
    } else if missing_context(environment).len() == 0 {
        DoctorStatus::Good
    } else {
        DoctorStatus::Incomplete
    }
}

/// What is said of the plugin pane.
pub open spec fn context_text(environment: HerdrEnvironment) -> Seq<char> {
    let pane = given_value(environment.pane_id, environment.pane_id_fallback);
    let workspace = given_value(environment.workspace_id, environment.workspace_id_fallback);
    match context_status(environment) {
        DoctorStatus::Standalone => "Herdr context: standalone (no plugin pane selected)"@,
        DoctorStatus::Good => "Herdr context: "@ + pane->0 + " in workspace "@ + workspace->0,
        _ => "Herdr context: incomplete (missing "@ + joined(missing_context(environment), ", "@)
            + "; invoke Tether through a Herdr plugin action)"@,
    }
}

/// The plugin pane as it is reported: its status, and what is said of it.
pub fn report_context(environment: &HerdrEnvironment) -> (r: (DoctorStatus, String))
    ensures
        r.0 == context_status(*environment),
        r.1@ == context_text(*environment),
{
    let binary = match &environment.binary {
        Some(path) => !is_blank(path.as_str()),
        None => false,
    };
    let pane_named = match &environment.pane_id {
        EnvValue::Missing => false,
        _ => true,
    };
    let workspace_named = match &environment.workspace_id {
        EnvValue::Missing => false,
        _ => true,
    };
    if !(binary || pane_named || workspace_named) {
        return (
            DoctorStatus::Standalone,
            "Herdr context: standalone (no plugin pane selected)".to_owned(),
        );
    }
    let pane = find_value(&environment.pane_id, &environment.pane_id_fallback);
    let workspace = find_value(&environment.workspace_id, &environment.workspace_id_fallback);
    let ghost wanted = missing_context(*environment);
    let mut missing: Vec<String> = Vec::new();
    if pane.is_none() {
        missing.push("HERDR_PANE_ID".to_owned());
    }
    if workspace.is_none() {
        missing.push("HERDR_WORKSPACE_ID".to_owned());
    }
    if !binary {
        missing.push("HERDR_BIN_PATH".to_owned());
    }
    assert(views(missing@) =~= wanted);
    match (pane, workspace) {
        (Some(pane), Some(workspace)) => {
            if binary {
                return (
                    DoctorStatus::Good,
                    "Herdr context: ".to_owned().concat(pane.as_str()).concat(
                        " in workspace ",
                    ).concat(workspace.as_str()),
                );
            }
        },
        _ => {},
    }
    (
        DoctorStatus::Incomplete,
        "Herdr context: incomplete (missing ".to_owned().concat(
            join(&missing, ", ").as_str(),
        ).concat("; invoke Tether through a Herdr plugin action)"),
    )
}

/// A tool of the installation: where it is, and how it behaved.
#[derive(Debug, PartialEq, Eq)]
pub struct ToolFinding {
    pub program: String,
    pub probe: ToolProbe,
}

/// Everything that an examination looks at.
#[derive(Debug, PartialEq, Eq)]
pub struct Examination {
    pub config_file: String,
    pub config: FileFinding,
    pub state_file: String,
    pub state: FileFinding,
    pub tmux: ToolFinding,
    pub ssh: ToolFinding,
    pub cargo: ToolFinding,
    pub herdr: ToolFinding,
    pub protocol: ProtocolProbe,
    pub known: ProtocolRange,
    pub environment: HerdrEnvironment,
}

/// The finding on a file as a status.
pub open spec fn status_of_file(finding: FileFinding) -> DoctorStatus {
    match finding {
        FileFinding::Missing => DoctorStatus::Missing,
        FileFinding::Usable => DoctorStatus::Good,
        FileFinding::Unusable(_) => DoctorStatus::Unusable,
    }
}

/// The name, the finding and the weight of each check of an examination.
pub open spec fn examined(examination: Examination) -> Seq<(Seq<char>, DoctorStatus, bool)> {
    seq![
        ("config"@, status_of_file(examination.config), true),
        ("state"@, status_of_file(examination.state), true),
        ("tmux"@, tool_status(examination.tmux.probe), true),
        ("ssh"@, tool_status(examination.ssh.probe), true),
        ("cargo"@, tool_status(examination.cargo.probe), true),
        ("herdr"@, tool_status(examination.herdr.probe), true),
        (
            "herdr_protocol"@,
            protocol_status(examination.protocol, examination.known),
            !(examination.protocol is NoSocket),
        ),
        ("herdr_context"@, context_status(examination.environment), true),
    ]
}

/// The name, the finding and the weight of each check.
pub open spec fn check_views(checks: Seq<DoctorCheck>) -> Seq<(Seq<char>, DoctorStatus, bool)> {
    checks.map_values(|check: DoctorCheck| (check.name@, check.status, check.required))
}

/// The checks of an examination, in their order.
pub fn doctor_checks(examination: &Examination) -> (checks: Vec<DoctorCheck>)
    ensures
        check_views(checks@) == examined(*examination),
        forall|i: int|
            0 <= i < checks@.len() ==> word_view((#[trigger] checks@[i]).diagnostic) == diagnosis(
                checks@[i].status,
            ) && !checks@[i].truncated,
        forall|i: int|
            0 <= i < checks@.len() && i != 6 ==> (
            #[trigger] checks@[i]).observed_protocol is None,
        checks@.len() == 8,
        checks@[6].observed_protocol == match examination.protocol {
            ProtocolProbe::Observed(protocol) => Some(protocol),
            _ => None::<u32>,
        },
{
    let (context, _) = report_context(&examination.environment);
    let checks = vec![
        doctor_check("config", file_status(&examination.config), true),
        doctor_check("state", file_status(&examination.state), true),
        probe_binary("tmux", &examination.tmux.probe),
        probe_binary("ssh", &examination.ssh.probe),
        probe_binary("cargo", &examination.cargo.probe),
        probe_binary("herdr", &examination.herdr.probe),
        doctor_protocol_check(examination.protocol, examination.known),
        doctor_check("herdr_context", context, true),
    ];
    assert(check_views(checks@) =~= examined(*examination));
    checks
}

/// The lines on which an examination is told to a person.
pub open spec fn examination_texts(examination: Examination) -> Seq<Seq<char>> {
    seq![
        file_text("config"@, examination.config_file@, examination.config),
        file_text("state"@, examination.state_file@, examination.state),
        tool_text(
            examination.tmux.program@,
            examination.tmux.probe,
            failing_output(examination.tmux.probe),
        ),
        tool_text(
            examination.ssh.program@,
            examination.ssh.probe,
            failing_output(examination.ssh.probe),
        ),
        tool_text(
            examination.cargo.program@,
            examination.cargo.probe,
            failing_output(examination.cargo.probe),
        ),
        "Herdr binary: "@ + examination.herdr.program@,
        tool_text(
            examination.herdr.program@,
            examination.herdr.probe,
            failing_output(examination.herdr.probe),
        ),
        protocol_text(examination.protocol, examination.known),
        context_text(examination.environment),
    ]
}

/// One for a check that an installation does not work with.
pub open spec fn one_failure(passed: bool) -> nat {
    if passed {
        0
    } else {
        1
    }
}

/// One for a check that an installation does not work with.
fn count_one(passed: bool) -> (n: usize)
    ensures
        n == one_failure(passed),
{
    if passed {
        0
    } else {
        1
    }
}

/// The number of findings that an installation does not work with.
pub open spec fn failures_found(examination: Examination) -> nat {
    one_failure(examination.config is Usable) + one_failure(examination.state is Usable)
        + one_failure(examination.tmux.probe is Succeeded) + one_failure(
        examination.ssh.probe is Succeeded,
    ) + one_failure(examination.cargo.probe is Succeeded) + one_failure(
        examination.herdr.probe is Succeeded,
    ) + one_failure(passes(protocol_status(examination.protocol, examination.known)))
        + one_failure(passes(context_status(examination.environment)))
}

/// The examination as it is told to a person: its lines, and the number of
/// findings that the installation does not work with.
pub fn doctor_human(examination: &Examination) -> (r: (Vec<String>, usize))
    ensures
        views(r.0@) == examination_texts(*examination),
        r.1 == failures_found(*examination),
{
    let config_works = match &examination.config {
        FileFinding::Usable => true,
        _ => false,
    };
    let state_works = match &examination.state {
        FileFinding::Usable => true,
        _ => false,
    };
    let (tmux, tmux_works) = report_binary_path(
        examination.tmux.program.as_str(),
        &examination.tmux.probe,
    );
    let (ssh, ssh_works) = report_binary_path(
        examination.ssh.program.as_str(),
        &examination.ssh.probe,
    );
    let (cargo, cargo_works) = report_binary_path(
        examination.cargo.program.as_str(),
        &examination.cargo.probe,
    );
    let (herdr, herdr_works) = report_binary_path(
        examination.herdr.program.as_str(),
        &examination.herdr.probe,
    );
    let (protocol, protocol_works) = report_herdr_protocol(examination.protocol, examination.known);
    let (context, told) = report_context(&examination.environment);
    let lines = vec![
        file_line("config", examination.config_file.as_str(), &examination.config),
        file_line("state", examination.state_file.as_str(), &examination.state),
        tmux,
        ssh,
        cargo,
        "Herdr binary: ".to_owned().concat(examination.herdr.program.as_str()),
        herdr,
        protocol,
        told,
    ];
    assert(views(lines@) =~= examination_texts(*examination));
    let failures: usize = count_one(config_works) + count_one(state_works) + count_one(tmux_works)
        + count_one(ssh_works) + count_one(cargo_works) + count_one(herdr_works) + count_one(
        protocol_works,
    ) + count_one(doctor_status_passes(context));
    (lines, failures)
}

/// Both forms of a report find the same number of failures.
pub proof fn both_reports_agree(examination: Examination, checks: Seq<DoctorCheck>)
    requires
        check_views(checks) == examined(examination),
    ensures
        required_failures(checks) == failures_found(examination),
{
    let wanted = examined(examination);
    assert(checks.len() == 8) by {
        assert(check_views(checks).len() == checks.len());
    }
    assert forall|i: int| 0 <= i < 8 implies (#[trigger] checks[i]).status == wanted[i].1
        && checks[i].required == wanted[i].2 by {
        assert(check_views(checks)[i] == wanted[i]);
    }
    reveal_with_fuel(required_failures, 9);
    assert(checks.drop_last().drop_last().drop_last().drop_last().drop_last().drop_last().drop_last().drop_last().len()
        == 0);
}

/// An examination succeeds exactly if every required check passes.
pub proof fn an_examination_succeeds_when_required_checks_pass(checks: Seq<DoctorCheck>)
    ensures
        required_failures(checks) == 0 <==> forall|i: int|
            0 <= i < checks.len() && (#[trigger] checks[i]).required ==> passes(checks[i].status),
    decreases checks.len(),
{
    if checks.len() > 0 {
        let front = checks.drop_last();
        an_examination_succeeds_when_required_checks_pass(front);
        assert(forall|i: int| 0 <= i < front.len() ==> #[trigger] front[i] == checks[i]);
        assert(checks[checks.len() - 1] == checks.last());
        if forall|i: int|
            0 <= i < checks.len() && (#[trigger] checks[i]).required ==> passes(checks[i].status) {
            assert forall|i: int| 0 <= i < front.len() && (#[trigger] front[i]).required implies passes(
                front[i].status,
            ) by {
                assert(checks[i].required);
            }
        } else {
            let at = choose|i: int|
                0 <= i < checks.len() && (#[trigger] checks[i]).required && !passes(
                    checks[i].status,
                );
            if at < front.len() {
                assert(front[at].required);
            }
        }
    }
}

/// What is shown of a tool's output is one line of bounded length.
pub proof fn details_are_short(output: Seq<char>, truncated: bool)
    ensures
        detail_of(output, truncated) matches Some(detail) ==> detail.len() <= MAX_DETAIL_CHARS + 1
            || detail == "output exceeded 64 KiB"@,
{
}

} // verus!
