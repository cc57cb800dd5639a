//! What Herdr answers on its command line: the result of a command, or why
//! there is none.

use vstd::prelude::*;
use vstd::string::*;

use crate::backend::{CommandSpec, CommandView};
use crate::document::{
    copy_path, field, field_path, item, item_path, root, root_path, step_views, Step, StepView,
};
use crate::failure::{led_to, plain, Failure, FailureView};
use crate::fields::{
    cut_at, number_of, parse_number, parts_between, split_on, strip_prefix, up_to, without_prefix,
};
use crate::json_text::{
    find_text, find_value, has_value, json_nodes, node_views, parse_json, text_at, value_at,
    JsonNode, JsonValue, JsonView, NodeView,
};
use crate::path_text::{file_name, file_name_of};
use crate::quote::{posix_quote, quoted_word};
use crate::text::{
    chars_of, collapse_whitespace, collapsed, control, decimal, decode, has_prefix, holds_text,
    is_control, join, joined, lossy, lossy_text, numeral, same_text, trim, trimmed, utf8_fault,
    views,
};
use vstd::utf8::*;

verus! {

/// What a command of Herdr left behind.
#[derive(Debug, PartialEq, Eq)]
pub struct HerdrOutput {
    pub success: bool,
    /// The exit status, as a reader sees it.
    pub status: String,
    pub stdout: Vec<u8>,
    pub stderr: Vec<u8>,
}

/// How a command of Herdr ended.
#[derive(Debug, PartialEq, Eq)]
pub enum HerdrExecution {
    Completed { output: HerdrOutput, truncated: bool },
    TimedOut,
    /// The command could not be started, and why.
    SpawnError(String),
    Error,
}

/// How long a command of Herdr may take, in seconds.
pub const HERDR_COMMAND_TIMEOUT_SECONDS: u64 = 30;

/// Why a command gave no output, if it did not.
pub open spec fn execution_problem(
    execution: HerdrExecution,
    operation: Seq<char>,
    binary: Seq<char>,
) -> Option<Seq<char>> {
    match execution {
        HerdrExecution::Completed { truncated, .. } => if truncated {
            Some("Herdr "@ + operation + " response exceeded the safe capture limit"@)
        } else {
            None
        },
        HerdrExecution::TimedOut => Some(
            "Herdr "@ + operation + " timed out after "@ + numeral(
                HERDR_COMMAND_TIMEOUT_SECONDS as nat,
            ) + " seconds"@,
        ),
        HerdrExecution::SpawnError(reason) => Some(
            "run Herdr "@ + operation + " via `"@ + binary + "` ("@ + reason@ + ")"@,
        ),
        HerdrExecution::Error => Some("read Herdr "@ + operation + " process output"@),
    }
}

/// The output of a command, or why there is none.
pub fn execute(execution: HerdrExecution, operation: &str, binary: &str) -> (r: Result<
    HerdrOutput,
    Failure,
>)
    ensures
        match execution_problem(execution, operation@, binary@) {
            Some(text) => r is Err && r->Err_0@ == plain(text),
            None => r is Ok && execution is Completed && r->Ok_0 == execution->output,
        },
{
    match execution {
        HerdrExecution::Completed { output, truncated } => {
            if truncated {
                Err(
                    Failure::new(
                        "Herdr ".to_owned().concat(operation).concat(
                            " response exceeded the safe capture limit",
                        ),
                    ),
                )
            } else {
                Ok(output)
            }
        },
        HerdrExecution::TimedOut => Err(
            Failure::new(
                "Herdr ".to_owned().concat(operation).concat(" timed out after ").concat(
                    decimal(HERDR_COMMAND_TIMEOUT_SECONDS).as_str(),
                ).concat(" seconds"),
            ),
        ),
        HerdrExecution::SpawnError(reason) => Err(
            Failure::new(
                "run Herdr ".to_owned().concat(operation).concat(" via `").concat(binary).concat(
                    "` (",
                ).concat(reason.as_str()).concat(")"),
            ),
        ),
        HerdrExecution::Error => Err(
            Failure::new("read Herdr ".to_owned().concat(operation).concat(" process output")),
        ),
    }
}

/// The message of an error that Herdr reports.
pub open spec fn error_message(nodes: Seq<NodeView>) -> Option<Seq<char>> {
    text_at(nodes, field(field(root(), "error"@), "message"@))
}

/// The path of the message of an error.
fn error_message_path() -> (path: Vec<Step>)
    ensures
        step_views(path@) == field(field(root(), "error"@), "message"@),
{
    field_path(field_path(root_path(), "error"), "message")
}

/// What a reader is told of a command that failed with a message.
pub open spec fn reported_text(operation: Seq<char>, message: Seq<char>) -> Seq<char> {
    "Herdr "@ + operation + " failed: "@ + message
}

/// What a reader is told of a command that failed with a status.
pub open spec fn status_text(operation: Seq<char>, status: Seq<char>, stderr: Seq<u8>) -> Seq<
    char,
> {
    let detail = trimmed(lossy_text(stderr));
    if detail.len() == 0 {
        "Herdr "@ + operation + " failed with status "@ + status
    } else {
        "Herdr "@ + operation + " failed with status "@ + status + ": "@ + detail
    }
}

/// The failure of a command that failed with a message.
fn reported_failure(operation: &str, message: &str) -> (failure: Failure)
    ensures
        failure@ == plain(reported_text(operation@, message@)),
{
    Failure::new("Herdr ".to_owned().concat(operation).concat(" failed: ").concat(message))
}

/// The failure of a command that failed with a status.
fn status_failure(operation: &str, status: &str, stderr: &Vec<u8>) -> (failure: Failure)
    ensures
        failure@ == plain(status_text(operation@, status@, stderr@)),
{
    let detail = trim(lossy(stderr).as_str());
    let text = "Herdr ".to_owned().concat(operation).concat(" failed with status ").concat(status);
    if detail.as_str().is_empty() {
        Failure::new(text)
    } else {
        Failure::new(text.concat(": ").concat(detail.as_str()))
    }
}

/// Why a command that printed nothing failed, if it did.
pub open spec fn silent_problem(output: HerdrOutput, operation: Seq<char>) -> Option<Seq<char>> {
    if output.success {
        None
    } else {
        let reported = match json_nodes(output.stderr@) {
            Ok(nodes) => error_message(nodes),
            Err(_) => None,
        };
        match reported {
            Some(message) => Some(reported_text(operation, message)),
            None => Some(status_text(operation, output.status@, output.stderr@)),
        }
    }
}

/// Accepts a command that printed nothing, if it succeeded.
pub fn require_empty_success(output: &HerdrOutput, operation: &str) -> (r: Result<(), Failure>)
    ensures
        match silent_problem(*output, operation@) {
            Some(text) => r is Err && r->Err_0@ == plain(text),
            None => r is Ok,
        },
{
    if output.success {
        return Ok(());
    }
    if let Ok(nodes) = parse_json(output.stderr.as_slice()) {
        if let Some(message) = find_text(&nodes, &error_message_path()) {
            return Err(reported_failure(operation, message.as_str()));
        }
    }
    Err(status_failure(operation, output.status.as_str(), &output.stderr))
}

/// What a reader is told of a response that is no document.
pub open spec fn undecoded_text(operation: Seq<char>, stderr: Seq<u8>) -> Seq<char> {
    let detail = trimmed(lossy_text(stderr));
    if detail.len() == 0 {
        "decode Herdr "@ + operation + " response as JSON"@
    } else {
        "decode Herdr "@ + operation + " response as JSON: "@ + detail
    }
}

/// Why a document is no result, if it is none.
pub open spec fn envelope_problem(
    nodes: Seq<NodeView>,
    output: HerdrOutput,
    operation: Seq<char>,
) -> Option<Seq<char>> {
    match error_message(nodes) {
        Some(message) => Some(reported_text(operation, message)),
        None => if !output.success {
            Some(status_text(operation, output.status@, output.stderr@))
        } else if value_at(nodes, field(root(), "result"@)) is None {
            Some("Herdr "@ + operation + " response did not contain a result"@)
        } else {
            None
        },
    }
}

/// The document that a command answered with, or why there is none.
pub open spec fn response(output: HerdrOutput, operation: Seq<char>) -> Result<
    Seq<NodeView>,
    FailureView,
> {
    if output.stdout@.len() == 0 && !output.success {
        Err(plain(silent_problem(output, operation)->0))
    } else {
        match json_nodes(output.stdout@) {
            Err(reason) => Err(led_to(undecoded_text(operation, output.stderr@), plain(reason))),
            Ok(nodes) => match envelope_problem(nodes, output, operation) {
                Some(text) => Err(plain(text)),
                None => Ok(nodes),
            },
        }
    }
}

/// Checks the document that a command answered with.
pub fn check_envelope(nodes: &Vec<JsonNode>, output: &HerdrOutput, operation: &str) -> (r: Result<
    (),
    Failure,
>)
    ensures
        match envelope_problem(node_views(nodes@), *output, operation@) {
            Some(text) => r is Err && r->Err_0@ == plain(text),
            None => r is Ok,
        },
{
    if let Some(message) = find_text(nodes, &error_message_path()) {
        return Err(reported_failure(operation, message.as_str()));
    }
    if !output.success {
        return Err(status_failure(operation, output.status.as_str(), &output.stderr));
    }
    if !has_value(nodes, &field_path(root_path(), "result")) {
        return Err(
            Failure::new(
                "Herdr ".to_owned().concat(operation).concat(" response did not contain a result"),
            ),
        );
    }
    Ok(())
}

/// The document that a command answered with.
pub fn decode_response(output: &HerdrOutput, operation: &str) -> (r: Result<
    Vec<JsonNode>,
    Failure,
>)
    ensures
        match response(*output, operation@) {
            Ok(nodes) => r is Ok && node_views(r->Ok_0@) == nodes,
            Err(failure) => r is Err && r->Err_0@ == failure,
        },
{
    if output.stdout.len() == 0 && !output.success {
        match require_empty_success(output, operation) {
            Err(failure) => {
                return Err(failure);
            },
            Ok(()) => {},
        }
    }
    let nodes = match parse_json(output.stdout.as_slice()) {
        Ok(nodes) => nodes,
        Err(reason) => {
            let detail = trim(lossy(&output.stderr).as_str());
            let text = "decode Herdr ".to_owned().concat(operation).concat(" response as JSON");
            let text = if detail.as_str().is_empty() {
                text
            } else {
                let whole = text.concat(": ").concat(detail.as_str());
                proof {
                    reveal_strlit(": ");
                    reveal_strlit(" response as JSON");
                    reveal_strlit(" response as JSON: ");
                    assert(" response as JSON"@ + ": "@ =~= " response as JSON: "@);
                    assert(whole@ =~= "decode Herdr "@ + operation@ + " response as JSON: "@
                        + detail@);
                }
                whole
            };
            return Err(Failure::new(reason).context(text));
        },
    };
    match check_envelope(&nodes, output, operation) {
        Ok(()) => Ok(nodes),
        Err(failure) => Err(failure),
    }
}

/// The type that a result gives itself.
pub open spec fn result_type(nodes: Seq<NodeView>) -> Option<Seq<char>> {
    text_at(nodes, field(field(root(), "result"@), "type"@))
}

/// Why a result is not of one of the given types, if it is of none.
pub open spec fn type_problem(nodes: Seq<NodeView>, expected: Seq<Seq<char>>) -> Option<
    Seq<char>,
> {
    match result_type(nodes) {
        None => Some("Herdr response result did not contain a type"@),
        Some(actual) => if expected.contains(actual) {
            None
        } else {
            Some(
                "unexpected Herdr response type `"@ + actual + "`; expected one of "@ + joined(
                    expected,
                    ", "@,
                ),
            )
        },
    }
}

/// Accepts a result of one of the given types.
pub fn require_result_type_in(nodes: &Vec<JsonNode>, expected: &Vec<String>) -> (r: Result<
    (),
    Failure,
>)
    ensures
        match type_problem(node_views(nodes@), views(expected@)) {
            Some(text) => r is Err && r->Err_0@ == plain(text),
            None => r is Ok,
        },
{
    let path = field_path(field_path(root_path(), "result"), "type");
    match find_text(nodes, &path) {
        None => Err(Failure::new("Herdr response result did not contain a type".to_owned())),
        Some(actual) => {
            if holds_text(expected, actual.as_str()) {
                Ok(())
            } else {
                Err(
                    Failure::new(
                        "unexpected Herdr response type `".to_owned().concat(
                            actual.as_str(),
                        ).concat("`; expected one of ").concat(join(expected, ", ").as_str()),
                    ),
                )
            }
        },
    }
}

/// Accepts a result of the given type.
pub fn require_result_type(nodes: &Vec<JsonNode>, expected: &str) -> (r: Result<(), Failure>)
    ensures
        match type_problem(node_views(nodes@), seq![expected@]) {
            Some(text) => r is Err && r->Err_0@ == plain(text),
            None => r is Ok,
        },
{
    let types = vec![expected.to_owned()];
    assert(views(types@) =~= seq![expected@]);
    require_result_type_in(nodes, &types)
}

/// The path of a part of a result.
pub open spec fn result_path(keys: Seq<Seq<char>>) -> Seq<StepView>
    decreases keys.len(),
{
    if keys.len() == 0 {
        field(root(), "result"@)
    } else {
        field(result_path(keys.drop_last()), keys.last())
    }
}

/// A text in a result, or why there is none. `description` says what it is.
pub open spec fn result_text(
    nodes: Seq<NodeView>,
    keys: Seq<Seq<char>>,
    description: Seq<char>,
) -> Result<Seq<char>, Seq<char>> {
    if value_at(nodes, result_path(Seq::empty())) is None {
        Err("Herdr response did not contain a result"@)
    } else {
        match value_at(nodes, result_path(keys)) {
            None => Err("Herdr response did not contain "@ + description),
            Some(JsonView::Text(text)) => if text.len() == 0 {
                Err("Herdr "@ + description + " was empty"@)
            } else {
                Ok(text)
            },
            Some(_) => Err("Herdr "@ + description + " was not a string"@),
        }
    }
}

/// A text in a result, or why there is none.
pub fn result_string(nodes: &Vec<JsonNode>, keys: &Vec<String>, description: &str) -> (r: Result<
    String,
    Failure,
>)
    ensures
        match result_text(node_views(nodes@), views(keys@), description@) {
            Ok(text) => r is Ok && r->Ok_0@ == text,
            Err(text) => r is Err && r->Err_0@ == plain(text),
        },
{
    if !has_value(nodes, &field_path(root_path(), "result")) {
        return Err(Failure::new("Herdr response did not contain a result".to_owned()));
    }
    let ghost all = views(keys@);
    let mut path = field_path(root_path(), "result");
    let mut i: usize = 0;
    assert(all.take(0) =~= Seq::empty());
    while i < keys.len()
        invariant
            i <= keys@.len(),
            all == views(keys@),
            step_views(path@) == result_path(all.take(i as int)),
        decreases keys.len() - i,
    {
        assert(all.take(i + 1).drop_last() =~= all.take(i as int));
        assert(all.take(i + 1).last() == keys@[i as int]@);
        path = field_path(path, keys[i].as_str());
        i += 1;
    }
    assert(all.take(i as int) =~= all);
    match find_value(nodes, &path) {
        None => Err(
            Failure::new("Herdr response did not contain ".to_owned().concat(description)),
        ),
        Some(JsonValue::Text(text)) => {
            if text.as_str().is_empty() {
                Err(Failure::new("Herdr ".to_owned().concat(description).concat(" was empty")))
            } else {
                Ok(text.clone())
            }
        },
        Some(_) => Err(
            Failure::new("Herdr ".to_owned().concat(description).concat(" was not a string")),
        ),
    }
}

/// A process in the foreground of a pane.
#[derive(Debug, PartialEq, Eq)]
pub struct ForegroundProcess {
    pub pid: u64,
    pub name: String,
    pub argv: Vec<String>,
}

/// The contents of a [`ForegroundProcess`].
#[verifier::ext_equal]
pub struct ProcessView {
    pub pid: u64,
    pub name: Seq<char>,
    pub argv: Seq<Seq<char>>,
}

impl View for ForegroundProcess {
    type V = ProcessView;

    open spec fn view(&self) -> ProcessView {
        ProcessView { pid: self.pid, name: self.name@, argv: views(self.argv@) }
    }
}

/// The contents of each process.
pub open spec fn process_views(processes: Seq<ForegroundProcess>) -> Seq<ProcessView> {
    processes.map_values(|process: ForegroundProcess| process@)
}

/// What runs in the foreground of a pane that may be replaced.
#[derive(Debug, PartialEq, Eq)]
pub struct ReplacementInspection {
    pub pane_id: String,
    pub foreground_processes: Vec<ForegroundProcess>,
}

/// The contents of a [`ReplacementInspection`].
#[verifier::ext_equal]
pub struct InspectionView {
    pub pane_id: Seq<char>,
    pub foreground_processes: Seq<ProcessView>,
}

impl InspectionView {
    /// A replacement would end something, so that a person is asked.
    pub open spec fn needs_confirmation(self) -> bool {
        self.foreground_processes.len() > 0
    }

    /// The first processes that a replacement would end, for a person to see.
    pub open spec fn summary(self) -> Seq<char> {
        joined(
            self.foreground_processes.take(
                if self.foreground_processes.len() < 3 {
                    self.foreground_processes.len() as int
                } else {
                    3
                },
            ).map_values(|process: ProcessView| ForegroundProcess::shown(process)),
            ", "@,
        )
    }
}

impl View for ReplacementInspection {
    type V = InspectionView;

    open spec fn view(&self) -> InspectionView {
        InspectionView {
            pane_id: self.pane_id@,
            foreground_processes: process_views(self.foreground_processes@),
        }
    }
}

/// Whether two lists hold the same texts.
pub fn same_texts(a: &Vec<String>, b: &Vec<String>) -> (r: bool)
    ensures
        r == (views(a@) == views(b@)),
{
    let ghost left = views(a@);
    let ghost right = views(b@);
    if a.len() != b.len() {
        assert(left.len() != right.len());
        return false;
    }
    let mut i: usize = 0;
    while i < a.len()
        invariant
            i <= a@.len(),
            a@.len() == b@.len(),
            left == views(a@),
            right == views(b@),
            forall|j: int| 0 <= j < i ==> left[j] == right[j],
        decreases a.len() - i,
    {
        assert(left[i as int] == a@[i as int]@ && right[i as int] == b@[i as int]@);
        if !same_text(a[i].as_str(), b[i].as_str()) {
            return false;
        }
        i += 1;
    }
    assert(left =~= right);
    true
}

impl ForegroundProcess {
    /// Whether two processes are the same.
    pub fn same(&self, other: &Self) -> (r: bool)
        ensures
            r == (self@ == other@),
    {
        let r = self.pid == other.pid && same_text(self.name.as_str(), other.name.as_str())
            && same_texts(&self.argv, &other.argv);
        assert(r ==> self@ =~= other@);
        r
    }

    /// How a process is shown.
    pub open spec fn shown(process: ProcessView) -> Seq<char> {
        collapsed(
            process.name.map_values(
                |c: char|
                    if control(c) {
                        ' '
                    } else {
                        c
                    },
            ),
        ) + " (PID "@ + numeral(process.pid as nat) + ")"@
    }

    /// How the process is shown.
    fn summary(&self) -> (text: String)
        ensures
            text@ == Self::shown(self@),
    {
        let chars = chars_of(self.name.as_str());
        let ghost spaced = self.name@.map_values(
            |c: char|
                if control(c) {
                    ' '
                } else {
                    c
                },
        );
        let mut name = String::new();
        let mut i: usize = 0;
        while i < chars.len()
            invariant
                i <= chars@.len(),
                chars@ == self.name@,
                spaced == self.name@.map_values(
                    |c: char|
                        if control(c) {
                            ' '
                        } else {
                            c
                        },
                ),
                name@ == spaced.take(i as int),
            decreases chars.len() - i,
        {
            if is_control(chars[i]) {
                name.push(' ');
            } else {
                name.push(chars[i]);
            }
            i += 1;
            assert(spaced.take(i as int) =~= spaced.take(i - 1).push(spaced[i - 1]));
        }
        assert(spaced.take(i as int) =~= spaced);
        collapse_whitespace(name.as_str()).concat(" (PID ").concat(
            decimal(self.pid).as_str(),
        ).concat(")")
    }
}

impl ReplacementInspection {
    /// Whether a replacement would end something, so that a person is asked.
    pub fn requires_confirmation(&self) -> (r: bool)
        ensures
            r == self@.needs_confirmation(),
    {
        self.foreground_processes.len() > 0
    }

    /// The first processes that a replacement would end, for a person to see.
    pub fn safe_summary(&self) -> (text: String)
        ensures
            text@ == self@.summary(),
    {
        let ghost all = self@.foreground_processes;
        let count: usize = if self.foreground_processes.len() < 3 {
            self.foreground_processes.len()
        } else {
            3
        };
        let ghost shown = all.take(count as int).map_values(
            |process: ProcessView| ForegroundProcess::shown(process),
        );
        let mut parts: Vec<String> = Vec::new();
        let mut i: usize = 0;
        assert(views(parts@) =~= shown.take(0));
        while i < count
            invariant
                i <= count <= self.foreground_processes@.len(),
                all == self@.foreground_processes,
                shown == all.take(count as int).map_values(
                    |process: ProcessView| ForegroundProcess::shown(process),
                ),
                views(parts@) == shown.take(i as int),
            decreases count - i,
        {
            let part = self.foreground_processes[i].summary();
            let ghost before = parts@;
            let ghost text = part@;
            assert(all[i as int] == self.foreground_processes@[i as int]@);
            assert(shown[i as int] == text);
            parts.push(part);
            assert(views(parts@) =~= views(before).push(text));
            i += 1;
            assert(shown.take(i as int) =~= shown.take(i - 1).push(shown[i - 1]));
        }
        assert(shown.take(i as int) =~= shown);
        join(&parts, ", ")
    }

    /// Whether two inspections saw the same.
    pub fn same(&self, other: &Self) -> (r: bool)
        ensures
            r == (self@ == other@),
    {
        let ghost left = self@.foreground_processes;
        let ghost right = other@.foreground_processes;
        if !same_text(self.pane_id.as_str(), other.pane_id.as_str()) {
            return false;
        }
        if self.foreground_processes.len() != other.foreground_processes.len() {
            assert(left.len() != right.len());
            return false;
        }
        let mut i: usize = 0;
        while i < self.foreground_processes.len()
            invariant
                i <= self.foreground_processes@.len(),
                self.foreground_processes@.len() == other.foreground_processes@.len(),
                left == self@.foreground_processes,
                right == other@.foreground_processes,
                forall|j: int| 0 <= j < i ==> left[j] == right[j],
            decreases self.foreground_processes.len() - i,
        {
            assert(left[i as int] == self.foreground_processes@[i as int]@);
            assert(right[i as int] == other.foreground_processes@[i as int]@);
            if !self.foreground_processes[i].same(&other.foreground_processes[i]) {
                return false;
            }
            i += 1;
        }
        assert(left =~= right);
        true
    }
}

/// The texts among the first `count` items of an array.
pub open spec fn texts_in(nodes: Seq<NodeView>, path: Seq<StepView>, count: int) -> Seq<Seq<char>>
    decreases count,
{
    if count <= 0 {
        Seq::empty()
    } else {
        let front = texts_in(nodes, path, count - 1);
        match text_at(nodes, item(path, count - 1)) {
            Some(text) => front.push(text),
            None => front,
        }
    }
}

/// The number of items of the array at a path; nothing else has items.
pub open spec fn items_at(nodes: Seq<NodeView>, path: Seq<StepView>) -> int {
    match value_at(nodes, path) {
        Some(JsonView::Array(len)) => len,
        _ => 0,
    }
}

/// The number of items of the array at `path`.
fn count_items(nodes: &Vec<JsonNode>, path: &Vec<Step>) -> (count: usize)
    ensures
        count == items_at(node_views(nodes@), step_views(path@)),
{
    match find_value(nodes, path) {
        Some(JsonValue::Array(len)) => *len,
        _ => 0,
    }
}

/// The texts of the array at a path.
fn collect_texts(nodes: &Vec<JsonNode>, path: Vec<Step>) -> (texts: Vec<String>)
    ensures
        views(texts@) == texts_in(
            node_views(nodes@),
            step_views(path@),
            items_at(node_views(nodes@), step_views(path@)),
        ),
{
    let count = count_items(nodes, &path);
    let mut texts: Vec<String> = Vec::new();
    let mut i: usize = 0;
    assert(views(texts@) =~= Seq::empty());
    while i < count
        invariant
            i <= count,
            views(texts@) == texts_in(node_views(nodes@), step_views(path@), i as int),
        decreases count - i,
    {
        if let Some(text) = find_text(nodes, &item_path(copy_path(&path), i)) {
            let ghost before = texts@;
            let ghost shown = text@;
            texts.push(text);
            assert(views(texts@) =~= views(before).push(shown));
        }
        i += 1;
    }
    texts
}

/// The process at a path, or why there is none.
pub open spec fn process_at(nodes: Seq<NodeView>, path: Seq<StepView>) -> Result<
    ProcessView,
    Seq<char>,
> {
    match value_at(nodes, field(path, "pid"@)) {
        Some(JsonView::Number(Some(pid))) => match text_at(nodes, field(path, "name"@)) {
            Some(name) => if name.len() > 0 {
                Ok(
                    ProcessView {
                        pid,
                        name,
                        argv: texts_in(
                            nodes,
                            field(path, "argv"@),
                            items_at(nodes, field(path, "argv"@)),
                        ),
                    },
                )
            } else {
                Err("Herdr foreground process did not contain name"@)
            },
            None => Err("Herdr foreground process did not contain name"@),
        },
        _ => Err("Herdr foreground process did not contain pid"@),
    }
}

/// The process at a path.
fn read_process(nodes: &Vec<JsonNode>, path: Vec<Step>) -> (r: Result<ForegroundProcess, Failure>)
    ensures
        match process_at(node_views(nodes@), step_views(path@)) {
            Ok(process) => r is Ok && r->Ok_0@ == process,
            Err(text) => r is Err && r->Err_0@ == plain(text),
        },
{
    let pid: u64 = match find_value(nodes, &field_path(copy_path(&path), "pid")) {
        Some(JsonValue::Number(Some(pid))) => *pid,
        _ => {
            return Err(Failure::new("Herdr foreground process did not contain pid".to_owned()));
        },
    };
    let name = match find_text(nodes, &field_path(copy_path(&path), "name")) {
        Some(name) => name,
        None => {
            return Err(Failure::new("Herdr foreground process did not contain name".to_owned()));
        },
    };
    if name.as_str().is_empty() {
        return Err(Failure::new("Herdr foreground process did not contain name".to_owned()));
    }
    let argv = collect_texts(nodes, field_path(path, "argv"));
    Ok(ForegroundProcess { pid, name, argv })
}

/// The first `count` processes of an array, or why one of them is none.
pub open spec fn processes_in(nodes: Seq<NodeView>, path: Seq<StepView>, count: int) -> Result<
    Seq<ProcessView>,
    Seq<char>,
>
    decreases count,
{
    if count <= 0 {
        Ok(Seq::empty())
    } else {
        match processes_in(nodes, path, count - 1) {
            Err(text) => Err(text),
            Ok(front) => match process_at(nodes, item(path, count - 1)) {
                Ok(process) => Ok(front.push(process)),
                Err(text) => Err(text),
            },
        }
    }
}

/// A process that is none among the first spoils all.
proof fn lemma_spoiled(nodes: Seq<NodeView>, path: Seq<StepView>, few: int, many: int)
    requires
        0 <= few <= many,
        processes_in(nodes, path, few) is Err,
    ensures
        processes_in(nodes, path, many) == processes_in(nodes, path, few),
    decreases many - few,
{
    if few < many {
        lemma_spoiled(nodes, path, few, many - 1);
    }
}

/// The path of what a pane runs.
pub open spec fn process_info_path() -> Seq<StepView> {
    field(field(root(), "result"@), "process_info"@)
}

/// What runs in the foreground of the pane that was asked about, or why that
/// cannot be said.
pub open spec fn inspection(nodes: Seq<NodeView>, pane_id: Seq<char>) -> Result<
    InspectionView,
    Seq<char>,
> {
    let info = process_info_path();
    let processes = field(info, "foreground_processes"@);
    match type_problem(nodes, seq!["pane_process_info"@]) {
        Some(text) => Err(text),
        None => if value_at(nodes, info) is None {
            Err("Herdr process response did not contain process_info"@)
        } else {
            match text_at(nodes, field(info, "pane_id"@)) {
                None => Err("Herdr process response did not contain pane_id"@),
                Some(reported) => if reported != pane_id {
                    Err(
                        "Herdr inspected pane `"@ + reported + "`, not requested pane `"@ + pane_id
                            + "`"@,
                    )
                } else {
                    match processes_in(nodes, processes, items_at(nodes, processes)) {
                        Ok(found) => Ok(InspectionView { pane_id, foreground_processes: found }),
                        Err(text) => Err(text),
                    }
                },
            }
        },
    }
}

/// What runs in the foreground of a pane.
pub fn process_info(nodes: &Vec<JsonNode>, pane_id: &str) -> (r: Result<
    ReplacementInspection,
    Failure,
>)
    ensures
        match inspection(node_views(nodes@), pane_id@) {
            Ok(found) => r is Ok && r->Ok_0@ == found,
            Err(text) => r is Err && r->Err_0@ == plain(text),
        },
{
    match require_result_type(nodes, "pane_process_info") {
        Ok(()) => {},
        Err(failure) => {
            return Err(failure);
        },
    }
    let info = field_path(field_path(root_path(), "result"), "process_info");
    if !has_value(nodes, &info) {
        return Err(
            Failure::new("Herdr process response did not contain process_info".to_owned()),
        );
    }
    let reported = match find_text(nodes, &field_path(copy_path(&info), "pane_id")) {
        Some(reported) => reported,
        None => {
            return Err(Failure::new("Herdr process response did not contain pane_id".to_owned()));
        },
    };
    if !same_text(reported.as_str(), pane_id) {
        return Err(
            Failure::new(
                "Herdr inspected pane `".to_owned().concat(reported.as_str()).concat(
                    "`, not requested pane `",
                ).concat(pane_id).concat("`"),
            ),
        );
    }
    let path = field_path(info, "foreground_processes");
    let count = count_items(nodes, &path);
    let mut processes: Vec<ForegroundProcess> = Vec::new();
    let mut i: usize = 0;
    assert(process_views(processes@) =~= Seq::empty());
    while i < count
        invariant
            i <= count,
            count == items_at(node_views(nodes@), step_views(path@)),
            step_views(path@) == field(process_info_path(), "foreground_processes"@),
            type_problem(node_views(nodes@), seq!["pane_process_info"@]) is None,
            value_at(node_views(nodes@), process_info_path()) is Some,
            text_at(node_views(nodes@), field(process_info_path(), "pane_id"@)) == Some(pane_id@),
            processes_in(node_views(nodes@), step_views(path@), i as int) == Ok::<
                Seq<ProcessView>,
                Seq<char>,
            >(process_views(processes@)),
        decreases count - i,
    {
        let ghost before = processes@;
        match read_process(nodes, item_path(copy_path(&path), i)) {
            Ok(process) => {
                let ghost shown = process@;
                processes.push(process);
                assert(process_views(processes@) =~= process_views(before).push(shown));
            },
            Err(failure) => {
                proof {
                    lemma_spoiled(
                        node_views(nodes@),
                        step_views(path@),
                        i + 1,
                        count as int,
                    );
                }
                return Err(failure);
            },
        }
        i += 1;
    }
    Ok(ReplacementInspection { pane_id: pane_id.to_owned(), foreground_processes: processes })
}

/// What an attaching command hides behind an agent hint, if it has one: the
/// program and the arguments that really run.
pub open spec fn unwrapped(command: CommandView) -> Option<CommandView> {
    if file_name(command.program) == Some("env"@) && command.args.len() > 0
        && "HERDR_AGENT="@.is_prefix_of(command.args[0]) {
        if command.args.len() < 2 {
            None
        } else {
            Some(CommandView { program: command.args[1], args: command.args.skip(2) })
        }
    } else {
        Some(command)
    }
}

/// The exact target of a command that attaches an external session.
pub open spec fn external_target(args: Seq<Seq<char>>) -> Option<Seq<char>> {
    if args.len() == 6 && args[0] == "session"@ && args[1] == "attach-external"@ && args[2]
        == "--target"@ && args[4] == "--"@ {
        Some("="@ + args[5])
    } else {
        None
    }
}

/// A process attaches an external session: tmux itself, or ssh that runs it.
pub open spec fn attaches_external(
    program: Seq<char>,
    argv: Seq<Seq<char>>,
    target: Seq<char>,
) -> bool {
    if program == "tmux"@ {
        argv.drop_first() == seq!["attach-session"@, "-t"@, target]
    } else {
        program == "ssh"@ && !target.contains('\0') && argv.last()
            == "'tmux' 'attach-session' '-t' "@ + quoted_word(target)
    }
}

/// A process is the one that a command was to start.
pub open spec fn attach_process(process: ProcessView, expected: CommandView) -> bool {
    if process.argv.len() == 0 || file_name(process.argv[0]) is None {
        false
    } else {
        let program = file_name(process.argv[0])->0;
        match unwrapped(expected) {
            None => false,
            Some(command) => {
                ||| file_name(command.program) == Some(program) && process.argv.drop_first()
                    == command.args
                ||| external_target(command.args) is Some && attaches_external(
                    program,
                    process.argv,
                    external_target(command.args)->0,
                )
            },
        }
    }
}

/// The texts behind the first `count`.
pub fn texts_from(texts: &Vec<String>, count: usize) -> (rest: Vec<String>)
    requires
        count <= texts@.len(),
    ensures
        views(rest@) == views(texts@).skip(count as int),
{
    let ghost wanted = views(texts@).skip(count as int);
    let mut rest: Vec<String> = Vec::new();
    let mut i: usize = count;
    assert(views(rest@) =~= wanted.take(0));
    while i < texts.len()
        invariant
            count <= i <= texts@.len(),
            wanted == views(texts@).skip(count as int),
            views(rest@) == wanted.take(i - count),
        decreases texts.len() - i,
    {
        let ghost before = rest@;
        let text = texts[i].clone();
        let ghost shown = text@;
        assert(wanted[i - count] == shown);
        rest.push(text);
        assert(views(rest@) =~= views(before).push(shown));
        i += 1;
        assert(wanted.take(i - count) =~= wanted.take(i - 1 - count).push(wanted[i - 1 - count]));
    }
    assert(wanted.take(i - count) =~= wanted);
    rest
}

/// The program and the arguments that really run.
fn unwrap_command(command: &CommandSpec) -> (r: Option<CommandSpec>)
    ensures
        match r {
            Some(found) => unwrapped(command@) == Some(found@),
            None => unwrapped(command@) is None,
        },
{
    let wrapped = match file_name_of(command.program.as_str()) {
        Some(name) => same_text(name.as_str(), "env"),
        None => false,
    };
    assert(command.args@.len() > 0 ==> command@.args[0] == command.args@[0]@);
    if wrapped && command.args.len() > 0 && has_prefix(command.args[0].as_str(), "HERDR_AGENT=") {
        if command.args.len() < 2 {
            return None;
        }
        assert(command@.args[1] == command.args@[1]@);
        return Some(
            CommandSpec { program: command.args[1].clone(), args: texts_from(&command.args, 2) },
        );
    }
    Some(command.clone())
}

/// The exact target of a command that attaches an external session.
fn find_external_target(args: &Vec<String>) -> (target: Option<String>)
    ensures
        match target {
            Some(target) => external_target(views(args@)) == Some(target@),
            None => external_target(views(args@)) is None,
        },
{
    if args.len() != 6 {
        return None;
    }
    let ghost all = views(args@);
    assert(all[0] == args@[0]@ && all[1] == args@[1]@ && all[2] == args@[2]@ && all[4]
        == args@[4]@ && all[5] == args@[5]@);
    if same_text(args[0].as_str(), "session") && same_text(args[1].as_str(), "attach-external")
        && same_text(args[2].as_str(), "--target") && same_text(args[4].as_str(), "--") {
        Some("=".to_owned().concat(args[5].as_str()))
    } else {
        None
    }
}

/// Whether a process is the one that a command was to start.
pub fn is_attach_process(process: &ForegroundProcess, expected: &CommandSpec) -> (r: bool)
    ensures
        r == attach_process(process@, expected@),
{
    if process.argv.len() == 0 {
        return false;
    }
    let ghost argv = process@.argv;
    assert(argv[0] == process.argv@[0]@);
    let program = match file_name_of(process.argv[0].as_str()) {
        Some(program) => program,
        None => {
            return false;
        },
    };
    let command = match unwrap_command(expected) {
        Some(command) => command,
        None => {
            return false;
        },
    };
    let behind = texts_from(&process.argv, 1);
    assert(views(behind@) =~= argv.drop_first());
    if let Some(name) = file_name_of(command.program.as_str()) {
        if same_text(name.as_str(), program.as_str()) && same_texts(&behind, &command.args) {
            return true;
        }
    }
    let target = match find_external_target(&command.args) {
        Some(target) => target,
        None => {
            return false;
        },
    };
    if same_text(program.as_str(), "tmux") {
        let wanted = vec!["attach-session".to_owned(), "-t".to_owned(), target.clone()];
        assert(views(wanted@) =~= seq!["attach-session"@, "-t"@, target@]);
        return same_texts(&behind, &wanted);
    }
    if !same_text(program.as_str(), "ssh") {
        return false;
    }
    match posix_quote(target.as_str()) {
        Ok(word) => {
            let wanted = "'tmux' 'attach-session' '-t' ".to_owned().concat(word.as_str());
            let last = process.argv.len() - 1;
            assert(argv.last() == process.argv@[last as int]@);
            same_text(process.argv[last].as_str(), wanted.as_str())
        },
        Err(_) => false,
    }
}

/// The version that Herdr prints, or why it cannot be read.
pub open spec fn herdr_version(stdout: Seq<u8>) -> Result<(u64, u64, u64), FailureView> {
    if !valid_utf8(stdout) {
        Err(led_to("Herdr version output was not UTF-8"@, plain(utf8_fault(stdout))))
    } else {
        match without_prefix(trimmed(decode_utf8(stdout)), "herdr "@) {
            None => Err(plain("Herdr version output did not start with `herdr `"@)),
            Some(version) => match version_in_parts(parts_between(up_to(version, '-'), '.')) {
                Ok(numbers) => Ok(numbers),
                Err(text) => Err(plain(text)),
            },
        }
    }
}

/// The number in a place, if there is one.
pub open spec fn number_in(parts: Seq<Seq<char>>, at: int) -> Option<u64> {
    if at < parts.len() {
        number_of(parts[at])
    } else {
        None
    }
}

/// A version of three numbers, or which of them is missing.
pub open spec fn version_in_parts(parts: Seq<Seq<char>>) -> Result<(u64, u64, u64), Seq<char>> {
    match number_in(parts, 0) {
        None => Err("Herdr version output did not contain a numeric major version"@),
        Some(major) => match number_in(parts, 1) {
            None => Err("Herdr version output did not contain a numeric minor version"@),
            Some(minor) => match number_in(parts, 2) {
                None => Err("Herdr version output did not contain a numeric patch version"@),
                Some(patch) => if parts.len() > 3 {
                    Err("Herdr version output contained too many numeric components"@)
                } else {
                    Ok((major, minor, patch))
                },
            },
        },
    }
}

/// The number in a place, if there is one.
fn number_at(parts: &Vec<String>, at: usize) -> (number: Option<u64>)
    ensures
        number == number_in(views(parts@), at as int),
{
    if at < parts.len() {
        assert(views(parts@)[at as int] == parts@[at as int]@);
        parse_number(parts[at].as_str())
    } else {
        None
    }
}

/// The version that Herdr prints, or why it cannot be read.
pub fn parse_herdr_version(stdout: &Vec<u8>) -> (r: Result<(u64, u64, u64), Failure>)
    ensures
        match herdr_version(stdout@) {
            Ok(version) => r == Ok::<(u64, u64, u64), Failure>(version),
            Err(failure) => r is Err && r->Err_0@ == failure,
        },
{
    let text = match decode(stdout) {
        Ok(text) => text,
        Err(reason) => {
            return Err(
                Failure::new(reason).context("Herdr version output was not UTF-8".to_owned()),
            );
        },
    };
    let version = match strip_prefix(trim(text.as_str()).as_str(), "herdr ") {
        Some(version) => version,
        None => {
            return Err(
                Failure::new("Herdr version output did not start with `herdr `".to_owned()),
            );
        },
    };
    let parts = split_on(cut_at(version.as_str(), '-').as_str(), '.');
    let major: u64 = match number_at(&parts, 0) {
        Some(major) => major,
        None => {
            return Err(
                Failure::new(
                    "Herdr version output did not contain a numeric major version".to_owned(),
                ),
            );
        },
    };
    let minor: u64 = match number_at(&parts, 1) {
        Some(minor) => minor,
        None => {
            return Err(
                Failure::new(
                    "Herdr version output did not contain a numeric minor version".to_owned(),
                ),
            );
        },
    };
    let patch: u64 = match number_at(&parts, 2) {
        Some(patch) => patch,
        None => {
            return Err(
                Failure::new(
                    "Herdr version output did not contain a numeric patch version".to_owned(),
                ),
            );
        },
    };
    if parts.len() > 3 {
        return Err(
            Failure::new("Herdr version output contained too many numeric components".to_owned()),
        );
    }
    Ok((major, minor, patch))
}

} // verus!
