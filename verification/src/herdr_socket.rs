//! Herdr's socket: what is asked on it, and what its answers mean.

use vstd::prelude::*;
use vstd::string::*;
use vstd::utf8::*;

use crate::failure::{plain, Failure};
use crate::fields::{
    cut_at, is_older, number_fault, number_of, older, parts_between, read_number, split_on,
    strip_prefix, up_to, without_prefix,
};
use crate::json_text::{json_string, json_strings_stay_on_one_line, write_json_string};
use crate::text::{byte_len, byte_length, decimal, numeral, opt_view, same_text};
use crate::tokens::Tokens;

verus! {

/// How long an answer on the socket may take, in milliseconds.
pub const DEFAULT_SOCKET_TIMEOUT_MILLIS: u64 = 5_000;

/// How long a subscription waits for an event before it looks whether it is to
/// stop, in milliseconds.
pub const EVENT_READ_TIMEOUT_MILLIS: u64 = 250;

/// The pause before a lost subscription is tried again, in milliseconds.
pub const RECONNECT_DELAY_MILLIS: u64 = 200;

pub const MAX_REQUEST_BYTES: usize = 262_144;

pub const MAX_RESPONSE_BYTES: usize = 2_097_152;

pub const MAX_PROMPT_BYTES: usize = 65_536;

pub const MIN_MISSION_CONTROL_VERSION: (u64, u64, u64) = (0, 7, 5);

/// What Herdr says about an agent.
#[derive(Clone, Copy, Debug, PartialEq, Eq, Structural)]
pub enum AgentStatus {
    Idle,
    Working,
    Blocked,
    Done,
    Unknown,
}

impl Default for AgentStatus {
    fn default() -> (status: Self)
        ensures
            status == AgentStatus::Unknown,
    {
        AgentStatus::Unknown
    }
}

impl AgentStatus {
    /// The agent waits for nothing and works on nothing.
    pub open spec fn settled(self) -> bool {
        self == AgentStatus::Idle || self == AgentStatus::Done
    }

    /// Whether the agent waits for nothing and works on nothing.
    pub fn is_settled(self) -> (r: bool)
        ensures
            r == self.settled(),
    {
        matches!(self, AgentStatus::Idle | AgentStatus::Done)
    }

    /// The status, as a reader sees it.
    pub fn label(self) -> (text: &'static str)
        ensures
            text@ == match self {
                AgentStatus::Idle => "IDLE"@,
                AgentStatus::Working => "WORKING"@,
                AgentStatus::Blocked => "BLOCKED"@,
                AgentStatus::Done => "DONE"@,
                AgentStatus::Unknown => "UNKNOWN"@,
            },
    {
        match self {
            AgentStatus::Idle => "IDLE",
            AgentStatus::Working => "WORKING",
            AgentStatus::Blocked => "BLOCKED",
            AgentStatus::Done => "DONE",
            AgentStatus::Unknown => "UNKNOWN",
        }
    }
}

/// An agent that Herdr recognizes.
#[derive(Debug, PartialEq, Eq)]
pub struct HerdrAgentInfo {
    pub terminal_id: String,
    pub name: Option<String>,
    pub agent: Option<String>,
    pub title: Option<String>,
    pub agent_status: AgentStatus,
    pub tokens: Tokens,
    pub workspace_id: String,
    pub tab_id: String,
    pub pane_id: String,
    pub focused: bool,
    pub state_change_seq: u64,
    pub revision: u64,
}

/// The contents of a [`HerdrAgentInfo`].
pub struct AgentView {
    pub terminal_id: Seq<char>,
    pub name: Option<Seq<char>>,
    pub agent: Option<Seq<char>>,
    pub title: Option<Seq<char>>,
    pub agent_status: AgentStatus,
    pub tokens: Map<Seq<char>, Seq<char>>,
    pub workspace_id: Seq<char>,
    pub tab_id: Seq<char>,
    pub pane_id: Seq<char>,
    pub focused: bool,
    pub state_change_seq: u64,
    pub revision: u64,
}

impl View for HerdrAgentInfo {
    type V = AgentView;

    open spec fn view(&self) -> AgentView {
        AgentView {
            terminal_id: self.terminal_id@,
            name: opt_view(self.name),
            agent: opt_view(self.agent),
            title: opt_view(self.title),
            agent_status: self.agent_status,
            tokens: self.tokens@,
            workspace_id: self.workspace_id@,
            tab_id: self.tab_id@,
            pane_id: self.pane_id@,
            focused: self.focused,
            state_change_seq: self.state_change_seq,
            revision: self.revision,
        }
    }
}

/// The contents of each agent.
pub open spec fn agent_views(agents: Seq<HerdrAgentInfo>) -> Seq<AgentView> {
    agents.map_values(|agent: HerdrAgentInfo| agent@)
}

/// A pane of Herdr.
#[derive(Debug, PartialEq, Eq)]
pub struct HerdrPaneInfo {
    pub pane_id: String,
    pub terminal_id: String,
    pub workspace_id: String,
    pub tab_id: String,
    pub agent: Option<String>,
    pub agent_status: AgentStatus,
    pub tokens: Tokens,
    pub revision: u64,
}

/// Everything that Herdr shows at one time.
#[derive(Debug, PartialEq, Eq)]
pub struct HerdrSessionSnapshot {
    pub version: String,
    pub protocol: u32,
    pub focused_workspace_id: Option<String>,
    pub focused_tab_id: Option<String>,
    pub focused_pane_id: Option<String>,
    pub panes: Vec<HerdrPaneInfo>,
    pub agents: Vec<HerdrAgentInfo>,
}

/// A number of a version, or why it is none.
pub open spec fn version_number(text: Seq<char>) -> Result<u64, Seq<char>> {
    match number_of(text) {
        Some(number) => Ok(number),
        None => Err(number_fault(text)),
    }
}

/// A version of three numbers, or the first thing that is wrong with it.
pub open spec fn version_in(parts: Seq<Seq<char>>) -> Result<(u64, u64, u64), Seq<char>> {
    match version_number(parts[0]) {
        Err(reason) => Err(reason),
        Ok(major) => if parts.len() < 2 {
            Err("Herdr version did not contain a minor component"@)
        } else {
            match version_number(parts[1]) {
                Err(reason) => Err(reason),
                Ok(minor) => if parts.len() < 3 {
                    Err("Herdr version did not contain a patch component"@)
                } else {
                    match version_number(parts[2]) {
                        Err(reason) => Err(reason),
                        Ok(patch) => if parts.len() > 3 {
                            Err("Herdr version contained too many components"@)
                        } else {
                            Ok((major, minor, patch))
                        },
                    }
                },
            }
        },
    }
}

/// The version that a text gives: three numbers, behind a `v` or not, and
/// before a hyphen; or what is wrong with it.
pub open spec fn version_of(text: Seq<char>) -> Result<(u64, u64, u64), Seq<char>> {
    let bare = match without_prefix(text, "v"@) {
        Some(rest) => rest,
        None => text,
    };
    version_in(parts_between(up_to(bare, '-'), '.'))
}

/// The outcome of reading a version is exactly what the text gives.
pub open spec fn gives_version(
    r: Result<(u64, u64, u64), Failure>,
    given: Result<(u64, u64, u64), Seq<char>>,
) -> bool {
    match given {
        Ok(version) => r == Ok::<(u64, u64, u64), Failure>(version),
        Err(text) => r is Err && r->Err_0@ == plain(text),
    }
}

/// A number of a version.
fn parse_version_number(text: &str) -> (r: Result<u64, Failure>)
    ensures
        match version_number(text@) {
            Ok(number) => r == Ok::<u64, Failure>(number),
            Err(reason) => r is Err && r->Err_0@ == plain(reason),
        },
{
    match read_number(text) {
        Ok(number) => Ok(number),
        Err(reason) => Err(Failure::new(reason)),
    }
}

/// The version that a text gives, or what is wrong with it.
pub fn parse_version(value: &str) -> (r: Result<(u64, u64, u64), Failure>)
    ensures
        gives_version(r, version_of(value@)),
{
    let bare = match strip_prefix(value, "v") {
        Some(rest) => rest,
        None => value.to_owned(),
    };
    let core = cut_at(bare.as_str(), '-');
    let parts = split_on(core.as_str(), '.');
    let ghost all = parts_between(core@, '.');
    assert(all[0] == parts@[0]@);
    let major: u64 = parse_version_number(parts[0].as_str())?;
    if parts.len() < 2 {
        return Err(
            Failure::new("Herdr version did not contain a minor component".to_owned()),
        );
    }
    assert(all[1] == parts@[1]@);
    let minor: u64 = parse_version_number(parts[1].as_str())?;
    if parts.len() < 3 {
        return Err(
            Failure::new("Herdr version did not contain a patch component".to_owned()),
        );
    }
    assert(all[2] == parts@[2]@);
    let patch: u64 = parse_version_number(parts[2].as_str())?;
    if parts.len() > 3 {
        return Err(Failure::new("Herdr version contained too many components".to_owned()));
    }
    Ok((major, minor, patch))
}

impl HerdrSessionSnapshot {
    /// Mission Control works with the version that the snapshot gives.
    pub open spec fn supported(self) -> bool {
        match version_of(self.version@) {
            Ok(version) => !older(version, MIN_MISSION_CONTROL_VERSION),
            Err(_) => false,
        }
    }

    /// The version that the snapshot gives, or what is wrong with it.
    pub fn version_tuple(&self) -> (r: Result<(u64, u64, u64), Failure>)
        ensures
            gives_version(r, version_of(self.version@)),
    {
        parse_version(self.version.as_str())
    }

    /// Whether Mission Control works with this version of Herdr.
    pub fn supports_mission_control(&self) -> (r: bool)
        ensures
            r == self.supported(),
    {
        match self.version_tuple() {
            Ok(version) => !is_older(version, MIN_MISSION_CONTROL_VERSION),
            Err(_) => false,
        }
    }
}

/// What was read of an agent's terminal.
#[derive(Debug, PartialEq, Eq)]
pub struct HerdrAgentRead {
    pub pane_id: String,
    pub workspace_id: String,
    pub tab_id: String,
    pub text: String,
    pub revision: u64,
    pub truncated: bool,
}

/// What a subscription tells its reader.
#[derive(Clone, Copy, Debug, PartialEq, Eq, Structural)]
pub enum EventSignal {
    Resnapshot { reconnected: bool },
    Changed,
    Disconnected,
}

/// Why a prompt did not surely arrive.
#[derive(Debug, PartialEq, Eq)]
pub enum PromptDeliveryError {
    Rejected { code: String, message: String },
    Uncertain,
}

/// The contents of a [`PromptDeliveryError`].
pub enum DeliveryErrorView {
    Rejected { code: Seq<char>, message: Seq<char> },
    Uncertain,
}

impl View for PromptDeliveryError {
    type V = DeliveryErrorView;

    open spec fn view(&self) -> DeliveryErrorView {
        match self {
            PromptDeliveryError::Rejected { code, message } => DeliveryErrorView::Rejected {
                code: code@,
                message: message@,
            },
            PromptDeliveryError::Uncertain => DeliveryErrorView::Uncertain,
        }
    }
}

impl PromptDeliveryError {
    /// What went wrong, for a reader.
    pub fn message(&self) -> (text: String)
        ensures
            text@ == match self@ {
                DeliveryErrorView::Rejected { code, message } =>
                    "Herdr rejected the prompt before delivery: "@ + code + ": "@ + message,
                DeliveryErrorView::Uncertain =>
                    "prompt delivery outcome is uncertain; Tether will not retry automatically"@,
            },
    {
        match self {
            PromptDeliveryError::Rejected { code, message } =>
                "Herdr rejected the prompt before delivery: ".to_owned().concat(
                code.as_str(),
            ).concat(": ").concat(message.as_str()),
            PromptDeliveryError::Uncertain =>
                "prompt delivery outcome is uncertain; Tether will not retry automatically".to_owned(),
        }
    }
}

/// A code that says for sure that a prompt was not delivered.
pub open spec fn confirms_no_delivery(code: Seq<char>) -> bool {
    ||| code == "invalid_request"@
    ||| code == "invalid_params"@
    ||| code == "method_not_found"@
    ||| code == "protocol_mismatch"@
    ||| code == "permission_denied"@
    ||| code == "agent_not_found"@
    ||| code == "agent_not_running"@
    ||| code == "agent_ambiguous"@
    ||| code == "unsupported"@
}

/// Whether a code says for sure that a prompt was not delivered.
pub fn prompt_error_confirms_no_delivery(code: &str) -> (r: bool)
    ensures
        r == confirms_no_delivery(code@),
{
    same_text(code, "invalid_request") || same_text(code, "invalid_params") || same_text(
        code,
        "method_not_found",
    ) || same_text(code, "protocol_mismatch") || same_text(code, "permission_denied") || same_text(
        code,
        "agent_not_found",
    ) || same_text(code, "agent_not_running") || same_text(code, "agent_ambiguous") || same_text(
        code,
        "unsupported",
    )
}

/// A duration in whole milliseconds, as far as they fit.
pub fn duration_millis(millis: u128) -> (r: u64)
    ensures
        r == if millis <= u64::MAX {
            millis as int
        } else {
            u64::MAX as int
        },
{
    if millis <= u64::MAX as u128 {
        millis as u64
    } else {
        u64::MAX
    }
}

/// The number of short pauses of twenty milliseconds that make up a delay.
pub fn stop_slices(millis: u64) -> (slices: u64)
    ensures
        slices * 20 >= millis,
        millis > 0 ==> (slices - 1) * 20 < millis,
        millis == 0 ==> slices == 0,
{
    if millis % 20 == 0 {
        millis / 20
    } else {
        millis / 20 + 1
    }
}

/// The line that asks for a method.
pub open spec fn request_text(id: Seq<char>, method: Seq<char>, params: Seq<char>) -> Seq<char> {
    "{\"id\":"@ + json_string(id) + ",\"method\":"@ + json_string(method) + ",\"params\":"@ + params
        + "}"@
}

/// A text without line breaks stays one when another is put behind it.
proof fn lemma_one_line(a: Seq<char>, b: Seq<char>)
    requires
        !a.contains('\n'),
        !b.contains('\n'),
    ensures
        !(a + b).contains('\n'),
{
    assert forall|i: int| 0 <= i < (a + b).len() implies (a + b)[i] != '\n' by {
        if i < a.len() {
            assert((a + b)[i] == a[i]);
            assert(a.contains(a[i]));
        } else {
            assert((a + b)[i] == b[i - a.len()]);
            assert(b.contains(b[i - a.len()]));
        }
    }
}

/// The bytes that ask for a method: one line of JSON. `params` is the JSON
/// text of the parameters.
pub fn encode_request(id: &str, method: &str, params: &str) -> (r: Result<Vec<u8>, Failure>)
    ensures
        ({
            let text = request_text(id@, method@, params@);
            if byte_len(text) > MAX_REQUEST_BYTES {
                r is Err && r->Err_0@ == plain(
                    "Herdr socket request exceeded "@ + numeral(MAX_REQUEST_BYTES as nat)
                        + " bytes"@,
                )
            } else {
                r is Ok && r->Ok_0@ == encode_utf8(text) + seq![10u8] && (!params@.contains('\n')
                    ==> !text.contains('\n'))
            }
        }),
{
    let id_text = write_json_string(id);
    let method_text = write_json_string(method);
    let text = "{\"id\":".to_owned().concat(id_text.as_str()).concat(",\"method\":").concat(
        method_text.as_str(),
    ).concat(",\"params\":").concat(params).concat("}");
    proof {
        if !params@.contains('\n') {
            reveal_strlit("{\"id\":");
            reveal_strlit(",\"method\":");
            reveal_strlit(",\"params\":");
            reveal_strlit("}");
            let a = "{\"id\":"@;
            let b = a + json_string(id@);
            let c = b + ",\"method\":"@;
            let d = c + json_string(method@);
            let e = d + ",\"params\":"@;
            let f = e + params@;
            assert(!a.contains('\n'));
            assert(!",\"method\":"@.contains('\n'));
            assert(!",\"params\":"@.contains('\n'));
            assert(!"}"@.contains('\n'));
            json_strings_stay_on_one_line(id@);
            json_strings_stay_on_one_line(method@);
            lemma_one_line(a, json_string(id@));
            lemma_one_line(b, ",\"method\":"@);
            lemma_one_line(c, json_string(method@));
            lemma_one_line(d, ",\"params\":"@);
            lemma_one_line(e, params@);
            lemma_one_line(f, "}"@);
        }
    }
    if byte_length(text.as_str()) > MAX_REQUEST_BYTES {
        return Err(
            Failure::new(
                "Herdr socket request exceeded ".to_owned().concat(
                    decimal(MAX_REQUEST_BYTES as u64).as_str(),
                ).concat(" bytes"),
            ),
        );
    }
    let bytes = text.as_str().as_bytes();
    let mut encoded: Vec<u8> = Vec::new();
    let mut i: usize = 0;
    while i < bytes.len()
        invariant
            i <= bytes@.len(),
            encoded@ == bytes@.take(i as int),
        decreases bytes.len() - i,
    {
        encoded.push(bytes[i]);
        i += 1;
        assert(bytes@.take(i as int) =~= bytes@.take(i - 1).push(bytes@[i - 1]));
    }
    assert(bytes@.take(i as int) =~= bytes@);
    encoded.push(10u8);
    assert(encoded@ =~= encode_utf8(text@) + seq![10u8]);
    Ok(encoded)
}

/// What the bytes received so far make.
pub enum LineView {
    /// The line goes on.
    More(Seq<u8>),
    /// The line is complete.
    Line(Seq<u8>),
    /// The line is too long.
    TooLong,
    /// The connection was closed before the line began.
    Closed,
    /// The connection was closed within the line.
    Partial,
}

/// The number of bytes of a chunk that belong to the line: up to a line break.
pub open spec fn line_part(chunk: Seq<u8>) -> int
    decreases chunk.len(),
{
    if chunk.len() == 0 {
        0
    } else if chunk[0] == 10u8 {
        1
    } else {
        1 + line_part(chunk.drop_first())
    }
}

/// What a chunk makes of the bytes received before it. A chunk without bytes
/// says that the connection was closed.
pub open spec fn received(before: Seq<u8>, chunk: Seq<u8>, limit: int) -> LineView {
    let count = line_part(chunk);
    let whole = before + chunk.take(count);
    if chunk.len() == 0 {
        if before.len() == 0 {
            LineView::Closed
        } else {
            LineView::Partial
        }
    } else if whole.len() > limit {
        LineView::TooLong
    } else if whole.last() == 10u8 {
        LineView::Line(whole)
    } else {
        LineView::More(whole)
    }
}

/// A line break, if there is one, ends the part of a chunk that belongs to the
/// line.
proof fn lemma_line_part(chunk: Seq<u8>)
    ensures
        0 <= line_part(chunk) <= chunk.len(),
        chunk.len() > 0 ==> line_part(chunk) > 0,
        forall|i: int| 0 <= i < line_part(chunk) - 1 ==> chunk[i] != 10u8,
        line_part(chunk) < chunk.len() ==> chunk[line_part(chunk) - 1] == 10u8,
    decreases chunk.len(),
{
    if chunk.len() > 0 && chunk[0] != 10u8 {
        let rest = chunk.drop_first();
        lemma_line_part(rest);
        assert forall|i: int| 0 <= i < line_part(chunk) - 1 implies chunk[i] != 10u8 by {
            if i > 0 {
                assert(chunk[i] == rest[i - 1]);
            }
        }
        if line_part(chunk) < chunk.len() {
            assert(chunk[line_part(chunk) - 1] == rest[line_part(rest) - 1]);
        }
    }
}

/// A chunk without a line break belongs to the line whole.
proof fn lemma_line_part_joins(a: Seq<u8>, b: Seq<u8>)
    requires
        line_part(a) == a.len(),
        a.len() > 0 ==> a.last() != 10u8,
    ensures
        line_part(a + b) == a.len() + line_part(b),
    decreases a.len(),
{
    if a.len() > 0 {
        lemma_line_part(a);
        if a[0] == 10u8 {
            assert(a.len() == 1);
            assert(a.last() == a[0]);
        }
        let rest = a.drop_first();
        assert((a + b).drop_first() =~= rest + b);
        if rest.len() > 0 {
            assert(rest.last() == a.last());
        }
        lemma_line_part_joins(rest, b);
        assert((a + b)[0] == a[0]);
    } else {
        assert(a + b =~= b);
    }
}

/// A line is the same however its bytes are cut into chunks.
pub proof fn chunks_do_not_matter(before: Seq<u8>, a: Seq<u8>, b: Seq<u8>, limit: int)
    requires
        a.len() > 0,
        b.len() > 0,
        received(before, a, limit) is More,
    ensures
        received(received(before, a, limit)->More_0, b, limit) == received(before, a + b, limit),
{
    lemma_line_part(a);
    lemma_line_part(b);
    let count = line_part(a);
    let first = before + a.take(count);
    assert(first.last() == a[count - 1]);
    assert(count == a.len());
    assert(a.take(count) =~= a);
    lemma_line_part_joins(a, b);
    assert(before + (a + b).take(line_part(a + b)) =~= first + b.take(line_part(b)));
}

/// A line that arrives in chunks and may be no longer than its limit.
#[derive(Debug, PartialEq, Eq)]
pub struct BoundedLine {
    output: Vec<u8>,
    limit: usize,
}

/// What a chunk made of a line.
#[derive(Debug, PartialEq, Eq)]
pub enum LineStep {
    /// The line goes on; so many bytes of the chunk were used.
    More(usize),
    /// The line is complete; so many bytes of the chunk were used.
    Line(Vec<u8>, usize),
    /// The connection was closed before the line began.
    Closed,
}

impl BoundedLine {
    /// The bytes received so far.
    pub closed spec fn so_far(self) -> Seq<u8> {
        self.output@
    }

    /// The most bytes that the line may have.
    pub closed spec fn limit_view(self) -> int {
        self.limit as int
    }

    /// A line that has not begun.
    pub fn new(limit: usize) -> (line: Self)
        ensures
            line.so_far().len() == 0,
            line.limit_view() == limit,
    {
        BoundedLine { output: Vec::new(), limit }
    }

    /// Takes the next chunk. A chunk without bytes says that the connection
    /// was closed.
    pub fn read_bounded_line(&mut self, available: &Vec<u8>) -> (r: Result<LineStep, Failure>)
        ensures
            final(self).limit_view() == old(self).limit_view(),
            match received(old(self).so_far(), available@, old(self).limit_view()) {
                LineView::More(whole) => r == Ok::<LineStep, Failure>(
                    LineStep::More(line_part(available@) as usize),
                ) && final(self).so_far() == whole,
                LineView::Line(whole) => r is Ok && r->Ok_0 is Line && r->Ok_0->Line_0@ == whole
                    && r->Ok_0->Line_1 == line_part(available@) && final(self).so_far() == whole,
                LineView::TooLong => r is Err && r->Err_0@ == plain(
                    "Herdr socket record exceeded "@ + numeral(old(self).limit_view() as nat)
                        + " bytes"@,
                ) && final(self).so_far() == old(self).so_far(),
                LineView::Closed => r == Ok::<LineStep, Failure>(LineStep::Closed)
                    && final(self).so_far() == old(self).so_far(),
                LineView::Partial => r is Err && r->Err_0@ == plain(
                    "Herdr socket record was not newline terminated"@,
                ) && final(self).so_far() == old(self).so_far(),
            },
    {
        if available.len() == 0 {
            if self.output.len() == 0 {
                return Ok(LineStep::Closed);
            }
            return Err(
                Failure::new("Herdr socket record was not newline terminated".to_owned()),
            );
        }
        let total: usize = available.len();
        let mut count: usize = 0;
        let mut ended = false;
        assert(available@.skip(0) =~= available@);
        while count < total && !ended
            invariant
                total == available@.len(),
                count <= total,
                ended ==> line_part(available@) == count,
                !ended ==> line_part(available@) == count + line_part(
                    available@.skip(count as int),
                ),
            decreases total - count,
        {
            assert(available@.skip(count as int).drop_first() =~= available@.skip(count + 1));
            if available[count] == 10u8 {
                ended = true;
            }
            count += 1;
        }
        proof {
            lemma_line_part(available@);
            if !ended {
                assert(available@.skip(count as int).len() == 0);
            }
            assert(count == line_part(available@));
        }
        if count > self.limit || self.output.len() > self.limit - count {
            return Err(
                Failure::new(
                    "Herdr socket record exceeded ".to_owned().concat(
                        decimal(self.limit as u64).as_str(),
                    ).concat(" bytes"),
                ),
            );
        }
        let ghost before = self.output@;
        let ghost limit = self.limit;
        let mut i: usize = 0;
        assert(before + available@.take(0) =~= before);
        while i < count
            invariant
                i <= count <= available@.len(),
                self.limit == limit,
                self.output@ == before + available@.take(i as int),
            decreases count - i,
        {
            self.output.push(available[i]);
            i += 1;
            assert(before + available@.take(i as int) =~= (before + available@.take(i - 1)).push(
                available@[i - 1],
            ));
        }
        if self.output[self.output.len() - 1] == 10u8 {
            let line = copy_bytes(&self.output);
            Ok(LineStep::Line(line, count))
        } else {
            Ok(LineStep::More(count))
        }
    }
}

/// A copy of some bytes.
fn copy_bytes(bytes: &Vec<u8>) -> (copy: Vec<u8>)
    ensures
        copy@ == bytes@,
{
    let mut copy: Vec<u8> = Vec::new();
    let mut i: usize = 0;
    while i < bytes.len()
        invariant
            i <= bytes@.len(),
            copy@ == bytes@.take(i as int),
        decreases bytes.len() - i,
    {
        copy.push(bytes[i]);
        i += 1;
        assert(bytes@.take(i as int) =~= bytes@.take(i - 1).push(bytes@[i - 1]));
    }
    assert(bytes@.take(i as int) =~= bytes@);
    copy
}

/// A line break ends a line and stands nowhere else in it.
pub proof fn lines_end_at_their_first_break(before: Seq<u8>, chunk: Seq<u8>, limit: int)
    requires
        forall|i: int| 0 <= i < before.len() ==> before[i] != 10u8,
        received(before, chunk, limit) is Line,
    ensures
        ({
            let line = received(before, chunk, limit)->Line_0;
            line.len() <= limit && line.last() == 10u8 && forall|i: int|
                0 <= i < line.len() - 1 ==> line[i] != 10u8
        }),
{
    lemma_line_part(chunk);
}

} // verus!
