//! A client of Herdr's socket: its requests, and what their answers must hold.

use vstd::prelude::*;
use vstd::string::*;
use vstd::utf8::*;

use crate::document::{field, field_path, root, root_path};
use crate::failure::{led_to, plain, Failure, FailureView};
use crate::herdr::gives_done;
use crate::herdr_socket::{
    confirms_no_delivery, duration_millis, encode_request, prompt_error_confirms_no_delivery,
    request_text, DeliveryErrorView, EventSignal, HerdrPaneInfo, PromptDeliveryError,
    DEFAULT_SOCKET_TIMEOUT_MILLIS, MAX_PROMPT_BYTES, MAX_REQUEST_BYTES,
};
use crate::json_text::{
    find_text, has_value, is_text_at, json_nodes, json_string, node_views, parse_json, text_at,
    value_at, write_json_string, JsonNode, NodeView,
};
use crate::text::{
    blank, byte_len, byte_length, decimal, is_blank, numeral, opt_view, same_text,
};
use crate::tokens::{token_views, Token};

verus! {

/// A client of Herdr's socket.
#[derive(Debug, PartialEq, Eq)]
pub struct HerdrSocketClient {
    socket_path: String,
    next_id: u64,
}

/// The contents of a [`HerdrSocketClient`].
pub struct ClientView {
    pub socket_path: Seq<char>,
    pub next_id: u64,
}

impl View for HerdrSocketClient {
    type V = ClientView;

    closed spec fn view(&self) -> ClientView {
        ClientView { socket_path: self.socket_path@, next_id: self.next_id }
    }
}

/// The number behind `n`; behind the last one comes the first.
pub open spec fn next_number(n: u64) -> u64 {
    if n == u64::MAX {
        0
    } else {
        (n + 1) as u64
    }
}

/// The client behind one that has asked once more.
pub open spec fn asked(client: ClientView) -> ClientView {
    ClientView { next_id: next_number(client.next_id), ..client }
}

/// The name of a request.
pub open spec fn request_id(n: u64) -> Seq<char> {
    "tether:"@ + numeral(n as nat)
}

/// The name of a subscription.
pub open spec fn subscription_id(n: u64) -> Seq<char> {
    "tether:events:"@ + numeral(n as nat)
}

/// A request that was made, and what its answer must hold.
#[derive(Debug, PartialEq, Eq)]
pub struct SocketCall {
    id: String,
    method: String,
    bytes: Vec<u8>,
    timeout_millis: u128,
    expected: String,
    field: String,
    description: String,
}

/// The contents of a [`SocketCall`].
#[verifier::ext_equal]
pub struct CallView {
    pub id: Seq<char>,
    pub method: Seq<char>,
    pub bytes: Seq<u8>,
    pub timeout_millis: int,
    /// The type that the result must give itself.
    pub expected: Seq<char>,
    /// The field of the result that holds the answer.
    pub field: Seq<char>,
    /// What the answer is.
    pub description: Seq<char>,
}

impl View for SocketCall {
    type V = CallView;

    closed spec fn view(&self) -> CallView {
        CallView {
            id: self.id@,
            method: self.method@,
            bytes: self.bytes@,
            timeout_millis: self.timeout_millis as int,
            expected: self.expected@,
            field: self.field@,
            description: self.description@,
        }
    }
}

/// What a reader is told of a request that is too large.
pub open spec fn oversized_text() -> Seq<char> {
    "Herdr socket request exceeded "@ + numeral(MAX_REQUEST_BYTES as nat) + " bytes"@
}

/// The request for a method, or why it cannot be made.
pub open spec fn made_call(
    n: u64,
    method: Seq<char>,
    params: Seq<char>,
    timeout_millis: int,
    expected: Seq<char>,
    field: Seq<char>,
    description: Seq<char>,
) -> Result<CallView, FailureView> {
    let text = request_text(request_id(n), method, params);
    if byte_len(text) > MAX_REQUEST_BYTES {
        Err(plain(oversized_text()))
    } else {
        Ok(
            CallView {
                id: request_id(n),
                method,
                bytes: encode_utf8(text) + seq![10u8],
                timeout_millis,
                expected,
                field,
                description,
            },
        )
    }
}

/// The outcome is exactly the request or the failure that was made.
pub open spec fn gives_call(
    r: Result<SocketCall, Failure>,
    made: Result<CallView, FailureView>,
) -> bool {
    match made {
        Ok(call) => r is Ok && r->Ok_0@ == call,
        Err(failure) => r is Err && r->Err_0@ == failure,
    }
}

/// The code of an error that Herdr reports.
pub open spec fn error_code(nodes: Seq<NodeView>) -> Seq<char> {
    match text_at(nodes, field(field(root(), "error"@), "code"@)) {
        Some(code) => code,
        None => "unknown"@,
    }
}

/// The message of an error that Herdr reports.
pub open spec fn error_text(nodes: Seq<NodeView>) -> Seq<char> {
    match text_at(nodes, field(field(root(), "error"@), "message"@)) {
        Some(message) => message,
        None => "Herdr rejected the request"@,
    }
}

/// Herdr reports an error.
pub open spec fn has_error(nodes: Seq<NodeView>) -> bool {
    value_at(nodes, field(root(), "error"@)) is Some
}

/// The code of an error that Herdr reports.
fn find_error_code(nodes: &Vec<JsonNode>) -> (code: String)
    ensures
        code@ == error_code(node_views(nodes@)),
{
    match find_text(nodes, &field_path(field_path(root_path(), "error"), "code")) {
        Some(code) => code,
        None => "unknown".to_owned(),
    }
}

/// The message of an error that Herdr reports.
fn find_error_text(nodes: &Vec<JsonNode>) -> (message: String)
    ensures
        message@ == error_text(node_views(nodes@)),
{
    match find_text(nodes, &field_path(field_path(root_path(), "error"), "message")) {
        Some(message) => message,
        None => "Herdr rejected the request".to_owned(),
    }
}

/// The document that answers the request `id`, or why it does not.
pub open spec fn envelope(
    response: Result<Vec<u8>, Failure>,
    id: Seq<char>,
    method: Seq<char>,
) -> Result<Seq<NodeView>, FailureView> {
    match response {
        Err(failure) => Err(failure@),
        Ok(bytes) => match json_nodes(bytes@) {
            Err(reason) => Err(led_to("decode Herdr "@ + method + " response"@, plain(reason))),
            Ok(nodes) => if text_at(nodes, field(root(), "id"@)) == Some(id) {
                Ok(nodes)
            } else {
                Err(plain("Herdr "@ + method + " response id did not match the request"@))
            },
        },
    }
}

/// Why a document holds no result, if it holds none.
pub open spec fn rejection(nodes: Seq<NodeView>, method: Seq<char>) -> Option<Seq<char>> {
    if has_error(nodes) {
        Some(
            "Herdr rejected "@ + method + ": "@ + error_code(nodes) + ": "@ + error_text(nodes),
        )
    } else if value_at(nodes, field(root(), "result"@)) is None {
        Some("Herdr "@ + method + " response did not contain a result"@)
    } else {
        None
    }
}

/// The type that a result gives itself.
pub open spec fn result_kind(nodes: Seq<NodeView>) -> Option<Seq<char>> {
    text_at(nodes, field(field(root(), "result"@), "type"@))
}

/// Why a result is not the one that was asked for, if it is not.
pub open spec fn result_problem(
    nodes: Seq<NodeView>,
    expected: Seq<char>,
    key: Seq<char>,
    description: Seq<char>,
) -> Option<Seq<char>> {
    if result_kind(nodes) != Some(expected) {
        Some("Herdr response type was not `"@ + expected + "`"@)
    } else if value_at(nodes, field(field(root(), "result"@), key)) is None {
        Some(description + " response did not contain `"@ + key + "`"@)
    } else {
        None
    }
}

/// The document that answers a request, or why it does not.
pub open spec fn value_reply(
    response: Result<Vec<u8>, Failure>,
    id: Seq<char>,
    method: Seq<char>,
) -> Result<Seq<NodeView>, FailureView> {
    match envelope(response, id, method) {
        Err(failure) => Err(failure),
        Ok(nodes) => match rejection(nodes, method) {
            Some(text) => Err(plain(text)),
            None => Ok(nodes),
        },
    }
}

/// The outcome is exactly the document or the failure that was found.
pub open spec fn gives_nodes(
    r: Result<Vec<JsonNode>, Failure>,
    found: Result<Seq<NodeView>, FailureView>,
) -> bool {
    match found {
        Ok(nodes) => r is Ok && node_views(r->Ok_0@) == nodes,
        Err(failure) => r is Err && r->Err_0@ == failure,
    }
}

/// Checks that a document holds a result.
pub fn check_result(nodes: &Vec<JsonNode>, method: &str) -> (r: Result<(), Failure>)
    ensures
        gives_done(
            r,
            match rejection(node_views(nodes@), method@) {
                Some(text) => Some(plain(text)),
                None => None,
            },
        ),
{
    if has_value(nodes, &field_path(root_path(), "error")) {
        let code = find_error_code(nodes);
        let message = find_error_text(nodes);
        return Err(
            Failure::new(
                "Herdr rejected ".to_owned().concat(method).concat(": ").concat(
                    code.as_str(),
                ).concat(": ").concat(message.as_str()),
            ),
        );
    }
    if !has_value(nodes, &field_path(root_path(), "result")) {
        return Err(
            Failure::new(
                "Herdr ".to_owned().concat(method).concat(" response did not contain a result"),
            ),
        );
    }
    Ok(())
}

/// Checks that a result is the one that was asked for.
pub fn check_field(nodes: &Vec<JsonNode>, expected: &str, key: &str, description: &str) -> (r:
    Result<(), Failure>)
    ensures
        gives_done(
            r,
            match result_problem(node_views(nodes@), expected@, key@, description@) {
                Some(text) => Some(plain(text)),
                None => None,
            },
        ),
{
    if !is_text_at(nodes, &field_path(field_path(root_path(), "result"), "type"), expected) {
        return Err(
            Failure::new(
                "Herdr response type was not `".to_owned().concat(expected).concat("`"),
            ),
        );
    }
    if !has_value(nodes, &field_path(field_path(root_path(), "result"), key)) {
        return Err(
            Failure::new(
                description.to_owned().concat(" response did not contain `").concat(key).concat(
                    "`",
                ),
            ),
        );
    }
    Ok(())
}

impl SocketCall {
    /// The bytes to send.
    pub fn bytes(&self) -> (bytes: &Vec<u8>)
        ensures
            bytes@ == self@.bytes,
    {
        &self.bytes
    }

    /// How long the answer may take, in milliseconds.
    pub fn timeout_millis(&self) -> (millis: u128)
        ensures
            millis == self@.timeout_millis,
    {
        self.timeout_millis
    }

    /// The field of the result that holds the answer.
    pub fn field(&self) -> (name: &str)
        ensures
            name@ == self@.field,
    {
        self.field.as_str()
    }

    /// What the answer is.
    pub fn description(&self) -> (text: &str)
        ensures
            text@ == self@.description,
    {
        self.description.as_str()
    }

    /// The document that answers the request.
    pub fn request_envelope(&self, response: Result<Vec<u8>, Failure>) -> (r: Result<
        Vec<JsonNode>,
        Failure,
    >)
        ensures
            gives_nodes(r, envelope(response, self@.id, self@.method)),
    {
        let bytes = match response {
            Ok(bytes) => bytes,
            Err(failure) => {
                return Err(failure);
            },
        };
        let nodes = match parse_json(bytes.as_slice()) {
            Ok(nodes) => nodes,
            Err(reason) => {
                return Err(
                    Failure::new(reason).context(
                        "decode Herdr ".to_owned().concat(self.method.as_str()).concat(
                            " response",
                        ),
                    ),
                );
            },
        };
        if !is_text_at(&nodes, &field_path(root_path(), "id"), self.id.as_str()) {
            return Err(
                Failure::new(
                    "Herdr ".to_owned().concat(self.method.as_str()).concat(
                        " response id did not match the request",
                    ),
                ),
            );
        }
        Ok(nodes)
    }

    /// The document with the result that answers the request.
    pub fn request_value(&self, response: Result<Vec<u8>, Failure>) -> (r: Result<
        Vec<JsonNode>,
        Failure,
    >)
        ensures
            gives_nodes(r, value_reply(response, self@.id, self@.method)),
    {
        match self.request_envelope(response) {
            Err(failure) => Err(failure),
            Ok(nodes) => match check_result(&nodes, self.method.as_str()) {
                Ok(()) => Ok(nodes),
                Err(failure) => Err(failure),
            },
        }
    }

    /// Accepts an answer that holds what was asked for.
    pub fn reply(&self, response: Result<Vec<u8>, Failure>) -> (r: Result<(), Failure>)
        ensures
            gives_done(
                r,
                match value_reply(response, self@.id, self@.method) {
                    Err(failure) => Some(failure),
                    Ok(nodes) => match result_problem(
                        nodes,
                        self@.expected,
                        self@.field,
                        self@.description,
                    ) {
                        Some(text) => Some(plain(text)),
                        None => None,
                    },
                },
            ),
    {
        match self.request_value(response) {
            Err(failure) => Err(failure),
            Ok(nodes) => check_field(
                &nodes,
                self.expected.as_str(),
                self.field.as_str(),
                self.description.as_str(),
            ),
        }
    }

    /// Accepts an answer that says that a prompt was delivered. Where it is
    /// not certain that nothing was delivered, the outcome is uncertain.
    pub fn prompt_reply(&self, response: Result<Vec<u8>, Failure>) -> (r: Result<
        (),
        PromptDeliveryError,
    >)
        ensures
            match prompt_problem(
                envelope(response, self@.id, self@.method),
                self@.expected,
                self@.field,
            ) {
                Some(error) => r is Err && r->Err_0@ == error,
                None => r is Ok,
            },
    {
        let nodes = match self.request_envelope(response) {
            Ok(nodes) => nodes,
            Err(_) => {
                return Err(PromptDeliveryError::Uncertain);
            },
        };
        if has_value(&nodes, &field_path(root_path(), "error")) {
            let code = find_error_code(&nodes);
            let message = find_error_text(&nodes);
            if prompt_error_confirms_no_delivery(code.as_str()) {
                return Err(PromptDeliveryError::Rejected { code, message });
            }
            return Err(PromptDeliveryError::Uncertain);
        }
        if !has_value(&nodes, &field_path(root_path(), "result")) {
            return Err(PromptDeliveryError::Uncertain);
        }
        match check_field(&nodes, self.expected.as_str(), self.field.as_str(), "") {
            Ok(()) => Ok(()),
            Err(_) => Err(PromptDeliveryError::Uncertain),
        }
    }

    /// Accepts an answer that says that a pane was labelled. `decoded` is the
    /// pane of the answer, where it holds one.
    pub fn metadata_reply(
        &self,
        response: Result<Vec<u8>, Failure>,
        decoded: Result<HerdrPaneInfo, Failure>,
        pane_id: &str,
    ) -> (r: Result<(), Failure>)
        ensures
            gives_done(
                r,
                match value_reply(response, self@.id, self@.method) {
                    Err(failure) => Some(failure),
                    Ok(nodes) => metadata_problem(nodes, decoded, pane_id@),
                },
            ),
    {
        let nodes = match self.request_value(response) {
            Ok(nodes) => nodes,
            Err(failure) => {
                return Err(failure);
            },
        };
        let path = field_path(field_path(root_path(), "result"), "type");
        if is_text_at(&nodes, &path, "pane_info") {
            match check_field(&nodes, "pane_info", "pane", "metadata pane") {
                Ok(()) => {},
                Err(failure) => {
                    return Err(failure);
                },
            }
            match decoded {
                Ok(pane) => {
                    if !same_text(pane.pane_id.as_str(), pane_id) {
                        return Err(
                            Failure::new("Herdr labeled a different pane than requested".to_owned()),
                        );
                    }
                    Ok(())
                },
                Err(failure) => Err(failure),
            }
        } else if is_text_at(&nodes, &path, "ok") {
            proof {
                reveal_strlit("ok");
                reveal_strlit("pane_info");
                assert("ok"@.len() != "pane_info"@.len());
            }
            Ok(())
        } else {
            Err(Failure::new("Herdr pane metadata response had an unexpected type".to_owned()))
        }
    }
}

/// Why an answer does not say that a pane was labelled, if it does not.
pub open spec fn metadata_problem(
    nodes: Seq<NodeView>,
    decoded: Result<HerdrPaneInfo, Failure>,
    pane_id: Seq<char>,
) -> Option<FailureView> {
    if result_kind(nodes) == Some("pane_info"@) {
        match result_problem(nodes, "pane_info"@, "pane"@, "metadata pane"@) {
            Some(text) => Some(plain(text)),
            None => match decoded {
                Err(failure) => Some(failure@),
                Ok(pane) => if pane.pane_id@ != pane_id {
                    Some(plain("Herdr labeled a different pane than requested"@))
                } else {
                    None
                },
            },
        }
    } else if result_kind(nodes) == Some("ok"@) {
        None
    } else {
        Some(plain("Herdr pane metadata response had an unexpected type"@))
    }
}

/// Why a prompt did not surely arrive, if it did not.
pub open spec fn prompt_problem(
    answer: Result<Seq<NodeView>, FailureView>,
    expected: Seq<char>,
    key: Seq<char>,
) -> Option<DeliveryErrorView> {
    match answer {
        Err(_) => Some(DeliveryErrorView::Uncertain),
        Ok(nodes) => if has_error(nodes) {
            if confirms_no_delivery(error_code(nodes)) {
                Some(
                    DeliveryErrorView::Rejected {
                        code: error_code(nodes),
                        message: error_text(nodes),
                    },
                )
            } else {
                Some(DeliveryErrorView::Uncertain)
            }
        } else if value_at(nodes, field(root(), "result"@)) is None || result_problem(
            nodes,
            expected,
            key,
            ""@,
        ) is Some {
            Some(DeliveryErrorView::Uncertain)
        } else {
            None
        },
    }
}

/// The parameters of a request to read an agent's terminal.
pub open spec fn read_params(target: Seq<char>, lines: u32) -> Seq<char> {
    "{\"format\":\"text\",\"lines\":"@ + numeral(lines as nat)
        + ",\"source\":\"recent_unwrapped\",\"strip_ansi\":true,\"target\":"@ + json_string(target)
        + "}"@
}

/// The parameters of a request that only names an agent.
pub open spec fn target_params(target: Seq<char>) -> Seq<char> {
    "{\"target\":"@ + json_string(target) + "}"@
}

/// The parameters of a request to wait for an agent.
pub open spec fn wait_params(target: Seq<char>, timeout_millis: u64) -> Seq<char> {
    "{\"target\":"@ + json_string(target) + ",\"timeout_ms\":"@ + numeral(timeout_millis as nat)
        + ",\"until\":[\"idle\",\"done\",\"blocked\"]}"@
}

/// The parameters of a request to hand a prompt to an agent.
pub open spec fn prompt_params(target: Seq<char>, prompt: Seq<char>, timeout_millis: u64) -> Seq<
    char,
> {
    "{\"target\":"@ + json_string(target) + ",\"text\":"@ + json_string(prompt)
        + ",\"wait\":{\"timeout_ms\":"@ + numeral(timeout_millis as nat)
        + ",\"until\":[\"idle\",\"done\",\"blocked\"]}}"@
}

/// The members of a JSON object of texts.
pub open spec fn token_members(tokens: Seq<(Seq<char>, Seq<char>)>) -> Seq<char>
    decreases tokens.len(),
{
    if tokens.len() == 0 {
        Seq::empty()
    } else {
        let member = json_string(tokens.last().0) + ":"@ + json_string(tokens.last().1);
        if tokens.len() == 1 {
            member
        } else {
            token_members(tokens.drop_last()) + ","@ + member
        }
    }
}

/// The parameters of a request to label a pane.
pub open spec fn metadata_params(
    pane_id: Seq<char>,
    source: Seq<char>,
    tokens: Seq<(Seq<char>, Seq<char>)>,
) -> Seq<char> {
    "{\"pane_id\":"@ + json_string(pane_id) + ",\"source\":"@ + json_string(source)
        + ",\"tokens\":{"@ + token_members(tokens) + "}}"@
}

/// The members of a JSON object of texts.
fn write_members(tokens: &Vec<Token>) -> (text: String)
    ensures
        text@ == token_members(token_views(tokens@)),
{
    let ghost all = token_views(tokens@);
    let mut text = String::new();
    let mut i: usize = 0;
    assert(text@ =~= Seq::empty());
    while i < tokens.len()
        invariant
            i <= tokens@.len(),
            all == token_views(tokens@),
            text@ == token_members(all.take(i as int)),
        decreases tokens.len() - i,
    {
        assert(all.take(i + 1).drop_last() =~= all.take(i as int));
        assert(all.take(i + 1).last() == (tokens@[i as int].name@, tokens@[i as int].value@));
        let member = write_json_string(tokens[i].name.as_str()).concat(":").concat(
            write_json_string(tokens[i].value.as_str()).as_str(),
        );
        if i == 0 {
            text = member;
        } else {
            text = text.concat(",").concat(member.as_str());
        }
        i += 1;
    }
    assert(all.take(i as int) =~= all);
    text
}

/// The most time that an answer takes when the work behind it may take
/// `timeout_millis`.
pub open spec fn patient_timeout(timeout_millis: u128) -> int {
    if timeout_millis + DEFAULT_SOCKET_TIMEOUT_MILLIS <= u128::MAX {
        timeout_millis + DEFAULT_SOCKET_TIMEOUT_MILLIS
    } else {
        u128::MAX as int
    }
}

/// A duration in whole milliseconds, as far as they fit.
pub open spec fn millis_that_fit(millis: u128) -> u64 {
    if millis <= u64::MAX {
        millis as u64
    } else {
        u64::MAX
    }
}

/// A target must name something.
pub open spec fn blank_target(action: Seq<char>) -> FailureView {
    plain("agent "@ + action + " target must not be empty"@)
}

/// A prompt can be handed over: it and its target hold something, and it is
/// not too large.
pub open spec fn deliverable(target: Seq<char>, prompt: Seq<char>) -> bool {
    !blank(target) && !blank(prompt) && byte_len(prompt) <= MAX_PROMPT_BYTES
}

impl HerdrSocketClient {
    /// A client of the socket at `socket_path`.
    pub fn new(socket_path: String) -> (client: Self)
        ensures
            client@ == (ClientView { socket_path: socket_path@, next_id: 1 }),
    {
        HerdrSocketClient { socket_path, next_id: 1 }
    }

    /// A client of the socket that the environment names.
    pub fn from_env(socket_path: Option<String>) -> (r: Result<Self, Failure>)
        ensures
            match opt_view(socket_path) {
                Some(path) => if path.len() > 0 {
                    r is Ok && r->Ok_0@ == (ClientView { socket_path: path, next_id: 1 })
                } else {
                    r is Err && r->Err_0@ == plain("Herdr did not provide HERDR_SOCKET_PATH"@)
                },
                None => r is Err && r->Err_0@ == plain(
                    "Herdr did not provide HERDR_SOCKET_PATH"@,
                ),
            },
    {
        match socket_path {
            Some(path) => {
                if path.as_str().is_empty() {
                    Err(Failure::new("Herdr did not provide HERDR_SOCKET_PATH".to_owned()))
                } else {
                    Ok(Self::new(path))
                }
            },
            None => Err(Failure::new("Herdr did not provide HERDR_SOCKET_PATH".to_owned())),
        }
    }

    /// The path of the socket.
    pub fn socket_path(&self) -> (path: &str)
        ensures
            path@ == self@.socket_path,
    {
        self.socket_path.as_str()
    }

    /// The number of the next request.
    fn take_number(&mut self) -> (n: u64)
        ensures
            n == old(self)@.next_id,
            final(self)@ == asked(old(self)@),
    {
        let n: u64 = self.next_id;
        self.next_id =
        if n == u64::MAX {
            0
        } else {
            n + 1
        };
        n
    }

    /// Makes the request for a method.
    pub fn call(
        &mut self,
        method: &str,
        params: &str,
        timeout_millis: u128,
        expected: &str,
        field: &str,
        description: &str,
    ) -> (r: Result<SocketCall, Failure>)
        ensures
            final(self)@ == asked(old(self)@),
            gives_call(
                r,
                made_call(
                    old(self)@.next_id,
                    method@,
                    params@,
                    timeout_millis as int,
                    expected@,
                    field@,
                    description@,
                ),
            ),
    {
        let n = self.take_number();
        let id = "tether:".to_owned().concat(decimal(n).as_str());
        match encode_request(id.as_str(), method, params) {
            Err(failure) => Err(failure),
            Ok(bytes) => Ok(
                SocketCall {
                    id,
                    method: method.to_owned(),
                    bytes,
                    timeout_millis,
                    expected: expected.to_owned(),
                    field: field.to_owned(),
                    description: description.to_owned(),
                },
            ),
        }
    }

    /// Asks for everything that Herdr shows.
    pub fn snapshot(&mut self) -> (r: Result<SocketCall, Failure>)
        ensures
            final(self)@ == asked(old(self)@),
            gives_call(
                r,
                made_call(
                    old(self)@.next_id,
                    "session.snapshot"@,
                    "{}"@,
                    DEFAULT_SOCKET_TIMEOUT_MILLIS as int,
                    "session_snapshot"@,
                    "snapshot"@,
                    "Herdr session snapshot"@,
                ),
            ),
    {
        self.call(
            "session.snapshot",
            "{}",
            DEFAULT_SOCKET_TIMEOUT_MILLIS as u128,
            "session_snapshot",
            "snapshot",
            "Herdr session snapshot",
        )
    }

    /// Asks for the last lines of an agent's terminal.
    pub fn agent_read(&mut self, target: &str, lines: u32) -> (r: Result<SocketCall, Failure>)
        ensures
            if blank(target@) {
                r is Err && r->Err_0@ == blank_target("read"@) && final(self)@ == old(self)@
            } else {
                final(self)@ == asked(old(self)@) && gives_call(
                    r,
                    made_call(
                        old(self)@.next_id,
                        "agent.read"@,
                        read_params(target@, lines),
                        DEFAULT_SOCKET_TIMEOUT_MILLIS as int,
                        "pane_read"@,
                        "read"@,
                        "Herdr agent read"@,
                    ),
                )
            },
    {
        if is_blank(target) {
            return Err(self.blank_target_failure("read"));
        }
        let params = "{\"format\":\"text\",\"lines\":".to_owned().concat(
            decimal(lines as u64).as_str(),
        ).concat(",\"source\":\"recent_unwrapped\",\"strip_ansi\":true,\"target\":").concat(
            write_json_string(target).as_str(),
        ).concat("}");
        self.call(
            "agent.read",
            params.as_str(),
            DEFAULT_SOCKET_TIMEOUT_MILLIS as u128,
            "pane_read",
            "read",
            "Herdr agent read",
        )
    }

    /// The failure for a target that names nothing.
    fn blank_target_failure(&self, action: &str) -> (failure: Failure)
        ensures
            failure@ == blank_target(action@),
    {
        Failure::new("agent ".to_owned().concat(action).concat(" target must not be empty"))
    }

    /// Asks to focus an agent.
    pub fn focus_agent(&mut self, target: &str) -> (r: Result<SocketCall, Failure>)
        ensures
            if blank(target@) {
                r is Err && r->Err_0@ == blank_target("focus"@) && final(self)@ == old(self)@
            } else {
                final(self)@ == asked(old(self)@) && gives_call(
                    r,
                    made_call(
                        old(self)@.next_id,
                        "agent.focus"@,
                        target_params(target@),
                        DEFAULT_SOCKET_TIMEOUT_MILLIS as int,
                        "agent_info"@,
                        "agent"@,
                        "focused Herdr agent"@,
                    ),
                )
            },
    {
        if is_blank(target) {
            return Err(self.blank_target_failure("focus"));
        }
        let params = "{\"target\":".to_owned().concat(write_json_string(target).as_str()).concat(
            "}",
        );
        self.call(
            "agent.focus",
            params.as_str(),
            DEFAULT_SOCKET_TIMEOUT_MILLIS as u128,
            "agent_info",
            "agent",
            "focused Herdr agent",
        )
    }

    /// Asks to be told when an agent settles.
    pub fn wait_agent(&mut self, target: &str, timeout_millis: u128) -> (r: Result<
        SocketCall,
        Failure,
    >)
        ensures
            if blank(target@) {
                r is Err && r->Err_0@ == blank_target("wait"@) && final(self)@ == old(self)@
            } else {
                final(self)@ == asked(old(self)@) && gives_call(
                    r,
                    made_call(
                        old(self)@.next_id,
                        "agent.wait"@,
                        wait_params(target@, millis_that_fit(timeout_millis)),
                        patient_timeout(timeout_millis),
                        "agent_info"@,
                        "agent"@,
                        "settled Herdr agent"@,
                    ),
                )
            },
    {
        if is_blank(target) {
            return Err(self.blank_target_failure("wait"));
        }
        let params = "{\"target\":".to_owned().concat(write_json_string(target).as_str()).concat(
            ",\"timeout_ms\":",
        ).concat(decimal(duration_millis(timeout_millis)).as_str()).concat(
            ",\"until\":[\"idle\",\"done\",\"blocked\"]}",
        );
        self.call(
            "agent.wait",
            params.as_str(),
            timeout_millis.saturating_add(DEFAULT_SOCKET_TIMEOUT_MILLIS as u128),
            "agent_info",
            "agent",
            "settled Herdr agent",
        )
    }

    /// Asks to hand a prompt to an agent and to wait until it settles.
    pub fn prompt_and_wait(&mut self, target: &str, prompt: &str, timeout_millis: u128) -> (r:
        Result<SocketCall, PromptDeliveryError>)
        ensures
            if !deliverable(target@, prompt@) {
                r is Err && r->Err_0@ == (DeliveryErrorView::Rejected {
                    code: "invalid_request"@,
                    message: "target and prompt must be non-empty and prompt must not exceed "@
                        + numeral(MAX_PROMPT_BYTES as nat) + " bytes"@,
                }) && final(self)@ == old(self)@
            } else {
                final(self)@ == asked(old(self)@) && match made_call(
                    old(self)@.next_id,
                    "agent.prompt"@,
                    prompt_params(target@, prompt@, millis_that_fit(timeout_millis)),
                    patient_timeout(timeout_millis),
                    "agent_prompted"@,
                    "agent"@,
                    "prompted Herdr agent"@,
                ) {
                    Ok(call) => r is Ok && r->Ok_0@ == call,
                    Err(_) => r is Err && r->Err_0@ is Uncertain,
                }
            },
    {
        if is_blank(target) || is_blank(prompt) || byte_length(prompt) > MAX_PROMPT_BYTES {
            return Err(
                PromptDeliveryError::Rejected {
                    code: "invalid_request".to_owned(),
                    message:
                        "target and prompt must be non-empty and prompt must not exceed ".to_owned().concat(
                    decimal(MAX_PROMPT_BYTES as u64).as_str()).concat(" bytes"),
                },
            );
        }
        let params = "{\"target\":".to_owned().concat(write_json_string(target).as_str()).concat(
            ",\"text\":",
        ).concat(write_json_string(prompt).as_str()).concat(",\"wait\":{\"timeout_ms\":").concat(
            decimal(duration_millis(timeout_millis)).as_str(),
        ).concat(",\"until\":[\"idle\",\"done\",\"blocked\"]}}");
        match self.call(
            "agent.prompt",
            params.as_str(),
            timeout_millis.saturating_add(DEFAULT_SOCKET_TIMEOUT_MILLIS as u128),
            "agent_prompted",
            "agent",
            "prompted Herdr agent",
        ) {
            Ok(call) => Ok(call),
            Err(_) => Err(PromptDeliveryError::Uncertain),
        }
    }

    /// Asks to label a pane.
    pub fn report_pane_metadata(&mut self, pane_id: &str, source: &str, tokens: &Vec<Token>) -> (r:
        Result<SocketCall, Failure>)
        ensures
            if blank(pane_id@) || blank(source@) {
                r is Err && r->Err_0@ == plain(
                    "pane metadata target and source must not be empty"@,
                ) && final(self)@ == old(self)@
            } else {
                final(self)@ == asked(old(self)@) && gives_call(
                    r,
                    made_call(
                        old(self)@.next_id,
                        "pane.report_metadata"@,
                        metadata_params(pane_id@, source@, token_views(tokens@)),
                        DEFAULT_SOCKET_TIMEOUT_MILLIS as int,
                        "pane_info"@,
                        "pane"@,
                        "metadata pane"@,
                    ),
                )
            },
    {
        if is_blank(pane_id) || is_blank(source) {
            return Err(
                Failure::new("pane metadata target and source must not be empty".to_owned()),
            );
        }
        let params = "{\"pane_id\":".to_owned().concat(write_json_string(pane_id).as_str()).concat(
            ",\"source\":",
        ).concat(write_json_string(source).as_str()).concat(",\"tokens\":{").concat(
            write_members(tokens).as_str(),
        ).concat("}}");
        self.call(
            "pane.report_metadata",
            params.as_str(),
            DEFAULT_SOCKET_TIMEOUT_MILLIS as u128,
            "pane_info",
            "pane",
            "metadata pane",
        )
    }

    /// Asks to be told of every change of a pane.
    pub fn subscribe(&mut self) -> (r: Result<Subscription, Failure>)
        ensures
            final(self)@ == asked(old(self)@),
            ({
                let id = subscription_id(old(self)@.next_id);
                let text = request_text(id, "events.subscribe"@, subscription_params());
                if byte_len(text) > MAX_REQUEST_BYTES {
                    r is Err && r->Err_0@ == plain(oversized_text())
                } else {
                    r is Ok && r->Ok_0.id_view() == id && r->Ok_0.bytes_view() == encode_utf8(
                        text,
                    ) + seq![10u8]
                }
            }),
    {
        let n = self.take_number();
        let id = "tether:events:".to_owned().concat(decimal(n).as_str());
        match encode_request(id.as_str(), "events.subscribe", SUBSCRIPTION_PARAMS) {
            Ok(bytes) => Ok(Subscription { id, bytes }),
            Err(failure) => Err(failure),
        }
    }
}

/// The events that a subscription asks for.
pub const SUBSCRIPTION_PARAMS: &'static str =
    "{\"subscriptions\":[{\"type\":\"pane.created\"},{\"type\":\"pane.updated\"},{\"type\":\"pane.closed\"},{\"type\":\"pane.moved\"},{\"type\":\"pane.exited\"},{\"type\":\"pane.agent_detected\"},{\"type\":\"pane.agent_status_changed\"}]}";

/// The events that a subscription asks for.
pub open spec fn subscription_params() -> Seq<char> {
    SUBSCRIPTION_PARAMS@
}

/// A subscription that was asked for.
#[derive(Debug, PartialEq, Eq)]
pub struct Subscription {
    id: String,
    bytes: Vec<u8>,
}

/// A document starts the subscription `id`.
pub open spec fn starts_subscription(nodes: Seq<NodeView>, id: Seq<char>) -> bool {
    &&& text_at(nodes, field(root(), "id"@)) == Some(id)
    &&& !has_error(nodes)
    &&& result_kind(nodes) == Some("subscription_started"@)
}

/// Why a subscription did not start, if it did not.
pub open spec fn acknowledgement_problem(line: Option<Seq<u8>>, id: Seq<char>) -> Option<
    FailureView,
> {
    match line {
        None => Some(plain("Herdr event subscription closed before acknowledgement"@)),
        Some(bytes) => match json_nodes(bytes) {
            Err(reason) => Some(
                led_to("decode Herdr event subscription acknowledgement"@, plain(reason)),
            ),
            Ok(nodes) => if starts_subscription(nodes, id) {
                None
            } else {
                Some(plain("Herdr rejected the event subscription"@))
            },
        },
    }
}

/// Why a line is no event, if it is none.
pub open spec fn event_problem(line: Seq<u8>) -> Option<FailureView> {
    match json_nodes(line) {
        Err(reason) => Some(led_to("decode Herdr subscription event"@, plain(reason))),
        Ok(nodes) => if text_at(nodes, field(root(), "event"@)) is Some {
            None
        } else {
            Some(plain("Herdr subscription emitted an unexpected record"@))
        },
    }
}

/// The outcome is exactly the signal, or the failure that was found.
pub open spec fn gives_signal(
    r: Result<EventSignal, Failure>,
    problem: Option<FailureView>,
    signal: EventSignal,
) -> bool {
    match problem {
        None => r == Ok::<EventSignal, Failure>(signal),
        Some(failure) => r is Err && r->Err_0@ == failure,
    }
}

/// Whether a document starts the subscription `id`.
pub fn accepts_subscription(nodes: &Vec<JsonNode>, id: &str) -> (r: bool)
    ensures
        r == starts_subscription(node_views(nodes@), id@),
{
    is_text_at(nodes, &field_path(root_path(), "id"), id) && !has_value(
        nodes,
        &field_path(root_path(), "error"),
    ) && is_text_at(
        nodes,
        &field_path(field_path(root_path(), "result"), "type"),
        "subscription_started",
    )
}

impl Subscription {
    /// The name of the subscription.
    pub closed spec fn id_view(self) -> Seq<char> {
        self.id@
    }

    /// The bytes to send.
    pub closed spec fn bytes_view(self) -> Seq<u8> {
        self.bytes@
    }

    /// The bytes to send.
    pub fn bytes(&self) -> (bytes: &Vec<u8>)
        ensures
            bytes@ == self.bytes_view(),
    {
        &self.bytes
    }

    /// Takes the first line that came back.
    pub fn acknowledged(&self, line: Option<Vec<u8>>, reconnected: bool) -> (r: Result<
        EventSignal,
        Failure,
    >)
        ensures
            gives_signal(
                r,
                acknowledgement_problem(
                    match line {
                        Some(bytes) => Some(bytes@),
                        None => None,
                    },
                    self.id_view(),
                ),
                EventSignal::Resnapshot { reconnected },
            ),
    {
        let bytes = match line {
            Some(bytes) => bytes,
            None => {
                return Err(
                    Failure::new(
                        "Herdr event subscription closed before acknowledgement".to_owned(),
                    ),
                );
            },
        };
        match parse_json(bytes.as_slice()) {
            Err(reason) => Err(
                Failure::new(reason).context(
                    "decode Herdr event subscription acknowledgement".to_owned(),
                ),
            ),
            Ok(nodes) => {
                if accepts_subscription(&nodes, self.id.as_str()) {
                    Ok(EventSignal::Resnapshot { reconnected })
                } else {
                    Err(Failure::new("Herdr rejected the event subscription".to_owned()))
                }
            },
        }
    }

    /// Takes a later line.
    pub fn event(&self, line: &Vec<u8>) -> (r: Result<EventSignal, Failure>)
        ensures
            gives_signal(r, event_problem(line@), EventSignal::Changed),
    {
        match parse_json(line.as_slice()) {
            Err(reason) => Err(
                Failure::new(reason).context("decode Herdr subscription event".to_owned()),
            ),
            Ok(nodes) => {
                if find_text(&nodes, &field_path(root_path(), "event")).is_some() {
                    Ok(EventSignal::Changed)
                } else {
                    Err(
                        Failure::new("Herdr subscription emitted an unexpected record".to_owned()),
                    )
                }
            },
        }
    }
}

/// What a monitor does when its subscription has ended.
#[derive(Clone, Copy, Debug, PartialEq, Eq, Structural)]
pub enum MonitorStep {
    /// The monitor was stopped.
    Stop,
    /// The reader is told, and after a pause the subscription is tried again.
    Reconnect(EventSignal),
}

/// A monitor of events, which tries a lost subscription again.
#[derive(Clone, Copy, Debug, PartialEq, Eq, Structural)]
pub struct MonitorState {
    /// Whether a subscription was tried before.
    pub connected_once: bool,
}

impl MonitorState {
    /// A monitor that has not tried yet.
    pub fn new() -> (state: Self)
        ensures
            !state.connected_once,
    {
        MonitorState { connected_once: false }
    }

    /// Takes the end of a subscription. One that ended in order after the
    /// monitor was stopped is the last one.
    pub fn ended(&mut self, in_order: bool, stopping: bool) -> (step: MonitorStep)
        ensures
            in_order && stopping ==> step == MonitorStep::Stop && *final(self) == *old(self),
            !(in_order && stopping) ==> step == MonitorStep::Reconnect(EventSignal::Disconnected)
                && final(self).connected_once,
    {
        if in_order && stopping {
            MonitorStep::Stop
        } else {
            self.connected_once = true;
            MonitorStep::Reconnect(EventSignal::Disconnected)
        }
    }
}

} // verus!
