//! Herdr as a place for panes: the context that it hands to a plugin, the
//! commands that it is asked to run, and what their answers mean.

use vstd::prelude::*;
use vstd::string::*;
use vstd::utf8::*;

use crate::backend::{absolute, is_absolute, CommandSpec, CommandView};
use crate::document::{field, field_path, root, root_path};
use crate::failure::{led_to, plain, Failure, FailureView};
use crate::fields::{is_older, older};
use crate::herdr_reply::{
    decode_response, herdr_version, parse_herdr_version, require_empty_success,
    require_result_type_in, response, result_string, result_text, silent_problem, type_problem,
    HerdrOutput,
};
use crate::json_text::{
    find_text, find_value, json_nodes, node_views, parse_json, text_at, value_at, JsonNode,
    JsonValue, JsonView, NodeView,
};
use crate::model::OrchestrationGroupId;
use crate::pane_title::{str_view, PaneTitle};
use crate::text::{
    blank, byte_len, byte_length, chars_of, control, is_blank, is_control, opt_view, same_text,
    views,
};

verus! {

pub const PLUGIN_ID: &'static str = "moneycaringcoder.tether";

/// The most bytes of a directory that Herdr hands over.
pub const MAX_INVOCATION_DIRECTORY_BYTES: usize = 4_096;

/// The first version of Herdr that opens plugin panes as popups.
pub const POPUP_VERSION: (u64, u64, u64) = (0, 7, 4);

/// The first version of Herdr that keeps metadata of panes.
pub const METADATA_VERSION: (u64, u64, u64) = (0, 7, 5);

/// A validated invocation directory supplied by Herdr's documented plugin context.
#[derive(Debug, PartialEq, Eq)]
pub struct InvocationLocation {
    directory: String,
}

impl View for InvocationLocation {
    type V = Seq<char>;

    closed spec fn view(&self) -> Seq<char> {
        self.directory@
    }
}

/// A directory that can be used: an absolute path of bounded length without
/// control characters.
pub open spec fn usable_directory(directory: Seq<char>) -> bool {
    &&& directory.len() > 0
    &&& byte_len(directory) <= MAX_INVOCATION_DIRECTORY_BYTES
    &&& forall|i: int| 0 <= i < directory.len() ==> !control(#[trigger] directory[i])
    &&& absolute(directory)
}

/// The directory that a plugin context names, if it is one that can be used. A
/// pane's directory hides the workspace's, also where it cannot be used.
pub open spec fn invocation_directory(nodes: Seq<NodeView>) -> Option<Seq<char>> {
    if value_at(nodes, root()) != Some(JsonView::Object) {
        None
    } else {
        let named = match value_at(nodes, field(root(), "focused_pane_cwd"@)) {
            Some(JsonView::Text(directory)) => Some(directory),
            Some(_) => None,
            None => text_at(nodes, field(root(), "workspace_cwd"@)),
        };
        match named {
            Some(directory) => if usable_directory(directory) {
                Some(directory)
            } else {
                None
            },
            None => None,
        }
    }
}

/// The contents of an optional location.
pub open spec fn location_view(location: Option<InvocationLocation>) -> Option<Seq<char>> {
    match location {
        Some(location) => Some(location@),
        None => None,
    }
}

/// Whether a text holds a control character.
fn holds_control(text: &str) -> (r: bool)
    ensures
        r == exists|i: int| 0 <= i < text@.len() && control(#[trigger] text@[i]),
{
    let chars = chars_of(text);
    let mut i: usize = 0;
    while i < chars.len()
        invariant
            i <= chars@.len(),
            chars@ == text@,
            forall|j: int| 0 <= j < i ==> !control(#[trigger] text@[j]),
        decreases chars.len() - i,
    {
        if is_control(chars[i]) {
            assert(control(text@[i as int]));
            return true;
        }
        i += 1;
    }
    false
}

impl InvocationLocation {
    /// Parses only Herdr's documented invocation CWD fields.
    ///
    /// Pane context takes precedence over workspace context. If the pane field is
    /// present but unusable, the workspace field is not used as a fallback.
    pub fn from_plugin_context_json(plugin_context: Option<&str>) -> (location: Option<Self>)
        ensures
            location_view(location) == match plugin_context {
                None => None::<Seq<char>>,
                Some(context) => match json_nodes(encode_utf8(context@)) {
                    Ok(nodes) => invocation_directory(nodes),
                    Err(_) => None,
                },
            },
    {
        match plugin_context {
            None => None,
            Some(context) => match parse_json(context.as_bytes()) {
                Ok(nodes) => Self::from_plugin_context(&nodes),
                Err(_) => None,
            },
        }
    }

    /// The location that a plugin context names, if it can be used.
    pub fn from_plugin_context(nodes: &Vec<JsonNode>) -> (location: Option<Self>)
        ensures
            location_view(location) == invocation_directory(node_views(nodes@)),
    {
        match find_value(nodes, &root_path()) {
            Some(JsonValue::Object) => {},
            _ => {
                return None;
            },
        }
        let directory = match find_value(nodes, &field_path(root_path(), "focused_pane_cwd")) {
            Some(JsonValue::Text(directory)) => directory.clone(),
            Some(_) => {
                return None;
            },
            None => match find_text(nodes, &field_path(root_path(), "workspace_cwd")) {
                Some(directory) => directory,
                None => {
                    return None;
                },
            },
        };
        if directory.as_str().is_empty() || byte_length(directory.as_str())
            > MAX_INVOCATION_DIRECTORY_BYTES || holds_control(directory.as_str()) {
            return None;
        }
        if !is_absolute(directory.as_str()) {
            return None;
        }
        Some(InvocationLocation { directory })
    }

    /// The directory itself.
    pub fn directory(&self) -> (directory: &str)
        ensures
            directory@ == self@,
    {
        self.directory.as_str()
    }
}

/// A variable of the process environment.
#[derive(Debug, PartialEq, Eq)]
pub enum EnvValue {
    Missing,
    NotUnicode,
    Text(String),
}

/// What the process environment says about Herdr.
#[derive(Debug, PartialEq, Eq)]
pub struct HerdrEnvironment {
    /// `HERDR_BIN_PATH`.
    pub binary: Option<String>,
    /// `HERDR_PLUGIN_CONTEXT_JSON`.
    pub plugin_context: EnvValue,
    /// `HERDR_PANE_ID`.
    pub pane_id: EnvValue,
    /// `PANE_ID`.
    pub pane_id_fallback: EnvValue,
    /// `HERDR_WORKSPACE_ID`.
    pub workspace_id: EnvValue,
    /// `WORKSPACE_ID`.
    pub workspace_id_fallback: EnvValue,
}

/// Herdr process and placement context supplied to a plugin action.
#[derive(Debug, PartialEq, Eq)]
pub struct HerdrContext {
    pub binary: String,
    pub pane_id: String,
    pub workspace_id: String,
}

/// The contents of a [`HerdrContext`].
pub struct ContextView {
    pub binary: Seq<char>,
    pub pane_id: Seq<char>,
    pub workspace_id: Seq<char>,
}

impl View for HerdrContext {
    type V = ContextView;

    open spec fn view(&self) -> ContextView {
        ContextView {
            binary: self.binary@,
            pane_id: self.pane_id@,
            workspace_id: self.workspace_id@,
        }
    }
}

impl Clone for HerdrContext {
    fn clone(&self) -> (copy: Self)
        ensures
            copy == *self,
    {
        HerdrContext {
            binary: self.binary.clone(),
            pane_id: self.pane_id.clone(),
            workspace_id: self.workspace_id.clone(),
        }
    }
}

/// The outcome is exactly the text or the failure that was found.
pub open spec fn gives_text(r: Result<String, Failure>, found: Result<Seq<char>, FailureView>) -> bool {
    match found {
        Ok(text) => r is Ok && r->Ok_0@ == text,
        Err(failure) => r is Err && r->Err_0@ == failure,
    }
}

/// A value that must hold something.
pub open spec fn nonempty_env(name: Seq<char>, value: Seq<char>) -> Result<Seq<char>, FailureView> {
    if blank(value) {
        Err(plain("Herdr provided an empty "@ + name))
    } else {
        Ok(value)
    }
}

/// Accepts a value that holds something.
pub fn require_nonempty_env(name: &str, value: String) -> (r: Result<String, Failure>)
    ensures
        gives_text(r, nonempty_env(name@, value@)),
{
    if is_blank(value.as_str()) {
        return Err(Failure::new("Herdr provided an empty ".to_owned().concat(name)));
    }
    Ok(value)
}

/// The pane that a plugin action was invoked from.
pub open spec fn invoking_pane(nodes: Seq<NodeView>) -> Result<Seq<char>, FailureView> {
    match text_at(nodes, field(root(), "focused_pane_id"@)) {
        None => Err(plain("Herdr plugin context did not report the invoking pane"@)),
        Some(pane) => nonempty_env("HERDR_PLUGIN_CONTEXT_JSON focused_pane_id"@, pane),
    }
}

/// The values of a plugin context.
pub open spec fn plugin_nodes(context: Seq<char>) -> Result<Seq<NodeView>, FailureView> {
    match json_nodes(encode_utf8(context)) {
        Ok(nodes) => Ok(nodes),
        Err(reason) => Err(led_to("decode HERDR_PLUGIN_CONTEXT_JSON"@, plain(reason))),
    }
}

/// The pane to place beside: the invoking one where there is a plugin context.
pub open spec fn placement_pane(pane_id: Seq<char>, context: Option<Seq<char>>) -> Result<
    Seq<char>,
    FailureView,
> {
    match context {
        None => Ok(pane_id),
        Some(context) => match plugin_nodes(context) {
            Ok(nodes) => invoking_pane(nodes),
            Err(failure) => Err(failure),
        },
    }
}

/// The pane that a plugin action was invoked from.
pub fn find_invoking_pane(nodes: &Vec<JsonNode>) -> (r: Result<String, Failure>)
    ensures
        gives_text(r, invoking_pane(node_views(nodes@))),
{
    match find_text(nodes, &field_path(root_path(), "focused_pane_id")) {
        None => Err(
            Failure::new("Herdr plugin context did not report the invoking pane".to_owned()),
        ),
        Some(pane) => require_nonempty_env("HERDR_PLUGIN_CONTEXT_JSON focused_pane_id", pane),
    }
}

/// The values of a plugin context.
fn decode_plugin_context(context: &str) -> (r: Result<Vec<JsonNode>, Failure>)
    ensures
        match plugin_nodes(context@) {
            Ok(nodes) => r is Ok && node_views(r->Ok_0@) == nodes,
            Err(failure) => r is Err && r->Err_0@ == failure,
        },
{
    match parse_json(context.as_bytes()) {
        Ok(nodes) => Ok(nodes),
        Err(reason) => Err(
            Failure::new(reason).context("decode HERDR_PLUGIN_CONTEXT_JSON".to_owned()),
        ),
    }
}

/// The pane to place beside.
pub fn placement_pane_id(pane_id: String, plugin_context: Option<&str>) -> (r: Result<
    String,
    Failure,
>)
    ensures
        gives_text(r, placement_pane(pane_id@, str_view(plugin_context))),
{
    match plugin_context {
        None => Ok(pane_id),
        Some(context) => match decode_plugin_context(context) {
            Ok(nodes) => find_invoking_pane(&nodes),
            Err(failure) => Err(failure),
        },
    }
}

/// The pane to place beside, which only a plugin context names.
pub open spec fn plugin_pane(context: Option<Seq<char>>) -> Result<Seq<char>, FailureView> {
    if context is None {
        Err(
            plain(
                "Herdr did not provide HERDR_PLUGIN_CONTEXT_JSON for authoritative plugin placement"@,
            ),
        )
    } else {
        placement_pane(Seq::empty(), context)
    }
}

/// The pane to place beside, which only a plugin context names.
pub fn plugin_placement_pane_id(plugin_context: Option<&str>) -> (r: Result<String, Failure>)
    ensures
        gives_text(r, plugin_pane(str_view(plugin_context))),
{
    if plugin_context.is_none() {
        return Err(
            Failure::new(
                "Herdr did not provide HERDR_PLUGIN_CONTEXT_JSON for authoritative plugin placement".to_owned(),
            ),
        );
    }
    let empty = String::new();
    assert(empty@ =~= Seq::empty());
    placement_pane_id(empty, plugin_context)
}

/// The workspace to place in: the one of the plugin context where it names one.
pub open spec fn placement_workspace(
    workspace_id: Option<Seq<char>>,
    context: Option<Seq<char>>,
) -> Result<Seq<char>, FailureView> {
    let own = match workspace_id {
        Some(workspace) => Ok(workspace),
        None => Err(plain("Herdr did not provide HERDR_WORKSPACE_ID"@)),
    };
    match context {
        None => own,
        Some(context) => match plugin_nodes(context) {
            Err(failure) => Err(failure),
            Ok(nodes) => match text_at(nodes, field(root(), "workspace_id"@)) {
                Some(workspace) => nonempty_env(
                    "HERDR_PLUGIN_CONTEXT_JSON workspace_id"@,
                    workspace,
                ),
                None => own,
            },
        },
    }
}

/// The workspace to place in.
pub fn placement_workspace_id(workspace_id: Option<String>, plugin_context: Option<&str>) -> (r:
    Result<String, Failure>)
    ensures
        gives_text(r, placement_workspace(opt_view(workspace_id), str_view(plugin_context))),
{
    if let Some(context) = plugin_context {
        match decode_plugin_context(context) {
            Ok(nodes) => {
                if let Some(workspace) = find_text(&nodes, &field_path(root_path(), "workspace_id")) {
                    return require_nonempty_env(
                        "HERDR_PLUGIN_CONTEXT_JSON workspace_id",
                        workspace,
                    );
                }
            },
            Err(failure) => {
                return Err(failure);
            },
        }
    }
    match workspace_id {
        Some(workspace) => Ok(workspace),
        None => Err(Failure::new("Herdr did not provide HERDR_WORKSPACE_ID".to_owned())),
    }
}

/// A context made of what was found, or the first failure.
pub open spec fn context_of(
    binary: Seq<char>,
    pane: Result<Seq<char>, FailureView>,
    workspace: Result<Seq<char>, FailureView>,
) -> Result<ContextView, FailureView> {
    match pane {
        Err(failure) => Err(failure),
        Ok(pane_id) => match workspace {
            Err(failure) => Err(failure),
            Ok(workspace_id) => Ok(ContextView { binary, pane_id, workspace_id }),
        },
    }
}

/// The outcome is exactly the context or the failure that was found.
pub open spec fn gives_context(
    r: Result<HerdrContext, Failure>,
    found: Result<ContextView, FailureView>,
) -> bool {
    match found {
        Ok(context) => r is Ok && r->Ok_0@ == context,
        Err(failure) => r is Err && r->Err_0@ == failure,
    }
}

/// The context of a pane of the user's, from what Herdr provides.
pub open spec fn runtime_context(
    binary: Seq<char>,
    pane_id: Option<Seq<char>>,
    workspace_id: Option<Seq<char>>,
    context: Option<Seq<char>>,
) -> Result<ContextView, FailureView> {
    let pane = match context {
        Some(_) => placement_pane(Seq::empty(), context),
        None => match pane_id {
            Some(pane) => Ok(pane),
            None => Err(plain("Herdr did not provide HERDR_PANE_ID"@)),
        },
    };
    context_of(binary, pane, placement_workspace(workspace_id, context))
}

/// The value of a variable, of its fallback, or none.
pub open spec fn optional_env(name: Seq<char>, value: EnvValue, fallback_name: Seq<char>, fallback: EnvValue) -> Result<
    Option<Seq<char>>,
    FailureView,
> {
    let invalid = plain("Herdr did not provide a valid UTF-8 "@ + name);
    match value {
        EnvValue::Text(text) => match nonempty_env(name, text@) {
            Ok(text) => Ok(Some(text)),
            Err(failure) => Err(failure),
        },
        EnvValue::NotUnicode => Err(invalid),
        EnvValue::Missing => match fallback {
            EnvValue::Text(text) => match nonempty_env(fallback_name, text@) {
                Ok(text) => Ok(Some(text)),
                Err(failure) => Err(failure),
            },
            EnvValue::NotUnicode => Err(invalid),
            EnvValue::Missing => Ok(None),
        },
    }
}

/// The value of a variable, of its fallback, or none.
pub fn optional_string_env(
    name: &str,
    value: &EnvValue,
    fallback_name: &str,
    fallback: &EnvValue,
) -> (r: Result<Option<String>, Failure>)
    ensures
        match optional_env(name@, *value, fallback_name@, *fallback) {
            Ok(text) => r is Ok && opt_view(r->Ok_0) == text,
            Err(failure) => r is Err && r->Err_0@ == failure,
        },
{
    let (name_used, text) = match value {
        EnvValue::Text(text) => (name, text),
        EnvValue::NotUnicode => {
            return Err(
                Failure::new("Herdr did not provide a valid UTF-8 ".to_owned().concat(name)),
            );
        },
        EnvValue::Missing => match fallback {
            EnvValue::Text(text) => (fallback_name, text),
            EnvValue::NotUnicode => {
                return Err(
                    Failure::new("Herdr did not provide a valid UTF-8 ".to_owned().concat(name)),
                );
            },
            EnvValue::Missing => {
                return Ok(None);
            },
        },
    };
    match require_nonempty_env(name_used, text.clone()) {
        Ok(text) => Ok(Some(text)),
        Err(failure) => Err(failure),
    }
}

/// The value of a variable that Herdr always sets.
pub open spec fn required_env(name: Seq<char>, value: Option<Seq<char>>) -> Result<
    Seq<char>,
    FailureView,
> {
    match value {
        None => Err(plain("Herdr did not provide "@ + name)),
        Some(value) => nonempty_env(name, value),
    }
}

/// The value of a variable that Herdr always sets.
pub fn required_os_env(name: &str, value: &Option<String>) -> (r: Result<String, Failure>)
    ensures
        gives_text(r, required_env(name@, opt_view(*value))),
{
    match value {
        None => Err(Failure::new("Herdr did not provide ".to_owned().concat(name))),
        Some(value) => require_nonempty_env(name, value.clone()),
    }
}

/// The plugin context, if Herdr provides one.
pub open spec fn plugin_context_of(value: EnvValue) -> Result<Option<Seq<char>>, FailureView> {
    match value {
        EnvValue::Text(text) => Ok(Some(text@)),
        EnvValue::Missing => Ok(None),
        EnvValue::NotUnicode => Err(plain("Herdr provided a non-UTF-8 HERDR_PLUGIN_CONTEXT_JSON"@)),
    }
}

/// The plugin context, if Herdr provides one.
pub fn plugin_context_env(value: &EnvValue) -> (r: Result<Option<String>, Failure>)
    ensures
        match plugin_context_of(*value) {
            Ok(text) => r is Ok && opt_view(r->Ok_0) == text,
            Err(failure) => r is Err && r->Err_0@ == failure,
        },
{
    match value {
        EnvValue::Text(text) => Ok(Some(text.clone())),
        EnvValue::Missing => Ok(None),
        EnvValue::NotUnicode => Err(
            Failure::new("Herdr provided a non-UTF-8 HERDR_PLUGIN_CONTEXT_JSON".to_owned()),
        ),
    }
}

/// The workspace that the environment names, if it names one.
pub open spec fn workspace_env(environment: HerdrEnvironment) -> Result<
    Option<Seq<char>>,
    FailureView,
> {
    optional_env(
        "HERDR_WORKSPACE_ID"@,
        environment.workspace_id,
        "WORKSPACE_ID"@,
        environment.workspace_id_fallback,
    )
}

/// The context of a pane of the user's, from the process environment.
pub open spec fn env_context(environment: HerdrEnvironment) -> Result<ContextView, FailureView> {
    match plugin_context_of(environment.plugin_context) {
        Err(failure) => Err(failure),
        Ok(context) => match required_env("HERDR_BIN_PATH"@, opt_view(environment.binary)) {
            Err(failure) => Err(failure),
            Ok(binary) => match optional_env(
                "HERDR_PANE_ID"@,
                environment.pane_id,
                "PANE_ID"@,
                environment.pane_id_fallback,
            ) {
                Err(failure) => Err(failure),
                Ok(pane) => match workspace_env(environment) {
                    Err(failure) => Err(failure),
                    Ok(workspace) => runtime_context(binary, pane, workspace, context),
                },
            },
        },
    }
}

/// The context of a plugin action, from the process environment.
pub open spec fn plugin_env_context(environment: HerdrEnvironment) -> Result<
    ContextView,
    FailureView,
> {
    match plugin_context_of(environment.plugin_context) {
        Err(failure) => Err(failure),
        Ok(context) => match required_env("HERDR_BIN_PATH"@, opt_view(environment.binary)) {
            Err(failure) => Err(failure),
            Ok(binary) => match workspace_env(environment) {
                Err(failure) => Err(failure),
                Ok(workspace) => context_of(
                    binary,
                    plugin_pane(context),
                    placement_workspace(workspace, context),
                ),
            },
        },
    }
}

impl HerdrContext {
    /// Loads the subset of Herdr's plugin environment needed to place panes.
    pub fn from_env(environment: &HerdrEnvironment) -> (r: Result<Self, Failure>)
        ensures
            gives_context(r, env_context(*environment)),
    {
        let context = match plugin_context_env(&environment.plugin_context) {
            Ok(context) => context,
            Err(failure) => {
                return Err(failure);
            },
        };
        let binary = match required_os_env("HERDR_BIN_PATH", &environment.binary) {
            Ok(binary) => binary,
            Err(failure) => {
                return Err(failure);
            },
        };
        let pane_id = match optional_string_env(
            "HERDR_PANE_ID",
            &environment.pane_id,
            "PANE_ID",
            &environment.pane_id_fallback,
        ) {
            Ok(pane_id) => pane_id,
            Err(failure) => {
                return Err(failure);
            },
        };
        let workspace_id = match optional_string_env(
            "HERDR_WORKSPACE_ID",
            &environment.workspace_id,
            "WORKSPACE_ID",
            &environment.workspace_id_fallback,
        ) {
            Ok(workspace_id) => workspace_id,
            Err(failure) => {
                return Err(failure);
            },
        };
        match &context {
            Some(context) => Self::from_runtime_values(
                binary,
                pane_id,
                workspace_id,
                Some(context.as_str()),
            ),
            None => Self::from_runtime_values(binary, pane_id, workspace_id, None),
        }
    }

    /// The context of a pane of the user's, from what Herdr provides.
    pub fn from_runtime_values(
        binary: String,
        pane_id: Option<String>,
        workspace_id: Option<String>,
        plugin_context: Option<&str>,
    ) -> (r: Result<Self, Failure>)
        ensures
            gives_context(
                r,
                runtime_context(
                    binary@,
                    opt_view(pane_id),
                    opt_view(workspace_id),
                    str_view(plugin_context),
                ),
            ),
    {
        let pane = match plugin_context {
            Some(_) => {
                let empty = String::new();
                assert(empty@ =~= Seq::empty());
                placement_pane_id(empty, plugin_context)
            },
            None => match pane_id {
                Some(pane) => Ok(pane),
                None => Err(Failure::new("Herdr did not provide HERDR_PANE_ID".to_owned())),
            },
        };
        let pane_id = match pane {
            Ok(pane_id) => pane_id,
            Err(failure) => {
                return Err(failure);
            },
        };
        match placement_workspace_id(workspace_id, plugin_context) {
            Ok(workspace_id) => Ok(HerdrContext { binary, pane_id, workspace_id }),
            Err(failure) => Err(failure),
        }
    }

    /// Loads authoritative placement context for a managed plugin UI action.
    ///
    /// Unlike [`Self::from_env`], this never falls back to the managed pane ID.
    pub fn from_plugin_env(environment: &HerdrEnvironment) -> (r: Result<Self, Failure>)
        ensures
            gives_context(r, plugin_env_context(*environment)),
    {
        let context = match plugin_context_env(&environment.plugin_context) {
            Ok(context) => context,
            Err(failure) => {
                return Err(failure);
            },
        };
        let binary = match required_os_env("HERDR_BIN_PATH", &environment.binary) {
            Ok(binary) => binary,
            Err(failure) => {
                return Err(failure);
            },
        };
        let workspace_id = match optional_string_env(
            "HERDR_WORKSPACE_ID",
            &environment.workspace_id,
            "WORKSPACE_ID",
            &environment.workspace_id_fallback,
        ) {
            Ok(workspace_id) => workspace_id,
            Err(failure) => {
                return Err(failure);
            },
        };
        match &context {
            Some(context) => Self::from_plugin_values(binary, workspace_id, Some(context.as_str())),
            None => Self::from_plugin_values(binary, workspace_id, None),
        }
    }

    /// The context of a plugin action, from what Herdr provides.
    pub fn from_plugin_values(
        binary: String,
        workspace_id: Option<String>,
        plugin_context: Option<&str>,
    ) -> (r: Result<Self, Failure>)
        ensures
            gives_context(
                r,
                context_of(
                    binary@,
                    plugin_pane(str_view(plugin_context)),
                    placement_workspace(opt_view(workspace_id), str_view(plugin_context)),
                ),
            ),
    {
        let pane_id = match plugin_placement_pane_id(plugin_context) {
            Ok(pane_id) => pane_id,
            Err(failure) => {
                return Err(failure);
            },
        };
        match placement_workspace_id(workspace_id, plugin_context) {
            Ok(workspace_id) => Ok(HerdrContext { binary, pane_id, workspace_id }),
            Err(failure) => Err(failure),
        }
    }
}

/// A plugin action without a plugin context places nothing: no other variable
/// of the environment stands in for it.
pub proof fn plugin_actions_need_their_context(environment: HerdrEnvironment)
    requires
        !(environment.plugin_context is Text),
    ensures
        plugin_env_context(environment) is Err,
{
}

/// A pane that a command was placed in.
#[derive(Debug, PartialEq, Eq)]
pub struct PlacedPane {
    pub pane_id: String,
    pub warning: Option<String>,
}

/// The contents of a [`PlacedPane`].
pub struct PlacedView {
    pub pane_id: Seq<char>,
    pub warning: Option<Seq<char>>,
}

impl View for PlacedPane {
    type V = PlacedView;

    open spec fn view(&self) -> PlacedView {
        PlacedView { pane_id: self.pane_id@, warning: opt_view(self.warning) }
    }
}

/// A directory of the plugin's own, under the name of its variable.
#[derive(Debug, PartialEq, Eq)]
pub struct PluginPath {
    pub name: String,
    pub value: String,
}

/// The settings that carry the plugin's directories.
pub open spec fn path_settings(paths: Seq<PluginPath>) -> Seq<Seq<char>> {
    paths.map_values(|path: PluginPath| path.name@ + "="@ + path.value@)
}

/// A command as a pane runs it: without the variables that would place it
/// again or nest it, and with the plugin's directories.
pub open spec fn placed(command: CommandView, paths: Seq<PluginPath>) -> CommandView {
    CommandView {
        program: "env"@,
        args: seq!["-u"@, "HERDR_BIN_PATH"@, "-u"@, "TMUX"@] + path_settings(paths) + seq![
            command.program,
        ] + command.args,
    }
}

/// A command as a pane runs it.
pub fn placed_command_with_paths(command: &CommandSpec, plugin_paths: &Vec<PluginPath>) -> (r:
    CommandSpec)
    ensures
        r@ == placed(command@, plugin_paths@),
{
    let mut args = vec![
        "-u".to_owned(),
        "HERDR_BIN_PATH".to_owned(),
        "-u".to_owned(),
        "TMUX".to_owned(),
    ];
    let ghost head = seq!["-u"@, "HERDR_BIN_PATH"@, "-u"@, "TMUX"@];
    let ghost settings = path_settings(plugin_paths@);
    assert(views(args@) =~= head + settings.take(0));
    let mut i: usize = 0;
    while i < plugin_paths.len()
        invariant
            i <= plugin_paths@.len(),
            settings == path_settings(plugin_paths@),
            views(args@) == head + settings.take(i as int),
        decreases plugin_paths.len() - i,
    {
        let path = &plugin_paths[i];
        let setting = path.name.clone().concat("=").concat(path.value.as_str());
        let ghost before = args@;
        let ghost shown = setting@;
        assert(shown == settings[i as int]);
        args.push(setting);
        assert(views(args@) =~= views(before).push(shown));
        i += 1;
        assert(head + settings.take(i as int) =~= (head + settings.take(i - 1)).push(
            settings[i - 1],
        ));
    }
    assert(settings.take(i as int) =~= settings);
    let ghost before = args@;
    args.push(command.program.clone());
    assert(views(args@) =~= views(before).push(command@.program));
    let ghost front = views(args@);
    let ghost rest = command@.args;
    let mut k: usize = 0;
    assert(front =~= front + rest.take(0));
    while k < command.args.len()
        invariant
            k <= command.args@.len(),
            rest == command@.args,
            views(args@) == front + rest.take(k as int),
        decreases command.args.len() - k,
    {
        let argument = command.args[k].clone();
        let ghost before = args@;
        let ghost shown = argument@;
        assert(shown == rest[k as int]);
        args.push(argument);
        assert(views(args@) =~= views(before).push(shown));
        k += 1;
        assert(front + rest.take(k as int) =~= (front + rest.take(k - 1)).push(rest[k - 1]));
    }
    assert(rest.take(k as int) =~= rest);
    let r = CommandSpec::new("env".to_owned(), args);
    assert(r@ =~= placed(command@, plugin_paths@));
    r
}

/// A client of Herdr in one context.
#[derive(Debug, PartialEq, Eq)]
pub struct HerdrClient {
    context: HerdrContext,
}

impl View for HerdrClient {
    type V = ContextView;

    closed spec fn view(&self) -> ContextView {
        self.context@
    }
}

/// Where a new pane stands relative to the one it is split from.
#[derive(Clone, Copy, Debug, PartialEq, Eq, Structural)]
pub enum SplitDirection {
    Right,
    Down,
}

impl SplitDirection {
    /// The direction as Herdr names it.
    pub open spec fn text(self) -> Seq<char> {
        match self {
            SplitDirection::Right => "right"@,
            SplitDirection::Down => "down"@,
        }
    }
}

/// The document that a reply holds, of the given type, or why there is none.
pub open spec fn typed_response(
    reply: Result<HerdrOutput, Failure>,
    operation: Seq<char>,
    expected: Seq<Seq<char>>,
) -> Result<Seq<NodeView>, FailureView> {
    match reply {
        Err(failure) => Err(failure@),
        Ok(output) => match response(output, operation) {
            Err(failure) => Err(failure),
            Ok(nodes) => match type_problem(nodes, expected) {
                Some(text) => Err(plain(text)),
                None => Ok(nodes),
            },
        },
    }
}

/// A text in a reply, or why there is none.
pub open spec fn text_response(
    reply: Result<HerdrOutput, Failure>,
    operation: Seq<char>,
    expected: Seq<char>,
    keys: Seq<Seq<char>>,
    description: Seq<char>,
) -> Result<Seq<char>, FailureView> {
    match typed_response(reply, operation, seq![expected]) {
        Err(failure) => Err(failure),
        Ok(nodes) => match result_text(nodes, keys, description) {
            Ok(text) => Ok(text),
            Err(text) => Err(plain(text)),
        },
    }
}

/// The document that a reply holds.
pub fn decode_typed(
    reply: Result<HerdrOutput, Failure>,
    operation: &str,
    expected: &Vec<String>,
) -> (r: Result<Vec<JsonNode>, Failure>)
    ensures
        match typed_response(reply, operation@, views(expected@)) {
            Ok(nodes) => r is Ok && node_views(r->Ok_0@) == nodes,
            Err(failure) => r is Err && r->Err_0@ == failure,
        },
{
    match reply {
        Err(failure) => Err(failure),
        Ok(output) => match decode_response(&output, operation) {
            Err(failure) => Err(failure),
            Ok(nodes) => match require_result_type_in(&nodes, expected) {
                Err(failure) => Err(failure),
                Ok(()) => Ok(nodes),
            },
        },
    }
}

/// A text in a reply.
fn decode_text(
    reply: Result<HerdrOutput, Failure>,
    operation: &str,
    expected: &str,
    keys: &Vec<String>,
    description: &str,
) -> (r: Result<String, Failure>)
    ensures
        gives_text(r, text_response(reply, operation@, expected@, views(keys@), description@)),
{
    let types = vec![expected.to_owned()];
    assert(views(types@) =~= seq![expected@]);
    match decode_typed(reply, operation, &types) {
        Err(failure) => Err(failure),
        Ok(nodes) => result_string(&nodes, keys, description),
    }
}

/// A reply that only says that it was done.
pub open spec fn done_problem(
    reply: Result<HerdrOutput, Failure>,
    operation: Seq<char>,
    expected: Seq<char>,
) -> Option<FailureView> {
    match typed_response(reply, operation, seq![expected]) {
        Ok(_) => None,
        Err(failure) => Some(failure),
    }
}

/// The outcome is exactly the failure that was found.
pub open spec fn gives_done(r: Result<(), Failure>, problem: Option<FailureView>) -> bool {
    match problem {
        None => r is Ok,
        Some(failure) => r is Err && r->Err_0@ == failure,
    }
}

/// Accepts a reply that only says that it was done.
fn require_done(reply: Result<HerdrOutput, Failure>, operation: &str, expected: &str) -> (r: Result<
    (),
    Failure,
>)
    ensures
        gives_done(r, done_problem(reply, operation@, expected@)),
{
    let types = vec![expected.to_owned()];
    assert(views(types@) =~= seq![expected@]);
    match decode_typed(reply, operation, &types) {
        Err(failure) => Err(failure),
        Ok(_) => Ok(()),
    }
}

/// Why a command does not run in the pane that it was meant for, if it does
/// not.
pub open spec fn run_problem(reply: Result<HerdrOutput, Failure>, pane_id: Seq<char>) -> Option<
    FailureView,
> {
    let operation = "run command in pane"@;
    match reply {
        Err(failure) => Some(failure@),
        Ok(output) => if output.stdout@.len() == 0 {
            match silent_problem(output, operation) {
                Some(text) => Some(plain(text)),
                None => None,
            }
        } else {
            match text_response(
                reply,
                operation,
                "pane_ran"@,
                seq!["pane_id"@],
                "pane run response pane_id"@,
            ) {
                Err(failure) => Some(failure),
                Ok(ran) => if ran != pane_id {
                    Some(
                        plain(
                            "Herdr ran the command in pane `"@ + ran
                                + "`, not newly created pane `"@ + pane_id + "`"@,
                        ),
                    )
                } else {
                    None
                },
            }
        },
    }
}

/// Accepts a reply that says that a command runs in the pane that it was meant
/// for.
pub fn run_reply(reply: Result<HerdrOutput, Failure>, pane_id: &str) -> (r: Result<(), Failure>)
    ensures
        gives_done(r, run_problem(reply, pane_id@)),
{
    let output = match reply {
        Ok(output) => output,
        Err(failure) => {
            return Err(failure);
        },
    };
    if output.stdout.len() == 0 {
        return require_empty_success(&output, "run command in pane");
    }
    let keys = vec!["pane_id".to_owned()];
    assert(views(keys@) =~= seq!["pane_id"@]);
    match decode_text(
        Ok(output),
        "run command in pane",
        "pane_ran",
        &keys,
        "pane run response pane_id",
    ) {
        Err(failure) => Err(failure),
        Ok(ran) => {
            if same_text(ran.as_str(), pane_id) {
                Ok(())
            } else {
                Err(
                    Failure::new(
                        "Herdr ran the command in pane `".to_owned().concat(ran.as_str()).concat(
                            "`, not newly created pane `",
                        ).concat(pane_id).concat("`"),
                    ),
                )
            }
        },
    }
}

/// The pane that a split made.
pub fn split_reply(reply: Result<HerdrOutput, Failure>) -> (r: Result<String, Failure>)
    ensures
        gives_text(
            r,
            text_response(
                reply,
                "split pane"@,
                "pane_info"@,
                seq!["pane"@, "pane_id"@],
                "split response pane_id"@,
            ),
        ),
{
    let keys = vec!["pane".to_owned(), "pane_id".to_owned()];
    assert(views(keys@) =~= seq!["pane"@, "pane_id"@]);
    decode_text(reply, "split pane", "pane_info", &keys, "split response pane_id")
}

/// The first pane of a tab that was made.
pub fn tab_reply(reply: Result<HerdrOutput, Failure>) -> (r: Result<String, Failure>)
    ensures
        gives_text(
            r,
            text_response(
                reply,
                "create tab"@,
                "tab_created"@,
                seq!["root_pane"@, "pane_id"@],
                "tab response root pane_id"@,
            ),
        ),
{
    let keys = vec!["root_pane".to_owned(), "pane_id".to_owned()];
    assert(views(keys@) =~= seq!["root_pane"@, "pane_id"@]);
    decode_text(reply, "create tab", "tab_created", &keys, "tab response root pane_id")
}

/// Accepts a reply that says that a pane was closed.
pub fn close_reply(reply: Result<HerdrOutput, Failure>) -> (r: Result<(), Failure>)
    ensures
        gives_done(r, done_problem(reply, "close replaced pane"@, "ok"@)),
{
    require_done(reply, "close replaced pane", "ok")
}

/// What a pane was found to run, as a reply says it.
pub open spec fn inspected(reply: Result<HerdrOutput, Failure>, pane_id: Seq<char>) -> Result<
    crate::herdr_reply::InspectionView,
    FailureView,
> {
    match reply {
        Err(failure) => Err(failure@),
        Ok(output) => match response(output, "inspect pane process"@) {
            Err(failure) => Err(failure),
            Ok(nodes) => match crate::herdr_reply::inspection(nodes, pane_id) {
                Ok(found) => Ok(found),
                Err(text) => Err(plain(text)),
            },
        },
    }
}

/// What a pane was found to run, as a reply says it.
pub fn inspection_reply(reply: Result<HerdrOutput, Failure>, pane_id: &str) -> (r: Result<
    crate::herdr_reply::ReplacementInspection,
    Failure,
>)
    ensures
        match inspected(reply, pane_id@) {
            Ok(found) => r is Ok && r->Ok_0@ == found,
            Err(failure) => r is Err && r->Err_0@ == failure,
        },
{
    match reply {
        Err(failure) => Err(failure),
        Ok(output) => match decode_response(&output, "inspect pane process") {
            Err(failure) => Err(failure),
            Ok(nodes) => crate::herdr_reply::process_info(&nodes, pane_id),
        },
    }
}

/// How a plugin pane is opened: as a popup where Herdr can, as an overlay
/// otherwise.
pub open spec fn plugin_pane_arguments(entrypoint: Seq<char>, popup: bool) -> Seq<Seq<char>> {
    seq![
        "plugin"@,
        "pane"@,
        "open"@,
        "--plugin"@,
        PLUGIN_ID@,
        "--entrypoint"@,
        entrypoint,
        "--placement"@,
        if popup {
            "popup"@
        } else {
            "overlay"@
        },
    ] + if popup {
        seq!["--width"@, "80%"@, "--height"@, "80%"@]
    } else {
        Seq::empty()
    }
}

/// A request to open a plugin pane.
#[derive(Debug, PartialEq, Eq)]
pub struct PluginPaneRequest {
    pub arguments: Vec<String>,
    pub popup: bool,
}

impl HerdrClient {
    /// A client in the given context.
    pub fn new(context: HerdrContext) -> (client: Self)
        ensures
            client@ == context@,
    {
        HerdrClient { context }
    }

    /// The context of the client.
    pub fn context(&self) -> (context: &HerdrContext)
        ensures
            context@ == self@,
    {
        &self.context
    }

    /// The request that asks Herdr for its version.
    pub fn version_arguments(&self) -> (arguments: Vec<String>)
        ensures
            views(arguments@) == seq!["--version"@],
    {
        let arguments = vec!["--version".to_owned()];
        assert(views(arguments@) =~= seq!["--version"@]);
        arguments
    }

    /// The request that splits the client's pane.
    pub fn split_arguments(&self, direction: SplitDirection) -> (arguments: Vec<String>)
        ensures
            views(arguments@) == seq![
                "pane"@,
                "split"@,
                "--pane"@,
                self@.pane_id,
                "--direction"@,
                direction.text(),
                "--focus"@,
            ],
    {
        let direction_text = match direction {
            SplitDirection::Right => "right".to_owned(),
            SplitDirection::Down => "down".to_owned(),
        };
        let arguments = vec![
            "pane".to_owned(),
            "split".to_owned(),
            "--pane".to_owned(),
            self.context.pane_id.clone(),
            "--direction".to_owned(),
            direction_text,
            "--focus".to_owned(),
        ];
        assert(views(arguments@) =~= seq![
            "pane"@,
            "split"@,
            "--pane"@,
            self@.pane_id,
            "--direction"@,
            direction.text(),
            "--focus"@,
        ]);
        arguments
    }

    /// The request that makes a tab in the client's workspace.
    pub fn create_tab_arguments(&self) -> (arguments: Vec<String>)
        ensures
            views(arguments@) == seq![
                "tab"@,
                "create"@,
                "--workspace"@,
                self@.workspace_id,
                "--focus"@,
            ],
    {
        let arguments = vec![
            "tab".to_owned(),
            "create".to_owned(),
            "--workspace".to_owned(),
            self.context.workspace_id.clone(),
            "--focus".to_owned(),
        ];
        assert(views(arguments@) =~= seq![
            "tab"@,
            "create"@,
            "--workspace"@,
            self@.workspace_id,
            "--focus"@,
        ]);
        arguments
    }

    /// The request that asks what a pane runs.
    pub fn process_info_arguments(&self, pane_id: &str) -> (arguments: Vec<String>)
        ensures
            views(arguments@) == seq!["pane"@, "process-info"@, "--pane"@, pane_id@],
    {
        let arguments = vec![
            "pane".to_owned(),
            "process-info".to_owned(),
            "--pane".to_owned(),
            pane_id.to_owned(),
        ];
        assert(views(arguments@) =~= seq!["pane"@, "process-info"@, "--pane"@, pane_id@]);
        arguments
    }

    /// The request that names a pane.
    pub fn label_arguments(&self, pane_id: &str, title: &PaneTitle) -> (arguments: Vec<String>)
        ensures
            views(arguments@) == seq!["pane"@, "rename"@, pane_id@, title@],
    {
        let arguments = vec![
            "pane".to_owned(),
            "rename".to_owned(),
            pane_id.to_owned(),
            title.as_str().to_owned(),
        ];
        assert(views(arguments@) =~= seq!["pane"@, "rename"@, pane_id@, title@]);
        arguments
    }

    /// The request that closes a pane.
    pub fn close_arguments(&self, pane_id: &str) -> (arguments: Vec<String>)
        ensures
            views(arguments@) == seq!["pane"@, "close"@, pane_id@],
    {
        let arguments = vec!["pane".to_owned(), "close".to_owned(), pane_id.to_owned()];
        assert(views(arguments@) =~= seq!["pane"@, "close"@, pane_id@]);
        arguments
    }

    /// The request that runs a command in a pane. A command that holds NUL
    /// cannot be written on a line.
    pub fn run_arguments(
        &self,
        command: &CommandSpec,
        plugin_paths: &Vec<PluginPath>,
        pane_id: &str,
    ) -> (r: Result<Vec<String>, Failure>)
        ensures
            ({
                let whole = placed(command@, plugin_paths@);
                if crate::backend::holds_nul(whole) {
                    r is Err && r->Err_0@ == plain("cannot quote a value containing NUL"@)
                } else {
                    r is Ok && views(r->Ok_0@) == seq![
                        "pane"@,
                        "run"@,
                        pane_id@,
                        crate::backend::command_line(whole),
                    ]
                }
            }),
    {
        match placed_command_with_paths(command, plugin_paths).posix_command_line() {
            Ok(line) => {
                let ghost shown = line@;
                let arguments = vec![
                    "pane".to_owned(),
                    "run".to_owned(),
                    pane_id.to_owned(),
                    line,
                ];
                assert(views(arguments@) =~= seq!["pane"@, "run"@, pane_id@, shown]);
                Ok(arguments)
            },
            Err(error) => Err(Failure::new(error.message())),
        }
    }

    /// Opens one of this plugin's manifest-declared managed panes.
    ///
    /// Herdr 0.7.4 and newer use a session-modal popup. Older compatible
    /// releases retain the overlay behavior.
    pub fn open_plugin_pane(&self, entrypoint: &str, version: Result<HerdrOutput, Failure>) -> (r:
        Result<PluginPaneRequest, Failure>)
        ensures
            if blank(entrypoint@) {
                r is Err && r->Err_0@ == plain("plugin pane entrypoint must not be empty"@)
            } else {
                match reported_version(version) {
                    Err(failure) => r is Err && r->Err_0@ == failure,
                    Ok(version) => r is Ok && r->Ok_0.popup == !older(version, POPUP_VERSION)
                        && views(r->Ok_0.arguments@) == plugin_pane_arguments(
                        entrypoint@,
                        r->Ok_0.popup,
                    ),
                }
            },
    {
        if is_blank(entrypoint) {
            return Err(Failure::new("plugin pane entrypoint must not be empty".to_owned()));
        }
        let popup = match self.supports_popup_plugin_panes(version) {
            Ok(popup) => popup,
            Err(failure) => {
                return Err(failure);
            },
        };
        let placement = if popup {
            "popup".to_owned()
        } else {
            "overlay".to_owned()
        };
        let mut arguments = vec![
            "plugin".to_owned(),
            "pane".to_owned(),
            "open".to_owned(),
            "--plugin".to_owned(),
            PLUGIN_ID.to_owned(),
            "--entrypoint".to_owned(),
            entrypoint.to_owned(),
            "--placement".to_owned(),
            placement,
        ];
        if popup {
            arguments.push("--width".to_owned());
            arguments.push("80%".to_owned());
            arguments.push("--height".to_owned());
            arguments.push("80%".to_owned());
        }
        assert(views(arguments@) =~= plugin_pane_arguments(entrypoint@, popup));
        Ok(PluginPaneRequest { arguments, popup })
    }

    /// Accepts a reply that says that a plugin pane was opened.
    pub fn plugin_pane_reply(&self, reply: Result<HerdrOutput, Failure>, popup: bool) -> (r: Result<
        (),
        Failure,
    >)
        ensures
            gives_done(
                r,
                match typed_response(
                    reply,
                    "open plugin pane"@,
                    if popup {
                        seq!["ok"@, "plugin_pane_opened"@]
                    } else {
                        seq!["plugin_pane_opened"@]
                    },
                ) {
                    Ok(_) => None,
                    Err(failure) => Some(failure),
                },
            ),
    {
        let mut types: Vec<String> = Vec::new();
        if popup {
            types.push("ok".to_owned());
        }
        types.push("plugin_pane_opened".to_owned());
        assert(views(types@) =~= if popup {
            seq!["ok"@, "plugin_pane_opened"@]
        } else {
            seq!["plugin_pane_opened"@]
        });
        match decode_typed(reply, "open plugin pane", &types) {
            Ok(_) => Ok(()),
            Err(failure) => Err(failure),
        }
    }

    /// Labels a pane for an opted-in Tether orchestration view.
    ///
    /// Herdr releases before 0.7.5 have no metadata-token API; for those there
    /// is no request.
    pub fn report_agent_view_group(
        &self,
        pane_id: &str,
        group_id: &OrchestrationGroupId,
        version: Result<HerdrOutput, Failure>,
    ) -> (r: Result<Option<Vec<String>>, Failure>)
        ensures
            match reported_version(version) {
                Err(failure) => r is Err && r->Err_0@ == failure,
                Ok(version) => if older(version, METADATA_VERSION) {
                    r is Ok && r->Ok_0 is None
                } else {
                    r is Ok && r->Ok_0 is Some && views(r->Ok_0->0@) == seq![
                        "pane"@,
                        "report-metadata"@,
                        pane_id@,
                        "--source"@,
                        crate::agent_view::AGENT_VIEW_SOURCE@,
                        "--token"@,
                        crate::agent_view::GROUP_TOKEN@ + "="@ + group_id@,
                    ]
                },
            },
    {
        let version = match read_version(version) {
            Ok(version) => version,
            Err(failure) => {
                return Err(failure);
            },
        };
        if is_older(version, METADATA_VERSION) {
            return Ok(None);
        }
        let token = crate::agent_view::GROUP_TOKEN.to_owned().concat("=").concat(group_id.as_str());
        let ghost shown = token@;
        let arguments = vec![
            "pane".to_owned(),
            "report-metadata".to_owned(),
            pane_id.to_owned(),
            "--source".to_owned(),
            crate::agent_view::AGENT_VIEW_SOURCE.to_owned(),
            "--token".to_owned(),
            token,
        ];
        assert(views(arguments@) =~= seq![
            "pane"@,
            "report-metadata"@,
            pane_id@,
            "--source"@,
            crate::agent_view::AGENT_VIEW_SOURCE@,
            "--token"@,
            shown,
        ]);
        Ok(Some(arguments))
    }

    /// Accepts a reply that says that a pane was labelled.
    pub fn agent_view_group_reply(&self, reply: Result<HerdrOutput, Failure>) -> (r: Result<
        (),
        Failure,
    >)
        ensures
            gives_done(r, done_problem(reply, "label pane for Agent view"@, "ok"@)),
    {
        require_done(reply, "label pane for Agent view", "ok")
    }

    /// Whether Herdr can open plugin panes as popups.
    pub fn supports_popup_plugin_panes(&self, version: Result<HerdrOutput, Failure>) -> (r: Result<
        bool,
        Failure,
    >)
        ensures
            match reported_version(version) {
                Err(failure) => r is Err && r->Err_0@ == failure,
                Ok(version) => r == Ok::<bool, Failure>(!older(version, POPUP_VERSION)),
            },
    {
        match read_version(version) {
            Ok(version) => Ok(!is_older(version, POPUP_VERSION)),
            Err(failure) => Err(failure),
        }
    }

    /// Reports foreground processes that replacement would terminate.
    pub fn inspect_replacement_source(&self, reply: Result<HerdrOutput, Failure>) -> (r: Result<
        crate::herdr_reply::ReplacementInspection,
        Failure,
    >)
        ensures
            match inspected(reply, self@.pane_id) {
                Ok(found) => r is Ok && r->Ok_0@ == found,
                Err(failure) => r is Err && r->Err_0@ == led_to(
                    "inspect the pane that Replace current pane would close"@,
                    failure,
                ),
            },
    {
        match inspection_reply(reply, self.context.pane_id.as_str()) {
            Ok(found) => Ok(found),
            Err(failure) => Err(
                failure.context(
                    "inspect the pane that Replace current pane would close".to_owned(),
                ),
            ),
        }
    }
}

/// The version in the answer to a request for it.
pub open spec fn reported_version(reply: Result<HerdrOutput, Failure>) -> Result<
    (u64, u64, u64),
    FailureView,
> {
    match reply {
        Err(failure) => Err(failure@),
        Ok(output) => herdr_version(output.stdout@),
    }
}

/// The version in the answer to a request for it.
fn read_version(reply: Result<HerdrOutput, Failure>) -> (r: Result<(u64, u64, u64), Failure>)
    ensures
        match reported_version(reply) {
            Ok(version) => r == Ok::<(u64, u64, u64), Failure>(version),
            Err(failure) => r is Err && r->Err_0@ == failure,
        },
{
    match reply {
        Ok(output) => parse_herdr_version(&output.stdout),
        Err(failure) => Err(failure),
    }
}

} // verus!
