//! The state of the read-only orchestration observer.
//!
//! This module knows nothing about sessions, tmux, or any orchestration
//! harness. Integrations translate their state into [`ObserverWorker`] values
//! and translate [`ObserverOutcome`] values back into application actions.

use vstd::prelude::*;
use vstd::string::*;

use crate::capture::{sanitize_capture, sanitize_label, shown_capture, shown_label};
use crate::model::{
    denoted_uuid, denotes_session_id, full_reference_texts_differ, reference_token_text,
    session_id_texts_differ, SessionId, TmuxSessionId,
};
use crate::text::{chars_of, copy_opt, opt_view, same_text, text_between, views};

verus! {

pub const WORKERS_PER_PAGE: usize = 4;

pub const MAX_WORKERS: usize = 64;

pub const MAX_PROMPT_TARGETS: usize = 8;

/// What the members of a group allow.
#[derive(Clone, Copy, Debug, Default, PartialEq, Eq, Structural)]
pub struct ObserverCapabilities {
    pub observe_output: bool,
    pub open_interactive: bool,
    pub prompt_agent: bool,
}

/// The lifecycle of a workload as a tile names it.
#[derive(Clone, Copy, Debug, Default, PartialEq, Eq, Structural)]
pub enum ObserverLifecycle {
    Starting,
    Running,
    Stopping,
    Ended,
    /// The command ended with a failing status, which `tmux` reported. An end
    /// whose status could not be read stays `Ended`.
    Failed { exit_status: i32 },
    Missing,
    Removed,
    #[default]
    Unknown,
}

impl ObserverLifecycle {
    /// The word that a tile shows.
    pub open spec fn word(self) -> Seq<char> {
        match self {
            ObserverLifecycle::Starting => "STARTING"@,
            ObserverLifecycle::Running => "RUNNING"@,
            ObserverLifecycle::Stopping => "STOPPING"@,
            ObserverLifecycle::Ended => "ENDED"@,
            ObserverLifecycle::Failed { .. } => "FAILED"@,
            ObserverLifecycle::Missing => "MISSING"@,
            ObserverLifecycle::Removed => "REMOVED"@,
            ObserverLifecycle::Unknown => "UNKNOWN"@,
        }
    }

    /// The word that a tile shows.
    pub fn label(self) -> (word: &'static str)
        ensures
            word@ == self.word(),
    {
        match self {
            ObserverLifecycle::Starting => "STARTING",
            ObserverLifecycle::Running => "RUNNING",
            ObserverLifecycle::Stopping => "STOPPING",
            ObserverLifecycle::Ended => "ENDED",
            ObserverLifecycle::Failed { .. } => "FAILED",
            ObserverLifecycle::Missing => "MISSING",
            ObserverLifecycle::Removed => "REMOVED",
            ObserverLifecycle::Unknown => "UNKNOWN",
        }
    }
}

/// The state of the agent in a worker's pane.
#[derive(Clone, Copy, Debug, Default, PartialEq, Eq, Structural)]
pub enum ObserverAgentState {
    Detached,
    Idle,
    Working,
    Blocked,
    Done,
    #[default]
    Unknown,
    Unreachable,
    Stale,
}

impl ObserverAgentState {
    /// The word that a tile shows.
    pub open spec fn word(self) -> Seq<char> {
        match self {
            ObserverAgentState::Detached => "DETACHED"@,
            ObserverAgentState::Idle => "IDLE"@,
            ObserverAgentState::Working => "WORKING"@,
            ObserverAgentState::Blocked => "BLOCKED"@,
            ObserverAgentState::Done => "DONE"@,
            ObserverAgentState::Unknown => "UNKNOWN"@,
            ObserverAgentState::Unreachable => "UNREACHABLE"@,
            ObserverAgentState::Stale => "STALE"@,
        }
    }

    /// The word that a tile shows.
    pub fn label(self) -> (word: &'static str)
        ensures
            word@ == self.word(),
    {
        match self {
            ObserverAgentState::Detached => "DETACHED",
            ObserverAgentState::Idle => "IDLE",
            ObserverAgentState::Working => "WORKING",
            ObserverAgentState::Blocked => "BLOCKED",
            ObserverAgentState::Done => "DONE",
            ObserverAgentState::Unknown => "UNKNOWN",
            ObserverAgentState::Unreachable => "UNREACHABLE",
            ObserverAgentState::Stale => "STALE",
        }
    }

    /// An agent that waits for input.
    pub open spec fn settled(self) -> bool {
        self == ObserverAgentState::Idle || self == ObserverAgentState::Done
    }

    /// Whether an agent in this state may be sent a prompt.
    pub fn permits_prompt(self) -> (r: bool)
        ensures
            r == self.settled(),
    {
        matches!(self, ObserverAgentState::Idle | ObserverAgentState::Done)
    }

    /// An agent that does not answer, or whose answer is out of date.
    pub open spec fn out_of_reach(self) -> bool {
        self == ObserverAgentState::Unreachable || self == ObserverAgentState::Stale
    }
}

/// One capture result for a worker.
#[derive(Debug, PartialEq, Eq)]
pub enum ObserverCapture {
    Loading,
    Ready(String),
    /// Output Herdr reported as incomplete because older rows were dropped.
    Truncated(String),
    /// A bounded sample of recent output, taken to show what a workload is
    /// doing at a glance.
    Preview {
        text: String,
        /// Whether Herdr reported it dropped older rows from the sample.
        truncated: bool,
    },
    Unavailable,
}

/// What is known of the capture that a tile shows.
#[derive(Clone, Copy, Debug, PartialEq, Eq, Structural)]
pub enum CaptureStatus {
    Loading,
    Ready,
    Truncated,
    Unavailable,
    Stale,
}

/// A worker that just entered a state a person may want to know about.
#[derive(Debug, PartialEq, Eq)]
pub struct WorkerAttention {
    pub worker_id: String,
    /// How the workload is named outside Tether's own surfaces: a reference to
    /// the work instead of a description of it.
    pub reference: String,
    pub reason: AttentionReason,
}

/// Why a worker wants attention.
#[derive(Clone, Copy, Debug, PartialEq, Eq, Structural)]
pub enum AttentionReason {
    /// A live agent entered a state that waits on a person.
    Agent(ObserverAgentState),
    /// The workload's command ended with a failing status.
    Failed { exit_status: i32 },
}

/// The contents of a [`WorkerAttention`].
pub struct AttentionView {
    pub worker_id: Seq<char>,
    pub reference: Seq<char>,
    pub reason: AttentionReason,
}

impl View for WorkerAttention {
    type V = AttentionView;

    open spec fn view(&self) -> AttentionView {
        AttentionView {
            worker_id: self.worker_id@,
            reference: self.reference@,
            reason: self.reason,
        }
    }
}

/// A reference that identifies the work without describing it: the tail of a
/// long identifier, or the whole of a short one.
pub open spec fn reference_text(worker_id: Seq<char>) -> Seq<char> {
    if worker_id.len() > 8 {
        seq!['…'] + worker_id.skip(worker_id.len() - 8)
    } else {
        worker_id
    }
}

/// A workload reference that identifies the work without describing it.
pub fn workload_reference(worker_id: &str) -> (reference: String)
    ensures
        reference@ == reference_text(worker_id@),
{
    let chars = chars_of(worker_id);
    if chars.len() > 8 {
        let mut reference = String::new();
        reference.push('…');
        let tail = text_between(&chars, chars.len() - 8, chars.len());
        reference.append(tail.as_str());
        assert(reference@ =~= seq!['…'] + worker_id@.skip(worker_id@.len() - 8));
        reference
    } else {
        worker_id.to_owned()
    }
}

/// Why a worker's information is no longer current.
///
/// Each one has its own remedy: a lost connection comes back on its own, and a
/// binding that is no longer exact does not.
#[derive(Clone, Copy, Debug, PartialEq, Eq, Structural)]
pub enum StaleReason {
    /// The pane that answered belongs to an earlier membership of this worker.
    EarlierMembership,
    /// More than one Herdr pane claims this worker's membership.
    AmbiguousClaim,
    /// Something other than the agent Tether bound is in the worker's pane.
    ReplacedOccupant,
    /// Mission Control lost the connection that was reporting this worker.
    Connection,
    /// The observed output could not be re-read, so what is shown is retained.
    Retained,
}

/// One worker of a group, as the observer shows it.
#[derive(Debug, PartialEq, Eq)]
pub struct ObserverWorker {
    pub id: String,
    pub title: Option<String>,
    pub capabilities: ObserverCapabilities,
    pub lifecycle: ObserverLifecycle,
    pub agent_state: ObserverAgentState,
    pub live_agent: bool,
    pub owned: bool,
    pub last_observed: Option<String>,
    pub latency_ms: Option<u64>,
    /// The exact `tmux` incarnation this worker's state describes. A restart
    /// produces a new one, which is what tells a repeated failure apart from
    /// the same failure seen again.
    pub incarnation: Option<TmuxSessionId>,
    /// Untrusted capture content. Rendering sanitizes and bounds it before display.
    pub capture: Option<String>,
    /// Whether the capture is a bounded sample rather than everything Herdr has.
    pub sampled: bool,
    /// Why this worker is `STALE`, when it is.
    pub stale_reason: Option<StaleReason>,
}

/// The contents of an [`ObserverWorker`].
pub struct WorkerView {
    pub id: Seq<char>,
    pub title: Option<Seq<char>>,
    pub capabilities: ObserverCapabilities,
    pub lifecycle: ObserverLifecycle,
    pub agent_state: ObserverAgentState,
    pub live_agent: bool,
    pub owned: bool,
    pub last_observed: Option<Seq<char>>,
    pub latency_ms: Option<u64>,
    pub incarnation: Option<TmuxSessionId>,
    pub capture: Option<Seq<char>>,
    pub sampled: bool,
    pub stale_reason: Option<StaleReason>,
}

impl View for ObserverWorker {
    type V = WorkerView;

    open spec fn view(&self) -> WorkerView {
        WorkerView {
            id: self.id@,
            title: opt_view(self.title),
            capabilities: self.capabilities,
            lifecycle: self.lifecycle,
            agent_state: self.agent_state,
            live_agent: self.live_agent,
            owned: self.owned,
            last_observed: opt_view(self.last_observed),
            latency_ms: self.latency_ms,
            incarnation: self.incarnation,
            capture: opt_view(self.capture),
            sampled: self.sampled,
            stale_reason: self.stale_reason,
        }
    }
}

impl Clone for ObserverWorker {
    fn clone(&self) -> (copy: Self)
        ensures
            copy == *self,
    {
        ObserverWorker {
            id: self.id.clone(),
            title: copy_opt(&self.title),
            capabilities: self.capabilities,
            lifecycle: self.lifecycle,
            agent_state: self.agent_state,
            live_agent: self.live_agent,
            owned: self.owned,
            last_observed: copy_opt(&self.last_observed),
            latency_ms: self.latency_ms,
            incarnation: self.incarnation,
            capture: copy_opt(&self.capture),
            sampled: self.sampled,
            stale_reason: self.stale_reason,
        }
    }
}

impl WorkerView {
    /// A running workload that Tether owns.
    pub open spec fn running_owned(self) -> bool {
        self.owned && self.lifecycle == ObserverLifecycle::Running
    }

    /// A worker whose pane may be opened.
    pub open spec fn openable(self) -> bool {
        self.running_owned() && !self.agent_state.out_of_reach() && self.capabilities.open_interactive
    }

    /// A worker whose live agent may be focused.
    pub open spec fn focusable(self) -> bool {
        self.openable() && self.live_agent
    }

    /// A worker whose live agent may be read.
    pub open spec fn observable(self) -> bool {
        self.running_owned() && self.live_agent && !self.agent_state.out_of_reach()
            && self.capabilities.observe_output
    }

    /// A worker whose live agent may be sent a prompt.
    pub open spec fn promptable(self) -> bool {
        self.running_owned() && self.live_agent && self.agent_state.settled()
            && self.capabilities.prompt_agent
    }

    /// The word for the worker's state.
    pub open spec fn status_word(self) -> Seq<char> {
        if self.live_agent && self.lifecycle == ObserverLifecycle::Running {
            self.agent_state.word()
        } else {
            self.lifecycle.word()
        }
    }

    /// The title that a person gave the worker, made safe.
    pub open spec fn human_title(self) -> Option<Seq<char>> {
        match self.title {
            Some(title) => if title.len() > 0 {
                Some(shown_label(title, 160))
            } else {
                None
            },
            None => None,
        }
    }

    /// The title of the worker: the given one, or a short reference.
    pub open spec fn own_title(self) -> Seq<char> {
        match self.human_title() {
            Some(title) => title,
            None => if denotes_session_id(self.id) {
                reference_token_text(
                    denoted_uuid(self.id),
                    SessionId::SHORT_REFERENCE_WIDTH as int,
                )
            } else {
                shown_label(self.id, 160)
            },
        }
    }
}

impl ObserverWorker {
    /// Whether the worker's pane may be opened.
    pub fn can_open(&self) -> (r: bool)
        ensures
            r == self@.openable(),
    {
        self.owned && self.lifecycle == ObserverLifecycle::Running && !matches!(
            self.agent_state,
            ObserverAgentState::Unreachable | ObserverAgentState::Stale
        ) && self.capabilities.open_interactive
    }

    /// Whether the worker's live agent may be focused.
    pub fn can_focus(&self) -> (r: bool)
        ensures
            r == self@.focusable(),
    {
        self.can_open() && self.live_agent
    }

    /// Whether the worker's live agent may be read.
    pub fn can_observe_agent(&self) -> (r: bool)
        ensures
            r == self@.observable(),
    {
        self.owned && self.lifecycle == ObserverLifecycle::Running && self.live_agent && !matches!(
            self.agent_state,
            ObserverAgentState::Unreachable | ObserverAgentState::Stale
        ) && self.capabilities.observe_output
    }

    /// Whether the worker's live agent may be sent a prompt.
    pub fn can_prompt(&self) -> (r: bool)
        ensures
            r == self@.promptable(),
    {
        self.owned && self.lifecycle == ObserverLifecycle::Running && self.live_agent
            && self.agent_state.permits_prompt() && self.capabilities.prompt_agent
    }

    /// Whether a live agent is bound to the worker.
    pub fn uses_live_agent(&self) -> (r: bool)
        ensures
            r == self.live_agent,
    {
        self.live_agent
    }

    /// The word for the worker's state.
    pub fn status_label(&self) -> (word: &'static str)
        ensures
            word@ == self@.status_word(),
    {
        if !self.live_agent || !matches!(self.lifecycle, ObserverLifecycle::Running) {
            self.lifecycle.label()
        } else {
            self.agent_state.label()
        }
    }

    /// The title that a person gave the worker, made safe.
    pub fn human_display_title(&self) -> (title: Option<String>)
        ensures
            opt_view(title) == self@.human_title(),
    {
        match &self.title {
            Some(title) => {
                if title.as_str().is_empty() {
                    None
                } else {
                    Some(sanitize_label(title.as_str(), 160))
                }
            },
            None => None,
        }
    }

    /// The title of the worker on its own, without regard to other workers.
    pub fn display_title(&self) -> (title: String)
        ensures
            title@ == self@.own_title(),
    {
        match self.human_display_title() {
            Some(title) => title,
            None => match SessionId::from_str(self.id.as_str()) {
                Ok(id) => id.reference_token(SessionId::SHORT_REFERENCE_WIDTH),
                Err(_) => sanitize_label(self.id.as_str(), 160),
            },
        }
    }
}

/// What a person can ask of the observer. No action carries text or terminal
/// bytes.
#[derive(Clone, Copy, Debug, PartialEq, Eq, Structural)]
pub enum ObserverAction {
    PreviousWorker,
    NextWorker,
    PreviousPage,
    NextPage,
    Refresh,
    OpenSelected,
    TogglePromptTarget,
    ComposePrompt,
    FocusSelected,
    WaitSelected,
    ReadSelected,
    ExplainSelected,
    Quit,
}

impl ObserverAction {
    /// An action that moves the selection and nothing else.
    pub open spec fn navigates(self) -> bool {
        ||| self == ObserverAction::PreviousWorker
        ||| self == ObserverAction::NextWorker
        ||| self == ObserverAction::PreviousPage
        ||| self == ObserverAction::NextPage
    }
}

/// What an action asks of the application.
#[derive(Debug, PartialEq, Eq)]
pub enum ObserverOutcome {
    Nothing,
    Refresh,
    OpenSelected { worker_id: String },
    OpenUnavailable { worker_id: String },
    ComposePrompt { worker_ids: Vec<String> },
    FocusSelected { worker_id: String },
    WaitSelected { worker_id: String },
    ReadSelected { worker_id: String },
    ExplainSelected { worker_id: String },
    Quit,
}

/// The contents of an [`ObserverOutcome`].
pub enum OutcomeView {
    Nothing,
    Refresh,
    OpenSelected(Seq<char>),
    OpenUnavailable(Seq<char>),
    ComposePrompt(Seq<Seq<char>>),
    FocusSelected(Seq<char>),
    WaitSelected(Seq<char>),
    ReadSelected(Seq<char>),
    ExplainSelected(Seq<char>),
    Quit,
}

impl View for ObserverOutcome {
    type V = OutcomeView;

    open spec fn view(&self) -> OutcomeView {
        match self {
            ObserverOutcome::Nothing => OutcomeView::Nothing,
            ObserverOutcome::Refresh => OutcomeView::Refresh,
            ObserverOutcome::OpenSelected { worker_id } => OutcomeView::OpenSelected(worker_id@),
            ObserverOutcome::OpenUnavailable { worker_id } => OutcomeView::OpenUnavailable(worker_id@),
            ObserverOutcome::ComposePrompt { worker_ids } => OutcomeView::ComposePrompt(
                views(worker_ids@),
            ),
            ObserverOutcome::FocusSelected { worker_id } => OutcomeView::FocusSelected(worker_id@),
            ObserverOutcome::WaitSelected { worker_id } => OutcomeView::WaitSelected(worker_id@),
            ObserverOutcome::ReadSelected { worker_id } => OutcomeView::ReadSelected(worker_id@),
            ObserverOutcome::ExplainSelected { worker_id } => OutcomeView::ExplainSelected(worker_id@),
            ObserverOutcome::Quit => OutcomeView::Quit,
        }
    }
}

/// Backend-independent keys accepted by the observer.
#[derive(Clone, Copy, Debug, PartialEq, Eq, Structural)]
pub enum ObserverKey {
    Up,
    Down,
    Left,
    Right,
    PageUp,
    PageDown,
    Tab,
    BackTab,
    ControlC,
    Enter,
    Escape,
    Char(char),
}

/// Whether a key was pressed or is being held.
#[derive(Clone, Copy, Debug, PartialEq, Eq, Structural)]
pub enum ObserverInputKind {
    Press,
    Repeat,
}

/// The action that a key stands for.
pub open spec fn key_action(key: ObserverKey) -> Option<ObserverAction> {
    match key {
        ObserverKey::Up | ObserverKey::Left => Some(ObserverAction::PreviousWorker),
        ObserverKey::Down | ObserverKey::Right => Some(ObserverAction::NextWorker),
        ObserverKey::PageUp | ObserverKey::BackTab => Some(ObserverAction::PreviousPage),
        ObserverKey::PageDown | ObserverKey::Tab => Some(ObserverAction::NextPage),
        ObserverKey::Enter => Some(ObserverAction::OpenSelected),
        ObserverKey::Escape | ObserverKey::ControlC => Some(ObserverAction::Quit),
        ObserverKey::Char(c) => if c == 'k' || c == 'h' {
            Some(ObserverAction::PreviousWorker)
        } else if c == 'j' || c == 'l' {
            Some(ObserverAction::NextWorker)
        } else if c == '[' {
            Some(ObserverAction::PreviousPage)
        } else if c == ']' {
            Some(ObserverAction::NextPage)
        } else if c == ' ' {
            Some(ObserverAction::TogglePromptTarget)
        } else if c == 'p' || c == 'P' {
            Some(ObserverAction::ComposePrompt)
        } else if c == 'f' || c == 'F' {
            Some(ObserverAction::FocusSelected)
        } else if c == 'w' || c == 'W' {
            Some(ObserverAction::WaitSelected)
        } else if c == 'v' || c == 'V' {
            Some(ObserverAction::ReadSelected)
        } else if c == 'e' || c == 'E' {
            Some(ObserverAction::ExplainSelected)
        } else if c == 'r' || c == 'R' {
            Some(ObserverAction::Refresh)
        } else if c == 'q' || c == 'Q' {
            Some(ObserverAction::Quit)
        } else {
            None
        },
    }
}

/// Maps a navigation key to a read-only observer action.
pub fn action_for_key(key: ObserverKey) -> (action: Option<ObserverAction>)
    ensures
        action == key_action(key),
{
    match key {
        ObserverKey::Up | ObserverKey::Left | ObserverKey::Char('k' | 'h') => Some(
            ObserverAction::PreviousWorker,
        ),
        ObserverKey::Down | ObserverKey::Right | ObserverKey::Char('j' | 'l') => Some(
            ObserverAction::NextWorker,
        ),
        ObserverKey::PageUp | ObserverKey::BackTab | ObserverKey::Char('[') => Some(
            ObserverAction::PreviousPage,
        ),
        ObserverKey::PageDown | ObserverKey::Tab | ObserverKey::Char(']') => Some(
            ObserverAction::NextPage,
        ),
        ObserverKey::Enter => Some(ObserverAction::OpenSelected),
        ObserverKey::Char(' ') => Some(ObserverAction::TogglePromptTarget),
        ObserverKey::Char('p' | 'P') => Some(ObserverAction::ComposePrompt),
        ObserverKey::Char('f' | 'F') => Some(ObserverAction::FocusSelected),
        ObserverKey::Char('w' | 'W') => Some(ObserverAction::WaitSelected),
        ObserverKey::Char('v' | 'V') => Some(ObserverAction::ReadSelected),
        ObserverKey::Char('e' | 'E') => Some(ObserverAction::ExplainSelected),
        ObserverKey::Char('r' | 'R') => Some(ObserverAction::Refresh),
        ObserverKey::Escape | ObserverKey::ControlC | ObserverKey::Char('q' | 'Q') => Some(
            ObserverAction::Quit,
        ),
        ObserverKey::Char(_) => None,
    }
}

/// An action that an input event may trigger: navigation always, leaving on a
/// press, and everything else on a press while nothing is in flight.
pub open spec fn admitted(action: ObserverAction, kind: ObserverInputKind, busy: bool) -> bool {
    ||| action.navigates()
    ||| kind == ObserverInputKind::Press && (action == ObserverAction::Quit || !busy)
}

/// The action, if the input event may trigger it.
fn gate_action_for_input(action: ObserverAction, kind: ObserverInputKind, busy: bool) -> (r: Option<
    ObserverAction,
>)
    ensures
        r == if admitted(action, kind, busy) {
            Some(action)
        } else {
            None
        },
{
    match action {
        ObserverAction::PreviousWorker
        | ObserverAction::NextWorker
        | ObserverAction::PreviousPage
        | ObserverAction::NextPage => Some(action),
        ObserverAction::Quit => {
            if kind == ObserverInputKind::Press {
                Some(action)
            } else {
                None
            }
        },
        _ => {
            if kind == ObserverInputKind::Press && !busy {
                Some(action)
            } else {
                None
            }
        },
    }
}

/// The action that an input event triggers, whatever the view holds.
pub open spec fn input_action(key: ObserverKey, kind: ObserverInputKind, busy: bool) -> Option<
    ObserverAction,
> {
    match key_action(key) {
        Some(action) => if admitted(action, kind, busy) {
            Some(action)
        } else {
            None
        },
        None => None,
    }
}

/// Applies event-kind and in-flight-operation gating to observer keys.
///
/// Navigation is repeat-safe and remains available while an operation is busy.
/// Open and refresh are single-shot and idle-only. Quit remains available while
/// busy, but repeat events never duplicate it.
pub fn action_for_input(key: ObserverKey, kind: ObserverInputKind, busy: bool) -> (action: Option<
    ObserverAction,
>)
    ensures
        action == input_action(key, kind, busy),
{
    match action_for_key(key) {
        Some(action) => gate_action_for_input(action, kind, busy),
        None => None,
    }
}

/// The observer: its workers, what is known of their captures, the selection,
/// the destinations of a prompt, and a notice.
#[derive(Debug, PartialEq, Eq)]
pub struct ObserverState {
    workers: Vec<ObserverWorker>,
    capture_statuses: Vec<CaptureStatus>,
    selected_id: Option<String>,
    prompt_targets: Vec<String>,
    notice: Option<String>,
}

/// The contents of an [`ObserverState`].
#[verifier::ext_equal]
pub struct ObserverView {
    pub workers: Seq<WorkerView>,
    /// One status for each worker, in the order of the workers.
    pub statuses: Seq<CaptureStatus>,
    pub selected: Option<Seq<char>>,
    pub targets: Set<Seq<char>>,
    pub notice: Option<Seq<char>>,
}

/// The contents of each worker.
pub open spec fn worker_views(workers: Seq<ObserverWorker>) -> Seq<WorkerView> {
    workers.map_values(|worker: ObserverWorker| worker@)
}

/// The first worker with the given identifier.
pub open spec fn find_worker(workers: Seq<WorkerView>, id: Seq<char>) -> Option<int>
    decreases workers.len(),
{
    if workers.len() == 0 {
        None
    } else {
        match find_worker(workers.drop_last(), id) {
            Some(index) => Some(index),
            None => if workers.last().id == id {
                Some(workers.len() - 1)
            } else {
                None
            },
        }
    }
}

/// The first match is a match, and no match means that there is none.
pub proof fn find_worker_finds(workers: Seq<WorkerView>, id: Seq<char>)
    ensures
        match find_worker(workers, id) {
            Some(index) => 0 <= index < workers.len() && workers[index].id == id && forall|i: int|
                0 <= i < index ==> (#[trigger] workers[i]).id != id,
            None => forall|i: int| 0 <= i < workers.len() ==> (#[trigger] workers[i]).id != id,
        },
    decreases workers.len(),
{
    if workers.len() > 0 {
        find_worker_finds(workers.drop_last(), id);
        match find_worker(workers.drop_last(), id) {
            Some(index) => {
                assert(workers.drop_last()[index] == workers[index]);
                assert forall|i: int| 0 <= i < index implies (#[trigger] workers[i]).id != id by {
                    assert(workers.drop_last()[i] == workers[i]);
                }
            },
            None => {
                assert forall|i: int| 0 <= i < workers.len() - 1 implies (
                #[trigger] workers[i]).id != id by {
                    assert(workers.drop_last()[i] == workers[i]);
                }
            },
        }
    }
}

/// Workers with identifiers that all differ.
pub open spec fn distinct_ids(workers: Seq<WorkerView>) -> bool {
    forall|i: int, j: int|
        0 <= i < j < workers.len() ==> (#[trigger] workers[i]).id != (#[trigger] workers[j]).id
}

impl ObserverView {
    /// What holds of every observer: the identifiers differ, there is a status
    /// for each worker, a worker is selected exactly if there is one, and every
    /// prompt destination is a worker.
    pub open spec fn well_formed(self) -> bool {
        &&& self.workers.len() <= MAX_WORKERS
        &&& self.statuses.len() == self.workers.len()
        &&& distinct_ids(self.workers)
        &&& match self.selected {
            Some(id) => find_worker(self.workers, id) is Some,
            None => self.workers.len() == 0,
        }
        &&& self.targets.finite()
        &&& self.targets.len() <= MAX_PROMPT_TARGETS
        &&& forall|id: Seq<char>| #[trigger]
            self.targets.contains(id) ==> find_worker(self.workers, id) is Some
    }

    /// The position of the selected worker.
    pub open spec fn selected_position(self) -> Option<int> {
        match self.selected {
            Some(id) => find_worker(self.workers, id),
            None => None,
        }
    }

    /// The position of the selected worker, or the first.
    pub open spec fn position(self) -> int {
        match self.selected_position() {
            Some(index) => index,
            None => 0,
        }
    }

    /// The page that holds the selected worker.
    pub open spec fn page_number(self) -> int {
        self.position() / WORKERS_PER_PAGE as int
    }

    /// The number of pages; there is always one.
    pub open spec fn pages(self) -> int {
        if self.workers.len() == 0 {
            1
        } else {
            (self.workers.len() + WORKERS_PER_PAGE - 1) / WORKERS_PER_PAGE as int
        }
    }

    /// The workers of the current page.
    pub open spec fn visible(self) -> Seq<WorkerView> {
        let start = self.page_number() * WORKERS_PER_PAGE;
        let end = if start + WORKERS_PER_PAGE <= self.workers.len() {
            start + WORKERS_PER_PAGE
        } else {
            self.workers.len() as int
        };
        self.workers.subrange(start, end)
    }

    /// The identifiers of the prompt destinations, in the order of the workers.
    pub open spec fn target_ids(self) -> Seq<Seq<char>> {
        chosen_ids(self.workers, self.targets)
    }

    /// The observer with the worker at `index` selected.
    pub open spec fn select(self, index: int) -> ObserverView {
        ObserverView { selected: Some(self.workers[index].id), ..self }
    }

    /// The observer with a notice.
    pub open spec fn notify(self, text: Seq<char>) -> ObserverView {
        ObserverView { notice: Some(text), ..self }
    }
}

/// The identifiers of those workers that are among `targets`.
pub open spec fn chosen_ids(workers: Seq<WorkerView>, targets: Set<Seq<char>>) -> Seq<Seq<char>>
    decreases workers.len(),
{
    if workers.len() == 0 {
        Seq::empty()
    } else {
        let front = chosen_ids(workers.drop_last(), targets);
        if targets.contains(workers.last().id) {
            front.push(workers.last().id)
        } else {
            front
        }
    }
}

impl View for ObserverState {
    type V = ObserverView;

    closed spec fn view(&self) -> ObserverView {
        ObserverView {
            workers: worker_views(self.workers@),
            statuses: self.capture_statuses@,
            selected: opt_view(self.selected_id),
            targets: views(self.prompt_targets@).to_set(),
            notice: opt_view(self.notice),
        }
    }
}

impl ObserverState {
    /// The observer is well formed, and no prompt destination is listed twice.
    pub closed spec fn well_formed(self) -> bool {
        self@.well_formed() && views(self.prompt_targets@).no_duplicates()
    }
}

impl ObserverView {
    /// The worker with the given identifier.
    pub open spec fn worker_with(self, id: Seq<char>) -> Option<WorkerView> {
        match find_worker(self.workers, id) {
            Some(index) => Some(self.workers[index]),
            None => None,
        }
    }

    /// The status of the worker with the given identifier; one that is not
    /// known yet is loading.
    pub open spec fn status_of(self, id: Seq<char>) -> CaptureStatus {
        match find_worker(self.workers, id) {
            Some(index) => self.statuses[index],
            None => CaptureStatus::Loading,
        }
    }

    /// A supplied worker as the observer takes it over.
    ///
    /// A supplied capture, even an empty one, completes loading. Without one,
    /// what is known of the worker is retained, and a worker that can no longer
    /// be reached is marked stale with the reason.
    pub open spec fn refreshed(self, worker: WorkerView) -> (WorkerView, CaptureStatus) {
        match worker.capture {
            Some(capture) => (
                WorkerView { capture: Some(shown_capture(capture)), ..worker },
                CaptureStatus::Ready,
            ),
            None => self.retained(worker),
        }
    }

    /// A worker supplied without a capture, completed by what is known of it.
    pub open spec fn retained(self, worker: WorkerView) -> (WorkerView, CaptureStatus) {
        let status = self.status_of(worker.id);
        let known = self.worker_with(worker.id);
        let keeps = known is Some && (status == CaptureStatus::Ready || status
            == CaptureStatus::Truncated || status == CaptureStatus::Stale);
        let capture = if keeps {
            known->0.capture
        } else {
            None
        };
        let lost = known is Some && known->0.live_agent && worker.agent_state
            == ObserverAgentState::Unreachable;
        let stale = lost || (capture is Some && worker.agent_state.out_of_reach());
        let answers = worker.agent_state == ObserverAgentState::Idle || worker.agent_state
            == ObserverAgentState::Working || worker.agent_state == ObserverAgentState::Blocked
            || worker.agent_state == ObserverAgentState::Done;
        (
            WorkerView {
                capture,
                sampled: if keeps {
                    known->0.sampled
                } else {
                    worker.sampled
                },
                last_observed: if worker.last_observed is None && known is Some {
                    known->0.last_observed
                } else {
                    worker.last_observed
                },
                latency_ms: if worker.latency_ms is None && known is Some {
                    known->0.latency_ms
                } else {
                    worker.latency_ms
                },
                live_agent: worker.live_agent || lost,
                agent_state: if stale {
                    ObserverAgentState::Stale
                } else {
                    worker.agent_state
                },
                stale_reason: if stale && worker.agent_state == ObserverAgentState::Unreachable {
                    Some(
                        if lost {
                            StaleReason::Connection
                        } else {
                            StaleReason::Retained
                        },
                    )
                } else {
                    worker.stale_reason
                },
                ..worker
            },
            if stale {
                CaptureStatus::Stale
            } else if answers && status == CaptureStatus::Stale {
                if capture is Some {
                    CaptureStatus::Ready
                } else {
                    CaptureStatus::Loading
                }
            } else {
                status
            },
        )
    }

    /// The supplied workers as the observer takes them over.
    pub open spec fn taken_over(self, incoming: Seq<WorkerView>) -> Seq<WorkerView> {
        first_workers(incoming).map_values(|worker: WorkerView| self.refreshed(worker).0)
    }

    /// The observer after its workers were replaced.
    pub open spec fn updated(self, incoming: Seq<WorkerView>) -> ObserverView {
        let workers = self.taken_over(incoming);
        ObserverView {
            workers,
            statuses: first_workers(incoming).map_values(
                |worker: WorkerView| self.refreshed(worker).1,
            ),
            selected: if workers.len() == 0 {
                None
            } else if self.selected is Some && find_worker(workers, self.selected->0) is Some {
                self.selected
            } else if self.position() < workers.len() {
                Some(workers[self.position()].id)
            } else {
                Some(workers.last().id)
            },
            targets: self.targets.filter(|id: Seq<char>| prompt_ready(workers, id)),
            notice: self.notice,
        }
    }

    /// A live agent that was not known to wait on a person and now does.
    pub open spec fn newly_waiting(self, worker: WorkerView) -> bool {
        &&& worker.live_agent
        &&& worker.agent_state == ObserverAgentState::Blocked || worker.agent_state
            == ObserverAgentState::Done
        &&& match self.worker_with(worker.id) {
            Some(known) => known.agent_state != worker.agent_state,
            None => true,
        }
    }

    /// A known workload that has failed since: in this incarnation, or for the
    /// first time.
    pub open spec fn newly_failed(self, worker: WorkerView) -> bool {
        &&& worker.lifecycle is Failed
        &&& match self.worker_with(worker.id) {
            Some(known) => !(known.lifecycle is Failed) || known.incarnation != worker.incarnation,
            None => false,
        }
    }

    /// The agents among `workers` that newly wait on a person.
    pub open spec fn waiting_news(self, workers: Seq<WorkerView>) -> Seq<AttentionView>
        decreases workers.len(),
    {
        if workers.len() == 0 {
            Seq::empty()
        } else {
            let front = self.waiting_news(workers.drop_last());
            if self.newly_waiting(workers.last()) {
                front.push(
                    AttentionView {
                        worker_id: workers.last().id,
                        reference: reference_text(workers.last().id),
                        reason: AttentionReason::Agent(workers.last().agent_state),
                    },
                )
            } else {
                front
            }
        }
    }

    /// The workloads among `workers` that newly failed.
    pub open spec fn failure_news(self, workers: Seq<WorkerView>) -> Seq<AttentionView>
        decreases workers.len(),
    {
        if workers.len() == 0 {
            Seq::empty()
        } else {
            let front = self.failure_news(workers.drop_last());
            if self.newly_failed(workers.last()) {
                front.push(
                    AttentionView {
                        worker_id: workers.last().id,
                        reference: reference_text(workers.last().id),
                        reason: AttentionReason::Failed {
                            exit_status: workers.last().lifecycle->exit_status,
                        },
                    },
                )
            } else {
                front
            }
        }
    }
}

/// The workers that an observer takes: the first of each identifier, and no
/// more than fit.
pub open spec fn first_workers(incoming: Seq<WorkerView>) -> Seq<WorkerView>
    decreases incoming.len(),
{
    if incoming.len() == 0 {
        Seq::empty()
    } else {
        let front = first_workers(incoming.drop_last());
        if front.len() < MAX_WORKERS && find_worker(front, incoming.last().id) is None {
            front.push(incoming.last())
        } else {
            front
        }
    }
}

/// A worker with the given identifier that may be sent a prompt.
pub open spec fn prompt_ready(workers: Seq<WorkerView>, id: Seq<char>) -> bool {
    match find_worker(workers, id) {
        Some(index) => workers[index].promptable(),
        None => false,
    }
}

/// The contents of each notification.
pub open spec fn attention_views(news: Seq<WorkerAttention>) -> Seq<AttentionView> {
    news.map_values(|item: WorkerAttention| item@)
}

/// Where identifiers agree, the same position is found.
proof fn lemma_find_by_ids(a: Seq<WorkerView>, b: Seq<WorkerView>, id: Seq<char>)
    requires
        a.len() == b.len(),
        forall|i: int| 0 <= i < a.len() ==> (#[trigger] a[i]).id == b[i].id,
    ensures
        find_worker(a, id) == find_worker(b, id),
    decreases a.len(),
{
    if a.len() > 0 {
        assert forall|i: int| 0 <= i < a.len() - 1 implies (#[trigger] a.drop_last()[i]).id
            == b.drop_last()[i].id by {
            assert(a[i].id == b[i].id);
        }
        lemma_find_by_ids(a.drop_last(), b.drop_last(), id);
        assert(a[a.len() - 1].id == b[b.len() - 1].id);
    }
}

/// The workers that are taken differ in their identifiers and fit.
proof fn lemma_first_workers_distinct(incoming: Seq<WorkerView>)
    ensures
        distinct_ids(first_workers(incoming)),
        first_workers(incoming).len() <= MAX_WORKERS,
    decreases incoming.len(),
{
    if incoming.len() > 0 {
        lemma_first_workers_distinct(incoming.drop_last());
        find_worker_finds(first_workers(incoming.drop_last()), incoming.last().id);
    }
}

/// Taking workers over keeps their identifiers.
proof fn lemma_taken_over_ids(known: ObserverView, incoming: Seq<WorkerView>)
    ensures
        distinct_ids(known.taken_over(incoming)),
        forall|id: Seq<char>| #[trigger]
            find_worker(known.taken_over(incoming), id) == find_worker(first_workers(incoming), id),
{
    lemma_first_workers_distinct(incoming);
    let kept = first_workers(incoming);
    let taken = known.taken_over(incoming);
    assert forall|i: int| 0 <= i < taken.len() implies (#[trigger] taken[i]).id == kept[i].id by {}
    assert forall|id: Seq<char>| #[trigger]
        find_worker(taken, id) == find_worker(kept, id) by {
        lemma_find_by_ids(taken, kept, id);
    }
    assert forall|i: int, j: int| 0 <= i < j < taken.len() implies (#[trigger] taken[i]).id != (
    #[trigger] taken[j]).id by {
        assert(kept[i].id != kept[j].id);
    }
}

/// A worker of its own list is found where it stands.
proof fn lemma_find_own(workers: Seq<WorkerView>, index: int)
    requires
        distinct_ids(workers),
        0 <= index < workers.len(),
    ensures
        find_worker(workers, workers[index].id) == Some(index),
{
    find_worker_finds(workers, workers[index].id);
    match find_worker(workers, workers[index].id) {
        Some(found) => {
            if found < index {
                assert(workers[found].id != workers[index].id);
            }
        },
        None => {
            assert(workers[index].id != workers[index].id);
        },
    }
}

/// A filtered set is no larger.
proof fn lemma_filter_keeps_bound(targets: Set<Seq<char>>, workers: Seq<WorkerView>)
    requires
        targets.finite(),
    ensures
        targets.filter(|id: Seq<char>| prompt_ready(workers, id)).finite(),
        targets.filter(|id: Seq<char>| prompt_ready(workers, id)).len() <= targets.len(),
{
    let kept = targets.filter(|id: Seq<char>| prompt_ready(workers, id));
    assert(kept.subset_of(targets));
    vstd::set_lib::lemma_len_subset(kept, targets);
}

/// Replacing the workers of a well-formed observer leaves it well formed.
pub proof fn updating_keeps_form(known: ObserverView, incoming: Seq<WorkerView>)
    requires
        known.well_formed(),
    ensures
        known.updated(incoming).well_formed(),
{
    let next = known.updated(incoming);
    lemma_first_workers_distinct(incoming);
    lemma_taken_over_ids(known, incoming);
    lemma_filter_keeps_bound(known.targets, next.workers);
    if next.workers.len() > 0 {
        if known.selected is Some {
            find_worker_finds(known.workers, known.selected->0);
        }
        lemma_find_own(next.workers, next.workers.len() - 1);
        if known.position() < next.workers.len() {
            lemma_find_own(next.workers, known.position());
        }
    }
}

/// A refresh that brings the same workers again reports nothing.
pub proof fn repeated_update_is_no_news(known: ObserverView, incoming: Seq<WorkerView>)
    ensures
        ({
            let once = known.updated(incoming);
            let twice = once.updated(incoming);
            once.waiting_news(twice.workers) + once.failure_news(twice.workers) == Seq::<
                AttentionView,
            >::empty()
        }),
{
    let once = known.updated(incoming);
    let twice = once.updated(incoming);
    lemma_taken_over_ids(known, incoming);
    lemma_taken_over_ids(once, incoming);
    let kept = first_workers(incoming);
    assert forall|i: int| 0 <= i < twice.workers.len() implies !once.newly_waiting(
        #[trigger] twice.workers[i],
    ) && !once.newly_failed(twice.workers[i]) by {
        lemma_find_own(once.workers, i);
        assert(twice.workers[i].id == kept[i].id);
        assert(once.workers[i].id == kept[i].id);
        assert(once.worker_with(twice.workers[i].id) == Some(once.workers[i]));
    }
    lemma_no_news(once, twice.workers);
    assert(once.waiting_news(twice.workers) + once.failure_news(twice.workers) =~= Seq::<
        AttentionView,
    >::empty());
}

/// Without a worker that changed there is no news.
proof fn lemma_no_news(known: ObserverView, workers: Seq<WorkerView>)
    requires
        forall|i: int|
            0 <= i < workers.len() ==> !known.newly_waiting(#[trigger] workers[i])
                && !known.newly_failed(workers[i]),
    ensures
        known.waiting_news(workers) == Seq::<AttentionView>::empty(),
        known.failure_news(workers) == Seq::<AttentionView>::empty(),
    decreases workers.len(),
{
    if workers.len() > 0 {
        assert forall|i: int| 0 <= i < workers.len() - 1 implies !known.newly_waiting(
            #[trigger] workers.drop_last()[i],
        ) && !known.newly_failed(workers.drop_last()[i]) by {
            assert(workers.drop_last()[i] == workers[i]);
        }
        lemma_no_news(known, workers.drop_last());
        assert(!known.newly_waiting(workers[workers.len() - 1]));
    }
}

/// The position of the first worker with the given identifier.
fn position(workers: &Vec<ObserverWorker>, id: &str) -> (found: Option<usize>)
    ensures
        match found {
            Some(index) => find_worker(worker_views(workers@), id@) == Some(index as int) && index
                < workers@.len(),
            None => find_worker(worker_views(workers@), id@) is None,
        },
{
    let ghost all = worker_views(workers@);
    let mut i: usize = 0;
    while i < workers.len()
        invariant
            i <= workers@.len(),
            all == worker_views(workers@),
            forall|j: int| 0 <= j < i ==> (#[trigger] all[j]).id != id@,
        decreases workers.len() - i,
    {
        if same_text(workers[i].id.as_str(), id) {
            proof {
                find_worker_finds(all, id@);
                assert(all[i as int].id == id@);
            }
            return Some(i);
        }
        i += 1;
    }
    proof {
        find_worker_finds(all, id@);
    }
    None
}

/// Whether two optional identities are the same.
fn same_incarnation(a: Option<TmuxSessionId>, b: Option<TmuxSessionId>) -> (r: bool)
    ensures
        r == (a == b),
{
    match (a, b) {
        (Some(a), Some(b)) => a == b,
        (None, None) => true,
        _ => false,
    }
}

/// Whether `text` is one of `texts`.
fn contains(texts: &Vec<String>, text: &str) -> (r: bool)
    ensures
        r == views(texts@).to_set().contains(text@),
        r == views(texts@).contains(text@),
{
    let ghost all = views(texts@);
    let mut i: usize = 0;
    while i < texts.len()
        invariant
            i <= texts@.len(),
            all == views(texts@),
            forall|j: int| 0 <= j < i ==> #[trigger] all[j] != text@,
        decreases texts.len() - i,
    {
        if same_text(texts[i].as_str(), text) {
            assert(all[i as int] == text@);
            return true;
        }
        i += 1;
    }
    false
}

/// Adding a new item to a list without duplicates adds it to the set.
proof fn lemma_push_target(items: Seq<Seq<char>>, item: Seq<char>)
    requires
        items.no_duplicates(),
        !items.contains(item),
    ensures
        items.push(item).no_duplicates(),
        items.push(item).to_set() == items.to_set().insert(item),
{
    assert forall|i: int, j: int|
        0 <= i < items.push(item).len() && 0 <= j < items.push(item).len() && i
            != j implies items.push(item)[i] != items.push(item)[j] by {
        if i == items.len() {
            assert(items.contains(items[j]));
        } else if j == items.len() {
            assert(items.contains(items[i]));
        }
    }
    items.lemma_push_to_set_commute(item);
}

/// Removing an item of a list without duplicates removes it from the set.
proof fn lemma_remove_target(items: Seq<Seq<char>>, at: int)
    requires
        items.no_duplicates(),
        0 <= at < items.len(),
    ensures
        items.remove(at).no_duplicates(),
        items.remove(at).to_set() == items.to_set().remove(items[at]),
{
    let less = items.remove(at);
    assert forall|x: Seq<char>| less.to_set().contains(x) <==> items.to_set().remove(
        items[at],
    ).contains(x) by {
        if less.contains(x) {
            let i = choose|i: int| 0 <= i < less.len() && less[i] == x;
            if i < at {
                assert(items[i] == x);
            } else {
                assert(items[i + 1] == x);
            }
        }
        if items.contains(x) && x != items[at] {
            let i = choose|i: int| 0 <= i < items.len() && items[i] == x;
            if i < at {
                assert(less[i] == x);
            } else {
                assert(less[i - 1] == x);
            }
        }
    }
    assert(less.to_set() =~= items.to_set().remove(items[at]));
}

impl ObserverState {
    /// An observer of the given workers, the first of which is selected.
    pub fn new(workers: Vec<ObserverWorker>) -> (state: Self)
        ensures
            state.well_formed(),
            state@ == empty_view().updated(worker_views(workers@)),
    {
        let mut state = ObserverState {
            workers: Vec::new(),
            capture_statuses: Vec::new(),
            selected_id: None,
            prompt_targets: Vec::new(),
            notice: None,
        };
        proof {
            assert(state@.targets =~= Set::empty());
            assert(state@.workers =~= Seq::empty());
            assert(state@.statuses =~= Seq::empty());
        }
        state.update_workers(workers);
        state
    }

    /// The workers, in order.
    pub fn workers(&self) -> (workers: &[ObserverWorker])
        ensures
            worker_views(workers@) == self@.workers,
    {
        self.workers.as_slice()
    }

    /// The notice, if there is one.
    pub fn notice(&self) -> (notice: Option<&str>)
        ensures
            match notice {
                Some(text) => self@.notice == Some(text@),
                None => self@.notice is None,
            },
    {
        match &self.notice {
            Some(text) => Some(text.as_str()),
            None => None,
        }
    }

    /// Replaces the notice.
    pub fn set_notice(&mut self, notice: Option<String>)
        requires
            old(self).well_formed(),
        ensures
            final(self).well_formed(),
            final(self)@ == (ObserverView { notice: opt_view(notice), ..old(self)@ }),
    {
        self.notice = notice;
    }

    /// The position of the selected worker.
    pub fn selected_index(&self) -> (found: Option<usize>)
        ensures
            match found {
                Some(index) => self@.selected_position() == Some(index as int),
                None => self@.selected_position() is None,
            },
            found is Some ==> found->0 < self@.workers.len(),
    {
        match &self.selected_id {
            Some(id) => position(&self.workers, id.as_str()),
            None => None,
        }
    }

    /// A supplied worker as the observer takes it over.
    fn refresh(&self, worker: &ObserverWorker) -> (r: (ObserverWorker, CaptureStatus))
        requires
            self.well_formed(),
        ensures
            r.0@ == self@.refreshed(worker@).0,
            r.1 == self@.refreshed(worker@).1,
    {
        let mut next = worker.clone();
        if let Some(capture) = &worker.capture {
            next.capture = Some(sanitize_capture(capture.as_str()));
            return (next, CaptureStatus::Ready);
        }
        let found = position(&self.workers, worker.id.as_str());
        let status = match found {
            Some(index) => self.capture_statuses[index],
            None => CaptureStatus::Loading,
        };
        let mut lost = false;
        if let Some(index) = found {
            let known = &self.workers[index];
            assert(self@.worker_with(worker@.id) == Some(known@));
            if matches!(
                status,
                CaptureStatus::Ready | CaptureStatus::Truncated | CaptureStatus::Stale
            ) {
                next.capture = copy_opt(&known.capture);
                next.sampled = known.sampled;
            }
            if worker.last_observed.is_none() {
                next.last_observed = copy_opt(&known.last_observed);
            }
            if worker.latency_ms.is_none() {
                next.latency_ms = known.latency_ms;
            }
            lost = known.live_agent && worker.agent_state == ObserverAgentState::Unreachable;
        }
        if lost {
            next.live_agent = true;
        }
        let unreached = matches!(
            worker.agent_state,
            ObserverAgentState::Unreachable | ObserverAgentState::Stale
        );
        if lost || (next.capture.is_some() && unreached) {
            if worker.agent_state == ObserverAgentState::Unreachable {
                next.stale_reason = Some(
                    if lost {
                        StaleReason::Connection
                    } else {
                        StaleReason::Retained
                    },
                );
            }
            next.agent_state = ObserverAgentState::Stale;
            (next, CaptureStatus::Stale)
        } else if status == CaptureStatus::Stale && matches!(
            worker.agent_state,
            ObserverAgentState::Idle
                | ObserverAgentState::Working
                | ObserverAgentState::Blocked
                | ObserverAgentState::Done
        ) {
            let status = if next.capture.is_some() {
                CaptureStatus::Ready
            } else {
                CaptureStatus::Loading
            };
            (next, status)
        } else {
            (next, status)
        }
    }

    /// The workers among `workers` that want attention, given this earlier state.
    fn attention(&self, workers: &Vec<ObserverWorker>) -> (news: Vec<WorkerAttention>)
        ensures
            attention_views(news@) == self@.waiting_news(worker_views(workers@))
                + self@.failure_news(worker_views(workers@)),
    {
        let ghost all = worker_views(workers@);
        let mut news: Vec<WorkerAttention> = Vec::new();
        let mut i: usize = 0;
        assert(all.take(0) =~= Seq::empty());
        assert(attention_views(news@) =~= Seq::empty());
        while i < workers.len()
            invariant
                i <= workers@.len(),
                all == worker_views(workers@),
                attention_views(news@) == self@.waiting_news(all.take(i as int)),
            decreases workers.len() - i,
        {
            let worker = &workers[i];
            assert(all.take(i + 1).drop_last() =~= all.take(i as int));
            assert(all.take(i + 1).last() == worker@);
            let waits = worker.live_agent && matches!(
                worker.agent_state,
                ObserverAgentState::Blocked | ObserverAgentState::Done
            );
            let new = match position(&self.workers, worker.id.as_str()) {
                Some(index) => {
                    assert(self@.worker_with(worker@.id) == Some(self.workers@[index as int]@));
                    self.workers[index].agent_state != worker.agent_state
                },
                None => true,
            };
            if waits && new {
                let ghost before = news@;
                let item = WorkerAttention {
                    worker_id: worker.id.clone(),
                    reference: workload_reference(worker.id.as_str()),
                    reason: AttentionReason::Agent(worker.agent_state),
                };
                let ghost shown = item@;
                news.push(item);
                assert(attention_views(news@) =~= attention_views(before).push(shown));
            }
            i += 1;
        }
        assert(all.take(all.len() as int) =~= all);
        let ghost waiting = self@.waiting_news(all);
        let mut k: usize = 0;
        assert(waiting + self@.failure_news(all.take(0)) =~= waiting);
        while k < workers.len()
            invariant
                k <= workers@.len(),
                all == worker_views(workers@),
                attention_views(news@) == waiting + self@.failure_news(all.take(k as int)),
            decreases workers.len() - k,
        {
            let worker = &workers[k];
            assert(all.take(k + 1).drop_last() =~= all.take(k as int));
            assert(all.take(k + 1).last() == worker@);
            if let ObserverLifecycle::Failed { exit_status } = worker.lifecycle {
                let new = match position(&self.workers, worker.id.as_str()) {
                    Some(index) => {
                        let known = &self.workers[index];
                        assert(self@.worker_with(worker@.id) == Some(known@));
                        !matches!(known.lifecycle, ObserverLifecycle::Failed { .. })
                            || !same_incarnation(known.incarnation, worker.incarnation)
                    },
                    None => false,
                };
                if new {
                    let ghost before = news@;
                    let item = WorkerAttention {
                        worker_id: worker.id.clone(),
                        reference: workload_reference(worker.id.as_str()),
                        reason: AttentionReason::Failed { exit_status },
                    };
                    let ghost shown = item@;
                    news.push(item);
                    assert(attention_views(news@) =~= attention_views(before).push(shown));
                    assert(attention_views(news@) =~= waiting + self@.failure_news(
                        all.take(k as int),
                    ).push(shown));
                }
            }
            k += 1;
        }
        assert(all.take(all.len() as int) =~= all);
        news
    }

    /// Replaces the worker set and reports newly attention-worthy workers.
    ///
    /// A supplied capture, including an empty capture, completes loading. An
    /// absent capture preserves the prior lifecycle for an existing worker and
    /// starts a new worker in loading. Duplicate identifiers after their first
    /// occurrence and workers beyond [`MAX_WORKERS`] are ignored. If the
    /// selected identity disappeared, the prior numeric position is retained
    /// where possible.
    ///
    /// A transition is only reported when a live agent changes into `BLOCKED`
    /// or `DONE`, or when a workload changes into a failing end.
    pub fn update_workers(&mut self, workers: Vec<ObserverWorker>) -> (news: Vec<WorkerAttention>)
        requires
            old(self).well_formed(),
        ensures
            final(self).well_formed(),
            final(self)@ == old(self)@.updated(worker_views(workers@)),
            attention_views(news@) == old(self)@.waiting_news(final(self)@.workers) + old(
                self,
            )@.failure_news(final(self)@.workers),
    {
        let ghost known = self@;
        let ghost incoming = worker_views(workers@);
        let mut next: Vec<ObserverWorker> = Vec::new();
        let mut statuses: Vec<CaptureStatus> = Vec::new();
        let mut i: usize = 0;
        assert(incoming.take(0) =~= Seq::empty());
        assert(worker_views(next@) =~= known.taken_over(incoming.take(0)));
        assert(statuses@ =~= first_workers(incoming.take(0)).map_values(
            |worker: WorkerView| known.refreshed(worker).1,
        ));
        while i < workers.len()
            invariant
                i <= workers@.len(),
                self.well_formed(),
                self@ == known,
                incoming == worker_views(workers@),
                worker_views(next@) == known.taken_over(incoming.take(i as int)),
                statuses@ == first_workers(incoming.take(i as int)).map_values(
                    |worker: WorkerView| known.refreshed(worker).1,
                ),
            decreases workers.len() - i,
        {
            let worker = &workers[i];
            let ghost taken = first_workers(incoming.take(i as int));
            let ghost more = first_workers(incoming.take(i + 1));
            proof {
                assert(incoming.take(i + 1).drop_last() =~= incoming.take(i as int));
                assert(incoming.take(i + 1).last() == worker@);
                lemma_taken_over_ids(known, incoming.take(i as int));
                assert(worker_views(next@).len() == taken.len());
            }
            if next.len() < MAX_WORKERS && position(&next, worker.id.as_str()).is_none() {
                let ghost before = next@;
                let (taken_worker, status) = self.refresh(worker);
                let ghost shown = taken_worker@;
                next.push(taken_worker);
                statuses.push(status);
                proof {
                    assert(more == taken.push(worker@));
                    assert(worker_views(next@) =~= worker_views(before).push(shown));
                    assert(worker_views(next@) =~= known.taken_over(incoming.take(i + 1)));
                    assert(statuses@ =~= more.map_values(
                        |worker: WorkerView| known.refreshed(worker).1,
                    ));
                }
            } else {
                assert(more == taken);
            }
            i += 1;
        }
        assert(incoming.take(incoming.len() as int) =~= incoming);
        let news = self.attention(&next);
        let ghost taken = worker_views(next@);
        let mut targets: Vec<String> = Vec::new();
        let ghost chosen = views(self.prompt_targets@);
        let mut t: usize = 0;
        assert(views(targets@) =~= Seq::empty());
        while t < self.prompt_targets.len()
            invariant
                t <= self.prompt_targets@.len(),
                chosen == views(self.prompt_targets@),
                chosen.no_duplicates(),
                taken == worker_views(next@),
                views(targets@).no_duplicates(),
                forall|id: Seq<char>|
                    views(targets@).contains(id) <==> #[trigger] chosen.take(t as int).contains(id)
                        && prompt_ready(taken, id),
            decreases self.prompt_targets.len() - t,
        {
            let ghost before = views(targets@);
            let ghost id = chosen[t as int];
            let ready = match position(&next, self.prompt_targets[t].as_str()) {
                Some(index) => next[index].can_prompt(),
                None => false,
            };
            proof {
                assert(ready == prompt_ready(taken, id));
                assert(!chosen.take(t as int).contains(id)) by {
                    if chosen.take(t as int).contains(id) {
                        let j = choose|j: int|
                            0 <= j < chosen.take(t as int).len() && chosen.take(t as int)[j] == id;
                        assert(chosen[j] == chosen[t as int]);
                    }
                }
                assert(!before.contains(id));
                assert(chosen.take(t + 1) =~= chosen.take(t as int).push(id));
            }
            if ready {
                targets.push(self.prompt_targets[t].clone());
                proof {
                    assert(views(targets@) =~= before.push(id));
                    lemma_push_target(before, id);
                }
            }
            let ghost seen = chosen.take(t as int);
            t += 1;
            proof {
                assert(chosen.take(t as int) == seen.push(id));
                assert forall|x: Seq<char>|
                    views(targets@).contains(x) <==> #[trigger] chosen.take(t as int).contains(x)
                        && prompt_ready(taken, x) by {
                    lemma_push_contains(seen, id, x);
                    lemma_push_contains(before, id, x);
                    assert(before.contains(x) <==> seen.contains(x) && prompt_ready(taken, x));
                }
            }
        }
        assert(chosen.take(chosen.len() as int) =~= chosen);
        let selected = if next.len() == 0 {
            None
        } else {
            let kept = match &self.selected_id {
                Some(id) => position(&next, id.as_str()).is_some(),
                None => false,
            };
            if kept {
                copy_opt(&self.selected_id)
            } else {
                let index: usize = match self.selected_index() {
                    Some(index) => index,
                    None => 0,
                };
                if index < next.len() {
                    assert(taken[index as int].id == next@[index as int].id@);
                    Some(next[index].id.clone())
                } else {
                    assert(taken.last().id == next@[next@.len() - 1].id@);
                    Some(next[next.len() - 1].id.clone())
                }
            }
        };
        self.workers = next;
        self.capture_statuses = statuses;
        self.prompt_targets = targets;
        self.selected_id = selected;
        proof {
            assert(self@.targets =~= known.targets.filter(
                |id: Seq<char>| prompt_ready(taken, id),
            )) by {
                assert forall|x: Seq<char>|
                    self@.targets.contains(x) <==> known.targets.contains(x) && prompt_ready(
                        taken,
                        x,
                    ) by {
                    assert(chosen.take(chosen.len() as int).contains(x) == chosen.contains(x));
                }
            }
            updating_keeps_form(known, incoming);
        }
        news
    }
}

/// What a longer list holds.
proof fn lemma_push_contains(items: Seq<Seq<char>>, item: Seq<char>, x: Seq<char>)
    ensures
        items.push(item).contains(x) <==> items.contains(x) || x == item,
{
    if items.contains(x) {
        let i = choose|i: int| 0 <= i < items.len() && items[i] == x;
        assert(items.push(item)[i] == x);
    }
    assert(items.push(item)[items.len() as int] == item);
    if items.push(item).contains(x) {
        let i = choose|i: int| 0 <= i < items.push(item).len() && items.push(item)[i] == x;
        if i < items.len() {
            assert(items[i] == x);
        }
    }
}

/// An observer without workers.
pub open spec fn empty_view() -> ObserverView {
    ObserverView {
        workers: Seq::empty(),
        statuses: Seq::empty(),
        selected: None,
        targets: Set::empty(),
        notice: None,
    }
}

impl ObserverView {
    /// An action that is possible in this view. Without workers there is
    /// nothing to select, page through, or open, but refresh and back remain.
    pub open spec fn offers(self, action: ObserverAction) -> bool {
        &&& self.workers.len() == 0 ==> action == ObserverAction::Refresh || action
            == ObserverAction::Quit
        &&& (action == ObserverAction::TogglePromptTarget || action == ObserverAction::ComposePrompt)
            ==> exists|i: int|
            0 <= i < self.workers.len() && (#[trigger] self.workers[i]).capabilities.prompt_agent
        &&& action == ObserverAction::FocusSelected ==> exists|i: int|
            0 <= i < self.workers.len() && (#[trigger] self.workers[i]).focusable()
        &&& (action == ObserverAction::WaitSelected || action == ObserverAction::ReadSelected
            || action == ObserverAction::ExplainSelected) ==> exists|i: int|
            0 <= i < self.workers.len() && (#[trigger] self.workers[i]).observable()
    }

    /// The action that a key stands for in this view.
    pub open spec fn offered_action(self, key: ObserverKey) -> Option<ObserverAction> {
        match key_action(key) {
            Some(action) => if self.offers(action) {
                Some(action)
            } else {
                None
            },
            None => None,
        }
    }

    /// The worker after a capture result, and what is then known of its capture.
    pub open spec fn captured(worker: WorkerView, capture: ObserverCapture) -> (
        WorkerView,
        CaptureStatus,
    ) {
        match capture {
            ObserverCapture::Loading => (
                WorkerView { capture: None, sampled: false, ..worker },
                CaptureStatus::Loading,
            ),
            ObserverCapture::Ready(text) => (
                WorkerView { capture: Some(shown_capture(text@)), sampled: false, ..worker },
                CaptureStatus::Ready,
            ),
            ObserverCapture::Truncated(text) => (
                WorkerView { capture: Some(shown_capture(text@)), sampled: false, ..worker },
                CaptureStatus::Truncated,
            ),
            ObserverCapture::Preview { text, truncated } => (
                WorkerView { capture: Some(shown_capture(text@)), sampled: true, ..worker },
                if truncated {
                    CaptureStatus::Truncated
                } else {
                    CaptureStatus::Ready
                },
            ),
            ObserverCapture::Unavailable => if worker.capture is Some && worker.last_observed is Some {
                (
                    WorkerView {
                        agent_state: ObserverAgentState::Stale,
                        stale_reason: Some(StaleReason::Retained),
                        ..worker
                    },
                    CaptureStatus::Stale,
                )
            } else {
                (
                    WorkerView {
                        capture: None,
                        agent_state: if worker.capabilities.prompt_agent {
                            ObserverAgentState::Unreachable
                        } else {
                            worker.agent_state
                        },
                        ..worker
                    },
                    CaptureStatus::Unavailable,
                )
            },
        }
    }

    /// The observer after the selection moved by `offset`, without wrapping.
    pub open spec fn moved(self, offset: int) -> ObserverView {
        if self.workers.len() == 0 {
            self
        } else {
            self.select(clamp(self.position() + offset, self.workers.len() - 1))
        }
    }

    /// The observer after the page moved by `offset`, without wrapping.
    pub open spec fn paged(self, offset: int) -> ObserverView {
        if self.workers.len() == 0 {
            self
        } else {
            let page = clamp(self.page_number() + offset, self.pages() - 1);
            self.select(clamp(page * WORKERS_PER_PAGE, self.workers.len() - 1))
        }
    }

    /// The observer after an action, and what the action asks for.
    pub open spec fn applied(self, action: ObserverAction) -> (ObserverView, OutcomeView) {
        let selected = self.selected_position();
        match action {
            ObserverAction::PreviousWorker => (self.moved(-1), OutcomeView::Nothing),
            ObserverAction::NextWorker => (self.moved(1), OutcomeView::Nothing),
            ObserverAction::PreviousPage => (self.paged(-1), OutcomeView::Nothing),
            ObserverAction::NextPage => (self.paged(1), OutcomeView::Nothing),
            ObserverAction::Refresh => (self, OutcomeView::Refresh),
            ObserverAction::Quit => (self, OutcomeView::Quit),
            ObserverAction::OpenSelected => match selected {
                Some(index) => if self.workers[index].openable() {
                    (self, OutcomeView::OpenSelected(self.workers[index].id))
                } else {
                    (self, OutcomeView::OpenUnavailable(self.workers[index].id))
                },
                None => (self, OutcomeView::Nothing),
            },
            ObserverAction::TogglePromptTarget => match selected {
                Some(index) => (self.toggled(index), OutcomeView::Nothing),
                None => (self, OutcomeView::Nothing),
            },
            ObserverAction::ComposePrompt => {
                let ready = self.with_default_target();
                if ready.target_ids().len() == 0 {
                    (
                        ready.notify(
                            "Select at least one prompt-authorized IDLE or DONE agent"@,
                        ),
                        OutcomeView::Nothing,
                    )
                } else {
                    (ready, OutcomeView::ComposePrompt(ready.target_ids()))
                }
            },
            ObserverAction::FocusSelected => if selected is Some
                && self.workers[selected->0].focusable() {
                (self, OutcomeView::FocusSelected(self.workers[selected->0].id))
            } else {
                (
                    self.notify(
                        "Focus requires an exact live agent with interactive-open permission"@,
                    ),
                    OutcomeView::Nothing,
                )
            },
            ObserverAction::WaitSelected => if selected is Some
                && self.workers[selected->0].observable() {
                (self, OutcomeView::WaitSelected(self.workers[selected->0].id))
            } else {
                (
                    self.notify("Wait requires an exact live agent with observation permission"@),
                    OutcomeView::Nothing,
                )
            },
            ObserverAction::ReadSelected => if selected is Some
                && self.workers[selected->0].observable() {
                (self, OutcomeView::ReadSelected(self.workers[selected->0].id))
            } else {
                (
                    self.notify("Read requires an exact live agent with observation permission"@),
                    OutcomeView::Nothing,
                )
            },
            ObserverAction::ExplainSelected => if selected is Some
                && self.workers[selected->0].observable() {
                (self, OutcomeView::ExplainSelected(self.workers[selected->0].id))
            } else {
                (
                    self.notify("Explain requires an exact live agent with observation permission"@),
                    OutcomeView::Nothing,
                )
            },
        }
    }

    /// The observer after the worker at `index` was marked or unmarked as a
    /// prompt destination.
    pub open spec fn toggled(self, index: int) -> ObserverView {
        let worker = self.workers[index];
        if self.targets.contains(worker.id) {
            ObserverView { targets: self.targets.remove(worker.id), notice: None, ..self }
        } else if !worker.promptable() {
            self.notify("Prompt requires exact-owned, authorized, IDLE or DONE agent"@)
        } else if self.targets.len() >= MAX_PROMPT_TARGETS {
            self.notify("At most 8 prompt destinations may be selected"@)
        } else {
            ObserverView { targets: self.targets.insert(worker.id), notice: None, ..self }
        }
    }

    /// The observer with the selected worker as destination, if none was marked
    /// and the selected one may be sent a prompt.
    pub open spec fn with_default_target(self) -> ObserverView {
        match self.selected_position() {
            Some(index) => if self.targets.len() == 0 && self.workers[index].promptable() {
                ObserverView { targets: self.targets.insert(self.workers[index].id), ..self }
            } else {
                self
            },
            None => self,
        }
    }

    /// The UUIDs of the workers that a person gave the title `title`.
    pub open spec fn titled(self, title: Seq<char>) -> Seq<u128> {
        titled_uuids(self.workers, title)
    }

    /// The title of a worker among the others: a title that several share is
    /// followed by a reference that tells them apart.
    pub open spec fn title_of(self, worker: WorkerView) -> Seq<char> {
        match worker.human_title() {
            None => worker.own_title(),
            Some(title) => {
                let shared = self.titled(title);
                if shared.len() < 2 || !denotes_session_id(worker.id) {
                    title
                } else {
                    title + " · "@ + reference_token_text(
                        denoted_uuid(worker.id),
                        telling_width(shared, SessionId::SHORT_REFERENCE_WIDTH as int),
                    )
                }
            },
        }
    }
}

/// `value` brought into the range from 0 to `max`.
pub open spec fn clamp(value: int, max: int) -> int {
    if value < 0 {
        0
    } else if value > max {
        max
    } else {
        value
    }
}

/// The UUIDs of the workers that a person gave the title `title`.
pub open spec fn titled_uuids(workers: Seq<WorkerView>, title: Seq<char>) -> Seq<u128>
    decreases workers.len(),
{
    if workers.len() == 0 {
        Seq::empty()
    } else {
        let front = titled_uuids(workers.drop_last(), title);
        let last = workers.last();
        if last.human_title() == Some(title) && denotes_session_id(last.id) {
            front.push(denoted_uuid(last.id))
        } else {
            front
        }
    }
}

/// References of the given width that tell all of `uuids` apart.
pub open spec fn tells_apart(uuids: Seq<u128>, width: int) -> bool {
    forall|i: int, j: int|
        0 <= i < j < uuids.len() ==> reference_token_text(#[trigger] uuids[i], width)
            != reference_token_text(#[trigger] uuids[j], width)
}

/// The least width from `from` on at which references tell all of `uuids`
/// apart, or the full width.
pub open spec fn telling_width(uuids: Seq<u128>, from: int) -> int
    decreases SessionId::MAX_REFERENCE_WIDTH - from,
{
    if from >= SessionId::MAX_REFERENCE_WIDTH {
        SessionId::MAX_REFERENCE_WIDTH as int
    } else if tells_apart(uuids, from) {
        from
    } else {
        telling_width(uuids, from + 1)
    }
}

/// Two workers that a person gave the same title are among those who share it.
proof fn lemma_titled_uuids(workers: Seq<WorkerView>, title: Seq<char>, i: int, j: int)
    requires
        0 <= i < j < workers.len(),
        workers[i].human_title() == Some(title),
        workers[j].human_title() == Some(title),
        denotes_session_id(workers[i].id),
        denotes_session_id(workers[j].id),
    ensures
        exists|p: int, q: int|
            0 <= p < q < titled_uuids(workers, title).len() && #[trigger] titled_uuids(
                workers,
                title,
            )[p] == denoted_uuid(workers[i].id) && #[trigger] titled_uuids(workers, title)[q]
                == denoted_uuid(workers[j].id),
    decreases workers.len(),
{
    let front = workers.drop_last();
    let all = titled_uuids(workers, title);
    let before = titled_uuids(front, title);
    if j < front.len() {
        lemma_titled_uuids(front, title, i, j);
        let (p, q) = choose|p: int, q: int|
            0 <= p < q < before.len() && #[trigger] before[p] == denoted_uuid(front[i].id)
                && #[trigger] before[q] == denoted_uuid(front[j].id);
        assert(all[p] == before[p] && all[q] == before[q]);
    } else {
        lemma_titled_uuid(front, title, i);
        let p = choose|p: int|
            0 <= p < before.len() && #[trigger] before[p] == denoted_uuid(front[i].id);
        assert(all[p] == before[p]);
        assert(all[before.len() as int] == denoted_uuid(workers[j].id));
    }
}

/// A worker that a person gave a title is among those who share it.
proof fn lemma_titled_uuid(workers: Seq<WorkerView>, title: Seq<char>, i: int)
    requires
        0 <= i < workers.len(),
        workers[i].human_title() == Some(title),
        denotes_session_id(workers[i].id),
    ensures
        exists|p: int|
            0 <= p < titled_uuids(workers, title).len() && #[trigger] titled_uuids(
                workers,
                title,
            )[p] == denoted_uuid(workers[i].id),
    decreases workers.len(),
{
    let front = workers.drop_last();
    let all = titled_uuids(workers, title);
    let before = titled_uuids(front, title);
    if i < front.len() {
        lemma_titled_uuid(front, title, i);
        let p = choose|p: int|
            0 <= p < before.len() && #[trigger] before[p] == denoted_uuid(front[i].id);
        assert(all[p] == before[p]);
    } else {
        assert(all[before.len() as int] == denoted_uuid(workers[i].id));
    }
}

/// The width of references tells workers apart, or it is the full one.
proof fn lemma_telling_width(uuids: Seq<u128>, from: int)
    requires
        from <= SessionId::MAX_REFERENCE_WIDTH,
    ensures
        telling_width(uuids, from) == SessionId::MAX_REFERENCE_WIDTH || tells_apart(
            uuids,
            telling_width(uuids, from),
        ),
    decreases SessionId::MAX_REFERENCE_WIDTH - from,
{
    if from < SessionId::MAX_REFERENCE_WIDTH && !tells_apart(uuids, from) {
        lemma_telling_width(uuids, from + 1);
    }
}

/// Workers that a person gave the same title are shown under different ones.
pub proof fn shared_titles_are_told_apart(state: ObserverView, i: int, j: int)
    requires
        state.well_formed(),
        0 <= i < j < state.workers.len(),
        state.workers[i].human_title() is Some,
        state.workers[i].human_title() == state.workers[j].human_title(),
        denotes_session_id(state.workers[i].id),
        denotes_session_id(state.workers[j].id),
    ensures
        state.title_of(state.workers[i]) != state.title_of(state.workers[j]),
{
    let title = state.workers[i].human_title()->0;
    let shared = titled_uuids(state.workers, title);
    lemma_titled_uuids(state.workers, title, i, j);
    let (p, q) = choose|p: int, q: int|
        0 <= p < q < shared.len() && #[trigger] shared[p] == denoted_uuid(state.workers[i].id)
            && #[trigger] shared[q] == denoted_uuid(state.workers[j].id);
    session_id_texts_differ(state.workers[i].id, state.workers[j].id);
    let width = telling_width(shared, SessionId::SHORT_REFERENCE_WIDTH as int);
    lemma_telling_width(shared, SessionId::SHORT_REFERENCE_WIDTH as int);
    let a = reference_token_text(shared[p], width);
    let b = reference_token_text(shared[q], width);
    assert(a != b) by {
        if !tells_apart(shared, width) {
            full_reference_texts_differ(shared[p], shared[q]);
        }
    }
    let head = title + " · "@;
    assert((head + a).skip(head.len() as int) =~= a);
    assert((head + b).skip(head.len() as int) =~= b);
}

/// Moving the selection keeps an observer well formed and changes nothing else.
pub proof fn navigation_only_selects(state: ObserverView, action: ObserverAction)
    requires
        state.well_formed(),
        action.navigates(),
    ensures
        state.applied(action).0.well_formed(),
        state.applied(action).0 == (ObserverView {
            selected: state.applied(action).0.selected,
            ..state
        }),
        state.applied(action).1 == OutcomeView::Nothing,
{
    if state.workers.len() > 0 {
        let next = state.applied(action).0;
        let index = match action {
            ObserverAction::PreviousWorker => clamp(state.position() - 1, state.workers.len() - 1),
            ObserverAction::NextWorker => clamp(state.position() + 1, state.workers.len() - 1),
            ObserverAction::PreviousPage => clamp(
                clamp(state.page_number() - 1, state.pages() - 1) * WORKERS_PER_PAGE,
                state.workers.len() - 1,
            ),
            _ => clamp(
                clamp(state.page_number() + 1, state.pages() - 1) * WORKERS_PER_PAGE,
                state.workers.len() - 1,
            ),
        };
        lemma_find_own(state.workers, index);
    }
}

/// Moving on from the last worker, or back from the first, stays there.
pub proof fn navigation_stops_at_the_ends(state: ObserverView)
    requires
        state.well_formed(),
    ensures
        state.position() == 0 ==> state.applied(ObserverAction::PreviousWorker).0 == state,
        state.position() == state.workers.len() - 1 ==> state.applied(
            ObserverAction::NextWorker,
        ).0 == state,
{
    if let Some(id) = state.selected {
        find_worker_finds(state.workers, id);
    }
}

/// A key that is held down moves the selection and does nothing else.
pub proof fn held_keys_only_navigate(key: ObserverKey, busy: bool)
    ensures
        input_action(key, ObserverInputKind::Repeat, busy) matches Some(action)
            ==> action.navigates(),
{
}

/// A group without workers offers to refresh and to go back, and nothing else.
pub proof fn empty_groups_offer_refresh_and_back(state: ObserverView, key: ObserverKey)
    requires
        state.workers.len() == 0,
    ensures
        state.offered_action(key) matches Some(action) ==> action == ObserverAction::Refresh
            || action == ObserverAction::Quit,
{
}

/// A page shows few workers, and the selected one is among them.
pub proof fn pages_are_short_and_show_the_selection(state: ObserverView)
    requires
        state.well_formed(),
    ensures
        state.visible().len() <= WORKERS_PER_PAGE,
        0 <= state.page_number() < state.pages(),
        state.selected matches Some(id) ==> {
            let at = state.position() - state.page_number() * WORKERS_PER_PAGE;
            0 <= at < state.visible().len() && state.visible()[at].id == id
        },
{
    if let Some(id) = state.selected {
        find_worker_finds(state.workers, id);
    }
}

/// No action changes the workers or what is known of their captures, and every
/// action keeps an observer well formed.
pub proof fn actions_leave_workers_alone(state: ObserverView, action: ObserverAction)
    requires
        state.well_formed(),
    ensures
        state.applied(action).0.well_formed(),
        state.applied(action).0.workers == state.workers,
        state.applied(action).0.statuses == state.statuses,
{
    if action.navigates() {
        navigation_only_selects(state, action);
    } else if let Some(id) = state.selected {
        find_worker_finds(state.workers, id);
        let index = find_worker(state.workers, id)->0;
        lemma_find_own(state.workers, index);
        assert(state.workers[index].id == id);
    }
}

/// A prompt is only ever composed for workers that are marked, each of them
/// once and in the order of the workers.
pub proof fn composed_prompt_goes_to_targets(state: ObserverView)
    requires
        state.well_formed(),
    ensures
        match state.applied(ObserverAction::ComposePrompt).1 {
            OutcomeView::ComposePrompt(ids) => {
                &&& 0 < ids.len()
                &&& ids.no_duplicates()
                &&& ids.to_set() == state.applied(ObserverAction::ComposePrompt).0.targets
            },
            other => other == OutcomeView::Nothing,
        },
{
    let ready = state.with_default_target();
    lemma_chosen_ids(ready.workers, ready.targets);
    assert(ready.target_ids().to_set() =~= ready.targets) by {
        actions_leave_workers_alone(state, ObserverAction::ComposePrompt);
        assert forall|id: Seq<char>| ready.targets.contains(id) implies ready.target_ids().contains(
            id,
        ) by {
            assert(find_worker(ready.workers, id) is Some);
            find_worker_finds(ready.workers, id);
            assert(ready.workers[find_worker(ready.workers, id)->0].id == id);
        }
    }
}

/// The chosen identifiers are those of chosen workers, each once.
proof fn lemma_chosen_ids(workers: Seq<WorkerView>, targets: Set<Seq<char>>)
    requires
        distinct_ids(workers),
    ensures
        chosen_ids(workers, targets).no_duplicates(),
        forall|id: Seq<char>| #[trigger]
            chosen_ids(workers, targets).contains(id) <==> targets.contains(id) && exists|i: int|
                0 <= i < workers.len() && (#[trigger] workers[i]).id == id,
    decreases workers.len(),
{
    if workers.len() > 0 {
        let front = workers.drop_last();
        assert(distinct_ids(front)) by {
            assert forall|i: int, j: int| 0 <= i < j < front.len() implies (#[trigger] front[i]).id
                != (#[trigger] front[j]).id by {
                assert(workers[i].id != workers[j].id);
            }
        }
        lemma_chosen_ids(front, targets);
        let chosen = chosen_ids(front, targets);
        let last = workers.last().id;
        assert(!chosen.contains(last)) by {
            if chosen.contains(last) {
                let i = choose|i: int| 0 <= i < front.len() && (#[trigger] front[i]).id == last;
                assert(workers[i].id != workers[workers.len() - 1].id);
            }
        }
        if targets.contains(last) {
            lemma_push_target(chosen, last);
        }
        assert forall|id: Seq<char>| #[trigger]
            chosen_ids(workers, targets).contains(id) <==> targets.contains(id) && exists|i: int|
                0 <= i < workers.len() && (#[trigger] workers[i]).id == id by {
            lemma_push_contains(chosen, last, id);
            if exists|i: int| 0 <= i < workers.len() && (#[trigger] workers[i]).id == id {
                let i = choose|i: int| 0 <= i < workers.len() && (#[trigger] workers[i]).id == id;
                if i < front.len() {
                    assert(front[i].id == id);
                }
            }
            if exists|i: int| 0 <= i < front.len() && (#[trigger] front[i]).id == id {
                let i = choose|i: int| 0 <= i < front.len() && (#[trigger] front[i]).id == id;
                assert(workers[i].id == id);
            }
            assert(workers[workers.len() - 1].id == last);
        }
    } else {
        assert(chosen_ids(workers, targets) =~= Seq::empty());
    }
}

impl ObserverState {
    /// Projects a key through the actions that are possible in the current view.
    pub fn action_for_key(&self, key: ObserverKey) -> (action: Option<ObserverAction>)
        ensures
            action == self@.offered_action(key),
    {
        let action = match action_for_key(key) {
            Some(action) => action,
            None => {
                return None;
            },
        };
        if self.workers.len() == 0 {
            return if matches!(action, ObserverAction::Refresh | ObserverAction::Quit) {
                Some(action)
            } else {
                None
            };
        }
        let mut promptable = false;
        let mut focusable = false;
        let mut observable = false;
        let ghost all = self@.workers;
        let mut i: usize = 0;
        while i < self.workers.len()
            invariant
                i <= self.workers@.len(),
                all == worker_views(self.workers@),
                promptable == exists|j: int|
                    0 <= j < i && (#[trigger] all[j]).capabilities.prompt_agent,
                focusable == exists|j: int| 0 <= j < i && (#[trigger] all[j]).focusable(),
                observable == exists|j: int| 0 <= j < i && (#[trigger] all[j]).observable(),
            decreases self.workers.len() - i,
        {
            let worker = &self.workers[i];
            assert(all[i as int] == worker@);
            promptable = promptable || worker.capabilities.prompt_agent;
            focusable = focusable || worker.can_focus();
            observable = observable || worker.can_observe_agent();
            i += 1;
        }
        let available = match action {
            ObserverAction::TogglePromptTarget | ObserverAction::ComposePrompt => promptable,
            ObserverAction::FocusSelected => focusable,
            ObserverAction::WaitSelected
            | ObserverAction::ReadSelected
            | ObserverAction::ExplainSelected => observable,
            _ => true,
        };
        if available {
            Some(action)
        } else {
            None
        }
    }

    /// Projects a key through both view availability and input event gating.
    pub fn action_for_input(&self, key: ObserverKey, kind: ObserverInputKind, busy: bool) -> (action:
        Option<ObserverAction>)
        ensures
            action == match self@.offered_action(key) {
                Some(action) => if admitted(action, kind, busy) {
                    Some(action)
                } else {
                    None
                },
                None => None,
            },
    {
        match self.action_for_key(key) {
            Some(action) => gate_action_for_input(action, kind, busy),
            None => None,
        }
    }

    /// Records how long a worker's host took to answer and when it was seen.
    pub fn set_connection_observation(
        &mut self,
        worker_id: &str,
        latency_ms: u64,
        observed: Option<String>,
    ) -> (known: bool)
        requires
            old(self).well_formed(),
        ensures
            final(self).well_formed(),
            known == (find_worker(old(self)@.workers, worker_id@) is Some),
            final(self)@ == match find_worker(old(self)@.workers, worker_id@) {
                Some(index) => {
                    let worker = old(self)@.workers[index];
                    ObserverView {
                        workers: old(self)@.workers.update(
                            index,
                            WorkerView {
                                latency_ms: Some(latency_ms),
                                last_observed: if observed is Some {
                                    opt_view(observed)
                                } else {
                                    worker.last_observed
                                },
                                ..worker
                            },
                        ),
                        ..old(self)@
                    }
                },
                None => old(self)@,
            },
    {
        let index = match position(&self.workers, worker_id) {
            Some(index) => index,
            None => {
                return false;
            },
        };
        let mut worker = self.workers[index].clone();
        worker.latency_ms = Some(latency_ms);
        if observed.is_some() {
            worker.last_observed = observed;
        }
        self.replace_worker(index, worker);
        true
    }

    /// Puts `worker` in the place of the one at `index`, which has the same
    /// identifier.
    fn replace_worker(&mut self, index: usize, worker: ObserverWorker)
        requires
            old(self).well_formed(),
            index < old(self)@.workers.len(),
            worker@.id == old(self)@.workers[index as int].id,
        ensures
            final(self).well_formed(),
            final(self)@ == (ObserverView {
                workers: old(self)@.workers.update(index as int, worker@),
                ..old(self)@
            }),
    {
        let ghost before = self@;
        let ghost shown = worker@;
        self.workers.set(index, worker);
        proof {
            assert(self@.workers =~= before.workers.update(index as int, shown));
            assert forall|id: Seq<char>| find_worker(self@.workers, id) == #[trigger] find_worker(
                before.workers,
                id,
            ) by {
                lemma_find_by_ids(self@.workers, before.workers, id);
            }
            assert(distinct_ids(self@.workers)) by {
                assert forall|i: int, j: int| 0 <= i < j < self@.workers.len() implies (
                #[trigger] self@.workers[i]).id != (#[trigger] self@.workers[j]).id by {
                    assert(before.workers[i].id != before.workers[j].id);
                }
            }
        }
    }

    /// Merges one capture result without changing worker identity or membership.
    pub fn merge_capture(&mut self, worker_id: &str, capture: ObserverCapture) -> (known: bool)
        requires
            old(self).well_formed(),
        ensures
            final(self).well_formed(),
            known == (find_worker(old(self)@.workers, worker_id@) is Some),
            final(self)@ == match find_worker(old(self)@.workers, worker_id@) {
                Some(index) => {
                    let next = ObserverView::captured(old(self)@.workers[index], capture);
                    ObserverView {
                        workers: old(self)@.workers.update(index, next.0),
                        statuses: old(self)@.statuses.update(index, next.1),
                        ..old(self)@
                    }
                },
                None => old(self)@,
            },
    {
        let index = match position(&self.workers, worker_id) {
            Some(index) => index,
            None => {
                return false;
            },
        };
        let mut worker = self.workers[index].clone();
        let status = match capture {
            ObserverCapture::Loading => {
                worker.capture = None;
                worker.sampled = false;
                CaptureStatus::Loading
            },
            ObserverCapture::Ready(text) => {
                worker.capture = Some(sanitize_capture(text.as_str()));
                worker.sampled = false;
                CaptureStatus::Ready
            },
            ObserverCapture::Truncated(text) => {
                worker.capture = Some(sanitize_capture(text.as_str()));
                worker.sampled = false;
                CaptureStatus::Truncated
            },
            ObserverCapture::Preview { text, truncated } => {
                worker.capture = Some(sanitize_capture(text.as_str()));
                worker.sampled = true;
                if truncated {
                    CaptureStatus::Truncated
                } else {
                    CaptureStatus::Ready
                }
            },
            ObserverCapture::Unavailable => {
                if worker.capture.is_some() && worker.last_observed.is_some() {
                    worker.agent_state = ObserverAgentState::Stale;
                    worker.stale_reason = Some(StaleReason::Retained);
                    CaptureStatus::Stale
                } else {
                    worker.capture = None;
                    if worker.capabilities.prompt_agent {
                        worker.agent_state = ObserverAgentState::Unreachable;
                    }
                    CaptureStatus::Unavailable
                }
            },
        };
        self.replace_worker(index, worker);
        self.capture_statuses.set(index, status);
        true
    }

    /// The identifier of the selected worker.
    pub fn selected_id(&self) -> (id: Option<&str>)
        ensures
            match id {
                Some(text) => self@.selected == Some(text@),
                None => self@.selected is None,
            },
    {
        match &self.selected_id {
            Some(id) => Some(id.as_str()),
            None => None,
        }
    }

    /// The identifiers of the prompt destinations, in the order of the workers.
    pub fn prompt_target_ids(&self) -> (ids: Vec<String>)
        ensures
            views(ids@) == self@.target_ids(),
    {
        let ghost all = self@.workers;
        let ghost targets = self@.targets;
        let mut ids: Vec<String> = Vec::new();
        let mut i: usize = 0;
        assert(all.take(0) =~= Seq::empty());
        assert(views(ids@) =~= Seq::empty());
        while i < self.workers.len()
            invariant
                i <= self.workers@.len(),
                all == worker_views(self.workers@),
                targets == views(self.prompt_targets@).to_set(),
                views(ids@) == chosen_ids(all.take(i as int), targets),
            decreases self.workers.len() - i,
        {
            assert(all.take(i + 1).drop_last() =~= all.take(i as int));
            assert(all.take(i + 1).last() == self.workers@[i as int]@);
            if contains(&self.prompt_targets, self.workers[i].id.as_str()) {
                let ghost before = ids@;
                ids.push(self.workers[i].id.clone());
                assert(views(ids@) =~= views(before).push(self.workers@[i as int].id@));
            }
            i += 1;
        }
        assert(all.take(all.len() as int) =~= all);
        ids
    }

    /// Whether the worker is a prompt destination.
    pub fn is_prompt_target(&self, worker_id: &str) -> (r: bool)
        ensures
            r == self@.targets.contains(worker_id@),
    {
        contains(&self.prompt_targets, worker_id)
    }

    /// The selected worker.
    pub fn selected_worker(&self) -> (worker: Option<&ObserverWorker>)
        ensures
            match worker {
                Some(worker) => self@.selected_position() is Some && worker@
                    == self@.workers[self@.selected_position()->0],
                None => self@.selected_position() is None,
            },
    {
        match self.selected_index() {
            Some(index) => Some(&self.workers[index]),
            None => None,
        }
    }

    /// The page that holds the selected worker.
    pub fn page(&self) -> (page: usize)
        requires
            self.well_formed(),
        ensures
            page == self@.page_number(),
            page < self@.pages() <= MAX_WORKERS,
    {
        let index: usize = match self.selected_index() {
            Some(index) => index,
            None => 0,
        };
        index / WORKERS_PER_PAGE
    }

    /// The number of pages.
    pub fn page_count(&self) -> (count: usize)
        requires
            self.well_formed(),
        ensures
            count == self@.pages(),
            count > 0,
    {
        if self.workers.len() == 0 {
            1
        } else {
            (self.workers.len() + WORKERS_PER_PAGE - 1) / WORKERS_PER_PAGE
        }
    }

    /// The workers of the current page.
    pub fn visible_workers(&self) -> (workers: &[ObserverWorker])
        requires
            self.well_formed(),
        ensures
            worker_views(workers@) == self@.visible(),
            workers@.len() <= WORKERS_PER_PAGE,
            self@.workers.len() > 0 ==> workers@.len() > 0,
    {
        let start: usize = self.page() * WORKERS_PER_PAGE;
        let end: usize = if start + WORKERS_PER_PAGE <= self.workers.len() {
            start + WORKERS_PER_PAGE
        } else {
            self.workers.len()
        };
        let visible = vstd::slice::slice_subrange(self.workers.as_slice(), start, end);
        assert(worker_views(visible@) =~= self@.visible());
        visible
    }

    /// What is known of the capture of the worker with the given identifier.
    pub fn capture_status(&self, worker_id: &str) -> (status: CaptureStatus)
        requires
            self.well_formed(),
        ensures
            status == self@.status_of(worker_id@),
    {
        match position(&self.workers, worker_id) {
            Some(index) => self.capture_statuses[index],
            None => CaptureStatus::Loading,
        }
    }

    /// The title of a worker among the others.
    pub fn worker_display_title(&self, worker: &ObserverWorker) -> (text: String)
        ensures
            text@ == self@.title_of(worker@),
    {
        let title = match worker.human_display_title() {
            Some(title) => title,
            None => {
                return worker.display_title();
            },
        };
        let ghost all = self@.workers;
        let mut shared: Vec<SessionId> = Vec::new();
        let mut i: usize = 0;
        assert(all.take(0) =~= Seq::empty());
        assert(uuids(shared@) =~= Seq::empty());
        while i < self.workers.len()
            invariant
                i <= self.workers@.len(),
                all == worker_views(self.workers@),
                uuids(shared@) == titled_uuids(all.take(i as int), title@),
            decreases self.workers.len() - i,
        {
            let other = &self.workers[i];
            assert(all.take(i + 1).drop_last() =~= all.take(i as int));
            assert(all.take(i + 1).last() == other@);
            let same = match other.human_display_title() {
                Some(text) => same_text(text.as_str(), title.as_str()),
                None => false,
            };
            if same {
                if let Ok(id) = SessionId::from_str(other.id.as_str()) {
                    let ghost before = shared@;
                    shared.push(id);
                    assert(uuids(shared@) =~= uuids(before).push(id@));
                }
            }
            i += 1;
        }
        assert(all.take(all.len() as int) =~= all);
        if shared.len() < 2 {
            return title;
        }
        match SessionId::from_str(worker.id.as_str()) {
            Err(_) => title,
            Ok(id) => {
                let width = least_telling_width(&shared);
                title.concat(" · ").concat(id.reference_token(width).as_str())
            },
        }
    }

    /// Moves the selection to the worker at `index`.
    fn select(&mut self, index: usize)
        requires
            old(self).well_formed(),
            index < old(self)@.workers.len(),
        ensures
            final(self).well_formed(),
            final(self)@ == old(self)@.select(index as int),
    {
        proof {
            lemma_find_own(self@.workers, index as int);
        }
        self.selected_id = Some(self.workers[index].id.clone());
    }

    /// Moves the selection by one worker.
    fn select_offset(&mut self, forward: bool)
        requires
            old(self).well_formed(),
        ensures
            final(self).well_formed(),
            final(self)@ == old(self)@.moved(
                if forward {
                    1
                } else {
                    -1
                },
            ),
    {
        if self.workers.len() == 0 {
            return;
        }
        let current: usize = match self.selected_index() {
            Some(index) => index,
            None => 0,
        };
        let next: usize = if !forward {
            current.saturating_sub(1)
        } else if current + 1 < self.workers.len() {
            current + 1
        } else {
            self.workers.len() - 1
        };
        self.select(next);
    }

    /// Moves the selection by one page.
    fn select_page_offset(&mut self, forward: bool)
        requires
            old(self).well_formed(),
        ensures
            final(self).well_formed(),
            final(self)@ == old(self)@.paged(
                if forward {
                    1
                } else {
                    -1
                },
            ),
    {
        if self.workers.len() == 0 {
            return;
        }
        let page: usize = self.page();
        let last_page: usize = self.page_count() - 1;
        let next_page: usize = if !forward {
            page.saturating_sub(1)
        } else if page < last_page {
            page + 1
        } else {
            last_page
        };
        let first: usize = next_page * WORKERS_PER_PAGE;
        let index: usize = if first < self.workers.len() {
            first
        } else {
            self.workers.len() - 1
        };
        self.select(index);
    }

    /// Replaces the notice by `text`.
    fn say(&mut self, text: &str)
        requires
            old(self).well_formed(),
        ensures
            final(self).well_formed(),
            final(self)@ == old(self)@.notify(text@),
    {
        self.notice = Some(text.to_owned());
    }

    /// Marks the worker at `index` as a prompt destination, or unmarks it.
    fn toggle(&mut self, index: usize)
        requires
            old(self).well_formed(),
            index < old(self)@.workers.len(),
            find_worker(old(self)@.workers, old(self)@.workers[index as int].id) is Some,
        ensures
            final(self).well_formed(),
            final(self)@ == old(self)@.toggled(index as int),
    {
        let ghost before = views(self.prompt_targets@);
        let ghost known = self@;
        let id = self.workers[index].id.clone();
        assert(known.workers[index as int].id == id@);
        proof {
            before.unique_seq_to_set();
        }
        let mut i: usize = 0;
        while i < self.prompt_targets.len()
            invariant
                i <= self.prompt_targets@.len(),
                known == old(self)@,
                self@ == known,
                self.well_formed(),
                before == views(self.prompt_targets@),
                index < known.workers.len(),
                known.workers[index as int].id == id@,
                forall|j: int| 0 <= j < i ==> #[trigger] before[j] != id@,
            decreases self.prompt_targets.len() - i,
        {
            if same_text(self.prompt_targets[i].as_str(), id.as_str()) {
                proof {
                    lemma_remove_target(before, i as int);
                    assert(before[i as int] == id@);
                    assert(known.targets.contains(id@));
                }
                self.prompt_targets.remove(i);
                self.notice = None;
                proof {
                    assert(views(self.prompt_targets@) =~= before.remove(i as int));
                    assert(self@.targets == known.targets.remove(id@));
                    assert(self@ == known.toggled(index as int));
                }
                return;
            }
            i += 1;
        }
        assert(!known.targets.contains(id@));
        if !self.workers[index].can_prompt() {
            self.say("Prompt requires exact-owned, authorized, IDLE or DONE agent");
        } else if self.prompt_targets.len() >= MAX_PROMPT_TARGETS {
            self.say("At most 8 prompt destinations may be selected");
        } else {
            proof {
                lemma_push_target(before, id@);
            }
            let ghost shown = id@;
            self.prompt_targets.push(id);
            self.notice = None;
            assert(views(self.prompt_targets@) =~= before.push(shown));
        }
    }

    /// Marks the selected worker as the prompt destination, if none is marked
    /// and it may be sent a prompt.
    fn take_default_target(&mut self)
        requires
            old(self).well_formed(),
        ensures
            final(self).well_formed(),
            final(self)@ == old(self)@.with_default_target(),
    {
        let ghost before = views(self.prompt_targets@);
        proof {
            before.unique_seq_to_set();
        }
        if self.prompt_targets.len() != 0 {
            return;
        }
        if let Some(index) = self.selected_index() {
            if self.workers[index].can_prompt() {
                proof {
                    find_worker_finds(self@.workers, self@.selected->0);
                    lemma_push_target(before, self@.workers[index as int].id);
                }
                let id = self.workers[index].id.clone();
                let ghost shown = id@;
                self.prompt_targets.push(id);
                assert(views(self.prompt_targets@) =~= before.push(shown));
            }
        }
    }

    /// Applies an action and says what it asks of the application.
    pub fn apply(&mut self, action: ObserverAction) -> (outcome: ObserverOutcome)
        requires
            old(self).well_formed(),
        ensures
            final(self).well_formed(),
            final(self)@ == old(self)@.applied(action).0,
            outcome@ == old(self)@.applied(action).1,
    {
        let selected = self.selected_index();
        proof {
            if self@.selected is Some {
                find_worker_finds(self@.workers, self@.selected->0);
            }
        }
        match action {
            ObserverAction::PreviousWorker => self.select_offset(false),
            ObserverAction::NextWorker => self.select_offset(true),
            ObserverAction::PreviousPage => self.select_page_offset(false),
            ObserverAction::NextPage => self.select_page_offset(true),
            ObserverAction::Refresh => {
                return ObserverOutcome::Refresh;
            },
            ObserverAction::Quit => {
                return ObserverOutcome::Quit;
            },
            ObserverAction::OpenSelected => {
                if let Some(index) = selected {
                    let worker_id = self.workers[index].id.clone();
                    return if self.workers[index].can_open() {
                        ObserverOutcome::OpenSelected { worker_id }
                    } else {
                        ObserverOutcome::OpenUnavailable { worker_id }
                    };
                }
            },
            ObserverAction::TogglePromptTarget => {
                if let Some(index) = selected {
                    self.toggle(index);
                }
            },
            ObserverAction::ComposePrompt => {
                self.take_default_target();
                let worker_ids = self.prompt_target_ids();
                if worker_ids.len() == 0 {
                    self.say("Select at least one prompt-authorized IDLE or DONE agent");
                } else {
                    return ObserverOutcome::ComposePrompt { worker_ids };
                }
            },
            ObserverAction::FocusSelected => {
                if let Some(index) = selected {
                    if self.workers[index].can_focus() {
                        return ObserverOutcome::FocusSelected {
                            worker_id: self.workers[index].id.clone(),
                        };
                    }
                }
                self.say("Focus requires an exact live agent with interactive-open permission");
            },
            ObserverAction::WaitSelected => {
                if let Some(index) = selected {
                    if self.workers[index].can_observe_agent() {
                        return ObserverOutcome::WaitSelected {
                            worker_id: self.workers[index].id.clone(),
                        };
                    }
                }
                self.say("Wait requires an exact live agent with observation permission");
            },
            ObserverAction::ReadSelected => {
                if let Some(index) = selected {
                    if self.workers[index].can_observe_agent() {
                        return ObserverOutcome::ReadSelected {
                            worker_id: self.workers[index].id.clone(),
                        };
                    }
                }
                self.say("Read requires an exact live agent with observation permission");
            },
            ObserverAction::ExplainSelected => {
                if let Some(index) = selected {
                    if self.workers[index].can_observe_agent() {
                        return ObserverOutcome::ExplainSelected {
                            worker_id: self.workers[index].id.clone(),
                        };
                    }
                }
                self.say("Explain requires an exact live agent with observation permission");
            },
        }
        ObserverOutcome::Nothing
    }
}

/// The contents of a well-formed observer are well formed.
pub proof fn observer_contents_are_well_formed(state: ObserverState)
    requires
        state.well_formed(),
    ensures
        state@.well_formed(),
{
}

/// The UUID of each identifier.
pub open spec fn uuids(ids: Seq<SessionId>) -> Seq<u128> {
    ids.map_values(|id: SessionId| id@)
}

/// Whether references of the given width tell all of `ids` apart.
fn all_told_apart(ids: &Vec<SessionId>, width: usize) -> (r: bool)
    requires
        width <= 32,
    ensures
        r == tells_apart(uuids(ids@), width as int),
{
    let ghost all = uuids(ids@);
    let mut j: usize = 0;
    while j < ids.len()
        invariant
            j <= ids@.len(),
            width <= 32,
            all == uuids(ids@),
            forall|a: int, b: int|
                0 <= a < b < j ==> reference_token_text(#[trigger] all[a], width as int)
                    != reference_token_text(#[trigger] all[b], width as int),
        decreases ids.len() - j,
    {
        let token = ids[j].reference_token(width);
        let mut i: usize = 0;
        while i < j
            invariant
                i <= j < ids@.len(),
                width <= 32,
                all == uuids(ids@),
                token@ == reference_token_text(all[j as int], width as int),
                forall|a: int|
                    0 <= a < i ==> reference_token_text(#[trigger] all[a], width as int) != token@,
            decreases j - i,
        {
            let earlier = ids[i].reference_token(width);
            if same_text(earlier.as_str(), token.as_str()) {
                assert(reference_token_text(all[i as int], width as int) == reference_token_text(
                    all[j as int],
                    width as int,
                ));
                return false;
            }
            i += 1;
        }
        j += 1;
    }
    true
}

/// The least width at which references tell all of `ids` apart.
fn least_telling_width(ids: &Vec<SessionId>) -> (width: usize)
    ensures
        width == telling_width(uuids(ids@), SessionId::SHORT_REFERENCE_WIDTH as int),
        width <= 32,
{
    let mut width: usize = SessionId::SHORT_REFERENCE_WIDTH;
    while width < SessionId::MAX_REFERENCE_WIDTH
        invariant
            width <= 32,
            telling_width(uuids(ids@), SessionId::SHORT_REFERENCE_WIDTH as int) == telling_width(
                uuids(ids@),
                width as int,
            ),
        decreases 32 - width,
    {
        if all_told_apart(ids, width) {
            return width;
        }
        width += 1;
    }
    SessionId::MAX_REFERENCE_WIDTH
}

} // verus!
