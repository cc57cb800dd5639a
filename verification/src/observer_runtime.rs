//! What the observer's loop decides: which keys count, which captures are
//! still authorized, when a worker may be opened, and how the terminal is
//! left.

use vstd::prelude::*;
use vstd::string::*;

use crate::model::{
    session_id_text, OrchestrationGroupId, OrchestrationMembershipId, OwnershipProof, SessionId,
    TmuxSessionId,
};
use crate::observer::{
    worker_views, ObserverAction, ObserverAgentState, ObserverCapabilities, ObserverInputKind,
    ObserverKey, ObserverLifecycle, ObserverOutcome, ObserverState, ObserverView, ObserverWorker,
    OutcomeView, WorkerView, find_worker, find_worker_finds, observer_contents_are_well_formed,
    CaptureStatus, ObserverCapture,
};
use crate::state::{
    find_group, group_position, member_views, record_position, record_views, find_record,
    MemberView, OrchestrationCapabilities, OrchestrationGroup, OrchestrationMember, RecordView,
    SessionRecord, SessionStatus, State, StateView,
};
use crate::text::{contains_text, has_prefix, occurs, opt_view, same_text, views};

verus! {

/// How long an open keeps further opens of the same worker out, in nanoseconds.
pub const OBSERVER_OPEN_DEBOUNCE_NANOS: u64 = 500_000_000;

/// Keeps queued key presses from opening a worker again and again.
#[derive(Debug, PartialEq, Eq)]
pub struct ObserverOpenGate {
    last_completed: Option<(String, u64)>,
}

/// The contents of an [`ObserverOpenGate`]: the worker that was opened last and
/// the instant since which input must be quiet.
pub struct GateView {
    pub last: Option<(Seq<char>, u64)>,
}

impl View for ObserverOpenGate {
    type V = GateView;

    closed spec fn view(&self) -> GateView {
        GateView {
            last: match self.last_completed {
                Some((worker, at)) => Some((worker@, at)),
                None => None,
            },
        }
    }
}

impl GateView {
    /// An open of `worker` at `now` comes too soon.
    pub open spec fn too_soon(self, worker: Seq<char>, now: u64) -> bool {
        match self.last {
            Some((last, at)) => last == worker && now - at < OBSERVER_OPEN_DEBOUNCE_NANOS,
            None => false,
        }
    }

    /// What is remembered once `worker` was to be opened at `now`: an opening that comes too
    /// soon starts the quiet window anew.
    pub open spec fn asked(self, worker: Seq<char>, now: u64) -> GateView {
        if self.too_soon(worker, now) {
            GateView { last: Some((worker, now)) }
        } else {
            self
        }
    }
}

/// After an open, each request within the window of the one before it is
/// refused, however long the series lasts.
pub proof fn queued_opens_stay_refused(gate: GateView, worker: Seq<char>, first: u64, second: u64)
    requires
        gate.too_soon(worker, first),
        first <= second < first + OBSERVER_OPEN_DEBOUNCE_NANOS,
    ensures
        gate.asked(worker, first).too_soon(worker, second),
{
}

impl ObserverOpenGate {
    /// A gate that has seen no open.
    pub fn new() -> (gate: Self)
        ensures
            gate@ == (GateView { last: None }),
    {
        ObserverOpenGate { last_completed: None }
    }

    /// Whether an open of the worker at `now` comes too soon.
    pub fn suppresses(&mut self, worker_id: &str, now: u64) -> (r: bool)
        ensures
            r == old(self)@.too_soon(worker_id@, now),
            final(self)@ == old(self)@.asked(worker_id@, now),
    {
        let soon = match &self.last_completed {
            Some((worker, at)) => same_text(worker.as_str(), worker_id) && now.saturating_sub(*at)
                < OBSERVER_OPEN_DEBOUNCE_NANOS,
            None => false,
        };
        if soon {
            self.last_completed = Some((worker_id.to_owned(), now));
        }
        soon
    }

    /// Notes that an open of the worker was completed.
    pub fn record(&mut self, worker_id: &str, completed_at: u64)
        ensures
            final(self)@ == (GateView { last: Some((worker_id@, completed_at)) }),
    {
        self.last_completed = Some((worker_id.to_owned(), completed_at));
    }
}

/// A key as a terminal reports it.
#[derive(Clone, Copy, Debug, PartialEq, Eq, Structural)]
pub enum TerminalKeyCode {
    Up,
    Down,
    Left,
    Right,
    PageUp,
    PageDown,
    Tab,
    BackTab,
    Enter,
    Escape,
    Backspace,
    Char(char),
    Other,
}

/// Whether a key goes down, is held, or comes up.
#[derive(Clone, Copy, Debug, PartialEq, Eq, Structural)]
pub enum TerminalKeyKind {
    Press,
    Repeat,
    Release,
}

/// One key event of a terminal.
#[derive(Clone, Copy, Debug, PartialEq, Eq, Structural)]
pub struct TerminalKey {
    pub code: TerminalKeyCode,
    pub control: bool,
    pub alt: bool,
    pub kind: TerminalKeyKind,
}

/// The observer key of a terminal key.
pub open spec fn observer_key(code: TerminalKeyCode, control: bool) -> Option<ObserverKey> {
    if control && (code == TerminalKeyCode::Char('c') || code == TerminalKeyCode::Char('C')) {
        Some(ObserverKey::ControlC)
    } else {
        match code {
            TerminalKeyCode::Up => Some(ObserverKey::Up),
            TerminalKeyCode::Down => Some(ObserverKey::Down),
            TerminalKeyCode::Left => Some(ObserverKey::Left),
            TerminalKeyCode::Right => Some(ObserverKey::Right),
            TerminalKeyCode::PageUp => Some(ObserverKey::PageUp),
            TerminalKeyCode::PageDown => Some(ObserverKey::PageDown),
            TerminalKeyCode::Tab => Some(ObserverKey::Tab),
            TerminalKeyCode::BackTab => Some(ObserverKey::BackTab),
            TerminalKeyCode::Enter => Some(ObserverKey::Enter),
            TerminalKeyCode::Escape => Some(ObserverKey::Escape),
            TerminalKeyCode::Char(c) => Some(ObserverKey::Char(c)),
            TerminalKeyCode::Backspace => None,
            TerminalKeyCode::Other => None,
        }
    }
}

/// The observer key and kind of a key event. Releases and other keys count for
/// nothing.
pub fn observer_key_for_event(key: TerminalKey) -> (r: Option<(ObserverKey, ObserverInputKind)>)
    ensures
        r == match observer_key(key.code, key.control) {
            Some(observed) => match key.kind {
                TerminalKeyKind::Press => Some((observed, ObserverInputKind::Press)),
                TerminalKeyKind::Repeat => Some((observed, ObserverInputKind::Repeat)),
                TerminalKeyKind::Release => None,
            },
            None => None,
        },
{
    let kind = match key.kind {
        TerminalKeyKind::Press => ObserverInputKind::Press,
        TerminalKeyKind::Repeat => ObserverInputKind::Repeat,
        TerminalKeyKind::Release => {
            return None;
        },
    };
    if key.control && matches!(key.code, TerminalKeyCode::Char('c' | 'C')) {
        return Some((ObserverKey::ControlC, kind));
    }
    let observed = match key.code {
        TerminalKeyCode::Up => ObserverKey::Up,
        TerminalKeyCode::Down => ObserverKey::Down,
        TerminalKeyCode::Left => ObserverKey::Left,
        TerminalKeyCode::Right => ObserverKey::Right,
        TerminalKeyCode::PageUp => ObserverKey::PageUp,
        TerminalKeyCode::PageDown => ObserverKey::PageDown,
        TerminalKeyCode::Tab => ObserverKey::Tab,
        TerminalKeyCode::BackTab => ObserverKey::BackTab,
        TerminalKeyCode::Enter => ObserverKey::Enter,
        TerminalKeyCode::Escape => ObserverKey::Escape,
        TerminalKeyCode::Char(c) => ObserverKey::Char(c),
        TerminalKeyCode::Backspace | TerminalKeyCode::Other => {
            return None;
        },
    };
    Some((observed, kind))
}

/// What the notice says after a request to open was refused as too soon. A
/// failure stays visible.
pub open spec fn refused_notice(notice: Option<Seq<char>>) -> Seq<char> {
    if notice is Some && "Open failed:"@.is_prefix_of(notice->0) {
        if occurs(notice->0, "queued Enter ignored"@) {
            notice->0
        } else {
            notice->0 + " · queued Enter ignored; wait before retrying"@
        }
    } else {
        "Queued Enter ignored; wait before retrying"@
    }
}

/// Decides whether the selected worker is opened now, and says so.
pub fn begin_observer_open(
    observer: &mut ObserverState,
    gate: &mut ObserverOpenGate,
    worker_id: &str,
    now: u64,
) -> (proceed: bool)
    requires
        old(observer).well_formed(),
    ensures
        final(observer).well_formed(),
        proceed == !old(gate)@.too_soon(worker_id@, now),
        final(gate)@ == old(gate)@.asked(worker_id@, now),
        final(observer)@ == old(observer)@.notify(
            if proceed {
                "Opening selected worker…"@
            } else {
                refused_notice(old(observer)@.notice)
            },
        ),
{
    if gate.suppresses(worker_id, now) {
        let failure = match observer.notice() {
            Some(notice) => if has_prefix(notice, "Open failed:") {
                Some((notice.to_owned(), contains_text(notice, "queued Enter ignored")))
            } else {
                None
            },
            None => None,
        };
        let next = match failure {
            Some((notice, told)) => {
                if told {
                    notice
                } else {
                    notice.concat(" · queued Enter ignored; wait before retrying")
                }
            },
            None => "Queued Enter ignored; wait before retrying".to_owned(),
        };
        observer.set_notice(Some(next));
        return false;
    }
    observer.set_notice(Some("Opening selected worker…".to_owned()));
    true
}

/// Notes how an open ended.
pub fn finish_observer_open(
    observer: &mut ObserverState,
    gate: &mut ObserverOpenGate,
    worker_id: &str,
    now: u64,
    outcome: Result<(), String>,
)
    requires
        old(observer).well_formed(),
    ensures
        final(observer).well_formed(),
        final(gate)@ == (GateView { last: Some((worker_id@, now)) }),
        final(observer)@ == old(observer)@.notify(
            match outcome {
                Ok(_) => "Worker opened; queued Enter will be ignored briefly"@,
                Err(error) => "Open failed: "@ + error@,
            },
        ),
{
    gate.record(worker_id, now);
    let notice = match outcome {
        Ok(_) => "Worker opened; queued Enter will be ignored briefly".to_owned(),
        Err(error) => "Open failed: ".to_owned().concat(error.as_str()),
    };
    observer.set_notice(Some(notice));
}

/// Notes whether a refresh succeeded. A failure keeps everything that is shown.
pub fn apply_observer_refresh_result(observer: &mut ObserverState, refreshed: bool) -> (r: bool)
    requires
        old(observer).well_formed(),
    ensures
        r == refreshed,
        final(observer).well_formed(),
        final(observer)@ == if refreshed {
            ObserverView { notice: None, ..old(observer)@ }
        } else {
            old(observer)@.notify("Refresh failed; stale output retained · r retry · q back"@)
        },
{
    if refreshed {
        observer.set_notice(None);
        true
    } else {
        observer.set_notice(
            Some("Refresh failed; stale output retained · r retry · q back".to_owned()),
        );
        false
    }
}

/// What the loop does after an action.
#[derive(Debug, PartialEq, Eq)]
pub enum ObserverTurn {
    /// Draw again and wait for input.
    Wait,
    /// Read the metadata again.
    Refresh,
    /// Open the pane of a worker.
    Open { worker_id: String },
    /// Hand an agent request to the application.
    Agent(ObserverOutcome),
    Quit,
}

/// Takes one action: applies it, clears the notice unless a pane is to be
/// opened or cannot be, and says what follows.
pub fn observer_turn(observer: &mut ObserverState, action: ObserverAction) -> (turn: ObserverTurn)
    requires
        old(observer).well_formed(),
    ensures
        final(observer).well_formed(),
        ({
            let next = old(observer)@.applied(action).0;
            let quiet = ObserverView { notice: None, ..next };
            match old(observer)@.applied(action).1 {
                OutcomeView::Nothing => final(observer)@ == quiet && turn == (if next.page_number() != old(observer)@.page_number() {
                    ObserverTurn::Refresh
                } else {
                    ObserverTurn::Wait
                }),
                OutcomeView::Refresh => final(observer)@ == quiet && turn == ObserverTurn::Refresh,
                OutcomeView::Quit => final(observer)@ == quiet && turn == ObserverTurn::Quit,
                OutcomeView::OpenSelected(id) => final(observer)@ == next && turn is Open
                    && turn->worker_id@ == id,
                OutcomeView::OpenUnavailable(id) => final(observer)@ == next.notify(
                    "Worker "@ + id + " is not authorized, running, and exact-owned"@,
                ) && turn == ObserverTurn::Wait,
                other => final(observer)@ == quiet && turn is Agent && turn->Agent_0@ == other,
            }
        }),
{
    let page: usize = observer.page();
    let outcome = observer.apply(action);
    match outcome {
        ObserverOutcome::Nothing => {
            let moved = observer.page() != page;
            observer.set_notice(None);
            if moved {
                ObserverTurn::Refresh
            } else {
                ObserverTurn::Wait
            }
        },
        ObserverOutcome::Refresh => {
            observer.set_notice(None);
            ObserverTurn::Refresh
        },
        ObserverOutcome::Quit => {
            observer.set_notice(None);
            ObserverTurn::Quit
        },
        ObserverOutcome::OpenSelected { worker_id } => ObserverTurn::Open { worker_id },
        ObserverOutcome::OpenUnavailable { worker_id } => {
            observer.set_notice(
                Some(
                    "Worker ".to_owned().concat(worker_id.as_str()).concat(
                        " is not authorized, running, and exact-owned",
                    ),
                ),
            );
            ObserverTurn::Wait
        },
        other => {
            observer.set_notice(None);
            ObserverTurn::Agent(other)
        },
    }
}

/// A step that restores the terminal.
#[derive(Clone, Copy, Debug, PartialEq, Eq, Structural)]
pub enum CleanupStep {
    ShowCursor,
    LeaveAlternateScreen,
    DisableRawMode,
}

/// The step that follows `attempted`, or the first. A step that failed does
/// not keep the next one from being attempted.
pub fn restore_terminal(attempted: Option<(CleanupStep, bool)>) -> (next: Option<CleanupStep>)
    ensures
        next == match attempted {
            None => Some(CleanupStep::ShowCursor),
            Some((CleanupStep::ShowCursor, _)) => Some(CleanupStep::LeaveAlternateScreen),
            Some((CleanupStep::LeaveAlternateScreen, _)) => Some(CleanupStep::DisableRawMode),
            Some((CleanupStep::DisableRawMode, _)) => None,
        },
{
    match attempted {
        None => Some(CleanupStep::ShowCursor),
        Some((CleanupStep::ShowCursor, _)) => Some(CleanupStep::LeaveAlternateScreen),
        Some((CleanupStep::LeaveAlternateScreen, _)) => Some(CleanupStep::DisableRawMode),
        Some((CleanupStep::DisableRawMode, _)) => None,
    }
}

/// Everything that must stay the same for a capture to be shown: the exact
/// membership, its capabilities, and the exact running workload.
#[derive(Clone, Copy, Debug, PartialEq, Eq, Structural)]
pub struct CaptureFingerprint {
    pub membership_id: OrchestrationMembershipId,
    pub session_id: SessionId,
    pub ownership_proof: OwnershipProof,
    pub tmux_session_id: TmuxSessionId,
    pub capabilities: OrchestrationCapabilities,
}

/// The fingerprint under which a worker's capture is authorized.
#[derive(Debug, PartialEq, Eq)]
pub struct FingerprintEntry {
    pub worker_id: String,
    pub fingerprint: CaptureFingerprint,
}

/// A capture that was taken, and the fingerprint it was taken under.
#[derive(Debug, PartialEq, Eq)]
pub struct CapturedWorker {
    pub fingerprint: CaptureFingerprint,
    pub capture: Option<String>,
}

/// The captures of one page.
#[derive(Debug, PartialEq, Eq)]
pub struct CaptureResult {
    pub visible: Vec<String>,
    pub workers: Vec<CapturedWorker>,
}

/// The fingerprint under which the capture of a member's workload is
/// authorized: only while the exact workload is running.
pub open spec fn fingerprint_of(member: MemberView, record: RecordView) -> Option<
    CaptureFingerprint,
> {
    if record.exact_running() {
        Some(
            CaptureFingerprint {
                membership_id: member.membership_id,
                session_id: member.session_id,
                ownership_proof: record.ownership_proof->0,
                tmux_session_id: record.tmux_session_id->0,
                capabilities: member.capabilities,
            },
        )
    } else {
        None
    }
}

/// The fingerprint under which the capture of a member's workload is authorized.
pub fn capture_fingerprint(member: &OrchestrationMember, record: &SessionRecord) -> (r: Option<
    CaptureFingerprint,
>)
    ensures
        r == fingerprint_of(member@, record@),
{
    if record.status != SessionStatus::Running {
        return None;
    }
    match (record.ownership_proof, record.tmux_session_id) {
        (Some(ownership_proof), Some(tmux_session_id)) => Some(
            CaptureFingerprint {
                membership_id: member.membership_id,
                session_id: member.session_id,
                ownership_proof,
                tmux_session_id,
                capabilities: member.capabilities,
            },
        ),
        _ => None,
    }
}

/// The last record of a session.
pub open spec fn latest_record(records: Seq<RecordView>, id: SessionId) -> Option<RecordView>
    decreases records.len(),
{
    if records.len() == 0 {
        None
    } else if records.last().id == id {
        Some(records.last())
    } else {
        latest_record(records.drop_last(), id)
    }
}

/// The position of the last record of a session.
fn latest_position(records: &Vec<SessionRecord>, id: SessionId) -> (found: Option<usize>)
    ensures
        match found {
            Some(index) => index < records@.len() && latest_record(record_views(records@), id)
                == Some(records@[index as int]@),
            None => latest_record(record_views(records@), id) is None,
        },
{
    let ghost all = record_views(records@);
    let mut k: usize = records.len();
    assert(all.take(k as int) =~= all);
    while k > 0
        invariant
            k <= records@.len(),
            all == record_views(records@),
            latest_record(all, id) == latest_record(all.take(k as int), id),
        decreases k,
    {
        k -= 1;
        proof {
            assert(all.take(k + 1).drop_last() =~= all.take(k as int));
            assert(all.take(k + 1).last() == records@[k as int]@);
        }
        if records[k].id == id {
            return Some(k);
        }
    }
    None
}

/// A fingerprint with the text of its worker's identifier.
pub struct EntryView {
    pub worker_id: Seq<char>,
    pub fingerprint: CaptureFingerprint,
}

impl View for FingerprintEntry {
    type V = EntryView;

    open spec fn view(&self) -> EntryView {
        EntryView { worker_id: self.worker_id@, fingerprint: self.fingerprint }
    }
}

/// The contents of each entry.
pub open spec fn entry_views(entries: Seq<FingerprintEntry>) -> Seq<EntryView> {
    entries.map_values(|entry: FingerprintEntry| entry@)
}

/// The fingerprint of a worker: the last one entered for it.
pub open spec fn fingerprint_for(entries: Seq<EntryView>, worker_id: Seq<char>) -> Option<
    CaptureFingerprint,
>
    decreases entries.len(),
{
    if entries.len() == 0 {
        None
    } else if entries.last().worker_id == worker_id {
        Some(entries.last().fingerprint)
    } else {
        fingerprint_for(entries.drop_last(), worker_id)
    }
}

/// The fingerprint of a worker.
fn find_fingerprint(entries: &Vec<FingerprintEntry>, worker_id: &str) -> (found: Option<
    CaptureFingerprint,
>)
    ensures
        found == fingerprint_for(entry_views(entries@), worker_id@),
{
    let ghost all = entry_views(entries@);
    let mut k: usize = entries.len();
    assert(all.take(k as int) =~= all);
    while k > 0
        invariant
            k <= entries@.len(),
            all == entry_views(entries@),
            fingerprint_for(all, worker_id@) == fingerprint_for(all.take(k as int), worker_id@),
        decreases k,
    {
        k -= 1;
        proof {
            assert(all.take(k + 1).drop_last() =~= all.take(k as int));
            assert(all.take(k + 1).last() == entries@[k as int]@);
        }
        if same_text(entries[k].worker_id.as_str(), worker_id) {
            return Some(entries[k].fingerprint);
        }
    }
    None
}

/// The fingerprint of a member that allows observation of its running workload.
pub open spec fn authorized(member: MemberView, records: Seq<RecordView>) -> Option<
    CaptureFingerprint,
> {
    if !member.capabilities.observe_output {
        None
    } else {
        match latest_record(records, member.session_id) {
            Some(record) => fingerprint_of(member, record),
            None => None,
        }
    }
}

/// The fingerprints under which captures of a group are authorized.
pub open spec fn group_fingerprints(members: Seq<MemberView>, records: Seq<RecordView>) -> Seq<
    EntryView,
>
    decreases members.len(),
{
    if members.len() == 0 {
        Seq::empty()
    } else {
        let front = group_fingerprints(members.drop_last(), records);
        match authorized(members.last(), records) {
            Some(fingerprint) => front.push(
                EntryView { worker_id: session_id_text(members.last().session_id@), fingerprint },
            ),
            None => front,
        }
    }
}

/// The fingerprint of a member that allows observation of its running workload.
fn authorized_fingerprint(member: &OrchestrationMember, sessions: &Vec<SessionRecord>) -> (r: Option<
    CaptureFingerprint,
>)
    ensures
        r == authorized(member@, record_views(sessions@)),
{
    if !member.capabilities.observe_output {
        return None;
    }
    match latest_position(sessions, member.session_id) {
        Some(index) => capture_fingerprint(member, &sessions[index]),
        None => None,
    }
}

/// The fingerprints under which captures of a group are authorized.
pub fn capture_fingerprints_for(group: &OrchestrationGroup, sessions: &Vec<SessionRecord>) -> (entries:
    Vec<FingerprintEntry>)
    ensures
        entry_views(entries@) == group_fingerprints(group@.workers, record_views(sessions@)),
{
    let ghost members = group@.workers;
    let ghost records = record_views(sessions@);
    let mut entries: Vec<FingerprintEntry> = Vec::new();
    let mut i: usize = 0;
    assert(members.take(0) =~= Seq::empty());
    assert(entry_views(entries@) =~= Seq::empty());
    while i < group.workers.len()
        invariant
            i <= group.workers@.len(),
            members == member_views(group.workers@),
            records == record_views(sessions@),
            entry_views(entries@) == group_fingerprints(members.take(i as int), records),
        decreases group.workers.len() - i,
    {
        let member = &group.workers[i];
        assert(members.take(i + 1).drop_last() =~= members.take(i as int));
        assert(members.take(i + 1).last() == member@);
        if let Some(fingerprint) = authorized_fingerprint(member, sessions) {
            let ghost before = entries@;
            let entry = FingerprintEntry { worker_id: member.session_id.to_string(), fingerprint };
            let ghost shown = entry@;
            entries.push(entry);
            assert(entry_views(entries@) =~= entry_views(before).push(shown));
        }
        i += 1;
    }
    assert(members.take(members.len() as int) =~= members);
    entries
}

/// A worker of a group as the observer shows it.
pub open spec fn shown_member(member: MemberView, records: Seq<RecordView>) -> WorkerView {
    let record = latest_record(records, member.session_id);
    WorkerView {
        id: session_id_text(member.session_id@),
        title: member.title,
        capabilities: ObserverCapabilities {
            observe_output: member.capabilities.observe_output,
            open_interactive: member.capabilities.open_interactive,
            prompt_agent: member.capabilities.prompt_agent,
        },
        lifecycle: match record {
            None => ObserverLifecycle::Missing,
            Some(record) => match record.status {
                SessionStatus::Creating => ObserverLifecycle::Starting,
                SessionStatus::Running => ObserverLifecycle::Running,
                SessionStatus::Stopping => ObserverLifecycle::Stopping,
                SessionStatus::Ended => ObserverLifecycle::Ended,
                SessionStatus::Removed => ObserverLifecycle::Removed,
            },
        },
        agent_state: ObserverAgentState::Unknown,
        live_agent: false,
        owned: record is Some && record->0.ownership_proof is Some && record->0.tmux_session_id
            is Some,
        last_observed: None,
        latency_ms: None,
        incarnation: match record {
            Some(record) => record.tmux_session_id,
            None => None,
        },
        capture: None,
        sampled: false,
        stale_reason: None,
    }
}

/// The workers of a group as the observer shows them.
pub fn observer_workers(group: &OrchestrationGroup, sessions: &Vec<SessionRecord>) -> (workers: Vec<
    ObserverWorker,
>)
    ensures
        worker_views(workers@) == group@.workers.map_values(
            |member: MemberView| shown_member(member, record_views(sessions@)),
        ),
{
    let ghost records = record_views(sessions@);
    let ghost wanted = group@.workers.map_values(
        |member: MemberView| shown_member(member, records),
    );
    let mut workers: Vec<ObserverWorker> = Vec::new();
    let mut i: usize = 0;
    assert(worker_views(workers@) =~= wanted.take(0));
    while i < group.workers.len()
        invariant
            i <= group.workers@.len(),
            records == record_views(sessions@),
            wanted == group@.workers.map_values(
                |member: MemberView| shown_member(member, records),
            ),
            worker_views(workers@) == wanted.take(i as int),
        decreases group.workers.len() - i,
    {
        let member = &group.workers[i];
        let (lifecycle, owned, incarnation) = match latest_position(sessions, member.session_id) {
            Some(index) => {
                let record = &sessions[index];
                let lifecycle = match record.status {
                    SessionStatus::Creating => ObserverLifecycle::Starting,
                    SessionStatus::Running => ObserverLifecycle::Running,
                    SessionStatus::Stopping => ObserverLifecycle::Stopping,
                    SessionStatus::Ended => ObserverLifecycle::Ended,
                    SessionStatus::Removed => ObserverLifecycle::Removed,
                };
                (
                    lifecycle,
                    record.ownership_proof.is_some() && record.tmux_session_id.is_some(),
                    record.tmux_session_id,
                )
            },
            None => (ObserverLifecycle::Missing, false, None),
        };
        let title = match &member.title {
            Some(title) => Some(title.to_string()),
            None => None,
        };
        let worker = ObserverWorker {
            id: member.session_id.to_string(),
            title,
            capabilities: ObserverCapabilities {
                observe_output: member.capabilities.observe_output,
                open_interactive: member.capabilities.open_interactive,
                prompt_agent: member.capabilities.prompt_agent,
            },
            lifecycle,
            agent_state: ObserverAgentState::Unknown,
            live_agent: false,
            owned,
            last_observed: None,
            latency_ms: None,
            incarnation,
            capture: None,
            sampled: false,
            stale_reason: None,
        };
        let ghost before = workers@;
        let ghost shown = worker@;
        workers.push(worker);
        i += 1;
        assert(worker_views(workers@) =~= worker_views(before).push(shown));
        assert(shown == wanted[i - 1]);
        assert(wanted.take(i as int) =~= wanted.take(i - 1).push(shown));
    }
    assert(wanted.take(i as int) =~= wanted);
    workers
}

/// Whether two lists hold the same texts, in whatever order.
pub fn same_ids(a: &Vec<String>, b: &Vec<String>) -> (r: bool)
    ensures
        r == (views(a@).to_set() == views(b@).to_set()),
{
    let r = all_among(a, b) && all_among(b, a);
    proof {
        if r {
            assert(views(a@).to_set() =~= views(b@).to_set());
        }
    }
    r
}

/// Whether each text of `a` is among `b`.
fn all_among(a: &Vec<String>, b: &Vec<String>) -> (r: bool)
    ensures
        r == views(a@).to_set().subset_of(views(b@).to_set()),
{
    let ghost all = views(a@);
    let mut i: usize = 0;
    while i < a.len()
        invariant
            i <= a@.len(),
            all == views(a@),
            forall|j: int| 0 <= j < i ==> views(b@).contains(#[trigger] all[j]),
        decreases a.len() - i,
    {
        if !is_among(b, a[i].as_str()) {
            assert(all.to_set().contains(all[i as int]));
            return false;
        }
        i += 1;
    }
    true
}

/// Whether `text` is among `texts`.
fn is_among(texts: &Vec<String>, text: &str) -> (r: bool)
    ensures
        r == views(texts@).contains(text@),
{
    let ghost all = views(texts@);
    let mut i: usize = 0;
    while i < texts.len()
        invariant
            i <= texts@.len(),
            all == views(texts@),
            forall|j: int| 0 <= j < i ==> #[trigger] all[j] != text@,
        decreases texts.len() - i,
    {
        if same_text(texts[i].as_str(), text) {
            assert(all[i as int] == text@);
            return true;
        }
        i += 1;
    }
    false
}

/// The identifiers of the visible workers.
pub fn visible_worker_ids(observer: &ObserverState) -> (ids: Vec<String>)
    requires
        observer.well_formed(),
    ensures
        views(ids@) == observer@.visible().map_values(|worker: WorkerView| worker.id),
{
    let workers = observer.visible_workers();
    let ghost wanted = observer@.visible().map_values(|worker: WorkerView| worker.id);
    let mut ids: Vec<String> = Vec::new();
    let mut i: usize = 0;
    assert(views(ids@) =~= wanted.take(0));
    while i < workers.len()
        invariant
            i <= workers@.len(),
            wanted == worker_views(workers@).map_values(|worker: WorkerView| worker.id),
            views(ids@) == wanted.take(i as int),
        decreases workers.len() - i,
    {
        let ghost before = ids@;
        ids.push(workers[i].id.clone());
        assert(views(ids@) =~= views(before).push(workers@[i as int].id@));
        i += 1;
        assert(wanted.take(i as int) =~= wanted.take(i - 1).push(wanted[i - 1]));
    }
    assert(wanted.take(i as int) =~= wanted);
    ids
}

/// A supplied worker with the capture that the observer holds of it, if the
/// fingerprint of the worker has not changed.
pub open spec fn with_kept_capture(
    observer: ObserverView,
    previous: Seq<EntryView>,
    current: Seq<EntryView>,
    worker: WorkerView,
) -> WorkerView {
    let known = observer.worker_with(worker.id);
    if same_epoch(previous, current, worker.id) && known is Some && known->0.capture is Some {
        WorkerView { capture: known->0.capture, ..worker }
    } else {
        worker
    }
}

/// Whether two optional fingerprints are the same.
fn same_fingerprint(a: Option<CaptureFingerprint>, b: Option<CaptureFingerprint>) -> (r: bool)
    ensures
        r == (a == b),
{
    match (a, b) {
        (Some(a), Some(b)) => a == b,
        (None, None) => true,
        _ => false,
    }
}

/// The worker of the observer with the given identifier.
fn known_worker<'a>(observer: &'a ObserverState, id: &str) -> (found: Option<&'a ObserverWorker>)
    ensures
        match found {
            Some(worker) => observer@.worker_with(id@) == Some(worker@),
            None => observer@.worker_with(id@) is None,
        },
{
    let workers = observer.workers();
    let ghost all = worker_views(workers@);
    let mut i: usize = 0;
    while i < workers.len()
        invariant
            i <= workers@.len(),
            all == worker_views(workers@),
            all == observer@.workers,
            forall|j: int| 0 <= j < i ==> (#[trigger] all[j]).id != id@,
        decreases workers.len() - i,
    {
        if same_text(workers[i].id.as_str(), id) {
            proof {
                find_worker_finds(all, id@);
                assert(all[i as int].id == id@);
            }
            return Some(&workers[i]);
        }
        i += 1;
    }
    proof {
        find_worker_finds(all, id@);
    }
    None
}

/// The fingerprint of a worker has not changed.
pub open spec fn same_epoch(previous: Seq<EntryView>, current: Seq<EntryView>, id: Seq<char>) -> bool {
    fingerprint_for(previous, id) == fingerprint_for(current, id)
}

/// An observer without the captures that were taken in another epoch: a worker
/// whose fingerprint has changed is loading again.
pub open spec fn within_epoch(
    observer: ObserverView,
    previous: Seq<EntryView>,
    current: Seq<EntryView>,
) -> ObserverView {
    ObserverView {
        workers: observer.workers.map_values(
            |worker: WorkerView|
                if same_epoch(previous, current, worker.id) {
                    worker
                } else {
                    WorkerView { capture: None, sampled: false, ..worker }
                },
        ),
        statuses: Seq::new(
            observer.statuses.len(),
            |i: int|
                if same_epoch(previous, current, observer.workers[i].id) {
                    observer.statuses[i]
                } else {
                    CaptureStatus::Loading
                },
        ),
        ..observer
    }
}

/// Forgets the captures that were taken in another epoch.
fn forget_other_epochs(
    observer: &mut ObserverState,
    previous: &Vec<FingerprintEntry>,
    current: &Vec<FingerprintEntry>,
)
    requires
        old(observer).well_formed(),
    ensures
        final(observer).well_formed(),
        final(observer)@ == within_epoch(
            old(observer)@,
            entry_views(previous@),
            entry_views(current@),
        ),
{
    let ghost known = observer@;
    let ghost wanted = within_epoch(known, entry_views(previous@), entry_views(current@));
    let count: usize = observer.workers().len();
    let mut i: usize = 0;
    proof {
        observer_contents_are_well_formed(*observer);
    }
    while i < count
        invariant
            i <= count == known.workers.len() == known.statuses.len(),
            observer.well_formed(),
            known.well_formed(),
            wanted == within_epoch(known, entry_views(previous@), entry_views(current@)),
            observer@ == (ObserverView {
                workers: wanted.workers.take(i as int) + known.workers.skip(i as int),
                statuses: wanted.statuses.take(i as int) + known.statuses.skip(i as int),
                ..known
            }),
        decreases count - i,
    {
        let ghost shown = observer@;
        let id = observer.workers()[i].id.clone();
        proof {
            observer_contents_are_well_formed(*observer);
            assert(shown.workers[i as int] == known.workers[i as int]);
            assert(shown.workers[i as int].id == id@);
            find_worker_finds(shown.workers, id@);
            let found = find_worker(shown.workers, id@)->0;
            if found < i {
                assert(shown.workers[found].id == known.workers[found].id);
                assert(known.workers[found].id != known.workers[i as int].id);
            }
            assert(found == i);
        }
        let unchanged = same_fingerprint(
            find_fingerprint(previous, id.as_str()),
            find_fingerprint(current, id.as_str()),
        );
        if !unchanged {
            observer.merge_capture(id.as_str(), ObserverCapture::Loading);
        }
        i += 1;
        assert(observer@.workers =~= wanted.workers.take(i as int) + known.workers.skip(i as int));
        assert(observer@.statuses =~= wanted.statuses.take(i as int) + known.statuses.skip(
            i as int,
        ));
    }
    assert(observer@.workers =~= wanted.workers);
    assert(observer@.statuses =~= wanted.statuses);
}

/// Replaces the workers from fresh metadata. A capture is kept exactly within
/// the epoch that it was taken in.
pub fn update_observer_metadata(
    observer: &mut ObserverState,
    previous: &Vec<FingerprintEntry>,
    current: &Vec<FingerprintEntry>,
    workers: Vec<ObserverWorker>,
)
    requires
        old(observer).well_formed(),
    ensures
        final(observer).well_formed(),
        final(observer)@ == within_epoch(
            old(observer)@,
            entry_views(previous@),
            entry_views(current@),
        ).updated(
            worker_views(workers@).map_values(
                |worker: WorkerView|
                    with_kept_capture(
                        old(observer)@,
                        entry_views(previous@),
                        entry_views(current@),
                        worker,
                    ),
            ),
        ),
{
    let ghost known = observer@;
    let ghost before = entry_views(previous@);
    let ghost after = entry_views(current@);
    let ghost wanted = worker_views(workers@).map_values(
        |worker: WorkerView| with_kept_capture(known, before, after, worker),
    );
    let mut next: Vec<ObserverWorker> = Vec::new();
    let mut i: usize = 0;
    assert(worker_views(next@) =~= wanted.take(0));
    while i < workers.len()
        invariant
            i <= workers@.len(),
            observer@ == known,
            observer.well_formed(),
            known == old(observer)@,
            before == entry_views(previous@),
            after == entry_views(current@),
            wanted == worker_views(workers@).map_values(
                |worker: WorkerView| with_kept_capture(known, before, after, worker),
            ),
            worker_views(next@) == wanted.take(i as int),
        decreases workers.len() - i,
    {
        let mut worker = workers[i].clone();
        let unchanged = same_fingerprint(
            find_fingerprint(previous, worker.id.as_str()),
            find_fingerprint(current, worker.id.as_str()),
        );
        if unchanged {
            if let Some(shown) = known_worker(observer, worker.id.as_str()) {
                if let Some(capture) = &shown.capture {
                    worker.capture = Some(capture.clone());
                }
            }
        }
        let ghost listed = next@;
        let ghost added = worker@;
        next.push(worker);
        i += 1;
        assert(worker_views(next@) =~= worker_views(listed).push(added));
        assert(added == wanted[i - 1]);
        assert(wanted.take(i as int) =~= wanted.take(i - 1).push(added));
    }
    assert(wanted.take(i as int) =~= wanted);
    forget_other_epochs(observer, previous, current);
    observer.update_workers(next);
}

/// A capture is never shown beyond the epoch that it was taken in: a worker
/// whose fingerprint has changed, and that comes without a capture, has none.
pub proof fn captures_do_not_outlive_their_epoch(
    observer: ObserverView,
    previous: Seq<EntryView>,
    current: Seq<EntryView>,
    worker: WorkerView,
)
    requires
        observer.well_formed(),
        worker.capture is None,
        !same_epoch(previous, current, worker.id),
    ensures
        ({
            let kept = with_kept_capture(observer, previous, current, worker);
            within_epoch(observer, previous, current).refreshed(kept).0.capture is None
        }),
{
    let next = within_epoch(observer, previous, current);
    find_worker_finds(next.workers, worker.id);
    if find_worker(next.workers, worker.id) is Some {
        let at = find_worker(next.workers, worker.id)->0;
        assert(next.workers[at].id == observer.workers[at].id);
    }
}

/// A capture that may be shown: its worker is on the page, and its fingerprint
/// is the current one in full.
pub open spec fn capture_counts(
    visible: Set<Seq<char>>,
    current: Seq<EntryView>,
    fingerprint: CaptureFingerprint,
) -> bool {
    let id = session_id_text(fingerprint.session_id@);
    visible.contains(id) && fingerprint_for(current, id) == Some(fingerprint)
}

/// Workers with one capture merged in, if it may be shown.
pub open spec fn with_capture(
    workers: Seq<WorkerView>,
    visible: Set<Seq<char>>,
    current: Seq<EntryView>,
    captured: CapturedWorker,
) -> Seq<WorkerView> {
    match find_worker(workers, session_id_text(captured.fingerprint.session_id@)) {
        Some(index) => if capture_counts(visible, current, captured.fingerprint) {
            workers.update(
                index,
                WorkerView { capture: opt_view(captured.capture), ..workers[index] },
            )
        } else {
            workers
        },
        None => workers,
    }
}

/// Workers with captures merged in, one after the other.
pub open spec fn with_captures(
    workers: Seq<WorkerView>,
    visible: Set<Seq<char>>,
    current: Seq<EntryView>,
    captured: Seq<CapturedWorker>,
) -> Seq<WorkerView>
    decreases captured.len(),
{
    if captured.len() == 0 {
        workers
    } else {
        with_capture(
            with_captures(workers, visible, current, captured.drop_last()),
            visible,
            current,
            captured.last(),
        )
    }
}

/// Merges captures into the observer. Each one counts only while the
/// membership, its capabilities and the exact workload are still those under
/// which it was taken.
pub fn merge_captured_workers(
    state: &State,
    group_id: &OrchestrationGroupId,
    observer: &mut ObserverState,
    result: CaptureResult,
)
    requires
        old(observer).well_formed(),
    ensures
        final(observer).well_formed(),
        final(observer)@ == match find_group(state@.groups, group_id@) {
            None => old(observer)@,
            Some(index) => old(observer)@.updated(
                with_captures(
                    old(observer)@.workers,
                    views(result.visible@).to_set(),
                    group_fingerprints(state@.groups[index].workers, state@.sessions),
                    result.workers@,
                ),
            ),
        },
{
    let index = match group_position(&state.orchestration_groups, group_id) {
        Some(index) => index,
        None => {
            return;
        },
    };
    let current = capture_fingerprints_for(&state.orchestration_groups[index], &state.sessions);
    let ghost entries = entry_views(current@);
    let ghost visible = views(result.visible@).to_set();
    let shown = observer.workers();
    let mut workers: Vec<ObserverWorker> = Vec::new();
    let mut i: usize = 0;
    let ghost all = observer@.workers;
    assert(worker_views(workers@) =~= all.take(0));
    while i < shown.len()
        invariant
            i <= shown@.len(),
            all == worker_views(shown@),
            worker_views(workers@) == all.take(i as int),
        decreases shown.len() - i,
    {
        let ghost listed = workers@;
        let worker = shown[i].clone();
        let ghost added = worker@;
        workers.push(worker);
        i += 1;
        assert(worker_views(workers@) =~= worker_views(listed).push(added));
        assert(all.take(i as int) =~= all.take(i - 1).push(added));
    }
    assert(all.take(i as int) =~= all);
    let ghost captured = result.workers@;
    let mut k: usize = 0;
    assert(captured.take(0) =~= Seq::empty());
    while k < result.workers.len()
        invariant
            k <= result.workers@.len(),
            captured == result.workers@,
            entries == entry_views(current@),
            visible == views(result.visible@).to_set(),
            worker_views(workers@) == with_captures(all, visible, entries, captured.take(k as int)),
        decreases result.workers.len() - k,
    {
        let taken = &result.workers[k];
        proof {
            assert(captured.take(k + 1).drop_last() =~= captured.take(k as int));
            assert(captured.take(k + 1).last() == *taken);
        }
        let id = taken.fingerprint.session_id.to_string();
        let counts = is_among(&result.visible, id.as_str()) && same_fingerprint(
            find_fingerprint(&current, id.as_str()),
            Some(taken.fingerprint),
        );
        let ghost before = worker_views(workers@);
        let mut at: usize = 0;
        while at < workers.len() && !same_text(workers[at].id.as_str(), id.as_str())
            invariant
                at <= workers@.len(),
                before == worker_views(workers@),
                forall|j: int| 0 <= j < at ==> (#[trigger] before[j]).id != id@,
            decreases workers.len() - at,
        {
            at += 1;
        }
        proof {
            find_worker_finds(before, id@);
            if at < workers@.len() {
                assert(before[at as int].id == id@);
            }
        }
        if at < workers.len() && counts {
            let mut worker = workers[at].clone();
            worker.capture = match &taken.capture {
                Some(text) => Some(text.clone()),
                None => None,
            };
            let ghost added = worker@;
            workers.set(at, worker);
            assert(worker_views(workers@) =~= before.update(at as int, added));
        }
        k += 1;
    }
    assert(captured.take(k as int) =~= captured);
    observer.update_workers(workers);
}

/// A capture to take: the fingerprint it is taken under, and the machine that
/// the workload runs on.
#[derive(Debug, PartialEq, Eq)]
pub struct CapturePlan {
    pub fingerprint: CaptureFingerprint,
    pub target: String,
}

/// The contents of a [`CapturePlan`].
pub struct PlanView {
    pub fingerprint: CaptureFingerprint,
    pub target: Seq<char>,
}

impl View for CapturePlan {
    type V = PlanView;

    open spec fn view(&self) -> PlanView {
        PlanView { fingerprint: self.fingerprint, target: self.target@ }
    }
}

/// The contents of each plan.
pub open spec fn plan_views(plans: Seq<CapturePlan>) -> Seq<PlanView> {
    plans.map_values(|plan: CapturePlan| plan@)
}

/// The captures to take: of each visible worker whose capture is authorized.
pub open spec fn planned_captures(
    members: Seq<MemberView>,
    records: Seq<RecordView>,
    visible: Set<Seq<char>>,
) -> Seq<PlanView>
    decreases members.len(),
{
    if members.len() == 0 {
        Seq::empty()
    } else {
        let front = planned_captures(members.drop_last(), records, visible);
        let member = members.last();
        match authorized(member, records) {
            Some(fingerprint) => if visible.contains(session_id_text(member.session_id@)) {
                front.push(
                    PlanView {
                        fingerprint,
                        target: latest_record(records, member.session_id)->0.target,
                    },
                )
            } else {
                front
            },
            None => front,
        }
    }
}

/// The captures to take for a page.
pub fn captured_workers(
    group: &OrchestrationGroup,
    sessions: &Vec<SessionRecord>,
    visible: &Vec<String>,
) -> (plans: Vec<CapturePlan>)
    ensures
        plan_views(plans@) == planned_captures(
            group@.workers,
            record_views(sessions@),
            views(visible@).to_set(),
        ),
{
    let ghost members = group@.workers;
    let ghost records = record_views(sessions@);
    let ghost page = views(visible@).to_set();
    let mut plans: Vec<CapturePlan> = Vec::new();
    let mut i: usize = 0;
    assert(members.take(0) =~= Seq::empty());
    assert(plan_views(plans@) =~= Seq::empty());
    while i < group.workers.len()
        invariant
            i <= group.workers@.len(),
            members == member_views(group.workers@),
            records == record_views(sessions@),
            page == views(visible@).to_set(),
            plan_views(plans@) == planned_captures(members.take(i as int), records, page),
        decreases group.workers.len() - i,
    {
        let member = &group.workers[i];
        assert(members.take(i + 1).drop_last() =~= members.take(i as int));
        assert(members.take(i + 1).last() == member@);
        if let Some(fingerprint) = authorized_fingerprint(member, sessions) {
            let id = member.session_id.to_string();
            if is_among(visible, id.as_str()) {
                if let Some(index) = latest_position(sessions, member.session_id) {
                    let ghost before = plans@;
                    let plan = CapturePlan { fingerprint, target: sessions[index].target.clone() };
                    let ghost added = plan@;
                    plans.push(plan);
                    assert(plan_views(plans@) =~= plan_views(before).push(added));
                }
            }
        }
        i += 1;
    }
    assert(members.take(members.len() as int) =~= members);
    plans
}

/// The text of a capture, or why there is none.
pub fn capture_text(outcome: Result<String, String>) -> (text: String)
    ensures
        text@ == match outcome {
            Ok(capture) => capture@,
            Err(error) => "[capture unavailable: "@ + error@ + "]"@,
        },
{
    match outcome {
        Ok(capture) => capture,
        Err(error) => "[capture unavailable: ".to_owned().concat(error.as_str()).concat("]"),
    }
}

/// Why a worker is not opened.
#[derive(Clone, Copy, Debug, PartialEq, Eq, Structural)]
pub enum OpenWorkerError {
    GroupDeleted,
    NotMember,
    NotAllowed,
    SessionMissing,
    NotRunning,
}

impl OpenWorkerError {
    /// What went wrong, for a reader.
    pub open spec fn text(self, group: Seq<char>, worker: Seq<char>) -> Seq<char> {
        match self {
            OpenWorkerError::GroupDeleted => "orchestration group `"@ + group + "` was deleted"@,
            OpenWorkerError::NotMember => "worker `"@ + worker + "` is no longer a member of `"@
                + group + "`"@,
            OpenWorkerError::NotAllowed => "worker `"@ + worker
                + "` does not allow interactive open"@,
            OpenWorkerError::SessionMissing => "worker session `"@ + worker + "` is missing"@,
            OpenWorkerError::NotRunning => "worker session `"@ + worker
                + "` is not a running exact-owned session"@,
        }
    }

    /// What went wrong, for a reader.
    pub fn message(self, group: &OrchestrationGroupId, worker: &str) -> (text: String)
        ensures
            text@ == self.text(group@, worker@),
    {
        match self {
            OpenWorkerError::GroupDeleted => "orchestration group `".to_owned().concat(
                group.as_str(),
            ).concat("` was deleted"),
            OpenWorkerError::NotMember => "worker `".to_owned().concat(worker).concat(
                "` is no longer a member of `",
            ).concat(group.as_str()).concat("`"),
            OpenWorkerError::NotAllowed => "worker `".to_owned().concat(worker).concat(
                "` does not allow interactive open",
            ),
            OpenWorkerError::SessionMissing => "worker session `".to_owned().concat(worker).concat(
                "` is missing",
            ),
            OpenWorkerError::NotRunning => "worker session `".to_owned().concat(worker).concat(
                "` is not a running exact-owned session",
            ),
        }
    }
}

/// The first member whose session has the given text.
pub open spec fn member_named(members: Seq<MemberView>, worker: Seq<char>) -> Option<int>
    decreases members.len(),
{
    if members.len() == 0 {
        None
    } else {
        match member_named(members.drop_last(), worker) {
            Some(index) => Some(index),
            None => if session_id_text(members.last().session_id@) == worker {
                Some(members.len() - 1)
            } else {
                None
            },
        }
    }
}

/// The record of the worker that may be opened, or why it may not: it must
/// still be a member that allows it, with a running exact-owned workload.
pub open spec fn openable_record(state: StateView, group: Seq<char>, worker: Seq<char>) -> Result<
    RecordView,
    OpenWorkerError,
> {
    match find_group(state.groups, group) {
        None => Err(OpenWorkerError::GroupDeleted),
        Some(index) => {
            let members = state.groups[index].workers;
            match member_named(members, worker) {
                None => Err(OpenWorkerError::NotMember),
                Some(at) => if !members[at].capabilities.open_interactive {
                    Err(OpenWorkerError::NotAllowed)
                } else {
                    match find_record(state.sessions, members[at].session_id) {
                        None => Err(OpenWorkerError::SessionMissing),
                        Some(place) => if !state.sessions[place].exact_running() {
                            Err(OpenWorkerError::NotRunning)
                        } else {
                            Ok(state.sessions[place])
                        },
                    }
                },
            }
        },
    }
}

/// The position of the first member whose session has the given text.
fn named_position(members: &Vec<OrchestrationMember>, worker: &str) -> (found: Option<usize>)
    ensures
        match found {
            Some(index) => index < members@.len() && member_named(member_views(members@), worker@)
                == Some(index as int),
            None => member_named(member_views(members@), worker@) is None,
        },
{
    let ghost all = member_views(members@);
    let mut i: usize = 0;
    assert(all.take(0) =~= Seq::empty());
    while i < members.len()
        invariant
            i <= members@.len(),
            all == member_views(members@),
            member_named(all.take(i as int), worker@) is None,
        decreases members.len() - i,
    {
        proof {
            assert(all.take(i + 1).drop_last() =~= all.take(i as int));
            assert(all.take(i + 1).last() == members@[i as int]@);
        }
        let id = members[i].session_id.to_string();
        if same_text(id.as_str(), worker) {
            proof {
                lemma_named_stays(all, worker@, i + 1);
            }
            return Some(i);
        }
        i += 1;
    }
    assert(all.take(i as int) =~= all);
    None
}

/// Once there is a match, more members do not change it.
proof fn lemma_named_stays(members: Seq<MemberView>, worker: Seq<char>, n: int)
    requires
        0 <= n <= members.len(),
        member_named(members.take(n), worker) is Some,
    ensures
        member_named(members, worker) == member_named(members.take(n), worker),
    decreases members.len() - n,
{
    if n == members.len() {
        assert(members.take(n) =~= members);
    } else {
        assert(members.take(n + 1).drop_last() =~= members.take(n));
        lemma_named_stays(members, worker, n + 1);
    }
}

/// The record of the worker that may be opened, checked against current state.
pub fn open_worker(state: &State, group_id: &OrchestrationGroupId, worker_id: &str) -> (r: Result<
    SessionRecord,
    OpenWorkerError,
>)
    ensures
        match r {
            Ok(record) => openable_record(state@, group_id@, worker_id@) == Ok::<
                RecordView,
                OpenWorkerError,
            >(record@),
            Err(error) => openable_record(state@, group_id@, worker_id@) == Err::<
                RecordView,
                OpenWorkerError,
            >(error),
        },
{
    let index = match group_position(&state.orchestration_groups, group_id) {
        Some(index) => index,
        None => {
            return Err(OpenWorkerError::GroupDeleted);
        },
    };
    let group = &state.orchestration_groups[index];
    let at = match named_position(&group.workers, worker_id) {
        Some(at) => at,
        None => {
            return Err(OpenWorkerError::NotMember);
        },
    };
    let member = &group.workers[at];
    if !member.capabilities.open_interactive {
        return Err(OpenWorkerError::NotAllowed);
    }
    match record_position(&state.sessions, member.session_id) {
        None => Err(OpenWorkerError::SessionMissing),
        Some(place) => {
            if !state.sessions[place].is_exact_running() {
                Err(OpenWorkerError::NotRunning)
            } else {
                Ok(state.sessions[place].clone())
            }
        },
    }
}

} // verus!
