//! Creating workloads, and opening those that exist.
//!
//! A workload is reserved in the state before anything is created for it, so
//! that no failure leaves one running that nothing remembers.

use vstd::prelude::*;
use vstd::string::*;

use crate::backend::{CommandSpec, CommandView, LaunchSpec};
use crate::clock::Timestamp;
use crate::config::{Config, ConfigView};
use crate::failure::{led_to, plain, Failure};
use crate::herdr::HerdrContext;
use crate::herdr_reply::ReplacementInspection;
use crate::lifecycle::{name_of_status, put_record, status_name, with_record};
use crate::model::{
    session_id_text, ExternalSessionName, HerdrAgentKind, OrchestrationGroupId, OwnershipProof,
    Placement, SessionId, TmuxSessionId,
};
use crate::pane_title::{leaf_of, shown_host, title_of, workload_component, PaneTitle};
use crate::selection::{resolve_host_from, resolved_host, OpenSelection, SelectionView};
use crate::state::{
    find_record, find_record_finds, record_position, record_views, RecordView, SessionRecord,
    SessionStatus, State, StateView,
};
use crate::text::{blank, chars_of, is_blank, signed_decimal, signed_numeral, trim, trimmed, views};

verus! {

/// The record that reserves a workload before it is created.
pub open spec fn reservation(
    selection: SelectionView,
    target: Seq<char>,
    id: SessionId,
    ownership_proof: OwnershipProof,
    now: Timestamp,
) -> RecordView {
    RecordView {
        id,
        host: selection.host,
        target,
        directory: selection.directory,
        preset: selection.preset,
        herdr_agent: selection.herdr_agent,
        command: Some(selection.command),
        tmux_session_id: None,
        ownership_proof: Some(ownership_proof),
        status: SessionStatus::Creating,
        created_at: now,
        last_used_at: now,
        closed_at: None,
        exit_status: None,
    }
}

/// The record that reserves what was chosen, or why nothing is reserved.
pub open spec fn reserved_selection(
    config: ConfigView,
    aliases: Seq<Seq<char>>,
    selection: SelectionView,
    id: SessionId,
    ownership_proof: OwnershipProof,
    now: Timestamp,
) -> Result<RecordView, Seq<char>> {
    if blank(selection.directory) {
        Err("session directory must not be empty"@)
    } else if blank(selection.command) {
        Err("session command must not be empty"@)
    } else {
        match resolved_host(config, aliases, selection.host) {
            None => Err("unknown host `"@ + selection.host + "`"@),
            Some(host) => Ok(reservation(selection, host.target, id, ownership_proof, now)),
        }
    }
}

/// The title of the pane of a workload.
pub open spec fn record_title(record: RecordView) -> Seq<char> {
    title_of(
        seq![
            shown_host(record.host),
            leaf_of(record.directory),
            workload_component(record.preset, record.command),
        ],
    )
}

/// The title of the pane of a workload, from what was stored of it.
pub fn pane_title_for_record(record: &SessionRecord) -> (title: PaneTitle)
    ensures
        title@ == record_title(record@),
{
    let preset = match &record.preset {
        Some(preset) => Some(preset.as_str()),
        None => None,
    };
    let command = match &record.command {
        Some(command) => Some(command.as_str()),
        None => None,
    };
    PaneTitle::owned(record.host.as_str(), record.directory.as_str(), preset, command)
}

/// A text about a session, between what stands before and behind its name.
fn about(before: &str, id: SessionId, after: &str) -> (text: String)
    ensures
        text@ == before@ + session_id_text(id@) + after@,
{
    before.to_owned().concat(id.to_string().as_str()).concat(after)
}

/// A workload whose creation is under way.
#[derive(Debug, PartialEq, Eq)]
pub struct Creation {
    record: SessionRecord,
    ownership_proof: OwnershipProof,
    command: String,
}

/// What is left of the state when a reservation is given up: every record but
/// the untouched reservation.
pub open spec fn without_reservation(records: Seq<RecordView>, id: SessionId) -> Seq<RecordView>
    decreases records.len(),
{
    if records.len() == 0 {
        Seq::empty()
    } else {
        let front = without_reservation(records.drop_last(), id);
        if untouched(records.last(), id) {
            front
        } else {
            front.push(records.last())
        }
    }
}

/// A record is the reservation of a session, and nothing was created for it.
pub open spec fn untouched(record: RecordView, id: SessionId) -> bool {
    record.id == id && record.status == SessionStatus::Creating && record.tmux_session_id is None
}

/// The state in which a created workload runs, or why it cannot be recorded.
pub open spec fn running_state(
    state: StateView,
    id: SessionId,
    identity: TmuxSessionId,
    now: Timestamp,
) -> Result<StateView, Seq<char>> {
    match find_record(state.sessions, id) {
        None => Err("reserved session `"@ + session_id_text(id@) + "` disappeared after creation"@),
        Some(at) => if untouched(state.sessions[at], id) {
            Ok(
                with_record(
                    state,
                    at,
                    RecordView {
                        tmux_session_id: Some(identity),
                        status: SessionStatus::Running,
                        last_used_at: now,
                        ..state.sessions[at]
                    },
                ),
            )
        } else {
            Err(
                "reserved session `"@ + session_id_text(id@)
                    + "` changed while it was being created"@,
            )
        },
    }
}

/// Begins the creation of what was chosen, under a new identity.
pub fn begin_creation(
    config: &Config,
    aliases: &Vec<String>,
    selection: OpenSelection,
    id: SessionId,
    ownership_proof: OwnershipProof,
    now: Timestamp,
) -> (r: Result<Creation, Failure>)
    ensures
        match reserved_selection(config@, views(aliases@), selection@, id, ownership_proof, now) {
            Ok(record) => r is Ok && r->Ok_0.record_view() == record
                && r->Ok_0.ownership_view() == ownership_proof && r->Ok_0.command_view()
                == selection@.command,
            Err(text) => r is Err && r->Err_0@ == plain(text),
        },
        r matches Ok(creation) ==> {
            &&& creation.record_view().id == id
            &&& creation.record_view().host == selection@.host
            &&& creation.record_view().directory == selection@.directory
            &&& creation.record_view().preset == selection@.preset
            &&& creation.record_view().herdr_agent == selection@.herdr_agent
            &&& creation.record_view().command == Some(selection@.command)
            &&& creation.record_view().ownership_proof == Some(ownership_proof)
            &&& creation.ownership_view() == ownership_proof
            &&& creation.command_view() == selection@.command
        },
{
    if is_blank(selection.directory.as_str()) {
        return Err(Failure::new("session directory must not be empty".to_owned()));
    }
    if is_blank(selection.command.as_str()) {
        return Err(Failure::new("session command must not be empty".to_owned()));
    }
    let host = match resolve_host_from(config, aliases, selection.host.as_str()) {
        Ok(host) => host,
        Err(failure) => {
            return Err(failure);
        },
    };
    let command = selection.command.clone();
    let record = SessionRecord {
        id,
        host: selection.host,
        target: host.target,
        directory: selection.directory,
        preset: selection.preset,
        herdr_agent: selection.herdr_agent,
        command: Some(selection.command),
        tmux_session_id: None,
        ownership_proof: Some(ownership_proof),
        status: SessionStatus::Creating,
        created_at: now,
        last_used_at: now,
        closed_at: None,
        exit_status: None,
    };
    Ok(Creation { record, ownership_proof, command })
}

impl Creation {
    /// The record that reserves the workload.
    pub closed spec fn record_view(self) -> RecordView {
        self.record@
    }

    /// The proof that the workload is owned.
    pub closed spec fn ownership_view(self) -> OwnershipProof {
        self.ownership_proof
    }

    /// The command that the workload runs.
    pub closed spec fn command_view(self) -> Seq<char> {
        self.command@
    }

    /// The record that reserves the workload.
    pub fn record(&self) -> (record: &SessionRecord)
        ensures
            record@ == self.record_view(),
    {
        &self.record
    }

    /// What the backend is to launch.
    pub fn launch(&self) -> (launch: LaunchSpec)
        ensures
            launch.id == self.record_view().id,
            launch.ownership_proof == self.ownership_view(),
            launch.directory@ == self.record_view().directory,
            launch.command@ == self.command_view(),
    {
        LaunchSpec {
            id: self.record.id,
            ownership_proof: self.ownership_proof,
            directory: self.record.directory.clone(),
            command: self.command.clone(),
        }
    }

    /// Adds the reservation to the state.
    pub fn reserve(&self, state: &mut State)
        ensures
            final(state).version == old(state).version,
            final(state)@ == (StateView {
                sessions: old(state)@.sessions.push(self.record_view()),
                ..old(state)@
            }),
    {
        let ghost before = state.sessions@;
        let record = self.record.clone();
        let ghost shown = record@;
        state.sessions.push(record);
        assert(record_views(state.sessions@) =~= record_views(before).push(shown));
    }

    /// Gives the reservation up, where it is certain that nothing was created.
    pub fn abandon(&self, state: &mut State)
        ensures
            final(state).version == old(state).version,
            final(state)@ == (StateView {
                sessions: without_reservation(old(state)@.sessions, self.record_view().id),
                ..old(state)@
            }),
    {
        let ghost all = state@.sessions;
        let ghost groups = state.orchestration_groups;
        let ghost version = state.version;
        let id = self.record.id;
        let mut kept: Vec<SessionRecord> = Vec::new();
        let mut i: usize = 0;
        assert(record_views(kept@) =~= without_reservation(all.take(0), id));
        while i < state.sessions.len()
            invariant
                i <= state.sessions@.len(),
                all == record_views(state.sessions@),
                groups == state.orchestration_groups,
                version == state.version,
                record_views(kept@) == without_reservation(all.take(i as int), id),
            decreases state.sessions.len() - i,
        {
            let record = &state.sessions[i];
            assert(all.take(i + 1).drop_last() =~= all.take(i as int));
            assert(all.take(i + 1).last() == record@);
            if !is_untouched(record, id) {
                let ghost before = kept@;
                let ghost shown = record@;
                kept.push(record.clone());
                assert(record_views(kept@) =~= record_views(before).push(shown));
            }
            i += 1;
        }
        assert(all.take(i as int) =~= all);
        state.sessions = kept;
    }

    /// The creation that failed.
    pub fn failed(&self, failure: Failure) -> (r: Failure)
        ensures
            r@ == led_to(
                "create reserved session `"@ + session_id_text(self.record_view().id@) + "`"@,
                failure@,
            ),
    {
        failure.context(about("create reserved session `", self.record.id, "`"))
    }

    /// Records that the workload was created and runs. Where it cannot be
    /// recorded, the state stays as it is.
    pub fn commit(&self, state: &mut State, identity: TmuxSessionId, now: Timestamp) -> (r: Result<
        (),
        Failure,
    >)
        ensures
            final(state).version == old(state).version,
            match running_state(old(state)@, self.record_view().id, identity, now) {
                Ok(after) => r is Ok && final(state)@ == after,
                Err(text) => r is Err && r->Err_0@ == plain(text) && final(state)@ == old(state)@,
            },
    {
        let id = self.record.id;
        match record_position(&state.sessions, id) {
            None => Err(
                Failure::new(about("reserved session `", id, "` disappeared after creation")),
            ),
            Some(at) => {
                let found = &state.sessions[at];
                assert(state@.sessions[at as int] == found@);
                if !is_untouched(found, id) {
                    return Err(
                        Failure::new(
                            about("reserved session `", id, "` changed while it was being created"),
                        ),
                    );
                }
                let mut record = found.clone();
                record.tmux_session_id = Some(identity);
                record.status = SessionStatus::Running;
                record.last_used_at = now;
                put_record(state, at, record);
                Ok(())
            },
        }
    }

    /// The workload that was created and could not be recorded.
    pub fn unrecorded(&self, failure: Failure) -> (r: Failure)
        ensures
            r@ == led_to(
                "record created session `"@ + session_id_text(self.record_view().id@)
                    + "`; the workload remains safely recoverable from its creating reservation"@,
                failure@,
            ),
    {
        failure.context(
            about(
                "record created session `",
                self.record.id,
                "`; the workload remains safely recoverable from its creating reservation",
            ),
        )
    }

    /// The workload that was created and could not be placed.
    pub fn unplaced(&self, failure: Failure) -> (r: Failure)
        ensures
            r@ == led_to(
                "place newly created session `"@ + session_id_text(self.record_view().id@)
                    + "`; it remains running and recorded for retry"@,
                failure@,
            ),
    {
        failure.context(
            about(
                "place newly created session `",
                self.record.id,
                "`; it remains running and recorded for retry",
            ),
        )
    }
}

/// Whether a record is the reservation of a session for which nothing was
/// created.
fn is_untouched(record: &SessionRecord, id: SessionId) -> (r: bool)
    ensures
        r == untouched(record@, id),
{
    record.id == id && record.status == SessionStatus::Creating && record.tmux_session_id.is_none()
}

/// The state with a reservation at its end.
pub open spec fn with_reservation(state: StateView, record: RecordView) -> StateView {
    StateView { sessions: state.sessions.push(record), ..state }
}

/// A reservation that is given up leaves the state as it was before, as long as
/// the session was unknown.
pub proof fn abandoning_undoes_the_reservation(state: StateView, record: RecordView)
    requires
        untouched(record, record.id),
        find_record(state.sessions, record.id) is None,
    ensures
        without_reservation(with_reservation(state, record).sessions, record.id)
            == state.sessions,
{
    let all = state.sessions.push(record);
    assert(all.drop_last() =~= state.sessions);
    find_record_finds(state.sessions, record.id);
    lemma_nothing_reserved(state.sessions, record.id);
}

/// Where no record is the reservation of a session, giving one up takes nothing
/// away.
proof fn lemma_nothing_reserved(records: Seq<RecordView>, id: SessionId)
    requires
        forall|i: int| 0 <= i < records.len() ==> (#[trigger] records[i]).id != id,
    ensures
        without_reservation(records, id) == records,
    decreases records.len(),
{
    if records.len() > 0 {
        let front = records.drop_last();
        assert forall|i: int| 0 <= i < front.len() implies (#[trigger] front[i]).id != id by {
            assert(front[i] == records[i]);
        }
        lemma_nothing_reserved(front, id);
        assert(records[records.len() - 1].id != id);
        assert(front.push(records.last()) =~= records);
    }
}

/// Giving a reservation up never takes a workload away that was created: every
/// record that is lost is the untouched reservation.
pub proof fn abandoning_keeps_created_workloads(
    records: Seq<RecordView>,
    id: SessionId,
    record: RecordView,
)
    requires
        records.contains(record),
        !untouched(record, id),
    ensures
        without_reservation(records, id).contains(record),
    decreases records.len(),
{
    let front = records.drop_last();
    let kept = without_reservation(front, id);
    let at = choose|at: int| 0 <= at < records.len() && records[at] == record;
    if at < records.len() - 1 {
        assert(front[at] == record);
        assert(front.contains(record));
        abandoning_keeps_created_workloads(front, id, record);
        let k = choose|k: int| 0 <= k < kept.len() && kept[k] == record;
        assert(without_reservation(records, id)[k] == record);
    } else {
        assert(without_reservation(records, id)[kept.len() as int] == record);
    }
}

/// A workload that is reserved, and then created, runs under the identity that
/// the backend gave it. Nothing else in the state changes.
pub proof fn created_workloads_run(
    state: StateView,
    record: RecordView,
    identity: TmuxSessionId,
    now: Timestamp,
)
    requires
        untouched(record, record.id),
        find_record(state.sessions, record.id) is None,
    ensures
        running_state(with_reservation(state, record), record.id, identity, now) == Ok::<
            StateView,
            Seq<char>,
        >(
            with_reservation(
                state,
                RecordView {
                    tmux_session_id: Some(identity),
                    status: SessionStatus::Running,
                    last_used_at: now,
                    ..record
                },
            ),
        ),
{
    let all = state.sessions.push(record);
    let runs = RecordView {
        tmux_session_id: Some(identity),
        status: SessionStatus::Running,
        last_used_at: now,
        ..record
    };
    let n = state.sessions.len() as int;
    find_record_finds(state.sessions, record.id);
    find_record_finds(all, record.id);
    assert(all[n] == record);
    let at = find_record(all, record.id)->0;
    if at < n {
        assert(all[at] == state.sessions[at]);
    }
    assert(all.update(n, runs) =~= state.sessions.push(runs));
}

/// What restarting a workload calls for.
#[derive(Clone, Copy, Debug, PartialEq, Eq, Structural)]
pub enum RestartCall {
    /// It ended, or a restart of it was interrupted: it is restarted.
    Restart,
    /// It runs: it is looked at, and opened.
    Observe,
}

/// What restarting a workload calls for, or why it is refused.
pub open spec fn restart_call(record: Option<RecordView>, id: SessionId) -> Result<
    RestartCall,
    Seq<char>,
> {
    match record {
        None => Err("unknown Tether session `"@ + session_id_text(id@) + "`"@),
        Some(record) => match record.status {
            SessionStatus::Ended | SessionStatus::Creating => Ok(RestartCall::Restart),
            SessionStatus::Running => Ok(RestartCall::Observe),
            _ => Err(
                "session `"@ + session_id_text(id@) + "` cannot be restarted while it is "@
                    + status_name(record.status),
            ),
        },
    }
}

/// The contents of an optional record.
pub open spec fn record_view(record: Option<SessionRecord>) -> Option<RecordView> {
    match record {
        Some(record) => Some(record@),
        None => None,
    }
}

/// What restarting a workload calls for.
pub fn restart_decision(record: &Option<SessionRecord>, id: SessionId) -> (r: Result<
    RestartCall,
    Failure,
>)
    ensures
        match restart_call(record_view(*record), id) {
            Ok(call) => r == Ok::<RestartCall, Failure>(call),
            Err(text) => r is Err && r->Err_0@ == plain(text),
        },
{
    match record {
        None => Err(Failure::new(about("unknown Tether session `", id, "`"))),
        Some(record) => match record.status {
            SessionStatus::Ended | SessionStatus::Creating => Ok(RestartCall::Restart),
            SessionStatus::Running => Ok(RestartCall::Observe),
            SessionStatus::Stopping | SessionStatus::Removed => Err(
                Failure::new(
                    about("session `", id, "` cannot be restarted while it is ").concat(
                        name_of_status(record.status),
                    ),
                ),
            ),
        },
    }
}

/// The restart that failed, as what it called for.
pub fn restart_failed(call: RestartCall, id: SessionId, failure: Failure) -> (r: Failure)
    ensures
        r@ == led_to(
            match call {
                RestartCall::Restart => "restart ended session `"@,
                RestartCall::Observe => "verify restarted session `"@,
            } + session_id_text(id@) + "`"@,
            failure@,
        ),
{
    match call {
        RestartCall::Restart => failure.context(about("restart ended session `", id, "`")),
        RestartCall::Observe => failure.context(about("verify restarted session `", id, "`")),
    }
}

/// Why a workload cannot be opened.
pub open spec fn open_refusal(record: Option<RecordView>, id: SessionId) -> Option<Seq<char>> {
    let name = session_id_text(id@);
    match record {
        None => Some("unknown session `"@ + name + "`"@),
        Some(record) => match record.status {
            SessionStatus::Running => None,
            SessionStatus::Creating => Some(
                "session `"@ + name
                    + "` creation is incomplete; run `herdr-tether session restart "@ + name + "`"@,
            ),
            SessionStatus::Stopping => Some(
                "session `"@ + name + "` is stopping; retry `herdr-tether session open "@ + name
                    + "` after Stop completes"@,
            ),
            SessionStatus::Ended => Some(
                "session `"@ + name + "` has ended; run `herdr-tether session restart "@ + name
                    + "`"@,
            ),
            SessionStatus::Removed => Some(
                "session `"@ + name
                    + "` was removed; run `herdr-tether open` to create a new workload"@,
            ),
        },
    }
}

/// Whether a workload can be opened: only one that runs.
pub fn open_decision(record: &Option<SessionRecord>, id: SessionId) -> (r: Result<(), Failure>)
    ensures
        match open_refusal(record_view(*record), id) {
            None => r is Ok,
            Some(text) => r is Err && r->Err_0@ == plain(text),
        },
{
    let name = id.to_string();
    let record = match record {
        Some(record) => record,
        None => {
            return Err(Failure::new(about("unknown session `", id, "`")));
        },
    };
    let text = match record.status {
        SessionStatus::Running => {
            return Ok(());
        },
        SessionStatus::Creating => about(
            "session `",
            id,
            "` creation is incomplete; run `herdr-tether session restart ",
        ).concat(name.as_str()).concat("`"),
        SessionStatus::Stopping => about(
            "session `",
            id,
            "` is stopping; retry `herdr-tether session open ",
        ).concat(name.as_str()).concat("` after Stop completes"),
        SessionStatus::Ended => about(
            "session `",
            id,
            "` has ended; run `herdr-tether session restart ",
        ).concat(name.as_str()).concat("`"),
        SessionStatus::Removed => about(
            "session `",
            id,
            "` was removed; run `herdr-tether open` to create a new workload",
        ),
    };
    Err(Failure::new(text))
}

/// A command on a session that can be retried.
#[derive(Clone, Copy, Debug, PartialEq, Eq, Structural)]
pub enum SessionAction {
    Restart,
    Stop,
    Remove,
}

/// What is said of a session command that failed.
pub open spec fn retry_text(action: SessionAction, id: SessionId) -> Seq<char> {
    let name = session_id_text(id@);
    let (what, again) = match action {
        SessionAction::Restart => ("restart session `"@, "`; retry `herdr-tether session restart "@),
        SessionAction::Stop => ("stop session `"@, "`; retry `herdr-tether session stop "@),
        SessionAction::Remove => (
            "remove session metadata `"@,
            "`; retry `herdr-tether session remove "@,
        ),
    };
    what + name + again + name + "` after resolving the reported error"@
}

/// The session command that failed, with how it is retried.
pub fn action_failed(action: SessionAction, id: SessionId, failure: Failure) -> (r: Failure)
    ensures
        r@ == led_to(retry_text(action, id), failure@),
{
    let (what, again) = match action {
        SessionAction::Restart => ("restart session `", "`; retry `herdr-tether session restart "),
        SessionAction::Stop => ("stop session `", "`; retry `herdr-tether session stop "),
        SessionAction::Remove => (
            "remove session metadata `",
            "`; retry `herdr-tether session remove ",
        ),
    };
    failure.context(
        about(what, id, again).concat(id.to_string().as_str()).concat(
            "` after resolving the reported error",
        ),
    )
}

/// What is said of a session whose metadata was removed. One that no proof of
/// ownership was stored for was never contacted.
pub open spec fn removed_text(state: StateView, id: SessionId) -> Seq<char> {
    let name = session_id_text(id@);
    match find_record(state.sessions, id) {
        Some(at) => if state.sessions[at].ownership_proof is None {
            "removed legacy metadata "@ + name + "; no workload was contacted"@
        } else {
            "removed "@ + name
        },
        None => "removed "@ + name,
    }
}

/// What is said of a session whose metadata was removed from a state.
pub fn removal_message(before: &State, id: SessionId) -> (text: String)
    ensures
        text@ == removed_text(before@, id),
{
    match record_position(&before.sessions, id) {
        Some(at) => {
            assert(before@.sessions[at as int] == before.sessions@[at as int]@);
            if before.sessions[at].ownership_proof.is_none() {
                return about("removed legacy metadata ", id, "; no workload was contacted");
            }
        },
        None => {},
    }
    "removed ".to_owned().concat(id.to_string().as_str())
}

/// How a session is listed: a failing exit is named with its status.
pub open spec fn status_text(record: RecordView) -> Seq<char> {
    match (record.status, record.exit_status) {
        (SessionStatus::Ended, Some(exit_status)) => if exit_status != 0 {
            "Failed (exit "@ + signed_numeral(exit_status as int) + ")"@
        } else {
            status_name(record.status)
        },
        _ => status_name(record.status),
    }
}

/// The listed status of a workload, naming a failing exit rather than hiding it.
///
/// `Ended` covers a clean finish, a failing one, and an outcome that was not
/// reported. Only the failing case is renamed, and it carries the status that
/// made it one.
pub fn session_status_text(session: &SessionRecord) -> (text: String)
    ensures
        text@ == status_text(session@),
{
    match (session.status, session.exit_status) {
        (SessionStatus::Ended, Some(exit_status)) => {
            if exit_status != 0 {
                return "Failed (exit ".to_owned().concat(
                    signed_decimal(exit_status).as_str(),
                ).concat(")");
            }
        },
        _ => {},
    }
    name_of_status(session.status).to_owned()
}

/// The name of a placement.
pub open spec fn placement_text(placement: Placement) -> Seq<char> {
    match placement {
        Placement::SplitRight => "split-right"@,
        Placement::SplitDown => "split-down"@,
        Placement::NewTab => "new-tab"@,
        Placement::ReplaceCurrentPane => "replace-current-pane"@,
    }
}

/// The name of a placement.
pub fn placement_name(placement: Placement) -> (name: &'static str)
    ensures
        name@ == placement_text(placement),
{
    match placement {
        Placement::SplitRight => "split-right",
        Placement::SplitDown => "split-down",
        Placement::NewTab => "new-tab",
        Placement::ReplaceCurrentPane => "replace-current-pane",
    }
}

/// The command by which another session is attached from a pane of its own.
pub open spec fn external_attach(executable: Seq<char>, target: Seq<char>, name: Seq<char>) -> CommandView {
    CommandView {
        program: executable,
        args: seq!["session"@, "attach-external"@, "--target"@, target, "--"@, name],
    }
}

/// The command by which another session is attached from a pane of its own.
pub fn external_attach_command(executable: String, target: &str, name: &ExternalSessionName) -> (command:
    CommandSpec)
    ensures
        command@ == external_attach(executable@, target@, name@),
{
    let args = vec![
        "session".to_owned(),
        "attach-external".to_owned(),
        "--target".to_owned(),
        target.to_owned(),
        "--".to_owned(),
        name.to_string(),
    ];
    assert(views(args@) =~= external_attach(executable@, target@, name@).args);
    CommandSpec::new(executable, args)
}

/// The command that attaches to a workload, under the agent that it is seen as.
pub open spec fn hinted(command: CommandView, agent: Option<Seq<char>>) -> CommandView {
    match agent {
        None => command,
        Some(agent) => CommandView {
            program: "env"@,
            args: seq!["HERDR_AGENT="@ + agent, command.program] + command.args,
        },
    }
}

/// The contents of an optional agent kind.
pub open spec fn kind_view(kind: Option<&HerdrAgentKind>) -> Option<Seq<char>> {
    match kind {
        Some(kind) => Some(kind@),
        None => None,
    }
}

/// The command that attaches to a workload, under the agent that it is seen as.
pub fn attach_with_agent_hint(spec: CommandSpec, herdr_agent: Option<&HerdrAgentKind>) -> (command:
    CommandSpec)
    ensures
        command@ == hinted(spec@, kind_view(herdr_agent)),
{
    let agent = match herdr_agent {
        Some(agent) => agent,
        None => {
            return spec;
        },
    };
    let ghost given = spec@;
    let mut args = vec!["HERDR_AGENT=".to_owned().concat(agent.as_str()), spec.program];
    let mut rest = spec.args;
    let ghost head = views(args@);
    let ghost tail = views(rest@);
    args.append(&mut rest);
    assert(head =~= seq!["HERDR_AGENT="@ + agent@, given.program]);
    assert(views(args@) =~= head + tail);
    CommandSpec::new("env".to_owned(), args)
}

/// The command that runs an Observer in the pane that was made for it.
pub open spec fn observer_runtime(
    executable: Seq<char>,
    group_id: Seq<char>,
    pane_id: Seq<char>,
    workspace_id: Seq<char>,
    binary: Seq<char>,
) -> CommandView {
    CommandView {
        program: executable,
        args: seq![
            "orchestration"@,
            "observer-runtime"@,
            group_id,
            "--pane-id"@,
            pane_id,
            "--workspace-id"@,
            workspace_id,
            "--herdr-bin"@,
            binary,
        ],
    }
}

/// The command that runs an Observer in the pane that was made for it.
pub fn observer_runtime_command(
    executable: String,
    group_id: &OrchestrationGroupId,
    destination: &HerdrContext,
) -> (command: CommandSpec)
    ensures
        command@ == observer_runtime(
            executable@,
            group_id@,
            destination@.pane_id,
            destination@.workspace_id,
            destination@.binary,
        ),
{
    let args = vec![
        "orchestration".to_owned(),
        "observer-runtime".to_owned(),
        group_id.to_string(),
        "--pane-id".to_owned(),
        destination.pane_id.clone(),
        "--workspace-id".to_owned(),
        destination.workspace_id.clone(),
        "--herdr-bin".to_owned(),
        destination.binary.clone(),
    ];
    assert(views(args@) =~= observer_runtime(
        executable@,
        group_id@,
        destination@.pane_id,
        destination@.workspace_id,
        destination@.binary,
    ).args);
    CommandSpec::new(executable, args)
}

/// What stands between a person and the replacement of their pane.
#[derive(Debug, PartialEq, Eq)]
pub enum Confirmation {
    /// Nothing runs there that would be lost.
    Unneeded,
    /// The person is asked with this text.
    Ask(String),
}

/// What the replacement of a pane calls for, or why it is refused.
pub fn replacement_confirmation(inspection: &ReplacementInspection, interactive: bool) -> (r: Result<
    Confirmation,
    Failure,
>)
    ensures
        !inspection@.needs_confirmation() ==> r is Ok && r->Ok_0 is Unneeded,
        inspection@.needs_confirmation() && !interactive ==> r is Err && r->Err_0@ == plain(
            "Replace current pane would terminate "@ + inspection@.summary()
                + "; an interactive confirmation is required and the source pane was preserved"@,
        ),
        inspection@.needs_confirmation() && interactive ==> r is Ok && r->Ok_0 is Ask
            && r->Ok_0->Ask_0@ == "Replace current pane will terminate "@ + inspection@.summary()
            + ". Continue? [y/N] "@,
{
    if !inspection.requires_confirmation() {
        return Ok(Confirmation::Unneeded);
    }
    let summary = inspection.safe_summary();
    if !interactive {
        return Err(
            Failure::new(
                "Replace current pane would terminate ".to_owned().concat(summary.as_str()).concat(
                    "; an interactive confirmation is required and the source pane was preserved",
                ),
            ),
        );
    }
    Ok(
        Confirmation::Ask(
            "Replace current pane will terminate ".to_owned().concat(summary.as_str()).concat(
                ". Continue? [y/N] ",
            ),
        ),
    )
}

/// An answer is a yes, in letters of either size.
pub open spec fn says_yes(answer: Seq<char>) -> bool {
    let word = trimmed(answer);
    ||| word.len() == 1 && (word[0] == 'y' || word[0] == 'Y')
    ||| word.len() == 3 && (word[0] == 'y' || word[0] == 'Y') && (word[1] == 'e' || word[1] == 'E')
        && (word[2] == 's' || word[2] == 'S')
}

/// Whether a person confirmed the replacement of their pane.
pub fn replacement_answer(answer: &str) -> (r: Result<(), Failure>)
    ensures
        says_yes(answer@) ==> r is Ok,
        !says_yes(answer@) ==> r is Err && r->Err_0@ == plain(
            "Replace current pane was cancelled; the source pane was preserved"@,
        ),
{
    let word = trim(answer);
    let letters = chars_of(word.as_str());
    let short = letters.len() == 1 && (letters[0] == 'y' || letters[0] == 'Y');
    let long = letters.len() == 3 && (letters[0] == 'y' || letters[0] == 'Y') && (letters[1] == 'e'
        || letters[1] == 'E') && (letters[2] == 's' || letters[2] == 'S');
    if short || long {
        Ok(())
    } else {
        Err(
            Failure::new(
                "Replace current pane was cancelled; the source pane was preserved".to_owned(),
            ),
        )
    }
}

} // verus!
