//! What creating, opening and restarting a workload comes to, from what was
//! chosen to what is recorded and run.

use vstd::prelude::*;
use vstd::string::*;

use crate::backend::CommandView;
use crate::clock::Timestamp;
use crate::config::ConfigView;
use crate::launch::{
    external_attach, hinted, observer_runtime, open_refusal, placement_text, removed_text,
    reserved_selection, restart_call, retry_text, running_state, says_yes, status_text,
    without_reservation, RestartCall, SessionAction,
};
use crate::lifecycle::status_name;
use crate::lifecycle_laws::{recorded, rest_kept, same_workload};
use crate::model::{session_id_text, OwnershipProof, Placement, SessionId, TmuxSessionId};
use crate::selection::{resolved_host, SelectionView};
use crate::selection_laws::names_host;
use crate::state::{
    find_record, find_record_finds, RecordView, SessionStatus, StateView,
};
use crate::text::{signed_numeral, trimmed, white_space};
use crate::text_laws::holds_part;

verus! {

/// What is reserved is what was chosen: under the given identity and proof, on
/// the chosen host, in the chosen directory and with the chosen command, preset
/// and agent hint. Nothing of it has run yet.
pub proof fn creation_reserves_what_was_chosen(
    config: ConfigView,
    aliases: Seq<Seq<char>>,
    selection: SelectionView,
    id: SessionId,
    ownership_proof: OwnershipProof,
    now: Timestamp,
)
    ensures
        reserved_selection(config, aliases, selection, id, ownership_proof, now) matches Ok(
            record,
        ) ==> {
            &&& record.id == id
            &&& record.host == selection.host
            &&& resolved_host(config, aliases, selection.host) is Some
            &&& record.target == resolved_host(config, aliases, selection.host)->0.target
            &&& record.directory == selection.directory
            &&& record.preset == selection.preset
            &&& record.herdr_agent == selection.herdr_agent
            &&& record.command == Some(selection.command)
            &&& record.ownership_proof == Some(ownership_proof)
            &&& record.status == SessionStatus::Creating
            &&& record.tmux_session_id is None
            &&& record.created_at == now
            &&& record.last_used_at == now
            &&& record.closed_at is None
            &&& record.exit_status is None
        },
{
}

/// A creation begins wherever the directory and the command hold more than white
/// space and the host is known. The first of the three that is not in order is
/// told.
pub proof fn creation_needs_a_directory_a_command_and_a_host(
    config: ConfigView,
    aliases: Seq<Seq<char>>,
    selection: SelectionView,
    id: SessionId,
    ownership_proof: OwnershipProof,
    now: Timestamp,
)
    ensures
        ({
            let r = reserved_selection(config, aliases, selection, id, ownership_proof, now);
            let directory = exists|i: int|
                0 <= i < selection.directory.len() && !white_space(#[trigger] selection.directory[i]);
            let command = exists|i: int|
                0 <= i < selection.command.len() && !white_space(#[trigger] selection.command[i]);
            let host = resolved_host(config, aliases, selection.host) is Some;
            &&& r is Ok <==> directory && command && host
            &&& !directory ==> r == Err::<RecordView, Seq<char>>(
                "session directory must not be empty"@,
            )
            &&& directory && !command ==> r == Err::<RecordView, Seq<char>>(
                "session command must not be empty"@,
            )
            &&& directory && command && !host ==> r is Err && holds_part(
                r->Err_0,
                selection.host,
            )
        }),
{
    let r = reserved_selection(config, aliases, selection, id, ownership_proof, now);
    if r is Err {
        let text = "unknown host `"@ + selection.host + "`"@;
        let at = "unknown host `"@.len() as int;
        assert(text.subrange(at, at + selection.host.len()) =~= selection.host);
    }
}

/// A workload on a configured host runs at the target of that host.
pub proof fn creation_on_a_configured_host_runs_at_its_target(
    config: ConfigView,
    aliases: Seq<Seq<char>>,
    selection: SelectionView,
    id: SessionId,
    ownership_proof: OwnershipProof,
    now: Timestamp,
    at: int,
)
    requires
        names_host(config.hosts, selection.host, at),
        selection.host != "local"@,
        reserved_selection(config, aliases, selection, id, ownership_proof, now) is Ok,
    ensures
        reserved_selection(config, aliases, selection, id, ownership_proof, now)->Ok_0.target
            == config.hosts[at].target,
{
    crate::selection_laws::configured_hosts_resolve(config, aliases, selection.host, at);
}

/// A created workload runs as the incarnation that the backend gave it. Nothing
/// else about it changes, nor anything beside it. One whose reservation is gone
/// or was touched is not recorded.
pub proof fn a_created_workload_is_recorded_as_running(
    state: StateView,
    id: SessionId,
    identity: TmuxSessionId,
    now: Timestamp,
    index: int,
)
    requires
        recorded(state, id, index),
    ensures
        ({
            let reserved = state.sessions[index];
            let r = running_state(state, id, identity, now);
            &&& r is Ok <==> reserved.status == SessionStatus::Creating
                && reserved.tmux_session_id is None
            &&& r matches Ok(next) ==> {
                let running = next.sessions[index];
                &&& rest_kept(state, next, index)
                &&& same_workload(reserved, running)
                &&& running.status == SessionStatus::Running
                &&& running.tmux_session_id == Some(identity)
                &&& running.last_used_at == now
                &&& running.closed_at == reserved.closed_at
                &&& running.exit_status == reserved.exit_status
            }
        }),
{
    find_record_finds(state.sessions, id);
    let found = find_record(state.sessions, id);
    match found {
        Some(at) => {
            if at < index {
                assert(state.sessions[at].id != id);
            }
            if index < at {
                assert(state.sessions[index].id != id);
            }
        },
        None => {
            assert(state.sessions[index].id != id);
        },
    }
}

/// A workload without a record is not recorded as running.
pub proof fn a_vanished_reservation_is_not_recorded(
    state: StateView,
    id: SessionId,
    identity: TmuxSessionId,
    now: Timestamp,
)
    requires
        forall|i: int| 0 <= i < state.sessions.len() ==> (#[trigger] state.sessions[i]).id != id,
    ensures
        running_state(state, id, identity, now) is Err,
{
    find_record_finds(state.sessions, id);
    match find_record(state.sessions, id) {
        Some(at) => {
            assert(state.sessions[at].id != id);
        },
        None => {},
    }
}

/// Giving a reservation up takes exactly the records of the session away for
/// which nothing was created, and leaves the others in their order.
pub proof fn abandoning_takes_only_the_reservation(records: Seq<RecordView>, id: SessionId)
    ensures
        without_reservation(records, id) == records.filter(
            |record: RecordView|
                record.id != id || record.status != SessionStatus::Creating
                    || record.tmux_session_id is Some,
        ),
    decreases records.len(),
{
    let kept = |record: RecordView|
        record.id != id || record.status != SessionStatus::Creating || record.tmux_session_id
            is Some;
    reveal(Seq::filter);
    if records.len() > 0 {
        abandoning_takes_only_the_reservation(records.drop_last(), id);
    } else {
        assert(records.filter(kept) =~= Seq::empty());
    }
}

/// An ended or interrupted workload is restarted and a running one is looked at;
/// no other is.
pub proof fn restarting_goes_by_the_status(record: RecordView, id: SessionId)
    ensures
        restart_call(None, id) is Err,
        match record.status {
            SessionStatus::Ended => restart_call(Some(record), id) == Ok::<RestartCall, Seq<char>>(
                RestartCall::Restart,
            ),
            SessionStatus::Creating => restart_call(Some(record), id) == Ok::<
                RestartCall,
                Seq<char>,
            >(RestartCall::Restart),
            SessionStatus::Running => restart_call(Some(record), id) == Ok::<
                RestartCall,
                Seq<char>,
            >(RestartCall::Observe),
            SessionStatus::Stopping => restart_call(Some(record), id) is Err,
            SessionStatus::Removed => restart_call(Some(record), id) is Err,
        },
{
}

/// A workload is opened exactly if it runs. What is said otherwise names the
/// session and the command that helps.
pub proof fn only_running_workloads_open(record: RecordView, id: SessionId)
    ensures
        open_refusal(None, id) is Some,
        open_refusal(Some(record), id) is None <==> record.status == SessionStatus::Running,
        record.status == SessionStatus::Creating || record.status == SessionStatus::Ended
            ==> holds_part(
            open_refusal(Some(record), id)->0,
            "herdr-tether session restart "@ + session_id_text(id@),
        ),
        record.status == SessionStatus::Stopping ==> holds_part(
            open_refusal(Some(record), id)->0,
            "herdr-tether session open "@ + session_id_text(id@),
        ),
        record.status == SessionStatus::Removed ==> holds_part(
            open_refusal(Some(record), id)->0,
            "herdr-tether open"@,
        ),
{
    let name = session_id_text(id@);
    reveal_strlit("session `");
    reveal_strlit("` creation is incomplete; run `herdr-tether session restart ");
    reveal_strlit("` has ended; run `herdr-tether session restart ");
    reveal_strlit("` is stopping; retry `herdr-tether session open ");
    reveal_strlit("` was removed; run `herdr-tether open` to create a new workload");
    reveal_strlit("herdr-tether session restart ");
    reveal_strlit("herdr-tether session open ");
    reveal_strlit("herdr-tether open");
    if open_refusal(Some(record), id) is Some {
        let text = open_refusal(Some(record), id)->0;
        if record.status == SessionStatus::Creating {
            let at = "session `"@.len() + name.len()
                + "` creation is incomplete; run `herdr-tether session restart "@.len()
                - "herdr-tether session restart "@.len();
            let part = "herdr-tether session restart "@ + name;
            assert(text.subrange(at, at + part.len()) =~= part);
        }
        if record.status == SessionStatus::Ended {
            let at = "session `"@.len() + name.len()
                + "` has ended; run `herdr-tether session restart "@.len()
                - "herdr-tether session restart "@.len();
            let part = "herdr-tether session restart "@ + name;
            assert(text.subrange(at, at + part.len()) =~= part);
        }
        if record.status == SessionStatus::Stopping {
            let at = "session `"@.len() + name.len()
                + "` is stopping; retry `herdr-tether session open "@.len()
                - "herdr-tether session open "@.len();
            let part = "herdr-tether session open "@ + name;
            assert(text.subrange(at, at + part.len()) =~= part);
        }
        if record.status == SessionStatus::Removed {
            let at = ("session `"@.len() + name.len() + 20) as int;
            let part = "herdr-tether open"@;
            assert(text.subrange(at, at + part.len()) =~= part);
        }
    }
}

/// What is said of a command that failed names the session, and how the same
/// command is retried.
pub proof fn failed_commands_tell_how_they_are_retried(action: SessionAction, id: SessionId)
    ensures
        holds_part(
            retry_text(action, id),
            match action {
                SessionAction::Restart => "herdr-tether session restart "@,
                SessionAction::Stop => "herdr-tether session stop "@,
                SessionAction::Remove => "herdr-tether session remove "@,
            } + session_id_text(id@),
        ),
{
    let name = session_id_text(id@);
    let text = retry_text(action, id);
    reveal_strlit("restart session `");
    reveal_strlit("stop session `");
    reveal_strlit("remove session metadata `");
    reveal_strlit("`; retry `herdr-tether session restart ");
    reveal_strlit("`; retry `herdr-tether session stop ");
    reveal_strlit("`; retry `herdr-tether session remove ");
    reveal_strlit("herdr-tether session restart ");
    reveal_strlit("herdr-tether session stop ");
    reveal_strlit("herdr-tether session remove ");
    match action {
        SessionAction::Restart => {
            let part = "herdr-tether session restart "@ + name;
            let at = ("restart session `"@.len() + name.len() + 10) as int;
            assert(text.subrange(at, at + part.len()) =~= part);
        },
        SessionAction::Stop => {
            let part = "herdr-tether session stop "@ + name;
            let at = ("stop session `"@.len() + name.len() + 10) as int;
            assert(text.subrange(at, at + part.len()) =~= part);
        },
        SessionAction::Remove => {
            let part = "herdr-tether session remove "@ + name;
            let at = ("remove session metadata `"@.len() + name.len() + 10) as int;
            assert(text.subrange(at, at + part.len()) =~= part);
        },
    }
}

/// A removal without a proof of ownership is told as one that contacted nothing;
/// any other is told by the session alone.
pub proof fn removals_tell_whether_anything_was_contacted(
    state: StateView,
    id: SessionId,
    index: int,
)
    requires
        recorded(state, id, index),
    ensures
        state.sessions[index].ownership_proof is None ==> holds_part(
            removed_text(state, id),
            "no workload was contacted"@,
        ),
        state.sessions[index].ownership_proof is Some ==> removed_text(state, id) == "removed "@
            + session_id_text(id@),
{
    find_record_finds(state.sessions, id);
    match find_record(state.sessions, id) {
        Some(at) => {
            if at < index {
                assert(state.sessions[at].id != id);
            }
            if index < at {
                assert(state.sessions[index].id != id);
            }
        },
        None => {
            assert(state.sessions[index].id != id);
        },
    }
    reveal_strlit("; no workload was contacted");
    reveal_strlit("no workload was contacted");
    let text = removed_text(state, id);
    let part = "no workload was contacted"@;
    if state.sessions[index].ownership_proof is None {
        let at = text.len() - part.len();
        assert(text.subrange(at, at + part.len()) =~= part);
    }
}

/// A failing exit is told with its status, and nothing else is told as a
/// failure.
pub proof fn only_failing_exits_are_told_as_failures(record: RecordView)
    ensures
        ({
            let failed = record.status == SessionStatus::Ended && record.exit_status is Some
                && record.exit_status->0 != 0;
            &&& failed ==> status_text(record) == "Failed (exit "@ + signed_numeral(
                record.exit_status->0 as int,
            ) + ")"@
            &&& !failed ==> status_text(record) == status_name(record.status)
        }),
{
}

/// Each status and each placement has a name of its own.
pub proof fn names_tell_statuses_and_placements_apart(
    a: SessionStatus,
    b: SessionStatus,
    p: Placement,
    q: Placement,
)
    ensures
        a != b ==> status_name(a) != status_name(b),
        p != q ==> placement_text(p) != placement_text(q),
{
    reveal_strlit("Creating");
    reveal_strlit("Running");
    reveal_strlit("Stopping");
    reveal_strlit("Ended");
    reveal_strlit("Removed");
    reveal_strlit("split-right");
    reveal_strlit("split-down");
    reveal_strlit("new-tab");
    reveal_strlit("replace-current-pane");
    assert("Creating"@[0] == 'C' && "Running"@[0] == 'R' && "Running"@[1] == 'u');
    assert("Stopping"@[0] == 'S' && "Ended"@[0] == 'E' && "Removed"@[1] == 'e');
    assert("Removed"@[0] == 'R');
    assert("split-right"@[6] == 'r' && "split-down"@[6] == 'd' && "new-tab"@[0] == 'n');
    assert("replace-current-pane"@[0] == 'r' && "split-right"@[0] == 's');
    assert("split-down"@[0] == 's');
}

/// Another session is attached by the given program, at the given target and
/// under the given name, which is never taken for an option.
pub proof fn attaching_passes_target_and_name_as_they_are(
    executable: Seq<char>,
    target: Seq<char>,
    name: Seq<char>,
)
    ensures
        ({
            let command = external_attach(executable, target, name);
            &&& command.program == executable
            &&& command.args.len() == 6
            &&& command.args.take(3) == seq!["session"@, "attach-external"@, "--target"@]
            &&& command.args[3] == target
            &&& command.args[4] == "--"@
            &&& command.args[5] == name
        }),
{
    let command = external_attach(executable, target, name);
    assert(command.args.take(3) =~= seq!["session"@, "attach-external"@, "--target"@]);
}

/// A hint stands before the whole command, which is otherwise run as it is;
/// without a hint it is run as it is.
pub proof fn hints_stand_before_the_command(command: CommandView, agent: Seq<char>)
    ensures
        hinted(command, None) == command,
        hinted(command, Some(agent)).program == "env"@,
        hinted(command, Some(agent)).args.len() == command.args.len() + 2,
        hinted(command, Some(agent)).args[0] == "HERDR_AGENT="@ + agent,
        hinted(command, Some(agent)).args[1] == command.program,
        hinted(command, Some(agent)).args.skip(2) == command.args,
{
    assert(hinted(command, Some(agent)).args.skip(2) =~= command.args);
}

/// An Observer is run by the given program, for the given group, and told the
/// pane, the workspace and the Herdr it belongs to.
pub proof fn observers_are_told_where_they_belong(
    executable: Seq<char>,
    group_id: Seq<char>,
    pane_id: Seq<char>,
    workspace_id: Seq<char>,
    binary: Seq<char>,
)
    ensures
        ({
            let command = observer_runtime(executable, group_id, pane_id, workspace_id, binary);
            &&& command.program == executable
            &&& command.args.len() == 9
            &&& command.args[0] == "orchestration"@
            &&& command.args[1] == "observer-runtime"@
            &&& command.args[2] == group_id
            &&& command.args[3] == "--pane-id"@
            &&& command.args[4] == pane_id
            &&& command.args[5] == "--workspace-id"@
            &&& command.args[6] == workspace_id
            &&& command.args[7] == "--herdr-bin"@
            &&& command.args[8] == binary
        }),
{
}

/// A replacement is confirmed by `y` or `yes`, in letters of either size and
/// between white space or not, and by nothing else.
pub proof fn only_a_yes_confirms(answer: Seq<char>)
    ensures
        says_yes(answer) <==> {
            let word = trimmed(answer).map_values(
                |c: char|
                    if c == 'Y' {
                        'y'
                    } else if c == 'E' {
                        'e'
                    } else if c == 'S' {
                        's'
                    } else {
                        c
                    },
            );
            word == seq!['y'] || word == seq!['y', 'e', 's']
        },
{
    let word = trimmed(answer).map_values(
        |c: char|
            if c == 'Y' {
                'y'
            } else if c == 'E' {
                'e'
            } else if c == 'S' {
                's'
            } else {
                c
            },
    );
    if says_yes(answer) {
        if word.len() == 1 {
            assert(word =~= seq!['y']);
        } else {
            assert(word =~= seq!['y', 'e', 's']);
        }
    }
    let letters = trimmed(answer);
    if word == seq!['y'] {
        assert(word.len() == 1 && word[0] == 'y');
        assert(letters[0] == 'y' || letters[0] == 'Y');
    }
    if word == seq!['y', 'e', 's'] {
        assert(word.len() == 3 && word[0] == 'y' && word[1] == 'e' && word[2] == 's');
        assert(letters[0] == 'y' || letters[0] == 'Y');
        assert(letters[1] == 'e' || letters[1] == 'E');
        assert(letters[2] == 's' || letters[2] == 'S');
    }
}

} // verus!
