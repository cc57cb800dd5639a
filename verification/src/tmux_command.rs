//! The tmux commands that create, attach and close an owned session.
//!
//! A command that attaches or closes is guarded: tmux runs it only in the
//! session that has the recorded identity and the recorded proof of ownership.

use vstd::prelude::*;
use vstd::string::*;

use crate::backend::{command_line, holds_nul, CommandSpec, CommandView, LaunchSpec, ProcessBinaries};
use crate::discovery_remote::{ssh_arguments, ssh_command, SshDestination};
use crate::herdr_reply::{attach_process, ProcessView};
use crate::model::{session_id_text, ExternalSessionName, OwnershipProof, TmuxSessionId};
use crate::path_text::file_name;
use crate::quote::QuoteError;
use crate::text::{numeral, views};
use crate::uuids::simple_text;

verus! {

/// What tmux prints where the guard finds another session.
pub const OWNERSHIP_GUARD_REJECTED: &'static str = "TETHER_OWNERSHIP_GUARD_REJECTED";

/// How tmux is told an identity.
pub open spec fn identity_text(identity: TmuxSessionId) -> Seq<char> {
    seq!['$'] + numeral(identity@ as nat)
}

/// The condition that holds in the session of the recorded identity and proof.
pub open spec fn guard_condition(identity: TmuxSessionId, ownership_proof: OwnershipProof) -> Seq<char> {
    "#{&&:#{==:#{@tether_ownership_proof},"@ + simple_text(ownership_proof@)
        + "},#{==:#{session_id},"@ + identity_text(identity) + "}}"@
}

/// The arguments of tmux that do something where the guard agrees.
pub open spec fn guarded(
    identity: TmuxSessionId,
    ownership_proof: OwnershipProof,
    act: Seq<char>,
) -> Seq<Seq<char>> {
    seq![
        "if-shell"@,
        "-t"@,
        identity_text(identity),
        "-F"@,
        guard_condition(identity, ownership_proof),
        act,
        "display-message -p TETHER_OWNERSHIP_GUARD_REJECTED ; run-shell 'exit 75'"@,
    ]
}

/// What attaches to a session.
pub open spec fn attaching(identity: TmuxSessionId) -> Seq<char> {
    "set-option -t "@ + identity_text(identity) + " mouse on ; attach-session -t "@
        + identity_text(identity)
}

/// What closes a session.
pub open spec fn closing(identity: TmuxSessionId) -> Seq<char> {
    "kill-session -t "@ + identity_text(identity)
}

/// The arguments of tmux that create the session of a workload.
pub open spec fn creating(launch: LaunchSpec) -> Seq<Seq<char>> {
    seq![
        "new-session"@,
        "-d"@,
        "-P"@,
        "-F"@,
        "#{session_id}"@,
        "-s"@,
        session_id_text(launch.id@),
        "-c"@,
        launch.directory@,
        launch.command@,
        ";"@,
        "set-option"@,
        "@tether_ownership_proof"@,
        simple_text(launch.ownership_proof@),
        ";"@,
        "set-option"@,
        "remain-on-exit"@,
        "on"@,
    ]
}

/// The arguments of tmux that do `act` where the guard agrees.
fn guarded_arguments(identity: TmuxSessionId, ownership_proof: &OwnershipProof, act: String) -> (args:
    Vec<String>)
    ensures
        views(args@) == guarded(identity, *ownership_proof, act@),
{
    let named = identity.to_string();
    let condition = "#{&&:#{==:#{@tether_ownership_proof},".to_owned().concat(
        ownership_proof.to_string().as_str(),
    ).concat("},#{==:#{session_id},").concat(named.as_str()).concat("}}");
    let args = vec![
        "if-shell".to_owned(),
        "-t".to_owned(),
        named,
        "-F".to_owned(),
        condition,
        act,
        "display-message -p TETHER_OWNERSHIP_GUARD_REJECTED ; run-shell 'exit 75'".to_owned(),
    ];
    assert(views(args@) =~= guarded(identity, *ownership_proof, act@));
    args
}

/// The arguments of tmux that attach to one incarnation of a workload.
pub fn attach_arguments(identity: TmuxSessionId, ownership_proof: &OwnershipProof) -> (args: Vec<
    String,
>)
    ensures
        views(args@) == guarded(identity, *ownership_proof, attaching(identity)),
{
    let named = identity.to_string();
    let act = "set-option -t ".to_owned().concat(named.as_str()).concat(
        " mouse on ; attach-session -t ",
    ).concat(named.as_str());
    guarded_arguments(identity, ownership_proof, act)
}

/// The arguments of tmux that close one incarnation of a workload.
pub fn close_arguments(identity: TmuxSessionId, ownership_proof: &OwnershipProof) -> (args: Vec<
    String,
>)
    ensures
        views(args@) == guarded(identity, *ownership_proof, closing(identity)),
{
    let act = "kill-session -t ".to_owned().concat(identity.to_string().as_str());
    guarded_arguments(identity, ownership_proof, act)
}

/// The arguments of tmux that create the session of a workload.
pub fn create_arguments(launch: &LaunchSpec) -> (args: Vec<String>)
    ensures
        views(args@) == creating(*launch),
{
    let args = vec![
        "new-session".to_owned(),
        "-d".to_owned(),
        "-P".to_owned(),
        "-F".to_owned(),
        "#{session_id}".to_owned(),
        "-s".to_owned(),
        launch.id.to_string(),
        "-c".to_owned(),
        launch.directory.clone(),
        launch.command.clone(),
        ";".to_owned(),
        "set-option".to_owned(),
        "@tether_ownership_proof".to_owned(),
        launch.ownership_proof.to_string(),
        ";".to_owned(),
        "set-option".to_owned(),
        "remain-on-exit".to_owned(),
        "on".to_owned(),
    ];
    assert(views(args@) =~= creating(*launch));
    args
}

/// The arguments of tmux that attach to a session of somebody else, by its
/// exact name.
pub fn attach_external_arguments(name: &ExternalSessionName) -> (args: Vec<String>)
    ensures
        views(args@) == seq!["attach-session"@, "-t"@, "="@ + name@],
{
    let args = vec![
        "attach-session".to_owned(),
        "-t".to_owned(),
        "=".to_owned().concat(name.as_str()),
    ];
    assert(views(args@) =~= seq!["attach-session"@, "-t"@, "="@ + name@]);
    args
}

/// The command that runs tmux on another machine.
pub open spec fn remote_tmux(args: Seq<Seq<char>>) -> CommandView {
    CommandView { program: "tmux"@, args }
}

/// The command that runs tmux here, or on the machine that OpenSSH connects to.
/// An argument with NUL cannot be handed over. `connection` holds the options
/// with which OpenSSH connects.
pub fn tmux_command(
    target: Option<&SshDestination>,
    binaries: &ProcessBinaries,
    connection: &Vec<String>,
    args: Vec<String>,
) -> (r: Result<CommandSpec, QuoteError>)
    ensures
        match target {
            None => r is Ok && r->Ok_0@ == (CommandView {
                program: binaries@.tmux,
                args: views(args@),
            }),
            Some(target) => {
                &&& r is Err <==> holds_nul(remote_tmux(views(args@)))
                &&& r is Ok ==> r->Ok_0@ == (CommandView {
                    program: binaries@.ssh,
                    args: ssh_arguments(
                        views(connection@),
                        target.destination@,
                        target.port,
                        command_line(remote_tmux(views(args@))),
                    ),
                })
            },
        },
{
    match target {
        None => Ok(CommandSpec::new(binaries.tmux().to_owned(), args)),
        Some(target) => {
            let remote = CommandSpec::new("tmux".to_owned(), args);
            match remote.posix_command_line() {
                Ok(line) => Ok(ssh_command(target, binaries, connection, line)),
                Err(error) => Err(error),
            }
        },
    }
}

/// A process that runs the command which attaches to a workload is recognized,
/// and one that attaches to another incarnation is not.
pub proof fn attach_commands_are_recognized(
    process: ProcessView,
    program: Seq<char>,
    identity: TmuxSessionId,
    other: TmuxSessionId,
    ownership_proof: OwnershipProof,
)
    requires
        process.argv.len() > 0,
        file_name(process.argv[0]) == Some("tmux"@),
        file_name(program) == Some("tmux"@),
        process.argv.drop_first() == guarded(other, ownership_proof, attaching(other)),
    ensures
        attach_process(
            process,
            CommandView { program, args: guarded(identity, ownership_proof, attaching(identity)) },
        ) <==> identity_text(other) == identity_text(identity),
{
    reveal_strlit("tmux");
    reveal_strlit("env");
    assert("tmux"@.len() != "env"@.len());
    let command = CommandView {
        program,
        args: guarded(identity, ownership_proof, attaching(identity)),
    };
    let ran = guarded(other, ownership_proof, attaching(other));
    assert(command.args.len() == 7);
    assert(ran[2] == identity_text(other));
    assert(command.args[2] == identity_text(identity));
}

} // verus!
