//! What tmux is told, and what its answers tell of a workload.

use vstd::prelude::*;
use vstd::string::*;

use crate::backend::{absolute_only, lookup_directories, LaunchSpec};
use crate::fields::{number_of, parts_between};
use crate::model::{denotes_tmux_id, session_id_text, OwnershipProof, TmuxSessionId};
use crate::text::{numeral, numeral_value};
use crate::text_laws::{holds_part, lemma_holds};
use crate::tmux_command::{
    attaching, closing, creating, guard_condition, guarded, identity_text, remote_tmux,
};
use crate::tmux_listing::{listed_status, told, told_by, ListedView};
use crate::transport::{transport_detail, transport_error_text, BoundedOutput};
use crate::uuids::simple_text;

verus! {

/// A workload is created under its own name, in its directory and with its
/// command, carries its proof of ownership, and keeps its pane when it ends.
pub proof fn workloads_are_created_as_launched(launch: LaunchSpec)
    ensures
        ({
            let args = creating(launch);
            &&& args.len() == 18
            &&& args[0] == "new-session"@ && args[1] == "-d"@
            &&& args[2] == "-P"@ && args[3] == "-F"@ && args[4] == "#{session_id}"@
            &&& args[5] == "-s"@ && args[6] == session_id_text(launch.id@)
            &&& args[7] == "-c"@ && args[8] == launch.directory@
            &&& args[9] == launch.command@
            &&& args[10] == ";"@ && args[11] == "set-option"@
            &&& args[12] == "@tether_ownership_proof"@
            &&& args[13] == simple_text(launch.ownership_proof@)
            &&& args[14] == ";"@ && args[15] == "set-option"@
            &&& args[16] == "remain-on-exit"@ && args[17] == "on"@
        }),
{
}

/// Whatever is done with a session is done only where the proof of ownership and
/// the identity both agree; otherwise the rejection is printed and the command
/// fails.
pub proof fn sessions_are_touched_behind_a_guard(
    identity: TmuxSessionId,
    ownership_proof: OwnershipProof,
    act: Seq<char>,
)
    ensures
        ({
            let args = guarded(identity, ownership_proof, act);
            &&& args.len() == 7
            &&& args[0] == "if-shell"@
            &&& args[1] == "-t"@ && args[2] == seq!['$'] + numeral(identity@ as nat)
            &&& args[3] == "-F"@
            &&& holds_part(args[4], simple_text(ownership_proof@))
            &&& holds_part(args[4], seq!['$'] + numeral(identity@ as nat))
            &&& holds_part(args[4], "#{@tether_ownership_proof}"@)
            &&& holds_part(args[4], "#{session_id}"@)
            &&& args[5] == act
            &&& holds_part(args[6], "TETHER_OWNERSHIP_GUARD_REJECTED"@)
            &&& holds_part(args[6], "exit 75"@)
        }),
        holds_part(attaching(identity), "attach-session -t "@ + identity_text(identity)),
        closing(identity) == "kill-session -t "@ + (seq!['$'] + numeral(identity@ as nat)),
        remote_tmux(seq![act]).program == "tmux"@,
        remote_tmux(seq![act]).args == seq![act],
{
    let id = identity_text(identity);
    let owner = simple_text(ownership_proof@);
    let start = "#{&&:#{==:#{@tether_ownership_proof},"@;
    let middle = "},#{==:#{session_id},"@;
    let condition = guard_condition(identity, ownership_proof);
    lemma_holds(start, owner, middle + id + "}}"@);
    assert(condition =~= start + owner + (middle + id + "}}"@));
    lemma_holds(start + owner + middle, id, "}}"@);
    reveal_strlit("#{&&:#{==:#{@tether_ownership_proof},");
    reveal_strlit("#{@tether_ownership_proof}");
    reveal_strlit("},#{==:#{session_id},");
    reveal_strlit("#{session_id}");
    let part = "#{@tether_ownership_proof}"@;
    assert(condition.subrange(10, 10 + part.len() as int) =~= part);
    let part = "#{session_id}"@;
    let at = start.len() + owner.len() + 7;
    assert(condition.subrange(at as int, at as int + part.len()) =~= part);
    reveal_strlit("display-message -p TETHER_OWNERSHIP_GUARD_REJECTED ; run-shell 'exit 75'");
    reveal_strlit("TETHER_OWNERSHIP_GUARD_REJECTED");
    reveal_strlit("exit 75");
    let rejection = "display-message -p TETHER_OWNERSHIP_GUARD_REJECTED ; run-shell 'exit 75'"@;
    let part = "TETHER_OWNERSHIP_GUARD_REJECTED"@;
    assert(rejection.subrange(19, 19 + part.len() as int) =~= part);
    let part = "exit 75"@;
    assert(rejection.subrange(64, 64 + part.len() as int) =~= part);
    reveal_strlit(" mouse on ; attach-session -t ");
    reveal_strlit("attach-session -t ");
    let attach = attaching(identity);
    let part = "attach-session -t "@ + id;
    let at = attach.len() - part.len();
    assert(attach.subrange(at, at + part.len()) =~= part);
}

/// A line tells of a workload only if it bears its name. It is known only with
/// the owner and the form that are expected; then it runs or, where its pane is
/// dead, has ended.
pub proof fn lines_tell_of_their_session(line: Seq<char>, name: Seq<char>, owner: Seq<char>)
    requires
        parts_between(line, ':').len() > 0,
    ensures
        ({
            let fields = parts_between(line, ':');
            let known = fields.len() == 6 && fields[5] == owner && denotes_tmux_id(fields[1]);
            let identity = numeral_value(fields[1].skip(1)) as u64;
            let r = told_by(line, name, owner);
            &&& r is None <==> fields[0] != name
            &&& fields[0] == name && !known ==> r == Some(ListedView::Unknown)
            &&& fields[0] == name && known && fields[3] == "1"@ ==> r == Some(
                ListedView::Ended { identity, exit_status: listed_status(fields[4]) },
            )
            &&& fields[0] == name && known && fields[3] != "1"@ && number_of(fields[2]) is Some
                && number_of(fields[2])->0 <= 4_294_967_295 ==> r == Some(
                ListedView::Running { identity, attached: number_of(fields[2])->0 as u32 },
            )
            &&& fields[0] == name && known && fields[3] != "1"@ && (number_of(fields[2]) is None
                || number_of(fields[2])->0 > 4_294_967_295) ==> r == Some(ListedView::Unknown)
        }),
{
}

/// The first line that tells of a workload counts; where none does, it is
/// missing.
pub proof fn the_first_line_counts(
    lines: Seq<Seq<char>>,
    name: Seq<char>,
    owner: Seq<char>,
    at: int,
)
    ensures
        0 <= at < lines.len() && told_by(lines[at], name, owner) is Some && (forall|i: int|
            0 <= i < at ==> told_by(#[trigger] lines[i], name, owner) is None) ==> told(
            lines,
            name,
            owner,
        ) == told_by(lines[at], name, owner)->0,
        (forall|i: int|
            0 <= i < lines.len() ==> told_by(#[trigger] lines[i], name, owner) is None) ==> told(
            lines,
            name,
            owner,
        ) == ListedView::Missing,
    decreases lines.len(),
{
    if lines.len() > 0 {
        let rest = lines.drop_first();
        the_first_line_counts(rest, name, owner, at - 1);
        assert(forall|i: int| 0 <= i < rest.len() ==> rest[i] == lines[i + 1]);
        if 0 < at < lines.len() && (forall|i: int|
            0 <= i < at ==> told_by(#[trigger] lines[i], name, owner) is None) {
            assert(told_by(lines[0], name, owner) is None);
            assert forall|i: int| 0 <= i < at - 1 implies told_by(
                #[trigger] rest[i],
                name,
                owner,
            ) is None by {
                assert(told_by(lines[i + 1], name, owner) is None);
            }
        }
        if forall|i: int|
            0 <= i < lines.len() ==> told_by(#[trigger] lines[i], name, owner) is None {
            assert(told_by(lines[0], name, owner) is None);
            assert forall|i: int| 0 <= i < rest.len() implies told_by(
                #[trigger] rest[i],
                name,
                owner,
            ) is None by {
                assert(told_by(lines[i + 1], name, owner) is None);
            }
        }
    }
}

/// An exit status is a number of 31 bits, or not known.
pub proof fn exit_statuses_are_numbers(field: Seq<char>)
    ensures
        listed_status(field) matches Some(status) ==> number_of(field) == Some(status as u64)
            && status >= 0,
        number_of(field) matches Some(number) ==> (number <= 2_147_483_647 <==> listed_status(
            field,
        ) is Some),
        number_of(field) is None ==> listed_status(field) is None,
{
}

/// What is said of a transport that failed tells how: with its status and, where
/// there is any, its detail; that it was cut is told too.
pub proof fn transport_failures_tell_how(
    success: bool,
    code: Option<i32>,
    status: String,
    stdout: Vec<u8>,
    stdout_truncated: bool,
    output: BoundedOutput,
    ownership_proof: Seq<char>,
)
    requires
        output is Completed,
        output->status@ == status@,
    ensures
        ({
            let text = transport_error_text(output, ownership_proof);
            let detail = transport_detail(output->stderr@, ownership_proof);
            &&& holds_part(text, status@)
            &&& detail.len() > 0 ==> holds_part(text, detail)
            &&& output->stderr_truncated ==> holds_part(text, " [stderr truncated]"@)
        }),
{
    let detail = transport_detail(output->stderr@, ownership_proof);
    let cut = if output->stderr_truncated {
        " [stderr truncated]"@
    } else {
        ""@
    };
    let head = "transport failed with status "@;
    if detail.len() == 0 {
        lemma_holds(head, status@, cut);
        lemma_holds(head + status@, cut, Seq::empty());
    } else {
        lemma_holds(head, status@, ": "@ + detail + cut);
        assert(transport_error_text(output, ownership_proof) =~= head + status@ + (": "@ + detail
            + cut));
        lemma_holds(head + status@ + ": "@, detail, cut);
        lemma_holds(head + status@ + ": "@ + detail, cut, Seq::empty());
    }
}

/// Programs are looked up in the absolute directories of the search path, in
/// their order, and then in the standard ones.
pub proof fn programs_are_looked_up_in_absolute_directories(paths: Seq<Seq<char>>)
    ensures
        absolute_only(paths) == paths.filter(
            |path: Seq<char>| path.len() > 0 && path[0] == '/',
        ),
        lookup_directories(paths) == paths.filter(
            |path: Seq<char>| path.len() > 0 && path[0] == '/',
        ) + seq!["/usr/bin"@, "/bin"@, "/opt/homebrew/bin"@, "/usr/local/bin"@],
    decreases paths.len(),
{
    reveal(Seq::filter);
    if paths.len() > 0 {
        programs_are_looked_up_in_absolute_directories(paths.drop_last());
    } else {
        assert(paths.filter(|path: Seq<char>| path.len() > 0 && path[0] == '/') =~= Seq::empty());
    }
}

} // verus!
