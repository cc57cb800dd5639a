//! What lists, the audit trail, titles and the doctor tell of what is so.

use vstd::prelude::*;
use vstd::string::*;

use crate::audit::{
    entries_since, kept_entries, newest_entries, status_word, window, AuditAction, AuditEntry,
};
use crate::backend::joined_path;
use crate::clock::{instant_text, rfc3339, Timestamp};
use crate::command_text::{
    checkouts, refused_text, reload_text, rollback_text, unrecognized_text, unusable,
    WorktreeFinding,
};
use crate::doctor::{
    context_status, detail_of, diagnosis, examined, failures_text, file_text, given_value,
    missing_context, one_line, passes, protocol_status, protocol_text, required_failures,
    tool_status, tool_text, DoctorCheck, DoctorStatus, Examination, FileFinding, ProtocolProbe,
    ProtocolRange, ToolProbe,
};
use crate::herdr::{EnvValue, HerdrEnvironment};
use crate::interrupt::{Budget, Retry};
use crate::launch::status_text;
use crate::model::session_id_text;
use crate::pane_title::{
    behind_launchers, bounded_title, first_name, kept_components, launcher, shown_host, title_of,
    title_component, title_separator, unquoted, workload_component,
};
use crate::paths::directory_of;
use crate::session_list::{group_line, normal_records, session_line};
use crate::state::{listed_before, GroupView, RecordView, SessionStatus};
use crate::text::{
    blank, control, joined, numeral, signed_numeral, white_space, words_of,
};
use crate::text_laws::{
    holds_part, lemma_holds, lemma_holds_each, lemma_holds_together, lemma_keeps,
};
use crate::word_laws::{collapsed_words_stand_apart_by_one_space, white_space_parts_words};

verus! {

/// Everything but what was removed is listed, in the order of the state.
pub proof fn all_but_removed_workloads_are_listed(records: Seq<RecordView>)
    ensures
        normal_records(records) == records.filter(
            |record: RecordView| record.status != SessionStatus::Removed,
        ),
    decreases records.len(),
{
    reveal(Seq::filter);
    if records.len() > 0 {
        all_but_removed_workloads_are_listed(records.drop_last());
    } else {
        assert(records.filter(|record: RecordView| record.status != SessionStatus::Removed)
            =~= Seq::empty());
    }
}

/// Running workloads come first; among the others, and among themselves, those
/// that were used last.
pub proof fn running_and_recent_workloads_come_first(a: RecordView, b: RecordView)
    ensures
        a.status == SessionStatus::Running && b.status != SessionStatus::Running ==> listed_before(
            a,
            b,
        ) && !listed_before(b, a),
        (a.status == SessionStatus::Running) == (b.status == SessionStatus::Running) && (
        a.last_used_at.secs > b.last_used_at.secs || a.last_used_at.secs == b.last_used_at.secs
            && a.last_used_at.nanos > b.last_used_at.nanos) ==> listed_before(a, b)
            && !listed_before(b, a),
        (a.status == SessionStatus::Running) == (b.status == SessionStatus::Running)
            && a.last_used_at == b.last_used_at && a.id@ < b.id@ ==> listed_before(a, b)
            && !listed_before(b, a),
{
}

/// The line of a workload tells which it is, where it runs, when it was used and
/// how it stands.
pub proof fn lines_tell_of_their_workload(record: RecordView)
    ensures
        session_id_text(record.id@).is_prefix_of(session_line(record)),
        holds_part(session_line(record), "\t"@ + record.host + "\t"@),
        holds_part(session_line(record), "\t"@ + record.directory + "\t"@),
        holds_part(
            session_line(record),
            instant_text(record.last_used_at.secs, record.last_used_at.nanos),
        ),
        holds_part(session_line(record), status_text(record)),
{
    lemma_line(
        session_id_text(record.id@),
        "\t"@,
        record.host,
        record.directory,
        instant_text(record.last_used_at.secs, record.last_used_at.nanos),
        status_text(record),
    );
}

/// A line of five fields holds each of them.
proof fn lemma_line(
    a: Seq<char>,
    tab: Seq<char>,
    b: Seq<char>,
    c: Seq<char>,
    d: Seq<char>,
    e: Seq<char>,
)
    ensures
        ({
            let line = a + tab + b + tab + c + tab + d + tab + e;
            &&& a.is_prefix_of(line)
            &&& holds_part(line, tab + b + tab)
            &&& holds_part(line, tab + c + tab)
            &&& holds_part(line, d)
            &&& holds_part(line, e)
        }),
{
    let l1 = a + tab + b + tab;
    let l2 = l1 + c + tab;
    let l3 = l2 + d;
    assert(a.is_prefix_of(a)) by {
        assert(a.subrange(0, a.len() as int) =~= a);
    }
    lemma_keeps(a, a, tab);
    lemma_keeps(a + tab, a, b);
    lemma_keeps(a + tab + b, a, tab);
    lemma_keeps(l1, a, c);
    lemma_keeps(l1 + c, a, tab);
    lemma_keeps(l2, a, d);
    lemma_keeps(l3, a, tab);
    lemma_keeps(l3 + tab, a, e);
    lemma_holds_together(a, tab, b, tab);
    lemma_keeps(l1, tab + b + tab, c);
    lemma_keeps(l1 + c, tab + b + tab, tab);
    lemma_keeps(l2, tab + b + tab, d);
    lemma_keeps(l3, tab + b + tab, tab);
    lemma_keeps(l3 + tab, tab + b + tab, e);
    lemma_holds_together(a + tab + b, tab, c, tab);
    lemma_keeps(l2, tab + c + tab, d);
    lemma_keeps(l3, tab + c + tab, tab);
    lemma_keeps(l3 + tab, tab + c + tab, e);
    lemma_holds(l2, d, Seq::empty());
    lemma_keeps(l3, d, tab);
    lemma_keeps(l3 + tab, d, e);
    lemma_holds(l3 + tab, e, Seq::empty());
}

/// The line of a group tells which it is, its orchestrator and how many workers
/// it has.
pub proof fn lines_tell_of_their_group(group: GroupView)
    ensures
        group.id.is_prefix_of(group_line(group)),
        holds_part(group_line(group), "\t"@ + group.title + "\t"@),
        holds_part(group_line(group), session_id_text(group.orchestrator@)),
        holds_part(group_line(group), numeral(group.workers.len()) + " workers"@),
{
    lemma_short_line(
        group.id,
        "\t"@,
        group.title,
        session_id_text(group.orchestrator@),
        numeral(group.workers.len()),
        " workers"@,
    );
}

/// A line of four fields holds each of them.
proof fn lemma_short_line(
    a: Seq<char>,
    tab: Seq<char>,
    b: Seq<char>,
    c: Seq<char>,
    d: Seq<char>,
    end: Seq<char>,
)
    ensures
        ({
            let line = a + tab + b + tab + c + tab + d + end;
            &&& a.is_prefix_of(line)
            &&& holds_part(line, tab + b + tab)
            &&& holds_part(line, c)
            &&& holds_part(line, d + end)
        }),
{
    let l1 = a + tab + b + tab;
    let l2 = l1 + c + tab;
    assert(a.is_prefix_of(a)) by {
        assert(a.subrange(0, a.len() as int) =~= a);
    }
    lemma_keeps(a, a, tab);
    lemma_keeps(a + tab, a, b);
    lemma_keeps(a + tab + b, a, tab);
    lemma_keeps(l1, a, c);
    lemma_keeps(l1 + c, a, tab);
    lemma_keeps(l2, a, d);
    lemma_keeps(l2 + d, a, end);
    lemma_holds_together(a, tab, b, tab);
    lemma_keeps(l1, tab + b + tab, c);
    lemma_keeps(l1 + c, tab + b + tab, tab);
    lemma_keeps(l2, tab + b + tab, d);
    lemma_keeps(l2 + d, tab + b + tab, end);
    lemma_holds(l1, c, Seq::empty());
    lemma_keeps(l1 + c, c, tab);
    lemma_keeps(l2, c, d);
    lemma_keeps(l2 + d, c, end);
    lemma_holds_together(l2, d, end, Seq::empty());
}

/// Transitions are dropped by their age alone, in order.
pub proof fn transitions_are_kept_by_age(entries: Seq<AuditEntry>, cutoff: Timestamp)
    ensures
        entries_since(entries, cutoff) == entries.filter(
            |entry: AuditEntry|
                entry.at.secs > cutoff.secs || entry.at.secs == cutoff.secs && entry.at.nanos
                    >= cutoff.nanos,
        ),
    decreases entries.len(),
{
    reveal(Seq::filter);
    if entries.len() > 0 {
        transitions_are_kept_by_age(entries.drop_last(), cutoff);
    } else {
        assert(entries.filter(
            |entry: AuditEntry|
                entry.at.secs > cutoff.secs || entry.at.secs == cutoff.secs && entry.at.nanos
                    >= cutoff.nanos,
        ) =~= Seq::empty());
    }
}

/// Of the transitions of the last days the newest 4,096 are kept, and all of
/// them if there are no more. The last one always is, if it is young enough.
pub proof fn the_newest_transitions_are_kept(
    entries: Seq<AuditEntry>,
    days: u64,
    now: Timestamp,
)
    ensures
        newest_entries(entries).is_suffix_of(entries),
        newest_entries(entries).len() == if entries.len() < 4_096 {
            entries.len() as int
        } else {
            4_096
        },
        days <= 36_500 ==> window(days) == Some(days * 86_400),
        window(days) matches Some(seconds) ==> kept_entries(entries, days, now)
            == newest_entries(entries_since(entries, now.earlier(seconds)->0)),
        window(days) is None ==> kept_entries(entries, days, now) == newest_entries(entries),
{
    assert(entries.subrange(0, entries.len() as int) =~= entries);
}

/// A line of the trail tells when, which workload, what was done and what came
/// of it.
pub proof fn lines_of_the_trail_tell_all(entry: AuditEntry)
    ensures
        rfc3339(entry.at.secs, entry.at.nanos).is_prefix_of(entry.line()),
        holds_part(entry.line(), session_id_text(entry.session@)),
        holds_part(entry.line(), "\t"@ + entry.action.word() + "\t"@),
        entry.from matches Some(status) ==> holds_part(
            entry.line(),
            "\t"@ + status_word(status) + " → "@ + status_word(entry.to),
        ),
        entry.from is None ==> holds_part(entry.line(), "\t"@ + status_word(entry.to)),
        entry.incarnation matches Some(id) ==> holds_part(
            entry.line(),
            " · $"@ + numeral(id@ as nat),
        ),
        entry.exit_status matches Some(status) ==> holds_part(
            entry.line(),
            " · exit "@ + signed_numeral(status as int),
        ),
{
    let at = rfc3339(entry.at.secs, entry.at.nanos);
    let from = match entry.from {
        Some(status) => status_word(status) + " → "@,
        None => ""@,
    };
    let incarnation = match entry.incarnation {
        Some(id) => " · "@ + (seq!['$'] + numeral(id@ as nat)),
        None => ""@,
    };
    let exit = match entry.exit_status {
        Some(status) => " · exit "@ + signed_numeral(status as int),
        None => ""@,
    };
    let to = status_word(entry.to);
    lemma_trail_line(
        at,
        "\t"@,
        session_id_text(entry.session@),
        entry.action.word(),
        from,
        to,
        incarnation,
        exit,
    );
    if entry.from is Some {
        lemma_regrouped("\t"@, status_word(entry.from->0), " → "@, to);
    } else {
        lemma_nothing("\t"@, to);
    }
    if entry.incarnation is Some {
        lemma_dollar(numeral(entry.incarnation->0@ as nat));
    }
}

/// Texts are the same however they are put together.
proof fn lemma_regrouped(a: Seq<char>, b: Seq<char>, c: Seq<char>, d: Seq<char>)
    ensures
        a + (b + c) + d == a + b + c + d,
{
    assert(a + (b + c) + d =~= a + b + c + d);
}

/// An empty text between two adds nothing.
proof fn lemma_nothing(a: Seq<char>, b: Seq<char>)
    ensures
        a + ""@ + b == a + b,
{
    reveal_strlit("");
    assert(a + ""@ + b =~= a + b);
}

/// The dot and the dollar sign before an identity.
proof fn lemma_dollar(number: Seq<char>)
    ensures
        " · "@ + (seq!['$'] + number) == " · $"@ + number,
{
    reveal_strlit(" · $");
    reveal_strlit(" · ");
    assert(" · "@ + (seq!['$'] + number) =~= " · $"@ + number);
}

/// A line of the trail holds each of its parts.
proof fn lemma_trail_line(
    a: Seq<char>,
    tab: Seq<char>,
    b: Seq<char>,
    c: Seq<char>,
    from: Seq<char>,
    to: Seq<char>,
    d: Seq<char>,
    e: Seq<char>,
)
    ensures
        ({
            let line = a + tab + b + tab + c + tab + from + to + d + e;
            &&& a.is_prefix_of(line)
            &&& holds_part(line, b)
            &&& holds_part(line, tab + c + tab)
            &&& holds_part(line, tab + from + to)
            &&& holds_part(line, d)
            &&& holds_part(line, e)
        }),
{
    let l1 = a + tab + b;
    let l2 = l1 + tab + c + tab;
    let l3 = l2 + from + to;
    assert(a.is_prefix_of(a)) by {
        assert(a.subrange(0, a.len() as int) =~= a);
    }
    lemma_keeps(a, a, tab);
    lemma_keeps(a + tab, a, b);
    lemma_keeps(l1, a, tab);
    lemma_keeps(l1 + tab, a, c);
    lemma_keeps(l1 + tab + c, a, tab);
    lemma_keeps(l2, a, from);
    lemma_keeps(l2 + from, a, to);
    lemma_keeps(l3, a, d);
    lemma_keeps(l3 + d, a, e);
    lemma_holds(a + tab, b, Seq::empty());
    lemma_keeps(l1, b, tab);
    lemma_keeps(l1 + tab, b, c);
    lemma_keeps(l1 + tab + c, b, tab);
    lemma_keeps(l2, b, from);
    lemma_keeps(l2 + from, b, to);
    lemma_keeps(l3, b, d);
    lemma_keeps(l3 + d, b, e);
    lemma_holds_together(l1, tab, c, tab);
    lemma_keeps(l2, tab + c + tab, from);
    lemma_keeps(l2 + from, tab + c + tab, to);
    lemma_keeps(l3, tab + c + tab, d);
    lemma_keeps(l3 + d, tab + c + tab, e);
    lemma_holds_together(l1 + tab + c, tab, from, to);
    lemma_keeps(l3, tab + from + to, d);
    lemma_keeps(l3 + d, tab + from + to, e);
    lemma_holds(l3, d, Seq::empty());
    lemma_keeps(l3 + d, d, e);
    lemma_holds(l3 + d, e, Seq::empty());
}

/// No two actions, and no two statuses, have the same word.
pub proof fn words_tell_actions_and_statuses_apart(
    a: AuditAction,
    b: AuditAction,
    c: SessionStatus,
    d: SessionStatus,
)
    ensures
        a.word() == b.word() ==> a == b,
        status_word(c) == status_word(d) ==> c == d,
        AuditAction::Create.word() == "create"@,
        AuditAction::Stop.word() == "stop"@,
        AuditAction::Removed.word() == "removed"@,
        status_word(SessionStatus::Running) == "running"@,
        status_word(SessionStatus::Ended) == "ended"@,
{
    reveal_strlit("create");
    reveal_strlit("activate");
    reveal_strlit("stop");
    reveal_strlit("stopped");
    reveal_strlit("restart");
    reveal_strlit("observed");
    reveal_strlit("reconciled");
    reveal_strlit("removed");
    reveal_strlit("creating");
    reveal_strlit("running");
    reveal_strlit("stopping");
    reveal_strlit("ended");
    assert(a.word().len() == b.word().len() && a.word()[0] == b.word()[0] && a.word()[2]
        == b.word()[2] && a.word().last() == b.word().last() ==> a == b);
    assert(status_word(c).len() == status_word(d).len() && status_word(c).last() == status_word(
        d,
    ).last() && status_word(c)[0] == status_word(d)[0] ==> c == d);
}

/// The plugin's own directory counts before that of the desktop, and that before
/// the home directory.
pub proof fn nearer_directories_come_first(
    plugin: Seq<char>,
    xdg: Seq<char>,
    home: Seq<char>,
    below: Seq<char>,
    other_xdg: Option<Seq<char>>,
    other_home: Option<Seq<char>>,
)
    ensures
        directory_of(Some(plugin), other_xdg, other_home, below) == Some(plugin),
        directory_of(None, Some(xdg), other_home, below) == Some(
            joined_path(xdg, "herdr-tether"@),
        ),
        directory_of(None, None, Some(home), below) == Some(joined_path(home, below)),
        directory_of(None, None, None, below) is None,
{
}

/// A call that signals interrupt is made again until its window is over; the
/// window begins with the first signal and does not move.
pub proof fn interrupted_calls_end_with_their_window(
    window: u64,
    first: u64,
    later: u64,
    until: u64,
)
    requires
        first + window <= u64::MAX,
    ensures
        ({
            let fresh = Retry { budget: Budget::Within(window), window_deadline: None };
            let again = fresh.interrupted_at(first);
            &&& fresh.deadline(first) == Some(first + window)
            &&& again.budget == fresh.budget
            &&& again.deadline(later) == Some(first + window)
            &&& again.interrupted_at(later) == again
        }),
        (Retry { budget: Budget::Until(until), window_deadline: None }).deadline(later) == Some(
            until as int,
        ),
        (Retry { budget: Budget::Immediate, window_deadline: None }).deadline(later) is None,
{
}

/// The checkouts among the paths of worktrees are kept, in order.
pub proof fn checkouts_are_kept_in_order(
    paths: Seq<Seq<char>>,
    findings: Seq<WorktreeFinding>,
    at: int,
)
    requires
        paths.len() <= findings.len(),
    ensures
        0 <= at < paths.len() && findings[at] == WorktreeFinding::Checkout ==> checkouts(
            paths,
            findings,
        ).contains(paths[at]),
        (forall|i: int|
            0 <= i < paths.len() ==> #[trigger] findings[i] == WorktreeFinding::Checkout)
            ==> checkouts(paths, findings) == paths,
        (forall|i: int|
            0 <= i < paths.len() ==> #[trigger] findings[i] != WorktreeFinding::Checkout)
            ==> checkouts(paths, findings).len() == 0,
        unusable(findings) == findings.filter(
            |finding: WorktreeFinding| finding == WorktreeFinding::Unusable,
        ).len(),
    decreases paths.len(), findings.len(),
{
    reveal(Seq::filter);
    lemma_unusable(findings);
    if paths.len() > 0 {
        let front = paths.drop_last();
        checkouts_are_kept_in_order(front, findings, at);
        let kept = checkouts(front, findings);
        if 0 <= at < paths.len() && findings[at] == WorktreeFinding::Checkout {
            if at < front.len() {
                assert(front[at] == paths[at]);
                let k = choose|k: int| 0 <= k < kept.len() && kept[k] == paths[at];
                assert(checkouts(paths, findings)[k] == paths[at]);
            } else {
                assert(checkouts(paths, findings).last() == paths[at]);
            }
        }
        assert(front.push(paths.last()) =~= paths);
    } else {
        assert(checkouts(paths, findings) =~= paths);
    }
}

/// The unusable findings are counted.
proof fn lemma_unusable(findings: Seq<WorktreeFinding>)
    ensures
        unusable(findings) == findings.filter(
            |finding: WorktreeFinding| finding == WorktreeFinding::Unusable,
        ).len(),
    decreases findings.len(),
{
    reveal(Seq::filter);
    if findings.len() > 0 {
        lemma_unusable(findings.drop_last());
    } else {
        assert(findings.filter(
            |finding: WorktreeFinding| finding == WorktreeFinding::Unusable,
        ).len() == 0);
    }
}

/// A reader is warned exactly if paths were left out or an agent kind is not
/// known, and is told how many and which.
pub proof fn warnings_name_what_they_warn_of(
    rejected: nat,
    kind: Seq<char>,
    kinds: Seq<Seq<char>>,
)
    ensures
        refused_text(rejected) is None <==> rejected == 0,
        rejected > 0 ==> holds_part(refused_text(rejected)->0, numeral(rejected)),
        unrecognized_text(kind, kinds) is Some <==> kinds.len() > 0 && !kinds.contains(kind),
        unrecognized_text(kind, kinds) is Some ==> holds_part(
            unrecognized_text(kind, kinds)->0,
            "`"@ + kind + "`"@,
        ) && holds_part(unrecognized_text(kind, kinds)->0, joined(kinds, ", "@)),
{
    if rejected > 0 {
        let start = "warning: Herdr reported "@;
        let text = refused_text(rejected)->0;
        let n = (start + numeral(rejected)).len() as int;
        lemma_holds(start, numeral(rejected), text.skip(n));
        assert(text =~= start + numeral(rejected) + text.skip(n));
    }
    if kinds.len() > 0 && !kinds.contains(kind) {
        let text = unrecognized_text(kind, kinds)->0;
        let start = "warning: Herdr does not recognize agent kind `"@;
        let middle = "`. The workload will run normally, but it will not appear as an agent and Mission Control cannot bind it. Recognized kinds: "@;
        let list = joined(kinds, ", "@);
        lemma_holds(start + kind + middle, list, "."@);
        reveal_strlit("`");
        reveal_strlit("warning: Herdr does not recognize agent kind `");
        reveal_strlit(
            "`. The workload will run normally, but it will not appear as an agent and Mission Control cannot bind it. Recognized kinds: ",
        );
        let part = "`"@ + kind + "`"@;
        let at = start.len() - 1;
        assert(text.subrange(at, at + part.len()) =~= part);
    }
}

/// A reload that failed is told with the configuration, the reason, and how to
/// go back.
pub proof fn failed_reloads_tell_how_to_go_back(
    config: Seq<char>,
    why: Seq<char>,
    backup: Option<Seq<char>>,
)
    ensures
        holds_part(reload_text(config, why, backup), config),
        holds_part(reload_text(config, why, backup), why),
        holds_part(reload_text(config, why, backup), rollback_text(backup)),
        backup matches Some(path) ==> holds_part(rollback_text(backup), path) && holds_part(
            rollback_text(backup),
            "setup keybinding --rollback"@,
        ),
        backup is None ==> holds_part(rollback_text(backup), "reload-config"@),
{
    lemma_holds_each(
        "Herdr config at `"@,
        config,
        "` was updated but reload "@,
        why,
        rollback_text(backup),
    );
    lemma_rollback(backup);
}

/// How to go back is told.
proof fn lemma_rollback(backup: Option<Seq<char>>)
    ensures
        backup matches Some(path) ==> holds_part(rollback_text(backup), path) && holds_part(
            rollback_text(backup),
            "setup keybinding --rollback"@,
        ),
        backup is None ==> holds_part(rollback_text(backup), "reload-config"@),
{
    let back = rollback_text(backup);
    match backup {
        Some(path) => {
            let head = "; rollback remains available with `herdr-tether setup keybinding --rollback` from backup `"@;
            lemma_holds(head, path, "`"@);
            assert(holds_part(head, "setup keybinding --rollback"@)) by {
                reveal_strlit(
                    "; rollback remains available with `herdr-tether setup keybinding --rollback` from backup `",
                );
                reveal_strlit("setup keybinding --rollback");
                let part = "setup keybinding --rollback"@;
                assert(head.subrange(48, 48 + part.len() as int) =~= part);
            }
            let part = "setup keybinding --rollback"@;
            let at = choose|at: int|
                0 <= at <= head.len() - part.len() && #[trigger] head.subrange(at, at + part.len())
                    == part;
            assert(back.subrange(at, at + part.len()) =~= part) by {
                assert forall|i: int| 0 <= i < part.len() implies back[at + i] == part[i] by {
                    assert(head.subrange(at, at + part.len())[i] == head[at + i]);
                }
            }
        },
        None => {
            reveal_strlit("; rerun `herdr server reload-config` when the server is available");
            reveal_strlit("reload-config");
            let part = "reload-config"@;
            assert(back.subrange(22, 22 + part.len() as int) =~= part);
        },
    }
}

/// An installation works with what is good, only advised on, not asked for or
/// standing alone; everything else is in the way and has a word of its own.
pub proof fn only_failing_checks_have_a_failure(a: DoctorStatus, b: DoctorStatus)
    ensures
        passes(DoctorStatus::Good),
        passes(DoctorStatus::Standalone),
        passes(DoctorStatus::Advisory),
        passes(DoctorStatus::NotChecked),
        !passes(DoctorStatus::Unsupported),
        !passes(DoctorStatus::Missing),
        !passes(DoctorStatus::Unusable),
        !passes(DoctorStatus::Failed),
        !passes(DoctorStatus::TimedOut),
        !passes(DoctorStatus::PermissionDenied),
        !passes(DoctorStatus::Unavailable),
        !passes(DoctorStatus::Incomplete),
        !passes(a) ==> diagnosis(a) is Some,
        diagnosis(a) is Some && diagnosis(a) == diagnosis(b) ==> a == b,
{
    reveal_strlit("newer_protocol_unverified");
    reveal_strlit("socket_not_provided");
    reveal_strlit("protocol_too_old");
    reveal_strlit("not_found");
    reveal_strlit("invalid_data");
    reveal_strlit("nonzero_exit");
    reveal_strlit("timeout");
    reveal_strlit("permission_denied");
    reveal_strlit("io_error");
    reveal_strlit("missing_context");
    if diagnosis(a) is Some && diagnosis(b) is Some {
        assert(diagnosis(a)->0.len() == diagnosis(b)->0.len() && diagnosis(a)->0[0] == diagnosis(
            b,
        )->0[0] ==> a == b);
    }
}

/// The required checks that fail are counted, and no others.
pub proof fn required_failures_are_counted(checks: Seq<DoctorCheck>)
    ensures
        required_failures(checks) == checks.filter(
            |check: DoctorCheck| check.required && !passes(check.status),
        ).len(),
    decreases checks.len(),
{
    reveal(Seq::filter);
    if checks.len() > 0 {
        required_failures_are_counted(checks.drop_last());
    } else {
        assert(checks.filter(
            |check: DoctorCheck| check.required && !passes(check.status),
        ).len() == 0);
    }
}

/// A protocol works from the oldest supported one on. One that is newer than
/// any that is known works too, but is told.
pub proof fn protocols_from_the_oldest_on_work(protocol: u32, known: ProtocolRange)
    ensures
        passes(protocol_status(ProtocolProbe::Observed(protocol), known)) <==> protocol
            >= known.minimum,
        known.minimum <= protocol <= known.audited ==> protocol_status(
            ProtocolProbe::Observed(protocol),
            known,
        ) == DoctorStatus::Good,
        known.minimum <= protocol && protocol > known.audited ==> protocol_status(
            ProtocolProbe::Observed(protocol),
            known,
        ) == DoctorStatus::Advisory,
        protocol < known.minimum ==> protocol_status(ProtocolProbe::Observed(protocol), known)
            == DoctorStatus::Unsupported,
        passes(protocol_status(ProtocolProbe::NoSocket, known)),
        !passes(protocol_status(ProtocolProbe::EmptySocket, known)),
        !passes(protocol_status(ProtocolProbe::Unavailable, known)),
        !passes(protocol_status(ProtocolProbe::TimedOut, known)),
        holds_part(
            protocol_text(ProtocolProbe::Observed(protocol), known),
            numeral(protocol as nat),
        ),
{
    let text = protocol_text(ProtocolProbe::Observed(protocol), known);
    let start = "Herdr protocol: "@;
    let number = numeral(protocol as nat);
    let n = (start + number).len() as int;
    lemma_holds(start, number, text.skip(n));
    assert(text =~= start + number + text.skip(n));
}

/// A tool works exactly if its probe succeeded; what is said of it names it.
pub proof fn tools_work_if_their_probe_succeeds(
    program: Seq<char>,
    probe: ToolProbe,
    detail: Option<Seq<char>>,
)
    ensures
        passes(tool_status(probe)) <==> probe is Succeeded,
        tool_status(probe) == DoctorStatus::Missing <==> probe is NotFound,
        tool_status(probe) == DoctorStatus::Failed <==> probe is Ended,
        tool_status(probe) == DoctorStatus::TimedOut <==> probe is TimedOut,
        tool_status(probe) == DoctorStatus::PermissionDenied <==> probe is PermissionDenied,
        program.is_prefix_of(tool_text(program, probe, detail)),
        probe is Succeeded ==> tool_text(program, probe, detail) == program + ": ok"@,
        probe is Ended && detail is Some ==> holds_part(
            tool_text(program, probe, detail),
            detail->0,
        ),
{
    let text = tool_text(program, probe, detail);
    assert(text.subrange(0, program.len() as int) =~= program);
    if probe is Ended && detail is Some {
        let start = program + (": failed ("@ + probe->status@ + "; "@);
        let end = "); verify the executable works with `"@ + program + "`"@;
        lemma_holds(start, detail->0, end);
        assert(text =~= start + detail->0 + end);
    }
}

/// A file works exactly if it is usable; what is said of it names it.
pub proof fn files_are_told_by_their_path(
    kind: Seq<char>,
    path: Seq<char>,
    finding: FileFinding,
)
    ensures
        holds_part(file_text(kind, path, finding), path),
        kind.is_prefix_of(file_text(kind, path, finding)),
        finding is Usable ==> file_text(kind, path, finding) == kind + " "@ + path + ": ok"@,
        finding matches FileFinding::Unusable(detail) ==> holds_part(
            file_text(kind, path, finding),
            detail@,
        ),
{
    let text = file_text(kind, path, finding);
    let start = kind + " "@;
    let n = (start + path).len() as int;
    lemma_holds(start, path, text.skip(n));
    assert(text =~= start + path + text.skip(n));
    assert(text.subrange(0, kind.len() as int) =~= kind);
    match finding {
        FileFinding::Unusable(detail) => {
            let before = start + path + ": unusable ("@;
            lemma_holds(before, detail@, ")"@);
            assert(text =~= before + detail@ + ")"@);
        },
        _ => {},
    }
}

/// The number of failures is told, as one or as more.
pub proof fn failures_are_numbered(failures: nat)
    ensures
        holds_part(failures_text(failures), numeral(failures)),
        failures == 1 ==> failures_text(failures) == "doctor found "@ + numeral(1)
            + " required failure"@,
        failures != 1 ==> failures_text(failures) == "doctor found "@ + numeral(failures)
            + " required failures"@,
{
    reveal_strlit("");
    reveal_strlit("s");
    reveal_strlit(" required failure");
    reveal_strlit(" required failures");
    let start = "doctor found "@;
    let text = failures_text(failures);
    if failures == 1 {
        assert(text =~= start + numeral(1) + " required failure"@);
        lemma_holds(start, numeral(failures), " required failure"@);
    } else {
        assert(text =~= start + numeral(failures) + " required failures"@);
        lemma_holds(start, numeral(failures), " required failures"@);
    }
}

/// A variable counts before the one that stands in for it, and neither if it is
/// blank.
pub proof fn given_values_are_not_blank(value: EnvValue, fallback: EnvValue)
    ensures
        given_value(value, fallback) matches Some(text) ==> exists|i: int|
            0 <= i < text.len() && !white_space(#[trigger] text[i]),
        value matches EnvValue::Text(text) ==> (given_value(value, fallback) is Some
            ==> given_value(value, fallback) == Some(text@)) && (!blank(text@) ==> given_value(
            value,
            fallback,
        ) == Some(text@)),
        !(value is Text) && !(fallback is Text) ==> given_value(value, fallback) is None,
        !(value is Text) ==> (fallback matches EnvValue::Text(text) ==> (!blank(text@)
            ==> given_value(value, fallback) == Some(text@))),
{
}

/// A pane's context is complete exactly if pane, workspace and binary are given.
/// What is missing is named, and nothing else.
pub proof fn contexts_are_complete_or_told(environment: HerdrEnvironment)
    ensures
        ({
            let pane = given_value(environment.pane_id, environment.pane_id_fallback);
            let workspace = given_value(
                environment.workspace_id,
                environment.workspace_id_fallback,
            );
            let binary = environment.binary is Some && !blank(environment.binary->0@);
            let signaled = binary || !(environment.pane_id is Missing) || !(
            environment.workspace_id is Missing);
            &&& !signaled ==> context_status(environment) == DoctorStatus::Standalone
            &&& signaled && pane is Some && workspace is Some && binary ==> context_status(
                environment,
            ) == DoctorStatus::Good
            &&& signaled && !(pane is Some && workspace is Some && binary) ==> context_status(
                environment,
            ) == DoctorStatus::Incomplete
            &&& missing_context(environment).contains("HERDR_PANE_ID"@) <==> pane is None
            &&& missing_context(environment).contains("HERDR_WORKSPACE_ID"@) <==> workspace is None
            &&& missing_context(environment).contains("HERDR_BIN_PATH"@) <==> !binary
        }),
{
    reveal_strlit("HERDR_PANE_ID");
    reveal_strlit("HERDR_WORKSPACE_ID");
    reveal_strlit("HERDR_BIN_PATH");
    let pane = given_value(environment.pane_id, environment.pane_id_fallback);
    let workspace = given_value(environment.workspace_id, environment.workspace_id_fallback);
    let missing = missing_context(environment);
    let a: int = if pane is None {
        1
    } else {
        0
    };
    let b: int = if workspace is None {
        1
    } else {
        0
    };
    assert("HERDR_PANE_ID"@.len() == 13);
    assert("HERDR_WORKSPACE_ID"@.len() == 18);
    assert("HERDR_BIN_PATH"@.len() == 14);
    if pane is None {
        assert(missing[0] == "HERDR_PANE_ID"@);
    }
    if workspace is None {
        assert(missing[a] == "HERDR_WORKSPACE_ID"@);
    }
    if !(environment.binary is Some && !blank(environment.binary->0@)) {
        assert(missing[a + b] == "HERDR_BIN_PATH"@);
    }
}

/// What is shown of a tool's output is on one line and at most 240 characters
/// long, with an ellipsis exactly where something is left out.
pub proof fn details_tell_what_is_left_out(output: Seq<char>, truncated: bool)
    ensures
        ({
            let line = one_line(output);
            let detail = detail_of(output, truncated);
            &&& 0 < line.len() <= 240 && !truncated ==> detail == Some(line)
            &&& 0 < line.len() <= 240 && truncated ==> detail == Some(line.push('…'))
            &&& line.len() > 240 ==> detail == Some(line.take(240).push('…'))
            &&& line.len() == 0 ==> (detail is Some <==> truncated)
        }),
{
}

/// Every part of an installation is looked at, under its name; only Herdr's
/// protocol may go without, where no socket is named.
pub proof fn every_part_is_examined(examination: Examination)
    ensures
        ({
            let found = examined(examination);
            &&& found.len() == 8
            &&& found[0].0 == "config"@ && passes(found[0].1) == (examination.config is Usable)
            &&& found[1].0 == "state"@ && passes(found[1].1) == (examination.state is Usable)
            &&& found[2].0 == "tmux"@ && passes(found[2].1) == (examination.tmux.probe is Succeeded)
            &&& found[3].0 == "ssh"@ && passes(found[3].1) == (examination.ssh.probe is Succeeded)
            &&& found[4].0 == "cargo"@ && passes(found[4].1) == (examination.cargo.probe
                is Succeeded)
            &&& found[5].0 == "herdr"@ && passes(found[5].1) == (examination.herdr.probe
                is Succeeded)
            &&& found[6].0 == "herdr_protocol"@ && (found[6].2 <==> !(examination.protocol
                is NoSocket))
            &&& found[7].0 == "herdr_context"@
            &&& forall|i: int| 0 <= i < 8 && i != 6 ==> (#[trigger] found[i]).2
        }),
{
}

/// A title's part holds no character that stands between parts or is not seen.
pub proof fn separators_part_titles(c: char)
    ensures
        title_separator('|'),
        title_separator('·'),
        control(c) ==> title_separator(c),
        white_space(c) ==> title_separator(c),
        title_separator(c) && !control(c) && !white_space(c) ==> c == '|' || c == '·' || c as u32
            == 0x061c || 0x200b <= c as u32 <= 0x200f || 0x202a <= c as u32 <= 0x202e || 0x2066
            <= c as u32 <= 0x2069 || c as u32 == 0xfeff,
        title_separator('\u{200b}'),
        title_separator('\u{202e}'),
        title_separator('\u{2066}'),
        title_separator('\u{feff}'),
        title_separator('\u{061c}'),
{
}

/// A title holds its parts, each once and in order, and at most 48 characters;
/// without any it says that it is a session's.
pub proof fn titles_hold_their_parts(components: Seq<Option<Seq<char>>>, at: int)
    ensures
        0 <= at < components.len() && components[at] is Some && title_component(
            components[at]->0,
        ).len() > 0 ==> kept_components(components).contains(title_component(components[at]->0)),
        forall|k: int|
            0 <= k < kept_components(components).len() ==> exists|i: int|
                0 <= i < components.len() && #[trigger] components[i] is Some
                    && #[trigger] kept_components(components)[k] == title_component(
                    components[i]->0,
                ),
        kept_components(components).len() == 0 ==> title_of(components) == "Tether session"@,
        kept_components(components).len() > 0 ==> title_of(components) == bounded_title(
            joined(kept_components(components), " · "@),
        ),
    decreases components.len(),
{
    if components.len() > 0 {
        let front = components.drop_last();
        titles_hold_their_parts(front, at);
        let kept = kept_components(front);
        let all = kept_components(components);
        if 0 <= at < components.len() && components[at] is Some && title_component(
            components[at]->0,
        ).len() > 0 {
            let part = title_component(components[at]->0);
            if at < front.len() {
                assert(front[at] == components[at]);
                let k = choose|k: int| 0 <= k < kept.len() && kept[k] == part;
                assert(all[k] == part);
            } else if !kept.contains(part) {
                assert(all.last() == part);
            }
        }
        assert forall|k: int| 0 <= k < all.len() implies exists|i: int|
            0 <= i < components.len() && #[trigger] components[i] is Some && #[trigger] all[k]
                == title_component(components[i]->0) by {
            if k < kept.len() {
                assert(all[k] == kept[k]);
                let i = choose|i: int|
                    0 <= i < front.len() && #[trigger] front[i] is Some && kept[k]
                        == title_component(front[i]->0);
                assert(components[i] == front[i]);
            } else {
                assert(components[components.len() - 1] is Some);
            }
        }
    }
}

/// A title of more than 48 characters is cut, with an ellipsis in the last place.
pub proof fn long_titles_are_cut(title: Seq<char>)
    ensures
        title.len() <= 48 ==> bounded_title(title) == title,
        title.len() > 48 ==> bounded_title(title).len() == 48 && bounded_title(title).last() == '…'
            && forall|i: int| 0 <= i < 47 ==> #[trigger] bounded_title(title)[i] == title[i],
{
}

/// A preset's name counts before the program's, and this machine is not named.
pub proof fn presets_name_workloads(preset: Seq<char>, command: Option<Seq<char>>, host: Seq<char>)
    ensures
        title_component(preset).len() > 0 ==> workload_component(Some(preset), command) == Some(
            title_component(preset),
        ),
        workload_component(None, None) is None,
        shown_host("local"@) is None,
        host != "local"@ ==> shown_host(host) == Some(host),
{
}

/// The program that a command runs is named by the first word that does not
/// only say how it is run; behind a variable nothing is named.
pub proof fn launchers_are_passed_over(word: Seq<char>, rest: Seq<Seq<char>>)
    ensures
        launcher(unquoted(word)) ==> behind_launchers(seq![word] + rest) == behind_launchers(rest),
        !launcher(unquoted(word)) ==> behind_launchers(seq![word] + rest) == seq![word] + rest,
        launcher("exec"@),
        launcher("command"@),
        launcher("env"@),
        launcher("sudo"@),
        word.contains('=') ==> launcher(word),
        launcher(word) ==> word.contains('=') || word == "exec"@ || word == "command"@ || word
            == "env"@ || word == "sudo"@,
        unquoted(word).contains('$') ==> first_name(seq![word] + rest) is None,
        first_name(Seq::empty()) is None,
{
    assert((seq![word] + rest).drop_first() =~= rest);
    assert((seq![word] + rest)[0] == word);
}

/// A text without separators is a title's part as it is; two of them that any
/// separator parts stand apart by one space.
pub proof fn parts_of_titles_are_plain(a: Seq<char>, separator: char, b: Seq<char>)
    requires
        a.len() > 0,
        b.len() > 0,
        title_separator(separator),
        forall|i: int| 0 <= i < a.len() ==> !title_separator(#[trigger] a[i]),
        forall|i: int| 0 <= i < b.len() ==> !title_separator(#[trigger] b[i]),
    ensures
        title_component(a) == a,
        title_component(a.push(separator) + b) == a + " "@ + b,
{
    let plain = |c: char|
        if title_separator(c) {
            ' '
        } else {
            c
        };
    let all = a.push(separator) + b;
    assert(white_space(' '));
    assert forall|i: int| 0 <= i < a.len() implies !white_space(#[trigger] a[i]) by {
        assert(!title_separator(a[i]));
    }
    assert forall|i: int| 0 <= i < b.len() implies !white_space(#[trigger] b[i]) by {
        assert(!title_separator(b[i]));
    }
    assert(a.map_values(plain) =~= a);
    assert(all.map_values(plain) =~= a.push(' ') + b);
    white_space_parts_words(Seq::empty(), ' ', a);
    white_space_parts_words(a, ' ', b);
    collapsed_words_stand_apart_by_one_space(a);
    collapsed_words_stand_apart_by_one_space(a.push(' ') + b);
    assert(words_of(a.push(' ') + b) =~= seq![a, b]);
}

} // verus!
