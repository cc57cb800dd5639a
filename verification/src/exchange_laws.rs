//! What is said and decided around the exchange with Herdr, and how workloads
//! are titled.

use vstd::prelude::*;
use vstd::string::*;
use vstd::utf8::*;

use crate::agent_view::{oversized_preference, view_problem, AgentViewFilter};
use crate::backend::{bare_program, holds_nul, named_parts, slash_parts, CommandView};
use crate::command_text::host_of_args;
use crate::doctor::{context_status, context_text, given_value, missing_context, DoctorStatus};
use crate::discovery::DiscoveryCompletion;
use crate::discovery_remote::{read_fields, RemoteView};
use crate::document::{field, root};
use crate::failure::{plain, Failure, FailureView};
use crate::fields::{parts_between, up_to, without_prefix};
use crate::herdr::{
    env_context, optional_env, required_env, runtime_context, EnvValue, HerdrEnvironment,
};
use crate::herdr_place::{runs_command, unseen_text};
use crate::herdr_reply::{
    attach_process, execution_problem, herdr_version, version_in_parts, HerdrExecution,
    InspectionView,
};
use crate::herdr_socket::HerdrPaneInfo;
use crate::json_text::{
    json_char, json_chars, json_nodes, json_string, text_at, value_at, JsonView, NodeView,
};
use crate::launch::record_title;
use crate::lifecycle_remove::retention_seconds;
use crate::model::safe_external_name;
use crate::notices::{
    group_title, launch_failure, metadata_failure, reassignment, stale, view_text,
    OBSERVER_PLUGIN_CONTEXT_ERROR,
};
use crate::orchestration::MANAGER_STALE_GROUP_ERROR;
use crate::pane_title::{
    kept_components, leaf_of, title_component, without_end_slashes, workload_component,
};
use crate::report_laws::titles_hold_their_parts;
use crate::selection::CommandPresetArg;
use crate::socket_client::{
    acknowledgement_problem, blank_target, event_problem, metadata_problem, millis_that_fit,
    patient_timeout, starts_subscription, subscription_id, value_reply, SocketCall,
};
use crate::state::{find_group_finds, GroupView, RecordView, StateView};
use crate::text::{joined, numeral, opt_view, trimmed, white_space};
use crate::text_laws::{
    holds_part, lemma_holds, lemma_holds_each, lemma_keeps, texts_are_cut_at_a_character,
};
use crate::uuids::{hex_text, lemma_hex_round_trip, pow16};

verus! {

/// The title of a directory is its last part, with or without a slash behind it.
pub proof fn directories_are_titled_by_their_last_part(directory: Seq<char>, name: Seq<char>)
    requires
        directory.len() > 0 ==> !white_space(directory[0]),
        name.len() > 0,
        !name.contains('/'),
        !white_space(name.last()),
    ensures
        leaf_of(directory + seq!['/'] + name) == Some(name),
        leaf_of(directory + seq!['/'] + name + seq!['/']) == Some(name),
        leaf_of("/"@) == Some("/"@),
        leaf_of("~"@) == Some("~"@),
        leaf_of("~/"@) == Some("~"@),
{
    reveal_strlit("/");
    reveal_strlit("~");
    reveal_strlit("~/");
    assert(!white_space('/') && !white_space('~'));
    let path = directory + seq!['/'] + name;
    let longer = path + seq!['/'];
    assert(path[0] == if directory.len() > 0 {
        directory[0]
    } else {
        '/'
    });
    assert(path.last() == name.last());
    assert(name.last() != '/') by {
        assert(name.contains(name.last()));
    }
    assert(longer[0] == path[0]);
    assert(longer.last() == '/');
    assert(trimmed(path) == path);
    assert(trimmed(longer) == longer);
    assert(longer.drop_last() =~= path);
    reveal_with_fuel(without_end_slashes, 3);
    assert(without_end_slashes(path) == path);
    assert(without_end_slashes(longer) == path);
    texts_are_cut_at_a_character(directory, '/', name);
    texts_are_cut_at_a_character(name, '/', name);
    assert(slash_parts(path).last() == name);
    assert(path.last() != '/' && path.len() > 1);
    assert(longer.len() > 2 || longer.len() == 2);
    assert(longer.len() >= 3);
    assert(trimmed("/"@) == "/"@);
    assert(trimmed("~"@) == "~"@);
    assert(trimmed("~/"@) == "~/"@);
    assert("~"@ != "/"@) by {
        assert("~"@[0] != "/"@[0]);
    }
    assert("~/"@.len() == 2 && "/"@.len() == 1);
    assert(path != "~"@) by {
        assert(path.len() >= 2);
    }
    assert(path != "~/"@) by {
        assert("~/"@.last() == '/');
    }
}

/// A workload is titled by its host unless it is this machine, its directory's
/// last part and what runs in it.
pub proof fn workloads_are_titled_by_place_and_program(record: RecordView)
    ensures
        ({
            let parts = kept_components(
                seq![
                    if record.host == "local"@ {
                        None
                    } else {
                        Some(record.host)
                    },
                    leaf_of(record.directory),
                    workload_component(record.preset, record.command),
                ],
            );
            &&& parts.len() == 0 ==> record_title(record) == "Tether session"@
            &&& parts.len() > 0 && joined(parts, " · "@).len() <= 48 ==> record_title(record)
                == joined(parts, " · "@)
            &&& record.host != "local"@ && title_component(record.host).len() > 0
                ==> parts.contains(title_component(record.host))
        }),
{
    let parts = seq![
        if record.host == "local"@ {
            None
        } else {
            Some(record.host)
        },
        leaf_of(record.directory),
        workload_component(record.preset, record.command),
    ];
    titles_hold_their_parts(parts, 0);
}

/// A host on the command line is taken as it was given, with its presets in
/// order.
pub proof fn hosts_are_taken_as_given(
    name: Seq<char>,
    target: Seq<char>,
    roots: Seq<Seq<char>>,
    presets: Seq<CommandPresetArg>,
    at: int,
)
    requires
        0 <= at < presets.len(),
    ensures
        ({
            let host = host_of_args(name, target, roots, presets);
            &&& host.name == name
            &&& host.target == target
            &&& host.roots == roots
            &&& host.presets.len() == presets.len()
            &&& host.presets[at].name == presets[at].name@
            &&& host.presets[at].command == presets[at].command@
            &&& host.presets[at].herdr_agent is None
            &&& host.presets[at].health_command is None
        }),
{
}

/// A context that is complete is told with its pane and workspace, and one that
/// is not with what is missing.
pub proof fn contexts_are_told(environment: HerdrEnvironment)
    ensures
        ({
            let pane = given_value(environment.pane_id, environment.pane_id_fallback);
            let workspace = given_value(
                environment.workspace_id,
                environment.workspace_id_fallback,
            );
            let text = context_text(environment);
            &&& context_status(environment) == DoctorStatus::Good ==> holds_part(text, pane->0)
                && holds_part(text, workspace->0)
            &&& context_status(environment) == DoctorStatus::Incomplete ==> holds_part(
                text,
                joined(missing_context(environment), ", "@),
            )
        }),
{
    let pane = given_value(environment.pane_id, environment.pane_id_fallback);
    let workspace = given_value(environment.workspace_id, environment.workspace_id_fallback);
    let start = "Herdr context: "@;
    if context_status(environment) == DoctorStatus::Good {
        lemma_holds_each(start, pane->0, " in workspace "@, workspace->0, Seq::empty());
    } else if context_status(environment) == DoctorStatus::Incomplete {
        lemma_holds(
            "Herdr context: incomplete (missing "@,
            joined(missing_context(environment), ", "@),
            "; invoke Tether through a Herdr plugin action)"@,
        );
    }
}

/// A context is given by the environment: by its binary, and by its pane and
/// workspace under their own names before the shorter ones. Each variable that
/// is wrong is told.
pub proof fn contexts_come_from_the_environment(environment: HerdrEnvironment)
    ensures
        ({
            let binary = required_env("HERDR_BIN_PATH"@, opt_view(environment.binary));
            let pane = optional_env(
                "HERDR_PANE_ID"@,
                environment.pane_id,
                "PANE_ID"@,
                environment.pane_id_fallback,
            );
            let workspace = optional_env(
                "HERDR_WORKSPACE_ID"@,
                environment.workspace_id,
                "WORKSPACE_ID"@,
                environment.workspace_id_fallback,
            );
            let found = env_context(environment);
            &&& environment.plugin_context is NotUnicode ==> found is Err
            &&& binary is Err ==> found is Err
            &&& pane is Err ==> found is Err
            &&& workspace is Err ==> found is Err
            &&& environment.plugin_context is Missing && binary is Ok && pane is Ok && workspace
                is Ok ==> found == runtime_context(binary->Ok_0, pane->Ok_0, workspace->Ok_0, None)
            &&& environment.plugin_context matches EnvValue::Text(text) ==> (binary is Ok && pane
                is Ok && workspace is Ok ==> found == runtime_context(
                binary->Ok_0,
                pane->Ok_0,
                workspace->Ok_0,
                Some(text@),
            ))
        }),
{
}

/// Herdr's version is read behind its name and before any suffix; anything else
/// is told.
pub proof fn herdr_tells_its_version(stdout: Seq<u8>, version: Seq<char>)
    ensures
        !valid_utf8(stdout) ==> herdr_version(stdout) is Err,
        valid_utf8(stdout) && without_prefix(trimmed(decode_utf8(stdout)), "herdr "@) is None
            ==> herdr_version(stdout) is Err,
        valid_utf8(stdout) && trimmed(decode_utf8(stdout)) == "herdr "@ + version ==> (
        match version_in_parts(parts_between(up_to(version, '-'), '.')) {
            Ok(numbers) => herdr_version(stdout) == Ok::<(u64, u64, u64), FailureView>(numbers),
            Err(text) => herdr_version(stdout) == Err::<(u64, u64, u64), FailureView>(
                plain(text),
            ),
        }),
{
    assert("herdr "@.is_prefix_of("herdr "@ + version));
    assert(("herdr "@ + version).skip("herdr "@.len() as int) =~= version);
}

/// A command of Herdr's went wrong exactly if it did not complete or gave too
/// much, and what is told names it.
pub proof fn incomplete_commands_are_told(
    execution: HerdrExecution,
    operation: Seq<char>,
    binary: Seq<char>,
)
    ensures
        execution_problem(execution, operation, binary) is None <==> execution is Completed
            && !execution->truncated,
        execution_problem(execution, operation, binary) is Some ==> holds_part(
            execution_problem(execution, operation, binary)->0,
            operation,
        ),
        execution is TimedOut ==> holds_part(
            execution_problem(execution, operation, binary)->0,
            numeral(30),
        ),
        execution matches HerdrExecution::SpawnError(reason) ==> holds_part(
            execution_problem(execution, operation, binary)->0,
            binary,
        ) && holds_part(execution_problem(execution, operation, binary)->0, reason@),
{
    match execution {
        HerdrExecution::Completed { .. } => {
            lemma_holds(
                "Herdr "@,
                operation,
                " response exceeded the safe capture limit"@,
            );
        },
        HerdrExecution::TimedOut => {
            lemma_holds_each(
                "Herdr "@,
                operation,
                " timed out after "@,
                numeral(30),
                " seconds"@,
            );
        },
        HerdrExecution::SpawnError(reason) => {
            let start = "run Herdr "@ + operation + " via `"@ + binary + "` ("@;
            lemma_holds_each("run Herdr "@, operation, " via `"@, binary, "` ("@);
            lemma_keeps(start, operation, reason@);
            lemma_keeps(start, binary, reason@);
            lemma_keeps(start + reason@, operation, ")"@);
            lemma_keeps(start + reason@, binary, ")"@);
            lemma_holds(start, reason@, ")"@);
        },
        HerdrExecution::Error => {
            lemma_holds("read Herdr "@, operation, " process output"@);
        },
    }
}

/// A command runs in a pane if any of its processes is the one that was started.
pub proof fn any_process_shows_the_command(
    found: InspectionView,
    command: CommandView,
    at: int,
)
    ensures
        0 <= at < found.foreground_processes.len() && attach_process(
            found.foreground_processes[at],
            command,
        ) ==> runs_command(found, command),
        found.foreground_processes.len() == 0 ==> !runs_command(found, command),
        unseen_text(Ok(found)) == "no verified tmux attach process was reported"@,
{
}

/// A pane is labelled exactly if the answer says so of the very pane that was
/// asked for, or plainly that it was done.
pub proof fn labels_are_confirmed_for_their_pane(
    nodes: Seq<NodeView>,
    decoded: Result<HerdrPaneInfo, Failure>,
    pane_id: Seq<char>,
)
    ensures
        ({
            let kind = text_at(nodes, field(field(root(), "result"@), "type"@));
            let named = value_at(nodes, field(field(root(), "result"@), "pane"@)) is Some;
            metadata_problem(nodes, decoded, pane_id) is None <==> kind == Some("ok"@) || (kind
                == Some("pane_info"@) && named && decoded is Ok && decoded->Ok_0.pane_id@
                == pane_id)
        }),
{
    reveal_strlit("ok");
    reveal_strlit("pane_info");
    assert("ok"@.len() == 2 && "pane_info"@.len() == 9);
}

/// Whoever waits for an agent waits five seconds longer than the agent may take.
pub proof fn waiting_is_patient(millis: u128)
    ensures
        millis <= u128::MAX - 5_000 ==> patient_timeout(millis) == millis + 5_000,
        patient_timeout(millis) >= millis,
        patient_timeout(millis) <= u128::MAX,
        millis <= u64::MAX ==> millis_that_fit(millis) == millis,
        millis > u64::MAX ==> millis_that_fit(millis) == u64::MAX,
{
}

/// Requests, subscriptions and refusals are told by what they are about.
pub proof fn exchanges_are_named(n: u64, action: Seq<char>)
    ensures
        subscription_id(n) == "tether:events:"@ + numeral(n as nat),
        holds_part(blank_target(action).text, action),
        blank_target(action).causes.len() == 0,
        holds_part(oversized_preference(), numeral(4_096)),
{
    lemma_holds("agent "@, action, " target must not be empty"@);
    lemma_holds("Agent view preference exceeds "@, numeral(4_096), " bytes"@);
}

/// A subscription has started exactly if the acknowledgement is read and starts
/// it; an event is taken exactly if it is read and is one.
pub proof fn only_events_are_taken_for_events(
    bytes: Seq<u8>,
    id: Seq<char>,
    nodes: Seq<NodeView>,
)
    ensures
        acknowledgement_problem(None, id) is Some,
        json_nodes(bytes) is Err ==> acknowledgement_problem(Some(bytes), id) is Some
            && event_problem(bytes) is Some,
        json_nodes(bytes) == Ok::<Seq<NodeView>, Seq<char>>(nodes) ==> {
            &&& acknowledgement_problem(Some(bytes), id) is None <==> starts_subscription(nodes, id)
            &&& event_problem(bytes) is None <==> text_at(nodes, field(root(), "event"@)) is Some
        },
{
}

/// A sidebar view is changed exactly if Herdr answers the request and says that
/// the view is as it was asked for.
pub proof fn views_change_when_confirmed(
    call: SocketCall,
    response: Result<Vec<u8>, Failure>,
    active: bool,
    failure: Failure,
)
    ensures
        view_problem(Err(failure), response, active) == Some(failure@),
        view_problem(Ok(call), response, active) is None <==> {
            let answer = value_reply(response, call@.id, call@.method);
            let result = field(root(), "result"@);
            &&& answer is Ok
            &&& text_at(answer->Ok_0, field(result, "type"@)) == Some("agent_view"@)
            &&& value_at(answer->Ok_0, field(result, "active"@)) == Some(
                JsonView::Bool(active),
            )
        },
{
}

/// A program without a directory is looked up; one with a directory is not.
pub proof fn bare_programs_have_no_slash(program: Seq<char>, directory: Seq<char>)
    ensures
        program.len() > 0 && !program.contains('/') && program != "."@ && program != ".."@
            ==> bare_program(program),
        !bare_program(Seq::empty()),
        program.len() > 0 ==> !bare_program(seq!['/'] + program),
        directory.len() > 0 && !directory.contains('/') && directory != "."@ && program.len() > 0
            && !program.contains('/') && program != "."@ ==> !bare_program(
            directory + seq!['/'] + program,
        ),
{
    reveal_with_fuel(named_parts, 3);
    texts_are_cut_at_a_character(program, '/', program);
    texts_are_cut_at_a_character(Seq::empty(), '/', program);
    texts_are_cut_at_a_character(directory, '/', program);
    assert(parts_between(Seq::empty(), '/') =~= seq![Seq::empty()]);
    assert(Seq::<char>::empty() + seq!['/'] + program =~= seq!['/'] + program);
    if !program.contains('/') {
        assert(slash_parts(program) == seq![program]);
        assert(seq![program].drop_last() =~= Seq::<Seq<char>>::empty());
        if !directory.contains('/') {
            let both = slash_parts(directory + seq!['/'] + program);
            assert(both =~= seq![directory, program]);
            assert(both.drop_last() =~= seq![directory]);
            assert(seq![directory].drop_last() =~= Seq::<Seq<char>>::empty());
        }
    }
}

/// No command with a zero character in any of its words is run.
pub proof fn zero_characters_are_seen(command: CommandView, at: int)
    ensures
        command.program.contains('\0') ==> holds_nul(command),
        0 <= at < command.args.len() && command.args[at].contains('\0') ==> holds_nul(command),
        holds_nul(command) ==> command.program.contains('\0') || exists|i: int|
            0 <= i < command.args.len() && (#[trigger] command.args[i]).contains('\0'),
{
}

/// A day of retention is 86,400 seconds.
pub proof fn retention_is_counted_in_days(days: u64)
    ensures
        days <= 36_500 ==> retention_seconds(days) == Some(days * 86_400),
        retention_seconds(days) matches Some(seconds) ==> seconds == days * 86_400,
{
}

/// The name of another session cannot be taken for one of Tether's, for an
/// identity, or for a window or pane.
pub proof fn names_of_other_sessions_are_plain(text: Seq<char>)
    ensures
        safe_external_name(text) ==> {
            &&& 0 < text.len() <= 256
            &&& !"tether-"@.is_prefix_of(text)
            &&& text[0] != '$'
            &&& !text.contains(':')
            &&& !text.contains('.')
            &&& forall|i: int| 0 <= i < text.len() ==> ' ' <= #[trigger] text[i] <= '~'
        },
        0 < text.len() <= 256 && !"tether-"@.is_prefix_of(text) && text[0] != '$' && (forall|
            i: int,
        |
            0 <= i < text.len() ==> ' ' <= #[trigger] text[i] <= '~' && text[i] != ':' && text[i]
                != '.') ==> safe_external_name(text),
{
}

/// What went wrong with a change is told by the change, and that nothing was
/// changed.
pub proof fn failed_changes_are_told(operation: Seq<char>, failure: FailureView, group: GroupView)
    ensures
        stale(failure) <==> failure.text == MANAGER_STALE_GROUP_ERROR@ || failure.causes.contains(
            MANAGER_STALE_GROUP_ERROR@,
        ),
        !stale(failure) ==> holds_part(metadata_failure(operation, failure), operation)
            && holds_part(metadata_failure(operation, failure), "metadata was unchanged"@),
        stale(failure) ==> metadata_failure(operation, failure)
            == "Observer changed while this screen was open; refreshed current metadata; review and retry"@,
        stale(failure) ==> reassignment(Err(failure)) == metadata_failure(operation, failure),
        holds_part(reassignment(Ok(group)), group.title),
        !stale(failure) ==> reassignment(Err(failure))
            == "Could not reassign Observer; metadata was unchanged; workload lifecycle and placement unchanged"@,
        failure.chain().contains(OBSERVER_PLUGIN_CONTEXT_ERROR@) ==> launch_failure(failure)
            == "Could not launch Observer; open it through prefix+t in a Herdr pane; source pane was preserved"@,
        !failure.chain().contains(OBSERVER_PLUGIN_CONTEXT_ERROR@) ==> launch_failure(failure)
            == "Could not launch Observer; source pane was preserved"@,
{
    let chain = failure.chain();
    let error = MANAGER_STALE_GROUP_ERROR@;
    if chain.contains(error) {
        let k = choose|k: int| 0 <= k < chain.len() && chain[k] == error;
        if k > 0 {
            assert(failure.causes[k - 1] == error);
        }
    }
    if failure.text == error {
        assert(chain[0] == error);
    }
    if failure.causes.contains(error) {
        let k = choose|k: int| 0 <= k < failure.causes.len() && failure.causes[k] == error;
        assert(chain[k + 1] == error);
    }
    lemma_holds("Updated "@, group.title, " metadata; workload lifecycle and placement unchanged"@);
    if !stale(failure) {
        let end = " Observer; metadata was unchanged"@;
        lemma_holds("Could not "@, operation, end);
        reveal_strlit(" Observer; metadata was unchanged");
        reveal_strlit("metadata was unchanged");
        let part = "metadata was unchanged"@;
        let text = metadata_failure(operation, failure);
        let at = text.len() - part.len();
        assert(text.subrange(at, at + part.len()) =~= part);
    }
}

/// A view that is shown is told with what it shows and for which group; one that
/// is not, as kept.
pub proof fn shown_views_are_told(
    title: Seq<char>,
    filter: AgentViewFilter,
    state: StateView,
    id: Seq<char>,
    at: int,
)
    ensures
        holds_part(view_text(true, Some(title), filter), title),
        holds_part(view_text(true, Some(title), filter), filter.text()),
        view_text(false, Some(title), filter)
            == "Could not apply Agents sidebar view; previous view was preserved"@,
        (forall|i: int| 0 <= i < state.groups.len() ==> (#[trigger] state.groups[i]).id != id)
            ==> group_title(state, id) is None,
        0 <= at < state.groups.len() && state.groups[at].id == id && (forall|i: int|
            0 <= i < at ==> (#[trigger] state.groups[i]).id != id) ==> group_title(state, id)
            == Some(state.groups[at].title),
{
    find_group_finds(state.groups, id);
    lemma_holds_each(
        "Agents sidebar now shows "@,
        filter.text(),
        " for "@,
        title,
        "; open members to add them"@,
    );
}

/// Within a JSON string a plain character stands for itself and every other is
/// escaped; no two are written the same.
pub proof fn json_tells_characters_apart(a: char, b: char)
    ensures
        a != '"' && a != '\\' && a >= ' ' ==> json_char(a) == seq![a],
        a == '"' || a == '\\' || a < ' ' ==> json_char(a).len() > 1 && json_char(a)[0] == '\\',
        json_char(a) == json_char(b) ==> a == b,
{
    let x = json_char(a);
    let y = json_char(b);
    if a <= '\u{1f}' {
        reveal_with_fuel(pow16, 5);
        lemma_hex_round_trip(a as u32 as nat, 4);
    }
    if b <= '\u{1f}' {
        reveal_with_fuel(pow16, 5);
        lemma_hex_round_trip(b as u32 as nat, 4);
    }
    if x == y {
        if x.len() == 6 {
            assert(x.skip(2) =~= hex_text(a as u32 as nat, 4));
            assert(y.skip(2) =~= hex_text(b as u32 as nat, 4));
        } else if x.len() == 2 {
            assert(x[1] == y[1]);
        } else {
            assert(x[0] == y[0]);
        }
    }
}

/// A text is written character by character, between quotation marks.
pub proof fn json_strings_are_written_in_order(text: Seq<char>, c: char)
    ensures
        json_string(Seq::empty()) == seq!['"', '"'],
        json_string(text).drop_last() + json_char(c) + seq!['"'] == json_string(text.push(c)),
{
    assert(text.push(c).drop_last() =~= text);
    assert(json_string(text).drop_last() =~= seq!['"'] + json_chars(text));
    assert(json_string(text).drop_last() + json_char(c) + seq!['"'] =~= json_string(text.push(c)));
    assert(json_string(Seq::empty()) =~= seq!['"', '"']);
}

/// A record of a remote search that breaks off is not believed.
pub proof fn broken_records_are_not_believed(
    index: Seq<u8>,
    roots: Seq<Seq<char>>,
    known: RemoteView,
    max_results: int,
)
    ensures
        read_fields(seq![seq![82u8]], roots, known, max_results).1
            == DiscoveryCompletion::Malformed,
        read_fields(seq![seq![82u8], index], roots, known, max_results).1
            == DiscoveryCompletion::Malformed,
        read_fields(seq![seq![69u8]], roots, known, max_results).1
            == DiscoveryCompletion::Malformed,
        read_fields(seq![seq![76u8], index], roots, known, max_results).1
            == DiscoveryCompletion::Malformed,
        read_fields(seq![seq![78u8], index], roots, known, max_results).1
            == DiscoveryCompletion::Malformed,
{
    let r = seq![82u8];
    let e = seq![69u8];
    let l = seq![76u8];
    let n = seq![78u8];
    assert(r[0] == 82u8 && e[0] == 69u8 && l[0] == 76u8 && n[0] == 78u8);
}

} // verus!
