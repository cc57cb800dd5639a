//! What is asked of Herdr, and what its answers are taken for.

use vstd::prelude::*;
use vstd::string::*;
use vstd::utf8::*;

use crate::backend::CommandView;
use crate::document::{field, root, StepView};
use crate::failure::{Failure, FailureView};
use crate::fields::older;
use crate::herdr::{
    invocation_directory, nonempty_env, optional_env, placed, plugin_pane, plugin_pane_arguments,
    required_env, run_problem, runtime_context, usable_directory, ContextView, EnvValue, PluginPath,
    SplitDirection,
};
use crate::herdr_place::{
    destination_for, made_pane, may_close_source, placement_failure, replacement_failure_text,
    running_but, Destination, PlacementFailedView,
};
use crate::herdr_reply::{
    attach_process, attaches_external, error_message, external_target, inspection, process_at,
    processes_in, response, result_path, result_text, type_problem, version_in_parts, HerdrOutput,
    InspectionView, ProcessView,
};
use crate::herdr_socket::{confirms_no_delivery, request_text, version_in, DeliveryErrorView};
use crate::json_text::{json_nodes, json_string, text_at, value_at, JsonView, NodeView};
use crate::model::Placement;
use crate::path_text::file_name;
use crate::quote::quoted_word;
use crate::socket_client::{
    asked, deliverable, envelope, error_code, error_text, has_error, made_call, metadata_params,
    prompt_params, prompt_problem, read_params, request_id, starts_subscription, target_params,
    value_reply, wait_params, ClientView,
};
use crate::text::{byte_len, control, numeral, white_space};
use crate::text_laws::{holds_part, lemma_holds};

verus! {

/// The first value that stands at a path.
pub open spec fn stands_at(nodes: Seq<NodeView>, path: Seq<StepView>, value: JsonView) -> bool {
    exists|at: int|
        0 <= at < nodes.len() && (#[trigger] nodes[at]).path == path && nodes[at].value == value
            && forall|i: int| 0 <= i < at ==> (#[trigger] nodes[i]).path != path
}

/// A path is looked up as the first value that stands at it.
pub proof fn values_stand_at_their_path(
    nodes: Seq<NodeView>,
    path: Seq<StepView>,
    value: JsonView,
)
    ensures
        value_at(nodes, path) == Some(value) <==> stands_at(nodes, path, value),
        value_at(nodes, path) is None <==> forall|i: int|
            0 <= i < nodes.len() ==> (#[trigger] nodes[i]).path != path,
    decreases nodes.len(),
{
    if nodes.len() > 0 {
        let front = nodes.drop_last();
        let n = nodes.len() - 1;
        values_stand_at_their_path(front, path, value);
        assert(forall|i: int| 0 <= i < n ==> front[i] == nodes[i]);
        assert(nodes.last() == nodes[n]);
        if stands_at(front, path, value) {
            let at = choose|at: int|
                0 <= at < front.len() && (#[trigger] front[at]).path == path && front[at].value
                    == value && forall|i: int| 0 <= i < at ==> (#[trigger] front[i]).path != path;
            assert(nodes[at].path == path);
            assert forall|i: int| 0 <= i < at implies (#[trigger] nodes[i]).path != path by {
                assert(front[i].path != path);
            }
            assert(stands_at(nodes, path, value));
        }
        if stands_at(nodes, path, value) {
            let at = choose|at: int|
                0 <= at < nodes.len() && (#[trigger] nodes[at]).path == path && nodes[at].value
                    == value && forall|i: int| 0 <= i < at ==> (#[trigger] nodes[i]).path != path;
            if at < n {
                assert(front[at].path == path);
                assert forall|i: int| 0 <= i < at implies (#[trigger] front[i]).path != path by {
                    assert(nodes[i].path != path);
                }
                assert(stands_at(front, path, value));
            } else {
                assert forall|i: int| 0 <= i < front.len() implies (
                #[trigger] front[i]).path != path by {
                    assert(nodes[i].path != path);
                }
                assert(value_at(front, path) is None);
            }
        }
        if value_at(nodes, path) == Some(value) && value_at(front, path) is None {
            assert(nodes[n].path == path && nodes[n].value == value);
            assert forall|i: int| 0 <= i < n implies (#[trigger] nodes[i]).path != path by {
                assert(front[i].path != path);
            }
            assert(stands_at(nodes, path, value));
        }
        if value_at(nodes, path) is None {
            assert forall|i: int| 0 <= i < nodes.len() implies (
            #[trigger] nodes[i]).path != path by {
                if i < n {
                    assert(front[i].path != path);
                }
            }
        }
        if forall|i: int| 0 <= i < nodes.len() ==> (#[trigger] nodes[i]).path != path {
            assert forall|i: int| 0 <= i < front.len() implies (
            #[trigger] front[i]).path != path by {
                assert(nodes[i].path != path);
            }
            assert(nodes[n].path != path);
        }
    }
}

/// Each placement has a destination of its own, but for a replacement, which is
/// not made without being asked for.
pub proof fn placements_are_made_where_they_are_asked_for(placement: Placement)
    ensures
        destination_for(placement) == match placement {
            Placement::SplitRight => Some(Destination::Split(SplitDirection::Right)),
            Placement::SplitDown => Some(Destination::Split(SplitDirection::Down)),
            Placement::NewTab => Some(Destination::Tab),
            Placement::ReplaceCurrentPane => None,
        },
        SplitDirection::Right.text() == "right"@,
        SplitDirection::Down.text() == "down"@,
{
}

/// The pane that was made is the one that the answer names: of a split its pane,
/// of a tab its root pane.
pub proof fn the_made_pane_is_named_by_the_answer(
    output: HerdrOutput,
    direction: SplitDirection,
    nodes: Seq<NodeView>,
    pane: Seq<char>,
)
    requires
        pane.len() > 0,
        output.success,
        json_nodes(output.stdout@) == Ok::<Seq<NodeView>, Seq<char>>(nodes),
        value_at(nodes, seq![StepView::Key("result"@)]) is Some,
        text_at(nodes, seq![StepView::Key("error"@), StepView::Key("message"@)]) is None,
    ensures
        text_at(nodes, seq![StepView::Key("result"@), StepView::Key("type"@)]) == Some(
            "pane_info"@,
        ) && text_at(
            nodes,
            seq![StepView::Key("result"@), StepView::Key("pane"@), StepView::Key("pane_id"@)],
        ) == Some(pane) ==> made_pane(Destination::Split(direction), Ok(output)) == Ok::<
            Seq<char>,
            FailureView,
        >(pane),
        text_at(nodes, seq![StepView::Key("result"@), StepView::Key("type"@)]) == Some(
            "tab_created"@,
        ) && text_at(
            nodes,
            seq![StepView::Key("result"@), StepView::Key("root_pane"@), StepView::Key("pane_id"@)],
        ) == Some(pane) ==> made_pane(Destination::Tab, Ok(output)) == Ok::<
            Seq<char>,
            FailureView,
        >(pane),
{
    lemma_result_paths();
    assert(seq!["pane_info"@].contains("pane_info"@)) by {
        assert(seq!["pane_info"@][0] == "pane_info"@);
    }
    assert(seq!["tab_created"@].contains("tab_created"@)) by {
        assert(seq!["tab_created"@][0] == "tab_created"@);
    }
    lemma_result_path(seq!["pane"@, "pane_id"@]);
    lemma_result_path(seq!["root_pane"@, "pane_id"@]);
    lemma_result_path(Seq::<Seq<char>>::empty());
    assert(seq![StepView::Key("result"@)] + seq!["pane"@, "pane_id"@].map_values(
        |key: Seq<char>| StepView::Key(key),
    ) =~= seq![StepView::Key("result"@), StepView::Key("pane"@), StepView::Key("pane_id"@)]);
    assert(seq![StepView::Key("result"@)] + seq!["root_pane"@, "pane_id"@].map_values(
        |key: Seq<char>| StepView::Key(key),
    ) =~= seq![StepView::Key("result"@), StepView::Key("root_pane"@), StepView::Key("pane_id"@)]);
    assert(seq![StepView::Key("result"@)] + Seq::<Seq<char>>::empty().map_values(
        |key: Seq<char>| StepView::Key(key),
    ) =~= seq![StepView::Key("result"@)]);
}

/// The paths of the parts of an answer.
proof fn lemma_result_paths()
    ensures
        field(root(), "result"@) == seq![StepView::Key("result"@)],
        field(field(root(), "result"@), "type"@) == seq![
            StepView::Key("result"@),
            StepView::Key("type"@),
        ],
        field(field(root(), "error"@), "message"@) == seq![
            StepView::Key("error"@),
            StepView::Key("message"@),
        ],
        field(field(root(), "error"@), "code"@) == seq![
            StepView::Key("error"@),
            StepView::Key("code"@),
        ],
        field(root(), "error"@) == seq![StepView::Key("error"@)],
        field(root(), "id"@) == seq![StepView::Key("id"@)],
{
    assert(field(root(), "result"@) =~= seq![StepView::Key("result"@)]);
    assert(field(field(root(), "result"@), "type"@) =~= seq![
        StepView::Key("result"@),
        StepView::Key("type"@),
    ]);
    assert(field(field(root(), "error"@), "message"@) =~= seq![
        StepView::Key("error"@),
        StepView::Key("message"@),
    ]);
    assert(field(field(root(), "error"@), "code"@) =~= seq![
        StepView::Key("error"@),
        StepView::Key("code"@),
    ]);
    assert(field(root(), "error"@) =~= seq![StepView::Key("error"@)]);
    assert(field(root(), "id"@) =~= seq![StepView::Key("id"@)]);
}

/// A part of a result stands below it, key by key.
pub proof fn lemma_result_path(keys: Seq<Seq<char>>)
    ensures
        result_path(keys) == seq![StepView::Key("result"@)] + keys.map_values(
            |key: Seq<char>| StepView::Key(key),
        ),
    decreases keys.len(),
{
    let shown = |key: Seq<char>| StepView::Key(key);
    if keys.len() > 0 {
        lemma_result_path(keys.drop_last());
        assert(keys.drop_last().map_values(shown).push(shown(keys.last())) =~= keys.map_values(
            shown,
        ));
        assert(result_path(keys) =~= seq![StepView::Key("result"@)] + keys.map_values(shown));
    } else {
        assert(result_path(keys) =~= seq![StepView::Key("result"@)] + keys.map_values(shown));
    }
}

/// An answer is taken for a result exactly if the command succeeded and printed a
/// document with a result and without an error.
pub proof fn only_results_are_taken_for_results(
    output: HerdrOutput,
    operation: Seq<char>,
    nodes: Seq<NodeView>,
)
    requires
        json_nodes(output.stdout@) == Ok::<Seq<NodeView>, Seq<char>>(nodes),
        output.stdout@.len() > 0,
    ensures
        ({
            let error = text_at(nodes, seq![StepView::Key("error"@), StepView::Key("message"@)]);
            let result = value_at(nodes, seq![StepView::Key("result"@)]);
            let r = response(output, operation);
            &&& r is Ok <==> output.success && error is None && result is Some
            &&& r is Ok ==> r->Ok_0 == nodes
            &&& error matches Some(message) ==> r is Err && holds_part(r->Err_0.text, message)
                && holds_part(r->Err_0.text, operation)
        }),
{
    lemma_result_paths();
    match error_message(nodes) {
        Some(message) => {
            lemma_holds("Herdr "@ + operation + " failed: "@, message, Seq::empty());
            lemma_holds("Herdr "@, operation, " failed: "@ + message);
            assert("Herdr "@ + operation + (" failed: "@ + message) =~= "Herdr "@ + operation
                + " failed: "@ + message);
        },
        None => {},
    }
}

/// A document that cannot be read is no answer, and the reason is told.
pub proof fn unreadable_answers_are_told(
    output: HerdrOutput,
    operation: Seq<char>,
    reason: Seq<char>,
)
    requires
        json_nodes(output.stdout@) == Err::<Seq<NodeView>, Seq<char>>(reason),
    ensures
        response(output, operation) is Err,
        output.success ==> response(output, operation)->Err_0.causes == seq![reason],
{
    if output.success {
        assert(response(output, operation)->Err_0.causes =~= seq![reason]);
    }
}

/// A text of an answer is given exactly if the answer is of the expected type and
/// the text stands where it should and holds something.
pub proof fn texts_are_given_where_they_stand(
    nodes: Seq<NodeView>,
    keys: Seq<Seq<char>>,
    description: Seq<char>,
    expected: Seq<Seq<char>>,
)
    ensures
        ({
            let path = seq![StepView::Key("result"@)] + keys.map_values(
                |key: Seq<char>| StepView::Key(key),
            );
            let r = result_text(nodes, keys, description);
            &&& r is Ok <==> value_at(nodes, seq![StepView::Key("result"@)]) is Some && text_at(
                nodes,
                path,
            ) is Some && text_at(nodes, path)->0.len() > 0
            &&& r is Ok ==> Some(r->Ok_0) == text_at(nodes, path)
            &&& r is Err && value_at(nodes, seq![StepView::Key("result"@)]) is Some
                ==> holds_part(r->Err_0, description)
        }),
        ({
            let kind = text_at(nodes, seq![StepView::Key("result"@), StepView::Key("type"@)]);
            type_problem(nodes, expected) is None <==> kind is Some && expected.contains(kind->0)
        }),
{
    lemma_result_paths();
    lemma_result_path(keys);
    lemma_result_path(Seq::<Seq<char>>::empty());
    assert(seq![StepView::Key("result"@)] + Seq::<Seq<char>>::empty().map_values(
        |key: Seq<char>| StepView::Key(key),
    ) =~= seq![StepView::Key("result"@)]);
    lemma_holds("Herdr response did not contain "@, description, Seq::empty());
    lemma_holds("Herdr "@, description, " was empty"@);
    lemma_holds("Herdr "@, description, " was not a string"@);
}

/// A command counts as run only in the pane that it was meant for.
pub proof fn commands_run_where_they_were_meant_to(
    output: HerdrOutput,
    nodes: Seq<NodeView>,
    pane: Seq<char>,
    ran: Seq<char>,
)
    requires
        ran.len() > 0,
        output.success,
        output.stdout@.len() > 0,
        json_nodes(output.stdout@) == Ok::<Seq<NodeView>, Seq<char>>(nodes),
        value_at(nodes, seq![StepView::Key("result"@)]) is Some,
        text_at(nodes, seq![StepView::Key("error"@), StepView::Key("message"@)]) is None,
        text_at(nodes, seq![StepView::Key("result"@), StepView::Key("type"@)]) == Some(
            "pane_ran"@,
        ),
        text_at(nodes, seq![StepView::Key("result"@), StepView::Key("pane_id"@)]) == Some(ran),
    ensures
        run_problem(Ok(output), pane) is None <==> ran == pane,
{
    lemma_result_paths();
    lemma_result_path(seq!["pane_id"@]);
    lemma_result_path(Seq::<Seq<char>>::empty());
    assert(seq![StepView::Key("result"@)] + Seq::<Seq<char>>::empty().map_values(
        |key: Seq<char>| StepView::Key(key),
    ) =~= seq![StepView::Key("result"@)]);
    assert(seq![StepView::Key("result"@)] + seq!["pane_id"@].map_values(
        |key: Seq<char>| StepView::Key(key),
    ) =~= seq![StepView::Key("result"@), StepView::Key("pane_id"@)]);
    assert(seq!["pane_ran"@].contains("pane_ran"@)) by {
        assert(seq!["pane_ran"@][0] == "pane_ran"@);
    }
}

/// A command that prints nothing ran exactly if it succeeded.
pub proof fn silent_commands_ran_if_they_succeeded(output: HerdrOutput, pane: Seq<char>)
    requires
        output.stdout@.len() == 0,
    ensures
        run_problem(Ok(output), pane) is None <==> output.success,
{
}

/// What runs in a pane is told only of the pane that was asked about, process by
/// process, each with its number, its name and its arguments.
pub proof fn panes_are_inspected_one_at_a_time(
    nodes: Seq<NodeView>,
    pane: Seq<char>,
    path: Seq<StepView>,
    count: int,
    at: int,
)
    ensures
        inspection(nodes, pane) matches Ok(found) ==> {
            &&& found.pane_id == pane
            &&& text_at(
                nodes,
                seq![
                    StepView::Key("result"@),
                    StepView::Key("process_info"@),
                    StepView::Key("pane_id"@),
                ],
            ) == Some(pane)
        },
        processes_in(nodes, path, count) matches Ok(found) ==> {
            &&& count >= 0 ==> found.len() == count
            &&& 0 <= at < count ==> process_at(nodes, path.push(StepView::Item(at))) == Ok::<
                ProcessView,
                Seq<char>,
            >(found[at])
        },
        process_at(nodes, path) matches Ok(process) ==> {
            &&& process.name.len() > 0
            &&& text_at(nodes, path.push(StepView::Key("name"@))) == Some(process.name)
            &&& value_at(nodes, path.push(StepView::Key("pid"@))) == Some(
                JsonView::Number(Some(process.pid)),
            )
        },
    decreases count,
{
    if count > 0 {
        panes_are_inspected_one_at_a_time(nodes, pane, path, count - 1, at);
    }
    assert(field(field(field(root(), "result"@), "process_info"@), "pane_id"@) =~= seq![
        StepView::Key("result"@),
        StepView::Key("process_info"@),
        StepView::Key("pane_id"@),
    ]);
}

/// The source of a replacement is closed only if exactly the same runs in it as
/// when the replacement began.
pub proof fn sources_are_closed_unchanged(
    found: Result<InspectionView, FailureView>,
    occupant: InspectionView,
)
    ensures
        may_close_source(found, occupant) <==> (found matches Ok(now) && now.pane_id
            == occupant.pane_id && now.foreground_processes == occupant.foreground_processes),
        occupant.needs_confirmation() <==> occupant.foreground_processes.len() > 0,
{
    if found is Ok {
        let now = found->Ok_0;
        if now.pane_id == occupant.pane_id && now.foreground_processes
            == occupant.foreground_processes {
            assert(now =~= occupant);
        }
    }
}

/// What is said of a failed placement or replacement names the panes that it is
/// about, and a replacement that its source was preserved.
pub proof fn failures_name_their_panes(
    failed: PlacementFailedView,
    cleanup: Option<FailureView>,
    source: Seq<char>,
    pane: Seq<char>,
)
    ensures
        holds_part(placement_failure(failed, cleanup).text, failed.pane_id),
        holds_part(placement_failure(failed, cleanup).text, failed.stage),
        placement_failure(failed, cleanup).causes == failed.failure.chain(),
        holds_part(replacement_failure_text(source, pane, cleanup), pane),
        holds_part(replacement_failure_text(source, pane, cleanup), source),
        holds_part(replacement_failure_text(source, pane, cleanup), "` was preserved"@),
        holds_part(running_but(pane, source), pane),
        holds_part(running_but(pane, source), source),
{
    let head = failed.stage + " ("@ + failed.failure.full() + ")"@;
    let text = placement_failure(failed, cleanup).text;
    let at: int = 0;
    assert(text.subrange(at, at + failed.stage.len()) =~= failed.stage);
    match cleanup {
        None => {
            lemma_holds(
                head + "; empty destination `"@,
                failed.pane_id,
                "` was removed"@,
            );
            let told = replacement_failure_text(source, pane, cleanup);
            lemma_holds(
                "replacement destination `"@,
                pane,
                "` failed and was removed; source pane `"@ + source + "` was preserved"@,
            );
            assert(told =~= "replacement destination `"@ + pane + (
            "` failed and was removed; source pane `"@ + source + "` was preserved"@));
            lemma_holds(
                "replacement destination `"@ + pane + "` failed and was removed; source pane `"@,
                source,
                "` was preserved"@,
            );
            lemma_holds(
                "replacement destination `"@ + pane + "` failed and was removed; source pane `"@
                    + source,
                "` was preserved"@,
                Seq::empty(),
            );
        },
        Some(cleanup) => {
            lemma_holds(
                head + " and empty destination `"@,
                failed.pane_id,
                "` could not be removed: "@ + cleanup.full(),
            );
            assert(text =~= head + " and empty destination `"@ + failed.pane_id + (
            "` could not be removed: "@ + cleanup.full()));
            let told = replacement_failure_text(source, pane, Some(cleanup));
            let rest = "` failed and cleanup also failed ("@ + cleanup.full() + "); source pane `"@;
            lemma_holds(
                "replacement destination `"@,
                pane,
                rest + source + "` was preserved"@,
            );
            assert(told =~= "replacement destination `"@ + pane + (rest + source
                + "` was preserved"@));
            lemma_holds("replacement destination `"@ + pane + rest, source, "` was preserved"@);
            assert(told =~= "replacement destination `"@ + pane + rest + source
                + "` was preserved"@);
            lemma_holds(
                "replacement destination `"@ + pane + rest + source,
                "` was preserved"@,
                Seq::empty(),
            );
        },
    }
    let warning = running_but(pane, source);
    lemma_holds(
        "replacement destination `"@,
        pane,
        "` is running, but source pane `"@ + source + "`"@,
    );
    assert(warning =~= "replacement destination `"@ + pane + (
    "` is running, but source pane `"@ + source + "`"@));
    lemma_holds(
        "replacement destination `"@ + pane + "` is running, but source pane `"@,
        source,
        "`"@,
    );
}

/// A command is placed as it is, behind its environment: the variables that would
/// place or nest it again are taken away, and each directory of the plugin is
/// given.
pub proof fn commands_are_placed_as_they_are(command: CommandView, paths: Seq<PluginPath>)
    ensures
        ({
            let run = placed(command, paths);
            let n = paths.len() as int;
            &&& run.program == "env"@
            &&& run.args.len() == 5 + n + command.args.len()
            &&& run.args.take(4) == seq!["-u"@, "HERDR_BIN_PATH"@, "-u"@, "TMUX"@]
            &&& forall|i: int|
                0 <= i < n ==> #[trigger] run.args[4 + i] == paths[i].name@ + "="@ + paths[i].value@
            &&& run.args[4 + n] == command.program
            &&& run.args.skip(5 + n) == command.args
        }),
{
    let run = placed(command, paths);
    assert(run.args.take(4) =~= seq!["-u"@, "HERDR_BIN_PATH"@, "-u"@, "TMUX"@]);
    assert(run.args.skip(5 + paths.len() as int) =~= command.args);
}

/// A pane of the plugin is opened at the entry point that was asked for, as a
/// popup where there are popups and as an overlay otherwise.
pub proof fn plugin_panes_open_at_their_entry_point(entrypoint: Seq<char>)
    ensures
        ({
            let popup = plugin_pane_arguments(entrypoint, true);
            let overlay = plugin_pane_arguments(entrypoint, false);
            &&& overlay.len() == 9
            &&& overlay.take(3) == seq!["plugin"@, "pane"@, "open"@]
            &&& overlay[3] == "--plugin"@ && overlay[4] == "moneycaringcoder.tether"@
            &&& overlay[5] == "--entrypoint"@ && overlay[6] == entrypoint
            &&& overlay[7] == "--placement"@ && overlay[8] == "overlay"@
            &&& popup.len() == 13
            &&& popup.take(8) == overlay.take(8)
            &&& popup[8] == "popup"@
            &&& popup.skip(9) == seq!["--width"@, "80%"@, "--height"@, "80%"@]
        }),
{
    let popup = plugin_pane_arguments(entrypoint, true);
    let overlay = plugin_pane_arguments(entrypoint, false);
    assert(overlay.take(3) =~= seq!["plugin"@, "pane"@, "open"@]);
    assert(popup.take(8) =~= overlay.take(8));
    assert(popup.skip(9) =~= seq!["--width"@, "80%"@, "--height"@, "80%"@]);
}

/// A directory can be used exactly if it is an absolute path of at most 4,096
/// bytes without control characters.
pub proof fn usable_directories_are_plain_and_absolute(directory: Seq<char>)
    ensures
        usable_directory(directory) <==> {
            &&& directory.len() > 0 && directory[0] == '/'
            &&& byte_len(directory) <= 4_096
            &&& forall|i: int| 0 <= i < directory.len() ==> !control(#[trigger] directory[i])
        },
{
}

/// The directory of an invocation is that of the focused pane; only where that is
/// not told is it that of the workspace.
pub proof fn the_focused_pane_gives_the_directory(nodes: Seq<NodeView>, directory: Seq<char>)
    requires
        value_at(nodes, Seq::empty()) == Some(JsonView::Object),
        usable_directory(directory),
    ensures
        text_at(nodes, seq![StepView::Key("focused_pane_cwd"@)]) == Some(directory)
            ==> invocation_directory(nodes) == Some(directory),
        value_at(nodes, seq![StepView::Key("focused_pane_cwd"@)]) is None && text_at(
            nodes,
            seq![StepView::Key("workspace_cwd"@)],
        ) == Some(directory) ==> invocation_directory(nodes) == Some(directory),
        value_at(nodes, seq![StepView::Key("focused_pane_cwd"@)]) is Some && text_at(
            nodes,
            seq![StepView::Key("focused_pane_cwd"@)],
        ) is None ==> invocation_directory(nodes) is None,
{
    assert(field(root(), "focused_pane_cwd"@) =~= seq![StepView::Key("focused_pane_cwd"@)]);
    assert(field(root(), "workspace_cwd"@) =~= seq![StepView::Key("workspace_cwd"@)]);
}

/// A variable counts only if it holds more than white space; its fallback counts
/// where it is not set.
pub proof fn blank_variables_do_not_count(
    name: Seq<char>,
    value: Seq<char>,
    fallback_name: Seq<char>,
    fallback: EnvValue,
    text: String,
)
    ensures
        ({
            let holds = exists|i: int| 0 <= i < value.len() && !white_space(#[trigger] value[i]);
            &&& holds ==> nonempty_env(name, value) == Ok::<Seq<char>, FailureView>(value)
            &&& !holds ==> nonempty_env(name, value) is Err && holds_part(
                nonempty_env(name, value)->Err_0.text,
                name,
            )
            &&& required_env(name, Some(value)) == nonempty_env(name, value)
            &&& required_env(name, None) is Err
        }),
        text@ == value ==> match nonempty_env(name, value) {
            Ok(found) => optional_env(name, EnvValue::Text(text), fallback_name, fallback) == Ok::<
                Option<Seq<char>>,
                FailureView,
            >(Some(found)),
            Err(_) => optional_env(name, EnvValue::Text(text), fallback_name, fallback) is Err,
        },
        text@ == value ==> match nonempty_env(fallback_name, value) {
            Ok(found) => optional_env(
                name,
                EnvValue::Missing,
                fallback_name,
                EnvValue::Text(text),
            ) == Ok::<Option<Seq<char>>, FailureView>(Some(found)),
            Err(_) => optional_env(
                name,
                EnvValue::Missing,
                fallback_name,
                EnvValue::Text(text),
            ) is Err,
        },
        optional_env(name, EnvValue::Missing, fallback_name, EnvValue::Missing) == Ok::<
            Option<Seq<char>>,
            FailureView,
        >(None),
        optional_env(name, EnvValue::NotUnicode, fallback_name, fallback) is Err,
{
    lemma_holds("Herdr provided an empty "@, name, Seq::empty());
}

/// A pane of a person's places beside itself; where there is a plugin context,
/// beside the pane and in the workspace that the context names.
pub proof fn contexts_name_where_to_place(
    binary: Seq<char>,
    pane: Seq<char>,
    workspace: Seq<char>,
    context: Seq<char>,
    nodes: Seq<NodeView>,
    focused: Seq<char>,
    named: Seq<char>,
)
    requires
        json_nodes(encode_utf8(context)) == Ok::<Seq<NodeView>, Seq<char>>(nodes),
        text_at(nodes, seq![StepView::Key("focused_pane_id"@)]) == Some(focused),
        exists|i: int| 0 <= i < focused.len() && !white_space(#[trigger] focused[i]),
        exists|i: int| 0 <= i < named.len() && !white_space(#[trigger] named[i]),
    ensures
        runtime_context(binary, Some(pane), Some(workspace), None) == Ok::<
            ContextView,
            FailureView,
        >(ContextView { binary, pane_id: pane, workspace_id: workspace }),
        runtime_context(binary, None, Some(workspace), None) is Err,
        runtime_context(binary, Some(pane), None, None) is Err,
        text_at(nodes, seq![StepView::Key("workspace_id"@)]) == Some(named) ==> runtime_context(
            binary,
            Some(pane),
            Some(workspace),
            Some(context),
        ) == Ok::<ContextView, FailureView>(
            ContextView { binary, pane_id: focused, workspace_id: named },
        ),
        text_at(nodes, seq![StepView::Key("workspace_id"@)]) is None ==> runtime_context(
            binary,
            Some(pane),
            Some(workspace),
            Some(context),
        ) == Ok::<ContextView, FailureView>(
            ContextView { binary, pane_id: focused, workspace_id: workspace },
        ),
        plugin_pane(Some(context)) == Ok::<Seq<char>, FailureView>(focused),
        plugin_pane(None) is Err,
{
    assert(field(root(), "focused_pane_id"@) =~= seq![StepView::Key("focused_pane_id"@)]);
    assert(field(root(), "workspace_id"@) =~= seq![StepView::Key("workspace_id"@)]);
}

/// A process is the one that a command was to start exactly if it is that
/// program with those arguments, an agent hint aside, or attaches the external
/// session that the command names.
pub proof fn started_processes_are_recognized(
    process: ProcessView,
    command: CommandView,
    agent: Seq<char>,
)
    requires
        external_target(command.args) is None,
        file_name(command.program) is Some,
        file_name(command.program) != Some("env"@),
    ensures
        attach_process(process, command) <==> {
            &&& process.argv.len() > 0
            &&& file_name(process.argv[0]) == file_name(command.program)
            &&& process.argv.skip(1) == command.args
        },
        attach_process(
            process,
            CommandView {
                program: "env"@,
                args: seq!["HERDR_AGENT="@ + agent, command.program] + command.args,
            },
        ) == attach_process(process, command),
{
    if process.argv.len() > 0 {
        assert(process.argv.skip(1) =~= process.argv.drop_first());
    }
    let hint = CommandView {
        program: "env"@,
        args: seq!["HERDR_AGENT="@ + agent, command.program] + command.args,
    };
    lemma_env_name();
    assert("HERDR_AGENT="@.is_prefix_of(hint.args[0])) by {
        assert(hint.args[0] == "HERDR_AGENT="@ + agent);
    }
    assert(hint.args.skip(2) =~= command.args);
}

/// The program `env` is named so.
proof fn lemma_env_name()
    ensures
        file_name("env"@) == Some("env"@),
{
    reveal_strlit("env");
    reveal_strlit(".");
    reveal_strlit("..");
    reveal_with_fuel(crate::path_text::trimmed_path, 2);
    reveal_with_fuel(crate::path_text::name_start, 5);
    let text = "env"@;
    assert(text.len() == 3 && text[0] == 'e' && text[1] == 'n' && text[2] == 'v');
    assert(text.drop_last().last() == 'n');
    assert(text.drop_last().drop_last().last() == 'e');
    assert(text.drop_last().drop_last().drop_last().len() == 0);
    assert(crate::path_text::name_start(text) == 0);
    assert(text.skip(0) =~= text);
}

/// An external session is attached by tmux itself under its exact name, or by ssh
/// with that command.
pub proof fn external_attachments_are_recognized(
    target: Seq<char>,
    name: Seq<char>,
    program: Seq<char>,
    argv: Seq<Seq<char>>,
)
    requires
        argv.len() > 0,
    ensures
        external_target(
            seq!["session"@, "attach-external"@, "--target"@, target, "--"@, name],
        ) == Some("="@ + name),
        attaches_external("tmux"@, argv, target) <==> argv.skip(1) == seq![
            "attach-session"@,
            "-t"@,
            target,
        ],
        !target.contains('\0') ==> (attaches_external("ssh"@, argv, target) <==> argv.last()
            == "'tmux' 'attach-session' '-t' "@ + quoted_word(target)),
        program != "tmux"@ && program != "ssh"@ ==> !attaches_external(program, argv, target),
{
    assert(argv.skip(1) =~= argv.drop_first());
    reveal_strlit("tmux");
    reveal_strlit("ssh");
    assert("tmux"@[0] == 't' && "ssh"@[0] == 's');
}

/// Three numbers between dots are a version, and of two versions the one with the
/// smaller number in the first place where they differ is older.
pub proof fn versions_are_three_numbers(parts: Seq<Seq<char>>, a: (u64, u64, u64), b: (u64, u64, u64))
    requires
        parts.len() > 0,
    ensures
        version_in(parts) is Ok <==> parts.len() == 3 && version_in_parts(parts) is Ok,
        version_in(parts) is Ok ==> version_in_parts(parts) is Ok && version_in(parts)->Ok_0
            == version_in_parts(parts)->Ok_0,
        version_in_parts(parts) matches Ok(version) ==> parts.len() == 3
            && crate::fields::number_of(parts[0]) == Some(version.0) && crate::fields::number_of(
            parts[1],
        ) == Some(version.1) && crate::fields::number_of(parts[2]) == Some(version.2),
        parts.len() == 3 && crate::fields::number_of(parts[0]) is Some && crate::fields::number_of(
            parts[1],
        ) is Some && crate::fields::number_of(parts[2]) is Some ==> version_in_parts(parts) is Ok,
        a.0 < b.0 ==> older(a, b),
        a.0 == b.0 && a.1 < b.1 ==> older(a, b),
        a.0 == b.0 && a.1 == b.1 && a.2 < b.2 ==> older(a, b),
        older(a, b) ==> !older(b, a) && a != b,
        !older(a, b) && !older(b, a) ==> a == b,
{
}

/// A request is named by its number, asks for its method with its parameters on
/// one line of at most 262,144 bytes, and waits as long as it was told.
pub proof fn requests_say_what_is_asked(
    n: u64,
    method: Seq<char>,
    params: Seq<char>,
    timeout: int,
    expected: Seq<char>,
    key: Seq<char>,
    description: Seq<char>,
    client: ClientView,
)
    ensures
        ({
            let text = request_text(request_id(n), method, params);
            let r = made_call(n, method, params, timeout, expected, key, description);
            &&& r is Ok <==> byte_len(text) <= 262_144
            &&& r matches Ok(call) ==> {
                &&& call.id == "tether:"@ + numeral(n as nat)
                &&& call.method == method
                &&& call.bytes == encode_utf8(text).push(10u8)
                &&& call.timeout_millis == timeout
                &&& call.expected == expected
                &&& call.field == key
                &&& call.description == description
            }
            &&& holds_part(text, json_string(request_id(n)))
            &&& holds_part(text, json_string(method))
            &&& holds_part(text, params)
        }),
        asked(client).socket_path == client.socket_path,
        client.next_id < u64::MAX ==> asked(client).next_id == client.next_id + 1,
{
    let id = json_string(request_id(n));
    let name = json_string(method);
    let text = request_text(request_id(n), method, params);
    lemma_holds("{\"id\":"@, id, ",\"method\":"@ + name + ",\"params\":"@ + params + "}"@);
    assert(text =~= "{\"id\":"@ + id + (",\"method\":"@ + name + ",\"params\":"@ + params + "}"@));
    lemma_holds("{\"id\":"@ + id + ",\"method\":"@, name, ",\"params\":"@ + params + "}"@);
    assert(text =~= "{\"id\":"@ + id + ",\"method\":"@ + name + (",\"params\":"@ + params + "}"@));
    lemma_holds("{\"id\":"@ + id + ",\"method\":"@ + name + ",\"params\":"@, params, "}"@);
    let r = made_call(n, method, params, timeout, expected, key, description);
    if r is Ok {
        assert(r->Ok_0.bytes =~= encode_utf8(text).push(10u8));
    }
}

/// What is asked about an agent names the agent, the lines or the prompt, and how
/// long to wait; what labels a pane names the pane, the source and every label.
pub proof fn parameters_name_their_subject(
    target: Seq<char>,
    prompt: Seq<char>,
    lines: u32,
    millis: u64,
    pane: Seq<char>,
    source: Seq<char>,
    tokens: Seq<(Seq<char>, Seq<char>)>,
)
    ensures
        holds_part(target_params(target), json_string(target)),
        holds_part(read_params(target, lines), json_string(target)),
        holds_part(read_params(target, lines), numeral(lines as nat)),
        holds_part(wait_params(target, millis), json_string(target)),
        holds_part(wait_params(target, millis), numeral(millis as nat)),
        holds_part(prompt_params(target, prompt, millis), json_string(target)),
        holds_part(prompt_params(target, prompt, millis), json_string(prompt)),
        holds_part(prompt_params(target, prompt, millis), numeral(millis as nat)),
        holds_part(metadata_params(pane, source, tokens), json_string(pane)),
        holds_part(metadata_params(pane, source, tokens), json_string(source)),
{
    let name = json_string(target);
    let text = json_string(prompt);
    let time = numeral(millis as nat);
    lemma_holds("{\"target\":"@, name, "}"@);
    let read = read_params(target, lines);
    let rows = numeral(lines as nat);
    let tail = ",\"source\":\"recent_unwrapped\",\"strip_ansi\":true,\"target\":"@;
    lemma_holds("{\"format\":\"text\",\"lines\":"@, rows, tail + name + "}"@);
    assert(read =~= "{\"format\":\"text\",\"lines\":"@ + rows + (tail + name + "}"@));
    lemma_holds("{\"format\":\"text\",\"lines\":"@ + rows + tail, name, "}"@);
    let wait = wait_params(target, millis);
    let until = ",\"until\":[\"idle\",\"done\",\"blocked\"]}"@;
    lemma_holds("{\"target\":"@, name, ",\"timeout_ms\":"@ + time + until);
    assert(wait =~= "{\"target\":"@ + name + (",\"timeout_ms\":"@ + time + until));
    lemma_holds("{\"target\":"@ + name + ",\"timeout_ms\":"@, time, until);
    let ask = prompt_params(target, prompt, millis);
    let end = ",\"until\":[\"idle\",\"done\",\"blocked\"]}}"@;
    let middle = ",\"wait\":{\"timeout_ms\":"@;
    lemma_holds("{\"target\":"@, name, ",\"text\":"@ + text + middle + time + end);
    assert(ask =~= "{\"target\":"@ + name + (",\"text\":"@ + text + middle + time + end));
    lemma_holds("{\"target\":"@ + name + ",\"text\":"@, text, middle + time + end);
    assert(ask =~= "{\"target\":"@ + name + ",\"text\":"@ + text + (middle + time + end));
    lemma_holds("{\"target\":"@ + name + ",\"text\":"@ + text + middle, time, end);
    let labels = metadata_params(pane, source, tokens);
    let rest = ",\"tokens\":{"@ + crate::socket_client::token_members(tokens) + "}}"@;
    lemma_holds("{\"pane_id\":"@, json_string(pane), ",\"source\":"@ + json_string(source) + rest);
    assert(labels =~= "{\"pane_id\":"@ + json_string(pane) + (",\"source\":"@ + json_string(source)
        + rest));
    lemma_holds("{\"pane_id\":"@ + json_string(pane) + ",\"source\":"@, json_string(source), rest);
    assert(labels =~= "{\"pane_id\":"@ + json_string(pane) + ",\"source\":"@ + json_string(source)
        + rest);
}

/// An answer counts only for the request that it names, and only if it holds a
/// result and no error.
pub proof fn answers_count_for_their_request(
    bytes: Vec<u8>,
    failure: Failure,
    id: Seq<char>,
    method: Seq<char>,
    nodes: Seq<NodeView>,
)
    requires
        json_nodes(bytes@) == Ok::<Seq<NodeView>, Seq<char>>(nodes),
    ensures
        ({
            let named = text_at(nodes, seq![StepView::Key("id"@)]) == Some(id);
            let error = value_at(nodes, seq![StepView::Key("error"@)]) is Some;
            let result = value_at(nodes, seq![StepView::Key("result"@)]) is Some;
            let r = value_reply(Ok(bytes), id, method);
            &&& r is Ok <==> named && !error && result
            &&& r is Ok ==> r->Ok_0 == nodes
            &&& envelope(Ok(bytes), id, method) is Ok <==> named
            &&& value_reply(Err(failure), id, method) == Err::<Seq<NodeView>, FailureView>(
                failure@,
            )
            &&& named && error ==> r is Err && holds_part(r->Err_0.text, error_code(nodes))
                && holds_part(r->Err_0.text, error_text(nodes))
        }),
{
    lemma_result_paths();
    let code = error_code(nodes);
    let text = error_text(nodes);
    let whole = "Herdr rejected "@ + method + ": "@ + code + ": "@ + text;
    lemma_holds("Herdr rejected "@ + method + ": "@, code, ": "@ + text);
    assert(whole =~= "Herdr rejected "@ + method + ": "@ + code + (": "@ + text));
    lemma_holds("Herdr rejected "@ + method + ": "@ + code + ": "@, text, Seq::empty());
}

/// The code and the message of an error are those that Herdr reports.
pub proof fn errors_are_told_as_reported(nodes: Seq<NodeView>, code: Seq<char>, message: Seq<char>)
    ensures
        text_at(nodes, seq![StepView::Key("error"@), StepView::Key("code"@)]) == Some(code)
            ==> error_code(nodes) == code,
        text_at(nodes, seq![StepView::Key("error"@), StepView::Key("message"@)]) == Some(message)
            ==> error_text(nodes) == message && error_message(nodes) == Some(message),
        has_error(nodes) <==> value_at(nodes, seq![StepView::Key("error"@)]) is Some,
{
    lemma_result_paths();
}

/// A prompt surely arrived only if the answer holds what was asked for. It surely
/// did not arrive only if Herdr says so with a code that means it; anything else
/// is uncertain.
pub proof fn prompts_arrive_surely_or_not(
    nodes: Seq<NodeView>,
    failure: FailureView,
    expected: Seq<char>,
    key: Seq<char>,
)
    ensures
        prompt_problem(Err(failure), expected, key) == Some(DeliveryErrorView::Uncertain),
        ({
            let error = value_at(nodes, seq![StepView::Key("error"@)]) is Some;
            let told = text_at(nodes, seq![StepView::Key("result"@), StepView::Key("type"@)])
                == Some(expected) && value_at(
                nodes,
                seq![StepView::Key("result"@), StepView::Key(key)],
            ) is Some && value_at(nodes, seq![StepView::Key("result"@)]) is Some;
            let problem = prompt_problem(Ok(nodes), expected, key);
            &&& problem is None <==> !error && told
            &&& problem matches Some(DeliveryErrorView::Rejected { code, message }) ==> error
                && code == error_code(nodes) && message == error_text(nodes)
                && confirms_no_delivery(code)
            &&& error && confirms_no_delivery(error_code(nodes)) ==> problem is Some && problem->0
                is Rejected
        }),
{
    lemma_result_paths();
    assert(field(field(root(), "result"@), key) =~= seq![
        StepView::Key("result"@),
        StepView::Key(key),
    ]);
}

/// Only nine codes mean that a prompt did not arrive.
pub proof fn few_codes_mean_that_nothing_arrived(code: Seq<char>)
    ensures
        confirms_no_delivery(code) <==> seq![
            "invalid_request"@,
            "invalid_params"@,
            "method_not_found"@,
            "protocol_mismatch"@,
            "permission_denied"@,
            "agent_not_found"@,
            "agent_not_running"@,
            "agent_ambiguous"@,
            "unsupported"@,
        ].contains(code),
{
    let codes = seq![
        "invalid_request"@,
        "invalid_params"@,
        "method_not_found"@,
        "protocol_mismatch"@,
        "permission_denied"@,
        "agent_not_found"@,
        "agent_not_running"@,
        "agent_ambiguous"@,
        "unsupported"@,
    ];
    assert(codes.len() == 9);
    assert(codes[0] == "invalid_request"@ && codes[1] == "invalid_params"@);
    assert(codes[2] == "method_not_found"@ && codes[3] == "protocol_mismatch"@);
    assert(codes[4] == "permission_denied"@ && codes[5] == "agent_not_found"@);
    assert(codes[6] == "agent_not_running"@ && codes[7] == "agent_ambiguous"@);
    assert(codes[8] == "unsupported"@);
    if codes.contains(code) {
        let k = choose|k: int| 0 <= k < codes.len() && codes[k] == code;
    }
}

/// A prompt is handed over exactly if it and its target hold something and it has
/// at most 65,536 bytes.
pub proof fn prompts_hold_something(target: Seq<char>, prompt: Seq<char>)
    ensures
        deliverable(target, prompt) <==> {
            &&& exists|i: int| 0 <= i < target.len() && !white_space(#[trigger] target[i])
            &&& exists|i: int| 0 <= i < prompt.len() && !white_space(#[trigger] prompt[i])
            &&& byte_len(prompt) <= 65_536
        },
{
}

/// A subscription started exactly if the answer names it, reports no error and
/// says so.
pub proof fn subscriptions_start_when_confirmed(nodes: Seq<NodeView>, id: Seq<char>)
    ensures
        starts_subscription(nodes, id) <==> {
            &&& text_at(nodes, seq![StepView::Key("id"@)]) == Some(id)
            &&& value_at(nodes, seq![StepView::Key("error"@)]) is None
            &&& text_at(nodes, seq![StepView::Key("result"@), StepView::Key("type"@)]) == Some(
                "subscription_started"@,
            )
        },
{
    lemma_result_paths();
}

} // verus!
