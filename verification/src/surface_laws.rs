//! What the surfaces show of their state, and what painting changes.

use vstd::prelude::*;
use vstd::string::*;

use crate::agent_view::{filter_condition, AgentViewFilter};
use crate::backend::slash_parts;
use crate::capture::shown_capture;
use crate::capture_laws::lemma_control_sequence;
use crate::config::lowered;
use crate::doctor::{protocol_text, ProtocolProbe, ProtocolRange};
use crate::manager_flow::{change_made, request_refusal, RequestedView};
use crate::model::{reference_token_text, SessionId};
use crate::observer::{CaptureStatus, ObserverView, WorkerView};
use crate::observer_manager::ActionView;
use crate::observer_view::{
    canvas_of, header_text, hidden_count, on_one_line, state_lines, surface, surface_name,
    tile_body, tile_title, tiles, too_small, Area, DrawingView,
};
use crate::orchestration::OrchestrationErrorView;
use crate::paint::{blank_cells, cleared, filled, CellView};
use crate::path_order::{components, parts_precede, precedes, PartView};
use crate::path_text::trimmed_path;
use crate::ssh_target::begins_section;
use crate::state::{find_group, find_group_finds, find_member_finds, StateView};
use crate::text::numeral;
use crate::text_laws::{
    holds_part, lemma_holds, lemma_holds_each, lemma_keeps, texts_are_cut_at_a_character,
};
use crate::transport::without_escapes;
use crate::uuids::{lemma_simple_round_trip, simple_text};

verus! {

/// Every worker on the page has its own tile, marked exactly if it is the
/// selected one, with its own output.
pub proof fn every_worker_on_the_page_has_a_tile(area: Area, state: ObserverView, at: int)
    requires
        !area.empty(),
        !too_small(area, state),
        0 <= at < state.visible().len(),
    ensures
        ({
            let worker = state.visible()[at];
            let place = tiles(canvas_of(area, state), state.visible().len() as int)[at];
            exists|i: int|
                0 <= i < surface(area, state).len() && {
                    &&& (#[trigger] surface(area, state)[i]) is Tile
                    &&& surface(area, state)[i]->Tile_area == place
                    &&& surface(area, state)[i]->selected == (state.selected == Some(worker.id))
                    &&& holds_part(surface(area, state)[i]->title, state.title_of(worker))
                    &&& holds_part(surface(area, state)[i]->title, worker.status_word())
                }
        }),
{
    let worker = state.visible()[at];
    let drawing = surface(area, state)[2 + at];
    titles_tell_the_state(
        worker,
        state.title_of(worker),
        state.selected == Some(worker.id),
        state.targets.contains(worker.id),
    );
    assert(drawing is Tile);
}

/// The surface tells its name and how many workers there are, and shows the
/// notice if there is one.
pub proof fn surfaces_tell_how_many_and_what_happened(area: Area, state: ObserverView)
    requires
        !area.empty(),
        !too_small(area, state),
    ensures
        surface(area, state)[1] == (DrawingView::Text {
            area: Area { height: 1, ..area },
            text: header_text(state),
        }),
        surface_name(state).is_prefix_of(header_text(state)),
        state.workers.len() > 0 ==> holds_part(header_text(state), numeral(state.workers.len())),
        state.workers.len() == 0 ==> header_text(state) == surface_name(state) + "  0 workers"@,
        state.notice matches Some(notice) ==> exists|i: int|
            0 <= i < surface(area, state).len() && (#[trigger] surface(area, state)[i]) is Text
                && surface(area, state)[i]->text == "! "@ + on_one_line(shown_capture(notice)),
{
    let text = header_text(state);
    let name = surface_name(state);
    assert(text.subrange(0, name.len() as int) =~= name);
    if state.workers.len() > 0 {
        let start = name + "  "@;
        let count = numeral(state.workers.len());
        let n = (start + count).len() as int;
        lemma_holds(start, count, text.skip(n));
        assert(text =~= start + count + text.skip(n));
    }
    if state.notice is Some {
        let drawn = surface(area, state);
        let i = drawn.len() - 2;
        assert(drawn[i] is Text);
    }
}

/// The title of a tile tells whether it is selected or to be prompted, which
/// worker it is of, and how that stands.
pub proof fn titles_tell_the_state(
    worker: WorkerView,
    title: Seq<char>,
    selected: bool,
    target: bool,
)
    ensures
        ({
            let text = tile_title(worker, title, selected, target);
            &&& selected ==> "▶ "@.is_prefix_of(text)
            &&& !selected && target ==> "✓ "@.is_prefix_of(text)
            &&& !selected && !target ==> "  "@.is_prefix_of(text)
            &&& holds_part(text, title)
            &&& holds_part(text, worker.status_word())
            &&& worker.promptable() ==> " · PROMPT"@.is_suffix_of(text)
            &&& !worker.promptable() && worker.openable() ==> " · OPEN"@.is_suffix_of(text)
        }),
{
    let mark = if selected {
        "▶ "@
    } else if target {
        "✓ "@
    } else {
        "  "@
    };
    let latency = match worker.latency_ms {
        Some(latency) => " · "@ + numeral(latency as nat) + "ms"@,
        None => ""@,
    };
    let preview = if worker.sampled {
        " · PREVIEW"@
    } else {
        ""@
    };
    let end = if worker.promptable() {
        " · PROMPT"@
    } else if worker.openable() {
        " · OPEN"@
    } else {
        ""@
    };
    lemma_tile_title(mark, title, " · "@, worker.status_word(), latency, preview, end);
}

/// A title of several parts begins with the first, holds two of them, and ends
/// with the last.
proof fn lemma_tile_title(
    a: Seq<char>,
    b: Seq<char>,
    c: Seq<char>,
    d: Seq<char>,
    e: Seq<char>,
    f: Seq<char>,
    g: Seq<char>,
)
    ensures
        ({
            let text = a + b + c + d + e + f + g;
            &&& a.is_prefix_of(text)
            &&& holds_part(text, b)
            &&& holds_part(text, d)
            &&& g.is_suffix_of(text)
        }),
{
    let head = a + b + c + d + e;
    lemma_holds_each(a, b, c, d, e);
    lemma_keeps(head, b, f);
    lemma_keeps(head + f, b, g);
    lemma_keeps(head, d, f);
    lemma_keeps(head + f, d, g);
    assert(a.is_prefix_of(a)) by {
        assert(a.subrange(0, a.len() as int) =~= a);
    }
    lemma_keeps(a, a, b);
    lemma_keeps(a + b, a, c);
    lemma_keeps(a + b + c, a, d);
    lemma_keeps(a + b + c + d, a, e);
    lemma_keeps(head, a, f);
    lemma_keeps(head + f, a, g);
    let text = head + f + g;
    assert(text.subrange(text.len() - g.len(), text.len() as int) =~= g);
}

/// Nothing of the output of a worker that does not allow it is shown.
pub proof fn output_is_shown_only_where_it_is_allowed(
    worker: WorkerView,
    other: Option<Seq<char>>,
    status: CaptureStatus,
    verb: Seq<char>,
    area: Area,
)
    requires
        !worker.capabilities.observe_output,
        other is Some == worker.capture is Some,
    ensures
        tile_body(worker, status, verb, area) == tile_body(
            WorkerView { capture: other, ..worker },
            status,
            verb,
            area,
        ),
        !worker.agent_state.out_of_reach() ==> tile_body(worker, status, verb, area)
            == "Output not authorized"@,
{
    let changed = WorkerView { capture: other, ..worker };
    assert(state_lines(worker, verb)
        == state_lines(changed, verb));
}

/// The workers behind the page are counted; there are four on a page.
pub proof fn hidden_workers_are_counted(state: ObserverView)
    ensures
        hidden_count(state) == if state.workers.len() <= 4 * (state.page_number() + 1) {
            0
        } else {
            state.workers.len() - 4 * (state.page_number() + 1)
        },
{
}

/// Clearing empties the cells of an area and no others; filling takes their
/// colors and leaves what they show.
pub proof fn painting_changes_its_area(
    before: Map<(u16, u16), CellView>,
    area: Area,
    at: (u16, u16),
    width: u16,
    height: u16,
)
    requires
        before.dom().contains(at),
        area.in_range(),
    ensures
        ({
            let inside = area.x <= at.0 && at.0 < area.x + area.width && area.y <= at.1 && at.1
                < area.y + area.height;
            let emptied = cleared(before, area)[at];
            let plain = filled(before, area)[at];
            &&& !inside ==> emptied == before[at] && plain == before[at]
            &&& inside ==> emptied.symbol == " "@ && emptied.style.foreground == "Reset"@
                && emptied.style.background == "Reset"@ && emptied.style.modifiers == 0
            &&& inside ==> plain.symbol == before[at].symbol && plain.style.foreground == "Reset"@
                && plain.style.background == "Reset"@ && plain.style.modifiers
                == before[at].style.modifiers
        }),
        blank_cells(width, height).dom().contains(at) <==> at.0 < width && at.1 < height,
{
    assert(cleared(before, area).dom().contains(at));
    assert(filled(before, area).dom().contains(at));
}

/// A section of aliases begins with `Host`, in letters of either size.
pub proof fn sections_begin_with_host(word: Seq<char>)
    ensures
        begins_section(word) <==> word.map_values(|c: char| lowered(c)) == "host"@,
{
    reveal_strlit("host");
    let small = word.map_values(|c: char| lowered(c));
    if begins_section(word) {
        assert(small =~= "host"@);
    }
    if small == "host"@ {
        assert("host"@.len() == 4);
        assert(small.len() == word.len());
        assert(lowered(word[0]) == small[0]);
        assert(lowered(word[1]) == small[1]);
        assert(lowered(word[2]) == small[2]);
        assert(lowered(word[3]) == small[3]);
    }
}

/// The root is a path of its own, and slashes at the end of any other go.
pub proof fn slashes_at_the_end_go(path: Seq<char>)
    ensures
        trimmed_path(seq!['/']) == seq!['/'],
        path.len() > 0 ==> trimmed_path(path.push('/')) == trimmed_path(path),
        path.len() > 0 && path.last() != '/' && path.last() != '.' ==> trimmed_path(path) == path,
{
    assert(path.push('/').drop_last() =~= path);
}

/// A path stands right before those below it.
pub proof fn directories_stand_before_what_they_hold(directory: Seq<char>, name: Seq<char>)
    requires
        directory.len() > 0,
        name.len() > 0,
        !name.contains('/'),
        name != "."@,
        name != ".."@,
    ensures
        components(directory + seq!['/'] + name) == components(directory).push(
            PartView::Name(name),
        ),
        precedes(directory, directory + seq!['/'] + name),
        !precedes(directory + seq!['/'] + name, directory),
{
    let path = directory + seq!['/'] + name;
    texts_are_cut_at_a_character(directory, '/', name);
    texts_are_cut_at_a_character(name, '/', name);
    let parts = slash_parts(path);
    assert(parts =~= slash_parts(directory).push(name));
    assert(parts.drop_last() =~= slash_parts(directory));
    assert(path[0] == directory[0]);
    assert(components(path) =~= components(directory).push(PartView::Name(name)));
    lemma_precedes(components(directory), PartView::Name(name));
}

/// A row of components stands before a longer one that begins with it.
proof fn lemma_precedes(parts: Seq<PartView>, more: PartView)
    ensures
        parts_precede(parts, parts.push(more)),
        !parts_precede(parts.push(more), parts),
    decreases parts.len(),
{
    if parts.len() > 0 {
        lemma_precedes(parts.drop_first(), more);
        assert(parts.push(more).drop_first() =~= parts.drop_first().push(more));
        assert(parts.push(more)[0] == parts[0]);
    }
}

/// Control sequences leave nothing in what is told of a transport.
pub proof fn transports_tell_no_control_sequences(
    parameters: Seq<char>,
    end: char,
    rest: Seq<char>,
)
    requires
        '@' <= end <= '~',
        forall|i: int|
            0 <= i < parameters.len() ==> !('@' <= #[trigger] parameters[i] && parameters[i]
                <= '~'),
    ensures
        without_escapes(seq!['\x1b', '['] + (parameters.push(end) + rest)) == without_escapes(rest),
{
    let all = seq!['\x1b', '['] + (parameters.push(end) + rest);
    lemma_control_sequence(parameters, end, rest);
    assert(all[0] == '\x1b');
    assert(all.drop_first()[0] == '[');
    assert(all.drop_first().drop_first() =~= parameters.push(end) + rest);
}

/// What is said of a protocol tells whether it is known, too old or too new.
pub proof fn protocols_are_told_as_they_are(protocol: u32, known: ProtocolRange)
    ensures
        known.minimum <= protocol <= known.audited ==> protocol_text(
            ProtocolProbe::Observed(protocol),
            known,
        ) == "Herdr protocol: "@ + (numeral(protocol as nat) + " audited"@),
        protocol < known.minimum ==> protocol_text(ProtocolProbe::Observed(protocol), known)
            == "Herdr protocol: "@ + (numeral(protocol as nat) + (" unsupported; requires "@
            + numeral(known.minimum as nat) + "+"@)),
{
}

/// A reference is made of the last digits of an identifier, as many as asked for.
pub proof fn references_are_the_last_digits(uuid: u128, width: int)
    requires
        0 <= width <= 32,
    ensures
        reference_token_text(uuid, width).len() == width,
        reference_token_text(uuid, width) == simple_text(uuid).skip(32 - width),
{
    lemma_simple_round_trip(uuid);
    assert(reference_token_text(uuid, width) =~= simple_text(uuid).skip(32 - width));
}

/// A change to the groups leaves every session and every other group alone, and
/// makes what was asked for.
pub proof fn changes_make_what_was_asked_for(
    state: StateView,
    action: ActionView,
    after: StateView,
    other: int,
)
    requires
        change_made(state, action, after),
        0 <= other < state.groups.len(),
    ensures
        after.sessions == state.sessions,
        after == (StateView { groups: after.groups, ..state }),
        action matches ActionView::Create { id, title, orchestrator, workers } ==> {
            let made = after.groups.last();
            &&& after.groups.len() == state.groups.len() + 1
            &&& after.groups[other] == state.groups[other]
            &&& made.id == id
            &&& made.title == title
            &&& made.orchestrator == orchestrator
            &&& made.workers.len() == workers.len()
        },
        action matches ActionView::ReplaceWorkers { group, workers } ==> (find_group(
            state.groups,
            group.id,
        ) is Some ==> {
            &&& after.groups.len() == state.groups.len()
            &&& Some(other) != find_group(state.groups, group.id) ==> after.groups[other]
                == state.groups[other]
            &&& Some(other) == find_group(state.groups, group.id) ==> {
                &&& after.groups[other].id == group.id
                &&& after.groups[other].title == group.title
                &&& after.groups[other].orchestrator == group.orchestrator
                &&& after.groups[other].workers.len() == workers.len()
            }
        }),
        action matches ActionView::ReassignOrchestrator { group, orchestrator } ==> (find_group(
            state.groups,
            group.id,
        ) is Some ==> {
            &&& after.groups.len() == state.groups.len()
            &&& Some(other) != find_group(state.groups, group.id) ==> after.groups[other]
                == state.groups[other]
            &&& Some(other) == find_group(state.groups, group.id) ==> {
                &&& after.groups[other].id == group.id
                &&& after.groups[other].title == group.title
                &&& after.groups[other].orchestrator == orchestrator
            }
        }),
{
    match action {
        ActionView::ReplaceWorkers { group, .. } => {
            find_group_finds(state.groups, group.id);
        },
        ActionView::ReassignOrchestrator { group, .. } => {
            find_group_finds(state.groups, group.id);
        },
        _ => {},
    }
    if action is Create {
        assert(after.groups.drop_last()[other] == after.groups[other]);
    }
}

/// What is not there cannot be deleted or removed, and what is there can.
pub proof fn only_what_is_there_is_taken_away(
    state: StateView,
    id: Seq<char>,
    session: SessionId,
    at: int,
)
    ensures
        (forall|i: int| 0 <= i < state.groups.len() ==> (#[trigger] state.groups[i]).id != id) ==> {
            &&& request_refusal(state, RequestedView::Delete { id }) == Some(
                OrchestrationErrorView::UnknownGroup { group: id },
            )
            &&& request_refusal(state, RequestedView::RemoveWorker { group: id, session }) == Some(
                OrchestrationErrorView::UnknownGroup { group: id },
            )
        },
        0 <= at < state.groups.len() && state.groups[at].id == id && (forall|i: int|
            0 <= i < at ==> (#[trigger] state.groups[i]).id != id) ==> {
            let members = state.groups[at].workers;
            &&& request_refusal(state, RequestedView::Delete { id }) is None
            &&& request_refusal(state, RequestedView::RemoveWorker { group: id, session }) is None
                <==> exists|i: int|
                0 <= i < members.len() && (#[trigger] members[i]).session_id == session
        },
{
    find_group_finds(state.groups, id);
    if 0 <= at < state.groups.len() {
        find_member_finds(state.groups[at].workers, session);
    }
}

/// The view of remote workers shows those whose label says that they are.
pub proof fn remote_views_go_by_the_label(group_id: Seq<char>)
    ensures
        "},\"op\":\"eq\",\"value\":\"true\"}],\"op\":\"all\"}"@.is_suffix_of(
            filter_condition(group_id, AgentViewFilter::Remote),
        ),
{
    let text = filter_condition(group_id, AgentViewFilter::Remote);
    let end = "},\"op\":\"eq\",\"value\":\"true\"}],\"op\":\"all\"}"@;
    assert(text.subrange(text.len() - end.len(), text.len() as int) =~= end);
}

/// One worker is told as one, and more as more.
pub proof fn one_worker_is_one(state: ObserverView)
    requires
        state.workers.len() > 0,
    ensures
        ({
            let page = "  page "@ + numeral((state.page_number() + 1) as nat) + "/"@ + numeral(
                state.pages() as nat,
            );
            let count = surface_name(state) + "  "@ + numeral(state.workers.len());
            &&& state.workers.len() == 1 ==> header_text(state) == count + " worker"@ + page
            &&& state.workers.len() > 1 ==> header_text(state) == count + " workers"@ + page
        }),
{
    let page = "  page "@ + numeral((state.page_number() + 1) as nat) + "/"@ + numeral(
        state.pages() as nat,
    );
    let count = surface_name(state) + "  "@ + numeral(state.workers.len());
    assert(state.workers.len() == 1 ==> header_text(state) =~= count + " worker"@ + page);
    assert(state.workers.len() > 1 ==> header_text(state) =~= count + " workers"@ + page);
}

} // verus!
