//! What the observer draws: tiles, headers, notices and controls, each with
//! the cells it takes and the text it shows.

use ratatui::buffer::Buffer;
use vstd::prelude::*;
use vstd::string::*;

use crate::capture::{
    capture_viewport, sanitize_capture, sanitize_label, shown_capture, shown_label, viewport,
};
use crate::observer::{
    find_worker_finds, worker_views, CaptureStatus, ObserverAgentState, ObserverState, ObserverView, ObserverWorker,
    StaleReason, WorkerView, WORKERS_PER_PAGE,
};
use crate::paint::{
    all_uncolored, blank, blank_cells, cells, fill, filled, grid_styles, grid_text, paint_text,
    paint_tile, style_views, styles_of_grid, text_of_grid, uncolored, with_text, with_tile,
    CellStyle, CellView, MAX_PAINT_WIDTH,
};
use crate::text::{chars_of, decimal, join, joined, numeral, opt_view, same_text, text_of, views};

verus! {

pub const MIN_TILE_WIDTH: u16 = 12;

pub const MIN_TILE_HEIGHT: u16 = 3;

/// A rectangle of terminal cells.
#[derive(Clone, Copy, Debug, PartialEq, Eq, Structural)]
pub struct Area {
    pub x: u16,
    pub y: u16,
    pub width: u16,
    pub height: u16,
}

impl Area {
    /// A rectangle without cells.
    pub open spec fn empty(self) -> bool {
        self.width == 0 || self.height == 0
    }

    /// The cell in column `x` of row `y` lies in the rectangle.
    pub open spec fn holds(self, x: int, y: int) -> bool {
        self.x <= x < self.x + self.width && self.y <= y < self.y + self.height
    }

    /// The rectangle lies within the terminal's coordinates.
    pub open spec fn in_range(self) -> bool {
        self.x + self.width <= u16::MAX && self.y + self.height <= u16::MAX
    }
}

/// `a + b`, or the largest coordinate if that is exceeded.
pub open spec fn sat_add(a: u16, b: u16) -> u16 {
    if a + b > u16::MAX {
        u16::MAX
    } else {
        (a + b) as u16
    }
}

/// `a - b`, or zero if that is negative.
pub open spec fn sat_sub(a: u16, b: int) -> u16 {
    if a < b {
        0
    } else {
        (a - b) as u16
    }
}

/// The tiles of `count` workers: one fills the canvas, two split it side by
/// side, and three or four use a grid of two rows and two columns.
pub open spec fn tiles(area: Area, count: int) -> Seq<Area> {
    let left = area.width / 2;
    let top = area.height / 2;
    if count <= 0 {
        Seq::empty()
    } else if count == 1 {
        seq![area]
    } else if count == 2 {
        seq![
            Area { width: left, ..area },
            Area { x: sat_add(area.x, left), width: (area.width - left) as u16, ..area },
        ]
    } else {
        Seq::new(
            if count == 3 {
                3nat
            } else {
                4nat
            },
            |i: int|
                Area {
                    x: if i % 2 == 0 {
                        area.x
                    } else {
                        sat_add(area.x, left)
                    },
                    y: if i < 2 {
                        area.y
                    } else {
                        sat_add(area.y, top)
                    },
                    width: if i % 2 == 0 {
                        left
                    } else {
                        (area.width - left) as u16
                    },
                    height: if i < 2 {
                        top
                    } else {
                        (area.height - top) as u16
                    },
                },
        )
    }
}

/// Tiles lie in the canvas and never overlap; one, two or four of them cover it.
pub proof fn tiles_share_the_canvas(area: Area, count: int, x: int, y: int)
    requires
        area.in_range(),
    ensures
        forall|i: int|
            0 <= i < tiles(area, count).len() && (#[trigger] tiles(area, count)[i]).holds(x, y)
                ==> area.holds(x, y),
        forall|i: int, j: int|
            0 <= i < j < tiles(area, count).len() ==> !((#[trigger] tiles(area, count)[i]).holds(x, y)
                && (#[trigger] tiles(area, count)[j]).holds(x, y)),
        (count == 1 || count == 2 || count >= 4) && area.holds(x, y) ==> exists|i: int|
            0 <= i < tiles(area, count).len() && (#[trigger] tiles(area, count)[i]).holds(x, y),
{
    let parts = tiles(area, count);
    if (count == 1 || count == 2 || count >= 4) && area.holds(x, y) {
        let column: int = if count >= 2 && x >= area.x + area.width / 2 {
            1
        } else {
            0
        };
        let row: int = if count >= 4 && y >= area.y + area.height / 2 {
            1
        } else {
            0
        };
        assert(parts[row * 2 + column].holds(x, y));
    }
}

/// Returns deterministic row-major worker tiles for a page.
pub fn worker_rects(area: Area, count: usize) -> (rects: Vec<Area>)
    ensures
        rects@ == tiles(area, count as int),
{
    let mut rects: Vec<Area> = Vec::new();
    let left: u16 = area.width / 2;
    let top: u16 = area.height / 2;
    let right = Area { x: area.x.saturating_add(left), width: area.width - left, ..area };
    if count == 0 {
    } else if count == 1 {
        rects.push(area);
    } else if count == 2 {
        rects.push(Area { width: left, ..area });
        rects.push(right);
    } else {
        let below: u16 = area.y.saturating_add(top);
        rects.push(Area { width: left, height: top, ..area });
        rects.push(Area { height: top, ..right });
        rects.push(Area { y: below, width: left, height: area.height - top, ..area });
        if count != 3 {
            rects.push(Area { y: below, height: area.height - top, ..right });
        }
    }
    assert(rects@ =~= tiles(area, count as int));
    rects
}

/// A canvas on which every tile of `count` workers has room for a border and
/// some text.
pub open spec fn grid_fits(canvas: Area, count: int) -> bool {
    if count <= 0 {
        true
    } else if count == 1 {
        canvas.width >= MIN_TILE_WIDTH && canvas.height >= MIN_TILE_HEIGHT
    } else if count == 2 {
        canvas.width / 2 >= MIN_TILE_WIDTH && canvas.height >= MIN_TILE_HEIGHT
    } else {
        canvas.width / 2 >= MIN_TILE_WIDTH && canvas.height / 2 >= MIN_TILE_HEIGHT
    }
}

/// Where the grid fits, every tile has room.
pub proof fn fitting_tiles_have_room(canvas: Area, count: int)
    requires
        grid_fits(canvas, count),
    ensures
        forall|i: int|
            0 <= i < tiles(canvas, count).len() ==> (#[trigger] tiles(canvas, count)[i]).width
                >= MIN_TILE_WIDTH && tiles(canvas, count)[i].height >= MIN_TILE_HEIGHT,
{
}

/// Whether every tile of `count` workers has room on the canvas.
fn can_render_worker_grid(canvas: Area, count: usize) -> (fits: bool)
    ensures
        fits == grid_fits(canvas, count as int),
{
    match count {
        0 => true,
        1 => canvas.width >= MIN_TILE_WIDTH && canvas.height >= MIN_TILE_HEIGHT,
        2 => canvas.width / 2 >= MIN_TILE_WIDTH && canvas.height >= MIN_TILE_HEIGHT,
        _ => canvas.width / 2 >= MIN_TILE_WIDTH && canvas.height / 2 >= MIN_TILE_HEIGHT,
    }
}

/// The first candidate that is at most `width` characters long, or the last.
pub open spec fn widest(candidates: Seq<Seq<char>>, width: int) -> Seq<char>
    decreases candidates.len(),
{
    if candidates.len() <= 1 || candidates[0].len() <= width {
        candidates[0]
    } else {
        widest(candidates.drop_first(), width)
    }
}

/// Picks the first single-line control string that fits the available width.
///
/// Candidates are listed richest first. The last one is the floor and is
/// returned even when it overflows.
pub fn widest_that_fits(width: u16, candidates: &Vec<String>) -> (text: String)
    requires
        candidates@.len() > 0,
    ensures
        text@ == widest(views(candidates@), width as int),
{
    let ghost all = views(candidates@);
    let mut i: usize = 0;
    assert(all.skip(0) =~= all);
    while i < candidates.len() - 1
        invariant
            i < candidates@.len(),
            all == views(candidates@),
            widest(all, width as int) == widest(all.skip(i as int), width as int),
        decreases candidates.len() - i,
    {
        assert(all.skip(i as int)[0] == candidates@[i as int]@);
        if candidates[i].as_str().unicode_len() <= width as usize {
            return candidates[i].clone();
        }
        assert(all.skip(i as int).drop_first() =~= all.skip(i + 1));
        i += 1;
    }
    assert(all.skip(i as int)[0] == candidates@[i as int]@);
    candidates[i].clone()
}

/// One thing that is drawn.
#[derive(Debug, PartialEq, Eq)]
pub enum Drawing {
    /// The plain background of the surface.
    Background { area: Area },
    /// Text in the default style.
    Text { area: Area, text: String },
    /// A bordered tile with a title, emphasized if it is selected.
    Tile { area: Area, title: String, selected: bool, body: String },
}

/// The contents of a [`Drawing`].
pub enum DrawingView {
    Background { area: Area },
    Text { area: Area, text: Seq<char> },
    Tile { area: Area, title: Seq<char>, selected: bool, body: Seq<char> },
}

impl View for Drawing {
    type V = DrawingView;

    open spec fn view(&self) -> DrawingView {
        match self {
            Drawing::Background { area } => DrawingView::Background { area: *area },
            Drawing::Text { area, text } => DrawingView::Text { area: *area, text: text@ },
            Drawing::Tile { area, title, selected, body } => DrawingView::Tile {
                area: *area,
                title: title@,
                selected: *selected,
                body: body@,
            },
        }
    }
}

/// The contents of each drawing.
pub open spec fn drawing_views(drawings: Seq<Drawing>) -> Seq<DrawingView> {
    drawings.map_values(|drawing: Drawing| drawing@)
}

/// Everything a tile needs about the worker it draws.
pub struct TileView<'a> {
    pub worker: &'a ObserverWorker,
    pub capture_status: CaptureStatus,
    pub display_title: String,
    pub selected: bool,
    pub prompt_target: bool,
    /// The word the footer of this surface uses for the `r` key, so a tile never
    /// names it differently from the controls beneath it.
    pub refresh_verb: &'static str,
}

/// When a worker was last seen live.
pub open spec fn last_live_text(worker: WorkerView) -> Seq<char> {
    match worker.last_observed {
        Some(text) => shown_label(text, 80),
        None => "unknown"@,
    }
}

/// When a worker was last seen live, for dating what a tile is still showing.
fn last_live(worker: &ObserverWorker) -> (text: String)
    ensures
        text@ == last_live_text(worker@),
{
    match &worker.last_observed {
        Some(text) => sanitize_label(text.as_str(), 80),
        None => "unknown".to_owned(),
    }
}

/// The title of a tile.
pub open spec fn tile_title(
    worker: WorkerView,
    display_title: Seq<char>,
    selected: bool,
    prompt_target: bool,
) -> Seq<char> {
    (if selected {
        "▶ "@
    } else if prompt_target {
        "✓ "@
    } else {
        "  "@
    }) + display_title + " · "@ + worker.status_word() + (match worker.latency_ms {
        Some(latency) => " · "@ + numeral(latency as nat) + "ms"@,
        None => ""@,
    }) + (if worker.sampled {
        " · PREVIEW"@
    } else {
        ""@
    }) + (if worker.promptable() {
        " · PROMPT"@
    } else if worker.openable() {
        " · OPEN"@
    } else {
        ""@
    })
}

/// The explanations of a tile that is not current, the longest first. `verb` is
/// the word for the `r` key. Each one offers the remedy of its reason.
pub open spec fn state_lines(worker: WorkerView, verb: Seq<char>) -> Seq<Seq<char>> {
    let observed = last_live_text(worker);
    let retained = worker.capture is Some;
    if worker.agent_state == ObserverAgentState::Unreachable {
        if retained {
            seq![
                "UNREACHABLE · nothing answered · the output below is not current · r "@ + verb,
                "UNREACHABLE · nothing answered · output is not current · r "@ + verb,
                "UNREACHABLE · output not current · r "@ + verb,
                "UNREACHABLE · r "@ + verb,
            ]
        } else {
            seq![
                "UNREACHABLE · Herdr or the host did not answer · nothing retained · r "@ + verb,
                "UNREACHABLE · no answer, nothing retained · r "@ + verb,
                "UNREACHABLE · nothing retained · r "@ + verb,
                "UNREACHABLE · r "@ + verb,
            ]
        }
    } else if worker.agent_state != ObserverAgentState::Stale {
        Seq::empty()
    } else if worker.stale_reason == Some(StaleReason::EarlierMembership) {
        seq![
            "STALE · pane belongs to an earlier membership · r "@ + verb,
            "STALE · earlier membership · r "@ + verb,
            "STALE · r "@ + verb,
        ]
    } else if worker.stale_reason == Some(StaleReason::AmbiguousClaim) {
        seq![
            "STALE · two Herdr panes claim this worker · close one in Herdr, then r "@ + verb,
            "STALE · two panes claim this worker · close one in Herdr"@,
            "STALE · two panes claim it · close one in Herdr"@,
            "STALE · two panes claim it · close one"@,
            "STALE · 2 panes claim it · close one"@,
            "STALE · 2 claims · close one"@,
        ]
    } else if worker.stale_reason == Some(StaleReason::ReplacedOccupant) {
        seq![
            "STALE · another agent took this pane · reopen the workload"@,
            "STALE · another agent took this pane · reopen it"@,
            "STALE · another agent took it · reopen it"@,
            "STALE · pane taken · reopen it"@,
            "STALE · reopen it"@,
        ]
    } else if worker.stale_reason == Some(StaleReason::Connection) {
        seq![
            "STALE · connection lost · showing last known · last live "@ + (observed + (" · r "@
                + verb)),
            "STALE · connection lost · last live "@ + (observed + (" · r "@ + verb)),
            "STALE · last live "@ + (observed + (" · r "@ + verb)),
            "STALE · connection lost · r "@ + verb,
            "STALE · r "@ + verb,
        ]
    } else if retained {
        seq![
            "STALE · retained, not current · last live "@ + (observed + (" · r "@ + verb)),
            "STALE · not current · last live "@ + (observed + (" · r "@ + verb)),
            "STALE · last live "@ + (observed + (" · r "@ + verb)),
            "STALE · retained, not current · r "@ + verb,
            "STALE · r "@ + verb,
        ]
    } else {
        seq![
            "STALE · not current, and nothing retained · r "@ + verb,
            "STALE · not current, nothing retained · r "@ + verb,
            "STALE · not current · r "@ + verb,
            "STALE · r "@ + verb,
        ]
    }
}

/// Text followed by more text.
fn line(text: &str, more: &str) -> (whole: String)
    ensures
        whole@ == text@ + more@,
{
    text.to_owned().concat(more)
}

/// The explanations of a tile that is not current, the longest first.
#[verifier::rlimit(40)]
fn explanations(worker: &ObserverWorker, verb: &str) -> (lines: Vec<String>)
    ensures
        views(lines@) == state_lines(worker@, verb@),
{
    let dated = line(last_live(worker).as_str(), line(" · r ", verb).as_str());
    let dated = dated.as_str();
    let mut lines: Vec<String> = Vec::new();
    match worker.agent_state {
        ObserverAgentState::Unreachable => {
            if worker.capture.is_some() {
                lines.push(
                    line("UNREACHABLE · nothing answered · the output below is not current · r ", verb),
                );
                lines.push(line("UNREACHABLE · nothing answered · output is not current · r ", verb));
                lines.push(line("UNREACHABLE · output not current · r ", verb));
                lines.push(line("UNREACHABLE · r ", verb));
            } else {
                lines.push(
                    line("UNREACHABLE · Herdr or the host did not answer · nothing retained · r ", verb),
                );
                lines.push(line("UNREACHABLE · no answer, nothing retained · r ", verb));
                lines.push(line("UNREACHABLE · nothing retained · r ", verb));
                lines.push(line("UNREACHABLE · r ", verb));
            }
        },
        ObserverAgentState::Stale => match worker.stale_reason {
            Some(StaleReason::EarlierMembership) => {
                lines.push(line("STALE · pane belongs to an earlier membership · r ", verb));
                lines.push(line("STALE · earlier membership · r ", verb));
                lines.push(line("STALE · r ", verb));
            },
            Some(StaleReason::AmbiguousClaim) => {
                lines.push(
                    line(
                        "STALE · two Herdr panes claim this worker · close one in Herdr, then r ",
                        verb,
                    ),
                );
                lines.push("STALE · two panes claim this worker · close one in Herdr".to_owned());
                lines.push("STALE · two panes claim it · close one in Herdr".to_owned());
                lines.push("STALE · two panes claim it · close one".to_owned());
                lines.push("STALE · 2 panes claim it · close one".to_owned());
                lines.push("STALE · 2 claims · close one".to_owned());
            },
            Some(StaleReason::ReplacedOccupant) => {
                lines.push("STALE · another agent took this pane · reopen the workload".to_owned());
                lines.push("STALE · another agent took this pane · reopen it".to_owned());
                lines.push("STALE · another agent took it · reopen it".to_owned());
                lines.push("STALE · pane taken · reopen it".to_owned());
                lines.push("STALE · reopen it".to_owned());
            },
            Some(StaleReason::Connection) => {
                lines.push(line("STALE · connection lost · showing last known · last live ", dated));
                lines.push(line("STALE · connection lost · last live ", dated));
                lines.push(line("STALE · last live ", dated));
                lines.push(line("STALE · connection lost · r ", verb));
                lines.push(line("STALE · r ", verb));
            },
            _ => {
                if worker.capture.is_some() {
                    lines.push(line("STALE · retained, not current · last live ", dated));
                    lines.push(line("STALE · not current · last live ", dated));
                    lines.push(line("STALE · last live ", dated));
                    lines.push(line("STALE · retained, not current · r ", verb));
                    lines.push(line("STALE · r ", verb));
                } else {
                    lines.push(line("STALE · not current, and nothing retained · r ", verb));
                    lines.push(line("STALE · not current, nothing retained · r ", verb));
                    lines.push(line("STALE · not current · r ", verb));
                    lines.push(line("STALE · r ", verb));
                }
            },
        },
        _ => {},
    }
    assert(views(lines@) =~= state_lines(worker@, verb@));
    lines
}

/// The explanation of a tile that is not current, as long as fits.
pub open spec fn state_line(worker: WorkerView, verb: Seq<char>, width: int) -> Option<Seq<char>> {
    if worker.agent_state.out_of_reach() {
        Some(widest(state_lines(worker, verb), width))
    } else {
        None
    }
}

/// A line above a text, if there is one.
pub open spec fn prefixed(above: Option<Seq<char>>, body: Seq<char>) -> Seq<char> {
    match above {
        Some(above) => above + "\n"@ + body,
        None => body,
    }
}

/// The lines that may stand above the output of a tile: truncation first, then
/// the sample, then the state.
pub open spec fn output_notes(
    worker: WorkerView,
    status: CaptureStatus,
    verb: Seq<char>,
    width: int,
) -> Seq<Seq<char>> {
    (if status == CaptureStatus::Truncated {
        seq!["TRUNCATED · older output dropped by Herdr"@]
    } else {
        Seq::empty()
    }) + (if worker.sampled {
        seq![
            widest(
                seq![
                    "PREVIEW · recent output · v for more"@,
                    "PREVIEW · v for more"@,
                    "PREVIEW"@,
                ],
                width,
            ),
        ]
    } else {
        Seq::empty()
    }) + (match state_line(worker, verb, width) {
        Some(text) => seq![text],
        None => Seq::empty(),
    })
}

/// The output of a tile. Every line above it costs a row of it, and none may
/// cost the last one.
pub open spec fn output_body(
    worker: WorkerView,
    status: CaptureStatus,
    verb: Seq<char>,
    area: Area,
) -> Seq<char> {
    let notes = output_notes(worker, status, verb, sat_sub(area.width, 2) as int);
    let room = sat_sub(area.height, 3) as int;
    let shown = if notes.len() <= room {
        notes
    } else {
        notes.take(room)
    };
    let prefix = joined(shown, "\n"@);
    let capture = match worker.capture {
        Some(text) => shown_capture(text),
        None => Seq::empty(),
    };
    if capture.len() > 0 {
        let rows = viewport(
            capture,
            sat_sub(area.width, 2) as nat,
            sat_sub(area.height, (2 + shown.len()) as int) as nat,
        );
        if prefix.len() == 0 {
            rows
        } else {
            prefix + "\n"@ + rows
        }
    } else if prefix.len() == 0 {
        "No captured output"@
    } else {
        prefix
    }
}

/// The text in a tile.
pub open spec fn tile_body(
    worker: WorkerView,
    status: CaptureStatus,
    verb: Seq<char>,
    area: Area,
) -> Seq<char> {
    let state = state_line(worker, verb, sat_sub(area.width, 2) as int);
    if !worker.capabilities.observe_output {
        prefixed(state, "Output not authorized"@)
    } else {
        match status {
            CaptureStatus::Loading => if worker.live_agent && state is None {
                "Herdr agent attached · press v to read output"@
            } else {
                prefixed(state, "Loading output"@)
            },
            CaptureStatus::Unavailable => prefixed(state, "Output unavailable"@),
            CaptureStatus::Stale => (match state {
                Some(text) => text,
                None => "STALE"@,
            }) + (if worker.sampled {
                " · PREVIEW"@
            } else {
                ""@
            }) + "\n"@ + (match worker.capture {
                Some(text) => shown_capture(text),
                None => Seq::empty(),
            }),
            CaptureStatus::Ready | CaptureStatus::Truncated => output_body(
                worker,
                status,
                verb,
                area,
            ),
        }
    }
}

/// A line above `body`, if there is one.
fn prefix_with(above: Option<String>, body: &str) -> (text: String)
    ensures
        text@ == prefixed(opt_view(above), body@),
{
    match above {
        Some(above) => above.concat("\n").concat(body),
        None => body.to_owned(),
    }
}

/// The output of a tile, with as many lines above it as there is room for.
fn render_output(
    worker: &ObserverWorker,
    truncated: bool,
    state: Option<String>,
    verb: &str,
    area: Area,
) -> (text: String)
    requires
        opt_view(state) == state_line(worker@, verb@, sat_sub(area.width, 2) as int),
    ensures
        text@ == output_body(
            worker@,
            if truncated {
                CaptureStatus::Truncated
            } else {
                CaptureStatus::Ready
            },
            verb@,
            area,
        ),
{
    let inner_width: u16 = area.width.saturating_sub(2);
    let ghost status = if truncated {
        CaptureStatus::Truncated
    } else {
        CaptureStatus::Ready
    };
    let mut notes: Vec<String> = Vec::new();
    if truncated {
        notes.push("TRUNCATED · older output dropped by Herdr".to_owned());
    }
    if worker.sampled {
        let mut samples: Vec<String> = Vec::new();
        samples.push("PREVIEW · recent output · v for more".to_owned());
        samples.push("PREVIEW · v for more".to_owned());
        samples.push("PREVIEW".to_owned());
        assert(views(samples@) =~= seq![
            "PREVIEW · recent output · v for more"@,
            "PREVIEW · v for more"@,
            "PREVIEW"@,
        ]);
        notes.push(widest_that_fits(inner_width, &samples));
    }
    if let Some(text) = state {
        notes.push(text);
    }
    let ghost all = output_notes(worker@, status, verb@, inner_width as int);
    assert(views(notes@) =~= all);
    let room: usize = area.height.saturating_sub(3) as usize;
    if notes.len() > room {
        notes.truncate(room);
    }
    let ghost shown = if all.len() <= room {
        all
    } else {
        all.take(room as int)
    };
    assert(views(notes@) =~= shown);
    let reserved: u16 = notes.len() as u16 + 2;
    let prefix = join(&notes, "\n");
    let capture = match &worker.capture {
        Some(text) => sanitize_capture(text.as_str()),
        None => String::new(),
    };
    if !capture.as_str().is_empty() {
        let rows = capture_viewport(
            capture.as_str(),
            inner_width,
            area.height.saturating_sub(reserved),
        );
        if prefix.as_str().is_empty() {
            rows
        } else {
            prefix.concat("\n").concat(rows.as_str())
        }
    } else if prefix.as_str().is_empty() {
        "No captured output".to_owned()
    } else {
        prefix
    }
}

/// The tile of one worker, or nothing if it has no cells.
pub fn render_worker(area: Area, view: &TileView) -> (drawing: Option<Drawing>)
    ensures
        drawing is Some <==> !area.empty(),
        drawing is Some ==> drawing->0@ == (DrawingView::Tile {
            area,
            title: tile_title(
                view.worker@,
                view.display_title@,
                view.selected,
                view.prompt_target,
            ),
            selected: view.selected,
            body: tile_body(view.worker@, view.capture_status, view.refresh_verb@, area),
        }),
{
    if area.width == 0 || area.height == 0 {
        return None;
    }
    let worker = view.worker;
    let marker = if view.selected {
        "▶ "
    } else if view.prompt_target {
        "✓ "
    } else {
        "  "
    };
    let latency = match worker.latency_ms {
        Some(latency) => " · ".to_owned().concat(decimal(latency).as_str()).concat("ms"),
        None => "".to_owned(),
    };
    let sampled = if worker.sampled {
        " · PREVIEW"
    } else {
        ""
    };
    let eligibility = if worker.can_prompt() {
        " · PROMPT"
    } else if worker.can_open() {
        " · OPEN"
    } else {
        ""
    };
    let title = marker.to_owned().concat(view.display_title.as_str()).concat(" · ").concat(
        worker.status_label(),
    ).concat(latency.as_str()).concat(sampled).concat(eligibility);

    let verb = view.refresh_verb;
    let lines = explanations(worker, verb);
    let inner_width: u16 = area.width.saturating_sub(2);
    assert(worker@.agent_state.out_of_reach() <==> lines@.len() > 0) by {
        assert(views(lines@).len() == lines@.len());
    }
    let state = if lines.len() > 0 {
        Some(widest_that_fits(inner_width, &lines))
    } else {
        None
    };
    let body = if !worker.capabilities.observe_output {
        prefix_with(state, "Output not authorized")
    } else {
        match view.capture_status {
            CaptureStatus::Loading => {
                if worker.uses_live_agent() && state.is_none() {
                    "Herdr agent attached · press v to read output".to_owned()
                } else {
                    prefix_with(state, "Loading output")
                }
            },
            CaptureStatus::Unavailable => prefix_with(state, "Output unavailable"),
            CaptureStatus::Stale => {
                let explanation = match state {
                    Some(text) => text,
                    None => "STALE".to_owned(),
                };
                let capture = match &worker.capture {
                    Some(text) => sanitize_capture(text.as_str()),
                    None => String::new(),
                };
                explanation.concat(sampled).concat("\n").concat(capture.as_str())
            },
            CaptureStatus::Ready => render_output(worker, false, state, verb, area),
            CaptureStatus::Truncated => render_output(worker, true, state, verb, area),
        }
    };
    Some(Drawing::Tile { area, title, selected: view.selected, body })
}

/// A surface that shows agents, and not only output.
pub open spec fn mission_control(state: ObserverView) -> bool {
    exists|i: int|
        0 <= i < state.workers.len() && ((#[trigger] state.workers[i]).live_agent
            || state.workers[i].capabilities.prompt_agent)
}

/// A surface on which some worker may be sent prompts.
pub open spec fn prompt_available(state: ObserverView) -> bool {
    exists|i: int|
        0 <= i < state.workers.len() && (#[trigger] state.workers[i]).capabilities.prompt_agent
}

/// The name of the surface.
pub open spec fn surface_name(state: ObserverView) -> Seq<char> {
    if mission_control(state) {
        "Mission Control"@
    } else {
        "Observer"@
    }
}

/// The number of rows of the controls.
pub open spec fn controls_rows(width: u16, workers: nat) -> u16 {
    if workers == 0 || width >= 64 {
        1
    } else if width >= 30 {
        2
    } else {
        3
    }
}

/// The number of rows below the canvas.
pub open spec fn bottom_rows(area: Area, state: ObserverView) -> int {
    controls_rows(area.width, state.workers.len()) + if state.notice is Some {
        1int
    } else {
        0int
    }
}

/// The cells between the header and what stands below.
pub open spec fn canvas_of(area: Area, state: ObserverView) -> Area {
    Area {
        y: sat_add(area.y, 1),
        height: sat_sub(area.height, 1 + bottom_rows(area, state)),
        ..area
    }
}

/// A surface too small for actionable content.
pub open spec fn too_small(area: Area, state: ObserverView) -> bool {
    ||| area.height < 2 + bottom_rows(area, state)
    ||| state.visible().len() > 0 && !grid_fits(
        canvas_of(area, state),
        state.visible().len() as int,
    )
}

/// The header line.
pub open spec fn header_text(state: ObserverView) -> Seq<char> {
    if state.workers.len() == 0 {
        surface_name(state) + "  0 workers"@
    } else {
        surface_name(state) + "  "@ + numeral(state.workers.len()) + (if state.workers.len() == 1 {
            " worker"@
        } else {
            " workers"@
        }) + "  page "@ + numeral((state.page_number() + 1) as nat) + "/"@ + numeral(
            state.pages() as nat,
        )
    }
}

/// The number of workers on later pages.
pub open spec fn hidden_count(state: ObserverView) -> nat {
    let shown = (state.page_number() + 1) * WORKERS_PER_PAGE;
    if state.workers.len() <= shown {
        0
    } else {
        (state.workers.len() - shown) as nat
    }
}

/// The controls that the surface offers.
pub open spec fn controls_text(area: Area, state: ObserverView) -> Seq<char> {
    let rows = controls_rows(area.width, state.workers.len());
    let hidden = hidden_count(state);
    let before = if hidden == 0 {
        ""@
    } else {
        "+"@ + numeral(hidden) + " more  "@
    };
    let behind = if hidden == 0 {
        ""@
    } else {
        "  +"@ + numeral(hidden) + " more"@
    };
    if state.workers.len() == 0 {
        "r refresh  q back"@
    } else if !mission_control(state) {
        if rows == 1 {
            before + "↑↓ select  Tab/[ ] page  r refresh  Enter open  q back"@
        } else if rows == 2 {
            "↑↓ select  [] page  r refresh\nEnter open  q back"@ + behind
        } else {
            "↑↓ select  [] page\nr refresh  Enter open\nq back"@ + behind
        }
    } else if !prompt_available(state) {
        if rows == 1 {
            widest(
                seq![
                    before
                        + "↑↓ select  Enter open  f focus  v read  w wait  e explain  r retry  q back"@,
                    before + "↑↓ select  Enter open  f focus  v read  w wait  r retry  q back"@,
                ],
                area.width as int,
            )
        } else if rows == 2 {
            "↑↓ select  Enter open  f focus\nv read  w wait  e explain  r retry  q back"@ + behind
        } else {
            "↑↓ select  Enter open\nf focus  v read  w wait  e explain\nr retry  q back"@ + behind
        }
    } else {
        if rows == 1 {
            widest(
                seq![
                    before
                        + "↑↓ select  Space target  p prompt  Enter open  f focus  v read  w wait  e explain  r retry  q back"@,
                    before
                        + "↑↓ select  Space target  p prompt  Enter open  f focus  e explain  r retry  q back"@,
                    before
                        + "↑↓ select  Space target  p prompt  Enter open  f focus  r retry  q back"@,
                ],
                area.width as int,
            )
        } else if rows == 2 {
            "↑↓ select  Space target  p prompt  Enter open\nf focus  v read  w wait  e explain  r retry  q back"@
                + behind
        } else {
            "↑↓ select  Space target\np prompt  Enter open  f focus\nv read  w wait  e explain  r retry  q back"@
                + behind
        }
    }
}

/// A text on one line: each line feed is shown as a space.
pub open spec fn on_one_line(text: Seq<char>) -> Seq<char> {
    text.map_values(
        |c: char|
            if c == '\n' {
                ' '
            } else {
                c
            },
    )
}

/// The word for the `r` key.
pub open spec fn refresh_verb(state: ObserverView) -> Seq<char> {
    if mission_control(state) {
        "retry"@
    } else {
        "refresh"@
    }
}

/// The tile of a visible worker.
pub open spec fn worker_tile(area: Area, state: ObserverView, worker: WorkerView) -> DrawingView {
    let selected = state.selected == Some(worker.id);
    DrawingView::Tile {
        area,
        title: tile_title(
            worker,
            state.title_of(worker),
            selected,
            state.targets.contains(worker.id),
        ),
        selected,
        body: tile_body(worker, state.status_of(worker.id), refresh_verb(state), area),
    }
}

/// What stands on the canvas: a tile for each visible worker, or a hint.
pub open spec fn canvas_drawings(canvas: Area, state: ObserverView) -> Seq<DrawingView> {
    if state.visible().len() == 0 {
        seq![DrawingView::Text { area: canvas, text: "No workers registered\nPress r to refresh"@ }]
    } else {
        let places = tiles(canvas, state.visible().len() as int);
        Seq::new(
            state.visible().len(),
            |i: int| worker_tile(places[i], state, state.visible()[i]),
        )
    }
}

/// Everything that the observer draws on `area`.
pub open spec fn surface(area: Area, state: ObserverView) -> Seq<DrawingView> {
    let canvas = canvas_of(area, state);
    let below = sat_add(canvas.y, canvas.height);
    if area.empty() {
        Seq::empty()
    } else if too_small(area, state) {
        seq![
            DrawingView::Background { area },
            DrawingView::Text { area, text: surface_name(state) + "\nResize pane"@ },
        ]
    } else {
        seq![
            DrawingView::Background { area },
            DrawingView::Text { area: Area { height: 1, ..area }, text: header_text(state) },
        ] + canvas_drawings(canvas, state) + (match state.notice {
            Some(notice) => seq![
                DrawingView::Text {
                    area: Area { y: below, height: 1, ..area },
                    text: "! "@ + on_one_line(shown_capture(notice)),
                },
            ],
            None => Seq::empty(),
        }) + seq![
            DrawingView::Text {
                area: Area {
                    y: if state.notice is Some {
                        sat_add(below, 1)
                    } else {
                        below
                    },
                    height: controls_rows(area.width, state.workers.len()),
                    ..area
                },
                text: controls_text(area, state),
            },
        ]
    }
}

/// `text` with each line feed shown as a space.
fn flatten_lines(text: &str) -> (flat: String)
    ensures
        flat@ == on_one_line(text@),
{
    let chars = chars_of(text);
    let mut flat: Vec<char> = Vec::new();
    let mut i: usize = 0;
    while i < chars.len()
        invariant
            i <= chars@.len(),
            chars@ == text@,
            flat@ == on_one_line(text@.take(i as int)),
        decreases chars.len() - i,
    {
        flat.push(
            if chars[i] == '\n' {
                ' '
            } else {
                chars[i]
            },
        );
        i += 1;
        assert(flat@ =~= on_one_line(text@.take(i as int)));
    }
    assert(text@.take(text@.len() as int) =~= text@);
    text_of(&flat)
}

/// Whether the surface shows agents, and whether some may be sent prompts.
fn surface_kind(observer: &ObserverState) -> (kind: (bool, bool))
    ensures
        kind.0 == mission_control(observer@),
        kind.1 == prompt_available(observer@),
{
    let workers = observer.workers();
    let ghost all = observer@.workers;
    let mut mission = false;
    let mut prompt = false;
    let mut i: usize = 0;
    while i < workers.len()
        invariant
            i <= workers@.len(),
            all == worker_views(workers@),
            mission == exists|j: int|
                0 <= j < i && ((#[trigger] all[j]).live_agent || all[j].capabilities.prompt_agent),
            prompt == exists|j: int| 0 <= j < i && (#[trigger] all[j]).capabilities.prompt_agent,
        decreases workers.len() - i,
    {
        assert(all[i as int] == workers@[i as int]@);
        mission = mission || workers[i].live_agent || workers[i].capabilities.prompt_agent;
        prompt = prompt || workers[i].capabilities.prompt_agent;
        i += 1;
    }
    (mission, prompt)
}

/// The controls that the surface offers.
fn controls(area: Area, observer: &ObserverState, mission: bool, prompt: bool, rows: u16) -> (text:
    String)
    requires
        observer.well_formed(),
        mission == mission_control(observer@),
        prompt == prompt_available(observer@),
        rows == controls_rows(area.width, observer@.workers.len()),
    ensures
        text@ == controls_text(area, observer@),
{
    let count: usize = observer.workers().len();
    if count == 0 {
        assert(observer@.workers.len() == 0);
        return "r refresh  q back".to_owned();
    }
    let shown: usize = (observer.page() + 1) * WORKERS_PER_PAGE;
    let hidden: usize = count.saturating_sub(shown);
    let before = if hidden == 0 {
        "".to_owned()
    } else {
        "+".to_owned().concat(decimal(hidden as u64).as_str()).concat(" more  ")
    };
    let behind = if hidden == 0 {
        "".to_owned()
    } else {
        "  +".to_owned().concat(decimal(hidden as u64).as_str()).concat(" more")
    };
    let before = before.as_str();
    let behind = behind.as_str();
    if !mission {
        if rows == 1 {
            line(before, "↑↓ select  Tab/[ ] page  r refresh  Enter open  q back")
        } else if rows == 2 {
            line("↑↓ select  [] page  r refresh\nEnter open  q back", behind)
        } else {
            line("↑↓ select  [] page\nr refresh  Enter open\nq back", behind)
        }
    } else if !prompt {
        if rows == 1 {
            let mut lines: Vec<String> = Vec::new();
            lines.push(
                line(
                    before,
                    "↑↓ select  Enter open  f focus  v read  w wait  e explain  r retry  q back",
                ),
            );
            lines.push(
                line(before, "↑↓ select  Enter open  f focus  v read  w wait  r retry  q back"),
            );
            assert(views(lines@) =~= seq![lines@[0]@, lines@[1]@]);
            widest_that_fits(area.width, &lines)
        } else if rows == 2 {
            line(
                "↑↓ select  Enter open  f focus\nv read  w wait  e explain  r retry  q back",
                behind,
            )
        } else {
            line(
                "↑↓ select  Enter open\nf focus  v read  w wait  e explain\nr retry  q back",
                behind,
            )
        }
    } else {
        if rows == 1 {
            let mut lines: Vec<String> = Vec::new();
            lines.push(
                line(
                    before,
                    "↑↓ select  Space target  p prompt  Enter open  f focus  v read  w wait  e explain  r retry  q back",
                ),
            );
            lines.push(
                line(
                    before,
                    "↑↓ select  Space target  p prompt  Enter open  f focus  e explain  r retry  q back",
                ),
            );
            lines.push(
                line(
                    before,
                    "↑↓ select  Space target  p prompt  Enter open  f focus  r retry  q back",
                ),
            );
            assert(views(lines@) =~= seq![lines@[0]@, lines@[1]@, lines@[2]@]);
            widest_that_fits(area.width, &lines)
        } else if rows == 2 {
            line(
                "↑↓ select  Space target  p prompt  Enter open\nf focus  v read  w wait  e explain  r retry  q back",
                behind,
            )
        } else {
            line(
                "↑↓ select  Space target\np prompt  Enter open  f focus\nv read  w wait  e explain  r retry  q back",
                behind,
            )
        }
    }
}

/// The header line.
fn header(observer: &ObserverState, name: &str) -> (text: String)
    requires
        observer.well_formed(),
        name@ == surface_name(observer@),
    ensures
        text@ == header_text(observer@),
{
    let count: usize = observer.workers().len();
    assert(count == observer@.workers.len());
    if count == 0 {
        return line(name, "  0 workers");
    }
    let noun = if count == 1 {
        " worker"
    } else {
        " workers"
    };
    let page: usize = observer.page() + 1;
    let pages: usize = observer.page_count();
    name.to_owned().concat("  ").concat(decimal(count as u64).as_str()).concat(noun).concat(
        "  page ",
    ).concat(decimal(page as u64).as_str()).concat("/").concat(decimal(pages as u64).as_str())
}

/// The tiles of the visible workers on a canvas where they have room.
fn render_tiles(canvas: Area, observer: &ObserverState, mission: bool) -> (drawings: Vec<Drawing>)
    requires
        observer.well_formed(),
        mission == mission_control(observer@),
        observer@.visible().len() > 0,
        grid_fits(canvas, observer@.visible().len() as int),
    ensures
        drawing_views(drawings@) == canvas_drawings(canvas, observer@),
{
    let workers = observer.visible_workers();
    let ghost shown = observer@.visible();
    assert(shown.len() == workers@.len());
    let rects = worker_rects(canvas, workers.len());
    proof {
        fitting_tiles_have_room(canvas, shown.len() as int);
    }
    let verb = if mission {
        "retry"
    } else {
        "refresh"
    };
    let mut drawings: Vec<Drawing> = Vec::new();
    let mut i: usize = 0;
    assert(drawing_views(drawings@) =~= canvas_drawings(canvas, observer@).take(0));
    while i < workers.len()
        invariant
            i <= workers@.len() <= 4,
            observer.well_formed(),
            shown == observer@.visible(),
            shown == worker_views(workers@),
            workers@.len() > 0,
            rects@ == tiles(canvas, workers@.len() as int),
            verb@ == refresh_verb(observer@),
            forall|j: int|
                0 <= j < rects@.len() ==> (#[trigger] rects@[j]).width >= MIN_TILE_WIDTH
                    && rects@[j].height >= MIN_TILE_HEIGHT,
            drawing_views(drawings@) == canvas_drawings(canvas, observer@).take(i as int),
        decreases workers.len() - i,
    {
        let worker = &workers[i];
        assert(shown[i as int] == worker@);
        let selected = match observer.selected_id() {
            Some(id) => same_text(id, worker.id.as_str()),
            None => false,
        };
        let view = TileView {
            worker,
            capture_status: observer.capture_status(worker.id.as_str()),
            display_title: observer.worker_display_title(worker),
            selected,
            prompt_target: observer.is_prompt_target(worker.id.as_str()),
            refresh_verb: verb,
        };
        if let Some(drawing) = render_worker(rects[i], &view) {
            let ghost before = drawings@;
            let ghost added = drawing@;
            drawings.push(drawing);
            assert(drawing_views(drawings@) =~= drawing_views(before).push(added));
        }
        i += 1;
        assert(canvas_drawings(canvas, observer@).take(i as int) =~= canvas_drawings(
            canvas,
            observer@,
        ).take(i - 1).push(canvas_drawings(canvas, observer@)[i - 1]));
    }
    assert(canvas_drawings(canvas, observer@).take(i as int) =~= canvas_drawings(canvas, observer@));
    drawings
}

/// Everything that the observer draws on `area`, in order.
pub fn observer_drawings(area: Area, observer: &ObserverState) -> (drawings: Vec<Drawing>)
    requires
        observer.well_formed(),
    ensures
        drawing_views(drawings@) == surface(area, observer@),
{
    let mut drawings: Vec<Drawing> = Vec::new();
    if area.width == 0 || area.height == 0 {
        assert(drawing_views(drawings@) =~= Seq::empty());
        return drawings;
    }
    drawings.push(Drawing::Background { area });
    let (mission, prompt) = surface_kind(observer);
    let name = if mission {
        "Mission Control"
    } else {
        "Observer"
    };
    let count: usize = observer.workers().len();
    assert(count == observer@.workers.len());
    let rows: u16 = if count == 0 || area.width >= 64 {
        1
    } else if area.width >= 30 {
        2
    } else {
        3
    };
    let notice = observer.notice();
    let bottom: u16 = if notice.is_some() {
        rows + 1
    } else {
        rows
    };
    let canvas = Area {
        y: area.y.saturating_add(1),
        height: area.height.saturating_sub(1 + bottom),
        ..area
    };
    assert(canvas == canvas_of(area, observer@));
    let visible: usize = observer.visible_workers().len();
    assert(visible == observer@.visible().len());
    if area.height < 2 + bottom || (visible > 0 && !can_render_worker_grid(canvas, visible)) {
        drawings.push(Drawing::Text { area, text: line(name, "\nResize pane") });
        assert(drawing_views(drawings@) =~= surface(area, observer@));
        return drawings;
    }
    drawings.push(
        Drawing::Text { area: Area { height: 1, ..area }, text: header(observer, name) },
    );
    let ghost top = drawing_views(drawings@);
    if visible == 0 {
        drawings.push(
            Drawing::Text {
                area: canvas,
                text: "No workers registered\nPress r to refresh".to_owned(),
            },
        );
        assert(drawing_views(drawings@) =~= top + canvas_drawings(canvas, observer@));
    } else {
        let mut worker_tiles = render_tiles(canvas, observer, mission);
        let ghost before = drawings@;
        let ghost added = worker_tiles@;
        drawings.append(&mut worker_tiles);
        assert(drawing_views(drawings@) =~= drawing_views(before) + drawing_views(added));
    }
    let mut below: u16 = canvas.y.saturating_add(canvas.height);
    if let Some(notice) = notice {
        let shown = sanitize_capture(notice);
        drawings.push(
            Drawing::Text {
                area: Area { y: below, height: 1, ..area },
                text: line("! ", flatten_lines(shown.as_str()).as_str()),
            },
        );
        below = below.saturating_add(1);
    }
    drawings.push(
        Drawing::Text {
            area: Area { y: below, height: rows, ..area },
            text: controls(area, observer, mission, prompt, rows),
        },
    );
    assert(drawing_views(drawings@) =~= surface(area, observer@));
    drawings
}

/// The cells after one drawing was painted.
pub open spec fn painted_one(
    before: Map<(u16, u16), CellView>,
    drawing: DrawingView,
) -> Map<(u16, u16), CellView> {
    match drawing {
        DrawingView::Background { area } => filled(before, area),
        DrawingView::Text { area, text } => with_text(before, area, text),
        DrawingView::Tile { area, title, selected, body } => with_tile(
            before,
            area,
            title,
            selected,
            body,
        ),
    }
}

/// The cells after drawings were painted, one over the other.
pub open spec fn painted(
    before: Map<(u16, u16), CellView>,
    drawings: Seq<DrawingView>,
) -> Map<(u16, u16), CellView>
    decreases drawings.len(),
{
    if drawings.len() == 0 {
        before
    } else {
        painted_one(painted(before, drawings.drop_last()), drawings.last())
    }
}

/// The rectangle of a drawing.
pub open spec fn drawing_area(drawing: DrawingView) -> Area {
    match drawing {
        DrawingView::Background { area } => area,
        DrawingView::Text { area, .. } => area,
        DrawingView::Tile { area, .. } => area,
    }
}

/// No drawing is wider than the surface.
pub proof fn drawings_are_no_wider_than_the_surface(area: Area, observer: ObserverView)
    ensures
        forall|i: int|
            0 <= i < surface(area, observer).len() ==> drawing_area(
                #[trigger] surface(area, observer)[i],
            ).width <= area.width,
{
    if !area.empty() && !too_small(area, observer) {
        let canvas = canvas_of(area, observer);
        let shown = canvas_drawings(canvas, observer);
        if observer.selected is Some {
            find_worker_finds(observer.workers, observer.selected->0);
        }
        assert(observer.visible().len() <= WORKERS_PER_PAGE);
        assert forall|i: int| 0 <= i < shown.len() implies drawing_area(
            #[trigger] shown[i],
        ).width <= area.width by {
            if observer.visible().len() > 0 {
                let places = tiles(canvas, observer.visible().len() as int);
                assert(drawing_area(shown[i]) == places[i]);
                assert(places[i].width <= canvas.width);
            }
        }
    }
}

/// Paints the observer on `area`.
pub fn render(buffer: &mut Buffer, area: Area, observer: &ObserverState)
    requires
        observer.well_formed(),
        area.width <= MAX_PAINT_WIDTH,
    ensures
        cells(*final(buffer)) == painted(cells(*old(buffer)), surface(area, observer@)),
        cells(*final(buffer)).dom() == cells(*old(buffer)).dom(),
        all_uncolored(cells(*old(buffer))) ==> all_uncolored(cells(*final(buffer))),
{
    let drawings = observer_drawings(area, observer);
    let ghost all = drawing_views(drawings@);
    let ghost before = cells(*buffer);
    proof {
        drawings_are_no_wider_than_the_surface(area, observer@);
    }
    let mut i: usize = 0;
    assert(painted(before, all.take(0)) == before);
    while i < drawings.len()
        invariant
            i <= drawings@.len(),
            all == drawing_views(drawings@),
            area.width <= MAX_PAINT_WIDTH,
            forall|k: int| 0 <= k < all.len() ==> drawing_area(#[trigger] all[k]).width <= area.width,
            cells(*buffer) == painted(before, all.take(i as int)),
            cells(*buffer).dom() == before.dom(),
            all_uncolored(before) ==> all_uncolored(cells(*buffer)),
        decreases drawings.len() - i,
    {
        assert(all.take(i + 1).drop_last() =~= all.take(i as int));
        assert(all.take(i + 1).last() == drawings@[i as int]@);
        assert(all[i as int] == drawings@[i as int]@);
        match &drawings[i] {
            Drawing::Background { area } => {
                fill(buffer, *area);
                assert(cells(*buffer).dom() =~= before.dom());
            },
            Drawing::Text { area, text } => paint_text(buffer, *area, text.as_str()),
            Drawing::Tile { area, title, selected, body } => paint_tile(
                buffer,
                *area,
                title.as_str(),
                *selected,
                body.as_str(),
            ),
        }
        i += 1;
    }
    assert(all.take(i as int) =~= all);
}

/// What the observer shows on a terminal of `width` columns and `height` rows.
pub open spec fn shown_observer(width: u16, height: u16, observer: ObserverView) -> Map<
    (u16, u16),
    CellView,
> {
    painted(
        blank_cells(width, height),
        surface(Area { x: 0, y: 0, width, height }, observer),
    )
}

/// The text that the observer shows, line by line.
pub fn render_to_text(width: u16, height: u16, observer: &ObserverState) -> (text: String)
    requires
        observer.well_formed(),
        width <= MAX_PAINT_WIDTH,
    ensures
        text@ == if width == 0 || height == 0 {
            Seq::empty()
        } else {
            grid_text(shown_observer(width, height, observer@), width, height as int)
        },
{
    if width == 0 || height == 0 {
        return String::new();
    }
    let mut buffer = blank(width, height);
    render(&mut buffer, Area { x: 0, y: 0, width, height }, observer);
    text_of_grid(&buffer, width, height)
}

/// How the cells of the observer are shown, row after row.
pub fn render_to_styles(width: u16, height: u16, observer: &ObserverState) -> (styles: Vec<
    CellStyle,
>)
    requires
        observer.well_formed(),
        width <= MAX_PAINT_WIDTH,
    ensures
        style_views(styles@) == if width == 0 || height == 0 {
            Seq::empty()
        } else {
            grid_styles(shown_observer(width, height, observer@), width, height)
        },
        forall|i: int| 0 <= i < styles@.len() ==> uncolored(#[trigger] styles@[i]@),
{
    if width == 0 || height == 0 {
        let none: Vec<CellStyle> = Vec::new();
        assert(style_views(none@) =~= Seq::empty());
        return none;
    }
    let mut buffer = blank(width, height);
    render(&mut buffer, Area { x: 0, y: 0, width, height }, observer);
    styles_of_grid(&buffer, width, height)
}

} // verus!
