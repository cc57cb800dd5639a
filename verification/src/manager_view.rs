//! What the Observer manager draws: its panel, its rows and what stands around
//! them, each with the cells it takes.

use ratatui::buffer::Buffer;
use vstd::prelude::*;
use vstd::string::*;

use crate::capture::{cell_width, display_width, lines_of, split_lines};
use crate::manager_names::{
    bounded_label, cut_label, first_row, viewport_metadata, viewport_text,
};
use crate::observer_manager::{ManagerView, ObserverManagerState};
use crate::observer_view::{sat_add, sat_sub, Area};
use crate::paint::{
    all_uncolored, blank, blank_cells, cells, clear, cleared, fill, filled, grid_styles, grid_text,
    paint_frame, paint_rows, paint_text, paint_wrapped, row_views, style_views, styles_of_grid,
    text_of_grid, uncolored, with_frame, with_rows, with_text, with_wrapped, CellStyle, CellView,
    ListRow, MAX_PAINT_WIDTH,
};
use crate::text::{chars_of, text_between, views};

verus! {

pub const MAX_PANEL_WIDTH: u16 = 72;

pub const MAX_VISIBLE_ROWS: usize = 12;

pub const MIN_MANAGER_WIDTH: u16 = 40;

pub const MIN_MANAGER_HEIGHT: u16 = 8;

pub const MANAGER_RESIZE_MESSAGE: &'static str = "Resize terminal to at least 40x8";

/// How many rows a part of a surface wants.
#[derive(Clone, Copy, Debug, PartialEq, Eq, Structural)]
pub enum RowConstraint {
    Length(u16),
    Min(u16),
}

impl RowConstraint {
    /// The rows that the part wants at least.
    pub open spec fn wanted(self) -> int {
        match self {
            RowConstraint::Length(rows) => rows as int,
            RowConstraint::Min(rows) => rows as int,
        }
    }
}

/// The rows that some parts want at least.
pub open spec fn total_wanted(constraints: Seq<RowConstraint>) -> int
    decreases constraints.len(),
{
    if constraints.len() == 0 {
        0
    } else {
        total_wanted(constraints.drop_last()) + constraints.last().wanted()
    }
}

/// One part alone may grow, by a bound of at most `i16::MAX` rows.
pub open spec fn one_grows(constraints: Seq<RowConstraint>) -> bool {
    exists|m: int|
        0 <= m < constraints.len() && #[trigger] constraints[m] is Min && constraints[m].wanted()
            <= i16::MAX && forall|k: int|
            0 <= k < constraints.len() && k != m ==> #[trigger] constraints[k] is Length
}

/// Every part gets the rows that it wants, and what is left goes to one of them.
pub open spec fn rows_fit(area: Area, constraints: Seq<RowConstraint>) -> bool {
    area.in_range() && one_grows(constraints) && total_wanted(constraints) <= area.height
}

/// The rows of the part at `index`, where all of them fit: those that it wants,
/// and for the part that may grow also those that are left.
pub open spec fn fitted_rows(area: Area, constraints: Seq<RowConstraint>, index: int) -> int {
    constraints[index].wanted() + if constraints[index] is Min {
        area.height - total_wanted(constraints)
    } else {
        0
    }
}

/// The rows of the first `count` parts, where all of them fit.
pub open spec fn rows_above(area: Area, constraints: Seq<RowConstraint>, count: int) -> int
    decreases count,
{
    if count <= 0 {
        0
    } else {
        rows_above(area, constraints, count - 1) + fitted_rows(area, constraints, count - 1)
    }
}

/// The part lies in the rectangle and is as wide as it, as far as the
/// terminal's coordinates reach.
pub open spec fn part_of(part: Area, area: Area) -> bool {
    &&& part.x == area.x
    &&& part.width == sat_add(area.x, area.width) - area.x
    &&& area.y <= part.y
    &&& part.y + part.height <= sat_add(area.y, area.height)
}

/// The rectangle is divided from top to bottom: one part for each constraint,
/// each in the rectangle, and where the rows fit each below those before it
/// with the rows that it is to have.
pub open spec fn divided(area: Area, constraints: Seq<RowConstraint>, parts: Seq<Area>) -> bool {
    &&& parts.len() == constraints.len()
    &&& forall|i: int| 0 <= i < parts.len() ==> part_of(#[trigger] parts[i], area)
    &&& rows_fit(area, constraints) ==> forall|i: int|
        0 <= i < parts.len() ==> (#[trigger] parts[i]).y == area.y + rows_above(
            area,
            constraints,
            i,
        ) && parts[i].height == fitted_rows(area, constraints, i)
}

/// `Layout::split` divides a rectangle from top to bottom into one part for
/// each constraint. Every part lies in the rectangle. Where the rows fit, a
/// length is met exactly and the part with a minimum takes what is left. Where
/// they do not, the solver behind it gives up some of the constraints, and which
/// ones may differ from one call to the next: nothing more is stated then.
#[verifier::external_body]
pub(crate) fn split_rows(area: Area, constraints: &Vec<RowConstraint>) -> (parts: Vec<Area>)
    ensures
        divided(area, constraints@, parts@),
{
    let wanted = constraints.iter().map(|constraint| match constraint {
        RowConstraint::Length(rows) => ratatui::layout::Constraint::Length(*rows),
        RowConstraint::Min(rows) => ratatui::layout::Constraint::Min(*rows),
    });
    let whole = ratatui::layout::Rect::new(area.x, area.y, area.width, area.height);
    let parts = ratatui::layout::Layout::vertical(wanted).split(whole);
    parts.iter().map(|part| Area { x: part.x, y: part.y, width: part.width, height: part.height }).collect()
}

/// A line without a carriage return at its end.
pub open spec fn without_return(line: Seq<char>) -> Seq<char> {
    if line.len() > 0 && line.last() == '\r' {
        line.drop_last()
    } else {
        line
    }
}

/// The lines of a text. A line feed at the end begins no line, and a carriage
/// return before a line feed belongs to it.
pub open spec fn text_lines(text: Seq<char>) -> Seq<Seq<char>> {
    let parts = lines_of(text);
    Seq::new((parts.len() - 1) as nat, |i: int| without_return(parts[i])) + if parts.last().len()
        == 0 {
        Seq::empty()
    } else {
        seq![parts.last()]
    }
}

/// The rows that a line takes: at least one.
pub open spec fn rows_of_line(line: Seq<char>, width: int) -> int {
    let cells = if cell_width(line) == 0 {
        1
    } else {
        cell_width(line) as int
    };
    (cells + width - 1) / width
}

/// The rows that some lines take.
pub open spec fn rows_of_lines(lines: Seq<Seq<char>>, width: int) -> int
    decreases lines.len(),
{
    if lines.len() == 0 {
        0
    } else {
        rows_of_lines(lines.drop_last(), width) + rows_of_line(lines.last(), width)
    }
}

/// The rows that a text takes: at least one, and no more than there can be.
pub open spec fn rows_of_text(text: Seq<char>, width: u16) -> u16 {
    let cells: int = if width == 0 {
        1
    } else {
        width as int
    };
    let rows = rows_of_lines(text_lines(text), cells);
    if rows < 1 {
        1
    } else if rows > u16::MAX {
        u16::MAX
    } else {
        rows as u16
    }
}

/// The lines of a text.
fn split_text_lines(text: &str) -> (lines: Vec<String>)
    ensures
        views(lines@) == text_lines(text@),
{
    let parts = split_lines(text);
    let ghost all = lines_of(text@);
    let ghost wanted = text_lines(text@);
    let last = parts.len() - 1;
    let mut lines: Vec<String> = Vec::new();
    let mut i: usize = 0;
    assert(views(lines@) =~= wanted.take(0));
    while i < last
        invariant
            i <= last,
            last == parts@.len() - 1,
            all == views(parts@),
            all == lines_of(text@),
            wanted == text_lines(text@),
            views(lines@) == wanted.take(i as int),
        decreases last - i,
    {
        let chars = chars_of(parts[i].as_str());
        assert(all[i as int] == parts@[i as int]@);
        let end: usize = if chars.len() > 0 && chars[chars.len() - 1] == '\r' {
            chars.len() - 1
        } else {
            chars.len()
        };
        let line = text_between(&chars, 0, end);
        assert(line@ =~= without_return(all[i as int]));
        let ghost before = lines@;
        let ghost shown = line@;
        assert(shown == wanted[i as int]);
        lines.push(line);
        assert(views(lines@) =~= views(before).push(shown));
        i += 1;
        assert(wanted.take(i as int) =~= wanted.take(i - 1).push(wanted[i - 1]));
    }
    assert(all.last() == parts@[last as int]@);
    if parts[last].as_str().is_empty() {
        assert(wanted.take(i as int) =~= wanted);
    } else {
        let line = parts[last].clone();
        let ghost before = lines@;
        let ghost shown = line@;
        lines.push(line);
        assert(views(lines@) =~= views(before).push(shown));
        assert(wanted =~= wanted.take(i as int).push(shown));
    }
    lines
}

/// A quotient rounded up.
fn ceil_div(cells: usize, width: usize) -> (rows: usize)
    requires
        width > 0,
        cells > 0,
    ensures
        rows == (cells + width - 1) / (width as int),
{
    let whole: usize = (cells - 1) / width;
    proof {
        let c = cells as int;
        let w = width as int;
        assert((c + w - 1) / w == (c - 1) / w + 1) by {
            vstd::arithmetic::div_mod::lemma_div_plus_one(c - 1, w);
            assert(c - 1 + w == c + w - 1);
            assert((w + (c - 1)) / w == (c - 1) / w + 1);
        }
        assert((c - 1) / w <= c - 1) by {
            vstd::arithmetic::div_mod::lemma_div_is_ordered_by_denominator(c - 1, 1, w);
        }
    }
    whole + 1
}

/// The rows that a text takes when it is `width` cells wide.
pub fn wrapped_line_count(text: &str, width: u16) -> (rows: u16)
    ensures
        rows == rows_of_text(text@, width),
{
    let cells: usize = if width == 0 {
        1
    } else {
        width as usize
    };
    let lines = split_text_lines(text);
    let ghost all = views(lines@);
    let mut total: usize = 0;
    let mut i: usize = 0;
    while i < lines.len()
        invariant
            i <= lines@.len(),
            cells > 0,
            all == views(lines@),
            total <= u16::MAX,
            rows_of_lines(all.take(i as int), cells as int) >= 0,
            total == if rows_of_lines(all.take(i as int), cells as int) > u16::MAX {
                u16::MAX as int
            } else {
                rows_of_lines(all.take(i as int), cells as int)
            },
        decreases lines.len() - i,
    {
        assert(all.take(i + 1).drop_last() =~= all.take(i as int));
        assert(all.take(i + 1).last() == lines@[i as int]@);
        let found: usize = display_width(lines[i].as_str());
        let wide: usize = if found == 0 {
            1
        } else {
            found
        };
        let rows: usize = ceil_div(wide, cells);
        let room: usize = u16::MAX as usize - total;
        if rows > room {
            total = u16::MAX as usize;
        } else {
            total += rows;
        }
        i += 1;
    }
    assert(all.take(i as int) =~= all);
    if total < 1 {
        1
    } else {
        total as u16
    }
}

/// One thing that the manager draws.
#[derive(Debug, PartialEq, Eq)]
pub enum ManagerDrawing {
    /// The plain background of the surface.
    Background { area: Area },
    /// A centered message.
    Message { area: Area, text: String },
    /// An empty bordered panel with a centered title.
    Panel { area: Area, title: String },
    /// Text that is wrapped at words.
    Wrapped { area: Area, text: String },
    /// Text on one line.
    Line { area: Area, text: String },
    /// Rows, of which the selected one is marked.
    List { area: Area, rows: Vec<ListRow> },
}

/// The contents of a [`ManagerDrawing`].
pub enum ManagerDrawingView {
    Background { area: Area },
    Message { area: Area, text: Seq<char> },
    Panel { area: Area, title: Seq<char> },
    Wrapped { area: Area, text: Seq<char> },
    Line { area: Area, text: Seq<char> },
    List { area: Area, rows: Seq<(Seq<char>, Seq<char>, bool)> },
}

impl View for ManagerDrawing {
    type V = ManagerDrawingView;

    open spec fn view(&self) -> ManagerDrawingView {
        match self {
            ManagerDrawing::Background { area } => ManagerDrawingView::Background { area: *area },
            ManagerDrawing::Message { area, text } => ManagerDrawingView::Message {
                area: *area,
                text: text@,
            },
            ManagerDrawing::Panel { area, title } => ManagerDrawingView::Panel {
                area: *area,
                title: title@,
            },
            ManagerDrawing::Wrapped { area, text } => ManagerDrawingView::Wrapped {
                area: *area,
                text: text@,
            },
            ManagerDrawing::Line { area, text } => ManagerDrawingView::Line {
                area: *area,
                text: text@,
            },
            ManagerDrawing::List { area, rows } => ManagerDrawingView::List {
                area: *area,
                rows: row_views(rows@),
            },
        }
    }
}

/// The contents of each drawing.
pub open spec fn manager_drawing_views(drawings: Seq<ManagerDrawing>) -> Seq<ManagerDrawingView> {
    drawings.map_values(|drawing: ManagerDrawing| drawing@)
}

/// The smaller of two sizes.
pub open spec fn smaller(a: u16, b: u16) -> u16 {
    if a < b {
        a
    } else {
        b
    }
}

/// The width of the manager's panel.
pub open spec fn panel_width(area: Area) -> u16 {
    smaller(area.width, MAX_PANEL_WIDTH)
}

/// The width of text in the manager's panel.
pub open spec fn text_width(area: Area) -> u16 {
    let width = sat_sub(panel_width(area), 4);
    if width == 0 {
        1
    } else {
        width
    }
}

/// The rows that what stands above the list takes.
pub open spec fn context_rows(area: Area, manager: ManagerView) -> u16 {
    match manager.context() {
        Some(text) => rows_of_text(text, text_width(area)),
        None => 0,
    }
}

/// The rows that what stands below the list takes.
pub open spec fn footer_rows(area: Area, manager: ManagerView) -> u16 {
    rows_of_text(ObserverManagerState::footer(manager), text_width(area))
}

/// The rows of the list that are wanted: at least one.
pub open spec fn wanted_rows(manager: ManagerView) -> u16 {
    let len = manager.rows().len();
    if len < 1 {
        1
    } else if len > MAX_VISIBLE_ROWS {
        MAX_VISIBLE_ROWS as u16
    } else {
        len as u16
    }
}

/// The manager's panel, in the middle of the surface.
pub open spec fn panel_area(area: Area, manager: ManagerView) -> Area {
    let width = panel_width(area);
    let height = smaller(
        sat_add(
            sat_add(
                sat_add(wanted_rows(manager), context_rows(area, manager)),
                footer_rows(area, manager),
            ),
            4,
        ),
        area.height,
    );
    Area {
        x: sat_add(area.x, (sat_sub(area.width, width as int) / 2) as u16),
        y: sat_add(area.y, (sat_sub(area.height, height as int) / 2) as u16),
        width,
        height,
    }
}

/// What lies within the border of a panel.
pub open spec fn inside(panel: Area) -> Area {
    if panel.width < 2 || panel.height < 2 {
        Area { x: 0, y: 0, width: 0, height: 0 }
    } else {
        Area {
            x: sat_add(panel.x, 1),
            y: sat_add(panel.y, 1),
            width: sat_sub(panel.width, 2),
            height: sat_sub(panel.height, 2),
        }
    }
}

/// The rows that the parts of the panel want: above the list, the list and
/// below it.
pub open spec fn panel_constraints(area: Area, manager: ManagerView) -> Seq<RowConstraint> {
    seq![
        RowConstraint::Length(context_rows(area, manager)),
        RowConstraint::Min(1),
        RowConstraint::Length(footer_rows(area, manager)),
    ]
}

/// The rows that the parts of the list want: where it stands, and its rows.
pub open spec fn list_constraints() -> Seq<RowConstraint> {
    seq![RowConstraint::Length(1), RowConstraint::Min(0)]
}

/// The surface is too small for the panel.
pub open spec fn too_small(area: Area) -> bool {
    area.width < MIN_MANAGER_WIDTH || area.height < MIN_MANAGER_HEIGHT
}

/// Where the surface has a panel, the panel is divided into `parts` and its
/// list into `list`.
pub open spec fn panel_divided(
    area: Area,
    manager: ManagerView,
    parts: Seq<Area>,
    list: Seq<Area>,
) -> bool {
    !too_small(area) ==> divided(
        inside(panel_area(area, manager)),
        panel_constraints(area, manager),
        parts,
    ) && divided(parts[1], list_constraints(), list)
}

/// The first row that is shown.
pub open spec fn shown_from(manager: ManagerView, rows: int) -> int {
    let len = manager.rows().len() as int;
    if len == 0 {
        0
    } else {
        first_row(manager.selected, len, rows)
    }
}

/// What is said about the rows that are not shown.
pub open spec fn list_heading(manager: ManagerView, rows: int) -> Seq<char> {
    let len = manager.rows().len() as int;
    if len == 0 {
        "0/0"@
    } else {
        viewport_text(manager.selected, len, rows)
    }
}

/// The marker of a row, which tells the selected row from the others.
pub open spec fn row_marker(selected: bool) -> Seq<char> {
    if selected {
        "> "@
    } else {
        "  "@
    }
}

/// The rows that are shown, cut to a width and marked.
pub open spec fn shown_rows(manager: ManagerView, rows: int, width: int) -> Seq<
    (Seq<char>, Seq<char>, bool),
> {
    let all = manager.rows();
    let from = shown_from(manager, rows);
    let left = all.len() - from;
    let count = if left < rows {
        left
    } else {
        rows
    };
    Seq::new(
        if count < 0 {
            0nat
        } else {
            count as nat
        },
        |k: int|
            {
                let selected = from + k == manager.selected;
                (row_marker(selected), cut_label(all[from + k], width), selected)
            },
    )
}

/// What the manager draws, where its panel is divided into `parts` and its list
/// into `list`.
pub open spec fn manager_surface(
    area: Area,
    manager: ManagerView,
    parts: Seq<Area>,
    list: Seq<Area>,
) -> Seq<ManagerDrawingView> {
    if area.empty() {
        Seq::empty()
    } else if too_small(area) {
        seq![
            ManagerDrawingView::Background { area },
            ManagerDrawingView::Message { area, text: MANAGER_RESIZE_MESSAGE@ },
        ]
    } else {
        let rows = sat_sub(parts[1].height, 1) as int;
        seq![
            ManagerDrawingView::Background { area },
            ManagerDrawingView::Panel {
                area: panel_area(area, manager),
                title: " Tether · "@ + ObserverManagerState::title_of(manager.screen) + " "@,
            },
        ] + (match manager.context() {
            Some(text) => seq![ManagerDrawingView::Wrapped { area: parts[0], text }],
            None => Seq::empty(),
        }) + seq![
            ManagerDrawingView::Line { area: list[0], text: list_heading(manager, rows) },
            ManagerDrawingView::List {
                area: list[1],
                rows: shown_rows(manager, rows, sat_sub(list[1].width, 2) as int),
            },
            ManagerDrawingView::Wrapped {
                area: parts[2],
                text: ObserverManagerState::footer(manager),
            },
        ]
    }
}

/// The rows that are shown, cut to a width and marked.
fn list_rows(manager: &ObserverManagerState, rows: usize, width: usize) -> (r: Vec<ListRow>)
    requires
        manager@.well_formed(),
    ensures
        row_views(r@) == shown_rows(manager@, rows as int, width as int),
{
    let labels = manager.item_labels();
    let ghost all = manager@.rows();
    assert(all.len() == labels@.len());
    let selected = manager.selected_index();
    let (from, _) = viewport_metadata(selected, labels.len(), rows);
    let ghost wanted = shown_rows(manager@, rows as int, width as int);
    proof {
        assert(from == shown_from(manager@, rows as int));
        if labels@.len() > 0 {
            lemma_first_row(manager@.selected, labels@.len() as int, rows as int);
        }
    }
    let total: usize = labels.len();
    let left: usize = total - from;
    let count: usize = if left < rows {
        left
    } else {
        rows
    };
    let mut r: Vec<ListRow> = Vec::new();
    let mut k: usize = 0;
    assert(row_views(r@) =~= wanted.take(0));
    while k < count
        invariant
            k <= count,
            from + count <= total,
            total == labels@.len(),
            all == manager@.rows(),
            all == views(labels@),
            selected == manager@.selected,
            from == shown_from(manager@, rows as int),
            wanted == shown_rows(manager@, rows as int, width as int),
            count == wanted.len(),
            row_views(r@) == wanted.take(k as int),
        decreases count - k,
    {
        let at: usize = from + k;
        assert(all[at as int] == labels@[at as int]@);
        let marker = if at == selected {
            "> "
        } else {
            "  "
        };
        let row = ListRow {
            marker: marker.to_owned(),
            label: bounded_label(labels[at].as_str(), width),
            selected: at == selected,
        };
        let ghost before = r@;
        let ghost shown = (row.marker@, row.label@, row.selected);
        assert(shown == wanted[k as int]);
        r.push(row);
        assert(row_views(r@) =~= row_views(before).push(shown));
        k += 1;
        assert(wanted.take(k as int) =~= wanted.take(k - 1).push(wanted[k - 1]));
    }
    assert(wanted.take(k as int) =~= wanted);
    r
}

/// The first row that is shown is one of the list.
proof fn lemma_first_row(selected: int, len: int, rows: int)
    requires
        len > 0,
        selected >= 0,
        rows >= 0,
    ensures
        0 <= first_row(selected, len, rows) < len,
{
}

/// A panel whose parts have room is drawn in one way only, however the solver
/// came to them.
pub proof fn panels_with_room_are_drawn_one_way(
    area: Area,
    manager: ManagerView,
    parts: Seq<Area>,
    list: Seq<Area>,
    other_parts: Seq<Area>,
    other_list: Seq<Area>,
)
    requires
        area.in_range(),
        context_rows(area, manager) + footer_rows(area, manager) + 3 <= area.height,
        panel_divided(area, manager, parts, list),
        panel_divided(area, manager, other_parts, other_list),
    ensures
        manager_surface(area, manager, parts, list) == manager_surface(
            area,
            manager,
            other_parts,
            other_list,
        ),
{
    if !too_small(area) {
        let inner = inside(panel_area(area, manager));
        let wanted = panel_constraints(area, manager);
        reveal_with_fuel(total_wanted, 4);
        assert(wanted.drop_last().drop_last().drop_last() =~= Seq::empty());
        assert(total_wanted(wanted) == context_rows(area, manager) + 1 + footer_rows(
            area,
            manager,
        ));
        assert(wanted[1] is Min);
        assert(one_grows(wanted));
        assert(rows_fit(inner, wanted));
        assert(parts =~= other_parts);
        let rows = list_constraints();
        assert(rows.drop_last().drop_last() =~= Seq::empty());
        assert(total_wanted(rows) == 1);
        assert(rows[1] is Min);
        assert(one_grows(rows));
        assert(fitted_rows(inner, wanted, 1) >= 1);
        assert(rows_fit(parts[1], rows));
        assert(list =~= other_list);
    }
}

/// The panel of the manager and the rows that its parts want.
fn panel_plan(area: Area, manager: &ObserverManagerState) -> (plan: (Area, Vec<RowConstraint>))
    requires
        manager@.well_formed(),
        !too_small(area),
    ensures
        plan.0 == panel_area(area, manager@),
        plan.1@ == panel_constraints(area, manager@),
{
    let labels = manager.item_labels();
    let count = labels.len();
    assert(manager@.rows().len() == count);
    let visible: u16 = if count < 1 {
        1
    } else if count > MAX_VISIBLE_ROWS {
        MAX_VISIBLE_ROWS as u16
    } else {
        count as u16
    };
    let width: u16 = if area.width < MAX_PANEL_WIDTH {
        area.width
    } else {
        MAX_PANEL_WIDTH
    };
    let text_cells: u16 = width - 4;
    let context_height: u16 = match manager.context_text() {
        Some(text) => wrapped_line_count(text.as_str(), text_cells),
        None => 0,
    };
    let footer_height: u16 = wrapped_line_count(manager.footer_text().as_str(), text_cells);
    let wanted: u16 = visible.saturating_add(context_height).saturating_add(
        footer_height,
    ).saturating_add(4);
    let height: u16 = if wanted < area.height {
        wanted
    } else {
        area.height
    };
    let panel = Area {
        x: area.x.saturating_add((area.width - width) / 2),
        y: area.y.saturating_add((area.height - height) / 2),
        width,
        height,
    };
    assert(panel == panel_area(area, manager@));
    let constraints = vec![
        RowConstraint::Length(context_height),
        RowConstraint::Min(1),
        RowConstraint::Length(footer_height),
    ];
    assert(constraints@ =~= panel_constraints(area, manager@));
    (panel, constraints)
}

/// What lies within the border of a panel.
fn inner_area(panel: Area) -> (inner: Area)
    ensures
        inner == inside(panel),
{
    if panel.width < 2 || panel.height < 2 {
        Area { x: 0, y: 0, width: 0, height: 0 }
    } else {
        Area {
            x: panel.x.saturating_add(1),
            y: panel.y.saturating_add(1),
            width: panel.width - 2,
            height: panel.height - 2,
        }
    }
}

/// Everything that the manager draws on `area`, in order, where its panel is
/// divided into `parts` and its list into `list`.
pub fn manager_drawings_in(
    area: Area,
    manager: &ObserverManagerState,
    parts: &Vec<Area>,
    list: &Vec<Area>,
) -> (drawings: Vec<ManagerDrawing>)
    requires
        manager@.well_formed(),
        !too_small(area) ==> parts@.len() == 3 && list@.len() == 2,
    ensures
        manager_drawing_views(drawings@) == manager_surface(area, manager@, parts@, list@),
{
    let mut drawings: Vec<ManagerDrawing> = Vec::new();
    let ghost whole = manager_surface(area, manager@, parts@, list@);
    if area.width == 0 || area.height == 0 {
        assert(manager_drawing_views(drawings@) =~= Seq::empty());
        return drawings;
    }
    drawings.push(ManagerDrawing::Background { area });
    if area.width < MIN_MANAGER_WIDTH || area.height < MIN_MANAGER_HEIGHT {
        drawings.push(ManagerDrawing::Message { area, text: MANAGER_RESIZE_MESSAGE.to_owned() });
        assert(manager_drawing_views(drawings@) =~= whole);
        return drawings;
    }
    let (panel, _) = panel_plan(area, manager);
    drawings.push(
        ManagerDrawing::Panel {
            area: panel,
            title: " Tether · ".to_owned().concat(manager.frame_title()).concat(" "),
        },
    );
    let ghost before = manager_drawing_views(drawings@);
    assert(before =~= seq![
        ManagerDrawingView::Background { area },
        ManagerDrawingView::Panel {
            area: panel,
            title: " Tether · "@ + ObserverManagerState::title_of(manager@.screen) + " "@,
        },
    ]);
    let ghost above = match manager@.context() {
        Some(text) => seq![ManagerDrawingView::Wrapped { area: parts@[0], text }],
        None => Seq::empty(),
    };
    match manager.context_text() {
        Some(text) => {
            drawings.push(ManagerDrawing::Wrapped { area: parts[0], text });
        },
        None => {},
    }
    assert(manager_drawing_views(drawings@) =~= before + above);
    let rows: u16 = parts[1].height.saturating_sub(1);
    let labels = manager.item_labels();
    assert(manager@.rows().len() == labels@.len());
    let (_, heading) = viewport_metadata(manager.selected_index(), labels.len(), rows as usize);
    drawings.push(ManagerDrawing::Line { area: list[0], text: heading });
    let shown = list_rows(manager, rows as usize, list[1].width.saturating_sub(2) as usize);
    drawings.push(ManagerDrawing::List { area: list[1], rows: shown });
    drawings.push(ManagerDrawing::Wrapped { area: parts[2], text: manager.footer_text() });
    assert(manager_drawing_views(drawings@) =~= whole);
    drawings
}

/// Everything that the manager draws on `area`, in order.
pub fn manager_drawings(area: Area, manager: &ObserverManagerState) -> (drawings: Vec<ManagerDrawing>)
    requires
        manager@.well_formed(),
    ensures
        exists|parts: Seq<Area>, list: Seq<Area>| #[trigger]
            panel_divided(area, manager@, parts, list) && manager_drawing_views(drawings@)
                == manager_surface(area, manager@, parts, list),
{
    if area.width < MIN_MANAGER_WIDTH || area.height < MIN_MANAGER_HEIGHT {
        let parts: Vec<Area> = Vec::new();
        let list: Vec<Area> = Vec::new();
        assert(panel_divided(area, manager@, parts@, list@));
        return manager_drawings_in(area, manager, &parts, &list);
    }
    let (panel, constraints) = panel_plan(area, manager);
    let parts = split_rows(inner_area(panel), &constraints);
    let rows = vec![RowConstraint::Length(1), RowConstraint::Min(0)];
    assert(rows@ =~= list_constraints());
    let list = split_rows(parts[1], &rows);
    assert(panel_divided(area, manager@, parts@, list@));
    manager_drawings_in(area, manager, &parts, &list)
}

/// The cells after one drawing was painted.
pub open spec fn painted_one(
    before: Map<(u16, u16), CellView>,
    drawing: ManagerDrawingView,
) -> Map<(u16, u16), CellView> {
    match drawing {
        ManagerDrawingView::Background { area } => filled(before, area),
        ManagerDrawingView::Message { area, text } => with_wrapped(before, area, text, true),
        ManagerDrawingView::Panel { area, title } => with_frame(cleared(before, area), area, title),
        ManagerDrawingView::Wrapped { area, text } => with_wrapped(before, area, text, false),
        ManagerDrawingView::Line { area, text } => with_text(before, area, text),
        ManagerDrawingView::List { area, rows } => with_rows(before, area, rows),
    }
}

/// The cells after drawings were painted, one over the other.
pub open spec fn painted(
    before: Map<(u16, u16), CellView>,
    drawings: Seq<ManagerDrawingView>,
) -> Map<(u16, u16), CellView>
    decreases drawings.len(),
{
    if drawings.len() == 0 {
        before
    } else {
        painted_one(painted(before, drawings.drop_last()), drawings.last())
    }
}

/// The rectangle of a drawing.
pub open spec fn drawing_area(drawing: ManagerDrawingView) -> Area {
    match drawing {
        ManagerDrawingView::Background { area } => area,
        ManagerDrawingView::Message { area, .. } => area,
        ManagerDrawingView::Panel { area, .. } => area,
        ManagerDrawingView::Wrapped { area, .. } => area,
        ManagerDrawingView::Line { area, .. } => area,
        ManagerDrawingView::List { area, .. } => area,
    }
}

/// No drawing is wider than the surface.
pub proof fn drawings_are_no_wider_than_the_surface(
    area: Area,
    manager: ManagerView,
    parts: Seq<Area>,
    list: Seq<Area>,
)
    requires
        panel_divided(area, manager, parts, list),
    ensures
        forall|i: int|
            0 <= i < manager_surface(area, manager, parts, list).len() ==> drawing_area(
                #[trigger] manager_surface(area, manager, parts, list)[i],
            ).width <= area.width,
{
    if !too_small(area) {
        assert(part_of(parts[0], inside(panel_area(area, manager))));
        assert(part_of(parts[1], inside(panel_area(area, manager))));
        assert(part_of(parts[2], inside(panel_area(area, manager))));
        assert(part_of(list[0], parts[1]));
        assert(part_of(list[1], parts[1]));
    }
}

/// Paints one drawing.
fn paint(buffer: &mut Buffer, drawing: &ManagerDrawing)
    requires
        drawing_area(drawing@).width <= MAX_PAINT_WIDTH,
    ensures
        cells(*final(buffer)) == painted_one(cells(*old(buffer)), drawing@),
        cells(*final(buffer)).dom() == cells(*old(buffer)).dom(),
        all_uncolored(cells(*old(buffer))) ==> all_uncolored(cells(*final(buffer))),
{
    match drawing {
        ManagerDrawing::Background { area } => {
            fill(buffer, *area);
            assert(cells(*buffer).dom() =~= cells(*old(buffer)).dom());
        },
        ManagerDrawing::Message { area, text } => paint_wrapped(buffer, *area, text.as_str(), true),
        ManagerDrawing::Panel { area, title } => {
            clear(buffer, *area);
            assert(cells(*buffer).dom() =~= cells(*old(buffer)).dom());
            paint_frame(buffer, *area, title.as_str());
        },
        ManagerDrawing::Wrapped { area, text } => paint_wrapped(
            buffer,
            *area,
            text.as_str(),
            false,
        ),
        ManagerDrawing::Line { area, text } => paint_text(buffer, *area, text.as_str()),
        ManagerDrawing::List { area, rows } => paint_rows(buffer, *area, rows),
    }
}

/// Paints the manager on `area`.
pub fn render(buffer: &mut Buffer, area: Area, manager: &ObserverManagerState)
    requires
        manager@.well_formed(),
        area.width <= MAX_PAINT_WIDTH,
    ensures
        exists|parts: Seq<Area>, list: Seq<Area>| #[trigger]
            panel_divided(area, manager@, parts, list) && cells(*final(buffer)) == painted(
                cells(*old(buffer)),
                manager_surface(area, manager@, parts, list),
            ),
        cells(*final(buffer)).dom() == cells(*old(buffer)).dom(),
        all_uncolored(cells(*old(buffer))) ==> all_uncolored(cells(*final(buffer))),
{
    let drawings = manager_drawings(area, manager);
    let ghost all = manager_drawing_views(drawings@);
    let ghost before = cells(*buffer);
    let ghost (parts, list) = choose|parts: Seq<Area>, list: Seq<Area>| #[trigger]
        panel_divided(area, manager@, parts, list) && all == manager_surface(
            area,
            manager@,
            parts,
            list,
        );
    proof {
        drawings_are_no_wider_than_the_surface(area, manager@, parts, list);
    }
    let mut i: usize = 0;
    assert(painted(before, all.take(0)) == before);
    while i < drawings.len()
        invariant
            i <= drawings@.len(),
            all == manager_drawing_views(drawings@),
            area.width <= MAX_PAINT_WIDTH,
            forall|k: int| 0 <= k < all.len() ==> drawing_area(#[trigger] all[k]).width <= area.width,
            cells(*buffer) == painted(before, all.take(i as int)),
            cells(*buffer).dom() == before.dom(),
            all_uncolored(before) ==> all_uncolored(cells(*buffer)),
        decreases drawings.len() - i,
    {
        assert(all.take(i + 1).drop_last() =~= all.take(i as int));
        assert(all.take(i + 1).last() == drawings@[i as int]@);
        assert(all[i as int] == drawings@[i as int]@);
        paint(buffer, &drawings[i]);
        i += 1;
    }
    assert(all.take(i as int) =~= all);
    assert(panel_divided(area, manager@, parts, list));
}

/// `shown` is what the manager shows on a terminal of `width` columns and
/// `height` rows, for some division of its panel.
pub open spec fn shows_manager(
    width: u16,
    height: u16,
    manager: ManagerView,
    shown: Map<(u16, u16), CellView>,
) -> bool {
    let area = Area { x: 0, y: 0, width, height };
    exists|parts: Seq<Area>, list: Seq<Area>| #[trigger]
        panel_divided(area, manager, parts, list) && shown == painted(
            blank_cells(width, height),
            manager_surface(area, manager, parts, list),
        )
}

/// The text that the manager shows, line by line.
pub fn render_to_text(width: u16, height: u16, manager: &ObserverManagerState) -> (text: String)
    requires
        manager@.well_formed(),
        width <= MAX_PAINT_WIDTH,
    ensures
        width == 0 || height == 0 ==> text@ == Seq::<char>::empty(),
        width > 0 && height > 0 ==> exists|shown: Map<(u16, u16), CellView>| #[trigger]
            shows_manager(width, height, manager@, shown) && text@ == grid_text(
                shown,
                width,
                height as int,
            ),
{
    if width == 0 || height == 0 {
        return String::new();
    }
    let mut buffer = blank(width, height);
    render(&mut buffer, Area { x: 0, y: 0, width, height }, manager);
    assert(shows_manager(width, height, manager@, cells(buffer)));
    text_of_grid(&buffer, width, height)
}

/// How the cells of the manager are shown, row after row.
pub fn render_to_styles(width: u16, height: u16, manager: &ObserverManagerState) -> (styles: Vec<
    CellStyle,
>)
    requires
        manager@.well_formed(),
        width <= MAX_PAINT_WIDTH,
    ensures
        width == 0 || height == 0 ==> styles@.len() == 0,
        width > 0 && height > 0 ==> exists|shown: Map<(u16, u16), CellView>| #[trigger]
            shows_manager(width, height, manager@, shown) && style_views(styles@) == grid_styles(
                shown,
                width,
                height,
            ),
        forall|i: int| 0 <= i < styles@.len() ==> uncolored(#[trigger] styles@[i]@),
{
    if width == 0 || height == 0 {
        let none: Vec<CellStyle> = Vec::new();
        return none;
    }
    let mut buffer = blank(width, height);
    render(&mut buffer, Area { x: 0, y: 0, width, height }, manager);
    assert(shows_manager(width, height, manager@, cells(buffer)));
    styles_of_grid(&buffer, width, height)
}

} // verus!
