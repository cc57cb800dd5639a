//! A grid of terminal cells and what is painted on it, with the widgets of
//! ratatui.

use ratatui::buffer::Buffer;
use ratatui::layout::{Alignment, Rect};
use ratatui::style::{Color, Modifier, Style};
use ratatui::text::{Line, Span};
use ratatui::widgets::{Block, Borders, Clear, Paragraph, Widget, Wrap};
use vstd::prelude::*;
use vstd::string::*;

use crate::observer_view::{sat_add, Area};

verus! {

/// A grid of terminal cells: `ratatui::buffer::Buffer`.
#[verifier::external_type_specification]
#[verifier::external_body]
pub struct ExBuffer(ratatui::buffer::Buffer);

/// What one cell shows.
#[derive(Debug, PartialEq, Eq)]
pub struct PaintedCell {
    pub symbol: String,
    pub style: CellStyle,
}

/// How one cell is shown. The modifiers are a set of bits.
#[derive(Debug, PartialEq, Eq)]
pub struct CellStyle {
    pub foreground: String,
    pub background: String,
    pub modifiers: u16,
}

/// The widest rectangle that text is painted in. In a wider one the sums of
/// widths that ratatui makes while it lays text out may leave their range.
pub const MAX_PAINT_WIDTH: u16 = 16383;

/// The bit of a cell that is shown bold.
pub const BOLD: u16 = 1;

/// The contents of a [`CellStyle`].
pub struct StyleView {
    pub foreground: Seq<char>,
    pub background: Seq<char>,
    pub modifiers: u16,
}

impl View for CellStyle {
    type V = StyleView;

    open spec fn view(&self) -> StyleView {
        StyleView {
            foreground: self.foreground@,
            background: self.background@,
            modifiers: self.modifiers,
        }
    }
}

/// The contents of a [`PaintedCell`].
pub struct CellView {
    pub symbol: Seq<char>,
    pub style: StyleView,
}

impl View for PaintedCell {
    type V = CellView;

    open spec fn view(&self) -> CellView {
        CellView { symbol: self.symbol@, style: self.style@ }
    }
}

/// The cells of a grid, by column and row.
pub uninterp spec fn cells(buffer: Buffer) -> Map<(u16, u16), CellView>;

/// A cell that nothing was painted on: a blank in the terminal's own colors.
pub open spec fn blank_cell() -> CellView {
    CellView {
        symbol: " "@,
        style: StyleView { foreground: "Reset"@, background: "Reset"@, modifiers: 0 },
    }
}

/// A grid that nothing was painted on.
pub open spec fn blank_cells(width: u16, height: u16) -> Map<(u16, u16), CellView> {
    Map::new(|at: (u16, u16)| at.0 < width && at.1 < height, |at: (u16, u16)| blank_cell())
}

/// A style that has no colors but the terminal's own.
pub open spec fn uncolored(style: StyleView) -> bool {
    style.foreground == "Reset"@ && style.background == "Reset"@
}

/// Every cell has the terminal's own colors.
pub open spec fn all_uncolored(shown: Map<(u16, u16), CellView>) -> bool {
    forall|at: (u16, u16)| #[trigger]
        shown.dom().contains(at) ==> uncolored(shown[at].style)
}

/// The cell lies in the rectangle.
pub open spec fn covers(area: Area, at: (u16, u16)) -> bool {
    area.x <= at.0 < sat_add(area.x, area.width) && area.y <= at.1 < sat_add(area.y, area.height)
}

/// The cells in a rectangle get the terminal's own colors.
pub open spec fn filled(before: Map<(u16, u16), CellView>, area: Area) -> Map<
    (u16, u16),
    CellView,
> {
    before.map_entries(
        |at: (u16, u16), cell: CellView|
            if covers(area, at) {
                CellView {
                    symbol: cell.symbol,
                    style: StyleView {
                        foreground: "Reset"@,
                        background: "Reset"@,
                        modifiers: cell.style.modifiers,
                    },
                }
            } else {
                cell
            },
    )
}

/// The cells in a rectangle are as if nothing was painted on them.
pub open spec fn cleared(before: Map<(u16, u16), CellView>, area: Area) -> Map<
    (u16, u16),
    CellView,
> {
    before.map_entries(
        |at: (u16, u16), cell: CellView|
            if covers(area, at) {
                blank_cell()
            } else {
                cell
            },
    )
}

/// The cells after text was painted, each line of it cut at the right.
pub uninterp spec fn with_text(
    before: Map<(u16, u16), CellView>,
    area: Area,
    text: Seq<char>,
) -> Map<(u16, u16), CellView>;

/// The cells after text was painted, wrapped at words.
pub uninterp spec fn with_wrapped(
    before: Map<(u16, u16), CellView>,
    area: Area,
    text: Seq<char>,
    centered: bool,
) -> Map<(u16, u16), CellView>;

/// The cells after text was painted within a titled border.
pub uninterp spec fn with_tile(
    before: Map<(u16, u16), CellView>,
    area: Area,
    title: Seq<char>,
    bold: bool,
    body: Seq<char>,
) -> Map<(u16, u16), CellView>;

/// The cells after a border with a centered title was painted.
pub uninterp spec fn with_frame(
    before: Map<(u16, u16), CellView>,
    area: Area,
    title: Seq<char>,
) -> Map<(u16, u16), CellView>;

/// The cells after rows were painted: each with its marker, its label and
/// whether it is bold.
pub uninterp spec fn with_rows(
    before: Map<(u16, u16), CellView>,
    area: Area,
    rows: Seq<(Seq<char>, Seq<char>, bool)>,
) -> Map<(u16, u16), CellView>;

/// A row of a list.
#[derive(Debug, PartialEq, Eq)]
pub struct ListRow {
    pub marker: String,
    pub label: String,
    pub selected: bool,
}

/// The contents of each row.
pub open spec fn row_views(rows: Seq<ListRow>) -> Seq<(Seq<char>, Seq<char>, bool)> {
    rows.map_values(|row: ListRow| (row.marker@, row.label@, row.selected))
}

/// `Buffer::empty` makes a grid of blank cells, whose first column and row are
/// zero.
#[verifier::external_body]
pub(crate) fn blank(width: u16, height: u16) -> (buffer: Buffer)
    ensures
        cells(buffer) == blank_cells(width, height),
{
    Buffer::empty(Rect::new(0, 0, width, height))
}

/// The index of a `Buffer` gives the cell in a column and a row. It must be one
/// of the grid.
#[verifier::external_body]
pub(crate) fn cell_at(buffer: &Buffer, x: u16, y: u16) -> (cell: PaintedCell)
    requires
        cells(*buffer).dom().contains((x, y)),
    ensures
        cell@ == cells(*buffer)[(x, y)],
{
    let cell = &buffer[(x, y)];
    PaintedCell {
        symbol: cell.symbol().to_owned(),
        style: CellStyle {
            foreground: cell.fg.to_string(),
            background: cell.bg.to_string(),
            modifiers: cell.modifier.bits(),
        },
    }
}

/// A `Block` without borders gives the cells of its rectangle its colors, here
/// the terminal's own, and leaves the rest of the grid as it is.
#[verifier::external_body]
pub(crate) fn fill(buffer: &mut Buffer, area: Area)
    ensures
        cells(*final(buffer)) == filled(cells(*old(buffer)), area),
{
    let style = Style::default().fg(Color::Reset).bg(Color::Reset);
    let place = Rect::new(area.x, area.y, area.width, area.height);
    Block::default().style(style).render(place, buffer)
}

/// `Clear` resets the cells of its rectangle.
#[verifier::external_body]
pub(crate) fn clear(buffer: &mut Buffer, area: Area)
    ensures
        cells(*final(buffer)) == cleared(cells(*old(buffer)), area),
{
    Clear.render(Rect::new(area.x, area.y, area.width, area.height), buffer)
}

/// A `Paragraph` paints lines of text from the top left of its rectangle, in
/// the terminal's own colors. The grid keeps its size, and no other colors come
/// in. The rectangle is not so wide that the sums of widths could overflow.
#[verifier::external_body]
pub(crate) fn paint_text(buffer: &mut Buffer, area: Area, text: &str)
    requires
        area.width <= MAX_PAINT_WIDTH,
    ensures
        cells(*final(buffer)) == with_text(cells(*old(buffer)), area, text@),
        cells(*final(buffer)).dom() == cells(*old(buffer)).dom(),
        all_uncolored(cells(*old(buffer))) ==> all_uncolored(cells(*final(buffer))),
{
    let style = Style::default().fg(Color::Reset).bg(Color::Reset);
    let place = Rect::new(area.x, area.y, area.width, area.height);
    Paragraph::new(text).style(style).render(place, buffer)
}

/// A `Paragraph` that wraps paints text in its rectangle, in the terminal's own
/// colors, on the left or in the middle. The grid keeps its size, and no other
/// colors come in. The rectangle is not so wide that the sums of widths could
/// overflow.
#[verifier::external_body]
pub(crate) fn paint_wrapped(buffer: &mut Buffer, area: Area, text: &str, centered: bool)
    requires
        area.width <= MAX_PAINT_WIDTH,
    ensures
        cells(*final(buffer)) == with_wrapped(cells(*old(buffer)), area, text@, centered),
        cells(*final(buffer)).dom() == cells(*old(buffer)).dom(),
        all_uncolored(cells(*old(buffer))) ==> all_uncolored(cells(*final(buffer))),
{
    let style = Style::default().fg(Color::Reset).bg(Color::Reset);
    let side = if centered { Alignment::Center } else { Alignment::Left };
    let place = Rect::new(area.x, area.y, area.width, area.height);
    Paragraph::new(text).style(style).alignment(side).wrap(Wrap { trim: true }).render(place, buffer)
}

/// A `Paragraph` with a `Block` paints text within a titled border. The border
/// and its title are bold or not. The grid keeps its size, and no other colors
/// come in. The rectangle is not so wide that the sums of widths could overflow.
#[verifier::external_body]
pub(crate) fn paint_tile(buffer: &mut Buffer, area: Area, title: &str, bold: bool, body: &str)
    requires
        area.width <= MAX_PAINT_WIDTH,
    ensures
        cells(*final(buffer)) == with_tile(cells(*old(buffer)), area, title@, bold, body@),
        cells(*final(buffer)).dom() == cells(*old(buffer)).dom(),
        all_uncolored(cells(*old(buffer))) ==> all_uncolored(cells(*final(buffer))),
{
    let style = Style::default().fg(Color::Reset).bg(Color::Reset);
    let weight = if bold { Modifier::BOLD } else { Modifier::empty() };
    let block = Block::default().borders(Borders::ALL).title(Line::from(title)).style(style.add_modifier(weight));
    let place = Rect::new(area.x, area.y, area.width, area.height);
    Paragraph::new(body).style(style).block(block).render(place, buffer)
}

/// A `Block` paints a border with a centered title, in the terminal's own
/// colors. The grid keeps its size, and no other colors come in.
#[verifier::external_body]
pub(crate) fn paint_frame(buffer: &mut Buffer, area: Area, title: &str)
    ensures
        cells(*final(buffer)) == with_frame(cells(*old(buffer)), area, title@),
        cells(*final(buffer)).dom() == cells(*old(buffer)).dom(),
        all_uncolored(cells(*old(buffer))) ==> all_uncolored(cells(*final(buffer))),
{
    let style = Style::default().fg(Color::Reset).bg(Color::Reset);
    let block = Block::default().title(title).title_alignment(Alignment::Center);
    let place = Rect::new(area.x, area.y, area.width, area.height);
    block.borders(Borders::ALL).style(style).render(place, buffer)
}

/// A `Paragraph` of one `Line` for each row paints a list. The selected rows
/// are bold. The grid keeps its size, and no other colors come in. The rectangle
/// is not so wide that the sums of widths could overflow.
#[verifier::external_body]
pub(crate) fn paint_rows(buffer: &mut Buffer, area: Area, rows: &Vec<ListRow>)
    requires
        area.width <= MAX_PAINT_WIDTH,
    ensures
        cells(*final(buffer)) == with_rows(cells(*old(buffer)), area, row_views(rows@)),
        cells(*final(buffer)).dom() == cells(*old(buffer)).dom(),
        all_uncolored(cells(*old(buffer))) ==> all_uncolored(cells(*final(buffer))),
{
    let style = Style::default().fg(Color::Reset).bg(Color::Reset);
    let lines = rows.iter().map(|row| {
        let weight = if row.selected { Modifier::BOLD } else { Modifier::empty() };
        let marker = Span::styled(row.marker.as_str(), style.add_modifier(weight));
        Line::from(vec![marker, Span::styled(row.label.as_str(), style.add_modifier(weight))])
    });
    let place = Rect::new(area.x, area.y, area.width, area.height);
    Paragraph::new(lines.collect::<Vec<_>>()).style(style).render(place, buffer)
}

/// The symbols of the first `count` cells of a row.
pub open spec fn row_text(shown: Map<(u16, u16), CellView>, y: u16, count: int) -> Seq<char>
    decreases count,
{
    if count <= 0 {
        Seq::empty()
    } else {
        row_text(shown, y, count - 1) + shown[((count - 1) as u16, y)].symbol
    }
}

/// The symbols of the first `count` rows, each on a line of its own.
pub open spec fn grid_text(shown: Map<(u16, u16), CellView>, width: u16, count: int) -> Seq<char>
    decreases count,
{
    if count <= 0 {
        Seq::empty()
    } else if count == 1 {
        row_text(shown, 0, width as int)
    } else {
        grid_text(shown, width, count - 1) + "\n"@ + row_text(
            shown,
            (count - 1) as u16,
            width as int,
        )
    }
}

/// The styles of a grid's cells, row after row.
pub open spec fn grid_styles(shown: Map<(u16, u16), CellView>, width: u16, height: u16) -> Seq<
    StyleView,
> {
    Seq::new(
        (width * height) as nat,
        |i: int| shown[((i % width as int) as u16, (i / width as int) as u16)].style,
    )
}

/// The contents of each style.
pub open spec fn style_views(styles: Seq<CellStyle>) -> Seq<StyleView> {
    styles.map_values(|style: CellStyle| style@)
}

/// What a row of a grid shows.
fn text_of_row(buffer: &Buffer, width: u16, height: u16, y: u16) -> (text: String)
    requires
        y < height,
        cells(*buffer).dom() == blank_cells(width, height).dom(),
    ensures
        text@ == row_text(cells(*buffer), y, width as int),
{
    let mut text = String::new();
    let mut x: u16 = 0;
    while x < width
        invariant
            x <= width,
            y < height,
            cells(*buffer).dom() == blank_cells(width, height).dom(),
            text@ == row_text(cells(*buffer), y, x as int),
        decreases width - x,
    {
        let cell = cell_at(buffer, x, y);
        text = text.concat(cell.symbol.as_str());
        x += 1;
    }
    text
}

/// What a grid shows, as text.
pub(crate) fn text_of_grid(buffer: &Buffer, width: u16, height: u16) -> (text: String)
    requires
        cells(*buffer).dom() == blank_cells(width, height).dom(),
    ensures
        text@ == grid_text(cells(*buffer), width, height as int),
{
    let mut text = String::new();
    let mut y: u16 = 0;
    while y < height
        invariant
            y <= height,
            cells(*buffer).dom() == blank_cells(width, height).dom(),
            text@ == grid_text(cells(*buffer), width, y as int),
        decreases height - y,
    {
        if y > 0 {
            text = text.concat("\n");
        }
        let row = text_of_row(buffer, width, height, y);
        assert(y == 0 ==> text@ + row@ =~= row@);
        text = text.concat(row.as_str());
        y += 1;
    }
    text
}

/// Each cell of a grid stands in one of its columns and rows.
proof fn lemma_cell_of_index(i: int, width: u16, height: u16)
    requires
        0 <= i < width * height,
    ensures
        0 <= i % (width as int) < width,
        0 <= i / (width as int) < height,
{
    assert(width > 0) by (nonlinear_arith)
        requires
            0 <= i < width * height,
    ;
    assert(i / (width as int) < height) by (nonlinear_arith)
        requires
            0 <= i < width * height,
            width > 0,
    ;
    assert(0 <= i / (width as int)) by (nonlinear_arith)
        requires
            0 <= i,
            width > 0,
    ;
    vstd::arithmetic::div_mod::lemma_mod_bound(i, width as int);
}

/// How the cells of a grid are shown, row after row.
pub(crate) fn styles_of_grid(buffer: &Buffer, width: u16, height: u16) -> (styles: Vec<CellStyle>)
    requires
        cells(*buffer).dom() == blank_cells(width, height).dom(),
    ensures
        style_views(styles@) == grid_styles(cells(*buffer), width, height),
        all_uncolored(cells(*buffer)) ==> forall|i: int|
            0 <= i < styles@.len() ==> uncolored(#[trigger] styles@[i]@),
{
    let ghost wanted = grid_styles(cells(*buffer), width, height);
    let mut styles: Vec<CellStyle> = Vec::new();
    let mut y: u16 = 0;
    assert(style_views(styles@) =~= wanted.take(0));
    while y < height
        invariant
            y <= height,
            cells(*buffer).dom() == blank_cells(width, height).dom(),
            wanted == grid_styles(cells(*buffer), width, height),
            styles@.len() == y * width,
            y * width <= wanted.len(),
            style_views(styles@) == wanted.take(y * width),
        decreases height - y,
    {
        let mut x: u16 = 0;
        assert((y + 1) * width <= height * width) by (nonlinear_arith)
            requires
                y < height,
        ;
        assert((y + 1) * width == y * width + width) by (nonlinear_arith);
        assert(height * width == width * height) by (nonlinear_arith);
        while x < width
            invariant
                x <= width,
                y < height,
                cells(*buffer).dom() == blank_cells(width, height).dom(),
                wanted == grid_styles(cells(*buffer), width, height),
                styles@.len() == y * width + x,
                y * width + width <= wanted.len(),
                style_views(styles@) == wanted.take(y * width + x),
            decreases width - x,
        {
            let cell = cell_at(buffer, x, y);
            let ghost i = y * width + x;
            proof {
                vstd::arithmetic::div_mod::lemma_fundamental_div_mod_converse(
                    i,
                    width as int,
                    y as int,
                    x as int,
                );
            }
            let ghost before = styles@;
            assert(wanted[i] == cell.style@);
            styles.push(cell.style);
            x += 1;
            assert(style_views(styles@) =~= style_views(before).push(wanted[i]));
            assert(wanted.take(i + 1) =~= wanted.take(i).push(wanted[i]));
        }
        y += 1;
    }
    assert(height * width == width * height) by (nonlinear_arith);
    assert(wanted.take(wanted.len() as int) =~= wanted);
    assert forall|i: int| all_uncolored(cells(*buffer)) && 0 <= i < styles@.len() implies uncolored(
        #[trigger] styles@[i]@,
    ) by {
        assert(styles@[i]@ == style_views(styles@)[i]);
        lemma_cell_of_index(i, width, height);
        let at = ((i % width as int) as u16, (i / width as int) as u16);
        assert(blank_cells(width, height).dom().contains(at));
    }
    styles
}

} // verus!
