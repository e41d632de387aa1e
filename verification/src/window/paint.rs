//! What is drawn for a screen and for a composed text, in order.
use crate::grid::cell::{Cell, CellFlags, CellView, Color, UnderlineStyle};
use crate::window::composition::{capped_sum, covered, ImePreeditGlyph, ImePreeditLayout};
use crate::window::geometry::{
    cell_origin, contrasting_cursor_color, cursor_box, cursor_rectangle, lesser, luminance,
    origin_of, CURSOR_THICKNESS,
};
use crate::window::snapshot::GridSnapshot;
use vstd::prelude::*;

verus! {

/// How opaque the cursor is.
pub const CURSOR_ALPHA: u8 = 180;

/// The colors of a cell after the palette and its attributes are applied.
#[derive(Debug, Clone, Copy, PartialEq, Eq, Structural)]
pub struct ResolvedCellColors {
    pub foreground: u32,
    pub background: u32,
}

/// The colors of a cell, and the color that its underline asks for.
#[derive(Debug, Clone, Copy, PartialEq, Eq, Structural)]
pub struct CellColors {
    pub text: ResolvedCellColors,
    pub underline: u32,
}

/// The colors of a screen, cell by cell, and those where there is no cell.
#[derive(Debug)]
pub struct ScreenColors {
    pub cells: Vec<CellColors>,
    pub fallback: ResolvedCellColors,
}

/// One step of drawing.
#[derive(Debug, Clone, Copy)]
pub enum Paint {
    Fill { origin: (i32, i32), size: (u32, u32), color: u32, alpha: u8 },
    Glyph { character: char, bold: bool, italic: bool, origin: (i32, i32), color: u32 },
    Underline { origin: (i32, i32), width: u32, height: u32, style: UnderlineStyle, color: u32 },
}

pub fn cell_content_is_visible(flags: CellFlags) -> (r: bool)
    ensures
        r == !flags.has(CellFlags::HIDDEN),
{
    !flags.contains(CellFlags::HIDDEN)
}

/// An underline without a color of its own has that of the text.
pub open spec fn underline_shade(cell: CellView, colors: CellColors) -> u32 {
    if cell.underline_color is Default { colors.text.foreground } else { colors.underline }
}

pub fn resolve_cell_underline_color(colors: CellColors, cell: &Cell) -> (r: u32)
    ensures
        r == underline_shade(cell@, colors),
{
    match cell.underline_color {
        Color::Default => colors.text.foreground,
        _ => colors.underline,
    }
}

/// Scalars that leave no mark.
pub open spec fn is_inkless(c: char) -> bool {
    c == ' ' || c == '\0'
}

/// The steps one after another.
pub open spec fn joined(parts: Seq<Seq<Paint>>) -> Seq<Paint>
    decreases parts.len(),
{
    if parts.len() == 0 {
        Seq::empty()
    } else {
        joined(parts.drop_last()) + parts.last()
    }
}

proof fn lemma_joined_step(parts: Seq<Seq<Paint>>, at: int)
    requires
        0 <= at < parts.len(),
    ensures
        joined(parts.take(at + 1)) == joined(parts.take(at)) + parts[at],
{
    assert(parts.take(at + 1).drop_last() =~= parts.take(at));
}

/// What is drawn for a cell at an origin: its background, and unless it is
/// hidden its glyph and its underline.
pub open spec fn cell_paint(
    cell: CellView,
    colors: CellColors,
    origin: (i32, i32),
    size: (u16, u16),
) -> Seq<Paint> {
    let width: u32 = if cell.wide() { (size.0 * 2) as u32 } else { size.0 as u32 };
    let background = seq![
        Paint::Fill {
            origin,
            size: (width, size.1 as u32),
            color: colors.text.background,
            alpha: 255,
        },
    ];
    let glyph = if is_inkless(cell.c) {
        Seq::empty()
    } else {
        seq![
            Paint::Glyph {
                character: cell.c,
                bold: cell.flags.has(CellFlags::BOLD),
                italic: cell.flags.has(CellFlags::ITALIC),
                origin,
                color: colors.text.foreground,
            },
        ]
    };
    let underline = if cell.underline_style is Off {
        Seq::empty()
    } else {
        seq![
            Paint::Underline {
                origin,
                width,
                height: size.1 as u32,
                style: cell.underline_style,
                color: underline_shade(cell, colors),
            },
        ]
    };
    if cell.flags.has(CellFlags::HIDDEN) {
        background
    } else {
        background + glyph + underline
    }
}

/// What is drawn at a row and a column. The right half of a glyph is drawn
/// with its left half.
pub open spec fn paint_at(
    snapshot: GridSnapshot,
    colors: ScreenColors,
    size: (u16, u16),
    row: int,
    column: int,
) -> Seq<Paint> {
    match (snapshot.cell_view(row, column), origin_of(row, column, size)) {
        (Some(cell), Some(origin)) => if cell.continuation() {
            Seq::empty()
        } else {
            cell_paint(cell, colors.cells@[row * snapshot.columns + column], origin, size)
        },
        _ => Seq::empty(),
    }
}

pub open spec fn row_parts(
    snapshot: GridSnapshot,
    colors: ScreenColors,
    size: (u16, u16),
    row: int,
) -> Seq<Seq<Paint>> {
    Seq::new(
        snapshot.columns as nat,
        |column: int| paint_at(snapshot, colors, size, row, column),
    )
}

pub open spec fn screen_parts(
    snapshot: GridSnapshot,
    colors: ScreenColors,
    size: (u16, u16),
) -> Seq<Seq<Paint>> {
    Seq::new(
        snapshot.rows as nat,
        |row: int| joined(row_parts(snapshot, colors, size, row)),
    )
}

/// The cell whose glyph is drawn at a row and a column.
pub open spec fn rendered_index(snapshot: GridSnapshot, row: int, column: int) -> Option<int> {
    match snapshot.cell_view(row, column) {
        Some(cell) => if cell.continuation() && column > 0 {
            match snapshot.cell_view(row, column - 1) {
                Some(leader) => if leader.wide() {
                    Some(row * snapshot.columns + column - 1)
                } else {
                    Some(row * snapshot.columns + column)
                },
                None => None,
            }
        } else {
            Some(row * snapshot.columns + column)
        },
        None => None,
    }
}

/// The colors that are drawn at a row and a column.
pub open spec fn colors_at(
    snapshot: GridSnapshot,
    colors: ScreenColors,
    row: int,
    column: int,
) -> ResolvedCellColors {
    match rendered_index(snapshot, row, column) {
        Some(index) => colors.cells@[index].text,
        None => colors.fallback,
    }
}

/// Black or white, whichever stands out.
pub open spec fn contrasting(background: u32) -> u32 {
    if luminance(background) >= 128_000 { 0u32 } else { 0x00ff_ffffu32 }
}

/// What is drawn for the cursor.
pub open spec fn cursor_paint(
    snapshot: GridSnapshot,
    colors: ScreenColors,
    size: (u16, u16),
) -> Seq<Paint> {
    match snapshot.cursor {
        Some(cursor) => match origin_of(cursor.row as int, cursor.column as int, size) {
            Some(origin) => match cursor_box(
                cursor.shape,
                origin,
                (size.0 as u32, size.1 as u32),
            ) {
                Some((origin, size)) => seq![
                    Paint::Fill {
                        origin,
                        size,
                        color: contrasting(
                            colors_at(
                                snapshot,
                                colors,
                                cursor.row as int,
                                cursor.column as int,
                            ).background,
                        ),
                        alpha: CURSOR_ALPHA,
                    },
                ],
                None => Seq::empty(),
            },
            None => Seq::empty(),
        },
        None => Seq::empty(),
    }
}

/// What is drawn for a screen.
pub open spec fn screen_paint(
    snapshot: GridSnapshot,
    colors: ScreenColors,
    size: (u16, u16),
    with_cursor: bool,
) -> Seq<Paint> {
    joined(screen_parts(snapshot, colors, size)) + if with_cursor {
        cursor_paint(snapshot, colors, size)
    } else {
        Seq::empty()
    }
}

/// Two copies of a screen that differ at most in the scalar and the colors of
/// one right half of a glyph, whose left half stands before it.
pub open spec fn differ_in_right_half(
    one: GridSnapshot,
    other: GridSnapshot,
    row: int,
    column: int,
) -> bool {
    let at = row * one.columns + column;
    &&& one.columns == other.columns
    &&& one.rows == other.rows
    &&& one.cursor == other.cursor
    &&& one.cells@.len() == other.cells@.len()
    &&& 0 <= row
    &&& 0 < column < one.columns
    &&& at < one.cells@.len()
    &&& forall|i: int|
        0 <= i < one.cells@.len() && i != at ==> (#[trigger] one.cells@[i])@ == other.cells@[i]@
    &&& one.cells@[at].flags == other.cells@[at].flags
    &&& one.cells@[at]@.continuation()
    &&& !one.cells@[at]@.wide()
    &&& one.cells@[at - 1]@.wide()
}

/// The colors agree but for those of one cell.
pub open spec fn colors_agree_beside(one: ScreenColors, other: ScreenColors, at: int) -> bool {
    &&& one.fallback == other.fallback
    &&& one.cells@.len() == other.cells@.len()
    &&& forall|i: int|
        0 <= i < one.cells@.len() && i != at ==> (#[trigger] one.cells@[i]) == other.cells@[i]
}

proof fn lemma_cell_position(columns: int, row: int, column: int, other: int, rest: int)
    requires
        0 <= rest < columns,
        0 <= column < columns,
        row * columns + column == other * columns + rest,
    ensures
        column == rest,
{
    assert(column == rest) by (nonlinear_arith)
        requires
            0 <= rest < columns,
            0 <= column < columns,
            row * columns + column == other * columns + rest,
    ;
}

/// What the right half of a glyph holds is never seen: the left half is drawn
/// over both columns, and a cursor on the right half stands out from the
/// background of the left one.
pub proof fn law_right_half_is_not_drawn(
    one: GridSnapshot,
    other: GridSnapshot,
    one_colors: ScreenColors,
    other_colors: ScreenColors,
    size: (u16, u16),
    with_cursor: bool,
    row: int,
    column: int,
)
    requires
        differ_in_right_half(one, other, row, column),
        colors_match(one, one_colors),
        colors_agree_beside(one_colors, other_colors, row * one.columns + column),
    ensures
        screen_paint(one, one_colors, size, with_cursor) == screen_paint(
            other,
            other_colors,
            size,
            with_cursor,
        ),
{
    let columns = one.columns as int;
    let at = row * columns + column;
    assert(one.cells@[at]@.flags == other.cells@[at]@.flags);
    assert forall|r: int| 0 <= r < one.rows implies joined(
        #[trigger] row_parts(one, one_colors, size, r),
    ) == joined(row_parts(other, other_colors, size, r)) by {
        let left = row_parts(one, one_colors, size, r);
        let right = row_parts(other, other_colors, size, r);
        assert forall|c: int| 0 <= c < columns implies left[c] == right[c] by {
            let index = r * columns + c;
            if 0 <= index < one.cells@.len() && index != at {
                assert(one.cells@[index]@ == other.cells@[index]@);
                assert(one_colors.cells@[index] == other_colors.cells@[index]);
            }
        }
        assert(left =~= right);
    }
    assert(screen_parts(one, one_colors, size) =~= screen_parts(other, other_colors, size)) by {
        let left = screen_parts(one, one_colors, size);
        let right = screen_parts(other, other_colors, size);
        assert forall|r: int| 0 <= r < left.len() implies left[r] == right[r] by {
            assert(left[r] == joined(row_parts(one, one_colors, size, r)));
        }
    }
    if let Some(cursor) = one.cursor {
        let r = cursor.row as int;
        let c = cursor.column as int;
        let index = r * columns + c;
        if c == 0 && index == at {
            lemma_cell_position(columns, r, 0, row, column);
        }
        if 0 <= index < one.cells@.len() && index != at {
            assert(one.cells@[index]@ == other.cells@[index]@);
            assert(one_colors.cells@[index] == other_colors.cells@[index]);
        }
        if 0 <= index - 1 < one.cells@.len() && index - 1 != at {
            assert(one.cells@[index - 1]@ == other.cells@[index - 1]@);
            assert(one_colors.cells@[index - 1] == other_colors.cells@[index - 1]);
        }
        assert(r * columns + (c - 1) == index - 1);
        assert(colors_at(one, one_colors, r, c) == colors_at(other, other_colors, r, c));
    }
}

/// Every cell of the screen has its colors.
pub open spec fn colors_match(snapshot: GridSnapshot, colors: ScreenColors) -> bool {
    colors.cells@.len() == snapshot.cells@.len()
}

fn add_cell(
    paints: &mut Vec<Paint>,
    cell: &Cell,
    colors: CellColors,
    origin: (i32, i32),
    size: (u16, u16),
)
    ensures
        final(paints)@ == old(paints)@ + cell_paint(cell@, colors, origin, size),
{
    let ghost start = paints@;
    let width: u32 = if cell.flags.contains(CellFlags::WIDE) {
        size.0 as u32 * 2
    } else {
        size.0 as u32
    };
    let height: u32 = size.1 as u32;
    paints.push(
        Paint::Fill { origin, size: (width, height), color: colors.text.background, alpha: 255 },
    );
    if cell_content_is_visible(cell.flags) {
        if cell.c != ' ' && cell.c != '\0' {
            paints.push(
                Paint::Glyph {
                    character: cell.c,
                    bold: cell.flags.contains(CellFlags::BOLD),
                    italic: cell.flags.contains(CellFlags::ITALIC),
                    origin,
                    color: colors.text.foreground,
                },
            );
        }
        if cell.underline_style != UnderlineStyle::Off {
            let color: u32 = resolve_cell_underline_color(colors, cell);
            paints.push(
                Paint::Underline { origin, width, height, style: cell.underline_style, color },
            );
        }
    }
    proof {
        assert(paints@ =~= start + cell_paint(cell@, colors, origin, size));
    }
}

/// The index of a cell that the copy holds.
fn index_at(snapshot: &GridSnapshot, row: usize, column: usize) -> (r: usize)
    requires
        snapshot.cell_view(row as int, column as int) is Some,
    ensures
        r == row * snapshot.columns + column,
        r < snapshot.cells@.len(),
{
    proof {
        assert(0 <= row * snapshot.columns) by (nonlinear_arith);
        assert(snapshot.cells.len() == snapshot.cells@.len());
    }
    row * snapshot.columns + column
}

fn add_row(
    paints: &mut Vec<Paint>,
    snapshot: &GridSnapshot,
    colors: &ScreenColors,
    size: (u16, u16),
    row: usize,
)
    requires
        colors_match(*snapshot, *colors),
    ensures
        final(paints)@ == old(paints)@ + joined(row_parts(*snapshot, *colors, size, row as int)),
{
    let ghost start = paints@;
    let ghost parts = row_parts(*snapshot, *colors, size, row as int);
    let mut column: usize = 0;
    proof {
        assert(parts.take(0).len() == 0);
        assert(paints@ =~= start + joined(parts.take(0)));
    }
    while column < snapshot.columns
        invariant
            colors_match(*snapshot, *colors),
            column <= snapshot.columns,
            parts == row_parts(*snapshot, *colors, size, row as int),
            paints@ == start + joined(parts.take(column as int)),
        decreases snapshot.columns - column,
    {
        proof {
            lemma_joined_step(parts, column as int);
        }
        let ghost before = paints@;
        if let Some(cell) = snapshot.cell(row, column) {
            if !cell.flags.contains(CellFlags::WIDE_CONT) {
                if let Some(origin) = cell_origin(row, column, size) {
                    let index: usize = index_at(snapshot, row, column);
                    add_cell(paints, cell, colors.cells[index], origin, size);
                }
            }
        }
        proof {
            assert(paints@ =~= before + paint_at(
                *snapshot,
                *colors,
                size,
                row as int,
                column as int,
            ));
            assert(paints@ =~= start + joined(parts.take(column + 1)));
        }
        column += 1;
    }
    proof {
        assert(parts.take(column as int) =~= parts);
    }
}

/// The colors that are drawn at a row and a column.
fn drawn_colors(snapshot: &GridSnapshot, colors: &ScreenColors, row: usize, column: usize) -> (r:
    ResolvedCellColors)
    requires
        colors_match(*snapshot, *colors),
    ensures
        r == colors_at(*snapshot, *colors, row as int, column as int),
{
    match snapshot.cell(row, column) {
        Some(cell) => {
            let index: usize = index_at(snapshot, row, column);
            if cell.flags.contains(CellFlags::WIDE_CONT) && column > 0 {
                match snapshot.cell(row, column - 1) {
                    Some(leader) => {
                        let other: usize = index_at(snapshot, row, (column - 1) as usize);
                        if leader.flags.contains(CellFlags::WIDE) {
                            colors.cells[other].text
                        } else {
                            colors.cells[index].text
                        }
                    },
                    None => colors.fallback,
                }
            } else {
                colors.cells[index].text
            }
        },
        None => colors.fallback,
    }
}

fn add_cursor(
    paints: &mut Vec<Paint>,
    snapshot: &GridSnapshot,
    colors: &ScreenColors,
    size: (u16, u16),
)
    requires
        colors_match(*snapshot, *colors),
    ensures
        final(paints)@ == old(paints)@ + cursor_paint(*snapshot, *colors, size),
{
    let ghost start = paints@;
    if let Some(cursor) = snapshot.cursor {
        if let Some(origin) = cell_origin(cursor.row, cursor.column, size) {
            if let Some((corner, extent)) = cursor_rectangle(
                cursor.shape,
                origin,
                (size.0 as u32, size.1 as u32),
            ) {
                let under: ResolvedCellColors = drawn_colors(
                    snapshot,
                    colors,
                    cursor.row,
                    cursor.column,
                );
                paints.push(
                    Paint::Fill {
                        origin: corner,
                        size: extent,
                        color: contrasting_cursor_color(under.background),
                        alpha: CURSOR_ALPHA,
                    },
                );
            }
        }
    }
    proof {
        assert(paints@ =~= start + cursor_paint(*snapshot, *colors, size));
    }
}

/// The steps that draw a screen, cell by cell, and its cursor last.
pub fn draw_grid_snapshot(
    snapshot: &GridSnapshot,
    colors: &ScreenColors,
    cell_dimensions: (u16, u16),
    draw_terminal_cursor: bool,
) -> (r: Vec<Paint>)
    requires
        colors_match(*snapshot, *colors),
    ensures
        r@ == screen_paint(*snapshot, *colors, cell_dimensions, draw_terminal_cursor),
{
    let mut paints: Vec<Paint> = Vec::new();
    let ghost parts = screen_parts(*snapshot, *colors, cell_dimensions);
    let mut row: usize = 0;
    proof {
        assert(parts.take(0).len() == 0);
        assert(paints@ =~= joined(parts.take(0)));
    }
    while row < snapshot.rows
        invariant
            colors_match(*snapshot, *colors),
            row <= snapshot.rows,
            parts == screen_parts(*snapshot, *colors, cell_dimensions),
            paints@ == joined(parts.take(row as int)),
        decreases snapshot.rows - row,
    {
        proof {
            lemma_joined_step(parts, row as int);
        }
        add_row(&mut paints, snapshot, colors, cell_dimensions, row);
        row += 1;
    }
    proof {
        assert(parts.take(row as int) =~= parts);
    }
    if draw_terminal_cursor {
        add_cursor(&mut paints, snapshot, colors, cell_dimensions);
    }
    proof {
        assert(paints@ =~= screen_paint(*snapshot, *colors, cell_dimensions, draw_terminal_cursor));
    }
    paints
}

/// Foreground and background of a glyph of a composed text: those of the cell
/// under it, exchanged where it is selected.
pub open spec fn glyph_colors(
    snapshot: GridSnapshot,
    colors: ScreenColors,
    glyph: ImePreeditGlyph,
) -> (u32, u32) {
    let under = colors_at(snapshot, colors, glyph.row as int, glyph.column as int);
    if glyph.selected {
        (under.background, under.foreground)
    } else {
        (under.foreground, under.background)
    }
}

pub fn ime_preedit_glyph_colors(
    colors: &ScreenColors,
    snapshot: &GridSnapshot,
    glyph: &ImePreeditGlyph,
) -> (r: (u32, u32))
    requires
        colors_match(*snapshot, *colors),
    ensures
        r == glyph_colors(*snapshot, *colors, *glyph),
{
    let under: ResolvedCellColors = drawn_colors(snapshot, colors, glyph.row, glyph.column);
    if glyph.selected {
        (under.background, under.foreground)
    } else {
        (under.foreground, under.background)
    }
}

/// A glyph covers a cell.
pub open spec fn covers(glyph: ImePreeditGlyph, row: usize, column: usize) -> bool {
    glyph.row == row && glyph.column <= column && column < capped_sum(
        glyph.column as int,
        covered(glyph),
    )
}

/// The background at a cell: that of the last glyph over it.
pub open spec fn background_at(
    snapshot: GridSnapshot,
    colors: ScreenColors,
    glyphs: Seq<ImePreeditGlyph>,
    row: usize,
    column: usize,
) -> u32
    decreases glyphs.len(),
{
    if glyphs.len() == 0 {
        colors_at(snapshot, colors, row as int, column as int).background
    } else if covers(glyphs.last(), row, column) {
        glyph_colors(snapshot, colors, glyphs.last()).1
    } else {
        background_at(snapshot, colors, glyphs.drop_last(), row, column)
    }
}

pub fn ime_preedit_background_at(
    colors: &ScreenColors,
    snapshot: &GridSnapshot,
    layout: &ImePreeditLayout,
    row: usize,
    column: usize,
) -> (r: u32)
    requires
        colors_match(*snapshot, *colors),
    ensures
        r == background_at(*snapshot, *colors, layout.glyphs@, row, column),
{
    let mut left: usize = layout.glyphs.len();
    proof {
        assert(layout.glyphs@.take(left as int) =~= layout.glyphs@);
    }
    while left > 0
        invariant
            colors_match(*snapshot, *colors),
            left <= layout.glyphs@.len(),
            background_at(*snapshot, *colors, layout.glyphs@, row, column) == background_at(
                *snapshot,
                *colors,
                layout.glyphs@.take(left as int),
                row,
                column,
            ),
        decreases left,
    {
        let glyph: ImePreeditGlyph = layout.glyphs[left - 1];
        let width: usize = if glyph.width < 1 { 1 } else { glyph.width as usize };
        proof {
            let rest = layout.glyphs@.take(left as int);
            assert(rest.last() == glyph);
            assert(rest.drop_last() =~= layout.glyphs@.take(left - 1));
        }
        if glyph.row == row && glyph.column <= column && (width > usize::MAX - glyph.column
            && column < usize::MAX || width <= usize::MAX - glyph.column && column < glyph.column
            + width) {
            return ime_preedit_glyph_colors(colors, snapshot, &glyph).1;
        }
        left -= 1;
    }
    drawn_colors(snapshot, colors, row, column).background
}

/// A blanked cell.
pub open spec fn blank_paint(
    snapshot: GridSnapshot,
    colors: ScreenColors,
    size: (u16, u16),
    cell: (usize, usize),
) -> Seq<Paint> {
    match origin_of(cell.0 as int, cell.1 as int, size) {
        Some(origin) => seq![
            Paint::Fill {
                origin,
                size: (size.0 as u32, size.1 as u32),
                color: colors_at(snapshot, colors, cell.0 as int, cell.1 as int).background,
                alpha: 255,
            },
        ],
        None => Seq::empty(),
    }
}

/// The background of a glyph.
pub open spec fn backing_paint(
    snapshot: GridSnapshot,
    colors: ScreenColors,
    size: (u16, u16),
    glyph: ImePreeditGlyph,
) -> Seq<Paint> {
    match origin_of(glyph.row as int, glyph.column as int, size) {
        Some(origin) => seq![
            Paint::Fill {
                origin,
                size: ((size.0 * covered(glyph)) as u32, size.1 as u32),
                color: glyph_colors(snapshot, colors, glyph).1,
                alpha: 255,
            },
        ],
        None => Seq::empty(),
    }
}

/// The glyph itself.
pub open spec fn ink_paint(
    snapshot: GridSnapshot,
    colors: ScreenColors,
    size: (u16, u16),
    glyph: ImePreeditGlyph,
) -> Seq<Paint> {
    match origin_of(glyph.row as int, glyph.column as int, size) {
        Some(origin) => if is_inkless(glyph.character) {
            Seq::empty()
        } else {
            seq![
                Paint::Glyph {
                    character: glyph.character,
                    bold: false,
                    italic: false,
                    origin,
                    color: glyph_colors(snapshot, colors, glyph).0,
                },
            ]
        },
        None => Seq::empty(),
    }
}

/// The line under a glyph, at the bottom of its cell.
pub open spec fn line_paint(
    snapshot: GridSnapshot,
    colors: ScreenColors,
    size: (u16, u16),
    glyph: ImePreeditGlyph,
) -> Seq<Paint> {
    let height = lesser(2, size.1 as int);
    match origin_of(glyph.row as int, glyph.column as int, size) {
        Some(origin) => if origin.1 + (size.1 - height) <= i32::MAX {
            seq![
                Paint::Fill {
                    origin: (origin.0, (origin.1 + (size.1 - height)) as i32),
                    size: ((size.0 * covered(glyph)) as u32, height as u32),
                    color: glyph_colors(snapshot, colors, glyph).0,
                    alpha: 255,
                },
            ]
        } else {
            Seq::empty()
        },
        None => Seq::empty(),
    }
}

/// The caret of a composed text, at the left of its cell.
pub open spec fn caret_paint(
    snapshot: GridSnapshot,
    colors: ScreenColors,
    size: (u16, u16),
    layout: ImePreeditLayout,
) -> Seq<Paint> {
    match layout.caret_cell {
        Some((row, column)) => match origin_of(row as int, column as int, size) {
            Some(origin) => seq![
                Paint::Fill {
                    origin,
                    size: (lesser(2, size.0 as int) as u32, size.1 as u32),
                    color: contrasting(
                        background_at(snapshot, colors, layout.glyphs@, row, column),
                    ),
                    alpha: 255,
                },
            ],
            None => Seq::empty(),
        },
        None => Seq::empty(),
    }
}

/// What is drawn for a composed text: blanked cells, backgrounds, glyphs, lines
/// and the caret.
pub open spec fn preedit_paint(
    snapshot: GridSnapshot,
    colors: ScreenColors,
    size: (u16, u16),
    layout: ImePreeditLayout,
) -> Seq<Paint> {
    let glyphs = layout.glyphs@;
    joined(
        layout.cleared_cells@.map_values(
            |cell: (usize, usize)| blank_paint(snapshot, colors, size, cell),
        ),
    ) + joined(
        glyphs.map_values(|glyph: ImePreeditGlyph| backing_paint(snapshot, colors, size, glyph)),
    ) + joined(
        glyphs.map_values(|glyph: ImePreeditGlyph| ink_paint(snapshot, colors, size, glyph)),
    ) + joined(
        glyphs.map_values(|glyph: ImePreeditGlyph| line_paint(snapshot, colors, size, glyph)),
    ) + caret_paint(snapshot, colors, size, layout)
}

fn add_blanks(
    paints: &mut Vec<Paint>,
    snapshot: &GridSnapshot,
    colors: &ScreenColors,
    size: (u16, u16),
    cells: &Vec<(usize, usize)>,
)
    requires
        colors_match(*snapshot, *colors),
    ensures
        final(paints)@ == old(paints)@ + joined(
            cells@.map_values(
                |cell: (usize, usize)| blank_paint(*snapshot, *colors, size, cell),
            ),
        ),
{
    let ghost start = paints@;
    let ghost parts = cells@.map_values(
        |cell: (usize, usize)| blank_paint(*snapshot, *colors, size, cell),
    );
    let mut i: usize = 0;
    proof {
        assert(parts.take(0).len() == 0);
        assert(paints@ =~= start + joined(parts.take(0)));
    }
    while i < cells.len()
        invariant
            colors_match(*snapshot, *colors),
            i <= cells@.len(),
            parts == cells@.map_values(
                |cell: (usize, usize)| blank_paint(*snapshot, *colors, size, cell),
            ),
            paints@ == start + joined(parts.take(i as int)),
        decreases cells@.len() - i,
    {
        proof {
            lemma_joined_step(parts, i as int);
        }
        let (row, column): (usize, usize) = cells[i];
        if let Some(origin) = cell_origin(row, column, size) {
            let color: u32 = drawn_colors(snapshot, colors, row, column).background;
            paints.push(
                Paint::Fill { origin, size: (size.0 as u32, size.1 as u32), color, alpha: 255 },
            );
        }
        proof {
            assert(paints@ =~= start + joined(parts.take(i + 1)));
        }
        i += 1;
    }
    proof {
        assert(parts.take(i as int) =~= parts);
    }
}

/// The pixels that a glyph is wide.
fn glyph_pixels(glyph: &ImePreeditGlyph, width: u16) -> (r: u32)
    ensures
        r == width * covered(*glyph),
{
    let columns: u32 = if glyph.width < 1 { 1 } else { glyph.width as u32 };
    proof {
        assert(width * columns <= 65535 * 255) by (nonlinear_arith)
            requires
                width <= 65535,
                columns <= 255,
        ;
    }
    width as u32 * columns
}

fn add_backings(
    paints: &mut Vec<Paint>,
    snapshot: &GridSnapshot,
    colors: &ScreenColors,
    size: (u16, u16),
    glyphs: &Vec<ImePreeditGlyph>,
)
    requires
        colors_match(*snapshot, *colors),
    ensures
        final(paints)@ == old(paints)@ + joined(
            glyphs@.map_values(
                |glyph: ImePreeditGlyph| backing_paint(*snapshot, *colors, size, glyph),
            ),
        ),
{
    let ghost start = paints@;
    let ghost parts = glyphs@.map_values(
        |glyph: ImePreeditGlyph| backing_paint(*snapshot, *colors, size, glyph),
    );
    let mut i: usize = 0;
    proof {
        assert(parts.take(0).len() == 0);
        assert(paints@ =~= start + joined(parts.take(0)));
    }
    while i < glyphs.len()
        invariant
            colors_match(*snapshot, *colors),
            i <= glyphs@.len(),
            parts == glyphs@.map_values(
                |glyph: ImePreeditGlyph| backing_paint(*snapshot, *colors, size, glyph),
            ),
            paints@ == start + joined(parts.take(i as int)),
        decreases glyphs@.len() - i,
    {
        proof {
            lemma_joined_step(parts, i as int);
        }
        let glyph: ImePreeditGlyph = glyphs[i];
        if let Some(origin) = cell_origin(glyph.row, glyph.column, size) {
            let width: u32 = glyph_pixels(&glyph, size.0);
            let color: u32 = ime_preedit_glyph_colors(colors, snapshot, &glyph).1;
            paints.push(Paint::Fill { origin, size: (width, size.1 as u32), color, alpha: 255 });
        }
        proof {
            assert(paints@ =~= start + joined(parts.take(i + 1)));
        }
        i += 1;
    }
    proof {
        assert(parts.take(i as int) =~= parts);
    }
}

fn add_ink(
    paints: &mut Vec<Paint>,
    snapshot: &GridSnapshot,
    colors: &ScreenColors,
    size: (u16, u16),
    glyphs: &Vec<ImePreeditGlyph>,
)
    requires
        colors_match(*snapshot, *colors),
    ensures
        final(paints)@ == old(paints)@ + joined(
            glyphs@.map_values(
                |glyph: ImePreeditGlyph| ink_paint(*snapshot, *colors, size, glyph),
            ),
        ),
{
    let ghost start = paints@;
    let ghost parts = glyphs@.map_values(
        |glyph: ImePreeditGlyph| ink_paint(*snapshot, *colors, size, glyph),
    );
    let mut i: usize = 0;
    proof {
        assert(parts.take(0).len() == 0);
        assert(paints@ =~= start + joined(parts.take(0)));
    }
    while i < glyphs.len()
        invariant
            colors_match(*snapshot, *colors),
            i <= glyphs@.len(),
            parts == glyphs@.map_values(
                |glyph: ImePreeditGlyph| ink_paint(*snapshot, *colors, size, glyph),
            ),
            paints@ == start + joined(parts.take(i as int)),
        decreases glyphs@.len() - i,
    {
        proof {
            lemma_joined_step(parts, i as int);
        }
        let glyph: ImePreeditGlyph = glyphs[i];
        if glyph.character != ' ' && glyph.character != '\0' {
            if let Some(origin) = cell_origin(glyph.row, glyph.column, size) {
                let color: u32 = ime_preedit_glyph_colors(colors, snapshot, &glyph).0;
                paints.push(
                    Paint::Glyph {
                        character: glyph.character,
                        bold: false,
                        italic: false,
                        origin,
                        color,
                    },
                );
            }
        }
        proof {
            assert(paints@ =~= start + joined(parts.take(i + 1)));
        }
        i += 1;
    }
    proof {
        assert(parts.take(i as int) =~= parts);
    }
}

fn add_lines(
    paints: &mut Vec<Paint>,
    snapshot: &GridSnapshot,
    colors: &ScreenColors,
    size: (u16, u16),
    glyphs: &Vec<ImePreeditGlyph>,
)
    requires
        colors_match(*snapshot, *colors),
    ensures
        final(paints)@ == old(paints)@ + joined(
            glyphs@.map_values(
                |glyph: ImePreeditGlyph| line_paint(*snapshot, *colors, size, glyph),
            ),
        ),
{
    let ghost start = paints@;
    let ghost parts = glyphs@.map_values(
        |glyph: ImePreeditGlyph| line_paint(*snapshot, *colors, size, glyph),
    );
    let height: u32 = if CURSOR_THICKNESS < size.1 as u32 { CURSOR_THICKNESS } else {
        size.1 as u32
    };
    let mut i: usize = 0;
    proof {
        assert(parts.take(0).len() == 0);
        assert(paints@ =~= start + joined(parts.take(0)));
    }
    while i < glyphs.len()
        invariant
            colors_match(*snapshot, *colors),
            i <= glyphs@.len(),
            height == lesser(2, size.1 as int),
            height <= size.1,
            parts == glyphs@.map_values(
                |glyph: ImePreeditGlyph| line_paint(*snapshot, *colors, size, glyph),
            ),
            paints@ == start + joined(parts.take(i as int)),
        decreases glyphs@.len() - i,
    {
        proof {
            lemma_joined_step(parts, i as int);
        }
        let glyph: ImePreeditGlyph = glyphs[i];
        if let Some(origin) = cell_origin(glyph.row, glyph.column, size) {
            let offset: u32 = size.1 as u32 - height;
            if let Some(y) = origin.1.checked_add(offset as i32) {
                let width: u32 = glyph_pixels(&glyph, size.0);
                let color: u32 = ime_preedit_glyph_colors(colors, snapshot, &glyph).0;
                paints.push(
                    Paint::Fill { origin: (origin.0, y), size: (width, height), color, alpha: 255 },
                );
            }
        }
        proof {
            assert(paints@ =~= start + joined(parts.take(i + 1)));
        }
        i += 1;
    }
    proof {
        assert(parts.take(i as int) =~= parts);
    }
}

/// The steps that draw a composed text over a screen.
pub fn draw_ime_preedit(
    snapshot: &GridSnapshot,
    colors: &ScreenColors,
    cell_dimensions: (u16, u16),
    layout: &ImePreeditLayout,
) -> (r: Vec<Paint>)
    requires
        colors_match(*snapshot, *colors),
    ensures
        r@ == preedit_paint(*snapshot, *colors, cell_dimensions, *layout),
{
    let mut paints: Vec<Paint> = Vec::new();
    add_blanks(&mut paints, snapshot, colors, cell_dimensions, &layout.cleared_cells);
    add_backings(&mut paints, snapshot, colors, cell_dimensions, &layout.glyphs);
    add_ink(&mut paints, snapshot, colors, cell_dimensions, &layout.glyphs);
    add_lines(&mut paints, snapshot, colors, cell_dimensions, &layout.glyphs);
    if let Some((row, column)) = layout.caret_cell {
        if let Some(origin) = cell_origin(row, column, cell_dimensions) {
            let under: u32 = ime_preedit_background_at(colors, snapshot, layout, row, column);
            let width: u32 = if CURSOR_THICKNESS < cell_dimensions.0 as u32 {
                CURSOR_THICKNESS
            } else {
                cell_dimensions.0 as u32
            };
            paints.push(
                Paint::Fill {
                    origin,
                    size: (width, cell_dimensions.1 as u32),
                    color: contrasting_cursor_color(under),
                    alpha: 255,
                },
            );
        }
    }
    proof {
        assert(paints@ =~= preedit_paint(*snapshot, *colors, cell_dimensions, *layout));
    }
    paints
}

/// What is drawn for a hidden cell shows nothing of its text: cells with the same
/// attributes are drawn alike, whatever their scalars and underlines.
pub proof fn law_hidden_text_is_not_drawn(
    cell: CellView,
    other: CellView,
    colors: CellColors,
    origin: (i32, i32),
    size: (u16, u16),
)
    requires
        cell.flags.has(CellFlags::HIDDEN),
        other.flags == cell.flags,
    ensures
        cell_paint(cell, colors, origin, size) == cell_paint(other, colors, origin, size),
{
}

} // verus!
