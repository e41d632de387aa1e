//! What is drawn where, and in which colors.
use crate::grid::cell::{CellFlags, CellView, Color, UnderlineStyle};
use crate::grid::terminal::{CursorShape, GridView};
use crate::window::composition::{ImePreeditGlyph, ImePreeditLayout};
use crate::window::frame::{frame_paint, ime_cell};
use crate::window::geometry::{
    clamped, configured_size, dimensions_for_surface, grid_dimensions, initial_size, ime_area, luminance, surface_for_dimensions, xrgb, PixelSize,
    TerminalDimensions,
};
use crate::window::paint::{
    background_at, backing_paint, blank_paint, caret_paint, cell_paint, colors_at, contrasting,
    cursor_paint, glyph_colors, ink_paint, joined, line_paint, paint_at, preedit_paint, row_parts,
    screen_paint, screen_parts, CellColors, Paint, ScreenColors,
};
use crate::window::snapshot::GridSnapshot;
use vstd::prelude::*;

verus! {

/// A glyph step draws the scalar of a cell: bold and italic as the cell is, in
/// its foreground.
pub open spec fn draws_text_of(
    step: Paint,
    cell: CellView,
    colors: CellColors,
    origin: (i32, i32),
) -> bool {
    match step {
        Paint::Glyph { character, bold, italic, origin: at, color } => {
            &&& character == cell.c
            &&& bold == (cell.flags.bits & CellFlags::BOLD == CellFlags::BOLD)
            &&& italic == (cell.flags.bits & CellFlags::ITALIC == CellFlags::ITALIC)
            &&& at == origin
            &&& color == colors.text.foreground
        },
        _ => false,
    }
}

/// An underline step draws the line of a cell over all of its columns.
pub open spec fn draws_line_of(
    step: Paint,
    cell: CellView,
    colors: CellColors,
    origin: (i32, i32),
    size: (u16, u16),
) -> bool {
    match step {
        Paint::Underline { origin: at, width, height, style, color } => {
            &&& at == origin
            &&& style == cell.underline_style
            &&& height == size.1
            &&& cell.flags.has(CellFlags::WIDE) ==> width == 2 * size.0
            &&& !cell.flags.has(CellFlags::WIDE) ==> width == size.0
            &&& cell.underline_color == Color::Default ==> color == colors.text.foreground
            &&& cell.underline_color != Color::Default ==> color == colors.underline
        },
        _ => false,
    }
}

/// A fill step draws the background of a cell over all of its columns.
pub open spec fn draws_back_of(
    step: Paint,
    cell: CellView,
    colors: CellColors,
    origin: (i32, i32),
    size: (u16, u16),
) -> bool {
    match step {
        Paint::Fill { origin: at, size: extent, color, alpha } => {
            &&& at == origin
            &&& extent.1 == size.1
            &&& cell.flags.has(CellFlags::WIDE) ==> extent.0 == 2 * size.0
            &&& !cell.flags.has(CellFlags::WIDE) ==> extent.0 == size.0
            &&& color == colors.text.background
            &&& alpha == 255
        },
        _ => false,
    }
}

/// A cell is drawn as its background, then its text unless it is blank, then its
/// underline if it has one; a hidden cell as its background alone.
pub proof fn law_cells_are_drawn(
    cell: CellView,
    colors: CellColors,
    origin: (i32, i32),
    size: (u16, u16),
)
    ensures
        ({
            let steps = cell_paint(cell, colors, origin, size);
            let hidden = cell.flags.bits & CellFlags::HIDDEN == CellFlags::HIDDEN;
            let inked = !hidden && cell.c != ' ' && cell.c != '\0';
            let lined = !hidden && cell.underline_style != UnderlineStyle::Off;
            &&& steps.len() == 1 + (if inked { 1int } else { 0 }) + (if lined { 1int } else { 0 })
            &&& draws_back_of(steps[0], cell, colors, origin, size)
            &&& inked ==> draws_text_of(steps[1], cell, colors, origin)
            &&& lined ==> draws_line_of(steps[steps.len() - 1], cell, colors, origin, size)
            &&& forall|k: int| 0 <= k < steps.len() && (#[trigger] steps[k]) is Glyph ==> k == 1
                && inked
            &&& forall|k: int|
                0 <= k < steps.len() && (#[trigger] steps[k]) is Underline ==> k == steps.len() - 1
                    && lined
        }),
{
}

/// A step is drawn exactly if it belongs to some part.
pub proof fn lemma_joined_holds(parts: Seq<Seq<Paint>>, step: Paint)
    ensures
        joined(parts).contains(step) <==> exists|i: int|
            0 <= i < parts.len() && (#[trigger] parts[i]).contains(step),
    decreases parts.len(),
{
    if parts.len() > 0 {
        let before = parts.drop_last();
        let all = joined(parts);
        let held = joined(before);
        lemma_joined_holds(before, step);
        assert(all == held + parts.last());
        if all.contains(step) {
            let k = all.index_of(step);
            if k < held.len() {
                assert(held[k] == step);
                let i = choose|i: int|
                    0 <= i < before.len() && (#[trigger] before[i]).contains(step);
                assert(parts[i].contains(step));
            } else {
                assert(parts.last()[k - held.len()] == step);
                assert(parts[parts.len() - 1].contains(step));
            }
        }
        if exists|i: int| 0 <= i < parts.len() && (#[trigger] parts[i]).contains(step) {
            let i = choose|i: int| 0 <= i < parts.len() && (#[trigger] parts[i]).contains(step);
            if i < before.len() {
                assert(before[i].contains(step));
                let k = held.index_of(step);
                assert(all[k] == step);
            } else {
                let k = parts.last().index_of(step);
                assert(all[held.len() + k] == step);
            }
        }
    }
}

/// A place of a screen holds a cell that is drawn, at its corner in pixels.
pub open spec fn drawn_at(
    snapshot: GridSnapshot,
    size: (u16, u16),
    row: int,
    column: int,
) -> bool {
    &&& 0 <= row < snapshot.rows
    &&& 0 <= column < snapshot.columns
    &&& 0 <= row * snapshot.columns + column < snapshot.cells@.len()
    &&& row * snapshot.columns + column <= usize::MAX
    &&& !snapshot.cells@[row * snapshot.columns + column].flags.has(CellFlags::WIDE_CONT)
    &&& column * size.0 <= i32::MAX
    &&& row * size.1 <= i32::MAX
}

/// The corner of a cell in pixels.
pub open spec fn corner(size: (u16, u16), row: int, column: int) -> (i32, i32) {
    ((column * size.0) as i32, (row * size.1) as i32)
}

/// Every step that draws a screen belongs to a cell, at the place of that cell,
/// and every cell but the right half of a glyph has its steps drawn.
pub proof fn law_screens_draw_their_cells(
    snapshot: GridSnapshot,
    colors: ScreenColors,
    size: (u16, u16),
    step: Paint,
)
    ensures
        screen_paint(snapshot, colors, size, false).contains(step) <==> exists|row: int, column: int|
            #[trigger] drawn_at(snapshot, size, row, column) && cell_paint(
                snapshot.cells@[row * snapshot.columns + column]@,
                colors.cells@[row * snapshot.columns + column],
                corner(size, row, column),
                size,
            ).contains(step),
{
    let parts = screen_parts(snapshot, colors, size);
    let all = screen_paint(snapshot, colors, size, false);
    assert(all =~= joined(parts));
    lemma_joined_holds(parts, step);
    if all.contains(step) {
        let row = choose|i: int| 0 <= i < parts.len() && (#[trigger] parts[i]).contains(step);
        let places = row_parts(snapshot, colors, size, row);
        assert(parts[row] == joined(places));
        lemma_joined_holds(places, step);
        let column = choose|i: int| 0 <= i < places.len() && (#[trigger] places[i]).contains(step);
        assert(paint_at(snapshot, colors, size, row, column).contains(step));
        assert(drawn_at(snapshot, size, row, column));
    }
    if exists|row: int, column: int|
        #[trigger] drawn_at(snapshot, size, row, column) && cell_paint(
            snapshot.cells@[row * snapshot.columns + column]@,
            colors.cells@[row * snapshot.columns + column],
            corner(size, row, column),
            size,
        ).contains(step) {
        let (row, column) = choose|row: int, column: int|
            #[trigger] drawn_at(snapshot, size, row, column) && cell_paint(
                snapshot.cells@[row * snapshot.columns + column]@,
                colors.cells@[row * snapshot.columns + column],
                corner(size, row, column),
                size,
            ).contains(step);
        let places = row_parts(snapshot, colors, size, row);
        assert(places[column].contains(step));
        lemma_joined_holds(places, step);
        assert(parts[row] == joined(places));
        assert(parts[row].contains(step));
    }
}

/// Every glyph that drawing a screen emits is the text of a visible cell: its
/// scalar at its place, bold exactly if the cell is bold and italic exactly if
/// it is italic, in the foreground of that cell.
pub proof fn law_drawn_glyphs_show_cells(
    snapshot: GridSnapshot,
    colors: ScreenColors,
    size: (u16, u16),
    step: Paint,
)
    requires
        step is Glyph,
        screen_paint(snapshot, colors, size, false).contains(step),
    ensures
        exists|row: int, column: int|
            #[trigger] drawn_at(snapshot, size, row, column) && draws_text_of(
                step,
                snapshot.cells@[row * snapshot.columns + column]@,
                colors.cells@[row * snapshot.columns + column],
                corner(size, row, column),
            ) && !snapshot.cells@[row * snapshot.columns + column].flags.has(CellFlags::HIDDEN),
{
    law_screens_draw_their_cells(snapshot, colors, size, step);
    let (row, column) = choose|row: int, column: int|
        #[trigger] drawn_at(snapshot, size, row, column) && cell_paint(
            snapshot.cells@[row * snapshot.columns + column]@,
            colors.cells@[row * snapshot.columns + column],
            corner(size, row, column),
            size,
        ).contains(step);
    let index = row * snapshot.columns + column;
    let cell = snapshot.cells@[index]@;
    let origin = corner(size, row, column);
    let steps = cell_paint(cell, colors.cells@[index], origin, size);
    law_cells_are_drawn(cell, colors.cells@[index], origin, size);
    let k = steps.index_of(step);
    assert(steps[k] is Glyph);
}

/// The cursor is drawn last, over everything else, and only where it is asked
/// for and stands on the screen: over the whole cell, at its left edge or at its
/// bottom, in black or white.
pub proof fn law_the_cursor_is_drawn_last(
    snapshot: GridSnapshot,
    colors: ScreenColors,
    size: (u16, u16),
)
    ensures
        ({
            let plain = screen_paint(snapshot, colors, size, false);
            let full = screen_paint(snapshot, colors, size, true);
            let steps = cursor_paint(snapshot, colors, size);
            &&& full == plain + steps
            &&& snapshot.cursor is None ==> steps.len() == 0
            &&& snapshot.cursor is Some ==> {
                let cursor = snapshot.cursor->0;
                let (row, column) = (cursor.row as int, cursor.column as int);
                let origin = corner(size, row, column);
                let under = colors_at(snapshot, colors, row, column).background;
                column * size.0 <= i32::MAX && (row + 1) * size.1 <= i32::MAX ==> {
                    &&& steps.len() == 1
                    &&& match steps[0] {
                        Paint::Fill { origin: at, size: extent, color, alpha } => {
                            &&& alpha == 180
                            &&& color == contrasting(under)
                            &&& at.0 == origin.0
                            &&& cursor.shape == CursorShape::Block ==> at.1 == origin.1 && extent.0
                                == size.0 && extent.1 == size.1
                            &&& cursor.shape == CursorShape::Bar ==> at.1 == origin.1 && extent.1
                                == size.1 && (size.0 >= 2 ==> extent.0 == 2) && (size.0 < 2
                                ==> extent.0 == size.0)
                            &&& cursor.shape == CursorShape::Underline ==> extent.0 == size.0
                                && at.1 + extent.1 == origin.1 + size.1 && (size.1 >= 2
                                ==> extent.1 == 2) && (size.1 < 2 ==> extent.1 == size.1)
                        },
                        _ => false,
                    }
                }
            }
        }),
{
    let plain = screen_paint(snapshot, colors, size, false);
    let full = screen_paint(snapshot, colors, size, true);
    assert(full =~= plain + cursor_paint(snapshot, colors, size));
    if snapshot.cursor is Some {
        let cursor = snapshot.cursor->0;
        let (row, column) = (cursor.row as int, cursor.column as int);
        assert((row + 1) * size.1 == row * size.1 + size.1) by (nonlinear_arith);
        assert(0 <= row * size.1) by (nonlinear_arith)
            requires
                0 <= row,
                0 <= size.1,
        ;
        assert(0 <= column * size.0) by (nonlinear_arith)
            requires
                0 <= column,
                0 <= size.0,
        ;
    }
}

/// The colors under a cell of a glyph are those of its left half; elsewhere
/// those of the cell itself.
pub proof fn law_colors_under_a_cell(
    snapshot: GridSnapshot,
    colors: ScreenColors,
    row: int,
    column: int,
)
    requires
        0 <= row,
        0 <= column < snapshot.columns,
        row * snapshot.columns + column < snapshot.cells@.len() <= usize::MAX,
    ensures
        ({
            let index = row * snapshot.columns + column;
            let cell = snapshot.cells@[index];
            let half = column > 0 && cell.flags.has(CellFlags::WIDE_CONT) && snapshot.cells@[index
                - 1].flags.has(CellFlags::WIDE);
            &&& half ==> colors_at(snapshot, colors, row, column) == colors.cells@[index - 1].text
            &&& !half ==> colors_at(snapshot, colors, row, column) == colors.cells@[index].text
        }),
{
    assert(0 <= row * snapshot.columns) by (nonlinear_arith)
        requires
            0 <= row,
            0 <= snapshot.columns,
    ;
    assert(row * snapshot.columns + (column - 1) == row * snapshot.columns + column - 1);
}

/// Black stands out from bright colors and white from dark ones; green counts
/// most and blue least.
pub proof fn law_contrast(red: u8, green: u8, blue: u8)
    ensures
        0 <= xrgb(red, green, blue) <= 0xff_ffff,
        luminance(xrgb(red, green, blue) as u32) == 299 * red + 587 * green + 114 * blue,
        contrasting(xrgb(red, green, blue) as u32) == 0 || contrasting(
            xrgb(red, green, blue) as u32,
        ) == 0xff_ffff,
        contrasting(xrgb(red, green, blue) as u32) == 0 <==> 299 * red + 587 * green + 114 * blue
            >= 128_000,
        xrgb(red, green, blue) % 256 == blue,
        (xrgb(red, green, blue) / 256) % 256 == green,
        xrgb(red, green, blue) / 65536 == red,
{
}

/// A glyph of a composed text has the colors of the cell under it, and a
/// selected one has them exchanged.
pub proof fn law_composed_colors(
    snapshot: GridSnapshot,
    colors: ScreenColors,
    glyph: ImePreeditGlyph,
)
    ensures
        ({
            let under = colors_at(snapshot, colors, glyph.row as int, glyph.column as int);
            let (ink, back) = glyph_colors(snapshot, colors, glyph);
            &&& glyph.selected ==> ink == under.background && back == under.foreground
            &&& !glyph.selected ==> ink == under.foreground && back == under.background
        }),
{
}

/// The last glyph over a cell gives it its background; where there is none, the
/// screen does.
pub proof fn law_composed_backgrounds(
    snapshot: GridSnapshot,
    colors: ScreenColors,
    glyphs: Seq<ImePreeditGlyph>,
    top: ImePreeditGlyph,
    row: usize,
    column: usize,
)
    ensures
        background_at(snapshot, colors, Seq::empty(), row, column) == colors_at(
            snapshot,
            colors,
            row as int,
            column as int,
        ).background,
        ({
            let width: int = if top.width < 1 { 1 } else { top.width as int };
            let over = top.row == row && top.column <= column < top.column + width;
            &&& over && column < usize::MAX ==> background_at(
                snapshot,
                colors,
                glyphs.push(top),
                row,
                column,
            ) == glyph_colors(snapshot, colors, top).1
            &&& !over ==> background_at(snapshot, colors, glyphs.push(top), row, column)
                == background_at(snapshot, colors, glyphs, row, column)
        }),
{
    assert(glyphs.push(top).drop_last() =~= glyphs);
}

/// A composed glyph is drawn as a full background, its scalar, and a line of two
/// pixels at the bottom, all over its columns.
pub proof fn law_composed_glyphs_are_drawn(
    snapshot: GridSnapshot,
    colors: ScreenColors,
    size: (u16, u16),
    glyph: ImePreeditGlyph,
)
    requires
        glyph.column * size.0 <= i32::MAX,
        (glyph.row + 1) * size.1 <= i32::MAX,
    ensures
        ({
            let origin = corner(size, glyph.row as int, glyph.column as int);
            let (ink, back) = glyph_colors(snapshot, colors, glyph);
            let columns: int = if glyph.width < 1 { 1 } else { glyph.width as int };
            let backing = backing_paint(snapshot, colors, size, glyph);
            let text = ink_paint(snapshot, colors, size, glyph);
            let line = line_paint(snapshot, colors, size, glyph);
            &&& backing.len() == 1
            &&& match backing[0] {
                Paint::Fill { origin: at, size: extent, color, alpha } => at == origin && extent.0
                    == size.0 * columns && extent.1 == size.1 && color == back && alpha == 255,
                _ => false,
            }
            &&& glyph.character == ' ' || glyph.character == '\0' ==> text.len() == 0
            &&& glyph.character != ' ' && glyph.character != '\0' ==> text.len() == 1
                && match text[0] {
                Paint::Glyph { character, bold, italic, origin: at, color } => character
                    == glyph.character && !bold && !italic && at == origin && color == ink,
                _ => false,
            }
            &&& line.len() == 1
            &&& match line[0] {
                Paint::Fill { origin: at, size: extent, color, alpha } => {
                    &&& at.0 == origin.0
                    &&& at.1 + extent.1 == origin.1 + size.1
                    &&& extent.0 == size.0 * columns
                    &&& size.1 >= 2 ==> extent.1 == 2
                    &&& size.1 < 2 ==> extent.1 == size.1
                    &&& color == ink
                    &&& alpha == 255
                },
                _ => false,
            }
        }),
{
    let row = glyph.row as int;
    let column = glyph.column as int;
    let columns: int = if glyph.width < 1 { 1 } else { glyph.width as int };
    assert((row + 1) * size.1 == row * size.1 + size.1) by (nonlinear_arith);
    assert(0 <= row * size.1) by (nonlinear_arith)
        requires
            0 <= row,
            0 <= size.1,
    ;
    assert(0 <= column * size.0) by (nonlinear_arith)
        requires
            0 <= column,
            0 <= size.0,
    ;
    assert(0 <= size.0 * columns <= 65535 * 255) by (nonlinear_arith)
        requires
            0 <= size.0 <= 65535,
            0 <= columns <= 255,
    ;
}

/// The caret of a composed text is drawn last: two pixels at the left of its
/// cell, standing out from the background there.
pub proof fn law_the_caret_is_drawn_last(
    snapshot: GridSnapshot,
    colors: ScreenColors,
    size: (u16, u16),
    layout: ImePreeditLayout,
)
    ensures
        ({
            let steps = preedit_paint(snapshot, colors, size, layout);
            let caret = caret_paint(snapshot, colors, size, layout);
            &&& layout.caret_cell is None ==> caret.len() == 0
            &&& layout.caret_cell is Some ==> {
                let (row, column) = layout.caret_cell->0;
                column * size.0 <= i32::MAX && row * size.1 <= i32::MAX ==> {
                    &&& caret.len() == 1
                    &&& steps.len() > 0
                    &&& steps.last() == caret[0]
                    &&& match caret[0] {
                        Paint::Fill { origin: at, size: extent, color, alpha } => {
                            &&& at == corner(size, row as int, column as int)
                            &&& size.0 >= 2 ==> extent.0 == 2
                            &&& size.0 < 2 ==> extent.0 == size.0
                            &&& extent.1 == size.1
                            &&& alpha == 255
                            &&& color == contrasting(
                                background_at(snapshot, colors, layout.glyphs@, row, column),
                            )
                        },
                        _ => false,
                    }
                }
            }
        }),
{
}

/// A blanked cell shows the background under it.
pub proof fn law_blanked_cells(
    snapshot: GridSnapshot,
    colors: ScreenColors,
    size: (u16, u16),
    cell: (usize, usize),
)
    requires
        cell.1 * size.0 <= i32::MAX,
        cell.0 * size.1 <= i32::MAX,
    ensures
        ({
            let steps = blank_paint(snapshot, colors, size, cell);
            &&& steps.len() == 1
            &&& match steps[0] {
                Paint::Fill { origin: at, size: extent, color, alpha } => {
                    &&& at == corner(size, cell.0 as int, cell.1 as int)
                    &&& extent.0 == size.0
                    &&& extent.1 == size.1
                    &&& color == colors_at(
                        snapshot,
                        colors,
                        cell.0 as int,
                        cell.1 as int,
                    ).background
                    &&& alpha == 255
                },
                _ => false,
            }
        }),
{
}

/// Every part of a composed text is drawn, and nothing else: blanked cells, and
/// the background, the scalar and the line of each glyph, and the caret.
pub proof fn law_composed_texts_are_drawn(
    snapshot: GridSnapshot,
    colors: ScreenColors,
    size: (u16, u16),
    layout: ImePreeditLayout,
    step: Paint,
)
    ensures
        preedit_paint(snapshot, colors, size, layout).contains(step) <==> {
            ||| exists|i: int|
                0 <= i < layout.cleared_cells@.len() && blank_paint(
                    snapshot,
                    colors,
                    size,
                    #[trigger] layout.cleared_cells@[i],
                ).contains(step)
            ||| exists|i: int|
                0 <= i < layout.glyphs@.len() && backing_paint(
                    snapshot,
                    colors,
                    size,
                    #[trigger] layout.glyphs@[i],
                ).contains(step)
            ||| exists|i: int|
                0 <= i < layout.glyphs@.len() && ink_paint(
                    snapshot,
                    colors,
                    size,
                    #[trigger] layout.glyphs@[i],
                ).contains(step)
            ||| exists|i: int|
                0 <= i < layout.glyphs@.len() && line_paint(
                    snapshot,
                    colors,
                    size,
                    #[trigger] layout.glyphs@[i],
                ).contains(step)
            ||| caret_paint(snapshot, colors, size, layout).contains(step)
        },
{
    let glyphs = layout.glyphs@;
    let cells = layout.cleared_cells@;
    let blanks = cells.map_values(
        |cell: (usize, usize)| blank_paint(snapshot, colors, size, cell),
    );
    let backs = glyphs.map_values(
        |glyph: ImePreeditGlyph| backing_paint(snapshot, colors, size, glyph),
    );
    let inks = glyphs.map_values(
        |glyph: ImePreeditGlyph| ink_paint(snapshot, colors, size, glyph),
    );
    let lines = glyphs.map_values(
        |glyph: ImePreeditGlyph| line_paint(snapshot, colors, size, glyph),
    );
    lemma_joined_holds(blanks, step);
    lemma_joined_holds(backs, step);
    lemma_joined_holds(inks, step);
    lemma_joined_holds(lines, step);
    let caret = caret_paint(snapshot, colors, size, layout);
    lemma_in_either(joined(blanks), joined(backs), step);
    lemma_in_either(joined(blanks) + joined(backs), joined(inks), step);
    lemma_in_either(joined(blanks) + joined(backs) + joined(inks), joined(lines), step);
    lemma_in_either(
        joined(blanks) + joined(backs) + joined(inks) + joined(lines),
        caret,
        step,
    );
    assert forall|i: int| 0 <= i < cells.len() implies blanks[i] == blank_paint(
        snapshot,
        colors,
        size,
        #[trigger] cells[i],
    ) by {}
    assert forall|i: int| 0 <= i < glyphs.len() implies backs[i] == backing_paint(
        snapshot,
        colors,
        size,
        #[trigger] glyphs[i],
    ) && inks[i] == ink_paint(snapshot, colors, size, glyphs[i]) && lines[i] == line_paint(
        snapshot,
        colors,
        size,
        glyphs[i],
    ) by {}
    if exists|i: int| 0 <= i < blanks.len() && (#[trigger] blanks[i]).contains(step) {
        let i = choose|i: int| 0 <= i < blanks.len() && (#[trigger] blanks[i]).contains(step);
        assert(blank_paint(snapshot, colors, size, cells[i]).contains(step));
    }
    if exists|i: int| 0 <= i < backs.len() && (#[trigger] backs[i]).contains(step) {
        let i = choose|i: int| 0 <= i < backs.len() && (#[trigger] backs[i]).contains(step);
        assert(backing_paint(snapshot, colors, size, glyphs[i]).contains(step));
    }
    if exists|i: int| 0 <= i < inks.len() && (#[trigger] inks[i]).contains(step) {
        let i = choose|i: int| 0 <= i < inks.len() && (#[trigger] inks[i]).contains(step);
        assert(ink_paint(snapshot, colors, size, glyphs[i]).contains(step));
    }
    if exists|i: int| 0 <= i < lines.len() && (#[trigger] lines[i]).contains(step) {
        let i = choose|i: int| 0 <= i < lines.len() && (#[trigger] lines[i]).contains(step);
        assert(line_paint(snapshot, colors, size, glyphs[i]).contains(step));
    }
}

proof fn lemma_in_either(one: Seq<Paint>, other: Seq<Paint>, step: Paint)
    ensures
        (one + other).contains(step) <==> one.contains(step) || other.contains(step),
{
    let all = one + other;
    if one.contains(step) {
        let k = one.index_of(step);
        assert(all[k] == step);
    }
    if other.contains(step) {
        let k = other.index_of(step);
        assert(all[one.len() + k] == step);
    }
    if all.contains(step) {
        let k = all.index_of(step);
        if k < one.len() {
            assert(one[k] == step);
        } else {
            assert(other[k - one.len()] == step);
        }
    }
}

/// The cursor of the terminal is drawn only while no text is composed, and a
/// composed text is drawn over the screen.
pub proof fn law_composition_replaces_the_cursor(
    snapshot: GridSnapshot,
    colors: ScreenColors,
    size: (u16, u16),
    layout: ImePreeditLayout,
)
    ensures
        ({
            let plain = screen_paint(snapshot, colors, size, false);
            let composed = frame_paint(snapshot, colors, size, Some(layout));
            &&& frame_paint(snapshot, colors, size, None) == screen_paint(
                snapshot,
                colors,
                size,
                true,
            )
            &&& composed.len() == plain.len() + preedit_paint(snapshot, colors, size, layout).len()
            &&& composed.take(plain.len() as int) == plain
            &&& composed.skip(plain.len() as int) == preedit_paint(snapshot, colors, size, layout)
        }),
        layout.caret_cell is Some ==> ime_cell(snapshot, Some(layout)) == layout.caret_cell->0,
        layout.caret_cell is None ==> ime_cell(snapshot, Some(layout)) == snapshot.input_cursor,
        ime_cell(snapshot, None) == snapshot.input_cursor,
{
    let plain = screen_paint(snapshot, colors, size, false);
    let composed = frame_paint(snapshot, colors, size, Some(layout));
    assert(composed.take(plain.len() as int) =~= plain);
    assert(composed.skip(plain.len() as int) =~= preedit_paint(snapshot, colors, size, layout));
}

/// A copy of the terminal holds what the viewport shows cell by cell, and the
/// cursor where it can be seen: switched on, with the viewport at the end.
pub proof fn law_copies_show_the_terminal(
    snapshot: GridSnapshot,
    grid: GridView,
    row: int,
    column: int,
)
    requires
        snapshot.shows(grid),
        grid.valid(),
        grid.screen.rows.len() <= usize::MAX,
        0 <= grid.cursor_col <= usize::MAX,
        0 <= row < grid.screen.rows.len(),
        0 <= column < grid.screen.cols,
    ensures
        snapshot.columns == grid.screen.cols,
        snapshot.rows == grid.screen.rows.len(),
        snapshot.auto_wrap == grid.modes.auto_wrap,
        snapshot.wrap_pending == (grid.wrap_pending || grid.cursor_col == grid.screen.cols),
        snapshot.input_cursor.0 == grid.cursor_row,
        snapshot.input_cursor.1 == grid.cursor_col,
        row * grid.screen.cols + column < snapshot.cells@.len(),
        snapshot.cells@[row * grid.screen.cols + column]@ == grid.visible(row, column),
        grid.scroll_offset == 0 ==> snapshot.cells@[row * grid.screen.cols + column]@
            == grid.screen.rows[row].cells[column],
        snapshot.cursor is Some <==> grid.modes.cursor_visible && grid.scroll_offset == 0
            && grid.cursor_col <= grid.screen.cols,
        snapshot.cursor is Some ==> {
            let cursor = snapshot.cursor->0;
            &&& cursor.row == grid.cursor_row
            &&& grid.cursor_col < grid.screen.cols ==> cursor.column == grid.cursor_col
            &&& grid.cursor_col == grid.screen.cols ==> cursor.column + 1 == grid.screen.cols
            &&& cursor.shape == grid.modes.cursor_style.shape
        },
{
    assert(snapshot.cell_view(row, column) == Some(grid.visible(row, column)));
}

/// A screen fills its window with whole cells, between one cell and the largest
/// screen; a part of a cell at the edge does not count.
pub proof fn law_screens_fill_windows(size: PixelSize, cell: (u16, u16))
    requires
        size.width > 0,
        size.height > 0,
        cell.0 > 0,
        cell.1 > 0,
    ensures
        ({
            let screen = dimensions_for_surface(size, cell);
            &&& screen is Some
            &&& 1 <= screen->0.columns <= 1024
            &&& 1 <= screen->0.rows <= 256
            &&& size.width < cell.0 ==> screen->0.columns == 1
            &&& cell.0 <= size.width ==> screen->0.columns * cell.0 <= size.width
            &&& screen->0.columns < 1024 ==> size.width < (screen->0.columns + 1) * cell.0
            &&& size.height < cell.1 ==> screen->0.rows == 1
            &&& cell.1 <= size.height ==> screen->0.rows * cell.1 <= size.height
            &&& screen->0.rows < 256 ==> size.height < (screen->0.rows + 1) * cell.1
        }),
{
    lemma_whole_cells(size.width as int, cell.0 as int, 1024);
    lemma_whole_cells(size.height as int, cell.1 as int, 256);
}

proof fn lemma_whole_cells(pixels: int, cell: int, most: int)
    requires
        0 < pixels,
        0 < cell,
        1 < most,
    ensures
        ({
            let count = clamped(pixels / cell, 1, most);
            &&& 1 <= count <= most
            &&& pixels < cell ==> count == 1
            &&& cell <= pixels ==> count * cell <= pixels
            &&& count < most ==> pixels < (count + 1) * cell
        }),
{
    let whole = pixels / cell;
    let count = clamped(whole, 1, most);
    vstd::arithmetic::div_mod::lemma_fundamental_div_mod(pixels, cell);
    vstd::arithmetic::div_mod::lemma_mod_bound(pixels, cell);
    assert(cell * whole <= pixels < cell * whole + cell);
    assert(whole >= 0) by {
        vstd::arithmetic::div_mod::lemma_div_pos_is_pos(pixels, cell);
    }
    assert(pixels < cell ==> whole == 0) by (nonlinear_arith)
        requires
            cell * whole <= pixels,
            0 < cell,
            whole >= 0,
    ;
    assert(cell <= pixels ==> whole >= 1) by (nonlinear_arith)
        requires
            pixels < cell * whole + cell,
            0 < cell,
    ;
    assert(count <= whole ==> count * cell <= cell * whole) by (nonlinear_arith)
        requires
            0 < cell,
    ;
    assert(count >= whole ==> (count + 1) * cell >= cell * whole + cell) by (nonlinear_arith)
        requires
            0 < cell,
    ;
}

/// A window for a screen holds its cells side by side, up to the largest frame.
pub proof fn law_windows_hold_screens(dimensions: TerminalDimensions, cell: (u16, u16))
    ensures
        ({
            let size = surface_for_dimensions(dimensions, cell);
            let width = dimensions.columns * cell.0;
            let height = dimensions.rows * cell.1;
            &&& size is Some <==> width > 0 && height > 0
            &&& size is Some ==> {
                &&& width <= 8192 ==> size->0.width == width
                &&& width > 8192 ==> size->0.width == 8192
                &&& height <= 4320 ==> size->0.height == height
                &&& height > 4320 ==> size->0.height == 4320
            }
        }),
{
    assert(dimensions.columns > 0 && cell.0 > 0 <==> dimensions.columns * cell.0 > 0)
        by (nonlinear_arith)
        requires
            dimensions.columns >= 0,
            cell.0 >= 0,
    ;
    assert(dimensions.rows > 0 && cell.1 > 0 <==> dimensions.rows * cell.1 > 0)
        by (nonlinear_arith)
        requires
            dimensions.rows >= 0,
            cell.1 >= 0,
    ;
}

/// The input method is told the cell of the cursor, the last one of its row
/// while a wrap is due; a surface that ends inside the cell moves the area back
/// into it.
pub proof fn law_input_areas(
    cursor: (usize, usize),
    grid: (usize, usize),
    cell: (u16, u16),
    surface: (u32, u32),
)
    requires
        cursor.0 < grid.1,
        cursor.1 <= grid.0,
        grid.0 > 0,
        cell.0 > 0,
        cell.1 > 0,
        cell.0 <= surface.0 <= i32::MAX,
        cell.1 <= surface.1 <= i32::MAX,
        grid.0 * cell.0 <= i32::MAX,
        grid.1 * cell.1 <= i32::MAX,
    ensures
        ({
            let area = ime_area(cursor, grid, cell, surface);
            let column = if cursor.1 < grid.0 { cursor.1 as int } else { grid.0 - 1 };
            let x = column * cell.0;
            let y = cursor.0 * cell.1;
            &&& area is Some
            &&& area->0.size.width == cell.0
            &&& area->0.size.height == cell.1
            &&& x + cell.0 <= surface.0 ==> area->0.x == x
            &&& x + cell.0 > surface.0 ==> area->0.x + cell.0 == surface.0
            &&& y + cell.1 <= surface.1 ==> area->0.y == y
            &&& y + cell.1 > surface.1 ==> area->0.y + cell.1 == surface.1
        }),
        forall|other: (usize, usize)|
            other.0 >= grid.1 || other.1 > grid.0 ==> (#[trigger] ime_area(
                other,
                grid,
                cell,
                surface,
            )) is None,
{
    let column = if cursor.1 < grid.0 { cursor.1 as int } else { grid.0 - 1 };
    assert(0 <= column * cell.0 <= grid.0 * cell.0) by (nonlinear_arith)
        requires
            0 <= column <= grid.0,
            0 <= cell.0,
    ;
    assert(0 <= cursor.0 * cell.1 <= grid.1 * cell.1) by (nonlinear_arith)
        requires
            0 <= cursor.0 <= grid.1,
            0 <= cell.1,
    ;
}


/// The cell that is shown at a place is the one there, and for the right half of
/// a glyph its left half.
pub proof fn law_shown_cells(snapshot: GridSnapshot, row: int, column: int)
    requires
        0 <= row,
        0 <= column < snapshot.columns,
        row * snapshot.columns + column < snapshot.cells@.len() <= usize::MAX,
    ensures
        ({
            let index = row * snapshot.columns + column;
            let cell = snapshot.cells@[index]@;
            let half = column > 0 && cell.flags.has(CellFlags::WIDE_CONT) && snapshot.cells@[index
                - 1].flags.has(CellFlags::WIDE);
            &&& snapshot.cell_view(row, column) == Some(cell)
            &&& half ==> snapshot.rendered_view(row, column) == Some(snapshot.cells@[index - 1]@)
            &&& !half ==> snapshot.rendered_view(row, column) == Some(cell)
        }),
{
    assert(0 <= row * snapshot.columns) by (nonlinear_arith)
        requires
            0 <= row,
            0 <= snapshot.columns,
    ;
    assert(row * snapshot.columns + (column - 1) == row * snapshot.columns + column - 1);
}

/// The size of a terminal is told where each side fits sixteen bits.
pub proof fn law_told_sizes(columns: int, rows: int)
    requires
        0 <= columns <= usize::MAX,
        0 <= rows <= usize::MAX,
    ensures
        columns <= 65535 && rows <= 65535 ==> grid_dimensions(columns, rows) is Ok
            && grid_dimensions(columns, rows)->Ok_0.columns == columns && grid_dimensions(
            columns,
            rows,
        )->Ok_0.rows == rows,
        columns > 65535 || rows > 65535 ==> grid_dimensions(columns, rows) is Err,
{
}


/// No background is drawn over a glyph of a composed text: what is filled after
/// a glyph is the line under one, or the caret.
pub proof fn law_composed_glyphs_stay_visible(
    snapshot: GridSnapshot,
    colors: ScreenColors,
    size: (u16, u16),
    layout: ImePreeditLayout,
    i: int,
    j: int,
)
    requires
        0 <= i < j < preedit_paint(snapshot, colors, size, layout).len(),
        preedit_paint(snapshot, colors, size, layout)[i] is Glyph,
        preedit_paint(snapshot, colors, size, layout)[j] is Fill,
    ensures
        ({
            let step = preedit_paint(snapshot, colors, size, layout)[j];
            ||| caret_paint(snapshot, colors, size, layout).contains(step)
            ||| exists|k: int|
                0 <= k < layout.glyphs@.len() && line_paint(
                    snapshot,
                    colors,
                    size,
                    #[trigger] layout.glyphs@[k],
                ).contains(step)
        }),
{
    let glyphs = layout.glyphs@;
    let cells = layout.cleared_cells@;
    let blanks = cells.map_values(
        |cell: (usize, usize)| blank_paint(snapshot, colors, size, cell),
    );
    let backs = glyphs.map_values(
        |glyph: ImePreeditGlyph| backing_paint(snapshot, colors, size, glyph),
    );
    let inks = glyphs.map_values(
        |glyph: ImePreeditGlyph| ink_paint(snapshot, colors, size, glyph),
    );
    let lines = glyphs.map_values(
        |glyph: ImePreeditGlyph| line_paint(snapshot, colors, size, glyph),
    );
    let steps = preedit_paint(snapshot, colors, size, layout);
    let a = joined(blanks);
    let b = joined(backs);
    let c = joined(inks);
    let d = joined(lines);
    let caret = caret_paint(snapshot, colors, size, layout);
    assert(steps == a + b + c + d + caret);
    if i < a.len() {
        assert(a.contains(a[i]));
        lemma_joined_holds(blanks, a[i]);
        let k = choose|k: int| 0 <= k < blanks.len() && (#[trigger] blanks[k]).contains(a[i]);
        assert(blanks[k] == blank_paint(snapshot, colors, size, cells[k]));
        assert(false);
    }
    if i < a.len() + b.len() {
        let step = b[i - a.len()];
        assert(b.contains(step));
        lemma_joined_holds(backs, step);
        let k = choose|k: int| 0 <= k < backs.len() && (#[trigger] backs[k]).contains(step);
        assert(backs[k] == backing_paint(snapshot, colors, size, glyphs[k]));
        assert(false);
    }
    let step = steps[j];
    if j < a.len() + b.len() + c.len() {
        assert(step == c[j - a.len() - b.len()]);
        assert(c.contains(step));
        lemma_joined_holds(inks, step);
        let k = choose|k: int| 0 <= k < inks.len() && (#[trigger] inks[k]).contains(step);
        assert(inks[k] == ink_paint(snapshot, colors, size, glyphs[k]));
        assert(false);
    } else if j < a.len() + b.len() + c.len() + d.len() {
        assert(step == d[j - a.len() - b.len() - c.len()]);
        assert(d.contains(step));
        lemma_joined_holds(lines, step);
        let k = choose|k: int| 0 <= k < lines.len() && (#[trigger] lines[k]).contains(step);
        assert(lines[k] == line_paint(snapshot, colors, size, glyphs[k]));
    } else {
        assert(step == caret[j - a.len() - b.len() - c.len() - d.len()]);
    }
}


/// A new window has ten by twenty pixels for each cell of its screen, and at
/// most 1920 by 1080 in all; a configured screen has at least one cell and at
/// most 1024 by 256.
pub proof fn law_first_sizes(columns: int, rows: int)
    requires
        0 <= columns <= 65535,
        0 <= rows <= 65535,
    ensures
        1 <= columns <= 192 ==> initial_size(columns, rows).0 == 10 * columns,
        columns > 192 ==> initial_size(columns, rows).0 == 1920,
        columns == 0 ==> initial_size(columns, rows).0 == 10,
        1 <= rows <= 54 ==> initial_size(columns, rows).1 == 20 * rows,
        rows > 54 ==> initial_size(columns, rows).1 == 1080,
        rows == 0 ==> initial_size(columns, rows).1 == 20,
        1 <= columns <= 1024 ==> configured_size(columns, rows).0 == columns,
        columns > 1024 ==> configured_size(columns, rows).0 == 1024,
        columns == 0 ==> configured_size(columns, rows).0 == 1,
        1 <= rows <= 256 ==> configured_size(columns, rows).1 == rows,
        rows > 256 ==> configured_size(columns, rows).1 == 256,
        rows == 0 ==> configured_size(columns, rows).1 == 1,
{
}

} // verus!
