//! One frame: the screen, the composed text over it, and the area that the
//! input method is told.
use crate::window::composition::{
    layout_ime_preedit_for_snapshot, layout_matches, ImePreeditLayout,
};
use crate::window::geometry::{ime_area, ime_cursor_area, ImeCursorArea};
use crate::window::paint::{
    colors_match, draw_grid_snapshot, draw_ime_preedit, preedit_paint, screen_paint, Paint,
    ScreenColors,
};
use crate::window::preedit::{scalar_widths, ImePreedit};
use crate::window::snapshot::GridSnapshot;
use vstd::prelude::*;

verus! {

#[derive(Debug)]
pub struct FramePlan {
    pub paints: Vec<Paint>,
    pub ime_area: Option<ImeCursorArea>,
}

/// What a frame draws. The cursor gives way to a composed text.
pub open spec fn frame_paint(
    snapshot: GridSnapshot,
    colors: ScreenColors,
    cell: (u16, u16),
    layout: Option<ImePreeditLayout>,
) -> Seq<Paint> {
    match layout {
        Some(layout) => screen_paint(snapshot, colors, cell, false) + preedit_paint(
            snapshot,
            colors,
            cell,
            layout,
        ),
        None => screen_paint(snapshot, colors, cell, true),
    }
}

/// The cell that the input method is told: the caret of a composed text, or the
/// cursor.
pub open spec fn ime_cell(snapshot: GridSnapshot, layout: Option<ImePreeditLayout>) -> (
    usize,
    usize,
) {
    match layout {
        Some(layout) => match layout.caret_cell {
            Some(cell) => cell,
            None => snapshot.input_cursor,
        },
        None => snapshot.input_cursor,
    }
}

/// Draw a frame with a layout, if a text is being composed.
pub fn frame_with_layout(
    snapshot: &GridSnapshot,
    colors: &ScreenColors,
    cell_dimensions: (u16, u16),
    surface_dimensions: (u32, u32),
    layout: Option<&ImePreeditLayout>,
) -> (r: FramePlan)
    requires
        colors_match(*snapshot, *colors),
    ensures
        ({
            let layout = match layout {
                Some(layout) => Some(*layout),
                None => None,
            };
            &&& r.paints@ == frame_paint(*snapshot, *colors, cell_dimensions, layout)
            &&& r.ime_area == ime_area(
                ime_cell(*snapshot, layout),
                (snapshot.columns, snapshot.rows),
                cell_dimensions,
                surface_dimensions,
            )
        }),
{
    let mut paints: Vec<Paint> = draw_grid_snapshot(
        snapshot,
        colors,
        cell_dimensions,
        layout.is_none(),
    );
    let mut cell: (usize, usize) = snapshot.input_cursor;
    if let Some(layout) = layout {
        let mut over: Vec<Paint> = draw_ime_preedit(snapshot, colors, cell_dimensions, layout);
        paints.append(&mut over);
        if let Some(caret) = layout.caret_cell {
            cell = caret;
        }
    }
    let area: Option<ImeCursorArea> = ime_cursor_area(
        cell,
        (snapshot.columns, snapshot.rows),
        cell_dimensions,
        surface_dimensions,
    );
    FramePlan { paints, ime_area: area }
}

/// Lay out a composed text, if there is one, and draw a frame.
pub fn plan_frame(
    snapshot: &GridSnapshot,
    colors: &ScreenColors,
    cell_dimensions: (u16, u16),
    surface_dimensions: (u32, u32),
    preedit: Option<&ImePreedit>,
) -> (r: FramePlan)
    requires
        colors_match(*snapshot, *colors),
    ensures
        exists|layout: Option<ImePreeditLayout>|
            {
                &&& layout is Some <==> preedit is Some
                &&& preedit is Some ==> layout_matches(
                    layout->0,
                    (preedit->0).text@,
                    scalar_widths((preedit->0).text@),
                    (preedit->0).cursor,
                    snapshot.input_cursor,
                    (snapshot.columns, snapshot.rows),
                    snapshot.auto_wrap,
                    Some(snapshot),
                )
                &&& r.paints@ == #[trigger] frame_paint(
                    *snapshot,
                    *colors,
                    cell_dimensions,
                    layout,
                )
                &&& r.ime_area == ime_area(
                    ime_cell(*snapshot, layout),
                    (snapshot.columns, snapshot.rows),
                    cell_dimensions,
                    surface_dimensions,
                )
            },
{
    let layout: Option<ImePreeditLayout> = match preedit {
        Some(preedit) => Some(layout_ime_preedit_for_snapshot(preedit, snapshot)),
        None => None,
    };
    let plan: FramePlan = frame_with_layout(
        snapshot,
        colors,
        cell_dimensions,
        surface_dimensions,
        layout.as_ref(),
    );
    assert(plan.paints@ == frame_paint(*snapshot, *colors, cell_dimensions, layout));
    plan
}

} // verus!
