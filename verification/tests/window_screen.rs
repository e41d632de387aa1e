//! Sizes, titles, composed text, drawing and the end of the window.
use kokuban::grid::cell::{Cell, CellFlags, Color, UnderlineStyle};
use kokuban::grid::{CursorShape, Grid};
use kokuban::window::composition::{
    layout_ime_preedit, layout_ime_preedit_for_snapshot, layout_ime_preedit_with_mode,
    ImePreeditGlyph, ImePreeditLayout,
};
use kokuban::window::dispatch::InputPlan;
use kokuban::window::geometry::{
    configured_terminal_dimensions, contrasting_cursor_color, drawable_dimensions,
    immediate_surface_size_to_reconcile, ime_cursor_area, initial_window_dimensions,
    is_current_surface_size, physical_size_for_terminal, rgb_to_xrgb,
    terminal_dimensions_for_surface, ImeCursorArea, PixelSize, SurfaceSizeError,
    TerminalDimensions, CURSOR_THICKNESS, MAX_INITIAL_LOGICAL_HEIGHT, MAX_INITIAL_LOGICAL_WIDTH,
    MAX_REQUESTED_PHYSICAL_HEIGHT, MAX_REQUESTED_PHYSICAL_WIDTH, MAX_TERMINAL_COLUMNS,
    MAX_TERMINAL_ROWS,
};
use kokuban::window::paint::{
    cell_content_is_visible, CellColors, Paint, ResolvedCellColors, ScreenColors,
};
use kokuban::window::preedit::{
    ime_preedit_payload_with_limits, replace_ime_preedit, ImePreedit, ImePreeditCursor,
    ImePreeditPayload, IME_PREEDIT_REPLACEMENT, MAX_IME_PREEDIT_BYTES,
    MAX_IME_PREEDIT_RENDER_CELLS,
};
use kokuban::window::snapshot::GridSnapshot;
use kokuban::window::state::{ResizeStep, WindowError, WindowState};
use kokuban::window::status::{
    classify_reader_exit, classify_writer_exit, combine_launch_results, terminal_accepts_input,
    terminal_color_query_value, ReaderExit, ReaderStatus, UpdateNotice, WriterExit, WriterStatus,
};
use kokuban::window::title::WINDOW_TITLE;
use kokuban::window::underline::underline_segments;
use std::cell::RefCell;
use std::io;
use std::sync::atomic::{AtomicUsize, Ordering};
use std::sync::{Mutex, TryLockError};

const DEFAULT_FOREGROUND: (u8, u8, u8) = (192, 192, 192);
const DEFAULT_BACKGROUND: (u8, u8, u8) = (26, 26, 46);

fn size(width: u32, height: u32) -> PixelSize {
    PixelSize { width, height }
}

fn cell_area(x: i32, y: i32, width: u32, height: u32) -> ImeCursorArea {
    ImeCursorArea { x, y, size: size(width, height) }
}

fn snapshot_grid(grid: &Mutex<Grid>) -> Result<GridSnapshot, String> {
    let grid = grid.lock().map_err(|error| error.to_string())?;
    Ok(kokuban::window::snapshot::snapshot_grid(&grid))
}

fn snapshot_window_title(grid: &Mutex<Grid>) -> Result<String, String> {
    let grid = grid.lock().map_err(|error| error.to_string())?;
    Ok(kokuban::window::title::snapshot_window_title(&grid))
}

fn changed_window_title(grid: &Mutex<Grid>, observed: &mut String) -> Result<bool, String> {
    let grid = grid.lock().map_err(|error| error.to_string())?;
    Ok(kokuban::window::title::changed_window_title(&grid, observed))
}

fn reveal_ime_input_viewport(grid: &Mutex<Grid>) -> Result<bool, String> {
    let mut grid = grid.lock().map_err(|error| error.to_string())?;
    Ok(kokuban::window::state::reveal_ime_input_viewport(&mut grid))
}

fn set_grid_cell_dimensions(grid: &Mutex<Grid>, cell: (u16, u16)) -> Result<(), String> {
    let mut grid = grid.lock().map_err(|error| error.to_string())?;
    kokuban::window::state::set_grid_cell_dimensions(&mut grid, cell);
    Ok(())
}

fn sync_ime_cursor_area_with<F>(
    active: bool,
    last: &mut Option<ImeCursorArea>,
    next: Option<ImeCursorArea>,
    set_area: F,
) where
    F: FnOnce(ImeCursorArea),
{
    if let Some(area) = kokuban::window::state::sync_ime_cursor_area(active, last, next) {
        set_area(area);
    }
}

// Resize a terminal whose cells are one pixel large.
fn resize_terminal_with<F>(
    grid: &Mutex<Grid>,
    target: TerminalDimensions,
    resize_pty: F,
) -> Result<bool, WindowError>
where
    F: FnOnce(u16, u16) -> io::Result<()>,
{
    let mut grid = grid.lock().unwrap();
    let mut state = WindowState::<f64>::new(false);
    state.cell_dimensions = Some((1, 1));
    let surface = size(u32::from(target.columns), u32::from(target.rows));
    let changed = match state.resized(&grid, surface, None) {
        ResizeStep::Tell(target) => {
            let told = resize_pty(target.columns, target.rows).map_err(|error| error.to_string());
            state.finish_resize(&mut grid, target, told);
            true
        }
        _ => false,
    };
    state.finish().map(|()| changed)
}

// Colors as a simple terminal resolves them.
#[derive(Clone, Copy)]
struct TestColors {
    foreground: (u8, u8, u8),
    background: (u8, u8, u8),
}

fn test_colors() -> TestColors {
    TestColors { foreground: DEFAULT_FOREGROUND, background: DEFAULT_BACKGROUND }
}

fn packed(color: (u8, u8, u8)) -> u32 {
    rgb_to_xrgb(color.0, color.1, color.2)
}

fn resolve_color(color: Color, default: (u8, u8, u8), bright: bool) -> (u8, u8, u8) {
    match (color, bright) {
        (Color::Default, _) => default,
        (Color::Rgb(red, green, blue), _) => (red, green, blue),
        (Color::Indexed(1), true) => (241, 76, 76),
        (Color::Indexed(1), false) => (205, 49, 49),
        (Color::Indexed(4), false) => (36, 114, 200),
        (color, bright) => panic!("no test color for {color:?}, bright={bright}"),
    }
}

fn resolve_cell_colors(colors: TestColors, cell: &Cell) -> ResolvedCellColors {
    let bold = cell.flags.contains(CellFlags::BOLD);
    let mut foreground = resolve_color(cell.fg, colors.foreground, bold);
    let mut background = resolve_color(cell.bg, colors.background, false);
    if cell.flags.contains(CellFlags::REVERSE) {
        (foreground, background) = (background, foreground);
    }
    if cell.flags.contains(CellFlags::FAINT) {
        let mix = |a: u8, b: u8| ((u16::from(a) + u16::from(b)) / 2) as u8;
        foreground = (
            mix(foreground.0, background.0),
            mix(foreground.1, background.1),
            mix(foreground.2, background.2),
        );
    }
    ResolvedCellColors { foreground: packed(foreground), background: packed(background) }
}

fn cell_colors(colors: TestColors, cell: &Cell) -> CellColors {
    CellColors {
        text: resolve_cell_colors(colors, cell),
        underline: packed(resolve_color(cell.underline_color, colors.foreground, false)),
    }
}

fn resolve_cell_underline_color(colors: TestColors, cell: &Cell, foreground: u32) -> u32 {
    let mut resolved = cell_colors(colors, cell);
    resolved.text.foreground = foreground;
    kokuban::window::paint::resolve_cell_underline_color(resolved, cell)
}

fn screen_colors(colors: TestColors, snapshot: &GridSnapshot) -> ScreenColors {
    ScreenColors {
        cells: snapshot.cells.iter().map(|cell| cell_colors(colors, cell)).collect(),
        fallback: ResolvedCellColors {
            foreground: packed(colors.foreground),
            background: packed(colors.background),
        },
    }
}

fn ime_preedit_glyph_colors(
    colors: TestColors,
    snapshot: &GridSnapshot,
    glyph: &ImePreeditGlyph,
) -> (u32, u32) {
    let colors = screen_colors(colors, snapshot);
    kokuban::window::paint::ime_preedit_glyph_colors(&colors, snapshot, glyph)
}

fn ime_preedit_background_at(
    colors: TestColors,
    snapshot: &GridSnapshot,
    layout: &ImePreeditLayout,
    row: usize,
    column: usize,
) -> u32 {
    let colors = screen_colors(colors, snapshot);
    kokuban::window::paint::ime_preedit_background_at(&colors, snapshot, layout, row, column)
}

// The glyphs that were asked for, and the metrics of the font.
#[derive(Debug, Clone, Copy, PartialEq, Eq)]
struct GlyphKey {
    c: char,
    bold: bool,
    italic: bool,
}

struct TestAtlas {
    glyphs: Vec<GlyphKey>,
    cell_width: f32,
    cell_height: f32,
    ascent: f32,
}

fn test_atlas() -> TestAtlas {
    TestAtlas { glyphs: Vec::new(), cell_width: 8.6, cell_height: 17.4, ascent: 13.2 }
}

fn atlas_cell_dimensions(atlas: &TestAtlas) -> Result<(u16, u16), String> {
    Ok((atlas.cell_width.round() as u16, atlas.cell_height.round() as u16))
}

fn baseline(origin_y: i32, ascent: f32) -> Option<i32> {
    let rounded = (f64::from(origin_y) + f64::from(ascent)).round();
    rounded.is_finite().then_some(rounded as i32)
}

fn underline_anchor_y(top: i32, height: u32, ascent: f32, style: UnderlineStyle) -> Option<i32> {
    kokuban::window::underline::underline_anchor_y(top, height, baseline(top, ascent), style)
}

fn fill_rect(
    frame: &mut [u32],
    frame_size: (u32, u32),
    origin: (i32, i32),
    extent: (u32, u32),
    color: u32,
    alpha: u8,
) {
    let alpha = u32::from(alpha);
    for y in i64::from(origin.1)..i64::from(origin.1) + i64::from(extent.1) {
        for x in i64::from(origin.0)..i64::from(origin.0) + i64::from(extent.0) {
            if x < 0 || y < 0 || x >= i64::from(frame_size.0) || y >= i64::from(frame_size.1) {
                continue;
            }
            let pixel = &mut frame[(y * i64::from(frame_size.0) + x) as usize];
            let mut mixed = 0;
            for shift in [0, 8, 16] {
                let new = (color >> shift) & 0xff;
                let old = (*pixel >> shift) & 0xff;
                mixed |= ((new * alpha + old * (255 - alpha)) / 255) << shift;
            }
            *pixel = mixed;
        }
    }
}

fn draw_cell_underline(
    frame: &mut [u32],
    frame_size: (u32, u32),
    origin: (i32, i32),
    width: u32,
    height: u32,
    ascent: f32,
    style: UnderlineStyle,
    color: u32,
) {
    for stroke in underline_segments(origin, width, height, baseline(origin.1, ascent), style) {
        fill_rect(frame, frame_size, (stroke.x, stroke.y), (stroke.width, 1), color, 255);
    }
}

fn paint(frame: &mut [u32], frame_size: (u32, u32), atlas: &mut TestAtlas, paints: Vec<Paint>) {
    for step in paints {
        match step {
            Paint::Fill { origin, size, color, alpha } => {
                fill_rect(frame, frame_size, origin, size, color, alpha);
            }
            Paint::Glyph { character, bold, italic, .. } => {
                atlas.glyphs.push(GlyphKey { c: character, bold, italic });
            }
            Paint::Underline { origin, width, height, style, color } => {
                let ascent = atlas.ascent;
                draw_cell_underline(
                    frame, frame_size, origin, width, height, ascent, style, color,
                );
            }
        }
    }
}

fn draw_grid_snapshot(
    frame: &mut [u32],
    frame_size: (u32, u32),
    atlas: &mut TestAtlas,
    colors: TestColors,
    cell_dimensions: (u16, u16),
    snapshot: &GridSnapshot,
    with_cursor: bool,
) {
    let colors = screen_colors(colors, snapshot);
    let paints = kokuban::window::paint::draw_grid_snapshot(
        snapshot,
        &colors,
        cell_dimensions,
        with_cursor,
    );
    paint(frame, frame_size, atlas, paints);
}

fn draw_ime_preedit(
    frame: &mut [u32],
    frame_size: (u32, u32),
    atlas: &mut TestAtlas,
    colors: TestColors,
    cell_dimensions: (u16, u16),
    snapshot: &GridSnapshot,
    layout: &ImePreeditLayout,
) {
    let colors = screen_colors(colors, snapshot);
    let paints =
        kokuban::window::paint::draw_ime_preedit(snapshot, &colors, cell_dimensions, layout);
    paint(frame, frame_size, atlas, paints);
}

fn accepted_preedit(text: &str, cursor: Option<(usize, usize)>) -> ImePreedit {
    match ime_preedit_payload_with_limits(text.to_string(), cursor, usize::MAX, usize::MAX) {
        ImePreeditPayload::Text(preedit) => preedit,
        payload => panic!("expected accepted IME preedit, got {payload:?}"),
    }
}

fn grid_with_scrollback(rows: usize, history_lines: usize) -> Grid {
    let mut grid = Grid::new(8, rows, history_lines + rows);
    grid.cursor_row = rows - 1;
    for _ in 0..history_lines {
        grid.newline();
    }
    assert_eq!(grid.scrollback_len(), history_lines);
    grid
}

fn render_grid(grid: Grid, atlas: &mut TestAtlas) -> (Vec<u32>, (u16, u16)) {
    let columns = grid.cols();
    let rows = grid.rows();
    let cell_dimensions =
        atlas_cell_dimensions(atlas).expect("test atlas should have valid cell metrics");
    let frame_size = (
        u32::try_from(columns).expect("test grid width should fit u32")
            * u32::from(cell_dimensions.0),
        u32::try_from(rows).expect("test grid height should fit u32")
            * u32::from(cell_dimensions.1),
    );
    let frame_len = usize::try_from(u64::from(frame_size.0) * u64::from(frame_size.1))
        .expect("test frame should fit memory");
    let background = rgb_to_xrgb(
        DEFAULT_BACKGROUND.0,
        DEFAULT_BACKGROUND.1,
        DEFAULT_BACKGROUND.2,
    );
    let mut frame = vec![background; frame_len];
    let grid = Mutex::new(grid);
    let snapshot = snapshot_grid(&grid).expect("test grid should not be poisoned");

    draw_grid_snapshot(
        &mut frame,
        frame_size,
        atlas,
        test_colors(),
        cell_dimensions,
        &snapshot,
        true,
    );

    (frame, cell_dimensions)
}

fn render_preedit(
    grid: Grid,
    preedit: &ImePreedit,
    atlas: &mut TestAtlas,
) -> (Vec<u32>, (u16, u16), ImePreeditLayout) {
    let columns = grid.cols();
    let rows = grid.rows();
    let cell_dimensions =
        atlas_cell_dimensions(atlas).expect("test atlas should have valid cell metrics");
    let frame_size = (
        u32::try_from(columns).expect("test grid width should fit u32")
            * u32::from(cell_dimensions.0),
        u32::try_from(rows).expect("test grid height should fit u32")
            * u32::from(cell_dimensions.1),
    );
    let frame_len = usize::try_from(u64::from(frame_size.0) * u64::from(frame_size.1))
        .expect("test preedit frame should fit memory");
    let background = rgb_to_xrgb(
        DEFAULT_BACKGROUND.0,
        DEFAULT_BACKGROUND.1,
        DEFAULT_BACKGROUND.2,
    );
    let mut frame = vec![background; frame_len];
    let grid = Mutex::new(grid);
    let snapshot = snapshot_grid(&grid).expect("test grid should not be poisoned");
    let layout = layout_ime_preedit_for_snapshot(preedit, &snapshot);

    draw_grid_snapshot(
        &mut frame,
        frame_size,
        atlas,
        test_colors(),
        cell_dimensions,
        &snapshot,
        false,
    );
    draw_ime_preedit(
        &mut frame,
        frame_size,
        atlas,
        test_colors(),
        cell_dimensions,
        &snapshot,
        &layout,
    );

    (frame, cell_dimensions, layout)
}

#[test]
fn converts_rgb_to_softbuffer_xrgb() {
    assert_eq!(rgb_to_xrgb(0x1a, 0x2b, 0x3c), 0x001a_2b3c);
    assert_eq!(rgb_to_xrgb(0xff, 0xff, 0xff) >> 24, 0);
}

#[test]
fn terminal_query_colors_are_canonical_six_digit_hex() {
    assert_eq!(terminal_color_query_value((0, 10, 255)), "000aff");
}

#[test]
fn window_title_snapshot_reads_the_latest_grid_title() {
    let mut grid = Grid::new(2, 1, 0);
    grid.set_title("Codex — kokuban");

    let title =
        snapshot_window_title(&Mutex::new(grid)).expect("title snapshot should succeed");

    assert_eq!(title, "Codex — kokuban");
}

#[test]
fn window_title_change_detection_is_independent_from_frame_redraws() {
    let grid = Mutex::new(Grid::new(2, 1, 0));
    let mut observed_title = WINDOW_TITLE.to_string();

    assert!(!changed_window_title(&grid, &mut observed_title).expect("Grid should be readable"));
    grid.lock()
        .expect("Grid should lock")
        .set_title("btop\0 — 日本");
    assert!(changed_window_title(&grid, &mut observed_title).expect("Grid should be readable"));
    assert_eq!(observed_title, "btop — 日本");
    assert!(!changed_window_title(&grid, &mut observed_title).expect("Grid should be readable"));
    grid.lock().expect("Grid should lock").set_title("\0\n");
    assert!(changed_window_title(&grid, &mut observed_title).expect("Grid should be readable"));
    assert_eq!(observed_title, WINDOW_TITLE);
}

#[test]
fn window_title_events_coalesce_while_preserving_the_latest_value() {
    let grid = Mutex::new(Grid::new(2, 1, 0));
    let pending = RefCell::new(UpdateNotice { pending: false });
    let mut observed_title = WINDOW_TITLE.to_string();

    grid.lock().expect("Grid should lock").set_title("first");
    assert!(changed_window_title(&grid, &mut observed_title).expect("Grid should be readable"));
    assert!(pending.borrow_mut().arm());

    grid.lock().expect("Grid should lock").set_title("latest");
    assert!(changed_window_title(&grid, &mut observed_title).expect("Grid should be readable"));
    assert!(!pending.borrow_mut().arm());

    pending.borrow_mut().begin();
    assert_eq!(
        snapshot_window_title(&grid).expect("latest title should be readable"),
        "latest"
    );
    grid.lock().expect("Grid should lock").set_title("after");
    assert!(changed_window_title(&grid, &mut observed_title).expect("Grid should be readable"));
    assert!(pending.borrow_mut().arm());
}

#[test]
fn initial_dimensions_follow_the_configured_grid() {
    let size = initial_window_dimensions(80, 24);
    assert_eq!(size.width, 800);
    assert_eq!(size.height, 480);
}

#[test]
fn initial_dimensions_never_start_at_zero() {
    let size = initial_window_dimensions(0, 0);
    assert_eq!(size.width, 10);
    assert_eq!(size.height, 20);
}

#[test]
fn initial_placeholder_dimensions_respect_the_logical_size_budget() {
    let size = initial_window_dimensions(u16::MAX, u16::MAX);
    assert_eq!(size.width, MAX_INITIAL_LOGICAL_WIDTH);
    assert_eq!(size.height, MAX_INITIAL_LOGICAL_HEIGHT);
}

#[test]
fn configured_dimensions_are_clamped_before_allocating_grid_or_pty() {
    assert_eq!(
        configured_terminal_dimensions(0, 0),
        TerminalDimensions {
            columns: 1,
            rows: 1,
        }
    );
    assert_eq!(
        configured_terminal_dimensions(u16::MAX, u16::MAX),
        TerminalDimensions {
            columns: MAX_TERMINAL_COLUMNS,
            rows: MAX_TERMINAL_ROWS,
        }
    );
    assert_eq!(
        configured_terminal_dimensions(80, 24),
        TerminalDimensions {
            columns: 80,
            rows: 24,
        }
    );
}

#[test]
fn immediate_surface_sizes_reconcile_and_stale_events_are_filtered() {
    let requested = size(800, 480);
    let constrained = size(790, 470);

    assert_eq!(immediate_surface_size_to_reconcile(None), None);
    assert_eq!(
        immediate_surface_size_to_reconcile(Some(requested)),
        Some(requested)
    );
    assert_eq!(
        immediate_surface_size_to_reconcile(Some(constrained)),
        Some(constrained)
    );
    assert!(is_current_surface_size(constrained, constrained));
    assert!(!is_current_surface_size(requested, constrained));
}

#[test]
fn unchanged_capped_surface_reconciles_after_cell_metrics_grow() {
    let configured = TerminalDimensions {
        columns: 512,
        rows: 135,
    };
    let current_surface = physical_size_for_terminal(configured, (16, 32))
        .expect("the first cell metrics should produce a valid surface");
    let grown_cell_dimensions = (32, 64);
    let requested = physical_size_for_terminal(configured, grown_cell_dimensions)
        .expect("the grown cell metrics should produce a capped request");
    assert_eq!(
        current_surface,
        size(MAX_REQUESTED_PHYSICAL_WIDTH, MAX_REQUESTED_PHYSICAL_HEIGHT)
    );
    assert_eq!(requested, current_surface);
    let target = terminal_dimensions_for_surface(requested, grown_cell_dimensions)
        .expect("the capped physical size should map to a terminal grid");
    let grid = Mutex::new(Grid::new(
        usize::from(configured.columns),
        usize::from(configured.rows),
        0,
    ));
    let pty_size = RefCell::new(None);

    assert!(resize_terminal_with(&grid, target, |columns, rows| {
        pty_size.replace(Some((columns, rows)));
        Ok(())
    })
    .expect("the unchanged capped size should reconcile successfully"));
    assert_eq!(pty_size.into_inner(), Some((256, 67)));
    let grid = grid
        .lock()
        .expect("reconciled grid should remain available");
    assert_eq!((grid.cols(), grid.rows()), (256, 67));
}

#[test]
fn surface_dimensions_use_floor_minimum_and_memory_budget_limits() {
    let cells = |width, height| {
        terminal_dimensions_for_surface(size(width, height), (10, 20))
    };

    assert_eq!(cells(0, 480), None);
    assert_eq!(cells(800, 0), None);
    assert_eq!(
        terminal_dimensions_for_surface(size(800, 480), (0, 20)),
        None
    );
    assert_eq!(
        cells(9, 19),
        Some(TerminalDimensions {
            columns: 1,
            rows: 1,
        })
    );
    assert_eq!(
        cells(29, 59),
        Some(TerminalDimensions {
            columns: 2,
            rows: 2,
        })
    );
    assert_eq!(
        cells(u32::MAX, u32::MAX),
        Some(TerminalDimensions {
            columns: MAX_TERMINAL_COLUMNS,
            rows: MAX_TERMINAL_ROWS,
        })
    );
}

#[test]
fn physical_grid_size_is_checked_and_dpi_metrics_preserve_rows_and_columns() {
    let maximum = TerminalDimensions {
        columns: u16::MAX,
        rows: u16::MAX,
    };
    let maximum_size = physical_size_for_terminal(maximum, (u16::MAX, u16::MAX))
        .expect("u16 terminal and cell products should fit u32");
    assert_eq!(
        maximum_size,
        size(MAX_REQUESTED_PHYSICAL_WIDTH, MAX_REQUESTED_PHYSICAL_HEIGHT,)
    );
    assert_eq!(
        physical_size_for_terminal(
            TerminalDimensions {
                columns: 0,
                rows: 24,
            },
            (10, 20),
        ),
        None
    );

    let grid = TerminalDimensions {
        columns: 80,
        rows: 24,
    };
    for cell_dimensions in [(8, 16), (13, 29), (24, 48)] {
        let physical_size = physical_size_for_terminal(grid, cell_dimensions)
            .expect("normal DPI dimensions should fit");
        assert_eq!(
            terminal_dimensions_for_surface(physical_size, cell_dimensions),
            Some(grid)
        );
    }

    let capped = physical_size_for_terminal(
        TerminalDimensions {
            columns: MAX_TERMINAL_COLUMNS,
            rows: MAX_TERMINAL_ROWS,
        },
        (20, 30),
    )
    .expect("large terminal requests should be capped, not overflow");
    assert_eq!(
        capped,
        size(MAX_REQUESTED_PHYSICAL_WIDTH, MAX_REQUESTED_PHYSICAL_HEIGHT,)
    );
    assert_ne!(
        terminal_dimensions_for_surface(capped, (20, 30)),
        Some(TerminalDimensions {
            columns: MAX_TERMINAL_COLUMNS,
            rows: MAX_TERMINAL_ROWS,
        }),
        "a capped window request must be reconciled by the following resize event"
    );
}

#[test]
fn resize_transaction_calls_pty_before_grid_commit() {
    let order = RefCell::new(Vec::new());
    let grid = Mutex::new(Grid::new(80, 24, 0));
    let target = TerminalDimensions {
        columns: 100,
        rows: 30,
    };
    let mut state = WindowState::<f64>::new(false);
    state.cell_dimensions = Some((1, 1));

    let step = state.resized(&grid.lock().unwrap(), size(100, 30), None);
    assert_eq!(step, ResizeStep::Tell(target));
    let mut grid = grid.into_inner().unwrap();
    assert_eq!((grid.cols(), grid.rows()), (80, 24));
    order.borrow_mut().push("pty");
    state.finish_resize(&mut grid, target, Ok(()));
    if (grid.cols(), grid.rows()) == (100, 30) {
        order.borrow_mut().push("grid");
    }
    assert_eq!(order.into_inner(), ["pty", "grid"]);
}

#[test]
fn unchanged_terminal_dimensions_do_not_call_the_pty() {
    let grid = Mutex::new(Grid::new(80, 24, 0));
    let pty_calls = AtomicUsize::new(0);
    {
        let mut grid = grid.lock().expect("test grid should be available");
        grid.cursor_row = 7;
        grid.cursor_col = 80;
        grid.scroll_top = 3;
        grid.scroll_bottom = 20;
        grid.dirty[0] = false;
        grid.buffer.cell_mut(0, 0).c = 'x';
    }

    assert!(!resize_terminal_with(
        &grid,
        TerminalDimensions {
            columns: 80,
            rows: 24,
        },
        |_, _| {
            pty_calls.fetch_add(1, Ordering::Relaxed);
            Ok(())
        },
    )
    .expect("unchanged dimensions should be a no-op"));
    assert_eq!(pty_calls.load(Ordering::Relaxed), 0);
    let grid = grid.lock().expect("no-op should keep grid available");
    assert_eq!((grid.cols(), grid.rows()), (80, 24));
    assert_eq!((grid.cursor_row, grid.cursor_col), (7, 80));
    assert_eq!((grid.scroll_top, grid.scroll_bottom), (3, 20));
    assert!(!grid.dirty[0]);
    assert_eq!(grid.buffer.cell(0, 0).c, 'x');
}

#[test]
fn failed_pty_resize_preserves_grid_dimensions() {
    let grid = Mutex::new(Grid::new(80, 24, 0));
    {
        let mut grid = grid.lock().expect("test grid should be available");
        grid.cursor_row = 7;
        grid.cursor_col = 80;
        grid.scroll_top = 3;
        grid.scroll_bottom = 20;
        grid.dirty[0] = false;
        grid.buffer.cell_mut(0, 0).c = 'x';
    }
    let error = resize_terminal_with(
        &grid,
        TerminalDimensions {
            columns: 100,
            rows: 30,
        },
        |_, _| Err(io::Error::from_raw_os_error(5)),
    )
    .expect_err("fake PTY failure should abort the transaction");

    let WindowError::Resize { target, message } = &error else {
        panic!("expected a PTY resize error");
    };
    assert_eq!((target.columns, target.rows), (100, 30));
    assert_eq!(message, &io::Error::from_raw_os_error(5).to_string());
    let grid = grid
        .lock()
        .expect("failed PTY resize should not poison grid");
    assert_eq!((grid.cols(), grid.rows()), (80, 24));
    assert_eq!((grid.cursor_row, grid.cursor_col), (7, 80));
    assert_eq!((grid.scroll_top, grid.scroll_bottom), (3, 20));
    assert!(!grid.dirty[0]);
    assert_eq!(grid.buffer.cell(0, 0).c, 'x');
}

#[test]
fn successful_terminal_resize_updates_pty_and_grid() {
    let grid = Mutex::new(Grid::new(80, 24, 0));
    let pty_size = RefCell::new(None);

    assert!(resize_terminal_with(
        &grid,
        TerminalDimensions {
            columns: 100,
            rows: 30,
        },
        |columns, rows| {
            assert!(matches!(grid.try_lock(), Err(TryLockError::WouldBlock)));
            pty_size.replace(Some((columns, rows)));
            Ok(())
        },
    )
    .expect("fake PTY resize should commit"));

    assert_eq!(pty_size.into_inner(), Some((100, 30)));
    let grid = grid
        .lock()
        .expect("successful resize should keep grid available");
    assert_eq!((grid.cols(), grid.rows()), (100, 30));
}

#[test]
fn only_final_ime_commits_become_terminal_payloads() {
    let mut grid = Grid::new(8, 2, 0);
    let mut state = WindowState::<f64>::new(false);
    let mut written = Vec::new();

    state.ime_enabled();
    state.ime_composed(&mut grid, "に".to_string(), Some((3, 3)));
    assert_eq!(state.ime_preedit.as_ref().unwrap().text, "に");
    state.ime_composed(&mut grid, String::new(), None);
    assert!(state.ime_preedit.is_none());
    state.ime_disabled();
    state.ime_enabled();

    let (_, plan) = state.ime_committed(&mut grid, "日".to_string());
    if let Some(InputPlan::Send { bytes, .. }) = plan {
        written.extend_from_slice(&bytes);
    }
    assert_eq!(written, "日".as_bytes());
}

#[test]
fn ime_preedit_preserves_utf8_ranges_and_hides_malformed_cursors() {
    let text = "aé日🙂";
    for boundary in [0, 1, 3, 6, 10] {
        let preedit = accepted_preedit(text, Some((boundary, boundary)));
        assert_eq!(
            preedit.cursor,
            Some(ImePreeditCursor {
                selection_start: boundary,
                selection_end: boundary,
                caret: boundary,
            })
        );
    }

    let reverse = accepted_preedit(text, Some((10, 1)));
    assert_eq!(
        reverse.cursor,
        Some(ImePreeditCursor {
            selection_start: 1,
            selection_end: 10,
            caret: 1,
        }),
        "the second directional endpoint remains the active caret"
    );

    for malformed in [Some((2, 3)), Some((1, 7)), Some((0, 11))] {
        let preedit = accepted_preedit(text, malformed);
        assert_eq!(preedit.text, text);
        assert_eq!(preedit.cursor, None);
    }
    assert_eq!(accepted_preedit(text, None).cursor, None);
}

#[test]
fn ime_preedit_limits_are_atomic_and_never_truncate_utf8() {
    assert_eq!(
        ime_preedit_payload_with_limits(String::new(), Some((0, 0)), 0, 0),
        ImePreeditPayload::Clear
    );

    let exact_bytes = "é".repeat(MAX_IME_PREEDIT_BYTES / "é".len());
    assert_eq!(exact_bytes.len(), MAX_IME_PREEDIT_BYTES);
    assert!(matches!(
        ime_preedit_payload_with_limits(
            exact_bytes.clone(),
            None,
            MAX_IME_PREEDIT_BYTES,
            usize::MAX,
        ),
        ImePreeditPayload::Text(ImePreedit { text, .. }) if text == exact_bytes
    ));
    assert_eq!(
        ime_preedit_payload_with_limits(
            format!("{exact_bytes}x"),
            None,
            MAX_IME_PREEDIT_BYTES,
            usize::MAX,
        ),
        ImePreeditPayload::TooManyBytes {
            byte_count: MAX_IME_PREEDIT_BYTES + 1,
            limit: MAX_IME_PREEDIT_BYTES,
        }
    );

    let exact_cells = "x".repeat(MAX_IME_PREEDIT_RENDER_CELLS);
    assert!(matches!(
        ime_preedit_payload_with_limits(
            exact_cells,
            None,
            usize::MAX,
            MAX_IME_PREEDIT_RENDER_CELLS,
        ),
        ImePreeditPayload::Text(_)
    ));
    assert_eq!(
        ime_preedit_payload_with_limits(
            "x".repeat(MAX_IME_PREEDIT_RENDER_CELLS + 1),
            None,
            usize::MAX,
            MAX_IME_PREEDIT_RENDER_CELLS,
        ),
        ImePreeditPayload::TooManyRenderCells {
            cell_count: MAX_IME_PREEDIT_RENDER_CELLS + 1,
            limit: MAX_IME_PREEDIT_RENDER_CELLS,
        }
    );

    let mut visible = Some(accepted_preedit("old", None));
    assert!(replace_ime_preedit(&mut visible, None));
    assert_eq!(
        visible, None,
        "a rejected update must clear the old overlay"
    );
    assert!(!replace_ime_preedit(&mut visible, None));
}

#[test]
fn ime_preedit_layout_handles_wide_combining_selection_and_controls() {
    let preedit = accepted_preedit("A日🙂\u{301}B", Some((10, 4)));
    let layout = layout_ime_preedit(&preedit, (0, 0), (6, 2));

    assert_eq!(
        layout.glyphs,
        vec![
            ImePreeditGlyph {
                character: 'A',
                byte_start: 0,
                byte_end: 1,
                row: 0,
                column: 0,
                width: 1,
                selected: false,
            },
            ImePreeditGlyph {
                character: '日',
                byte_start: 1,
                byte_end: 4,
                row: 0,
                column: 1,
                width: 2,
                selected: false,
            },
            ImePreeditGlyph {
                character: '🙂',
                byte_start: 4,
                byte_end: 8,
                row: 0,
                column: 3,
                width: 2,
                selected: true,
            },
            ImePreeditGlyph {
                character: '\u{301}',
                byte_start: 8,
                byte_end: 10,
                row: 0,
                column: 3,
                width: 0,
                selected: true,
            },
            ImePreeditGlyph {
                character: 'B',
                byte_start: 10,
                byte_end: 11,
                row: 0,
                column: 5,
                width: 1,
                selected: false,
            },
        ]
    );
    assert_eq!(layout.caret_cell, Some((0, 3)));

    let controls = accepted_preedit("\0\t\n\r\u{1b}\u{7f}", None);
    let control_layout = layout_ime_preedit(&controls, (0, 0), (8, 1));
    assert_eq!(control_layout.glyphs.len(), 6);
    for (column, glyph) in control_layout.glyphs.iter().enumerate() {
        assert_eq!(glyph.character, IME_PREEDIT_REPLACEMENT);
        assert_eq!(glyph.column, column);
        assert_eq!(glyph.width, 1);
        assert_eq!((glyph.byte_start, glyph.byte_end), (column, column + 1));
    }
}

#[test]
fn ime_preedit_cluster_selection_keeps_base_and_combining_colors_coherent() {
    for cursor in [Some((0, 1)), Some((1, 3))] {
        let layout = layout_ime_preedit(&accepted_preedit("e\u{301}", cursor), (0, 0), (4, 1));
        assert_eq!(layout.glyphs.len(), 2);
        assert!(layout.glyphs.iter().all(|glyph| glyph.selected));
        assert!(layout
            .glyphs
            .iter()
            .all(|glyph| (glyph.row, glyph.column) == (0, 0)));
    }

    let unselected =
        layout_ime_preedit(&accepted_preedit("e\u{301}", Some((3, 3))), (0, 0), (4, 1));
    assert!(unselected.glyphs.iter().all(|glyph| !glyph.selected));

    let wide = layout_ime_preedit(&accepted_preedit("日\u{301}", Some((3, 5))), (0, 0), (4, 1));
    assert_eq!(wide.glyphs[0].width, 2);
    assert_eq!(wide.glyphs[1].width, 0);
    assert!(wide.glyphs.iter().all(|glyph| glyph.selected));
    assert!(wide
        .glyphs
        .iter()
        .all(|glyph| (glyph.row, glyph.column) == (0, 0)));
}

#[test]
fn ime_preedit_layout_wraps_without_half_wide_glyphs_and_clips_at_bottom() {
    let ascii = layout_ime_preedit(&accepted_preedit("abc", Some((3, 3))), (0, 3), (4, 3));
    assert_eq!(
        ascii
            .glyphs
            .iter()
            .map(|glyph| (glyph.character, glyph.row, glyph.column))
            .collect::<Vec<_>>(),
        [('a', 0, 3), ('b', 1, 0), ('c', 1, 1)]
    );
    assert_eq!(ascii.caret_cell, Some((1, 2)));

    let wide = layout_ime_preedit(&accepted_preedit("日", Some((3, 3))), (0, 3), (4, 3));
    assert_eq!((wide.glyphs[0].row, wide.glyphs[0].column), (1, 0));
    assert_eq!(wide.glyphs[0].width, 2);
    assert_eq!(wide.caret_cell, Some((1, 2)));

    let pending = layout_ime_preedit(&accepted_preedit("a", Some((1, 1))), (0, 4), (4, 3));
    assert_eq!((pending.glyphs[0].row, pending.glyphs[0].column), (1, 0));

    let pending_start =
        layout_ime_preedit(&accepted_preedit("a", Some((0, 0))), (0, 4), (4, 3));
    assert_eq!(pending_start.caret_cell, Some((1, 0)));
    assert_eq!(
        (pending_start.glyphs[0].row, pending_start.glyphs[0].column),
        (1, 0),
        "a caret before a wrapped glyph must follow it onto the next line"
    );

    let wide_start = layout_ime_preedit(&accepted_preedit("日", Some((0, 0))), (0, 3), (4, 3));
    assert_eq!(wide_start.caret_cell, Some((1, 0)));
    assert_eq!(
        (wide_start.glyphs[0].row, wide_start.glyphs[0].column),
        (1, 0)
    );

    let clipped = layout_ime_preedit(&accepted_preedit("ab", Some((2, 2))), (1, 3), (4, 2));
    assert_eq!(clipped.glyphs.len(), 1);
    assert_eq!((clipped.glyphs[0].row, clipped.glyphs[0].column), (1, 3));
    assert_eq!(clipped.caret_cell, Some((1, 3)));

    let clipped_wide =
        layout_ime_preedit(&accepted_preedit("a日", Some((4, 4))), (1, 2), (4, 2));
    assert_eq!(clipped_wide.glyphs.len(), 1);
    assert_eq!(
        (clipped_wide.glyphs[0].row, clipped_wide.glyphs[0].column),
        (1, 2)
    );
    assert_eq!(
        clipped_wide.caret_cell,
        Some((1, 2)),
        "an offscreen wide glyph must anchor the caret to the last visible preedit cell"
    );

    let clipped_wide_at_edge =
        layout_ime_preedit(&accepted_preedit("a日", Some((4, 4))), (1, 3), (4, 2));
    assert_eq!(clipped_wide_at_edge.glyphs.len(), 1);
    assert_eq!(
        (
            clipped_wide_at_edge.glyphs[0].row,
            clipped_wide_at_edge.glyphs[0].column
        ),
        (1, 3)
    );
    assert_eq!(clipped_wide_at_edge.caret_cell, Some((1, 3)));

    let one_column = layout_ime_preedit(&accepted_preedit("日", None), (0, 0), (1, 1));
    assert_eq!(one_column.glyphs[0].character, IME_PREEDIT_REPLACEMENT);
    assert_eq!(one_column.glyphs[0].width, 1);

    let leading_combining =
        layout_ime_preedit(&accepted_preedit("\u{301}", None), (0, 2), (4, 1));
    assert_eq!(
        (
            leading_combining.glyphs[0].row,
            leading_combining.glyphs[0].column
        ),
        (0, 2)
    );
    assert_eq!(leading_combining.glyphs[0].width, 0);
}

#[test]
fn ime_preedit_obeys_disabled_auto_wrap_at_the_right_margin() {
    let no_wrap = |text: &str, input_cursor| {
        layout_ime_preedit_with_mode(
            &accepted_preedit(text, Some((text.len(), text.len()))),
            input_cursor,
            (4, 2),
            false,
            None,
        )
    };

    let pending = no_wrap("ab", (0, 4));
    assert_eq!(
        pending
            .glyphs
            .iter()
            .map(|glyph| (glyph.character, glyph.row, glyph.column))
            .collect::<Vec<_>>(),
        [('b', 0, 3)]
    );
    assert_eq!(pending.caret_cell, Some((0, 3)));

    let narrow = no_wrap("abc", (0, 2));
    assert_eq!(
        narrow
            .glyphs
            .iter()
            .map(|glyph| (glyph.character, glyph.row, glyph.column))
            .collect::<Vec<_>>(),
        [('a', 0, 2), ('c', 0, 3)]
    );
    assert_eq!(narrow.caret_cell, Some((0, 3)));

    let ignored_wide = no_wrap("a日", (0, 2));
    assert_eq!(ignored_wide.glyphs.len(), 1);
    assert_eq!(ignored_wide.glyphs[0].character, 'a');
    assert_eq!(ignored_wide.caret_cell, Some((0, 3)));

    let overwritten_wide = no_wrap("日x", (0, 2));
    assert_eq!(overwritten_wide.glyphs.len(), 1);
    assert_eq!(overwritten_wide.glyphs[0].character, 'x');
    assert_eq!(
        (
            overwritten_wide.glyphs[0].row,
            overwritten_wide.glyphs[0].column
        ),
        (0, 3)
    );
    assert_eq!(overwritten_wide.cleared_cells, [(0, 2)]);
    assert_eq!(overwritten_wide.caret_cell, Some((0, 3)));

    let ignored_wide_before_combining = no_wrap("日本\u{301}", (0, 2));
    assert_eq!(ignored_wide_before_combining.glyphs.len(), 1);
    assert_eq!(ignored_wide_before_combining.glyphs[0].character, '\u{301}');
    assert_eq!(
        (
            ignored_wide_before_combining.glyphs[0].row,
            ignored_wide_before_combining.glyphs[0].column
        ),
        (0, 3)
    );
    assert_eq!(ignored_wide_before_combining.cleared_cells, [(0, 2)]);

    let ignored_wide_breaks_the_previous_cluster = no_wrap("ab日\u{301}", (0, 2));
    assert_eq!(
        ignored_wide_breaks_the_previous_cluster
            .glyphs
            .iter()
            .map(|glyph| (glyph.character, glyph.row, glyph.column))
            .collect::<Vec<_>>(),
        [('a', 0, 2), ('\u{301}', 0, 3)]
    );
}

#[test]
fn ime_preedit_uses_pending_wrap_with_the_physical_cursor_after_resize() {
    // A wrap that is pending left of the margin, as on a screen that grew.
    let resized_snapshot = |auto_wrap| {
        let mut cells: Vec<Cell> = (0..10).map(|_| Cell::default()).collect();
        for (column, character) in ['a', 'b', 'c'].into_iter().enumerate() {
            cells[column].c = character;
        }
        GridSnapshot {
            columns: 5,
            rows: 2,
            cells,
            cursor: None,
            input_cursor: (0, 2),
            wrap_pending: true,
            auto_wrap,
        }
    };

    let wrapping = resized_snapshot(true);
    assert_eq!(wrapping.input_cursor, (0, 2));
    assert!(wrapping.wrap_pending);
    let wrapping_layout =
        layout_ime_preedit_for_snapshot(&accepted_preedit("X", None), &wrapping);
    assert_eq!(
        wrapping_layout
            .glyphs
            .iter()
            .map(|glyph| (glyph.character, glyph.row, glyph.column))
            .collect::<Vec<_>>(),
        [('X', 1, 0)]
    );

    let overwriting = resized_snapshot(false);
    assert_eq!(overwriting.input_cursor, (0, 2));
    assert!(overwriting.wrap_pending);
    let overwriting_layout =
        layout_ime_preedit_for_snapshot(&accepted_preedit("X", None), &overwriting);
    assert_eq!(
        overwriting_layout
            .glyphs
            .iter()
            .map(|glyph| (glyph.character, glyph.row, glyph.column))
            .collect::<Vec<_>>(),
        [('X', 0, 2)]
    );
}

#[test]
fn ime_preedit_clears_an_underlying_wide_leader_without_auto_wrap() {
    let mut grid = Grid::new(4, 1, 0);
    grid.set_auto_wrap(false);
    grid.set_cursor_pos(0, 2);
    grid.put_char('日');
    let snapshot = snapshot_grid(&Mutex::new(grid)).expect("snapshot should succeed");

    let layout =
        layout_ime_preedit_for_snapshot(&accepted_preedit("x", Some((1, 1))), &snapshot);

    assert!(!snapshot.auto_wrap);
    assert_eq!(layout.glyphs.len(), 1);
    assert_eq!(layout.glyphs[0].character, 'x');
    assert_eq!((layout.glyphs[0].row, layout.glyphs[0].column), (0, 3));
    assert_eq!(layout.cleared_cells, [(0, 2)]);
    assert_eq!(layout.caret_cell, Some((0, 3)));

    let combining =
        layout_ime_preedit_for_snapshot(&accepted_preedit("\u{301}", Some((2, 2))), &snapshot);
    assert_eq!(combining.glyphs.len(), 1);
    assert_eq!(combining.glyphs[0].character, '\u{301}');
    assert_eq!(
        (combining.glyphs[0].row, combining.glyphs[0].column),
        (0, 3)
    );
    assert_eq!(combining.cleared_cells, [(0, 2)]);
}

#[test]
fn ime_preedit_colors_project_a_wide_continuation_to_its_leader() {
    let mut grid = Grid::new(4, 1, 0);
    grid.modes.cursor_visible = false;
    grid.set_auto_wrap(false);
    grid.set_cursor_pos(0, 2);
    grid.pen.fg = Color::Rgb(17, 34, 51);
    grid.pen.bg = Color::Rgb(68, 85, 102);
    grid.pen.flags = CellFlags::from_bits(CellFlags::REVERSE);
    grid.put_char('日');
    let snapshot = snapshot_grid(&Mutex::new(grid)).expect("snapshot should succeed");
    let layout = layout_ime_preedit_for_snapshot(&accepted_preedit("x", None), &snapshot);
    let glyph = layout
        .glyphs
        .first()
        .expect("preedit glyph should be visible");
    assert_eq!((glyph.row, glyph.column), (0, 3));

    let colors = test_colors();
    let leader_colors = resolve_cell_colors(
        colors,
        snapshot
            .cell(0, 2)
            .expect("wide leader should be available in the snapshot"),
    );
    assert_eq!(
        ime_preedit_glyph_colors(colors, &snapshot, glyph),
        (leader_colors.foreground, leader_colors.background)
    );
    assert_eq!(
        ime_preedit_background_at(colors, &snapshot, &ImePreeditLayout::default(), 0, 3,),
        leader_colors.background
    );
}

#[test]
fn ime_preedit_reveals_live_input_and_replaces_provisional_state() {
    let mut history = grid_with_scrollback(3, 5);
    history.scroll_viewport_up(history.scrollback_len());
    let grid = Mutex::new(history);
    let mut state = None;

    assert!(reveal_ime_input_viewport(&grid).expect("fresh Grid should reveal input"));
    assert_eq!(
        grid.lock()
            .expect("preedit reveal should release the Grid lock")
            .scroll_offset,
        0
    );
    assert!(!reveal_ime_input_viewport(&grid).expect("visible input should be a no-op"));

    let first = accepted_preedit("に", Some((3, 3)));
    let second = accepted_preedit("日本", Some((6, 6)));
    assert!(replace_ime_preedit(&mut state, Some(first)));
    let unchanged = state.clone();
    assert!(!replace_ime_preedit(&mut state, unchanged));
    assert!(replace_ime_preedit(&mut state, Some(second.clone())));
    assert_eq!(state, Some(second));
    assert!(replace_ime_preedit(&mut state, None));
    assert_eq!(state, None);
}

#[test]
fn ime_preedit_render_uses_reverse_selection_underline_and_topmost_caret() {
    let grid = Mutex::new(Grid::new(3, 1, 0));
    let snapshot = snapshot_grid(&grid).expect("fresh Grid snapshot should succeed");
    let preedit = accepted_preedit("  ", Some((0, 1)));
    let layout = layout_ime_preedit(&preedit, snapshot.input_cursor, (3, 1));
    assert_eq!(layout.caret_cell, Some((0, 1)));

    let mut atlas = test_atlas();
    let cell_dimensions =
        atlas_cell_dimensions(&atlas).expect("test atlas should have valid metrics");
    let cell_width = u32::from(cell_dimensions.0);
    let cell_height = u32::from(cell_dimensions.1);
    assert!(cell_width > CURSOR_THICKNESS);
    assert!(cell_height > CURSOR_THICKNESS);
    let frame_size = (cell_width * 3, cell_height);
    let mut frame = vec![
        rgb_to_xrgb(
            DEFAULT_BACKGROUND.0,
            DEFAULT_BACKGROUND.1,
            DEFAULT_BACKGROUND.2,
        );
        usize::try_from(frame_size.0 * frame_size.1)
            .expect("small preedit frame should fit usize")
    ];
    draw_grid_snapshot(
        &mut frame,
        frame_size,
        &mut atlas,
        test_colors(),
        cell_dimensions,
        &snapshot,
        false,
    );
    draw_ime_preedit(
        &mut frame,
        frame_size,
        &mut atlas,
        test_colors(),
        cell_dimensions,
        &snapshot,
        &layout,
    );

    let pixel = |x: u32, y: u32| {
        let index = usize::try_from(y * frame_size.0 + x)
            .expect("small preedit pixel should fit usize");
        frame[index]
    };
    let foreground = rgb_to_xrgb(
        DEFAULT_FOREGROUND.0,
        DEFAULT_FOREGROUND.1,
        DEFAULT_FOREGROUND.2,
    );
    let background = rgb_to_xrgb(
        DEFAULT_BACKGROUND.0,
        DEFAULT_BACKGROUND.1,
        DEFAULT_BACKGROUND.2,
    );
    let middle = cell_width / 2;

    assert_eq!(
        pixel(middle, 0),
        foreground,
        "selection uses reverse background"
    );
    assert_eq!(
        pixel(cell_width + middle, 0),
        background,
        "unselected preedit preserves the terminal background"
    );
    assert_eq!(
        pixel(middle, cell_height - 1),
        background,
        "selected preedit remains underlined with its reversed foreground"
    );
    assert_eq!(
        pixel(cell_width + middle, cell_height - 1),
        foreground,
        "unselected preedit has a visible underline"
    );
    assert_eq!(
        pixel(cell_width, 0),
        contrasting_cursor_color(background),
        "the caret bar is drawn after the overlay"
    );
    assert_eq!(
        ime_cursor_area(
            layout
                .caret_cell
                .expect("valid preedit should expose a caret"),
            (snapshot.columns, snapshot.rows),
            cell_dimensions,
            frame_size,
        ),
        Some(cell_area(i32::try_from(cell_width).expect("cell width should fit i32"), 0, cell_width, cell_height))
    );
}

#[test]
fn ime_preedit_render_preserves_contrast_on_reversed_terminal_cells() {
    let mut grid = Grid::new(1, 1, 0);
    grid.modes.cursor_visible = false;
    grid.buffer.cell_mut(0, 0).flags = CellFlags::from_bits(CellFlags::REVERSE);
    let mut atlas = test_atlas();

    let (frame, cell_dimensions, layout) =
        render_preedit(grid, &accepted_preedit(" ", None), &mut atlas);

    assert_eq!(layout.caret_cell, None);
    let cell_width = usize::from(cell_dimensions.0);
    let cell_height = usize::from(cell_dimensions.1);
    let pixel = |x: usize, y: usize| frame[y * cell_width + x];
    let foreground = rgb_to_xrgb(
        DEFAULT_FOREGROUND.0,
        DEFAULT_FOREGROUND.1,
        DEFAULT_FOREGROUND.2,
    );
    let background = rgb_to_xrgb(
        DEFAULT_BACKGROUND.0,
        DEFAULT_BACKGROUND.1,
        DEFAULT_BACKGROUND.2,
    );

    assert_eq!(pixel(cell_width / 2, 0), foreground);
    assert_eq!(pixel(cell_width / 2, cell_height - 1), background);
    assert_ne!(
        pixel(cell_width / 2, 0),
        pixel(cell_width / 2, cell_height - 1),
        "the underline must contrast with a reversed cell background"
    );
}

#[test]
fn ime_preedit_render_decorates_zero_width_glyphs_without_advancing_them() {
    let combining_grid = || {
        let mut grid = Grid::new(1, 1, 0);
        grid.modes.cursor_visible = false;
        *grid.buffer.cell_mut(0, 0) = Cell {
            fg: Color::Rgb(17, 34, 51),
            bg: Color::Rgb(68, 85, 102),
            ..Cell::default()
        };
        grid
    };
    let mut atlas = test_atlas();

    let (selected_frame, _, selected_layout) = render_preedit(
        combining_grid(),
        &accepted_preedit("\u{301}", Some((0, 2))),
        &mut atlas,
    );
    assert_eq!(selected_layout.glyphs[0].width, 0);
    assert_eq!(selected_layout.glyphs[0].column, 0);
    let selected_background = rgb_to_xrgb(17, 34, 51);
    assert!(
        selected_frame.contains(&selected_background),
        "a selected combining mark needs a one-cell reverse background"
    );

    let (underlined_frame, cell_dimensions, underlined_layout) = render_preedit(
        combining_grid(),
        &accepted_preedit("\u{301}", None),
        &mut atlas,
    );
    assert_eq!(underlined_layout.glyphs[0].width, 0);
    assert_eq!(underlined_layout.glyphs[0].column, 0);
    let cell_width = usize::from(cell_dimensions.0);
    let cell_height = usize::from(cell_dimensions.1);
    let underline_start = (cell_height - 1) * cell_width;
    assert!(
        underlined_frame[underline_start..]
            .iter()
            .all(|&pixel| pixel == rgb_to_xrgb(17, 34, 51)),
        "a zero-width glyph needs a visible one-cell underline"
    );
}

#[test]
fn ime_preedit_render_hides_the_terminal_cursor_before_a_wrapped_wide_glyph() {
    let mut grid = Grid::new(4, 2, 0);
    grid.cursor_row = 0;
    grid.cursor_col = 3;
    grid.modes.cursor_style.shape = CursorShape::Block;
    let mut atlas = test_atlas();

    let (frame, cell_dimensions, layout) =
        render_preedit(grid, &accepted_preedit("日", Some((0, 0))), &mut atlas);

    assert_eq!(layout.caret_cell, Some((1, 0)));
    assert_eq!((layout.glyphs[0].row, layout.glyphs[0].column), (1, 0));
    let cell_width = usize::from(cell_dimensions.0);
    let cell_height = usize::from(cell_dimensions.1);
    let frame_width = cell_width * 4;
    let pixel = |x: usize, y: usize| frame[y * frame_width + x];
    let background = rgb_to_xrgb(
        DEFAULT_BACKGROUND.0,
        DEFAULT_BACKGROUND.1,
        DEFAULT_BACKGROUND.2,
    );

    assert_eq!(
        pixel(3 * cell_width + cell_width / 2, cell_height / 2),
        background,
        "composition must suppress the stale terminal cursor on the previous line"
    );
    assert_ne!(
        pixel(0, cell_height),
        background,
        "the preedit caret should appear beside the wrapped glyph"
    );
}

#[test]
fn ime_cursor_area_tracks_the_physical_terminal_cell_and_dpi_metrics() {
    assert_eq!(
        ime_cursor_area((0, 0), (80, 24), (10, 20), (800, 480)),
        Some(cell_area(0, 0, 10, 20))
    );
    assert_eq!(
        ime_cursor_area((2, 3), (80, 24), (10, 20), (800, 480)),
        Some(cell_area(30, 40, 10, 20))
    );
    assert_eq!(
        ime_cursor_area((2, 3), (80, 24), (20, 40), (1600, 960)),
        Some(cell_area(60, 80, 20, 40))
    );
}

#[test]
fn ime_cursor_area_handles_pending_wrap_clipping_and_invalid_geometry() {
    assert_eq!(
        ime_cursor_area((2, 80), (80, 24), (10, 20), (800, 480)),
        Some(cell_area(790, 40, 10, 20)),
        "pending wrap should anchor IME at the last terminal cell"
    );
    assert_eq!(
        ime_cursor_area((0, 0), (1, 1), (10, 20), (5, 7)),
        Some(cell_area(0, 0, 5, 7)),
        "an undersized surface should still receive an in-bounds area"
    );
    assert_eq!(
        ime_cursor_area((2, 3), (80, 24), (10, 20), (25, 25)),
        Some(cell_area(15, 5, 10, 20)),
        "a cursor beyond a stale surface must clamp the full area in bounds"
    );

    for invalid in [
        ime_cursor_area((0, 0), (0, 24), (10, 20), (800, 480)),
        ime_cursor_area((0, 0), (80, 0), (10, 20), (800, 480)),
        ime_cursor_area((24, 0), (80, 24), (10, 20), (800, 480)),
        ime_cursor_area((0, 81), (80, 24), (10, 20), (800, 480)),
        ime_cursor_area((0, 0), (80, 24), (0, 20), (800, 480)),
        ime_cursor_area((0, 0), (80, 24), (10, 0), (800, 480)),
        ime_cursor_area((0, 0), (80, 24), (10, 20), (0, 480)),
        ime_cursor_area((0, 0), (80, 24), (10, 20), (800, 0)),
    ] {
        assert_eq!(invalid, None);
    }

    let last_fitting_column =
        usize::try_from(i32::MAX).expect("positive i32 should fit usize") / 10;
    assert!(ime_cursor_area(
        (0, last_fitting_column),
        (last_fitting_column + 2, 1),
        (10, 20),
        (u32::MAX, 20),
    )
    .is_some());
    assert_eq!(
        ime_cursor_area(
            (0, last_fitting_column + 1),
            (last_fitting_column + 2, 1),
            (10, 20),
            (u32::MAX, 20),
        ),
        None,
        "IME coordinates beyond i32 must not wrap"
    );
}

#[test]
fn ime_cursor_uses_live_input_position_while_visual_cursor_is_suppressed() {
    let mut history = grid_with_scrollback(3, 5);
    history.cursor_row = 1;
    history.cursor_col = 2;
    history.modes.cursor_visible = false;
    history.scroll_viewport_up(history.scrollback_len());
    let grid = Mutex::new(history);
    let snapshot = snapshot_grid(&grid).expect("history snapshot should succeed");

    assert!(snapshot.cursor.is_none());
    assert_eq!(snapshot.input_cursor, (1, 2));
    let area = ime_cursor_area(
        snapshot.input_cursor,
        (snapshot.columns, snapshot.rows),
        (10, 20),
        (80, 60),
    );
    assert_eq!(
        area,
        Some(cell_area(20, 20, 10, 20))
    );

    let mut last_area = None;
    let observed = RefCell::new(None);
    sync_ime_cursor_area_with(true, &mut last_area, area, |area| {
        assert!(
            grid.try_lock().is_ok(),
            "IME window requests must run without the Grid lock"
        );
        observed.replace(Some(area));
    });
    assert_eq!(observed.into_inner(), area);
}

#[test]
fn ime_cursor_area_sync_requires_an_active_session_and_deduplicates_updates() {
    let first = cell_area(30, 40, 10, 20);
    let second = cell_area(40, 40, 10, 20);
    let calls = RefCell::new(Vec::new());
    let mut last_area = None;

    sync_ime_cursor_area_with(false, &mut last_area, Some(first), |area| {
        calls.borrow_mut().push(area);
    });
    sync_ime_cursor_area_with(true, &mut last_area, Some(first), |area| {
        calls.borrow_mut().push(area);
    });
    sync_ime_cursor_area_with(true, &mut last_area, Some(first), |area| {
        calls.borrow_mut().push(area);
    });
    assert_eq!(calls.borrow().as_slice(), [first]);
    sync_ime_cursor_area_with(true, &mut last_area, Some(second), |area| {
        calls.borrow_mut().push(area);
    });
    sync_ime_cursor_area_with(true, &mut last_area, Some(second), |area| {
        calls.borrow_mut().push(area);
    });
    assert_eq!(calls.borrow().as_slice(), [first, second]);
    assert_eq!(last_area, Some(second));

    // Ime::Enabled invalidates the cache so a recreated input context is synchronized.
    last_area = None;
    sync_ime_cursor_area_with(true, &mut last_area, Some(first), |area| {
        calls.borrow_mut().push(area);
    });
    sync_ime_cursor_area_with(false, &mut last_area, Some(second), |area| {
        calls.borrow_mut().push(area);
    });

    assert_eq!(calls.into_inner(), [first, second, first]);
    assert_eq!(last_area, Some(first));
}

#[test]
fn zero_sized_windows_do_not_create_a_surface_extent() {
    assert_eq!(drawable_dimensions(size(0, 480)), Ok(None));
    assert_eq!(drawable_dimensions(size(800, 0)), Ok(None));
    assert_eq!(drawable_dimensions(size(0, 0)), Ok(None));

    let (width, height) = drawable_dimensions(size(800, 480))
        .expect("normal dimensions should fit the renderer budget")
        .expect("non-zero dimensions should be drawable");
    assert_eq!(width, 800);
    assert_eq!(height, 480);
}

#[test]
fn surface_extent_guard_rejects_frames_above_the_physical_budget() {
    assert!(drawable_dimensions(size(
        MAX_REQUESTED_PHYSICAL_WIDTH,
        MAX_REQUESTED_PHYSICAL_HEIGHT,
    ))
    .expect("the configured maximum must be drawable")
    .is_some());
    assert_eq!(
        drawable_dimensions(size(
            MAX_REQUESTED_PHYSICAL_WIDTH + 1,
            MAX_REQUESTED_PHYSICAL_HEIGHT,
        )),
        Err(SurfaceSizeError::ExceedsRenderBudget {
            width: MAX_REQUESTED_PHYSICAL_WIDTH + 1,
            height: MAX_REQUESTED_PHYSICAL_HEIGHT,
        })
    );
    assert_eq!(
        drawable_dimensions(size(
            MAX_REQUESTED_PHYSICAL_WIDTH,
            MAX_REQUESTED_PHYSICAL_HEIGHT + 1,
        )),
        Err(SurfaceSizeError::ExceedsRenderBudget {
            width: MAX_REQUESTED_PHYSICAL_WIDTH,
            height: MAX_REQUESTED_PHYSICAL_HEIGHT + 1,
        })
    );
}

#[test]
fn empty_grid_has_no_banner_and_first_cell_renders_at_the_frame_origin() {
    let background = rgb_to_xrgb(
        DEFAULT_BACKGROUND.0,
        DEFAULT_BACKGROUND.1,
        DEFAULT_BACKGROUND.2,
    );
    let mut atlas = test_atlas();
    let mut empty_grid = Grid::new(2, 1, 0);
    empty_grid.modes.cursor_visible = false;

    let (empty_frame, _) = render_grid(empty_grid, &mut atlas);

    assert!(empty_frame.iter().all(|&pixel| pixel == background));

    let character = 'é';
    let key = GlyphKey {
        c: character,
        bold: true,
        italic: true,
    };
    assert!(!atlas.glyphs.contains(&key));
    let mut grid = Grid::new(2, 1, 0);
    grid.modes.cursor_visible = false;
    *grid.buffer.cell_mut(0, 0) = Cell {
        c: character,
        bg: Color::Rgb(1, 2, 3),
        flags: CellFlags::from_bits(CellFlags::BOLD | CellFlags::FAINT | CellFlags::ITALIC),
        ..Cell::default()
    };

    let (frame, cell_dimensions) = render_grid(grid, &mut atlas);

    let frame_width = usize::from(cell_dimensions.0) * 2;
    let first_cell_background = rgb_to_xrgb(1, 2, 3);
    assert!(atlas.glyphs.contains(&key));
    assert!((0..usize::from(cell_dimensions.1)).any(|row| {
        let start = row * frame_width;
        frame[start..start + usize::from(cell_dimensions.0)].contains(&first_cell_background)
    }));
}

#[test]
fn resolves_bold_indexed_foreground_before_reverse_and_fills_cell_backgrounds() {
    let colors = test_colors();
    let normal = Cell {
        fg: Color::Indexed(1),
        bg: Color::Rgb(4, 5, 6),
        flags: CellFlags::from_bits(CellFlags::BOLD),
        ..Cell::default()
    };
    let reversed = Cell {
        flags: CellFlags::from_bits(CellFlags::BOLD | CellFlags::REVERSE),
        ..normal.clone()
    };

    assert_eq!(
        resolve_cell_colors(colors, &normal),
        ResolvedCellColors {
            foreground: rgb_to_xrgb(241, 76, 76),
            background: rgb_to_xrgb(4, 5, 6),
        }
    );
    assert_eq!(
        resolve_cell_colors(colors, &reversed),
        ResolvedCellColors {
            foreground: rgb_to_xrgb(4, 5, 6),
            background: rgb_to_xrgb(241, 76, 76),
        }
    );

    let mut grid = Grid::new(2, 1, 0);
    grid.modes.cursor_visible = false;
    *grid.buffer.cell_mut(0, 0) = Cell {
        bg: Color::Indexed(4),
        ..Cell::default()
    };
    *grid.buffer.cell_mut(0, 1) = reversed;
    let mut atlas = test_atlas();

    let (frame, cell_dimensions) = render_grid(grid, &mut atlas);

    let cell_area = usize::from(cell_dimensions.0) * usize::from(cell_dimensions.1);
    assert_eq!(frame.len(), cell_area * 2);
    for row in 0..usize::from(cell_dimensions.1) {
        let row_start = row * usize::from(cell_dimensions.0) * 2;
        assert!(frame[row_start..row_start + usize::from(cell_dimensions.0)]
            .iter()
            .all(|&pixel| pixel == rgb_to_xrgb(36, 114, 200)));
        assert!(frame[row_start + usize::from(cell_dimensions.0)
            ..row_start + usize::from(cell_dimensions.0) * 2]
            .iter()
            .all(|&pixel| pixel == rgb_to_xrgb(241, 76, 76)));
    }
}

#[test]
fn converts_faint_cell_colors_to_xrgb_without_mutating_style_flags() {
    let cell = Cell {
        fg: Color::Rgb(0, 0, 0),
        bg: Color::Rgb(255, 255, 255),
        flags: CellFlags::from_bits(CellFlags::BOLD | CellFlags::FAINT),
        ..Cell::default()
    };

    assert_eq!(
        resolve_cell_colors(test_colors(), &cell),
        ResolvedCellColors {
            foreground: 0x007f_7f7f,
            background: 0x00ff_ffff,
        }
    );
    assert!(cell.flags.contains(CellFlags::BOLD));
    assert!(cell.flags.contains(CellFlags::FAINT));
}

#[test]
fn grid_snapshot_preserves_faint_cell_flags() {
    let mut grid = Grid::new(1, 1, 0);
    grid.pen.flags = CellFlags::from_bits(CellFlags::FAINT);
    grid.put_char('A');

    let snapshot = snapshot_grid(&Mutex::new(grid)).expect("snapshot should succeed");

    assert!(snapshot
        .cell(0, 0)
        .expect("printed cell should be present")
        .flags
        .contains(CellFlags::FAINT));
}

#[test]
fn linux_underline_rasterizes_every_style_inside_its_cell() {
    let frame_size = (20, 12);
    let background = rgb_to_xrgb(1, 2, 3);
    let underline = rgb_to_xrgb(200, 100, 50);
    let origin = (2, 1);
    let width = 12;
    let height = 10;
    let ascent = 6.0;

    for (style, expected_pixels) in [
        (UnderlineStyle::Single, 12),
        (UnderlineStyle::Double, 24),
        (UnderlineStyle::Curly, 12),
        (UnderlineStyle::Dotted, 4),
        (UnderlineStyle::Dashed, 8),
    ] {
        let mut frame = vec![background; (frame_size.0 * frame_size.1) as usize];

        draw_cell_underline(
            &mut frame,
            frame_size,
            origin,
            width,
            height,
            ascent,
            style,
            underline,
        );

        let changed = frame
            .iter()
            .enumerate()
            .filter(|&(_, pixel)| *pixel != background)
            .collect::<Vec<_>>();
        assert_eq!(changed.len(), expected_pixels, "{style:?}");
        assert!(changed.iter().all(|&(index, &pixel)| {
            let x = index % frame_size.0 as usize;
            let y = index / frame_size.0 as usize;
            pixel == underline && (2..14).contains(&x) && (1..11).contains(&y)
        }));
    }

    let mut frame = vec![background; (frame_size.0 * frame_size.1) as usize];
    draw_cell_underline(
        &mut frame,
        frame_size,
        origin,
        width,
        height,
        ascent,
        UnderlineStyle::Off,
        underline,
    );
    assert!(frame.iter().all(|&pixel| pixel == background));
}

#[test]
fn linux_underlines_blank_and_wide_cells_with_explicit_colors() {
    let mut grid = Grid::new(3, 1, 0);
    grid.modes.cursor_visible = false;
    *grid.buffer.cell_mut(0, 0) = Cell {
        flags: CellFlags::from_bits(CellFlags::UNDERLINE),
        underline_style: UnderlineStyle::Single,
        underline_color: Color::Rgb(220, 30, 40),
        ..Cell::default()
    };
    *grid.buffer.cell_mut(0, 1) = Cell {
        flags: CellFlags::from_bits(CellFlags::UNDERLINE | CellFlags::WIDE),
        underline_style: UnderlineStyle::Double,
        underline_color: Color::Rgb(20, 210, 80),
        ..Cell::default()
    };
    *grid.buffer.cell_mut(0, 2) = Cell {
        c: '\0',
        flags: CellFlags::from_bits(CellFlags::WIDE_CONT),
        ..Cell::default()
    };
    let mut atlas = test_atlas();
    let ascent = atlas.ascent;

    let (frame, cell_dimensions) = render_grid(grid, &mut atlas);

    let cell_width = usize::from(cell_dimensions.0);
    let frame_width = cell_width * 3;
    let single_y = usize::try_from(
        underline_anchor_y(
            0,
            u32::from(cell_dimensions.1),
            ascent,
            UnderlineStyle::Single,
        )
        .expect("single underline should fit its cell"),
    )
    .unwrap();
    let double_y = usize::try_from(
        underline_anchor_y(
            0,
            u32::from(cell_dimensions.1),
            ascent,
            UnderlineStyle::Double,
        )
        .expect("double underline should fit its cell"),
    )
    .unwrap();
    let single = rgb_to_xrgb(220, 30, 40);
    let double = rgb_to_xrgb(20, 210, 80);

    assert!(frame[single_y * frame_width..single_y * frame_width + cell_width]
        .iter()
        .all(|&pixel| pixel == single));
    for row in [double_y, double_y + 2] {
        let start = row * frame_width + cell_width;
        assert!(frame[start..start + cell_width * 2]
            .iter()
            .all(|&pixel| pixel == double));
    }
}

#[test]
fn linux_default_underline_tracks_resolved_faint_reverse_foreground() {
    let default_underline = Cell {
        fg: Color::Rgb(0, 0, 0),
        bg: Color::Rgb(255, 255, 255),
        flags: CellFlags::from_bits(CellFlags::BOLD | CellFlags::FAINT | CellFlags::REVERSE),
        underline_style: UnderlineStyle::Single,
        ..Cell::default()
    };
    let resolved = resolve_cell_colors(test_colors(), &default_underline);
    assert_eq!(
        resolve_cell_underline_color(
            test_colors(),
            &default_underline,
            resolved.foreground,
        ),
        resolved.foreground
    );

    let explicit_underline = Cell {
        underline_color: Color::Indexed(1),
        ..default_underline
    };
    assert_eq!(
        resolve_cell_underline_color(
            test_colors(),
            &explicit_underline,
            resolved.foreground,
        ),
        rgb_to_xrgb(205, 49, 49),
        "explicit underline color is resolved independently from bold/faint/reverse"
    );
}

#[test]
fn linux_underline_anchor_clamps_extreme_metrics_to_the_cell() {
    for style in [
        UnderlineStyle::Single,
        UnderlineStyle::Double,
        UnderlineStyle::Curly,
        UnderlineStyle::Dotted,
        UnderlineStyle::Dashed,
    ] {
        for ascent in [-100.0, 100.0] {
            let y = underline_anchor_y(7, 5, ascent, style)
                .expect("finite metrics should produce an underline anchor");
            assert!((7..=11).contains(&y), "{style:?} at ascent {ascent}");
        }
    }
    assert_eq!(
        underline_anchor_y(0, 10, 5.0, UnderlineStyle::Off),
        None
    );
    assert_eq!(
        underline_anchor_y(0, 0, 5.0, UnderlineStyle::Single),
        None
    );
    assert_eq!(
        underline_anchor_y(0, 10, f32::NAN, UnderlineStyle::Single),
        None
    );

    let background = rgb_to_xrgb(1, 2, 3);
    let underline = rgb_to_xrgb(4, 5, 6);
    for style in [UnderlineStyle::Double, UnderlineStyle::Curly] {
        let mut frame = vec![background; 12];
        draw_cell_underline(
            &mut frame,
            (4, 3),
            (0, 1),
            4,
            1,
            100.0,
            style,
            underline,
        );
        assert!(frame[..4].iter().all(|&pixel| pixel == background));
        assert!(frame[4..8].iter().all(|&pixel| pixel == underline));
        assert!(frame[8..].iter().all(|&pixel| pixel == background));
    }
}

#[test]
fn concealed_linux_cells_never_render_content_or_decorations() {
    for visible_flags in [
        0,
        CellFlags::BOLD | CellFlags::FAINT | CellFlags::REVERSE,
        CellFlags::ITALIC | CellFlags::UNDERLINE | CellFlags::WIDE,
    ] {
        assert!(cell_content_is_visible(CellFlags::from_bits(visible_flags)));
        assert!(!cell_content_is_visible(CellFlags::from_bits(
            visible_flags | CellFlags::HIDDEN
        )));
    }
}

#[test]
fn hidden_wide_snapshot_keeps_resolved_background_without_glyph_or_underline() {
    let character = '日';
    let key = GlyphKey {
        c: character,
        bold: true,
        italic: true,
    };
    let mut grid = Grid::new(2, 1, 0);
    grid.modes.cursor_visible = false;
    grid.pen.fg = Color::Rgb(180, 120, 60);
    grid.pen.bg = Color::Rgb(10, 20, 30);
    grid.pen.flags = CellFlags::from_bits(CellFlags::BOLD
        | CellFlags::FAINT
        | CellFlags::ITALIC
        | CellFlags::UNDERLINE
        | CellFlags::REVERSE
        | CellFlags::HIDDEN);
    grid.pen.underline_style = UnderlineStyle::Double;
    grid.put_char(character);

    let grid = Mutex::new(grid);
    let snapshot = snapshot_grid(&grid).expect("hidden grid should snapshot");
    let leader = snapshot.cell(0, 0).expect("wide leader should exist");
    assert!(leader.flags.contains(CellFlags::HIDDEN | CellFlags::WIDE));
    assert_eq!(leader.underline_style, UnderlineStyle::Double);
    assert_eq!(
        snapshot.cell(0, 1).expect("wide continuation should exist").flags,
        CellFlags::from_bits(CellFlags::WIDE_CONT)
    );
    assert!(snapshot
        .rendered_cell(0, 1)
        .expect("continuation should resolve through its leader")
        .flags
        .contains(CellFlags::HIDDEN));
    let expected_background = resolve_cell_colors(test_colors(), leader).background;

    let mut atlas = test_atlas();
    assert!(!atlas.glyphs.contains(&key));
    let (frame, _) = render_grid(grid.into_inner().unwrap(), &mut atlas);

    assert!(frame.iter().all(|&pixel| pixel == expected_background));
    assert!(!atlas.glyphs.contains(&key));
}

#[test]
fn terminal_cursor_remains_visible_over_hidden_linux_content() {
    let character = 'é';
    let key = GlyphKey {
        c: character,
        bold: false,
        italic: false,
    };
    let mut grid = Grid::new(1, 1, 0);
    *grid.buffer.cell_mut(0, 0) = Cell {
        c: character,
        bg: Color::Rgb(10, 20, 30),
        flags: CellFlags::from_bits(CellFlags::HIDDEN),
        ..Cell::default()
    };
    let background = rgb_to_xrgb(10, 20, 30);
    let mut atlas = test_atlas();
    assert!(!atlas.glyphs.contains(&key));

    let (frame, _) = render_grid(grid, &mut atlas);

    assert!(frame.iter().any(|&pixel| pixel != background));
    assert!(!atlas.glyphs.contains(&key));
}

#[test]
fn wide_continuations_neither_overwrite_the_leader_background_nor_add_a_glyph() {
    let continuation_character = 'Ω';
    let continuation_key = GlyphKey {
        c: continuation_character,
        bold: false,
        italic: false,
    };
    let leader_background = rgb_to_xrgb(9, 8, 7);
    let mut grid = Grid::new(2, 1, 0);
    grid.modes.cursor_visible = false;
    *grid.buffer.cell_mut(0, 0) = Cell {
        bg: Color::Rgb(9, 8, 7),
        flags: CellFlags::from_bits(CellFlags::WIDE),
        ..Cell::default()
    };
    *grid.buffer.cell_mut(0, 1) = Cell {
        c: continuation_character,
        bg: Color::Rgb(200, 100, 50),
        flags: CellFlags::from_bits(CellFlags::WIDE_CONT),
        ..Cell::default()
    };
    let mut atlas = test_atlas();
    assert!(!atlas.glyphs.contains(&continuation_key));

    let (frame, _) = render_grid(grid, &mut atlas);

    assert!(frame.iter().all(|&pixel| pixel == leader_background));
    assert!(!atlas.glyphs.contains(&continuation_key));
}

#[test]
fn what_a_right_half_holds_is_never_drawn() {
    let frame_with = |right: Cell| {
        let mut grid = Grid::new(3, 1, 0);
        grid.put_char('日');
        grid.set_cursor_pos(0, 1);
        *grid.buffer.cell_mut(0, 1) =
            Cell { flags: CellFlags::from_bits(CellFlags::WIDE_CONT), ..right };
        render_grid(grid, &mut test_atlas()).0
    };
    let plain = frame_with(Cell::default());
    let loud = frame_with(Cell {
        c: 'X',
        fg: Color::Rgb(1, 2, 3),
        bg: Color::Rgb(250, 250, 250),
        underline_style: UnderlineStyle::Single,
        ..Cell::default()
    });
    assert_eq!(plain, loud);
}

#[test]
fn pending_cursor_uses_the_wide_leader_background_for_contrast() {
    let mut atlas = test_atlas();

    for shape in [CursorShape::Block, CursorShape::Bar, CursorShape::Underline] {
        let mut grid = Grid::new(2, 1, 0);
        grid.modes.cursor_style.shape = shape;
        *grid.buffer.cell_mut(0, 0) = Cell {
            c: ' ',
            fg: Color::Rgb(255, 255, 255),
            bg: Color::Rgb(0, 0, 0),
            flags: CellFlags::from_bits(CellFlags::WIDE | CellFlags::REVERSE),
            ..Cell::default()
        };
        *grid.buffer.cell_mut(0, 1) = Cell {
            c: '\0',
            fg: Color::Rgb(255, 255, 255),
            bg: Color::Rgb(0, 0, 0),
            flags: CellFlags::from_bits(CellFlags::WIDE_CONT),
            ..Cell::default()
        };
        grid.cursor_col = grid.cols();

        let (frame, cell_dimensions) = render_grid(grid, &mut atlas);

        let width = usize::from(cell_dimensions.0);
        let height = usize::from(cell_dimensions.1);
        let frame_width = width * 2;
        let changed_pixels = (0..height)
            .flat_map(|row| {
                let start = row * frame_width + width;
                frame[start..start + width].iter()
            })
            .filter(|&&pixel| pixel != rgb_to_xrgb(255, 255, 255))
            .count();
        let thickness = usize::try_from(CURSOR_THICKNESS)
            .expect("cursor thickness should fit usize");
        let expected = match shape {
            CursorShape::Block => width * height,
            CursorShape::Bar => thickness.min(width) * height,
            CursorShape::Underline => width * thickness.min(height),
        };
        assert_eq!(changed_pixels, expected, "{shape:?}");
    }
}

#[test]
fn empty_grid_cursor_is_visible_and_follows_each_cursor_shape() {
    let background = rgb_to_xrgb(
        DEFAULT_BACKGROUND.0,
        DEFAULT_BACKGROUND.1,
        DEFAULT_BACKGROUND.2,
    );
    let mut atlas = test_atlas();

    for shape in [CursorShape::Block, CursorShape::Bar, CursorShape::Underline] {
        let mut grid = Grid::new(1, 1, 0);
        grid.modes.cursor_style.shape = shape;
        let (frame, cell_dimensions) = render_grid(grid, &mut atlas);
        let width = usize::from(cell_dimensions.0);
        let height = usize::from(cell_dimensions.1);
        let thickness = usize::try_from(CURSOR_THICKNESS)
            .expect("cursor thickness should fit usize")
            .min(if shape == CursorShape::Bar {
                width
            } else {
                height
            });
        let expected_changed = match shape {
            CursorShape::Block => width * height,
            CursorShape::Bar => thickness * height,
            CursorShape::Underline => width * thickness,
        };

        assert_eq!(
            frame.iter().filter(|&&pixel| pixel != background).count(),
            expected_changed
        );
    }

    let mut hidden_grid = Grid::new(1, 1, 0);
    hidden_grid.modes.cursor_visible = false;
    let (hidden_frame, _) = render_grid(hidden_grid, &mut atlas);
    assert!(hidden_frame.iter().all(|&pixel| pixel == background));

    let mut pending_wrap_grid = Grid::new(1, 1, 0);
    pending_wrap_grid.cursor_col = pending_wrap_grid.cols();
    let (pending_wrap_frame, _) = render_grid(pending_wrap_grid, &mut atlas);
    assert!(pending_wrap_frame.iter().any(|&pixel| pixel != background));

    let mut invalid_cursor_grid = Grid::new(1, 1, 0);
    invalid_cursor_grid.cursor_col = invalid_cursor_grid.cols() + 1;
    let (invalid_cursor_frame, _) = render_grid(invalid_cursor_grid, &mut atlas);
    assert!(invalid_cursor_frame
        .iter()
        .all(|&pixel| pixel == background));
}

#[test]
fn atlas_metrics_are_positive_rounded_and_synchronized_with_the_grid() {
    let atlas = test_atlas();
    let dimensions =
        atlas_cell_dimensions(&atlas).expect("test atlas should have valid dimensions");
    let grid = Mutex::new(Grid::new(1, 1, 0));

    set_grid_cell_dimensions(&grid, dimensions)
        .expect("fresh test grid dimensions should synchronize");

    assert_eq!(dimensions.0, atlas.cell_width.round() as u16);
    assert_eq!(dimensions.1, atlas.cell_height.round() as u16);
    assert!(dimensions.0 > 0);
    assert!(dimensions.1 > 0);
    let grid = grid.lock().expect("test grid should remain available");
    assert_eq!(grid.images.cell_pixel_width, dimensions.0);
    assert_eq!(grid.images.cell_pixel_height, dimensions.1);
}

#[test]
fn shutdown_and_eof_are_normal_reader_exits() {
    assert_eq!(
        classify_reader_exit(&ReaderExit::Shutdown),
        ReaderStatus::Normal
    );
    assert_eq!(classify_reader_exit(&ReaderExit::Eof), ReaderStatus::Normal);
}

#[test]
fn reader_failures_include_actionable_context() {
    let failures = [
        (
            ReaderExit::WaitFailed(io::Error::from_raw_os_error(5).to_string()),
            "wait for PTY output",
        ),
        (
            ReaderExit::ReadFailed(io::Error::from_raw_os_error(5).to_string()),
            "read PTY output",
        ),
        (
            ReaderExit::ResponseWriteFailed(io::Error::from_raw_os_error(32).to_string()),
            "write a protocol response",
        ),
        (ReaderExit::GridPoisoned, "terminal grid"),
        (ReaderExit::DecoderStalled, "stopped making progress"),
        (
            ReaderExit::UnexpectedProtocolEvent,
            "graphics event in text-only mode",
        ),
    ];

    for (exit, expected_context) in failures {
        let ReaderStatus::Failed(message) = classify_reader_exit(&exit) else {
            panic!("reader failure was classified as a normal exit");
        };
        assert!(
            message.contains(expected_context),
            "missing `{expected_context}` in `{message}`"
        );
    }
}

#[test]
fn writer_shutdown_is_normal_and_failures_include_actionable_context() {
    assert_eq!(
        classify_writer_exit(&WriterExit::Shutdown),
        WriterStatus::Normal
    );

    let channel_status = classify_writer_exit(&WriterExit::ChannelClosed);
    let WriterStatus::Failed(channel_message) = channel_status else {
        panic!("closed writer queue should be a failure");
    };
    assert!(channel_message.contains("input queue"));

    let write_status =
        classify_writer_exit(&WriterExit::WriteFailed(io::Error::from_raw_os_error(5).to_string()));
    let WriterStatus::Failed(write_message) = write_status else {
        panic!("PTY write error should be a failure");
    };
    assert!(write_message.contains("write keyboard input to the PTY"));
    assert!(write_message.contains("5"));
}

#[test]
fn launch_result_preserves_worker_failures_before_late_finish_errors() {
    assert_eq!(
        combine_launch_results(
            Ok(()),
            Ok(()),
            Err("native writer failure".to_string()),
            Err("input queue disconnected".to_string()),
        ),
        Err("native writer failure".to_string())
    );
    assert_eq!(
        combine_launch_results(
            Ok(()),
            Err("reader failure".to_string()),
            Err("writer failure".to_string()),
            Err("finish failure".to_string()),
        ),
        Err("reader failure".to_string())
    );
    assert_eq!(
        combine_launch_results(
            Err("event loop failure".to_string()),
            Err("reader failure".to_string()),
            Err("writer failure".to_string()),
            Err("finish failure".to_string()),
        ),
        Err("event loop failure".to_string())
    );
    assert_eq!(
        combine_launch_results(Ok(()), Ok(()), Ok(()), Err("finish failure".to_string()),),
        Err("finish failure".to_string())
    );
}

#[test]
fn terminal_stops_accepting_input_while_exiting_or_after_the_reader_exits() {
    assert!(terminal_accepts_input(false, None));
    assert!(!terminal_accepts_input(true, None));
    assert!(!terminal_accepts_input(false, Some(&ReaderStatus::Normal)));
    assert!(!terminal_accepts_input(
        false,
        Some(&ReaderStatus::Failed("read failed".to_string()))
    ));
    assert!(!terminal_accepts_input(true, Some(&ReaderStatus::Normal)));
}

#[test]
fn grid_updates_coalesce_until_redraw_begins_then_rearm() {
    let redraw_pending = RefCell::new(UpdateNotice { pending: false });

    assert!(redraw_pending.borrow_mut().arm());
    assert!(!redraw_pending.borrow_mut().arm());

    redraw_pending.borrow_mut().begin();

    assert!(redraw_pending.borrow_mut().arm());
    assert!(!redraw_pending.borrow_mut().arm());
}
