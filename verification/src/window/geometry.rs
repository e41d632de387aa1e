//! Sizes of windows, screens and cells.
use crate::grid::terminal::{CursorShape, Grid};
use vstd::prelude::*;

verus! {

pub const INITIAL_CELL_WIDTH: u32 = 10;
pub const INITIAL_CELL_HEIGHT: u32 = 20;
/// The largest window that is asked for before glyph metrics are known.
pub const MAX_INITIAL_LOGICAL_WIDTH: u32 = 1920;
pub const MAX_INITIAL_LOGICAL_HEIGHT: u32 = 1080;
/// The largest frame that is drawn.
pub const MAX_REQUESTED_PHYSICAL_WIDTH: u32 = 8192;
pub const MAX_REQUESTED_PHYSICAL_HEIGHT: u32 = 4320;
/// The largest screen.
pub const MAX_TERMINAL_COLUMNS: u16 = 1024;
pub const MAX_TERMINAL_ROWS: u16 = 256;
pub const CURSOR_THICKNESS: u32 = 2;

/// Columns and rows of a screen.
#[derive(Debug, Clone, Copy, PartialEq, Eq, Structural)]
pub struct TerminalDimensions {
    pub columns: u16,
    pub rows: u16,
}

/// A size in pixels.
#[derive(Debug, Clone, Copy, PartialEq, Eq, Structural)]
pub struct PixelSize {
    pub width: u32,
    pub height: u32,
}

/// A rectangle in pixels, where the input method may open its window.
#[derive(Debug, Clone, Copy, PartialEq, Eq, Structural)]
pub struct ImeCursorArea {
    pub x: i32,
    pub y: i32,
    pub size: PixelSize,
}

#[derive(Debug, Clone, Copy, PartialEq, Eq, Structural)]
pub enum GridAccessError {
    Poisoned,
    DimensionsOutOfRange { columns: usize, rows: usize },
}

#[derive(Debug, Clone, Copy, PartialEq, Eq, Structural)]
pub enum SurfaceSizeError {
    ExceedsRenderBudget { width: u32, height: u32 },
}

/// A value brought into a range.
pub open spec fn clamped(value: int, low: int, high: int) -> int {
    if value < low {
        low
    } else if value > high {
        high
    } else {
        value
    }
}

pub open spec fn lesser(a: int, b: int) -> int {
    if a < b { a } else { b }
}

/// The size that a window is asked for before glyphs are measured.
pub open spec fn initial_size(columns: int, rows: int) -> (int, int) {
    (
        lesser(clamped(columns, 1, 65535) * 10, 1920),
        lesser(clamped(rows, 1, 65535) * 20, 1080),
    )
}

/// The screen that a configured one stands for.
pub open spec fn configured_size(columns: int, rows: int) -> (int, int) {
    (clamped(columns, 1, 1024), clamped(rows, 1, 256))
}

/// The size of a new window for the given screen.
pub fn initial_window_dimensions(columns: u16, rows: u16) -> (r: PixelSize)
    ensures
        r.width == initial_size(columns as int, rows as int).0,
        r.height == initial_size(columns as int, rows as int).1,
{
    let columns: u32 = if columns < 1 { 1 } else { columns as u32 };
    let rows: u32 = if rows < 1 { 1 } else { rows as u32 };
    let width: u32 = columns * INITIAL_CELL_WIDTH;
    let height: u32 = rows * INITIAL_CELL_HEIGHT;
    PixelSize {
        width: if width < MAX_INITIAL_LOGICAL_WIDTH { width } else { MAX_INITIAL_LOGICAL_WIDTH },
        height: if height < MAX_INITIAL_LOGICAL_HEIGHT {
            height
        } else {
            MAX_INITIAL_LOGICAL_HEIGHT
        },
    }
}

/// The configured screen size, brought into the supported range.
pub fn configured_terminal_dimensions(columns: u16, rows: u16) -> (r: TerminalDimensions)
    ensures
        r.columns == configured_size(columns as int, rows as int).0,
        r.rows == configured_size(columns as int, rows as int).1,
{
    TerminalDimensions {
        columns: if columns < 1 {
            1
        } else if columns > MAX_TERMINAL_COLUMNS {
            MAX_TERMINAL_COLUMNS
        } else {
            columns
        },
        rows: if rows < 1 {
            1
        } else if rows > MAX_TERMINAL_ROWS {
            MAX_TERMINAL_ROWS
        } else {
            rows
        },
    }
}

/// A size that the window system grants at once is reconciled at once.
pub fn immediate_surface_size_to_reconcile(immediate: Option<PixelSize>) -> (r: Option<PixelSize>)
    ensures
        r == immediate,
{
    immediate
}

/// A resize event that does not tell the present size is out of date.
pub fn is_current_surface_size(event_size: PixelSize, current_size: PixelSize) -> (r: bool)
    ensures
        r == (event_size == current_size),
{
    event_size == current_size
}

/// The size of a frame to draw: none where the window has no area, and an
/// error where it is too large to draw.
pub fn drawable_dimensions(size: PixelSize) -> (r: Result<Option<(u32, u32)>, SurfaceSizeError>)
    ensures
        size.width == 0 || size.height == 0 ==> r == Ok::<Option<(u32, u32)>, SurfaceSizeError>(
            None,
        ),
        size.width > 0 && size.height > 0 && (size.width > 8192 || size.height > 4320) ==> r
            == Err::<Option<(u32, u32)>, SurfaceSizeError>(
            SurfaceSizeError::ExceedsRenderBudget { width: size.width, height: size.height },
        ),
        0 < size.width <= 8192 && 0 < size.height <= 4320 ==> r == Ok::<
            Option<(u32, u32)>,
            SurfaceSizeError,
        >(Some((size.width, size.height))),
{
    if size.width == 0 || size.height == 0 {
        return Ok(None);
    }
    if size.width > MAX_REQUESTED_PHYSICAL_WIDTH || size.height > MAX_REQUESTED_PHYSICAL_HEIGHT {
        return Err(
            SurfaceSizeError::ExceedsRenderBudget { width: size.width, height: size.height },
        );
    }
    Ok(Some((size.width, size.height)))
}

/// A color as the frame stores it.
pub open spec fn xrgb(red: u8, green: u8, blue: u8) -> int {
    red * 65536 + green * 256 + blue
}

pub fn rgb_to_xrgb(red: u8, green: u8, blue: u8) -> (r: u32)
    ensures
        r == xrgb(red, green, blue),
{
    red as u32 * 65536 + green as u32 * 256 + blue as u32
}

/// The dimensions of a screen, as far as the operating system can take them.
pub open spec fn grid_dimensions(columns: int, rows: int) -> Result<
    TerminalDimensions,
    GridAccessError,
> {
    if columns <= 65535 && rows <= 65535 {
        Ok(TerminalDimensions { columns: columns as u16, rows: rows as u16 })
    } else {
        Err(
            GridAccessError::DimensionsOutOfRange {
                columns: columns as usize,
                rows: rows as usize,
            },
        )
    }
}

pub fn terminal_dimensions_from_locked_grid(grid: &Grid) -> (r: Result<
    TerminalDimensions,
    GridAccessError,
>)
    ensures
        r == grid_dimensions(grid@.cols(), grid@.rows()),
{
    let columns: usize = grid.cols();
    let rows: usize = grid.rows();
    if columns <= 65535 && rows <= 65535 {
        Ok(TerminalDimensions { columns: columns as u16, rows: rows as u16 })
    } else {
        Err(GridAccessError::DimensionsOutOfRange { columns, rows })
    }
}

/// The screen that a surface holds, if both it and its cells have an area.
pub open spec fn dimensions_for_surface(size: PixelSize, cell: (u16, u16)) -> Option<
    TerminalDimensions,
> {
    if size.width == 0 || size.height == 0 || cell.0 == 0 || cell.1 == 0 {
        None
    } else {
        Some(
            TerminalDimensions {
                columns: clamped(size.width as int / cell.0 as int, 1, 1024) as u16,
                rows: clamped(size.height as int / cell.1 as int, 1, 256) as u16,
            },
        )
    }
}

pub fn terminal_dimensions_for_surface(
    surface_size: PixelSize,
    cell_dimensions: (u16, u16),
) -> (r: Option<TerminalDimensions>)
    ensures
        r == dimensions_for_surface(surface_size, cell_dimensions),
{
    if surface_size.width == 0 || surface_size.height == 0 || cell_dimensions.0 == 0
        || cell_dimensions.1 == 0 {
        return None;
    }
    let columns: u32 = surface_size.width / cell_dimensions.0 as u32;
    let rows: u32 = surface_size.height / cell_dimensions.1 as u32;
    Some(
        TerminalDimensions {
            columns: if columns < 1 {
                1
            } else if columns > 1024 {
                1024
            } else {
                columns as u16
            },
            rows: if rows < 1 {
                1
            } else if rows > 256 {
                256
            } else {
                rows as u16
            },
        },
    )
}

/// The surface that a screen asks for, if both it and its cells have an area.
pub open spec fn surface_for_dimensions(
    dimensions: TerminalDimensions,
    cell: (u16, u16),
) -> Option<PixelSize> {
    if dimensions.columns == 0 || dimensions.rows == 0 || cell.0 == 0 || cell.1 == 0 {
        None
    } else {
        Some(
            PixelSize {
                width: lesser(dimensions.columns * cell.0, 8192) as u32,
                height: lesser(dimensions.rows * cell.1, 4320) as u32,
            },
        )
    }
}

pub fn physical_size_for_terminal(
    terminal_dimensions: TerminalDimensions,
    cell_dimensions: (u16, u16),
) -> (r: Option<PixelSize>)
    ensures
        r == surface_for_dimensions(terminal_dimensions, cell_dimensions),
{
    if terminal_dimensions.columns == 0 || terminal_dimensions.rows == 0 || cell_dimensions.0 == 0
        || cell_dimensions.1 == 0 {
        return None;
    }
    proof {
        lemma_product_fits(terminal_dimensions.columns, cell_dimensions.0);
        lemma_product_fits(terminal_dimensions.rows, cell_dimensions.1);
    }
    let width: u32 = terminal_dimensions.columns as u32 * cell_dimensions.0 as u32;
    let height: u32 = terminal_dimensions.rows as u32 * cell_dimensions.1 as u32;
    Some(
        PixelSize {
            width: if width < MAX_REQUESTED_PHYSICAL_WIDTH {
                width
            } else {
                MAX_REQUESTED_PHYSICAL_WIDTH
            },
            height: if height < MAX_REQUESTED_PHYSICAL_HEIGHT {
                height
            } else {
                MAX_REQUESTED_PHYSICAL_HEIGHT
            },
        },
    )
}

proof fn lemma_product_fits(a: u16, b: u16)
    ensures
        0 <= a * b <= u32::MAX,
{
    assert(0 <= a * b <= 65535 * 65535) by (nonlinear_arith)
        requires
            0 <= a <= 65535,
            0 <= b <= 65535,
    ;
}

/// A surface that a screen asks for holds that screen again, where it is not
/// cut by the limits.
pub proof fn law_surface_round_trip(dimensions: TerminalDimensions, cell: (u16, u16))
    requires
        0 < dimensions.columns <= 1024,
        0 < dimensions.rows <= 256,
        0 < cell.0,
        0 < cell.1,
        dimensions.columns * cell.0 <= 8192,
        dimensions.rows * cell.1 <= 4320,
    ensures
        surface_for_dimensions(dimensions, cell) is Some,
        dimensions_for_surface(surface_for_dimensions(dimensions, cell)->0, cell) == Some(
            dimensions,
        ),
{
    vstd::arithmetic::div_mod::lemma_div_multiples_vanish(dimensions.columns as int, cell.0 as int);
    vstd::arithmetic::div_mod::lemma_div_multiples_vanish(dimensions.rows as int, cell.1 as int);
    assert(cell.0 * dimensions.columns == dimensions.columns * cell.0) by (nonlinear_arith);
    assert(cell.1 * dimensions.rows == dimensions.rows * cell.1) by (nonlinear_arith);
    assert(dimensions.columns * cell.0 > 0) by (nonlinear_arith)
        requires
            dimensions.columns > 0,
            cell.0 > 0,
    ;
    assert(dimensions.rows * cell.1 > 0) by (nonlinear_arith)
        requires
            dimensions.rows > 0,
            cell.1 > 0,
    ;
}

/// Where a cell starts in the frame, if the frame can address it.
pub open spec fn origin_of(row: int, column: int, cell: (u16, u16)) -> Option<(i32, i32)> {
    if column * cell.0 <= i32::MAX && row * cell.1 <= i32::MAX {
        Some(((column * cell.0) as i32, (row * cell.1) as i32))
    } else {
        None
    }
}

/// The product with a cell size, if the frame can address it.
fn scaled(count: usize, size: u16) -> (r: Option<i32>)
    ensures
        r is Some <==> count * size <= i32::MAX,
        r is Some ==> r->0 == count * size,
{
    if size == 0 {
        assert(count * size == 0) by (nonlinear_arith)
            requires
                size == 0,
        ;
        return Some(0);
    }
    if count > 0x7fff_ffff {
        assert(count * size > 0x7fff_ffff) by (nonlinear_arith)
            requires
                count > 0x7fff_ffff,
                size >= 1,
        ;
        return None;
    }
    assert(0 <= count * size <= 0x7fff_ffff * 65535) by (nonlinear_arith)
        requires
            0 <= count <= 0x7fff_ffff,
            0 <= size <= 65535,
    ;
    let product: u64 = count as u64 * size as u64;
    if product > 0x7fff_ffff {
        None
    } else {
        Some(product as i32)
    }
}

pub fn cell_origin(row: usize, column: usize, cell_dimensions: (u16, u16)) -> (r: Option<(i32, i32)>)
    ensures
        r == origin_of(row as int, column as int, cell_dimensions),
{
    match (scaled(column, cell_dimensions.0), scaled(row, cell_dimensions.1)) {
        (Some(x), Some(y)) => Some((x, y)),
        _ => None,
    }
}

/// The part of a cell that the cursor covers.
pub open spec fn cursor_box(shape: CursorShape, origin: (i32, i32), cell: (u32, u32)) -> Option<
    ((i32, i32), (u32, u32)),
> {
    match shape {
        CursorShape::Block => Some((origin, cell)),
        CursorShape::Bar => Some((origin, (lesser(2, cell.0 as int) as u32, cell.1))),
        CursorShape::Underline => {
            let height = lesser(2, cell.1 as int);
            if cell.1 - height <= i32::MAX && origin.1 + (cell.1 - height) <= i32::MAX {
                Some(
                    (
                        (origin.0, (origin.1 + (cell.1 - height)) as i32),
                        (cell.0, height as u32),
                    ),
                )
            } else {
                None
            }
        },
    }
}

pub fn cursor_rectangle(shape: CursorShape, cell_origin: (i32, i32), cell_size: (u32, u32)) -> (r:
    Option<((i32, i32), (u32, u32))>)
    ensures
        r == cursor_box(shape, cell_origin, cell_size),
{
    match shape {
        CursorShape::Block => Some((cell_origin, cell_size)),
        CursorShape::Bar => {
            let width: u32 = if CURSOR_THICKNESS < cell_size.0 {
                CURSOR_THICKNESS
            } else {
                cell_size.0
            };
            Some((cell_origin, (width, cell_size.1)))
        },
        CursorShape::Underline => {
            let height: u32 = if CURSOR_THICKNESS < cell_size.1 {
                CURSOR_THICKNESS
            } else {
                cell_size.1
            };
            let offset: u32 = cell_size.1 - height;
            if offset > 0x7fff_ffff {
                return None;
            }
            let y: i64 = cell_origin.1 as i64 + offset as i64;
            if y > 0x7fff_ffff {
                return None;
            }
            Some(((cell_origin.0, y as i32), (cell_size.0, height)))
        },
    }
}

/// The brightness of a stored color, up to 255000.
pub open spec fn luminance(color: u32) -> int {
    ((color as int / 65536) % 256) * 299 + ((color as int / 256) % 256) * 587 + (color as int % 256)
        * 114
}

/// Black on bright colors, white on dark ones.
pub fn contrasting_cursor_color(background: u32) -> (r: u32)
    ensures
        r == if luminance(background) >= 128_000 { 0u32 } else { 0x00ff_ffffu32 },
{
    let red: u32 = (background / 65536) % 256;
    let green: u32 = (background / 256) % 256;
    let blue: u32 = background % 256;
    if red * 299 + green * 587 + blue * 114 >= 128_000 {
        0
    } else {
        0x00ff_ffff
    }
}

/// The rectangle of the input cursor, moved so that it lies in the surface.
pub open spec fn ime_area(
    cursor: (usize, usize),
    grid: (usize, usize),
    cell: (u16, u16),
    surface: (u32, u32),
) -> Option<ImeCursorArea> {
    let (columns, rows) = grid;
    if rows == 0 || columns == 0 || cursor.0 >= rows || cursor.1 > columns || cell.0 == 0 || cell.1
        == 0 || surface.0 == 0 || surface.1 == 0 {
        None
    } else {
        let column = lesser(cursor.1 as int, columns - 1);
        match origin_of(cursor.0 as int, column, cell) {
            Some(origin) => {
                let width = lesser(cell.0 as int, surface.0 as int);
                let height = lesser(cell.1 as int, surface.1 as int);
                let x = lesser(origin.0 as int, surface.0 - width);
                let y = lesser(origin.1 as int, surface.1 - height);
                Some(
                    ImeCursorArea {
                        x: x as i32,
                        y: y as i32,
                        size: PixelSize { width: width as u32, height: height as u32 },
                    },
                )
            },
            None => None,
        }
    }
}

pub fn ime_cursor_area(
    input_cursor: (usize, usize),
    grid_dimensions: (usize, usize),
    cell_dimensions: (u16, u16),
    surface_dimensions: (u32, u32),
) -> (r: Option<ImeCursorArea>)
    ensures
        r == ime_area(input_cursor, grid_dimensions, cell_dimensions, surface_dimensions),
{
    let (columns, rows) = grid_dimensions;
    if rows == 0 || columns == 0 || input_cursor.0 >= rows || input_cursor.1 > columns {
        return None;
    }
    let cell_width: u32 = cell_dimensions.0 as u32;
    let cell_height: u32 = cell_dimensions.1 as u32;
    if cell_width == 0 || cell_height == 0 || surface_dimensions.0 == 0 || surface_dimensions.1
        == 0 {
        return None;
    }
    let column: usize = if input_cursor.1 < columns - 1 { input_cursor.1 } else { columns - 1 };
    proof {
        assert(0 <= input_cursor.0 * cell_dimensions.1) by (nonlinear_arith);
        assert(0 <= column * cell_dimensions.0) by (nonlinear_arith);
    }
    match cell_origin(input_cursor.0, column, cell_dimensions) {
        Some(origin) => {
            let width: u32 = if cell_width < surface_dimensions.0 {
                cell_width
            } else {
                surface_dimensions.0
            };
            let height: u32 = if cell_height < surface_dimensions.1 {
                cell_height
            } else {
                surface_dimensions.1
            };
            let last_x: u32 = surface_dimensions.0 - width;
            let last_y: u32 = surface_dimensions.1 - height;
            let x: i32 = if (origin.0 as u32) < last_x { origin.0 } else { last_x as i32 };
            let y: i32 = if (origin.1 as u32) < last_y { origin.1 } else { last_y as i32 };
            Some(ImeCursorArea { x, y, size: PixelSize { width, height } })
        },
        None => None,
    }
}

/// The area lies in the surface.
pub proof fn law_ime_area_is_on_the_surface(
    cursor: (usize, usize),
    grid: (usize, usize),
    cell: (u16, u16),
    surface: (u32, u32),
)
    ensures
        ime_area(cursor, grid, cell, surface) is Some ==> {
            let area = ime_area(cursor, grid, cell, surface)->0;
            &&& 0 <= area.x
            &&& 0 <= area.y
            &&& area.x + area.size.width <= surface.0
            &&& area.y + area.size.height <= surface.1
            &&& area.size.width > 0
            &&& area.size.height > 0
        },
{
    let column = lesser(cursor.1 as int, grid.0 - 1);
    if grid.0 > 0 && cursor.0 < grid.1 {
        assert(0 <= cursor.0 * cell.1) by (nonlinear_arith);
        assert(0 <= column * cell.0) by (nonlinear_arith)
            requires
                0 <= column,
        ;
    }
}

} // verus!
