//! Images that are placed among the cells of a screen.
use vstd::prelude::*;

verus! {

pub type ImageId = u64;

/// How large an inline image is drawn: over its cells, or pixel by pixel.
#[derive(Debug, Clone, Copy, PartialEq, Eq, Structural)]
pub enum InlineRenderSize {
    CellAnchored,
    NativePixels { width: u32, height: u32 },
}

/// Where an image stands. Rows above the screen are negative.
#[derive(Debug, Clone, Copy, PartialEq, Eq, Structural)]
pub enum PlacementMode {
    Inline {
        row: i64,
        col: usize,
        cols: u32,
        rows: u32,
        x_offset: u32,
        y_offset: u32,
        render_size: InlineRenderSize,
    },
}

#[derive(Debug, Clone, Copy, PartialEq, Eq, Structural)]
pub struct ImagePlacement {
    pub image_id: ImageId,
    pub placement_id: u32,
    pub client_placement_id: Option<u32>,
    pub mode: PlacementMode,
    pub z_index: i32,
}

/// The least number of cells of `cell` pixels that hold `pixels` pixels.
pub open spec fn cells_for(pixels: int, cell: int) -> int {
    if cell <= 0 {
        pixels
    } else {
        (pixels + cell - 1) / cell
    }
}

/// A value limited to the range of an `i64`.
pub open spec fn clamp_row(row: int) -> int {
    if row < i64::MIN {
        i64::MIN as int
    } else if row > i64::MAX {
        i64::MAX as int
    } else {
        row
    }
}

fn pixel_cells(pixels: u32, offset: u32, cell: u16) -> (r: u64)
    ensures
        r == cells_for(pixels + offset, cell as int),
        r <= i64::MAX,
{
    let total: u64 = pixels as u64 + offset as u64;
    if cell == 0 {
        total
    } else {
        let unit: u64 = cell as u64;
        proof {
            vstd::arithmetic::div_mod::lemma_div_is_ordered_by_denominator(
                (total + unit - 1) as int,
                1,
                unit as int,
            );
        }
        (total + unit - 1) / unit
    }
}

/// A row moved by a distance, limited to the range of an `i64`.
pub fn offset_row(row: i64, distance: i64) -> (r: i64)
    ensures
        r == clamp_row(row + distance),
{
    if distance >= 0 {
        if row > i64::MAX - distance {
            i64::MAX
        } else {
            row + distance
        }
    } else if row < i64::MIN - distance {
        i64::MIN
    } else {
        row + distance
    }
}

impl PlacementMode {
    pub open spec fn top(self) -> int {
        match self {
            PlacementMode::Inline { row, .. } => row as int,
        }
    }

    /// The rows that the image covers on cells of this height.
    pub open spec fn height(self, cell_height: u16) -> int {
        match self {
            PlacementMode::Inline { rows, y_offset, render_size, .. } => match render_size {
                InlineRenderSize::CellAnchored => rows as int,
                InlineRenderSize::NativePixels { height, .. } => cells_for(
                    height + y_offset,
                    cell_height as int,
                ),
            },
        }
    }

    /// The columns that the image covers on cells of this width.
    pub open spec fn width(self, cell_width: u16) -> int {
        match self {
            PlacementMode::Inline { cols, x_offset, render_size, .. } => match render_size {
                InlineRenderSize::CellAnchored => cols as int,
                InlineRenderSize::NativePixels { width, .. } => cells_for(
                    width + x_offset,
                    cell_width as int,
                ),
            },
        }
    }

    /// The row below the image.
    pub open spec fn bottom(self, cell_height: u16) -> int {
        clamp_row(self.top() + self.height(cell_height))
    }

    pub open spec fn at_row(self, top: i64) -> PlacementMode {
        match self {
            PlacementMode::Inline { row, col, cols, rows, x_offset, y_offset, render_size } =>
                PlacementMode::Inline { row: top, col, cols, rows, x_offset, y_offset, render_size },
        }
    }

    /// First row, first column, and the columns and rows that are covered.
    pub fn signed_cell_rect(&self, cell_width: u16, cell_height: u16) -> (r: (i64, usize, u64, u64))
        ensures
            r.0 == self.top(),
            r.1 == (match self {
                PlacementMode::Inline { col, .. } => *col,
            }),
            r.2 == self.width(cell_width),
            r.3 == self.height(cell_height),
            r.3 <= i64::MAX,
    {
        match self {
            PlacementMode::Inline { row, col, cols, rows, x_offset, y_offset, render_size } => {
                match render_size {
                    InlineRenderSize::CellAnchored => (*row, *col, *cols as u64, *rows as u64),
                    InlineRenderSize::NativePixels { width, height } => (
                        *row,
                        *col,
                        pixel_cells(*width, *x_offset, cell_width),
                        pixel_cells(*height, *y_offset, cell_height),
                    ),
                }
            },
        }
    }

    /// The row below the image.
    pub fn bottom_row(&self, cell_height: u16) -> (r: i64)
        ensures
            r == self.bottom(cell_height),
    {
        let (row, _, _, rows) = self.signed_cell_rect(0, cell_height);
        offset_row(row, rows as i64)
    }

    /// Move the image to another first row.
    pub fn set_row(&mut self, top: i64)
        ensures
            *final(self) == old(self).at_row(top),
    {
        match self {
            PlacementMode::Inline { row, .. } => {
                *row = top;
            },
        }
    }
}

} // verus!
