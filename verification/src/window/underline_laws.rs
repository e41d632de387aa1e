//! Which pixels the underlines cover.
use crate::grid::cell::UnderlineStyle;
use crate::window::underline::{
    addressable, anchor_of, last_pixel_row, placed, strokes, underline_of, Segment, Stroke,
};
use vstd::prelude::*;

verus! {

/// A stroke covers a column of its cell.
pub open spec fn stroke_covers(stroke: Stroke, column: int) -> bool {
    stroke.offset <= column < stroke.offset + stroke.width
}

/// Some stroke covers a pixel.
pub open spec fn pixel_covered(all: Seq<Stroke>, column: int, row: int) -> bool {
    exists|i: int|
        0 <= i < all.len() && stroke_covers(#[trigger] all[i], column) && all[i].y == row
}

/// A single line covers every column of its row of pixels, and a double one a
/// second row two below where the cell has room.
pub proof fn law_straight_underlines(anchor: int, top: int, last: int, width: u32, column: int)
    requires
        0 <= column < width,
    ensures
        pixel_covered(strokes(UnderlineStyle::Single, anchor, top, last, width), column, anchor),
        pixel_covered(strokes(UnderlineStyle::Double, anchor, top, last, width), column, anchor),
        anchor + 2 <= last ==> pixel_covered(
            strokes(UnderlineStyle::Double, anchor, top, last, width),
            column,
            anchor + 2,
        ),
        strokes(UnderlineStyle::Off, anchor, top, last, width).len() == 0,
        forall|row: int|
            row != anchor ==> !#[trigger] pixel_covered(
                strokes(UnderlineStyle::Single, anchor, top, last, width),
                column,
                row,
            ),
        forall|row: int|
            row != anchor && (row != anchor + 2 || anchor + 2 > last) ==> !#[trigger] pixel_covered(
                strokes(UnderlineStyle::Double, anchor, top, last, width),
                column,
                row,
            ),
{
    let single = strokes(UnderlineStyle::Single, anchor, top, last, width);
    assert(stroke_covers(single[0], column));
    let double = strokes(UnderlineStyle::Double, anchor, top, last, width);
    assert(stroke_covers(double[0], column));
    if anchor + 2 <= last {
        assert(stroke_covers(double[1], column));
    }
}

/// A dotted line covers one column in three, a dashed one four in six, from the
/// left edge of the cell.
pub proof fn law_broken_underlines(anchor: int, top: int, last: int, width: u32, column: int)
    requires
        0 <= column < width,
    ensures
        pixel_covered(strokes(UnderlineStyle::Dotted, anchor, top, last, width), column, anchor)
            <==> column % 3 == 0,
        pixel_covered(strokes(UnderlineStyle::Dashed, anchor, top, last, width), column, anchor)
            <==> column % 6 < 4,
{
    let dotted = strokes(UnderlineStyle::Dotted, anchor, top, last, width);
    if column % 3 == 0 {
        let i = column / 3;
        assert(stroke_covers(dotted[i], column) && dotted[i].y == anchor);
    }
    if pixel_covered(dotted, column, anchor) {
        let i = choose|i: int|
            0 <= i < dotted.len() && stroke_covers(#[trigger] dotted[i], column) && dotted[i].y
                == anchor;
        assert(column == 3 * i);
    }
    let dashed = strokes(UnderlineStyle::Dashed, anchor, top, last, width);
    if column % 6 < 4 {
        let i = column / 6;
        assert(stroke_covers(dashed[i], column) && dashed[i].y == anchor);
    }
    if pixel_covered(dashed, column, anchor) {
        let i = choose|i: int|
            0 <= i < dashed.len() && stroke_covers(#[trigger] dashed[i], column) && dashed[i].y
                == anchor;
        assert(6 * i <= column < 6 * i + 4);
    }
}

/// A curly line has one pixel in every column: in waves of six columns it goes
/// through its row, one below it, and one above it, as far as the cell has room.
pub proof fn law_curly_underlines(anchor: int, top: int, last: int, width: u32, column: int)
    requires
        0 <= column < width,
        top < anchor < last,
    ensures
        ({
            let curly = strokes(UnderlineStyle::Curly, anchor, top, last, width);
            &&& curly.len() == width
            &&& column % 3 == 0 ==> pixel_covered(curly, column, anchor)
            &&& column % 6 == 1 || column % 6 == 2 ==> pixel_covered(curly, column, anchor + 1)
            &&& column % 6 == 4 || column % 6 == 5 ==> pixel_covered(curly, column, anchor - 1)
            &&& forall|i: int|
                0 <= i < curly.len() && stroke_covers(#[trigger] curly[i], column) ==> i == column
        }),
{
    let curly = strokes(UnderlineStyle::Curly, anchor, top, last, width);
    assert(stroke_covers(curly[column], column));
}

/// An underline runs two rows of pixels below the baseline, and nearer where the
/// cell ends before.
pub proof fn law_underlines_hang_below_the_baseline(
    top: i32,
    height: u32,
    baseline: i32,
    style: UnderlineStyle,
)
    requires
        3 <= height <= i32::MAX,
        top + height - 1 <= i32::MAX,
        baseline + 2 <= i32::MAX,
        style != UnderlineStyle::Off,
    ensures
        ({
            let anchor = anchor_of(top, height, Some(baseline), style);
            let last = top + height - 1;
            let low = if style == UnderlineStyle::Curly { top + 1 } else { top as int };
            let high = if style == UnderlineStyle::Double {
                last - 2
            } else if style == UnderlineStyle::Curly {
                last - 1
            } else {
                last
            };
            &&& last_pixel_row(top, height) == Some(last)
            &&& anchor is Some
            &&& low <= anchor->0 <= high
            &&& low <= baseline + 2 <= high ==> anchor->0 == baseline + 2
            &&& baseline + 2 < low ==> anchor->0 == low
            &&& baseline + 2 > high ==> anchor->0 == high
        }),
        anchor_of(top, height, None, style) is None,
        anchor_of(top, 0, Some(baseline), style) is None,
        anchor_of(top, height, Some(baseline), UnderlineStyle::Off) is None,
{
}

/// Each stroke that can be addressed becomes a segment, moved to the left edge
/// of the cell, and nothing else does.
pub proof fn law_strokes_become_segments(all: Seq<Stroke>, left: i32, segment: Segment)
    requires
        forall|i: int|
            0 <= i < all.len() ==> {
                &&& 0 <= (#[trigger] all[i]).offset
                &&& i32::MIN <= all[i].y <= i32::MAX
                &&& 0 <= all[i].width <= u32::MAX
            },
    ensures
        placed(all, left).contains(segment) <==> exists|i: int|
            0 <= i < all.len() && addressable(#[trigger] all[i], left) && segment.x == left
                + all[i].offset && segment.y == all[i].y && segment.width == all[i].width,
    decreases all.len(),
{
    if all.len() > 0 {
        let before = all.drop_last();
        let stroke = all.last();
        assert forall|i: int| 0 <= i < before.len() implies {
            &&& 0 <= (#[trigger] before[i]).offset
            &&& i32::MIN <= before[i].y <= i32::MAX
            &&& 0 <= before[i].width <= u32::MAX
        } by {
            assert(before[i] == all[i]);
        }
        law_strokes_become_segments(before, left, segment);
        let held = placed(before, left);
        let done = placed(all, left);
        assert(all[all.len() - 1] == stroke);
        if addressable(stroke, left) {
            let last = Segment {
                x: (left + stroke.offset) as i32,
                y: stroke.y as i32,
                width: stroke.width as u32,
            };
            assert(done == held.push(last));
            assert(done[held.len() as int] == last);
            if held.contains(segment) {
                let k = held.index_of(segment);
                assert(done[k] == segment);
            }
            if done.contains(segment) {
                let k = done.index_of(segment);
                if k < held.len() {
                    assert(held[k] == segment);
                } else {
                    assert(addressable(all[all.len() - 1], left));
                }
            }
        }
        if held.contains(segment) {
            let i = choose|i: int|
                0 <= i < before.len() && addressable(#[trigger] before[i], left) && segment.x
                    == left + before[i].offset && segment.y == before[i].y && segment.width
                    == before[i].width;
            assert(addressable(all[i], left));
        }
        if exists|i: int|
            0 <= i < all.len() && addressable(#[trigger] all[i], left) && segment.x == left
                + all[i].offset && segment.y == all[i].y && segment.width == all[i].width {
            let i = choose|i: int|
                0 <= i < all.len() && addressable(#[trigger] all[i], left) && segment.x == left
                    + all[i].offset && segment.y == all[i].y && segment.width == all[i].width;
            if i < before.len() {
                assert(addressable(before[i], left));
            }
        }
    }
}

/// The segments of an underline are its strokes on its row of pixels.
pub proof fn law_underlines_are_their_strokes(
    origin: (i32, i32),
    width: u32,
    height: u32,
    baseline: Option<i32>,
    style: UnderlineStyle,
)
    ensures
        ({
            let anchor = anchor_of(origin.1, height, baseline, style);
            &&& anchor is None ==> underline_of(origin, width, height, baseline, style).len() == 0
            &&& anchor is Some ==> underline_of(origin, width, height, baseline, style) == placed(
                strokes(style, anchor->0, origin.1 as int, origin.1 + height - 1, width),
                origin.0,
            )
        }),
{
}

} // verus!
