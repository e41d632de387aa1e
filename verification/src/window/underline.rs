//! The strokes of the underlines.
use crate::grid::cell::UnderlineStyle;
use crate::window::geometry::clamped;
use vstd::prelude::*;

verus! {

/// A stroke one pixel high: its left end, and how many pixels it covers.
#[derive(Debug, Clone, Copy, PartialEq, Eq, Structural)]
pub struct Segment {
    pub x: i32,
    pub y: i32,
    pub width: u32,
}

/// A stroke before it is placed: its distance from the left edge of the cell.
pub ghost struct Stroke {
    pub offset: int,
    pub y: int,
    pub width: int,
    /// Its row was found without leaving the range of the coordinates.
    pub exact: bool,
}

/// The last row of pixels of a cell, if the frame can address it.
pub open spec fn last_pixel_row(top: i32, height: u32) -> Option<int> {
    if 0 < height <= i32::MAX && top + height - 1 <= i32::MAX {
        Some(top + height - 1)
    } else {
        None
    }
}

/// The rows of pixels that a style keeps free at the top of a cell.
pub open spec fn leading_inset(style: UnderlineStyle) -> int {
    if style is Curly { 1 } else { 0 }
}

/// The rows of pixels that a style keeps free at the bottom of a cell.
pub open spec fn trailing_inset(style: UnderlineStyle) -> int {
    match style {
        UnderlineStyle::Double => 2,
        UnderlineStyle::Curly => 1,
        _ => 0,
    }
}

/// The row of pixels that an underline is drawn on: two below the baseline, as
/// far as the cell has room.
pub open spec fn anchor_of(
    top: i32,
    height: u32,
    baseline: Option<i32>,
    style: UnderlineStyle,
) -> Option<int> {
    let low = top + leading_inset(style);
    match (last_pixel_row(top, height), baseline) {
        (Some(last), Some(baseline)) => {
            let high = last - trailing_inset(style);
            if style is Off || baseline + 2 > i32::MAX || low > i32::MAX || high < i32::MIN {
                None
            } else if low <= high {
                Some(clamped(baseline + 2, low, high))
            } else {
                Some(clamped(baseline + 2, top as int, last))
            }
        },
        _ => None,
    }
}

fn clamp_row(value: i32, low: i32, high: i32) -> (r: i32)
    ensures
        r == clamped(value as int, low as int, high as int),
{
    if value < low {
        low
    } else if value > high {
        high
    } else {
        value
    }
}

fn last_row(top: i32, height: u32) -> (r: Option<i32>)
    ensures
        r is Some <==> last_pixel_row(top, height) is Some,
        r is Some ==> r->0 == last_pixel_row(top, height)->0,
{
    if height == 0 || height > 0x7fff_ffff {
        return None;
    }
    top.checked_add((height - 1) as i32)
}

/// The row of pixels of an underline in a cell at `cell_origin_y` whose glyphs
/// stand on `baseline`.
pub fn underline_anchor_y(
    cell_origin_y: i32,
    cell_height: u32,
    baseline: Option<i32>,
    style: UnderlineStyle,
) -> (r: Option<i32>)
    ensures
        r is Some <==> anchor_of(cell_origin_y, cell_height, baseline, style) is Some,
        r is Some ==> r->0 == anchor_of(cell_origin_y, cell_height, baseline, style)->0,
{
    if style == UnderlineStyle::Off || cell_height == 0 {
        return None;
    }
    let last: i32 = match last_row(cell_origin_y, cell_height) {
        Some(last) => last,
        None => {
            return None;
        },
    };
    let desired: i32 = match baseline {
        Some(baseline) => match baseline.checked_add(2) {
            Some(desired) => desired,
            None => {
                return None;
            },
        },
        None => {
            return None;
        },
    };
    let (leading, trailing): (i32, i32) = match style {
        UnderlineStyle::Double => (0, 2),
        UnderlineStyle::Curly => (1, 1),
        _ => (0, 0),
    };
    match (cell_origin_y.checked_add(leading), last.checked_sub(trailing)) {
        (Some(low), Some(high)) => if low <= high {
            Some(clamp_row(desired, low, high))
        } else {
            Some(clamp_row(desired, cell_origin_y, last))
        },
        _ => None,
    }
}

/// How far a curly line is off its row, pixel by pixel.
pub open spec fn wave(offset: int) -> int {
    let phase = offset % 6;
    if phase == 1 || phase == 2 {
        1
    } else if phase == 4 || phase == 5 {
        -1
    } else {
        0
    }
}

/// The strokes of a style whose row of pixels is `anchor`.
pub open spec fn strokes(
    style: UnderlineStyle,
    anchor: int,
    top: int,
    last: int,
    width: u32,
) -> Seq<Stroke> {
    match style {
        UnderlineStyle::Off => Seq::empty(),
        UnderlineStyle::Single => seq![Stroke { offset: 0, y: anchor, width: width as int, exact: true }],
        UnderlineStyle::Double => if anchor + 2 <= last {
            seq![
                Stroke { offset: 0, y: anchor, width: width as int, exact: true },
                Stroke { offset: 0, y: anchor + 2, width: width as int, exact: true },
            ]
        } else {
            seq![Stroke { offset: 0, y: anchor, width: width as int, exact: true }]
        },
        UnderlineStyle::Curly => Seq::new(
            width as nat,
            |i: int|
                Stroke {
                    offset: i,
                    y: clamped(anchor + wave(i), top, last),
                    width: 1,
                    exact: i32::MIN <= anchor + wave(i) <= i32::MAX,
                },
        ),
        UnderlineStyle::Dotted => Seq::new(
            ((width + 2) / 3) as nat,
            |i: int| Stroke { offset: 3 * i, y: anchor, width: 1, exact: true },
        ),
        UnderlineStyle::Dashed => Seq::new(
            ((width + 5) / 6) as nat,
            |i: int|
                Stroke {
                    offset: 6 * i,
                    y: anchor,
                    width: if width - 6 * i < 4 { width - 6 * i } else { 4 },
                    exact: true,
                },
        ),
    }
}

/// A stroke begins where the frame can address it.
pub open spec fn addressable(stroke: Stroke, left: i32) -> bool {
    stroke.exact && stroke.offset <= i32::MAX && left + stroke.offset <= i32::MAX
}

/// The strokes that can be addressed, from the left edge of a cell.
pub open spec fn placed(strokes: Seq<Stroke>, left: i32) -> Seq<Segment>
    decreases strokes.len(),
{
    if strokes.len() == 0 {
        Seq::empty()
    } else {
        let before = placed(strokes.drop_last(), left);
        let stroke = strokes.last();
        if addressable(stroke, left) {
            before.push(
                Segment {
                    x: (left + stroke.offset) as i32,
                    y: stroke.y as i32,
                    width: stroke.width as u32,
                },
            )
        } else {
            before
        }
    }
}

/// The segments of an underline.
pub open spec fn underline_of(
    origin: (i32, i32),
    width: u32,
    height: u32,
    baseline: Option<i32>,
    style: UnderlineStyle,
) -> Seq<Segment> {
    match (anchor_of(origin.1, height, baseline, style), last_pixel_row(origin.1, height)) {
        (Some(anchor), Some(last)) => placed(
            strokes(style, anchor, origin.1 as int, last, width),
            origin.0,
        ),
        _ => Seq::empty(),
    }
}

/// Add a stroke, if it can be addressed.
fn push_segment(segments: &mut Vec<Segment>, left: i32, offset: u32, y: i32, width: u32)
    ensures
        final(segments)@ == if offset <= i32::MAX && left + offset <= i32::MAX {
            old(segments)@.push(Segment { x: (left + offset) as i32, y, width })
        } else {
            old(segments)@
        },
{
    if offset <= 0x7fff_ffff {
        if let Some(x) = left.checked_add(offset as i32) {
            segments.push(Segment { x, y, width });
        }
    }
}

proof fn lemma_placed_step(strokes: Seq<Stroke>, at: int, left: i32)
    requires
        0 <= at < strokes.len(),
    ensures
        placed(strokes.take(at + 1), left) == if addressable(strokes[at], left) {
            placed(strokes.take(at), left).push(
                Segment {
                    x: (left + strokes[at].offset) as i32,
                    y: strokes[at].y as i32,
                    width: strokes[at].width as u32,
                },
            )
        } else {
            placed(strokes.take(at), left)
        },
{
    assert(strokes.take(at + 1).drop_last() =~= strokes.take(at));
}

fn curly_segments(left: i32, width: u32, anchor: i32, top: i32, last: i32) -> (r: Vec<Segment>)
    ensures
        r@ == placed(
            strokes(UnderlineStyle::Curly, anchor as int, top as int, last as int, width),
            left,
        ),
{
    let ghost all = strokes(UnderlineStyle::Curly, anchor as int, top as int, last as int, width);
    let mut segments: Vec<Segment> = Vec::new();
    let mut at: u32 = 0;
    proof {
        assert(all.take(0).len() == 0);
        assert(placed(all.take(0), left) =~= segments@);
    }
    while at < width
        invariant
            at <= width,
            all == strokes(
                UnderlineStyle::Curly,
                anchor as int,
                top as int,
                last as int,
                width,
            ),
            segments@ == placed(all.take(at as int), left),
        decreases width - at,
    {
        let phase: u32 = at % 6;
        let offset: i32 = if phase == 1 || phase == 2 {
            1
        } else if phase == 4 || phase == 5 {
            -1
        } else {
            0
        };
        proof {
            lemma_placed_step(all, at as int, left);
            assert(offset == wave(at as int));
        }
        if let Some(y) = anchor.checked_add(offset) {
            push_segment(&mut segments, left, at, clamp_row(y, top, last), 1);
        }
        at += 1;
    }
    proof {
        assert(all.take(at as int) =~= all);
    }
    segments
}

fn dotted_segments(left: i32, width: u32, anchor: i32) -> (r: Vec<Segment>)
    ensures
        r@ == placed(strokes(UnderlineStyle::Dotted, anchor as int, 0, 0, width), left),
{
    let ghost all = strokes(UnderlineStyle::Dotted, anchor as int, 0, 0, width);
    let mut segments: Vec<Segment> = Vec::new();
    let mut at: u64 = 0;
    let ghost mut count: int = 0;
    proof {
        assert(all.take(0).len() == 0);
        assert(placed(all.take(0), left) =~= segments@);
    }
    while at < width as u64
        invariant
            0 <= count <= all.len(),
            at == 3 * count,
            all == strokes(UnderlineStyle::Dotted, anchor as int, 0, 0, width),
            segments@ == placed(all.take(count), left),
        decreases width + 3 - at,
    {
        proof {
            assert(count < all.len());
            lemma_placed_step(all, count, left);
        }
        push_segment(&mut segments, left, at as u32, anchor, 1);
        at += 3;
        proof {
            count = count + 1;
        }
    }
    proof {
        assert(count == all.len());
        assert(all.take(count) =~= all);
    }
    segments
}

fn dashed_segments(left: i32, width: u32, anchor: i32) -> (r: Vec<Segment>)
    ensures
        r@ == placed(strokes(UnderlineStyle::Dashed, anchor as int, 0, 0, width), left),
{
    let ghost all = strokes(UnderlineStyle::Dashed, anchor as int, 0, 0, width);
    let mut segments: Vec<Segment> = Vec::new();
    let mut at: u64 = 0;
    let ghost mut count: int = 0;
    proof {
        assert(all.take(0).len() == 0);
        assert(placed(all.take(0), left) =~= segments@);
    }
    while at < width as u64
        invariant
            0 <= count <= all.len(),
            at == 6 * count,
            all == strokes(UnderlineStyle::Dashed, anchor as int, 0, 0, width),
            segments@ == placed(all.take(count), left),
        decreases width + 6 - at,
    {
        proof {
            assert(count < all.len());
            lemma_placed_step(all, count, left);
        }
        let rest: u32 = width - at as u32;
        push_segment(&mut segments, left, at as u32, anchor, if rest < 4 { rest } else { 4 });
        at += 6;
        proof {
            count = count + 1;
        }
    }
    proof {
        assert(count == all.len());
        assert(all.take(count) =~= all);
    }
    segments
}

/// The segments of the underline of a cell that is `width` pixels wide.
pub fn underline_segments(
    origin: (i32, i32),
    width: u32,
    cell_height: u32,
    baseline: Option<i32>,
    style: UnderlineStyle,
) -> (r: Vec<Segment>)
    ensures
        r@ == underline_of(origin, width, cell_height, baseline, style),
{
    let mut segments: Vec<Segment> = Vec::new();
    let anchor: i32 = match underline_anchor_y(origin.1, cell_height, baseline, style) {
        Some(anchor) => anchor,
        None => {
            return segments;
        },
    };
    let last: i32 = match last_row(origin.1, cell_height) {
        Some(last) => last,
        None => {
            return segments;
        },
    };
    let ghost all = strokes(style, anchor as int, origin.1 as int, last as int, width);
    match style {
        UnderlineStyle::Off => {},
        UnderlineStyle::Single => {
            push_segment(&mut segments, origin.0, 0, anchor, width);
            proof {
                assert(all.drop_last().len() == 0);
                assert(placed(all.drop_last(), origin.0) =~= Seq::empty());
                assert(segments@ =~= placed(all, origin.0));
            }
        },
        UnderlineStyle::Double => {
            push_segment(&mut segments, origin.0, 0, anchor, width);
            if let Some(second) = anchor.checked_add(2) {
                if second <= last {
                    push_segment(&mut segments, origin.0, 0, second, width);
                }
            }
            proof {
                lemma_placed_step(all, 0, origin.0);
                assert(all.take(0).len() == 0);
                if all.len() == 2 {
                    lemma_placed_step(all, 1, origin.0);
                }
                assert(all.take(all.len() as int) =~= all);
                assert(segments@ =~= placed(all, origin.0));
            }
        },
        UnderlineStyle::Curly => {
            segments = curly_segments(origin.0, width, anchor, origin.1, last);
        },
        UnderlineStyle::Dotted => {
            segments = dotted_segments(origin.0, width, anchor);
            proof {
                assert(all =~= strokes(UnderlineStyle::Dotted, anchor as int, 0, 0, width));
            }
        },
        UnderlineStyle::Dashed => {
            segments = dashed_segments(origin.0, width, anchor);
            proof {
                assert(all =~= strokes(UnderlineStyle::Dashed, anchor as int, 0, 0, width));
            }
        },
    }
    segments
}

/// A segment lies in a cell.
pub open spec fn in_cell(segment: Segment, origin: (i32, i32), width: u32, height: u32) -> bool {
    origin.0 <= segment.x && segment.x + segment.width <= origin.0 + width && origin.1 <= segment.y
        && segment.y <= origin.1 + height - 1
}

proof fn lemma_placed_in_cell(
    all: Seq<Stroke>,
    origin: (i32, i32),
    width: u32,
    height: u32,
)
    requires
        forall|i: int|
            0 <= i < all.len() ==> 0 <= (#[trigger] all[i]).offset && 0 <= all[i].width
                && all[i].offset + all[i].width <= width && origin.1 <= all[i].y && all[i].y
                <= origin.1 + height - 1 && all[i].y <= i32::MAX,
    ensures
        forall|i: int|
            0 <= i < placed(all, origin.0).len() ==> in_cell(
                #[trigger] placed(all, origin.0)[i],
                origin,
                width,
                height,
            ),
    decreases all.len(),
{
    if all.len() > 0 {
        let before = all.drop_last();
        assert forall|i: int| 0 <= i < before.len() implies 0 <= (#[trigger] before[i]).offset && 0
            <= before[i].width && before[i].offset + before[i].width <= width && origin.1
            <= before[i].y && before[i].y <= origin.1 + height - 1 && before[i].y <= i32::MAX by {
            assert(before[i] == all[i]);
        }
        lemma_placed_in_cell(before, origin, width, height);
        let stroke = all[all.len() - 1];
        assert(0 <= stroke.offset);
        let after = placed(all, origin.0);
        let kept = placed(before, origin.0);
        assert forall|i: int| 0 <= i < after.len() implies in_cell(
            #[trigger] after[i],
            origin,
            width,
            height,
        ) by {
            if i < kept.len() {
                assert(after[i] == kept[i]);
            }
        }
    }
}

/// No underline leaves the cell that it belongs to.
pub proof fn law_underline_stays_in_cell(
    origin: (i32, i32),
    width: u32,
    height: u32,
    baseline: Option<i32>,
    style: UnderlineStyle,
)
    ensures
        forall|i: int|
            0 <= i < underline_of(origin, width, height, baseline, style).len() ==> in_cell(
                #[trigger] underline_of(origin, width, height, baseline, style)[i],
                origin,
                width,
                height,
            ),
{
    match (anchor_of(origin.1, height, baseline, style), last_pixel_row(origin.1, height)) {
        (Some(anchor), Some(last)) => {
            let all = strokes(style, anchor, origin.1 as int, last, width);
            assert forall|i: int| 0 <= i < all.len() implies 0 <= (#[trigger] all[i]).offset && 0
                <= all[i].width && all[i].offset + all[i].width <= width && origin.1 <= all[i].y
                && all[i].y <= origin.1 + height - 1 && all[i].y <= i32::MAX by {}
            lemma_placed_in_cell(all, origin, width, height);
        },
        _ => {},
    }
}

} // verus!
