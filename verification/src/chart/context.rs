//! Where a chart context puts the labels of its mesh within the label areas,
//! and whether a label area overlaps the plotting area.

use crate::coord::BackendCoord;
use vstd::prelude::*;

verus! {

/// A rectangle of pixels: its upper left corner and its width and height.
pub type PixelRect = (BackendCoord, (u32, u32));

/// The far corner of `r`, its sizes taken as `i32`.
pub open spec fn far_corner(r: PixelRect) -> (int, int) {
    (r.0.0 + (r.1.0 as i32), r.0.1 + (r.1.1 as i32))
}

/// Whether the far corner of `r` is within `i32`.
pub open spec fn rect_fits(r: PixelRect) -> bool {
    let c = far_corner(r);
    i32::MIN <= c.0 <= i32::MAX && i32::MIN <= c.1 <= i32::MAX
}

/// The larger of two integers.
pub open spec fn max_int(a: int, b: int) -> int {
    if a >= b {
        a
    } else {
        b
    }
}

/// The smaller of two integers.
pub open spec fn min_int(a: int, b: int) -> int {
    if a <= b {
        a
    } else {
        b
    }
}

/// Whether the rectangles `a` and `b` share pixels: their intersection is
/// not empty in either direction.
pub open spec fn spec_rects_overlap(a: PixelRect, b: PixelRect) -> bool {
    let (ax1, ay1) = far_corner(a);
    let (bx1, by1) = far_corner(b);
    min_int(ax1, bx1) > max_int(a.0.0 as int, b.0.0 as int) && min_int(ay1, by1) > max_int(
        a.0.1 as int,
        b.0.1 as int,
    )
}

/// Whether the label area `area`, if there is one, overlaps the plotting
/// area `plotting`.
pub fn is_overlapping_drawing_area(area: Option<PixelRect>, plotting: PixelRect) -> (r: bool)
    requires
        area matches Some(a) ==> rect_fits(a),
        rect_fits(plotting),
    ensures
        r == (area matches Some(a) && spec_rects_overlap(a, plotting)),
{
    match area {
        Some(a) => {
            let (x0, y0) = a.0;
            let (w, h) = a.1;
            let (x1, y1) = (x0 + (#[verifier::truncate] (w as i32)), y0 + (
            #[verifier::truncate] (h as i32)));
            let (dx0, dy0) = plotting.0;
            let (dw, dh) = plotting.1;
            let (dx1, dy1) = (dx0 + (#[verifier::truncate] (dw as i32)), dy0 + (
            #[verifier::truncate] (dh as i32)));
            let ox0 = if x0 >= dx0 {
                x0
            } else {
                dx0
            };
            let ox1 = if x1 <= dx1 {
                x1
            } else {
                dx1
            };
            let oy0 = if y0 >= dy0 {
                y0
            } else {
                dy0
            };
            let oy1 = if y1 <= dy1 {
                y1
            } else {
                dy1
            };
            ox1 > ox0 && oy1 > oy0
        },
        None => false,
    }
}

/// Whether two rectangles overlap does not depend on their order.
pub proof fn lemma_overlap_symmetric(a: PixelRect, b: PixelRect)
    ensures
        spec_rects_overlap(a, b) == spec_rects_overlap(b, a),
{
}

/// A rectangle of positive size overlaps itself.
pub proof fn lemma_overlap_reflexive(a: PixelRect)
    requires
        rect_fits(a),
        (a.1.0 as i32) > 0,
        (a.1.1 as i32) > 0,
    ensures
        spec_rects_overlap(a, a),
{
}

/// `v / 2` rounded toward zero, as Rust divides.
pub open spec fn half_toward_zero(v: int) -> int {
    if v >= 0 {
        v / 2
    } else {
        -((-v) / 2)
    }
}

/// The label of an X mesh line within the X label area: the tick mark from
/// `(x, 0)` to `(x, 5)` and the point where the text is written, `x` being
/// the line's pixel relative to the plotting area.
pub open spec fn spec_x_label_placement(p: i32, x0: i32, offset: i32, text_w: u32, area_w: u32) -> Option<
    (BackendCoord, BackendCoord, BackendCoord),
> {
    let x = p - x0;
    let half = half_toward_zero((text_w as i32) as int);
    if x + offset > 0 && x + offset + half < (area_w as i32) as int {
        Some(((x as i32, 0i32), (x as i32, 5i32), ((x - half + offset) as i32, 10i32)))
    } else {
        None
    }
}

/// Whether the placement of an X label can be computed within `i32`.
pub open spec fn x_label_fits(p: i32, x0: i32, offset: i32, text_w: u32) -> bool {
    let x = p - x0;
    let half = half_toward_zero((text_w as i32) as int);
    &&& i32::MIN <= x <= i32::MAX
    &&& i32::MIN <= x + offset <= i32::MAX
    &&& i32::MIN <= x + offset + half <= i32::MAX
    &&& i32::MIN <= x - half <= i32::MAX
    &&& i32::MIN <= x - half + offset <= i32::MAX
}

/// Where the label `text_w` pixels wide of the X mesh line at pixel `p` goes
/// in an X label area `area_w` pixels wide, the plotting area starting at
/// `x0` and the labels shifted by `offset`: the tick mark and the text
/// position, or `None` where the label does not fit in the area.
pub fn x_label_placement(p: i32, x0: i32, offset: i32, text_w: u32, area_w: u32) -> (r: Option<
    (BackendCoord, BackendCoord, BackendCoord),
>)
    requires
        x_label_fits(p, x0, offset, text_w),
    ensures
        r == spec_x_label_placement(p, x0, offset, text_w, area_w),
{
    let x = p - x0;
    let half = (#[verifier::truncate] (text_w as i32)) / 2;
    if x + offset > 0 && x + offset + half < (#[verifier::truncate] (area_w as i32)) {
        Some(((x, 0), (x, 5), (x - half + offset, 10)))
    } else {
        None
    }
}

/// The label of a Y mesh line within the Y label area: the point where the
/// text is written, right-aligned 10 pixels off the area's right edge, and
/// the tick mark from 5 pixels left of that edge to the edge.
pub open spec fn spec_y_label_placement(p: i32, y0: i32, text_size: (u32, u32), area_size: (u32, u32)) -> Option<
    (BackendCoord, BackendCoord, BackendCoord),
> {
    let y = p - y0;
    let half = half_toward_zero((text_size.1 as i32) as int);
    let tw = (area_size.0 as i32) as int;
    if y >= 0 && y - half <= (area_size.1 as i32) as int {
        Some(
            (
                ((tw - (text_size.0 as i32) - 10) as i32, (y - half) as i32),
                ((tw - 5) as i32, y as i32),
                (tw as i32, y as i32),
            ),
        )
    } else {
        None
    }
}

/// Whether the placement of a Y label can be computed within `i32`.
pub open spec fn y_label_fits(p: i32, y0: i32, text_size: (u32, u32), area_size: (u32, u32)) -> bool {
    let y = p - y0;
    let half = half_toward_zero((text_size.1 as i32) as int);
    let tw = (area_size.0 as i32) as int;
    &&& i32::MIN <= y <= i32::MAX
    &&& i32::MIN <= y - half <= i32::MAX
    &&& i32::MIN <= tw - (text_size.0 as i32) <= i32::MAX
    &&& i32::MIN <= tw - (text_size.0 as i32) - 10 <= i32::MAX
    &&& tw >= i32::MIN + 5
}

/// Where the label of size `text_size` of the Y mesh line at pixel `p` goes
/// in a Y label area of size `area_size`, the plotting area starting at
/// `y0`: the text position and the tick mark, or `None` where the line is
/// above the area or the label would start below it.
pub fn y_label_placement(p: i32, y0: i32, text_size: (u32, u32), area_size: (u32, u32)) -> (r:
    Option<(BackendCoord, BackendCoord, BackendCoord)>)
    requires
        y_label_fits(p, y0, text_size, area_size),
    ensures
        r == spec_y_label_placement(p, y0, text_size, area_size),
{
    let y = p - y0;
    let half = (#[verifier::truncate] (text_size.1 as i32)) / 2;
    let tw = #[verifier::truncate] (area_size.0 as i32);
    let th = #[verifier::truncate] (area_size.1 as i32);
    let w = #[verifier::truncate] (text_size.0 as i32);
    if y >= 0 && y - half <= th {
        Some(((tw - w - 10, y - half), (tw - 5, y), (tw, y)))
    } else {
        None
    }
}


/// The context that an interactive backend is given around one element of a
/// series drawn with tooltips.
pub enum ElementContext {
    /// A single data point: its position and the labels of its coordinates.
    DataPoint {
        /// The position of the point.
        coord: BackendCoord,
        /// The label of its X value.
        x_label: String,
        /// The label of its Y value.
        y_label: String,
        /// The series it belongs to.
        series_id: usize,
    },
    /// A line through several points: each point's X pixel with its label,
    /// and each point's Y pixel with its label.
    DataLine {
        /// The X pixels and labels of the points.
        x_points: Vec<(i32, String)>,
        /// The Y pixels and labels of the points.
        y_points: Vec<(i32, String)>,
        /// The series it belongs to.
        series_id: usize,
    },
}

/// The context of an element of series `series_id` whose points are
/// `mapped` (each with its position and the labels of its coordinates): none
/// for an element without points, a data point for one point, a data line
/// for more.
pub fn element_context(mapped: Vec<(BackendCoord, String, String)>, series_id: usize) -> (r:
    Option<ElementContext>)
    ensures
        mapped@.len() == 0 ==> r is None,
        mapped@.len() == 1 ==> (r matches Some(
            ElementContext::DataPoint { coord, x_label, y_label, series_id: id },
        ) && coord == mapped@[0].0 && x_label == mapped@[0].1 && y_label == mapped@[0].2 && id
            == series_id),
        mapped@.len() >= 2 ==> (r matches Some(
            ElementContext::DataLine { x_points, y_points, series_id: id },
        ) && x_points@ == Seq::new(mapped@.len(), |i: int| (mapped@[i].0.0, mapped@[i].1))
            && y_points@ == Seq::new(mapped@.len(), |i: int| (mapped@[i].0.1, mapped@[i].2))
            && id == series_id),
{
    if mapped.len() == 0 {
        return None;
    }
    if mapped.len() == 1 {
        let first = &mapped[0];
        return Some(
            ElementContext::DataPoint {
                coord: first.0,
                x_label: first.1.clone(),
                y_label: first.2.clone(),
                series_id,
            },
        );
    }
    let mut x_points: Vec<(i32, String)> = Vec::new();
    let mut y_points: Vec<(i32, String)> = Vec::new();
    let mut i: usize = 0;
    while i < mapped.len()
        invariant
            0 <= i <= mapped@.len(),
            x_points@ == Seq::new(i as nat, |k: int| (mapped@[k].0.0, mapped@[k].1)),
            y_points@ == Seq::new(i as nat, |k: int| (mapped@[k].0.1, mapped@[k].2)),
        decreases mapped@.len() - i,
    {
        let (c, xl, yl) = (&mapped[i].0, &mapped[i].1, &mapped[i].2);
        x_points.push((c.0, xl.clone()));
        y_points.push((c.1, yl.clone()));
        proof {
            assert(x_points@ =~= Seq::new((i + 1) as nat, |k: int| (mapped@[k].0.0, mapped@[k].1)));
            assert(y_points@ =~= Seq::new((i + 1) as nat, |k: int| (mapped@[k].0.1, mapped@[k].2)));
        }
        i = i + 1;
    }
    Some(ElementContext::DataLine { x_points, y_points, series_id })
}

} // verus!
