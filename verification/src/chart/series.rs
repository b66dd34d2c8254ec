//! The placement of the series label box within a chart.

use vstd::prelude::*;

verus! {

/// Where the series label box is placed within the plotting area.
pub enum SeriesLabelPosition {
    /// At the upper right corner.
    UpperRight,
    /// At the middle of the right edge.
    MiddleRight,
    /// At the lower right corner.
    LowerRight,
    /// With its upper left corner at the given position.
    Coordinate(i32, i32),
}

/// `x / 2`, rounded toward zero.
pub open spec fn half(x: int) -> int {
    if x >= 0 {
        x / 2
    } else {
        -((-x) / 2)
    }
}

impl SeriesLabelPosition {
    /// The upper left corner of a label box of size `label_dim` within an area
    /// of size `area_dim`. The area sizes are taken as `i32`, wrapped where
    /// they do not fit.
    pub open spec fn spec_layout_label_area(&self, label_dim: (i32, i32), area_dim: (u32, u32)) -> (
        int,
        int,
    ) {
        let w = (area_dim.0 as i32) as int - label_dim.0;
        let h = (area_dim.1 as i32) as int - label_dim.1;
        match self {
            SeriesLabelPosition::UpperRight => (w, 0),
            SeriesLabelPosition::MiddleRight => (w, half(h)),
            SeriesLabelPosition::LowerRight => (w, h),
            SeriesLabelPosition::Coordinate(x, y) => (*x as int, *y as int),
        }
    }

    /// Whether the differences of the sizes fit `i32`.
    pub open spec fn layout_label_area_ok(&self, label_dim: (i32, i32), area_dim: (u32, u32)) -> bool {
        let w = (area_dim.0 as i32) as int - label_dim.0;
        let h = (area_dim.1 as i32) as int - label_dim.1;
        match self {
            SeriesLabelPosition::UpperRight => i32::MIN <= w <= i32::MAX,
            SeriesLabelPosition::MiddleRight => i32::MIN <= w <= i32::MAX && i32::MIN <= h
                <= i32::MAX,
            SeriesLabelPosition::LowerRight => i32::MIN <= w <= i32::MAX && i32::MIN <= h
                <= i32::MAX,
            SeriesLabelPosition::Coordinate(_, _) => true,
        }
    }

    /// The upper left corner of a label box of size `label_dim` within an area
    /// of size `area_dim`.
    pub fn layout_label_area(&self, label_dim: (i32, i32), area_dim: (u32, u32)) -> (r: (i32, i32))
        requires
            self.layout_label_area_ok(label_dim, area_dim),
        ensures
            (r.0 as int, r.1 as int) == self.spec_layout_label_area(label_dim, area_dim),
    {
        let area_w = (#[verifier::truncate] (area_dim.0 as i32));
        let area_h = (#[verifier::truncate] (area_dim.1 as i32));
        match self {
            SeriesLabelPosition::UpperRight => (area_w - label_dim.0, 0),
            SeriesLabelPosition::MiddleRight => {
                let h = area_h - label_dim.1;
                let half_h = if h >= 0 {
                    h / 2
                } else {
                    -((-(h as i64) / 2) as i32)
                };
                (area_w - label_dim.0, half_h)
            },
            SeriesLabelPosition::LowerRight => (area_w - label_dim.0, area_h - label_dim.1),
            SeriesLabelPosition::Coordinate(x, y) => (*x, *y),
        }
    }
}


/// Where the series label box goes and what it holds: its upper left corner
/// and size, and the point where its text starts.
#[derive(Clone, Copy, Debug)]
pub struct SeriesLabelLayout {
    /// The upper left corner of the box.
    pub corner: (i32, i32),
    /// The width and height of the box.
    pub size: (i32, i32),
    /// The upper left corner of the text within the drawing area.
    pub text_origin: (i32, i32),
}

/// The size of the series label box around text of size `text_dim`: the
/// text, the legend area left of it and the margin on every side.
pub open spec fn spec_label_box_size(text_dim: (i32, i32), margin: u32, legend_area_size: u32) -> (int, int) {
    (
        text_dim.0 + (legend_area_size as i32) + (margin as i32) * 2,
        text_dim.1 + (margin as i32) * 2,
    )
}

impl SeriesLabelPosition {
    /// The series label box for text of size `text_dim`, a margin of
    /// `margin` pixels and a legend area `legend_area_size` pixels wide,
    /// placed in an area of size `area_dim`.
    pub open spec fn spec_label_layout(&self, text_dim: (i32, i32), margin: u32, legend_area_size: u32, area_dim: (u32, u32)) -> (int, int, int, int, int, int) {
        let (w, h) = spec_label_box_size(text_dim, margin, legend_area_size);
        let (x, y) = self.spec_layout_label_area((w as i32, h as i32), area_dim);
        (x, y, w, h, x + (legend_area_size as i32) + (margin as i32), y + (margin as i32))
    }

    /// Whether the series label box can be laid out within `i32`.
    pub open spec fn label_layout_ok(&self, text_dim: (i32, i32), margin: u32, legend_area_size: u32, area_dim: (u32, u32)) -> bool {
        let m = (margin as i32) as int;
        let l = (legend_area_size as i32) as int;
        let (w, h) = spec_label_box_size(text_dim, margin, legend_area_size);
        let (x, y) = self.spec_layout_label_area((w as i32, h as i32), area_dim);
        &&& i32::MIN <= m * 2 <= i32::MAX
        &&& i32::MIN <= text_dim.0 + l <= i32::MAX
        &&& i32::MIN <= w <= i32::MAX
        &&& i32::MIN <= h <= i32::MAX
        &&& self.layout_label_area_ok((w as i32, h as i32), area_dim)
        &&& i32::MIN <= x + l <= i32::MAX
        &&& i32::MIN <= x + l + m <= i32::MAX
        &&& i32::MIN <= y + m <= i32::MAX
    }

    /// Lay out the series label box: the text of size `text_dim` with the
    /// legend area of `legend_area_size` pixels left of it and `margin`
    /// pixels around both, placed by this position in an area of size
    /// `area_dim`.
    pub fn label_layout(&self, text_dim: (i32, i32), margin: u32, legend_area_size: u32, area_dim: (u32, u32)) -> (r: SeriesLabelLayout)
        requires
            self.label_layout_ok(text_dim, margin, legend_area_size, area_dim),
        ensures
            (r.corner.0 as int, r.corner.1 as int, r.size.0 as int, r.size.1 as int,
            r.text_origin.0 as int, r.text_origin.1 as int) == self.spec_label_layout(
                text_dim,
                margin,
                legend_area_size,
                area_dim,
            ),
    {
        let margin = #[verifier::truncate] (margin as i32);
        let legend = #[verifier::truncate] (legend_area_size as i32);
        let w = text_dim.0 + legend + margin * 2;
        let h = text_dim.1 + margin * 2;
        let (x, y) = self.layout_label_area((w, h), area_dim);
        SeriesLabelLayout { corner: (x, y), size: (w, h), text_origin: (x + legend + margin, y + margin) }
    }
}

/// The point where the legend element of a text line spanning rows `y0` to
/// `y1` is drawn: `margin` pixels right of the box's left edge `x`, halfway
/// down the line.
pub fn legend_position(x: i32, margin: u32, line: (i32, i32)) -> (r: (i32, i32))
    requires
        i32::MIN <= x + (margin as i32) <= i32::MAX,
        i32::MIN <= line.0 + line.1 <= i32::MAX,
    ensures
        r.0 == x + (margin as i32),
        r.1 == half(line.0 + line.1),
{
    let s = line.0 + line.1;
    let mid = if s >= 0 {
        s / 2
    } else {
        -((-(s as i64) / 2) as i32)
    };
    (x + (#[verifier::truncate] (margin as i32)), mid)
}

} // verus!
