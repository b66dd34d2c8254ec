//! The chart builder: the margins, the label areas around the plotting area
//! and the caption of a chart, and how they split the drawing area.

use vstd::prelude::*;

verus! {

/// The position of a label area around the chart.
#[derive(Clone, Copy, Debug, PartialEq, Eq, Structural)]
pub enum LabelAreaPosition {
    /// Above the chart.
    Top,
    /// Below the chart.
    Bottom,
    /// Left of the chart.
    Left,
    /// Right of the chart.
    Right,
}

impl LabelAreaPosition {
    /// The number of the position, by which the label area sizes are kept:
    /// top 0, bottom 1, left 2, right 3.
    pub open spec fn spec_index(&self) -> usize {
        match self {
            LabelAreaPosition::Top => 0,
            LabelAreaPosition::Bottom => 1,
            LabelAreaPosition::Left => 2,
            LabelAreaPosition::Right => 3,
        }
    }

    /// The number of the position, by which the label area sizes are kept.
    pub fn index(&self) -> (r: usize)
        ensures
            r == self.spec_index(),
    {
        match self {
            LabelAreaPosition::Top => 0,
            LabelAreaPosition::Bottom => 1,
            LabelAreaPosition::Left => 2,
            LabelAreaPosition::Right => 3,
        }
    }
}

/// A size given in pixels, clamped at zero: a negative margin is no margin.
pub open spec fn clamp_size(size: i32) -> u32 {
    if size > 0 {
        size as u32
    } else {
        0
    }
}

/// The helper object to create a chart context, on the root drawing area of
/// type `R`, with a caption in the text style `T`: the sizes of the label
/// areas (top, bottom, left, right), whether each one overlaps the plotting
/// area, the caption and the margins (top, bottom, left, right).
pub struct ChartBuilder<'a, R, T> {
    /// The sizes of the label areas: top, bottom, left, right.
    pub label_area_size: [u32; 4],
    /// Whether each label area is drawn over the plotting area.
    pub overlap_plotting_area: [bool; 4],
    /// The root drawing area.
    pub root_area: &'a R,
    /// The caption and its style.
    pub title: Option<(String, T)>,
    /// The margins: top, bottom, left, right.
    pub margin: [u32; 4],
}

impl<'a, R, T> ChartBuilder<'a, R, T> {
    /// Create a chart builder on the given drawing area
    /// - `root`: The root drawing area
    /// - Returns: The chart builder object
    pub fn on(root: &'a R) -> (r: Self)
        ensures
            r.label_area_size@ == seq![0u32, 0, 0, 0],
            r.overlap_plotting_area@ == seq![false, false, false, false],
            r.root_area == root,
            r.title is None,
            r.margin@ == seq![0u32, 0, 0, 0],
    {
        let r = ChartBuilder {
            label_area_size: [0, 0, 0, 0],
            overlap_plotting_area: [false, false, false, false],
            root_area: root,
            title: None,
            margin: [0, 0, 0, 0],
        };
        proof {
            assert(r.label_area_size@ =~= seq![0u32, 0, 0, 0]);
            assert(r.overlap_plotting_area@ =~= seq![false, false, false, false]);
            assert(r.margin@ =~= seq![0u32, 0, 0, 0]);
        }
        r
    }

    /// The margin `size` in pixels, zero where it is negative.
    fn margin_pixels(size: i32) -> (r: u32)
        ensures
            r == clamp_size(size),
    {
        if size > 0 {
            size as u32
        } else {
            0
        }
    }

    /// Set the margin size of the chart (applied for top, bottom, left and
    /// right at the same time), in pixels.
    pub fn margin(&mut self, size: i32) -> (r: &mut Self)
        ensures
            r.margin@ == seq![clamp_size(size), clamp_size(size), clamp_size(size), clamp_size(size)],
            r.label_area_size == old(self).label_area_size,
            r.overlap_plotting_area == old(self).overlap_plotting_area,
            r.title == old(self).title,
            r.root_area == old(self).root_area,
            *final(self) == *final(r),
    {
        let size = Self::margin_pixels(size);
        self.margin = [size, size, size, size];
        proof {
            assert(self.margin@ =~= seq![size, size, size, size]);
        }
        self
    }

    /// Set the margin on the side `side` (top 0, bottom 1, left 2, right 3).
    fn set_margin(&mut self, side: usize, size: i32) -> (r: &mut Self)
        requires
            side < 4,
        ensures
            r.margin@ == old(self).margin@.update(side as int, clamp_size(size)),
            r.label_area_size == old(self).label_area_size,
            r.overlap_plotting_area == old(self).overlap_plotting_area,
            r.title == old(self).title,
            r.root_area == old(self).root_area,
            *final(self) == *final(r),
    {
        let size = Self::margin_pixels(size);
        let m = self.margin;
        let new_margin = [
            if side == 0 { size } else { m[0] },
            if side == 1 { size } else { m[1] },
            if side == 2 { size } else { m[2] },
            if side == 3 { size } else { m[3] },
        ];
        self.margin = new_margin;
        proof {
            assert(self.margin@ =~= m@.update(side as int, size));
        }
        self
    }

    /// Set the top margin of current chart, in pixels.
    pub fn margin_top(&mut self, size: i32) -> (r: &mut Self)
        ensures
            r.margin@ == old(self).margin@.update(0, clamp_size(size)),
            r.label_area_size == old(self).label_area_size,
            r.overlap_plotting_area == old(self).overlap_plotting_area,
            r.title == old(self).title,
            r.root_area == old(self).root_area,
            *final(self) == *final(r),
    {
        self.set_margin(0, size)
    }

    /// Set the bottom margin of current chart, in pixels.
    pub fn margin_bottom(&mut self, size: i32) -> (r: &mut Self)
        ensures
            r.margin@ == old(self).margin@.update(1, clamp_size(size)),
            r.label_area_size == old(self).label_area_size,
            r.overlap_plotting_area == old(self).overlap_plotting_area,
            r.title == old(self).title,
            r.root_area == old(self).root_area,
            *final(self) == *final(r),
    {
        self.set_margin(1, size)
    }

    /// Set the left margin of current chart, in pixels.
    pub fn margin_left(&mut self, size: i32) -> (r: &mut Self)
        ensures
            r.margin@ == old(self).margin@.update(2, clamp_size(size)),
            r.label_area_size == old(self).label_area_size,
            r.overlap_plotting_area == old(self).overlap_plotting_area,
            r.title == old(self).title,
            r.root_area == old(self).root_area,
            *final(self) == *final(r),
    {
        self.set_margin(2, size)
    }

    /// Set the right margin of current chart, in pixels.
    pub fn margin_right(&mut self, size: i32) -> (r: &mut Self)
        ensures
            r.margin@ == old(self).margin@.update(3, clamp_size(size)),
            r.label_area_size == old(self).label_area_size,
            r.overlap_plotting_area == old(self).overlap_plotting_area,
            r.title == old(self).title,
            r.root_area == old(self).root_area,
            *final(self) == *final(r),
    {
        self.set_margin(3, size)
    }

    /// Set a label area size, in pixels: the area at `pos` gets the size's
    /// magnitude, and a negative size draws it over the plotting area.
    pub fn set_label_area_size(&mut self, pos: LabelAreaPosition, size: i32) -> (r: &mut Self)
        requires
            size > i32::MIN,
        ensures
            r.label_area_size@ == old(self).label_area_size@.update(
                pos.spec_index() as int,
                (if size < 0 { -size } else { size as int }) as u32,
            ),
            r.overlap_plotting_area@ == old(self).overlap_plotting_area@.update(
                pos.spec_index() as int,
                size < 0,
            ),
            r.margin == old(self).margin,
            r.title == old(self).title,
            r.root_area == old(self).root_area,
            *final(self) == *final(r),
    {
        let idx = pos.index();
        let abs = if size < 0 {
            -size
        } else {
            size
        };
        let value = abs as u32;
        let overlap = size < 0;
        let s = self.label_area_size;
        let o = self.overlap_plotting_area;
        self.label_area_size = [
            if idx == 0 { value } else { s[0] },
            if idx == 1 { value } else { s[1] },
            if idx == 2 { value } else { s[2] },
            if idx == 3 { value } else { s[3] },
        ];
        self.overlap_plotting_area = [
            if idx == 0 { overlap } else { o[0] },
            if idx == 1 { overlap } else { o[1] },
            if idx == 2 { overlap } else { o[2] },
            if idx == 3 { overlap } else { o[3] },
        ];
        proof {
            assert(self.label_area_size@ =~= s@.update(idx as int, value));
            assert(self.overlap_plotting_area@ =~= o@.update(idx as int, overlap));
        }
        self
    }

    /// Set all the label area sizes to `size` pixels.
    pub fn set_all_label_area_size(&mut self, size: i32) -> (r: &mut Self)
        requires
            size > i32::MIN,
        ensures
            r.label_area_size@ == seq![(if size < 0 { -size } else { size as int }) as u32; 4],
            r.overlap_plotting_area@ == seq![size < 0; 4],
            r.margin == old(self).margin,
            r.title == old(self).title,
            r.root_area == old(self).root_area,
            *final(self) == *final(r),
    {
        let r = self.set_label_area_size(LabelAreaPosition::Top, size).set_label_area_size(
            LabelAreaPosition::Bottom,
            size,
        ).set_label_area_size(LabelAreaPosition::Left, size).set_label_area_size(
            LabelAreaPosition::Right,
            size,
        );
        proof {
            assert(r.label_area_size@ =~= seq![(if size < 0 { -size } else { size as int }) as u32; 4]);
            assert(r.overlap_plotting_area@ =~= seq![size < 0; 4]);
        }
        r
    }

    /// Set the left and the bottom label area sizes, the most commonly used
    /// ones, to `size` pixels.
    pub fn set_left_and_bottom_label_area_size(&mut self, size: i32) -> (r: &mut Self)
        requires
            size > i32::MIN,
        ensures
            r.label_area_size@ == old(self).label_area_size@.update(
                2,
                (if size < 0 { -size } else { size as int }) as u32,
            ).update(1, (if size < 0 { -size } else { size as int }) as u32),
            r.overlap_plotting_area@ == old(self).overlap_plotting_area@.update(2, size < 0).update(
                1,
                size < 0,
            ),
            r.margin == old(self).margin,
            r.title == old(self).title,
            r.root_area == old(self).root_area,
            *final(self) == *final(r),
    {
        self.set_label_area_size(LabelAreaPosition::Left, size).set_label_area_size(
            LabelAreaPosition::Bottom,
            size,
        )
    }

    /// Set the size of the X label area below the chart, in pixels; with
    /// size 0 the chart has no such area.
    pub fn x_label_area_size(&mut self, size: i32) -> (r: &mut Self)
        requires
            size > i32::MIN,
        ensures
            r.label_area_size@ == old(self).label_area_size@.update(
                1,
                (if size < 0 { -size } else { size as int }) as u32,
            ),
            r.overlap_plotting_area@ == old(self).overlap_plotting_area@.update(1, size < 0),
            r.margin == old(self).margin,
            r.title == old(self).title,
            r.root_area == old(self).root_area,
            *final(self) == *final(r),
    {
        self.set_label_area_size(LabelAreaPosition::Bottom, size)
    }

    /// Set the size of the Y label area left of the chart, in pixels.
    pub fn y_label_area_size(&mut self, size: i32) -> (r: &mut Self)
        requires
            size > i32::MIN,
        ensures
            r.label_area_size@ == old(self).label_area_size@.update(
                2,
                (if size < 0 { -size } else { size as int }) as u32,
            ),
            r.overlap_plotting_area@ == old(self).overlap_plotting_area@.update(2, size < 0),
            r.margin == old(self).margin,
            r.title == old(self).title,
            r.root_area == old(self).root_area,
            *final(self) == *final(r),
    {
        self.set_label_area_size(LabelAreaPosition::Left, size)
    }

    /// Set the size of the X label area above the chart, in pixels.
    pub fn top_x_label_area_size(&mut self, size: i32) -> (r: &mut Self)
        requires
            size > i32::MIN,
        ensures
            r.label_area_size@ == old(self).label_area_size@.update(
                0,
                (if size < 0 { -size } else { size as int }) as u32,
            ),
            r.overlap_plotting_area@ == old(self).overlap_plotting_area@.update(0, size < 0),
            r.margin == old(self).margin,
            r.title == old(self).title,
            r.root_area == old(self).root_area,
            *final(self) == *final(r),
    {
        self.set_label_area_size(LabelAreaPosition::Top, size)
    }

    /// Set the size of the Y label area right of the chart, in pixels.
    pub fn right_y_label_area_size(&mut self, size: i32) -> (r: &mut Self)
        requires
            size > i32::MIN,
        ensures
            r.label_area_size@ == old(self).label_area_size@.update(
                3,
                (if size < 0 { -size } else { size as int }) as u32,
            ),
            r.overlap_plotting_area@ == old(self).overlap_plotting_area@.update(3, size < 0),
            r.margin == old(self).margin,
            r.title == old(self).title,
            r.root_area == old(self).root_area,
            *final(self) == *final(r),
    {
        self.set_label_area_size(LabelAreaPosition::Right, size)
    }

    /// Set the caption of the chart and its style.
    pub fn caption(&mut self, caption: &str, style: T) -> (r: &mut Self)
        ensures
            r.title matches Some(t) && t.0@ == caption@ && t.1 == style,
            r.label_area_size == old(self).label_area_size,
            r.overlap_plotting_area == old(self).overlap_plotting_area,
            r.margin == old(self).margin,
            r.root_area == old(self).root_area,
            *final(self) == *final(r),
    {
        self.title = Some((caption.to_string(), style));
        self
    }

    /// The edges of the plotting area within a drawing area of `w` x `h`
    /// pixels, as [top, bottom, left, right]: each label area that does not
    /// overlap the plotting area takes its size off its side.
    pub open spec fn spec_plotting_area_edges(&self, w: u32, h: u32) -> Seq<int> {
        let s = self.label_area_size@;
        let o = self.overlap_plotting_area@;
        seq![
            if o[0] { 0 } else { (s[0] as i32) as int },
            (h as i32) - if o[1] { 0 } else { (s[1] as i32) as int },
            if o[2] { 0 } else { (s[2] as i32) as int },
            (w as i32) - if o[3] { 0 } else { (s[3] as i32) as int },
        ]
    }

    /// Whether the edges of the plotting area can be computed within `i32`.
    pub open spec fn plotting_area_edges_fit(&self, w: u32, h: u32) -> bool {
        let s = self.label_area_size@;
        &&& i32::MIN <= (h as i32) - (s[1] as i32) <= i32::MAX
        &&& i32::MIN <= (w as i32) - (s[3] as i32) <= i32::MAX
    }

    /// The edges of the plotting area within a drawing area of `w` x `h`
    /// pixels, as [top, bottom, left, right], which split the drawing area
    /// into the plotting area and the label areas around it.
    pub fn plotting_area_edges(&self, w: u32, h: u32) -> (r: [i32; 4])
        requires
            self.plotting_area_edges_fit(w, h),
        ensures
            r@.map_values(|v: i32| v as int) == self.spec_plotting_area_edges(w, h),
    {
        let s = self.label_area_size;
        let o = self.overlap_plotting_area;
        let top = if o[0] { 0 } else { #[verifier::truncate] (s[0] as i32) };
        let bottom = (#[verifier::truncate] (h as i32)) - if o[1] {
            0
        } else {
            #[verifier::truncate] (s[1] as i32)
        };
        let left = if o[2] { 0 } else { #[verifier::truncate] (s[2] as i32) };
        let right = (#[verifier::truncate] (w as i32)) - if o[3] {
            0
        } else {
            #[verifier::truncate] (s[3] as i32)
        };
        let r = [top, bottom, left, right];
        proof {
            assert(r@.map_values(|v: i32| v as int) =~= self.spec_plotting_area_edges(w, h));
        }
        r
    }

    /// The label area at `pos` where it is drawn over a plotting area of `dw`
    /// x `dh` pixels: its upper left corner and size within the plotting
    /// area, along the side of `pos`. `None` where that label area does not
    /// overlap the plotting area or has no size.
    pub open spec fn spec_overlapping_label_area(&self, pos: LabelAreaPosition, dw: u32, dh: u32) -> Option<((int, int), (int, int))> {
        let i = pos.spec_index() as int;
        let size = (self.label_area_size@[i] as i32) as int;
        let (w, h) = ((dw as i32) as int, (dh as i32) as int);
        if self.overlap_plotting_area@[i] && self.label_area_size@[i] != 0 {
            let (x0, y0, x1, y1) = match pos {
                LabelAreaPosition::Top => (0, 0, w, size),
                LabelAreaPosition::Bottom => (0, h - size, w, h),
                LabelAreaPosition::Left => (0, 0, size, h),
                LabelAreaPosition::Right => (w - size, 0, w, h),
            };
            Some(((x0, y0), (x1 - x0, y1 - y0)))
        } else {
            None
        }
    }

    /// Whether the overlapping label area at `pos` can be computed within `i32`.
    pub open spec fn overlapping_label_area_fits(&self, pos: LabelAreaPosition, dw: u32, dh: u32) -> bool {
        let i = pos.spec_index() as int;
        let size = (self.label_area_size@[i] as i32) as int;
        let (w, h) = ((dw as i32) as int, (dh as i32) as int);
        &&& i32::MIN <= w - size <= i32::MAX
        &&& i32::MIN <= h - size <= i32::MAX
        &&& i32::MIN <= size - w <= i32::MAX
        &&& i32::MIN <= size - h <= i32::MAX
    }

    /// The label area at `pos` where it is drawn over a plotting area of `dw`
    /// x `dh` pixels: its upper left corner and size.
    pub fn overlapping_label_area(&self, pos: LabelAreaPosition, dw: u32, dh: u32) -> (r: Option<
        ((i32, i32), (i32, i32)),
    >)
        requires
            self.overlapping_label_area_fits(pos, dw, dh),
        ensures
            r matches Some(a) ==> self.spec_overlapping_label_area(pos, dw, dh) == Some(
                ((a.0.0 as int, a.0.1 as int), (a.1.0 as int, a.1.1 as int)),
            ),
            r is None ==> self.spec_overlapping_label_area(pos, dw, dh) is None,
    {
        let i = pos.index();
        if self.overlap_plotting_area[i] && self.label_area_size[i] != 0 {
            let size = #[verifier::truncate] (self.label_area_size[i] as i32);
            let w = #[verifier::truncate] (dw as i32);
            let h = #[verifier::truncate] (dh as i32);
            let (dx, dy): (i32, i32) = match pos {
                LabelAreaPosition::Top => (0, -1),
                LabelAreaPosition::Bottom => (0, 1),
                LabelAreaPosition::Left => (-1, 0),
                LabelAreaPosition::Right => (1, 0),
            };
            let x0 = if dx > 0 { w - size } else { 0 };
            let y0 = if dy > 0 { h - size } else { 0 };
            let x1 = if dx >= 0 { w } else { size };
            let y1 = if dy >= 0 { h } else { size };
            Some(((x0, y0), (x1 - x0, y1 - y0)))
        } else {
            None
        }
    }

    /// Where the plotting area starts within the root area: its left and top
    /// edges (from `edges`), shifted by the caption (`title_shift`) and the
    /// left and top margins.
    pub fn plotting_area_position(&self, edges: [i32; 4], title_shift: (i32, i32)) -> (r: (
        i32,
        i32,
    ))
        requires
            i32::MIN <= edges[2] + title_shift.0 + (self.margin[2] as i32) <= i32::MAX,
            i32::MIN <= edges[0] + title_shift.1 + (self.margin[0] as i32) <= i32::MAX,
            i32::MIN <= edges[2] + title_shift.0 <= i32::MAX,
            i32::MIN <= edges[0] + title_shift.1 <= i32::MAX,
        ensures
            r.0 == edges[2] + title_shift.0 + (self.margin[2] as i32),
            r.1 == edges[0] + title_shift.1 + (self.margin[0] as i32),
    {
        (
            edges[2] + title_shift.0 + (#[verifier::truncate] (self.margin[2] as i32)),
            edges[0] + title_shift.1 + (#[verifier::truncate] (self.margin[0] as i32)),
        )
    }
}


/// Each label area that does not overlap the plotting area takes exactly its
/// size off its side of the drawing area, so that the plotting area and that
/// label area together span the drawing area along that side; a label area
/// that overlaps the plotting area leaves the plotting area's edge on the
/// drawing area's edge.
pub proof fn lemma_label_areas_take_their_side<'a, R, T>(b: ChartBuilder<'a, R, T>, w: u32, h: u32)
    requires
        w <= i32::MAX,
        h <= i32::MAX,
        forall|i: int| 0 <= i < 4 ==> #[trigger] b.label_area_size@[i] <= i32::MAX,
    ensures
        ({
            let e = b.spec_plotting_area_edges(w, h);
            let s = b.label_area_size@;
            let o = b.overlap_plotting_area@;
            &&& e.len() == 4
            &&& o[0] ==> e[0] == 0
            &&& !o[0] ==> e[0] == s[0]
            &&& o[1] ==> e[1] == h
            &&& !o[1] ==> e[1] + s[1] == h
            &&& o[2] ==> e[2] == 0
            &&& !o[2] ==> e[2] == s[2]
            &&& o[3] ==> e[3] == w
            &&& !o[3] ==> e[3] + s[3] == w
        }),
{
    let s = b.label_area_size@;
    assert(s[0] <= i32::MAX && s[1] <= i32::MAX && s[2] <= i32::MAX && s[3] <= i32::MAX);
}


/// A label area drawn over a plotting area of `dw` x `dh` pixels is a band
/// of its size along its own side of the plotting area: it spans the whole
/// side, touches that side's edge, and lies within the plotting area where
/// its size is not larger than the plotting area.
pub proof fn lemma_overlapping_label_area_on_its_side<'a, R, T>(
    b: ChartBuilder<'a, R, T>,
    pos: LabelAreaPosition,
    dw: u32,
    dh: u32,
)
    requires
        dw <= i32::MAX,
        dh <= i32::MAX,
        b.label_area_size@[pos.spec_index() as int] <= i32::MAX,
    ensures
        b.spec_overlapping_label_area(pos, dw, dh) is Some <==> (
        b.overlap_plotting_area@[pos.spec_index() as int] && b.label_area_size@[pos.spec_index() as int] != 0),
        b.spec_overlapping_label_area(pos, dw, dh) matches Some(((x, y), (w, h))) ==> {
            let size = b.label_area_size@[pos.spec_index() as int] as int;
            match pos {
                LabelAreaPosition::Top => x == 0 && y == 0 && w == dw && h == size,
                LabelAreaPosition::Bottom => x == 0 && y + h == dh && w == dw && h == size,
                LabelAreaPosition::Left => x == 0 && y == 0 && w == size && h == dh,
                LabelAreaPosition::Right => x + w == dw && y == 0 && w == size && h == dh,
            }
        },
{
}

} // verus!
