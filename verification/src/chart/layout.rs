//! The axes of a chart layout: what each side holds, how a tick mark is
//! drawn on each side, and how the tick label areas grow where the labels of
//! the neighbouring axes spill out of the drawing area.

use crate::coord::ticks::TickKind;
use crate::coord::{fits_i32, BackendCoord};
use vstd::prelude::*;

verus! {

/// What each side of the chart area holds, if anything.
#[derive(Clone, Debug)]
pub struct AxisSpecs<T> {
    /// The left side.
    pub left: Option<T>,
    /// The right side.
    pub right: Option<T>,
    /// The top side.
    pub top: Option<T>,
    /// The bottom side.
    pub bottom: Option<T>,
}

impl<T> AxisSpecs<T> {
    /// Nothing on any side.
    pub fn new_blank() -> (r: Self)
        ensures
            r.left is None,
            r.right is None,
            r.top is None,
            r.bottom is None,
    {
        AxisSpecs { left: None, right: None, top: None, bottom: None }
    }
}

/// The side of the chart area that an axis stands on.
#[derive(Clone, Copy, Debug, PartialEq, Eq, Structural)]
pub enum AxisSide {
    /// Left of the chart area.
    Left,
    /// Right of the chart area.
    Right,
    /// Above the chart area.
    Top,
    /// Below the chart area.
    Bottom,
}

/// The length of a major tick mark, in pixels.
pub const MAJOR_TICK_LEN: i32 = 5;

/// The length of a minor tick mark, in pixels.
pub const MINOR_TICK_LEN: i32 = 3;

/// The space between a tick mark and its label, in pixels.
pub const TICK_LABEL_PADDING: i32 = 3;

/// How a label is placed horizontally relative to its anchor point.
#[derive(Clone, Copy, Debug, PartialEq, Eq, Structural)]
pub enum HAnchor {
    /// The anchor is the left end of the label.
    Left,
    /// The anchor is the right end of the label.
    Right,
    /// The anchor is the middle of the label.
    Center,
}

/// How a label is placed vertically relative to its anchor point.
#[derive(Clone, Copy, Debug, PartialEq, Eq, Structural)]
pub enum VAnchor {
    /// The anchor is the top of the label.
    Top,
    /// The anchor is the middle of the label.
    Center,
    /// The anchor is the bottom of the label.
    Bottom,
}

/// What is drawn for one tick mark: the line of the mark, and for a major
/// mark the point and the alignment at which its label is written.
#[derive(Clone, Copy, Debug)]
pub struct TickDrawing {
    /// The two ends of the tick line.
    pub line: (BackendCoord, BackendCoord),
    /// The anchor point of the label and how the label sits on it.
    pub label: Option<(BackendCoord, HAnchor, VAnchor)>,
}

/// The length of a tick mark of kind `kind`.
pub open spec fn spec_tick_len(kind: TickKind) -> i32 {
    match kind {
        TickKind::Major => MAJOR_TICK_LEN,
        TickKind::Minor => MINOR_TICK_LEN,
    }
}

/// The tick mark of kind `kind` at the pixel `p` of an axis on side `side`:
/// the line goes outward from `p` by the tick length, and a major mark is
/// labelled beyond its line and the padding, aligned towards the axis.
pub open spec fn spec_tick_drawing(p: BackendCoord, side: AxisSide, kind: TickKind) -> TickDrawing {
    let len = spec_tick_len(kind);
    let gap = MAJOR_TICK_LEN + TICK_LABEL_PADDING;
    let major = kind == TickKind::Major;
    match side {
        AxisSide::Left => TickDrawing {
            line: (((p.0 - len) as i32, p.1), p),
            label: if major {
                Some(((((p.0 - gap) as i32), p.1), HAnchor::Right, VAnchor::Center))
            } else {
                None
            },
        },
        AxisSide::Right => TickDrawing {
            line: (p, ((p.0 + len) as i32, p.1)),
            label: if major {
                Some(((((p.0 + gap) as i32), p.1), HAnchor::Left, VAnchor::Center))
            } else {
                None
            },
        },
        AxisSide::Top => TickDrawing {
            line: ((p.0, (p.1 - len) as i32), p),
            label: if major {
                Some(((p.0, (p.1 - gap) as i32), HAnchor::Center, VAnchor::Bottom))
            } else {
                None
            },
        },
        AxisSide::Bottom => TickDrawing {
            line: ((p.0, (p.1 + len) as i32), p),
            label: if major {
                Some(((p.0, (p.1 + gap) as i32), HAnchor::Center, VAnchor::Top))
            } else {
                None
            },
        },
    }
}

/// Whether a tick mark can be drawn at `p` with every point within `i32`.
pub open spec fn tick_fits(p: BackendCoord) -> bool {
    i32::MIN + 8 <= p.0 <= i32::MAX - 8 && i32::MIN + 8 <= p.1 <= i32::MAX - 8
}

/// The length of a tick mark of kind `kind`.
pub fn tick_len(kind: TickKind) -> (r: i32)
    ensures
        r == spec_tick_len(kind),
{
    match kind {
        TickKind::Major => MAJOR_TICK_LEN,
        TickKind::Minor => MINOR_TICK_LEN,
    }
}

/// What to draw for the tick mark of kind `kind` at the pixel `p` of an axis
/// on side `side`.
pub fn tick_drawing(p: BackendCoord, side: AxisSide, kind: TickKind) -> (r: TickDrawing)
    requires
        tick_fits(p),
    ensures
        r == spec_tick_drawing(p, side, kind),
{
    let len = tick_len(kind);
    let gap = MAJOR_TICK_LEN + TICK_LABEL_PADDING;
    let major = match kind {
        TickKind::Major => true,
        TickKind::Minor => false,
    };
    match side {
        AxisSide::Left => TickDrawing {
            line: ((p.0 - len, p.1), p),
            label: if major {
                Some(((p.0 - gap, p.1), HAnchor::Right, VAnchor::Center))
            } else {
                None
            },
        },
        AxisSide::Right => TickDrawing {
            line: (p, (p.0 + len, p.1)),
            label: if major {
                Some(((p.0 + gap, p.1), HAnchor::Left, VAnchor::Center))
            } else {
                None
            },
        },
        AxisSide::Top => TickDrawing {
            line: ((p.0, p.1 - len), p),
            label: if major {
                Some(((p.0, p.1 - gap), HAnchor::Center, VAnchor::Bottom))
            } else {
                None
            },
        },
        AxisSide::Bottom => TickDrawing {
            line: ((p.0, p.1 + len), p),
            label: if major {
                Some(((p.0, p.1 + gap), HAnchor::Center, VAnchor::Top))
            } else {
                None
            },
        },
    }
}

/// Every tick line starts or ends at the tick's pixel, and lies on the
/// outer side of the axis: left of a left axis, right of a right axis,
/// above a top axis and below a bottom axis, at the distance of the tick length;
/// only major marks are labelled, and their labels lie farther out than the line.
pub proof fn lemma_tick_outward(p: BackendCoord, side: AxisSide, kind: TickKind)
    requires
        tick_fits(p),
    ensures
        ({
            let t = spec_tick_drawing(p, side, kind);
            let len = spec_tick_len(kind);
            &&& t.line.0 == p || t.line.1 == p
            &&& t.label is Some <==> kind == TickKind::Major
            &&& match side {
                AxisSide::Left => t.line.0.0 == p.0 - len && (t.label matches Some(l) ==> l.0.0
                    < t.line.0.0),
                AxisSide::Right => t.line.1.0 == p.0 + len && (t.label matches Some(l) ==> l.0.0
                    > t.line.1.0),
                AxisSide::Top => t.line.0.1 == p.1 - len && (t.label matches Some(l) ==> l.0.1
                    < t.line.0.1),
                AxisSide::Bottom => t.line.0.1 == p.1 + len && (t.label matches Some(l) ==> l.0.1
                    > t.line.0.1),
            }
        }),
{
}

/// The extent of a box: its left, top, right and bottom pixel.
pub type BoxExtent = (i32, i32, i32, i32);

/// The smallest box that holds the corner `(0, 0)` and the corner `(w, h)`.
pub open spec fn size_box(w: int, h: int) -> (int, int, int, int) {
    (
        if w < 0 {
            w
        } else {
            0
        },
        if h < 0 {
            h
        } else {
            0
        },
        if w < 0 {
            0
        } else {
            w
        },
        if h < 0 {
            0
        } else {
            h
        },
    )
}

/// The smallest box that holds the boxes `a` and `b`.
pub open spec fn union_box(a: (int, int, int, int), b: (int, int, int, int)) -> (int, int, int, int) {
    (
        if a.0 <= b.0 {
            a.0
        } else {
            b.0
        },
        if a.1 <= b.1 {
            a.1
        } else {
            b.1
        },
        if a.2 >= b.2 {
            a.2
        } else {
            b.2
        },
        if a.3 >= b.3 {
            a.3
        } else {
            b.3
        },
    )
}

/// The box `a` moved by `dx` to the right and `dy` down.
pub open spec fn translate_box(a: (int, int, int, int), dx: int, dy: int) -> (int, int, int, int) {
    (a.0 + dx, a.1 + dy, a.2 + dx, a.3 + dy)
}

/// A box of integers as a box of pixels.
pub open spec fn pixel_box(a: (int, int, int, int)) -> BoxExtent {
    (a.0 as i32, a.1 as i32, a.2 as i32, a.3 as i32)
}

/// The box that the tick mark itself takes up, from the point on the axis.
pub open spec fn tick_box(side: AxisSide, len: int) -> (int, int, int, int) {
    match side {
        AxisSide::Left => size_box(-len, 0),
        AxisSide::Right => size_box(len, 0),
        AxisSide::Top => size_box(0, -len),
        AxisSide::Bottom => size_box(0, len),
    }
}

/// The box that the label of `w` by `h` pixels of a major tick mark takes up,
/// padding included, from the point on the axis: beyond the tick and the
/// padding, centred on the tick by half its size, rounded down.
pub open spec fn label_box(side: AxisSide, w: int, h: int) -> (int, int, int, int) {
    let len = MAJOR_TICK_LEN as int;
    let pad = TICK_LABEL_PADDING as int;
    match side {
        AxisSide::Left => translate_box(size_box(-w, h + 2 * pad), -len - 2 * pad, -(h / 2) - pad),
        AxisSide::Right => translate_box(size_box(w, h + 2 * pad), len + 2 * pad, -(h / 2) - pad),
        AxisSide::Top => translate_box(size_box(w + 2 * pad, -h), -(w / 2) - pad, -len - 2 * pad),
        AxisSide::Bottom => translate_box(size_box(w + 2 * pad, h), -(w / 2) - pad, len + 2 * pad),
    }
}

/// The box, relative to its point on the axis, that a tick mark of kind
/// `kind` on side `side` takes up: the point and the tick, and for a major
/// tick the label, whose size is `label_size` where it could be measured.
/// A major tick whose label could not be measured has none.
pub open spec fn spec_tick_extent(side: AxisSide, kind: TickKind, label_size: Option<(u32, u32)>) -> Option<
    BoxExtent,
> {
    let origin = size_box(0, 0);
    match kind {
        TickKind::Major => match label_size {
            Some((w, h)) => Some(
                pixel_box(
                    union_box(
                        union_box(origin, tick_box(side, MAJOR_TICK_LEN as int)),
                        label_box(side, w as int, h as int),
                    ),
                ),
            ),
            None => None,
        },
        TickKind::Minor => Some(pixel_box(union_box(origin, tick_box(side, MINOR_TICK_LEN as int)))),
    }
}

/// Whether the box of a tick mark can be computed within `i32`: for a major
/// tick with a label of `w` by `h` pixels, the label, its padding and the
/// tick stay within `i32` on the side the label extends to.
pub open spec fn tick_label_fits(side: AxisSide, w: int, h: int) -> bool {
    let reach = (MAJOR_TICK_LEN + 2 * TICK_LABEL_PADDING) as int;
    let pad = (2 * TICK_LABEL_PADDING) as int;
    match side {
        AxisSide::Left => w <= i32::MAX - reach + 1 && h <= i32::MAX - pad,
        AxisSide::Right => w <= i32::MAX - reach && h <= i32::MAX - pad,
        AxisSide::Top => w <= i32::MAX - pad && h <= i32::MAX - reach + 1,
        AxisSide::Bottom => w <= i32::MAX - pad && h <= i32::MAX - reach,
    }
}

/// The inputs on which the box of a tick mark can be computed: a minor tick
/// always, a major one where its label's size keeps the box within `i32`.
pub open spec fn tick_extent_fits(side: AxisSide, kind: TickKind, label_size: Option<(u32, u32)>) -> bool {
    kind == TickKind::Major ==> (label_size matches Some((w, h)) ==> tick_label_fits(side, w as int, h as int))
}

/// The box of pixels holding the corners `(0, 0)` and `(w, h)`.
fn size_box_exec(w: i32, h: i32) -> (r: BoxExtent)
    ensures
        r == pixel_box(size_box(w as int, h as int)),
{
    (
        if w < 0 {
            w
        } else {
            0
        },
        if h < 0 {
            h
        } else {
            0
        },
        if w < 0 {
            0
        } else {
            w
        },
        if h < 0 {
            0
        } else {
            h
        },
    )
}

/// The smallest box of pixels that holds `a` and `b`.
fn union_box_exec(a: BoxExtent, b: BoxExtent) -> (r: BoxExtent)
    ensures
        r == pixel_box(
            union_box(
                (a.0 as int, a.1 as int, a.2 as int, a.3 as int),
                (b.0 as int, b.1 as int, b.2 as int, b.3 as int),
            ),
        ),
{
    (
        if a.0 <= b.0 {
            a.0
        } else {
            b.0
        },
        if a.1 <= b.1 {
            a.1
        } else {
            b.1
        },
        if a.2 >= b.2 {
            a.2
        } else {
            b.2
        },
        if a.3 >= b.3 {
            a.3
        } else {
            b.3
        },
    )
}

/// The box of pixels `a` moved by `(dx, dy)`.
fn translate_box_exec(a: BoxExtent, dx: i32, dy: i32) -> (r: BoxExtent)
    requires
        fits_i32(a.0 + dx) && fits_i32(a.2 + dx),
        fits_i32(a.1 + dy) && fits_i32(a.3 + dy),
    ensures
        r == pixel_box(translate_box((a.0 as int, a.1 as int, a.2 as int, a.3 as int), dx as int, dy as int)),
{
    (a.0 + dx, a.1 + dy, a.2 + dx, a.3 + dy)
}

/// The box, relative to its point on the axis, that a tick mark of kind
/// `kind` on side `side` takes up, with the size of its label where it is a
/// major tick: `None` for a major tick whose label could not be measured.
pub fn tick_extent(side: AxisSide, kind: TickKind, label_size: Option<(u32, u32)>) -> (r: Option<BoxExtent>)
    requires
        tick_extent_fits(side, kind, label_size),
    ensures
        r == spec_tick_extent(side, kind, label_size),
{
    let origin = size_box_exec(0, 0);
    match kind {
        TickKind::Major => match label_size {
            Some((w, h)) => {
                let wi = w as i32;
                let hi = h as i32;
                let len = MAJOR_TICK_LEN;
                let pad = TICK_LABEL_PADDING;
                let (tick, label) = match side {
                    AxisSide::Left => (
                        size_box_exec(-len, 0),
                        translate_box_exec(size_box_exec(-wi, hi + 2 * pad), -len - 2 * pad, -(hi / 2) - pad),
                    ),
                    AxisSide::Right => (
                        size_box_exec(len, 0),
                        translate_box_exec(size_box_exec(wi, hi + 2 * pad), len + 2 * pad, -(hi / 2) - pad),
                    ),
                    AxisSide::Top => (
                        size_box_exec(0, -len),
                        translate_box_exec(size_box_exec(wi + 2 * pad, -hi), -(wi / 2) - pad, -len - 2 * pad),
                    ),
                    AxisSide::Bottom => (
                        size_box_exec(0, len),
                        translate_box_exec(size_box_exec(wi + 2 * pad, hi), -(wi / 2) - pad, len + 2 * pad),
                    ),
                };
                Some(union_box_exec(union_box_exec(origin, tick), label))
            },
            None => None,
        },
        TickKind::Minor => {
            let len = MINOR_TICK_LEN;
            let tick = match side {
                AxisSide::Left => size_box_exec(-len, 0),
                AxisSide::Right => size_box_exec(len, 0),
                AxisSide::Top => size_box_exec(0, -len),
                AxisSide::Bottom => size_box_exec(0, len),
            };
            Some(union_box_exec(origin, tick))
        },
    }
}

/// A box of pixels as a box of integers.
pub open spec fn int_box(e: BoxExtent) -> (int, int, int, int) {
    (e.0 as int, e.1 as int, e.2 as int, e.3 as int)
}

/// A tick mark of an axis: its pixel, its kind, and the size of its label
/// where it could be measured.
pub type PlacedTick = (BackendCoord, TickKind, Option<(u32, u32)>);

/// The box that the tick mark `t` of an axis on side `side` takes up, moved
/// to the tick's pixel; `None` where its box has none.
pub open spec fn placed_tick_box(side: AxisSide, t: PlacedTick) -> Option<(int, int, int, int)> {
    match spec_tick_extent(side, t.1, t.2) {
        Some(e) => Some(translate_box(int_box(e), t.0.0 as int, t.0.1 as int)),
        None => None,
    }
}

/// The extent of the tick labels of an axis on side `side`: the box `area`
/// grown to hold the box of every tick mark of `ticks` at its pixel; `None`
/// where some tick mark has no box.
pub open spec fn spec_ticks_extent(area: BoxExtent, side: AxisSide, ticks: Seq<PlacedTick>) -> Option<
    BoxExtent,
>
    decreases ticks.len(),
{
    if ticks.len() == 0 {
        Some(area)
    } else {
        match (spec_ticks_extent(area, side, ticks.drop_last()), placed_tick_box(side, ticks.last())) {
            (Some(a), Some(b)) => Some(pixel_box(union_box(int_box(a), b))),
            _ => None,
        }
    }
}

/// Whether the box of every tick mark of `ticks`, moved to its pixel, can be
/// computed within `i32`.
pub open spec fn ticks_extent_fits(side: AxisSide, ticks: Seq<PlacedTick>) -> bool {
    forall|i: int|
        0 <= i < ticks.len() ==> {
            &&& tick_extent_fits(side, #[trigger] ticks[i].1, ticks[i].2)
            &&& placed_tick_box(side, ticks[i]) matches Some(b) ==> fits_i32(b.0) && fits_i32(b.1)
                && fits_i32(b.2) && fits_i32(b.3)
        }
}

/// The extent of the tick labels of an axis on side `side`: the box `area`
/// grown to hold the box of every tick mark of `ticks` at its pixel, or
/// `None` where some major tick's label could not be measured.
pub fn ticks_extent(area: BoxExtent, side: AxisSide, ticks: &[PlacedTick]) -> (r: Option<BoxExtent>)
    requires
        ticks_extent_fits(side, ticks@),
    ensures
        r == spec_ticks_extent(area, side, ticks@),
{
    let mut acc: Option<BoxExtent> = Some(area);
    let mut i: usize = 0;
    while i < ticks.len()
        invariant
            0 <= i <= ticks@.len(),
            ticks_extent_fits(side, ticks@),
            acc == spec_ticks_extent(area, side, ticks@.take(i as int)),
        decreases ticks@.len() - i,
    {
        let (p, kind, size) = ticks[i];
        proof {
            assert(ticks@[i as int] == (p, kind, size));
            assert(tick_extent_fits(side, ticks@[i as int].1, ticks@[i as int].2));
            let t = ticks@.take(i + 1);
            assert(t.drop_last() =~= ticks@.take(i as int));
            assert(t.last() == ticks@[i as int]);
        }
        let e = tick_extent(side, kind, size);
        acc = match (acc, e) {
            (Some(a), Some(e)) => {
                let moved = translate_box_exec(e, p.0, p.1);
                Some(union_box_exec(a, moved))
            },
            _ => None,
        };
        i = i + 1;
    }
    proof {
        assert(ticks@.take(ticks@.len() as int) =~= ticks@);
    }
    acc
}

/// The new size of the left tick label area, where the leftmost tick label
/// of the top and bottom axes (at `spill` from the left of the drawing area)
/// reaches out of the drawing area: the area of size `size` widens by the
/// spill. `None` where nothing spills.
pub open spec fn spec_left_spill(top: BoxExtent, bottom: BoxExtent, size: (i32, i32)) -> Option<
    (u32, u32),
> {
    let spill = if top.0 <= bottom.0 {
        top.0
    } else {
        bottom.0
    };
    if spill < 0 {
        Some(((size.0 - spill) as u32, size.1 as u32))
    } else {
        None
    }
}

/// The new size of the right tick label area, where the rightmost tick
/// label of the top and bottom axes reaches beyond the canvas width.
pub open spec fn spec_right_spill(canvas_w: u32, top: BoxExtent, bottom: BoxExtent, size: (i32, i32)) -> Option<(u32, u32)> {
    let right = if top.2 >= bottom.2 {
        top.2
    } else {
        bottom.2
    };
    let spill = (canvas_w as i32) - right;
    if spill < 0 {
        Some(((size.0 - spill) as u32, size.1 as u32))
    } else {
        None
    }
}

/// The new size of the top tick label area, where the topmost tick label of
/// the left and right axes reaches above the drawing area: the area becomes
/// at least as high as the spill.
pub open spec fn spec_top_spill(left: BoxExtent, right: BoxExtent, size: (i32, i32)) -> Option<
    (u32, u32),
> {
    let spill = if left.1 <= right.1 {
        left.1
    } else {
        right.1
    };
    if spill < 0 {
        Some(
            (
                size.0 as u32,
                (if size.1 >= -spill {
                    size.1 as int
                } else {
                    -spill
                }) as u32,
            ),
        )
    } else {
        None
    }
}

/// The new size of the bottom tick label area, where the lowest tick label
/// of the left and right axes reaches below the canvas height.
pub open spec fn spec_bottom_spill(canvas_h: u32, left: BoxExtent, right: BoxExtent, size: (i32, i32)) -> Option<(u32, u32)> {
    let bottom = if left.3 >= right.3 {
        left.3
    } else {
        right.3
    };
    let spill = (canvas_h as i32) - bottom;
    if spill < 0 {
        Some(
            (
                size.0 as u32,
                (if size.1 >= -spill {
                    size.1 as int
                } else {
                    -spill
                }) as u32,
            ),
        )
    } else {
        None
    }
}

/// Whether `a - b` fits `i32`.
pub open spec fn diff_fits(a: int, b: int) -> bool {
    i32::MIN <= a - b <= i32::MAX
}

/// How the left tick label area must grow for the tick labels of the top and
/// bottom axes, whose extents are `top` and `bottom`; its size is `size`.
pub fn left_spill(top: BoxExtent, bottom: BoxExtent, size: (i32, i32)) -> (r: Option<(u32, u32)>)
    requires
        diff_fits(size.0 as int, if top.0 <= bottom.0 { top.0 as int } else { bottom.0 as int }),
    ensures
        r == spec_left_spill(top, bottom, size),
{
    let spill = if top.0 <= bottom.0 {
        top.0
    } else {
        bottom.0
    };
    if spill < 0 {
        Some(((size.0 - spill) as u32, size.1 as u32))
    } else {
        None
    }
}

/// How the right tick label area must grow for the tick labels of the top
/// and bottom axes on a canvas `canvas_w` pixels wide.
pub fn right_spill(canvas_w: u32, top: BoxExtent, bottom: BoxExtent, size: (i32, i32)) -> (r:
    Option<(u32, u32)>)
    requires
        diff_fits((canvas_w as i32) as int, if top.2 >= bottom.2 { top.2 as int } else { bottom.2 as int }),
        diff_fits(
            size.0 as int,
            (canvas_w as i32) - (if top.2 >= bottom.2 { top.2 as int } else { bottom.2 as int }),
        ),
    ensures
        r == spec_right_spill(canvas_w, top, bottom, size),
{
    let right = if top.2 >= bottom.2 {
        top.2
    } else {
        bottom.2
    };
    let spill = (#[verifier::truncate] (canvas_w as i32)) - right;
    if spill < 0 {
        Some(((size.0 - spill) as u32, size.1 as u32))
    } else {
        None
    }
}

/// How the top tick label area must grow for the tick labels of the left
/// and right axes.
pub fn top_spill(left: BoxExtent, right: BoxExtent, size: (i32, i32)) -> (r: Option<(u32, u32)>)
    requires
        (if left.1 <= right.1 { left.1 } else { right.1 }) > i32::MIN,
    ensures
        r == spec_top_spill(left, right, size),
{
    let spill = if left.1 <= right.1 {
        left.1
    } else {
        right.1
    };
    if spill < 0 {
        let h = if size.1 >= -spill {
            size.1
        } else {
            -spill
        };
        Some((size.0 as u32, h as u32))
    } else {
        None
    }
}

/// How the bottom tick label area must grow for the tick labels of the left
/// and right axes on a canvas `canvas_h` pixels high.
pub fn bottom_spill(canvas_h: u32, left: BoxExtent, right: BoxExtent, size: (i32, i32)) -> (r:
    Option<(u32, u32)>)
    requires
        diff_fits((canvas_h as i32) as int, if left.3 >= right.3 { left.3 as int } else { right.3 as int }),
        (canvas_h as i32) - (if left.3 >= right.3 { left.3 as int } else { right.3 as int }) > i32::MIN,
    ensures
        r == spec_bottom_spill(canvas_h, left, right, size),
{
    let bottom = if left.3 >= right.3 {
        left.3
    } else {
        right.3
    };
    let spill = (#[verifier::truncate] (canvas_h as i32)) - bottom;
    if spill < 0 {
        let h = if size.1 >= -spill {
            size.1
        } else {
            -spill
        };
        Some((size.0 as u32, h as u32))
    } else {
        None
    }
}

/// Where the labels spill, the grown area covers the spill: a spill of `s`
/// pixels widens the left or right area by exactly `s`, and the top or bottom
/// area is at least `s` high.
pub proof fn lemma_spill_covered(canvas: (u32, u32), a: BoxExtent, b: BoxExtent, size: (i32, i32))
    requires
        size.0 >= 0,
        size.1 >= 0,
        a.0 < 0 || b.0 < 0,
        a.1 < 0 || b.1 < 0,
        diff_fits(size.0 as int, if a.0 <= b.0 { a.0 as int } else { b.0 as int }),
    ensures
        spec_left_spill(a, b, size) matches Some(s) && s.0 == size.0 - (if a.0 <= b.0 { a.0 } else { b.0 })
            && s.1 == size.1,
        spec_top_spill(a, b, size) matches Some(s) && s.0 == size.0 && s.1 >= size.1 && s.1 >= -(
        if a.1 <= b.1 {
            a.1
        } else {
            b.1
        }),
{
}


/// The border line along the side `side` of the chart area `area`.
pub open spec fn spec_border_line(area: BoxExtent, side: AxisSide) -> (BackendCoord, BackendCoord) {
    let (x0, y0, x1, y1) = area;
    match side {
        AxisSide::Left => ((x0, y0), (x0, y1)),
        AxisSide::Right => ((x1, y0), (x1, y1)),
        AxisSide::Top => ((x0, y0), (x1, y0)),
        AxisSide::Bottom => ((x0, y1), (x1, y1)),
    }
}

/// The border lines of the chart area `area`: one along each side that
/// holds an axis, in the order left, right, top, bottom.
pub open spec fn spec_border_lines<T>(axes: AxisSpecs<T>, area: BoxExtent) -> Seq<(BackendCoord, BackendCoord)> {
    (if axes.left is Some { seq![spec_border_line(area, AxisSide::Left)] } else { Seq::empty() })
        + (if axes.right is Some { seq![spec_border_line(area, AxisSide::Right)] } else { Seq::empty() })
        + (if axes.top is Some { seq![spec_border_line(area, AxisSide::Top)] } else { Seq::empty() })
        + (if axes.bottom is Some { seq![spec_border_line(area, AxisSide::Bottom)] } else { Seq::empty() })
}

/// The border lines drawn around the chart area `area` (left, top, right
/// and bottom pixel): along each side that holds an axis.
pub fn border_lines<T>(axes: &AxisSpecs<T>, area: BoxExtent) -> (r: Vec<(BackendCoord, BackendCoord)>)
    ensures
        r@ == spec_border_lines(*axes, area),
{
    let (x0, y0, x1, y1) = area;
    let mut r: Vec<(BackendCoord, BackendCoord)> = Vec::new();
    if axes.left.is_some() {
        r.push(((x0, y0), (x0, y1)));
    }
    if axes.right.is_some() {
        r.push(((x1, y0), (x1, y1)));
    }
    if axes.top.is_some() {
        r.push(((x0, y0), (x1, y0)));
    }
    if axes.bottom.is_some() {
        r.push(((x0, y1), (x1, y1)));
    }
    proof {
        assert(r@ =~= spec_border_lines(*axes, area));
    }
    r
}


/// Each border line lies along its own side of the area `(x0, y0, x1, y1)`
/// and spans that side: there is one for each side that holds an axis, the
/// left one at `x0` and the right one at `x1`, each from `y0` to `y1`, the
/// top one at `y0` and the bottom one at `y1`, each from `x0` to `x1`.
pub proof fn lemma_border_lines_on_their_sides<T>(axes: AxisSpecs<T>, area: BoxExtent)
    ensures
        ({
            let lines = spec_border_lines(axes, area);
            let (x0, y0, x1, y1) = area;
            let n = (if axes.left is Some { 1int } else { 0 }) + (if axes.right is Some { 1int } else { 0 })
                + (if axes.top is Some { 1int } else { 0 }) + (if axes.bottom is Some { 1int } else { 0 });
            &&& lines.len() == n
            &&& axes.left is Some ==> lines.contains(((x0, y0), (x0, y1)))
            &&& axes.right is Some ==> lines.contains(((x1, y0), (x1, y1)))
            &&& axes.top is Some ==> lines.contains(((x0, y0), (x1, y0)))
            &&& axes.bottom is Some ==> lines.contains(((x0, y1), (x1, y1)))
            &&& forall|i: int|
                0 <= i < lines.len() ==> {
                    let l = #[trigger] lines[i];
                    ||| l == ((x0, y0), (x0, y1)) && axes.left is Some
                    ||| l == ((x1, y0), (x1, y1)) && axes.right is Some
                    ||| l == ((x0, y0), (x1, y0)) && axes.top is Some
                    ||| l == ((x0, y1), (x1, y1)) && axes.bottom is Some
                }
        }),
{
    let (x0, y0, x1, y1) = area;
    let lines = spec_border_lines(axes, area);
    let a = if axes.left is Some { seq![spec_border_line(area, AxisSide::Left)] } else { Seq::empty() };
    let b = if axes.right is Some { seq![spec_border_line(area, AxisSide::Right)] } else { Seq::empty() };
    let c = if axes.top is Some { seq![spec_border_line(area, AxisSide::Top)] } else { Seq::empty() };
    let d = if axes.bottom is Some { seq![spec_border_line(area, AxisSide::Bottom)] } else { Seq::empty() };
    assert(lines == a + b + c + d);
    let ab = a + b;
    let abc = ab + c;
    if axes.left is Some {
        assert(lines[0] == ((x0, y0), (x0, y1)));
    }
    if axes.right is Some {
        assert(lines[a.len() as int] == ((x1, y0), (x1, y1)));
    }
    if axes.top is Some {
        assert(lines[ab.len() as int] == ((x0, y0), (x1, y0)));
    }
    if axes.bottom is Some {
        assert(lines[abc.len() as int] == ((x0, y1), (x1, y1)));
    }
    assert forall|i: int| 0 <= i < lines.len() implies {
        let l = #[trigger] lines[i];
        ||| l == ((x0, y0), (x0, y1)) && axes.left is Some
        ||| l == ((x1, y0), (x1, y1)) && axes.right is Some
        ||| l == ((x0, y0), (x1, y0)) && axes.top is Some
        ||| l == ((x0, y1), (x1, y1)) && axes.bottom is Some
    } by {
        if i < a.len() {
            assert(lines[i] == a[i]);
        } else if i < ab.len() {
            assert(lines[i] == b[i - a.len()]);
        } else if i < abc.len() {
            assert(lines[i] == c[i - ab.len()]);
        } else {
            assert(lines[i] == d[i - abc.len()]);
        }
    }
}

} // verus!
