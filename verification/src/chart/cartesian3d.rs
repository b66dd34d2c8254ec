//! The coordinate of one axis of a 3D chart.

use super::layout::{HAnchor, VAnchor};
use crate::coord::BackendCoord;
use vstd::pervasive::unreached;
use vstd::prelude::*;

verus! {

/// A value on one of the three axes of a 3D chart.
#[derive(Clone, Debug)]
pub enum Coord3D<X, Y, Z> {
    /// A value of the X axis.
    X(X),
    /// A value of the Y axis.
    Y(Y),
    /// A value of the Z axis.
    Z(Z),
}

impl<X, Y, Z> Coord3D<X, Y, Z> {
    /// The X value.
    pub fn get_x(&self) -> (r: &X)
        requires
            self is X,
        ensures
            *r == self->X_0,
    {
        match self {
            Coord3D::X(ret) => ret,
            _ => unreached(),
        }
    }

    /// The Y value.
    pub fn get_y(&self) -> (r: &Y)
        requires
            self is Y,
        ensures
            *r == self->Y_0,
    {
        match self {
            Coord3D::Y(ret) => ret,
            _ => unreached(),
        }
    }

    /// The Z value.
    pub fn get_z(&self) -> (r: &Z)
        requires
            self is Z,
        ensures
            *r == self->Z_0,
    {
        match self {
            Coord3D::Z(ret) => ret,
            _ => unreached(),
        }
    }

    /// The point made of the X value of the first, the Y value of the second
    /// and the Z value of the third, each cloned.
    pub fn build_coord(coords: [&Self; 3]) -> (r: (X, Y, Z)) where X: Clone, Y: Clone, Z: Clone
        requires
            coords[0] is X,
            coords[1] is Y,
            coords[2] is Z,
        ensures
            cloned(coords[0]->X_0, r.0),
            cloned(coords[1]->Y_0, r.1),
            cloned(coords[2]->Z_0, r.2),
    {
        (coords[0].get_x().clone(), coords[1].get_y().clone(), coords[2].get_z().clone())
    }
}


/// `x / 2` rounded toward zero, as Rust divides.
pub open spec fn half_of(x: int) -> int {
    if x >= 0 {
        x / 2
    } else {
        -((-x) / 2)
    }
}

/// The absolute value of `x`.
pub open spec fn abs_of(x: int) -> int {
    if x >= 0 {
        x
    } else {
        -x
    }
}

/// The direction of the tick marks of a 3D axis from `begin` to `end` on the
/// screen, in a plotting area spanning `x_range` and `y_range`: horizontal,
/// away from the middle of the area, or vertical, away from the middle, which
/// ever is the less aligned with the axis; `tick_size` pixels long.
pub open spec fn spec_tick_direction(begin: BackendCoord, end: BackendCoord, x_range: (i32, i32), y_range: (i32, i32), tick_size: i32) -> (int, int) {
    let axis = (end.0 - begin.0, end.1 - begin.1);
    let x_mid = half_of(x_range.0 + x_range.1);
    let y_mid = half_of(y_range.0 + y_range.1);
    let x_dir: (int, int) = if begin.0 < x_mid {
        (-tick_size, 0int)
    } else {
        (tick_size as int, 0int)
    };
    let y_dir: (int, int) = if begin.1 < y_mid {
        (0int, -tick_size)
    } else {
        (0int, tick_size as int)
    };
    let x_score = abs_of(x_dir.0 * axis.0 + x_dir.1 * axis.1);
    let y_score = abs_of(y_dir.0 * axis.0 + y_dir.1 * axis.1);
    if x_score < y_score {
        x_dir
    } else {
        y_dir
    }
}

/// Whether the tick direction can be computed within `i32`.
pub open spec fn tick_direction_ok(begin: BackendCoord, end: BackendCoord, x_range: (i32, i32), y_range: (i32, i32), tick_size: i32) -> bool {
    let axis = (end.0 - begin.0, end.1 - begin.1);
    &&& i32::MIN < tick_size
    &&& i32::MIN <= axis.0 <= i32::MAX
    &&& i32::MIN <= axis.1 <= i32::MAX
    &&& i32::MIN <= x_range.0 + x_range.1 <= i32::MAX
    &&& i32::MIN <= y_range.0 + y_range.1 <= i32::MAX
    &&& i32::MIN < tick_size * axis.0 <= i32::MAX
    &&& i32::MIN < -tick_size * axis.0 <= i32::MAX
    &&& i32::MIN < tick_size * axis.1 <= i32::MAX
    &&& i32::MIN < -tick_size * axis.1 <= i32::MAX
}

/// How the label of a tick mark pointing `dir` sits on its anchor: away
/// from the tick, horizontally for a horizontal tick and vertically for a
/// vertical one; unchanged (`None`) for a tick of no length.
pub open spec fn spec_tick_label_anchor(dir: (int, int)) -> Option<(HAnchor, VAnchor)> {
    if dir.1 < 0 {
        Some((HAnchor::Center, VAnchor::Bottom))
    } else if dir.1 > 0 {
        Some((HAnchor::Center, VAnchor::Top))
    } else if dir.0 < 0 {
        Some((HAnchor::Right, VAnchor::Center))
    } else if dir.0 > 0 {
        Some((HAnchor::Left, VAnchor::Center))
    } else {
        None
    }
}

/// The tick marks of a 3D axis drawn from `begin` to `end` on the screen:
/// their direction, how their labels sit on their anchors, and the offset of
/// the labels from the tick positions (twice the tick).
pub fn axis_tick_plan(begin: BackendCoord, end: BackendCoord, x_range: (i32, i32), y_range: (i32, i32), tick_size: i32) -> (r: (BackendCoord, Option<(HAnchor, VAnchor)>, BackendCoord))
    requires
        tick_direction_ok(begin, end, x_range, y_range, tick_size),
        i32::MIN <= 2 * tick_size <= i32::MAX,
        i32::MIN <= -2 * tick_size <= i32::MAX,
    ensures
        (r.0.0 as int, r.0.1 as int) == spec_tick_direction(begin, end, x_range, y_range, tick_size),
        r.1 == spec_tick_label_anchor((r.0.0 as int, r.0.1 as int)),
        r.2.0 == r.0.0 * 2,
        r.2.1 == r.0.1 * 2,
{
    let axis = (end.0 - begin.0, end.1 - begin.1);
    let xs = x_range.0 + x_range.1;
    let ys = y_range.0 + y_range.1;
    let x_mid = if xs >= 0 { xs / 2 } else { -((-(xs as i64) / 2) as i32) };
    let y_mid = if ys >= 0 { ys / 2 } else { -((-(ys as i64) / 2) as i32) };
    let x_dir: (i32, i32) = if begin.0 < x_mid {
        (-tick_size, 0)
    } else {
        (tick_size, 0)
    };
    let y_dir: (i32, i32) = if begin.1 < y_mid {
        (0, -tick_size)
    } else {
        (0, tick_size)
    };
    let xd = x_dir.0 * axis.0;
    let yd = y_dir.1 * axis.1;
    let x_score = if xd >= 0 { xd } else { -xd };
    let y_score = if yd >= 0 { yd } else { -yd };
    let dir = if x_score < y_score {
        x_dir
    } else {
        y_dir
    };
    let anchor = if dir.1 < 0 {
        Some((HAnchor::Center, VAnchor::Bottom))
    } else if dir.1 > 0 {
        Some((HAnchor::Center, VAnchor::Top))
    } else if dir.0 < 0 {
        Some((HAnchor::Right, VAnchor::Center))
    } else if dir.0 > 0 {
        Some((HAnchor::Left, VAnchor::Center))
    } else {
        None
    };
    (dir, anchor, (dir.0 * 2, dir.1 * 2))
}


/// The back panel of the 3D plotting box across the axis `idx`, as its
/// four corners in drawing order; a corner gives, for each axis, whether it
/// lies at the end (`true`) or the start (`false`) of that axis's range. Of
/// the two panels across the axis, the one at the start of the axis is taken
/// where its first corner is at least as deep as the other's
/// (`start_is_deeper`). The panel runs from its first corner (the start of
/// its grid lines) to its third (their end), passing through the corners
/// that differ from the first on the next axis and on the one after.
pub fn axis_panel(idx: usize, start_is_deeper: bool) -> (r: [[bool; 3]; 4])
    requires
        idx < 3,
    ensures
        forall|j: int|
            0 <= j < 3 ==> {
                &&& r[0]@[j] == (j == idx && !start_is_deeper)
                &&& r[1]@[j] == (j == (idx + 1) % 3 || r[0]@[j])
                &&& r[2]@[j] == (if j == idx { !start_is_deeper } else { true })
                &&& r[3]@[j] == (j == (idx + 2) % 3 || r[0]@[j])
            },
        forall|c: int| 0 <= c < 4 ==> #[trigger] r[c]@[idx as int] == !start_is_deeper,
{
    let side = !start_is_deeper;
    let a: [bool; 3] = [idx == 0 && side, idx == 1 && side, idx == 2 && side];
    let b: [bool; 3] = [if idx == 0 { side } else { true }, if idx == 1 { side } else { true }, if idx == 2 { side } else { true }];
    let next = (idx + 1) % 3;
    let after = (idx + 2) % 3;
    let m: [bool; 3] = [next == 0 || a[0], next == 1 || a[1], next == 2 || a[2]];
    let n: [bool; 3] = [after == 0 || a[0], after == 1 || a[1], after == 2 || a[2]];
    let r = [a, m, b, n];
    proof {
        assert(r[0]@ =~= seq![idx == 0 && side, idx == 1 && side, idx == 2 && side]);
    }
    r
}

} // verus!
