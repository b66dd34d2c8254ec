//! The linspace decorator: an axis whose values are those of a fixed step
//! from the start of the range towards its end.

use std::ops::Range;

use super::discrete::DiscreteRanged;
use super::numeric::{compute_key_points, key_point_values, key_points_defined, lemma_key_points_shape, CoordInteger};
use super::ranged::{AsRangedCoord, KeyPointHint, KeyPointWeight, Ranged};
use vstd::prelude::*;

verus! {

/// The number of grid values from `start` towards `end` by `step`. There are
/// some only where both `start` and `start + step` lie strictly on the same
/// side of `end`; then they are the values `start + i * step` that lie
/// strictly on that side.
pub open spec fn linspace_count(start: int, end: int, step: int) -> int {
    if start < end && start + step < end && step > 0 {
        (end - start + step - 1) / step
    } else if start > end && start + step > end && step < 0 {
        (start - end + (-step) - 1) / (-step)
    } else {
        0
    }
}

/// The grid values from `start` towards `end` by `step`.
pub open spec fn linspace_grid(start: int, end: int, step: int) -> Seq<int> {
    Seq::new(linspace_count(start, end, step) as nat, |i: int| start + i * step)
}

/// The grid from `start` towards `end` by `step` is the longest run
/// `start, start + step, start + 2 * step, ...` that lies strictly on the
/// side of `end` where `start` lies: the value after the last one no longer
/// does. It is empty exactly where `start + step` does not lie strictly on
/// that side (or `start == end`).
pub proof fn lemma_linspace_grid_shape(start: int, end: int, step: int)
    ensures
        ({
            let g = linspace_grid(start, end, step);
            &&& forall|i: int| 0 <= i < g.len() ==> #[trigger] g[i] == start + i * step
            &&& forall|i: int|
                0 <= i < g.len() ==> (start < end ==> #[trigger] g[i] < end) && (start > end
                    ==> g[i] > end)
            &&& g.len() > 0 ==> (start < end ==> start + g.len() * step >= end) && (start > end
                ==> start + g.len() * step <= end)
            &&& (g.len() == 0 <==> !((start < end && start + step < end && step > 0) || (start
                > end && start + step > end && step < 0)))
        }),
{
    let g = linspace_grid(start, end, step);
    let n = linspace_count(start, end, step);
    if start < end && start + step < end && step > 0 {
        let d = end - start;
        vstd::arithmetic::div_mod::lemma_fundamental_div_mod(d + step - 1, step);
        vstd::arithmetic::div_mod::lemma_mod_bound(d + step - 1, step);
        assert((n - 1) * step < d <= n * step) by (nonlinear_arith)
            requires
                n == (d + step - 1) / step,
                d + step - 1 == step * n + (d + step - 1) % step,
                0 <= (d + step - 1) % step < step,
                step > 0,
        ;
        assert(n >= 1) by (nonlinear_arith)
            requires
                d <= n * step,
                d > 0,
                step > 0,
        ;
        assert forall|i: int| 0 <= i < g.len() implies #[trigger] g[i] < end by {
            assert(i * step <= (n - 1) * step) by (nonlinear_arith)
                requires
                    i <= n - 1,
                    step > 0,
            ;
        }
    } else if start > end && start + step > end && step < 0 {
        let d = start - end;
        let s = -step;
        vstd::arithmetic::div_mod::lemma_fundamental_div_mod(d + s - 1, s);
        vstd::arithmetic::div_mod::lemma_mod_bound(d + s - 1, s);
        assert((n - 1) * s < d <= n * s) by (nonlinear_arith)
            requires
                n == (d + s - 1) / s,
                d + s - 1 == s * n + (d + s - 1) % s,
                0 <= (d + s - 1) % s < s,
                s > 0,
        ;
        assert(n >= 1) by (nonlinear_arith)
            requires
                d <= n * s,
                d > 0,
                s > 0,
        ;
        assert(n * step == -(n * s)) by (nonlinear_arith)
            requires
                s == -step,
        ;
        assert forall|i: int| 0 <= i < g.len() implies #[trigger] g[i] > end by {
            assert(i * s <= (n - 1) * s) by (nonlinear_arith)
                requires
                    i <= n - 1,
                    s > 0,
            ;
            assert(i * step == -(i * s)) by (nonlinear_arith)
                requires
                    s == -step,
            ;
        }
    }
}

/// The inputs for which the grid can be computed within the value type `T`:
/// `start + step` is a value of `T`, the step leads towards `end` where there
/// are grid values (else the walk would not end), and the first value
/// reached beyond the grid is a value of `T`.
pub open spec fn linspace_ok<T: CoordInteger>(start: int, end: int, step: int) -> bool {
    &&& T::min_int() <= start + step <= T::max_int()
    &&& (start < end && start + step < end) ==> step > 0
    &&& (start > end && start + step > end) ==> step < 0
    &&& T::min_int() <= start + linspace_count(start, end, step) * step <= T::max_int()
}

/// The index of the first occurrence of `v` in `s`, if any.
pub open spec fn first_index_of<V>(s: Seq<V>, v: V) -> Option<usize> {
    if exists|i: int| 0 <= i < s.len() && s[i] == v {
        Some(
            (choose|i: int|
                0 <= i < s.len() && s[i] == v && forall|j: int| 0 <= j < i ==> s[j] != v) as usize,
        )
    } else {
        None
    }
}

/// The axis decorator whose values are the grid of a fixed step from the
/// start of the range of the decorated axis towards its end.
pub struct Linspace<T: Ranged> where T::ValueType: CoordInteger {
    step: T::ValueType,
    inner: T,
    grid_value: Vec<T::ValueType>,
}

impl<T: Ranged> Linspace<T> where T::ValueType: CoordInteger {
    /// The decorated axis.
    pub closed spec fn inner(&self) -> T {
        self.inner
    }

    /// The step.
    pub closed spec fn step_value(&self) -> T::ValueType {
        self.step
    }

    /// The grid values.
    pub closed spec fn grid(&self) -> Seq<T::ValueType> {
        self.grid_value@
    }

    /// The grid that the range of the decorated axis and the step give.
    pub open spec fn spec_grid(&self) -> Seq<T::ValueType> {
        let range = self.inner().spec_range();
        linspace_grid(range.start.as_int(), range.end.as_int(), self.step_value().as_int()).map_values(
            |x: int| T::ValueType::from_int(x),
        )
    }

    /// Whether the grid values are those that the range and the step give.
    pub open spec fn is_stepped(&self) -> bool {
        self.grid() == self.spec_grid()
    }

    /// Append the grid values, from the start of the range towards its end,
    /// to the grid.
    fn compute_grid_values(&mut self)
        requires
            old(self).inner().range_ok(),
            linspace_ok::<T::ValueType>(
                old(self).inner().spec_range().start.as_int(),
                old(self).inner().spec_range().end.as_int(),
                old(self).step_value().as_int(),
            ),
        ensures
            final(self).inner() == old(self).inner(),
            final(self).step_value() == old(self).step_value(),
            final(self).grid() == old(self).grid() + old(self).spec_grid(),
    {
        let range = self.inner.range();
        proof {
            T::ValueType::lemma_value_bounds(range.start);
            T::ValueType::lemma_value_bounds(range.end);
            T::ValueType::lemma_value_bounds(self.step);
            T::ValueType::lemma_type_bounds();
        }
        let start = range.start.to_i128();
        let end = range.end.to_i128();
        let step = self.step.to_i128();
        let next = start + step;
        let ghost count = linspace_count(start as int, end as int, step as int);
        let ghost grid = linspace_grid(start as int, end as int, step as int);
        let ghost before = self.grid_value@;
        let ascending = start < end && next < end;
        let descending = start > end && next > end;
        if !ascending && !descending {
            proof {
                assert(grid =~= Seq::empty());
                assert(self.spec_grid() =~= Seq::empty());
                assert(self.grid_value@ =~= before + self.spec_grid());
            }
            return;
        }
        let mut current = start;
        let ghost mut i: int = 0;
        proof {
            lemma_grid_walk(start as int, end as int, step as int, 0);
        }
        while (ascending && current < end) || (descending && current > end)
            invariant
                ascending ==> step > 0 && start < end,
                descending ==> step < 0 && start > end,
                ascending || descending,
                ascending != descending,
                count == linspace_count(start as int, end as int, step as int),
                grid == linspace_grid(start as int, end as int, step as int),
                current == start + i * step,
                0 <= i <= count,
                (ascending && current < end) || (descending && current > end) ==> i < count,
                !((ascending && current < end) || (descending && current > end)) ==> i == count,
                T::ValueType::min_int() <= start <= T::ValueType::max_int(),
                T::ValueType::min_int() <= end <= T::ValueType::max_int(),
                T::ValueType::min_int() <= start + count * step <= T::ValueType::max_int(),
                -0x1_0000_0000_0000_0000 <= step <= 0x1_0000_0000_0000_0000,
                -0x1_0000_0000_0000_0000 <= start <= 0x1_0000_0000_0000_0000,
                -0x1_0000_0000_0000_0000 <= end <= 0x1_0000_0000_0000_0000,
                self.inner == old(self).inner,
                self.step == old(self).step,
                start == old(self).inner().spec_range().start.as_int(),
                end == old(self).inner().spec_range().end.as_int(),
                step == old(self).step_value().as_int(),
                self.grid_value@ == before + grid.take(i).map_values(
                    |x: int| T::ValueType::from_int(x),
                ),
            decreases count - i,
        {
            proof {
                T::ValueType::lemma_type_bounds();
                lemma_grid_in_type::<T::ValueType>(start as int, end as int, step as int, i);
                assert(T::ValueType::min_int() <= current <= T::ValueType::max_int());
            }
            self.grid_value.push(T::ValueType::from_i128(current));
            proof {
                assert(grid[i] == current);
                assert(self.grid_value@ =~= before + grid.take(i + 1).map_values(
                    |x: int| T::ValueType::from_int(x),
                ));
                lemma_grid_walk(start as int, end as int, step as int, i + 1);
                assert(start + (i + 1) * step == start + i * step + step) by (nonlinear_arith);
            }
            current = current + step;
            proof {
                i = i + 1;
            }
        }
        proof {
            assert(grid.take(i) =~= grid);
            assert(self.spec_grid() =~= grid.map_values(|x: int| T::ValueType::from_int(x)));
        }
    }
}

/// Walking from `start` by `step` towards `end`, the walk is still on the
/// start side of `end` after `i` steps exactly when `i` is below the number of
/// grid values, and the value after the last one is beyond it by less than a
/// step.
proof fn lemma_grid_walk(start: int, end: int, step: int, i: int)
    requires
        (start < end && start + step < end && step > 0) || (start > end && start + step > end
            && step < 0),
        0 <= i <= linspace_count(start, end, step),
    ensures
        step > 0 ==> (start + i * step < end <==> i < linspace_count(start, end, step)),
        step < 0 ==> (start + i * step > end <==> i < linspace_count(start, end, step)),
{
    let c = linspace_count(start, end, step);
    if step > 0 {
        let d = end - start;
        assert(c * step >= d && (c - 1) * step < d) by (nonlinear_arith)
            requires
                c == (d + step - 1) / step,
                step > 0,
                d > 0,
        ;
        if i < c {
            assert(i * step <= (c - 1) * step) by (nonlinear_arith)
                requires
                    i <= c - 1,
                    step > 0,
            ;
        } else {
            assert(i * step == c * step);
        }
    } else {
        let d = start - end;
        let t = -step;
        assert(c * t >= d && (c - 1) * t < d) by (nonlinear_arith)
            requires
                c == (d + t - 1) / t,
                t > 0,
                d > 0,
        ;
        assert(i * step == -(i * t)) by (nonlinear_arith)
            requires
                t == -step,
        ;
        if i < c {
            assert(i * t <= (c - 1) * t) by (nonlinear_arith)
                requires
                    i <= c - 1,
                    t > 0,
            ;
        } else {
            assert(i * t == c * t);
        }
    }
}

impl<T: Ranged> Ranged for Linspace<T> where T::ValueType: CoordInteger {
    type ValueType = T::ValueType;

    open spec fn spec_map(&self, value: T::ValueType, limit: (i32, i32)) -> i32 {
        self.inner().spec_map(value, limit)
    }

    open spec fn map_ok(&self, value: T::ValueType, limit: (i32, i32)) -> bool {
        self.inner().map_ok(value, limit)
    }

    open spec fn spec_key_points(&self, max_points: usize, weight: KeyPointWeight) -> Seq<
        T::ValueType,
    > {
        if self.grid().len() == 0 {
            Seq::empty()
        } else {
            key_point_values(0, self.grid().len() - 1, max_points as int).map_values(
                |x: int| self.grid()[x],
            )
        }
    }

    open spec fn key_points_ok(&self, max_points: usize) -> bool {
        self.grid().len() == 0 || key_points_defined(
            0,
            self.grid().len() - 1,
            max_points as int,
        )
    }

    open spec fn spec_range(&self) -> Range<T::ValueType> {
        self.inner().spec_range()
    }

    open spec fn range_ok(&self) -> bool {
        self.inner().range_ok()
    }

    open spec fn spec_axis_pixel_range(&self, limit: (i32, i32)) -> Range<i32> {
        self.inner().spec_axis_pixel_range(limit)
    }

    open spec fn axis_pixel_range_ok(&self, limit: (i32, i32)) -> bool {
        self.inner().axis_pixel_range_ok(limit)
    }

    fn map(&self, value: &T::ValueType, limit: (i32, i32)) -> (r: i32) {
        self.inner.map(value, limit)
    }

    fn key_points<Hint: KeyPointHint>(&self, hint: Hint) -> (r: Vec<T::ValueType>) {
        let n = self.grid_value.len();
        if n == 0 {
            return Vec::new();
        }
        let max_points = hint.max_num_points();
        let idx = compute_key_points(0usize, n - 1, max_points);
        let ghost kp = key_point_values(0, n - 1, max_points as int);
        proof {
            lemma_key_points_shape(0, n - 1, max_points as int);
        }
        let mut ret: Vec<T::ValueType> = Vec::new();
        let mut i: usize = 0;
        while i < idx.len()
            invariant
                n == self.grid_value@.len(),
                n >= 1,
                idx@ == kp.map_values(|x: int| usize::from_int(x)),
                forall|j: int| 0 <= j < kp.len() ==> 0 <= #[trigger] kp[j] <= n - 1,
                0 <= i <= idx.len(),
                ret@ == kp.take(i as int).map_values(|x: int| self.grid_value@[x]),
            decreases idx.len() - i,
        {
            proof {
                usize::lemma_from_int(kp[i as int]);
            }
            let x = idx[i];
            ret.push(self.grid_value[x]);
            proof {
                assert(ret@ =~= kp.take(i + 1).map_values(|x: int| self.grid_value@[x]));
            }
            i = i + 1;
        }
        proof {
            assert(kp.take(kp.len() as int) =~= kp);
        }
        ret
    }

    fn range(&self) -> (r: Range<T::ValueType>) {
        self.inner.range()
    }

    fn axis_pixel_range(&self, limit: (i32, i32)) -> (r: Range<i32>) {
        self.inner.axis_pixel_range(limit)
    }
}

impl<T: Ranged> DiscreteRanged for Linspace<T> where T::ValueType: CoordInteger {
    open spec fn spec_size(&self) -> usize {
        self.grid().len() as usize
    }

    open spec fn size_ok(&self) -> bool {
        true
    }

    open spec fn spec_index_of(&self, value: T::ValueType) -> Option<usize> {
        first_index_of(self.grid(), value)
    }

    open spec fn index_of_ok(&self, value: T::ValueType) -> bool {
        true
    }

    open spec fn spec_from_index(&self, index: usize) -> Option<T::ValueType> {
        if index < self.grid().len() {
            Some(self.grid()[index as int])
        } else {
            None
        }
    }

    open spec fn from_index_ok(&self, index: usize) -> bool {
        true
    }

    fn size(&self) -> (r: usize) {
        self.grid_value.len()
    }

    fn index_of(&self, value: &T::ValueType) -> (r: Option<usize>) {
        let v = value.to_i128();
        let n = self.grid_value.len();
        let mut i: usize = 0;
        while i < n
            invariant
                n == self.grid_value@.len(),
                0 <= i <= n,
                v == value.as_int(),
                forall|j: int| 0 <= j < i ==> self.grid_value@[j] != *value,
            decreases n - i,
        {
            if self.grid_value[i].to_i128() == v {
                proof {
                    T::ValueType::lemma_int_round_trip(self.grid_value@[i as int]);
                    T::ValueType::lemma_int_round_trip(*value);
                    let s = self.grid_value@;
                    assert(s[i as int] == *value);
                    let c = choose|k: int|
                        0 <= k < s.len() && s[k] == *value && forall|j: int|
                            0 <= j < k ==> s[j] != *value;
                    if c < i {
                    } else if c > i {
                        assert(s[i as int] != *value);
                    }
                }
                return Some(i);
            }
            proof {
                T::ValueType::lemma_int_round_trip(self.grid_value@[i as int]);
                T::ValueType::lemma_int_round_trip(*value);
            }
            i = i + 1;
        }
        None
    }

    fn from_index(&self, index: usize) -> (r: Option<T::ValueType>) {
        if index < self.grid_value.len() {
            Some(self.grid_value[index])
        } else {
            None
        }
    }
}

impl<T: Ranged> AsRangedCoord for Linspace<T> where T::ValueType: CoordInteger {
    type CoordDescType = Self;
    type Value = T::ValueType;

    open spec fn spec_into_coord(self) -> Self {
        self
    }

    fn into_coord(self) -> (r: Self) {
        self
    }
}

/// The trait that turns an axis into a linspace axis.
pub trait IntoLinspace: AsRangedCoord {
    /// The axis whose values are those from the start of the range towards its
    /// end by `val`.
    fn step(self, val: Self::Value) -> (r: Linspace<Self::CoordDescType>) where
        Self::Value: CoordInteger,

        requires
            self.spec_into_coord().range_ok(),
            linspace_ok::<Self::Value>(
                self.spec_into_coord().spec_range().start.as_int(),
                self.spec_into_coord().spec_range().end.as_int(),
                val.as_int(),
            ),
        ensures
            r.inner() == self.spec_into_coord(),
            r.step_value() == val,
            r.is_stepped(),
    {
        let mut ret = Linspace { step: val, inner: self.into_coord(), grid_value: Vec::new() };
        ret.compute_grid_values();
        proof {
            assert(ret.grid() =~= ret.spec_grid());
        }
        ret
    }
}

impl<T: AsRangedCoord> IntoLinspace for T {

}

/// On a linspace axis, the index of the value of each index is that index:
/// the grid values are all different.
pub proof fn lemma_linspace_index_round_trip<T: Ranged>(l: Linspace<T>, i: usize) where
    T::ValueType: CoordInteger,

    requires
        l.is_stepped(),
        i < l.spec_size(),
    ensures
        l.spec_from_index(i) is Some,
        l.spec_index_of(l.spec_from_index(i).unwrap()) == Some(i),
{
    let range = l.inner().spec_range();
    let start = range.start.as_int();
    let end = range.end.as_int();
    let step = l.step_value().as_int();
    let g = linspace_grid(start, end, step);
    let s = l.grid();
    let v = s[i as int];
    T::ValueType::lemma_value_bounds(range.start);
    T::ValueType::lemma_value_bounds(range.end);
    assert(g.len() > 0);
    assert(step != 0);
    assert forall|j: int| 0 <= j < s.len() && j != i implies s[j] != v by {
        T::ValueType::lemma_type_bounds();
        lemma_grid_in_type::<T::ValueType>(start, end, step, j);
        lemma_grid_in_type::<T::ValueType>(start, end, step, i as int);
        T::ValueType::lemma_from_int(g[j]);
        T::ValueType::lemma_from_int(g[i as int]);
        if j < i {
            assert(j * step != i * step) by (nonlinear_arith)
                requires
                    j < i,
                    step != 0,
            ;
        } else {
            assert(j * step != i * step) by (nonlinear_arith)
                requires
                    j > i,
                    step != 0,
            ;
        }
    }
    let c = choose|k: int| 0 <= k < s.len() && s[k] == v && forall|j: int| 0 <= j < k ==> s[j] != v;
    assert(0 <= i < s.len() && s[i as int] == v);
}

/// The grid values of a stepped linspace axis lie between its start and end.
proof fn lemma_grid_in_type<V: CoordInteger>(start: int, end: int, step: int, j: int)
    requires
        V::min_int() <= start <= V::max_int(),
        V::min_int() <= end <= V::max_int(),
        0 <= j < linspace_count(start, end, step),
    ensures
        V::min_int() <= linspace_grid(start, end, step)[j] <= V::max_int(),
{
    let c = linspace_count(start, end, step);
    lemma_grid_walk(start, end, step, j);
    if step > 0 {
        assert(j * step >= 0) by (nonlinear_arith)
            requires
                j >= 0,
                step > 0,
        ;
    } else {
        assert(j * step <= 0) by (nonlinear_arith)
            requires
                j >= 0,
                step < 0,
        ;
    }
}


/// The key points of a linspace axis for at most `m` points are grid values,
/// at most `m + 1` of them (the integer plan may close with one more), taken
/// at evenly spaced grid indices in increasing order: the `i`-th one is the
/// grid value at index `first + i * step` for one `first` and one `step >= 1`.
pub proof fn lemma_linspace_key_points<T: Ranged>(l: Linspace<T>, m: usize, weight: KeyPointWeight) -> (r: (int, int)) where
    T::ValueType: CoordInteger,

    requires
        l.key_points_ok(m),
    ensures
        l.spec_key_points(m, weight).len() <= m + 1,
        l.grid().len() == 0 ==> l.spec_key_points(m, weight).len() == 0,
        r.0 >= 0,
        r.1 >= 1,
        l.spec_key_points(m, weight).len() > 0 ==> r.0 + (l.spec_key_points(m, weight).len() - 1)
            * r.1 < l.grid().len(),
        forall|i: int|
            0 <= i < l.spec_key_points(m, weight).len() ==> #[trigger] l.spec_key_points(m, weight)[i]
                == l.grid()[r.0 + i * r.1],
{
    let g = l.grid();
    if g.len() > 0 {
        let n = g.len() - 1;
        lemma_key_points_shape(0, n, m as int);
        let idx = key_point_values(0, n, m as int);
        let s = crate::coord::numeric::key_point_step(n, m as int);
        let kp = l.spec_key_points(m, weight);
        assert(kp.len() == idx.len());
        if idx.len() > 0 {
            let first = idx[0];
            assert forall|i: int| 0 <= i < idx.len() implies #[trigger] idx[i] == first + i * s by {
                lemma_index_walk(idx, s, i);
            }
            assert forall|i: int| 0 <= i < kp.len() implies 0 <= first + i * s < g.len()
                && #[trigger] kp[i] == g[first + i * s] by {
                assert(idx[i] == first + i * s);
                assert(idx[i] <= n);
            }
            let last = kp.len() - 1;
            assert(kp[last] == g[first + last * s]);
            assert(kp[0] == g[first + 0 * s]);
            (first, s)
        } else {
            assert(l.spec_key_points(m, weight).len() == 0);
            (0, 1)
        }
    } else {
        assert(l.spec_key_points(m, weight).len() == 0);
        (0, 1)
    }
}

/// A sequence whose consecutive terms differ by `s` has its `i`-th term `i`
/// steps of `s` after the first.
proof fn lemma_index_walk(idx: Seq<int>, s: int, i: int)
    requires
        0 <= i < idx.len(),
        forall|j: int| 0 <= j < idx.len() - 1 ==> #[trigger] idx[j + 1] == idx[j] + s,
    ensures
        idx[i] == idx[0] + i * s,
    decreases i,
{
    if i > 0 {
        lemma_index_walk(idx, s, i - 1);
        let j = i - 1;
        assert(idx[j + 1] == idx[j] + s);
        assert(i * s == (i - 1) * s + s) by (nonlinear_arith);
    }
}

} // verus!
