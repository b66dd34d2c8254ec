//! The nested axis: a discrete primary axis whose every value carries a
//! secondary axis of its own, drawn within the bucket of that value.

use std::ops::Range;

use super::discrete::{indices_ok, values_between, DiscreteRanged};
use super::fits_i32;
use super::ranged::{full_pixel_range, AsRangedCoord, KeyPointHint, KeyPointWeight, Ranged};
use vstd::prelude::*;

verus! {

/// `p / q` rounded toward zero, for `q > 0`.
pub open spec fn div_toward_zero(p: int, q: int) -> int {
    if p >= 0 {
        p / q
    } else {
        -((-p) / q)
    }
}

/// The width of each bucket when `len` pixels are shared by `total` buckets.
pub open spec fn bucket_size(len: int, total: int) -> int {
    div_toward_zero(len, total)
}

/// The pixels left over when `len` pixels are shared by `total` buckets,
/// taken modulo `total` into `0..total`.
pub open spec fn bucket_residual(len: int, total: int) -> int {
    let r = len - total * div_toward_zero(len, total);
    if r < 0 {
        r + total
    } else {
        r
    }
}

/// The left end of the bucket `idx` of `total` buckets within `limit`.
pub open spec fn bucket_left(limit: (i32, i32), total: int, idx: int) -> int {
    let len = limit.1 - limit.0;
    let res = bucket_residual(len, total);
    limit.0 + bucket_size(len, total) * idx + if res < idx {
        res
    } else {
        idx
    }
}

/// The right end of the bucket `idx` of `total` buckets within `limit`, as
/// computed from the left end: the start of `limit`, the left end and the
/// bucket width added up, plus one where the residual is below `idx`.
pub open spec fn bucket_right(limit: (i32, i32), total: int, idx: int) -> int {
    let len = limit.1 - limit.0;
    let res = bucket_residual(len, total);
    limit.0 + bucket_left(limit, total, idx) + bucket_size(len, total) + if res < idx {
        1int
    } else {
        0int
    }
}

/// Whether the bucket ends of `idx` and the sums that lead to them fit `i32`.
pub open spec fn bucket_ok(limit: (i32, i32), total: int, idx: int) -> bool {
    let len = limit.1 - limit.0;
    let size = bucket_size(len, total);
    let res = bucket_residual(len, total);
    let left = bucket_left(limit, total, idx);
    &&& fits_i32(len)
    &&& 1 <= total <= i32::MAX
    &&& 0 <= idx <= i32::MAX
    &&& fits_i32(size * idx)
    &&& fits_i32(limit.0 + size * idx)
    &&& fits_i32(left)
    &&& fits_i32(limit.0 + left)
    &&& fits_i32(limit.0 + left + size)
    &&& fits_i32(bucket_right(limit, total, idx))
}

/// Rounding toward zero keeps the quotient and the product with the divisor
/// within the dividend.
proof fn lemma_div_toward_zero_bounds(len: int, t: int)
    requires
        t >= 1,
    ensures
        -len <= div_toward_zero(len, t) <= len || len <= div_toward_zero(len, t) <= -len,
        len >= 0 ==> 0 <= t * div_toward_zero(len, t) <= len,
        len < 0 ==> len <= t * div_toward_zero(len, t) <= 0,
{
    if len >= 0 {
        let q = len / t;
        assert(0 <= q <= len && 0 <= t * q <= len) by (nonlinear_arith)
            requires
                q == len / t,
                t >= 1,
                len >= 0,
        ;
    } else {
        let q = (-len) / t;
        assert(0 <= q <= -len && 0 <= t * q <= -len) by (nonlinear_arith)
            requires
                q == (-len) / t,
                t >= 1,
                len < 0,
        ;
        assert(t * (-q) == -(t * q)) by (nonlinear_arith);
    }
}

/// The nested axis: the primary axis and one secondary axis for each of its
/// values, by index.
pub struct NestedRange<Primary: DiscreteRanged, Secondary: Ranged> {
    primary: Primary,
    secondary: Vec<Secondary>,
}

impl<P: DiscreteRanged, S: Ranged> NestedRange<P, S> {
    /// The primary axis.
    pub closed spec fn primary(&self) -> P {
        self.primary
    }

    /// The secondary axes.
    pub closed spec fn secondary(&self) -> Seq<S> {
        self.secondary@
    }

    /// The index of the bucket that a value lies in: that of its primary
    /// value, or 0 where it has none.
    pub open spec fn bucket_index(&self, value: P::ValueType) -> int {
        match self.primary().spec_index_of(value) {
            Some(i) => i as int,
            None => 0,
        }
    }
}

impl<P: DiscreteRanged, S: Ranged> Ranged for NestedRange<P, S> {
    type ValueType = (P::ValueType, Option<S::ValueType>);

    open spec fn spec_map(&self, value: Self::ValueType, limit: (i32, i32)) -> i32 {
        let total = self.primary().spec_size() as int;
        let idx = self.bucket_index(value.0);
        let left = bucket_left(limit, total, idx) as i32;
        let right = bucket_right(limit, total, idx) as i32;
        match value.1 {
            Some(v) => self.secondary()[idx].spec_map(v, (left, right)),
            None => div_toward_zero(left + right, 2) as i32,
        }
    }

    open spec fn map_ok(&self, value: Self::ValueType, limit: (i32, i32)) -> bool {
        let total = self.primary().spec_size() as int;
        let idx = self.bucket_index(value.0);
        let left = bucket_left(limit, total, idx) as i32;
        let right = bucket_right(limit, total, idx) as i32;
        &&& self.primary().size_ok()
        &&& self.primary().index_of_ok(value.0)
        &&& bucket_ok(limit, total, idx)
        &&& match value.1 {
            Some(v) => idx < self.secondary().len() && self.secondary()[idx].map_ok(
                v,
                (left, right),
            ),
            None => fits_i32(left + right),
        }
    }

    open spec fn spec_key_points(&self, max_points: usize, weight: KeyPointWeight) -> Seq<
        Self::ValueType,
    > {
        self.primary().spec_key_points(max_points, weight).map_values(
            |x: P::ValueType| (x, None::<S::ValueType>),
        )
    }

    open spec fn key_points_ok(&self, max_points: usize) -> bool {
        self.primary().key_points_ok(max_points)
    }

    open spec fn spec_range(&self) -> Range<Self::ValueType> {
        let last = (self.primary().spec_size() - 1) as int;
        Range {
            start: (self.primary().spec_range().start, Some(self.secondary()[0].spec_range().start)),
            end: (self.primary().spec_range().end, Some(self.secondary()[last].spec_range().end)),
        }
    }

    open spec fn range_ok(&self) -> bool {
        let last = (self.primary().spec_size() - 1) as int;
        &&& self.primary().range_ok()
        &&& self.primary().size_ok()
        &&& self.primary().spec_size() >= 1
        &&& self.secondary().len() >= self.primary().spec_size()
        &&& self.secondary()[0].range_ok()
        &&& self.secondary()[last].range_ok()
    }

    open spec fn spec_axis_pixel_range(&self, limit: (i32, i32)) -> Range<i32> {
        full_pixel_range(limit)
    }

    open spec fn axis_pixel_range_ok(&self, limit: (i32, i32)) -> bool {
        true
    }

    fn map(&self, value: &Self::ValueType, limit: (i32, i32)) -> (r: i32) {
        let idx = match self.primary.index_of(&value.0) {
            Some(i) => i,
            None => 0,
        };
        let total = self.primary.size();
        let t = total as i64;
        let len = (limit.1 as i64) - (limit.0 as i64);
        let q: i64 = if len >= 0 {
            len / t
        } else {
            -((-len) / t)
        };
        proof {
            lemma_div_toward_zero_bounds(len as int, t as int);
        }
        let mut residual: i64 = len - t * q;
        if residual < 0 {
            residual = residual + t;
        }
        let i = idx as i64;
        let smaller = if residual < i {
            residual
        } else {
            i
        };
        let left_wide: i64 = limit.0 as i64 + q * i + smaller;
        let extra: i64 = if residual < i {
            1
        } else {
            0
        };
        let right_wide: i64 = limit.0 as i64 + left_wide + q + extra;
        let s_left = left_wide as i32;
        let s_right = right_wide as i32;
        match &value.1 {
            Some(secondary_value) => self.secondary[idx].map(secondary_value, (s_left, s_right)),
            None => {
                let sum = s_left as i64 + s_right as i64;
                let half = if sum >= 0 {
                    sum / 2
                } else {
                    -((-sum) / 2)
                };
                half as i32
            },
        }
    }

    fn key_points<Hint: KeyPointHint>(&self, hint: Hint) -> (r: Vec<Self::ValueType>) {
        let inner = self.primary.key_points(hint);
        let ghost kp = inner@;
        let mut ret: Vec<Self::ValueType> = Vec::new();
        for x in it: inner
            invariant
                it.seq() == kp,
                ret@ == kp.take(it.index() as int).map_values(
                    |v: P::ValueType| (v, None::<S::ValueType>),
                ),
        {
            ret.push((x, None));
            assert(ret@ =~= kp.take(it.index() + 1).map_values(
                |v: P::ValueType| (v, None::<S::ValueType>),
            ));
        }
        assert(kp.take(kp.len() as int) =~= kp);
        ret
    }

    fn range(&self) -> (r: Range<Self::ValueType>) {
        let primary_range = self.primary.range();
        let secondary_left = self.secondary[0].range().start;
        let secondary_right = self.secondary[self.primary.size() - 1].range().end;
        (primary_range.start, Some(secondary_left))..(primary_range.end, Some(secondary_right))
    }

    fn axis_pixel_range(&self, limit: (i32, i32)) -> (r: Range<i32>) {
        limit.0..limit.1
    }
}

impl<P: DiscreteRanged, S: Ranged> AsRangedCoord for NestedRange<P, S> {
    type CoordDescType = Self;
    type Value = (P::ValueType, Option<S::ValueType>);

    open spec fn spec_into_coord(self) -> Self {
        self
    }

    fn into_coord(self) -> (r: Self) {
        self
    }
}

/// Whether `builder`, called with `value`, may return an axis that converts
/// into `axis`.
pub open spec fn builds<V, A: AsRangedCoord, F: Fn(V) -> A>(
    builder: F,
    value: V,
    axis: A::CoordDescType,
) -> bool {
    exists|a: A| #[trigger] builder.ensures((value,), a) && axis == a.spec_into_coord()
}

/// The trait that builds a nested axis from a discrete axis.
pub trait BuildNestedCoord: AsRangedCoord where Self::CoordDescType: DiscreteRanged {
    /// The nested axis whose primary axis is this one, and whose secondary axis
    /// for each value (in the order of the indices, up to the first index that
    /// has no value) is the axis that `builder` makes of it.
    fn nested_coord<S: AsRangedCoord, F: Fn(<Self::CoordDescType as Ranged>::ValueType) -> S>(
        self,
        builder: F,
    ) -> (r: NestedRange<Self::CoordDescType, S::CoordDescType>)
        requires
            self.spec_into_coord().size_ok(),
            self.spec_into_coord().spec_size() > 0,
            indices_ok(&self.spec_into_coord(), 0, self.spec_into_coord().spec_size() as int),
            forall|i: int|
                0 <= i < values_between(
                    &self.spec_into_coord(),
                    0,
                    self.spec_into_coord().spec_size() as int,
                ).len() ==> builder.requires(
                    (
                        #[trigger] values_between(
                            &self.spec_into_coord(),
                            0,
                            self.spec_into_coord().spec_size() as int,
                        )[i],
                    ),
                ),
        ensures
            r.primary() == self.spec_into_coord(),
            r.secondary().len() == values_between(
                &self.spec_into_coord(),
                0,
                self.spec_into_coord().spec_size() as int,
            ).len(),
            forall|i: int|
                0 <= i < r.secondary().len() ==> builds::<_, S, F>(
                    builder,
                    values_between(
                        &self.spec_into_coord(),
                        0,
                        self.spec_into_coord().spec_size() as int,
                    )[i],
                    #[trigger] r.secondary()[i],
                ),
    {
        let primary = self.into_coord();
        let values = primary.values().collect();
        let ghost vs = values@;
        let mut secondary: Vec<S::CoordDescType> = Vec::new();
        for value in it: values
            invariant
                it.seq() == vs,
                vs == values_between(&primary, 0, primary.spec_size() as int),
                primary == self.spec_into_coord(),
                forall|i: int| 0 <= i < vs.len() ==> builder.requires((#[trigger] vs[i],)),
                secondary@.len() == it.index(),
                forall|i: int|
                    0 <= i < secondary@.len() ==> builds::<_, S, F>(
                        builder,
                        vs[i],
                        #[trigger] secondary@[i],
                    ),
        {
            let ghost k = it.index();
            let ghost old_sec = secondary@;
            let axis = builder(value);
            let coord = axis.into_coord();
            proof {
                assert(builds::<_, S, F>(builder, vs[k], coord));
            }
            secondary.push(coord);
            proof {
                assert forall|i: int| 0 <= i < secondary@.len() implies builds::<_, S, F>(
                    builder,
                    vs[i],
                    #[trigger] secondary@[i],
                ) by {
                    if i < k {
                        assert(old_sec[i] == secondary@[i]);
                    }
                }
            }
        }
        NestedRange { primary, secondary }
    }
}

impl<T: AsRangedCoord> BuildNestedCoord for T where T::CoordDescType: DiscreteRanged {

}

} // verus!
