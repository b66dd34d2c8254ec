//! Discrete axes: axes with finitely many values that can be numbered.

use std::ops::Range;

use super::fits_i32;
use super::ranged::{full_pixel_range, AsRangedCoord, KeyPointHint, KeyPointWeight, Ranged};
use vstd::prelude::*;
use vstd::std_specs::convert::FromSpecImpl;

verus! {

/// The trait indicates the coordinate is discrete, so that we can draw a
/// histogram on it.
pub trait DiscreteRanged: Ranged {
    /// The number of values in the range.
    spec fn spec_size(&self) -> usize;

    /// Whether the size can be computed within the integer types involved.
    spec fn size_ok(&self) -> bool;

    /// The index of `value`, if it has one.
    spec fn spec_index_of(&self, value: Self::ValueType) -> Option<usize>;

    /// Whether the index of `value` can be computed within the integer types involved.
    spec fn index_of_ok(&self, value: Self::ValueType) -> bool;

    /// The value with the index `index`, if any.
    spec fn spec_from_index(&self, index: usize) -> Option<Self::ValueType>;

    /// Whether the value of `index` can be computed within the integer types involved.
    spec fn from_index_ok(&self, index: usize) -> bool;

    /// Get the number of elements in the range.
    fn size(&self) -> (r: usize)
        requires
            self.size_ok(),
        ensures
            r == self.spec_size(),
    ;

    /// Map a value to the index.
    fn index_of(&self, value: &Self::ValueType) -> (r: Option<usize>)
        requires
            self.index_of_ok(*value),
        ensures
            r == self.spec_index_of(*value),
    ;

    /// Reverse map the index to the value.
    fn from_index(&self, index: usize) -> (r: Option<Self::ValueType>)
        requires
            self.from_index_ok(index),
        ensures
            r == self.spec_from_index(index),
    ;

    /// Return an iterator over all the values, from index 0 to the size.
    fn values(&self) -> (r: DiscreteValueIter<'_, Self>)
        requires
            self.size_ok(),
        ensures
            r == DiscreteValueIter(self, 0, self.spec_size()),
    {
        DiscreteValueIter(self, 0, self.size())
    }
}

/// The values that the iteration from index `start` to `end` yields: the
/// value of each index in turn, up to the first index that has none.
pub open spec fn values_between<T: DiscreteRanged>(r: &T, start: int, end: int) -> Seq<
    T::ValueType,
>
    decreases end - start,
{
    if start >= end || start < 0 || start > usize::MAX {
        Seq::empty()
    } else {
        match r.spec_from_index(start as usize) {
            Some(v) => seq![v] + values_between(r, start + 1, end),
            None => Seq::empty(),
        }
    }
}

/// Whether the value of every index from `start` to `end` can be computed.
pub open spec fn indices_ok<T: DiscreteRanged>(r: &T, start: int, end: int) -> bool {
    forall|i: usize| start <= i < end ==> #[trigger] r.from_index_ok(i)
}

/// The iterator over the values of a discrete axis.
pub struct DiscreteValueIter<'a, T: DiscreteRanged>(pub &'a T, pub usize, pub usize);

impl<'a, T: DiscreteRanged> DiscreteValueIter<'a, T> {
    /// The axis iterated over.
    pub open spec fn range(&self) -> &'a T {
        self.0
    }

    /// The index of the next value.
    pub open spec fn position(&self) -> usize {
        self.1
    }

    /// The index at which the iteration stops.
    pub open spec fn end_position(&self) -> usize {
        self.2
    }

    /// The next value, if the iteration has not ended.
    pub fn next(&mut self) -> (r: Option<T::ValueType>)
        requires
            old(self).position() < old(self).end_position() ==> old(self).range().from_index_ok(
                old(self).position(),
            ),
        ensures
            final(self).range() == old(self).range(),
            final(self).end_position() == old(self).end_position(),
            old(self).position() >= old(self).end_position() ==> r is None && *final(self)
                == *old(self),
            old(self).position() < old(self).end_position() ==> final(self).position()
                == old(self).position() + 1 && r == old(self).range().spec_from_index(
                old(self).position(),
            ),
    {
        if self.1 >= self.2 {
            return None;
        }
        let idx = self.1;
        self.1 = self.1 + 1;
        self.0.from_index(idx)
    }

    /// All the remaining values, in order, up to the first index that has none.
    pub fn collect(self) -> (r: Vec<T::ValueType>)
        requires
            indices_ok(self.range(), self.position() as int, self.end_position() as int),
        ensures
            r@ == values_between(self.range(), self.position() as int, self.end_position() as int),
    {
        let mut it = self;
        let ghost start = it.1 as int;
        let mut ret: Vec<T::ValueType> = Vec::new();
        loop
            invariant_except_break
                ret@ + values_between(it.0, it.1 as int, it.2 as int) == values_between(
                    self.0,
                    start,
                    self.2 as int,
                ),
            invariant
                it.0 == self.0,
                it.2 == self.2,
                start <= it.1,
                indices_ok(it.0, it.1 as int, it.2 as int),
            ensures
                ret@ == values_between(self.0, start, self.2 as int),
            decreases it.2 - it.1,
        {
            if it.1 >= it.2 {
                assert(ret@ =~= ret@ + values_between(it.0, it.1 as int, it.2 as int));
                break;
            }
            let idx = it.1;
            let v = it.0.from_index(idx);
            it.1 = it.1 + 1;
            match v {
                Some(x) => {
                    let ghost before = ret@;
                    ret.push(x);
                    assert(ret@ + values_between(it.0, it.1 as int, it.2 as int) =~= before
                        + values_between(it.0, idx as int, it.2 as int));
                },
                None => {
                    assert(values_between(it.0, idx as int, it.2 as int) =~= Seq::empty());
                    assert(ret@ =~= ret@ + values_between(it.0, idx as int, it.2 as int));
                    break;
                },
            }
        }
        ret
    }
}

/// The value used by the centric coordinate.
pub enum CentricValues<T> {
    /// The exact position of a value.
    Exact(T),
    /// The middle between a value and the next one.
    CenterOf(T),
    /// The end of the axis.
    Last,
}

impl<T> From<T> for CentricValues<T> {
    fn from(this: T) -> (r: CentricValues<T>)
        ensures
            r == CentricValues::Exact(this),
    {
        CentricValues::Exact(this)
    }
}

impl<T> FromSpecImpl<T> for CentricValues<T> {
    open spec fn obeys_from_spec() -> bool {
        true
    }

    open spec fn from_spec(v: T) -> Self {
        CentricValues::Exact(v)
    }
}

/// The axis decorator that makes key-points be in the center of the value
/// range. This is useful when we draw a histogram, since we want the axis
/// value label to be shown in the middle of the range rather than exactly
/// the location where the value mapped to.
pub struct CentricDiscreteRange<D: DiscreteRanged>(D);

impl<D: DiscreteRanged> CentricDiscreteRange<D> {
    /// The decorated axis.
    pub closed spec fn inner(&self) -> D {
        self.0
    }
}

impl<D: DiscreteRanged + Clone> Clone for CentricDiscreteRange<D> {
    fn clone(&self) -> (r: Self)
        ensures
            cloned::<D>(self.inner(), r.inner()),
    {
        CentricDiscreteRange(self.0.clone())
    }
}

/// The trait for types that can be decorated by the `CentricDiscreteRange` decorator.
pub trait IntoCentric: AsRangedCoord where Self::CoordDescType: DiscreteRanged {
    /// Convert current ranged value into a centric ranged value.
    fn into_centric(self) -> (r: CentricDiscreteRange<Self::CoordDescType>)
        ensures
            r.inner() == self.spec_into_coord(),
    {
        CentricDiscreteRange(self.into_coord())
    }
}

impl<R: AsRangedCoord> IntoCentric for R where R::CoordDescType: DiscreteRanged {

}

/// `x / 2`, rounded toward zero.
pub open spec fn half_toward_zero(x: int) -> int {
    if x >= 0 {
        x / 2
    } else {
        -((-x) / 2)
    }
}

/// `p / q` rounded half away from zero and saturated into `i32`; with
/// `q == 0`, the sign of `p` gives the saturated end, and 0 stays 0.
pub open spec fn round_ratio(p: int, q: int) -> int {
    if q == 0 {
        if p > 0 {
            i32::MAX as int
        } else if p < 0 {
            i32::MIN as int
        } else {
            0
        }
    } else {
        let r = if p >= 0 {
            (2 * p + q) / (2 * q)
        } else {
            -((-2 * p + q) / (2 * q))
        };
        if r < i32::MIN {
            i32::MIN as int
        } else if r > i32::MAX {
            i32::MAX as int
        } else {
            r
        }
    }
}

impl<D: DiscreteRanged> CentricDiscreteRange<D> {
    /// The margin kept at the end of `limit` for the last value.
    pub open spec fn margin(&self, limit: (i32, i32)) -> int {
        round_ratio(limit.1 - limit.0, self.inner().spec_size() as int)
    }

    /// The pixel range that the decorated axis maps into.
    pub open spec fn inner_limit(&self, limit: (i32, i32)) -> (i32, i32) {
        (limit.0, (limit.1 - self.margin(limit)) as i32)
    }

    /// The index after the index of `value`, if it is within the axis.
    pub open spec fn next_index(&self, value: D::ValueType) -> Option<usize> {
        match self.inner().spec_index_of(value) {
            Some(idx) => if idx + 1 < self.inner().spec_size() {
                Some((idx + 1) as usize)
            } else {
                None
            },
            None => None,
        }
    }
}

impl<D: DiscreteRanged> Ranged for CentricDiscreteRange<D> {
    type ValueType = CentricValues<D::ValueType>;

    open spec fn spec_map(&self, value: CentricValues<D::ValueType>, limit: (i32, i32)) -> i32 {
        let il = self.inner_limit(limit);
        match value {
            CentricValues::Exact(coord) => self.inner().spec_map(coord, il),
            CentricValues::CenterOf(coord) => {
                let left = self.inner().spec_map(coord, il);
                match self.next_index(coord) {
                    Some(n) => half_toward_zero(
                        left + self.inner().spec_map(self.inner().spec_from_index(n).unwrap(), il),
                    ) as i32,
                    None => (left + half_toward_zero(self.margin(limit))) as i32,
                }
            },
            CentricValues::Last => limit.1,
        }
    }

    open spec fn map_ok(&self, value: CentricValues<D::ValueType>, limit: (i32, i32)) -> bool {
        let il = self.inner_limit(limit);
        &&& self.inner().size_ok()
        &&& fits_i32(limit.1 - limit.0)
        &&& fits_i32(limit.1 - self.margin(limit))
        &&& match value {
            CentricValues::Exact(coord) => self.inner().map_ok(coord, il),
            CentricValues::CenterOf(coord) => {
                let left = self.inner().spec_map(coord, il);
                &&& self.inner().map_ok(coord, il)
                &&& self.inner().index_of_ok(coord)
                &&& (self.inner().spec_index_of(coord) matches Some(idx) ==> idx < usize::MAX)
                &&& match self.next_index(coord) {
                    Some(n) => {
                        &&& self.inner().from_index_ok(n)
                        &&& self.inner().spec_from_index(n) is Some
                        &&& self.inner().map_ok(self.inner().spec_from_index(n).unwrap(), il)
                        &&& fits_i32(left + self.inner().spec_map(self.inner().spec_from_index(n).unwrap(), il))
                    },
                    None => fits_i32(left + half_toward_zero(self.margin(limit))),
                }
            },
            CentricValues::Last => true,
        }
    }

    open spec fn spec_key_points(&self, max_points: usize, weight: KeyPointWeight) -> Seq<
        CentricValues<D::ValueType>,
    > {
        self.inner().spec_key_points(max_points, weight).map_values(
            |x: D::ValueType| CentricValues::CenterOf(x),
        )
    }

    open spec fn key_points_ok(&self, max_points: usize) -> bool {
        self.inner().key_points_ok(max_points)
    }

    open spec fn spec_range(&self) -> Range<CentricValues<D::ValueType>> {
        Range {
            start: CentricValues::Exact(self.inner().spec_range().start),
            end: CentricValues::Exact(self.inner().spec_range().end),
        }
    }

    open spec fn range_ok(&self) -> bool {
        self.inner().range_ok()
    }

    open spec fn spec_axis_pixel_range(&self, limit: (i32, i32)) -> Range<i32> {
        full_pixel_range(limit)
    }

    open spec fn axis_pixel_range_ok(&self, limit: (i32, i32)) -> bool {
        true
    }

    fn map(&self, value: &CentricValues<D::ValueType>, limit: (i32, i32)) -> (r: i32) {
        let size = self.0.size();
        let margin = round_ratio_exec(limit.1 - limit.0, size);
        let il = (limit.0, limit.1 - margin);
        match value {
            CentricValues::Exact(coord) => self.0.map(coord, il),
            CentricValues::CenterOf(coord) => {
                let left = self.0.map(coord, il);
                if let Some(idx) = self.0.index_of(coord) {
                    if idx + 1 < size {
                        let next = self.0.from_index(idx + 1);
                        match next {
                            Some(n) => {
                                let right = self.0.map(&n, il);
                                return (left + right) / 2;
                            },
                            None => {
                                proof {
                                    assert(false);
                                }
                                return left;
                            },
                        }
                    }
                }
                left + margin / 2
            },
            CentricValues::Last => limit.1,
        }
    }

    fn key_points<Hint: KeyPointHint>(&self, hint: Hint) -> (r: Vec<CentricValues<D::ValueType>>) {
        let inner = self.0.key_points(hint);
        let ghost kp = inner@;
        let mut ret: Vec<CentricValues<D::ValueType>> = Vec::new();
        for x in it: inner
            invariant
                it.seq() == kp,
                ret@ == kp.take(it.index() as int).map_values(
                    |v: D::ValueType| CentricValues::CenterOf(v),
                ),
        {
            let ghost before = ret@;
            ret.push(CentricValues::CenterOf(x));
            assert(ret@ =~= kp.take(it.index() + 1).map_values(
                |v: D::ValueType| CentricValues::CenterOf(v),
            ));
        }
        assert(kp.take(kp.len() as int) =~= kp);
        ret
    }

    fn range(&self) -> (r: Range<CentricValues<D::ValueType>>) {
        let range = self.0.range();
        CentricValues::Exact(range.start)..CentricValues::Exact(range.end)
    }

    fn axis_pixel_range(&self, limit: (i32, i32)) -> (r: Range<i32>) {
        limit.0..limit.1
    }
}

/// `p / q` rounded half away from zero and saturated into `i32`; see `round_ratio`.
fn round_ratio_exec(p: i32, q: usize) -> (r: i32)
    ensures
        r == round_ratio(p as int, q as int),
{
    if q == 0 {
        if p > 0 {
            i32::MAX
        } else if p < 0 {
            i32::MIN
        } else {
            0
        }
    } else {
        let pp = p as i128;
        let qq = q as i128;
        assert(i32::MIN <= pp <= i32::MAX && 0 < qq <= usize::MAX);
        let r = if pp >= 0 {
            (2 * pp + qq) / (2 * qq)
        } else {
            let np: i128 = 0 - pp;
            assert(0 < np <= 0x8000_0000);
            let num: i128 = 2 * np + qq;
            -(num / (2 * qq))
        };
        if r < i32::MIN as i128 {
            i32::MIN
        } else if r > i32::MAX as i128 {
            i32::MAX
        } else {
            r as i32
        }
    }
}

impl<D: DiscreteRanged> DiscreteRanged for CentricDiscreteRange<D> {
    open spec fn spec_size(&self) -> usize {
        (self.inner().spec_size() + 1) as usize
    }

    open spec fn size_ok(&self) -> bool {
        self.inner().size_ok() && self.inner().spec_size() < usize::MAX
    }

    open spec fn spec_index_of(&self, value: CentricValues<D::ValueType>) -> Option<usize> {
        match value {
            CentricValues::Exact(v) => self.inner().spec_index_of(v),
            CentricValues::CenterOf(v) => self.inner().spec_index_of(v),
            CentricValues::Last => Some(self.inner().spec_size()),
        }
    }

    open spec fn index_of_ok(&self, value: CentricValues<D::ValueType>) -> bool {
        match value {
            CentricValues::Exact(v) => self.inner().index_of_ok(v),
            CentricValues::CenterOf(v) => self.inner().index_of_ok(v),
            CentricValues::Last => self.inner().size_ok(),
        }
    }

    open spec fn spec_from_index(&self, idx: usize) -> Option<CentricValues<D::ValueType>> {
        if idx < self.inner().spec_size() {
            match self.inner().spec_from_index(idx) {
                Some(x) => Some(CentricValues::Exact(x)),
                None => None,
            }
        } else if idx == self.inner().spec_size() {
            Some(CentricValues::Last)
        } else {
            None
        }
    }

    open spec fn from_index_ok(&self, idx: usize) -> bool {
        self.inner().size_ok() && (idx < self.inner().spec_size() ==> self.inner().from_index_ok(idx))
    }

    fn size(&self) -> (r: usize) {
        self.0.size() + 1
    }

    fn index_of(&self, value: &CentricValues<D::ValueType>) -> (r: Option<usize>) {
        match value {
            CentricValues::Exact(value) => self.0.index_of(value),
            CentricValues::CenterOf(value) => self.0.index_of(value),
            CentricValues::Last => Some(self.0.size()),
        }
    }

    fn from_index(&self, idx: usize) -> (r: Option<CentricValues<D::ValueType>>) {
        let size = self.0.size();
        if idx < size {
            match self.0.from_index(idx) {
                Some(x) => Some(CentricValues::Exact(x)),
                None => None,
            }
        } else if idx == size {
            Some(CentricValues::Last)
        } else {
            None
        }
    }
}

impl<D: DiscreteRanged> AsRangedCoord for CentricDiscreteRange<D> {
    type CoordDescType = Self;
    type Value = CentricValues<D::ValueType>;

    open spec fn spec_into_coord(self) -> Self {
        self
    }

    fn into_coord(self) -> (r: Self) {
        self
    }
}


/// Where a centric axis places its values within `limit`: the decorated
/// axis maps into `limit` less a margin at its end, an exact value lands
/// where the decorated axis puts it, the end of the axis lands on the end of
/// `limit`, and the center of a value that has a next one lies between the
/// pixels of the value and of the next one (their midpoint, rounded toward
/// zero).
pub proof fn lemma_centric_values_placed<D: DiscreteRanged>(
    c: CentricDiscreteRange<D>,
    v: D::ValueType,
    limit: (i32, i32),
)
    requires
        c.map_ok(CentricValues::CenterOf(v), limit),
    ensures
        ({
            let il = (limit.0, (limit.1 - c.margin(limit)) as i32);
            let left = c.inner().spec_map(v, il) as int;
            let m = c.spec_map(CentricValues::CenterOf(v), limit) as int;
            &&& c.spec_map(CentricValues::Last, limit) == limit.1
            &&& c.spec_map(CentricValues::Exact(v), limit) == c.inner().spec_map(v, il)
            &&& c.next_index(v) matches Some(n) ==> {
                let right = c.inner().spec_map(c.inner().spec_from_index(n).unwrap(), il) as int;
                &&& (if left <= right { left } else { right }) <= m <= (if left <= right { right } else { left })
                &&& left + right - 1 <= 2 * m <= left + right + 1
            }
        }),
{
}

} // verus!
