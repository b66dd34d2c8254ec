//! Axis decorators whose key points are given by the user: either as lists
//! of values, or by functions of the number of points wanted.

use std::ops::Range;

use super::discrete::DiscreteRanged;
use super::ranged::{AsRangedCoord, KeyPointHint, KeyPointWeight, Ranged};
use vstd::prelude::*;

verus! {

/// Whether cloning a value of `V` always gives the value back.
pub open spec fn clone_is_exact<V: Clone>() -> bool {
    forall|a: V, b: V| #[trigger] cloned::<V>(a, b) ==> a == b
}

/// The axis decorator whose key points are fixed lists: the bold points, and
/// the light points, which are handed out where light points are acceptable.
pub struct WithKeyPoints<Inner: Ranged> {
    inner: Inner,
    bold_points: Vec<Inner::ValueType>,
    light_points: Vec<Inner::ValueType>,
}

impl<I: Ranged> WithKeyPoints<I> {
    /// The decorated axis.
    pub closed spec fn inner(&self) -> I {
        self.inner
    }

    /// The bold key points.
    pub closed spec fn spec_bold_points(&self) -> Seq<I::ValueType> {
        self.bold_points@
    }

    /// The light key points.
    pub closed spec fn spec_light_points(&self) -> Seq<I::ValueType> {
        self.light_points@
    }

    /// Replace the light key points by `points`.
    pub fn with_light_points(self, points: Vec<I::ValueType>) -> (r: Self)
        ensures
            r.inner() == self.inner(),
            r.spec_bold_points() == self.spec_bold_points(),
            r.spec_light_points() == points@,
    {
        let mut this = self;
        this.light_points = points;
        this
    }

    /// The bold key points.
    pub fn bold_points(&self) -> (r: &[I::ValueType])
        ensures
            r@ == self.spec_bold_points(),
    {
        self.bold_points.as_slice()
    }

    /// The bold key points, to be changed in place.
    pub fn bold_points_mut(&mut self) -> (r: &mut [I::ValueType])
        ensures
            r@ == old(self).spec_bold_points(),
            final(self).spec_bold_points() == final(r)@,
            final(self).spec_light_points() == old(self).spec_light_points(),
            final(self).inner() == old(self).inner(),
    {
        self.bold_points.as_mut_slice()
    }

    /// The light key points.
    pub fn light_points(&self) -> (r: &[I::ValueType])
        ensures
            r@ == self.spec_light_points(),
    {
        self.light_points.as_slice()
    }

    /// The light key points, to be changed in place.
    pub fn light_points_mut(&mut self) -> (r: &mut [I::ValueType])
        ensures
            r@ == old(self).spec_light_points(),
            final(self).spec_light_points() == final(r)@,
            final(self).spec_bold_points() == old(self).spec_bold_points(),
            final(self).inner() == old(self).inner(),
    {
        self.light_points.as_mut_slice()
    }
}

impl<R: Ranged> Ranged for WithKeyPoints<R> where R::ValueType: Clone {
    type ValueType = R::ValueType;

    open spec fn spec_map(&self, value: R::ValueType, limit: (i32, i32)) -> i32 {
        self.inner().spec_map(value, limit)
    }

    open spec fn map_ok(&self, value: R::ValueType, limit: (i32, i32)) -> bool {
        self.inner().map_ok(value, limit)
    }

    open spec fn spec_key_points(&self, max_points: usize, weight: KeyPointWeight) -> Seq<
        R::ValueType,
    > {
        if weight.spec_allow_light_points() {
            self.spec_light_points()
        } else {
            self.spec_bold_points()
        }
    }

    open spec fn key_points_ok(&self, max_points: usize) -> bool {
        clone_is_exact::<R::ValueType>()
    }

    open spec fn spec_range(&self) -> Range<R::ValueType> {
        self.inner().spec_range()
    }

    open spec fn range_ok(&self) -> bool {
        self.inner().range_ok()
    }

    open spec fn spec_axis_pixel_range(&self, limit: (i32, i32)) -> Range<i32> {
        self.inner().spec_axis_pixel_range(limit)
    }

    open spec fn axis_pixel_range_ok(&self, limit: (i32, i32)) -> bool {
        self.inner().axis_pixel_range_ok(limit)
    }

    fn map(&self, value: &R::ValueType, limit: (i32, i32)) -> (r: i32) {
        self.inner.map(value, limit)
    }

    fn key_points<Hint: KeyPointHint>(&self, hint: Hint) -> (r: Vec<R::ValueType>) {
        let r = if hint.weight().allow_light_points() {
            self.light_points.clone()
        } else {
            self.bold_points.clone()
        };
        proof {
            if hint.spec_weight().spec_allow_light_points() {
                assert(r@ =~= self.spec_light_points());
            } else {
                assert(r@ =~= self.spec_bold_points());
            }
        }
        r
    }

    fn range(&self) -> (r: Range<R::ValueType>) {
        self.inner.range()
    }

    fn axis_pixel_range(&self, limit: (i32, i32)) -> (r: Range<i32>) {
        self.inner.axis_pixel_range(limit)
    }
}

impl<R: DiscreteRanged> DiscreteRanged for WithKeyPoints<R> where R::ValueType: Clone {
    open spec fn spec_size(&self) -> usize {
        self.inner().spec_size()
    }

    open spec fn size_ok(&self) -> bool {
        self.inner().size_ok()
    }

    open spec fn spec_index_of(&self, value: R::ValueType) -> Option<usize> {
        self.inner().spec_index_of(value)
    }

    open spec fn index_of_ok(&self, value: R::ValueType) -> bool {
        self.inner().index_of_ok(value)
    }

    open spec fn spec_from_index(&self, index: usize) -> Option<R::ValueType> {
        self.inner().spec_from_index(index)
    }

    open spec fn from_index_ok(&self, index: usize) -> bool {
        self.inner().from_index_ok(index)
    }

    fn size(&self) -> (r: usize) {
        self.inner.size()
    }

    fn index_of(&self, value: &R::ValueType) -> (r: Option<usize>) {
        self.inner.index_of(value)
    }

    fn from_index(&self, index: usize) -> (r: Option<R::ValueType>) {
        self.inner.from_index(index)
    }
}

impl<R: Ranged> AsRangedCoord for WithKeyPoints<R> where R::ValueType: Clone {
    type CoordDescType = Self;
    type Value = R::ValueType;

    open spec fn spec_into_coord(self) -> Self {
        self
    }

    fn into_coord(self) -> (r: Self) {
        self
    }
}

/// The trait that binds fixed bold key points to an axis.
pub trait BindKeyPoints: AsRangedCoord {
    /// Decorate the axis with the bold key points `points` and no light ones.
    fn with_key_points(self, points: Vec<Self::Value>) -> (r: WithKeyPoints<Self::CoordDescType>)
        ensures
            r.inner() == self.spec_into_coord(),
            r.spec_bold_points() == points@,
            r.spec_light_points() == Seq::<Self::Value>::empty(),
    {
        WithKeyPoints { inner: self.into_coord(), bold_points: points, light_points: Vec::new() }
    }
}

impl<T: AsRangedCoord> BindKeyPoints for T {

}

/// Whether `f`, asked for `n` points, may be called, and its contract fixes
/// what it returns.
pub open spec fn points_fn_determined<V, F: Fn(usize) -> Vec<V>>(f: F, n: usize) -> bool {
    &&& f.requires((n,))
    &&& forall|a: Vec<V>, b: Vec<V>|
        #![trigger f.ensures((n,), a), f.ensures((n,), b)]
        f.ensures((n,), a) && f.ensures((n,), b) ==> a@ == b@
}

/// Whether `f`, asked for `n` points, may return the points `s`.
pub open spec fn points_fn_gives<V, F: Fn(usize) -> Vec<V>>(f: F, n: usize, s: Seq<V>) -> bool {
    exists|a: Vec<V>| #[trigger] f.ensures((n,), a) && a@ == s
}

/// What `f` returns when asked for `n` points, where its contract fixes it.
pub open spec fn points_fn_result<V, F: Fn(usize) -> Vec<V>>(f: F, n: usize) -> Seq<V> {
    choose|s: Seq<V>| #[trigger] points_fn_gives(f, n, s)
}

/// The axis decorator whose key points are computed by functions of the
/// number of points wanted: `bold_func` gives the bold points and
/// `light_func`, where there is one, the light points (none otherwise).
pub struct WithKeyPointMethod<R: Ranged, B, L> {
    inner: R,
    bold_func: B,
    light_func: Option<L>,
}

impl<
    R: Ranged,
    B: Fn(usize) -> Vec<R::ValueType>,
    L: Fn(usize) -> Vec<R::ValueType>,
> WithKeyPointMethod<R, B, L> {
    /// The decorated axis.
    pub closed spec fn inner(&self) -> R {
        self.inner
    }

    /// The function that gives the bold key points.
    pub closed spec fn bold_func(&self) -> B {
        self.bold_func
    }

    /// The function that gives the light key points, if there is one.
    pub closed spec fn light_func(&self) -> Option<L> {
        self.light_func
    }

    /// Let `func` give the light key points.
    pub fn with_light_point_func<F: Fn(usize) -> Vec<R::ValueType>>(self, func: F) -> (r:
        WithKeyPointMethod<R, B, F>)
        ensures
            r.inner() == self.inner(),
            r.bold_func() == self.bold_func(),
            r.light_func() == Some(func),
    {
        WithKeyPointMethod { inner: self.inner, bold_func: self.bold_func, light_func: Some(func) }
    }
}

impl<
    R: Ranged,
    B: Fn(usize) -> Vec<R::ValueType>,
    L: Fn(usize) -> Vec<R::ValueType>,
> Ranged for WithKeyPointMethod<R, B, L> {
    type ValueType = R::ValueType;

    open spec fn spec_map(&self, value: R::ValueType, limit: (i32, i32)) -> i32 {
        self.inner().spec_map(value, limit)
    }

    open spec fn map_ok(&self, value: R::ValueType, limit: (i32, i32)) -> bool {
        self.inner().map_ok(value, limit)
    }

    open spec fn spec_key_points(&self, max_points: usize, weight: KeyPointWeight) -> Seq<
        R::ValueType,
    > {
        if weight.spec_allow_light_points() {
            match self.light_func() {
                Some(f) => points_fn_result(f, max_points),
                None => Seq::empty(),
            }
        } else {
            points_fn_result(self.bold_func(), max_points)
        }
    }

    open spec fn key_points_ok(&self, max_points: usize) -> bool {
        &&& points_fn_determined(self.bold_func(), max_points)
        &&& self.light_func() matches Some(f) ==> points_fn_determined(f, max_points)
    }

    open spec fn spec_range(&self) -> Range<R::ValueType> {
        self.inner().spec_range()
    }

    open spec fn range_ok(&self) -> bool {
        self.inner().range_ok()
    }

    open spec fn spec_axis_pixel_range(&self, limit: (i32, i32)) -> Range<i32> {
        self.inner().spec_axis_pixel_range(limit)
    }

    open spec fn axis_pixel_range_ok(&self, limit: (i32, i32)) -> bool {
        self.inner().axis_pixel_range_ok(limit)
    }

    fn map(&self, value: &R::ValueType, limit: (i32, i32)) -> (r: i32) {
        self.inner.map(value, limit)
    }

    fn key_points<Hint: KeyPointHint>(&self, hint: Hint) -> (r: Vec<R::ValueType>)
        ensures
            hint.spec_weight().spec_allow_light_points() ==> match self.light_func() {
                Some(f) => f.ensures((hint.spec_max_num_points(),), r),
                None => r@.len() == 0,
            },
            !hint.spec_weight().spec_allow_light_points() ==> self.bold_func().ensures(
                (hint.spec_max_num_points(),),
                r,
            ),
    {
        let n = hint.max_num_points();
        if hint.weight().allow_light_points() {
            match &self.light_func {
                Some(f) => {
                    let r = f(n);
                    proof {
                        assert(points_fn_gives(*f, n, r@));
                        let s = points_fn_result(*f, n);
                        let a = choose|a: Vec<R::ValueType>| #[trigger] f.ensures((n,), a) && a@ == s;
                        assert(f.ensures((n,), a) && f.ensures((n,), r));
                    }
                    r
                },
                None => Vec::new(),
            }
        } else {
            let r = (self.bold_func)(n);
            proof {
                assert(points_fn_gives(self.bold_func, n, r@));
                let s = points_fn_result(self.bold_func(), n);
                let a = choose|a: Vec<R::ValueType>|
                    #[trigger] self.bold_func.ensures((n,), a) && a@ == s;
                assert(self.bold_func.ensures((n,), a) && self.bold_func.ensures((n,), r));
            }
            r
        }
    }

    fn range(&self) -> (r: Range<R::ValueType>) {
        self.inner.range()
    }

    fn axis_pixel_range(&self, limit: (i32, i32)) -> (r: Range<i32>) {
        self.inner.axis_pixel_range(limit)
    }
}

impl<
    R: DiscreteRanged,
    B: Fn(usize) -> Vec<R::ValueType>,
    L: Fn(usize) -> Vec<R::ValueType>,
> DiscreteRanged for WithKeyPointMethod<R, B, L> {
    open spec fn spec_size(&self) -> usize {
        self.inner().spec_size()
    }

    open spec fn size_ok(&self) -> bool {
        self.inner().size_ok()
    }

    open spec fn spec_index_of(&self, value: R::ValueType) -> Option<usize> {
        self.inner().spec_index_of(value)
    }

    open spec fn index_of_ok(&self, value: R::ValueType) -> bool {
        self.inner().index_of_ok(value)
    }

    open spec fn spec_from_index(&self, index: usize) -> Option<R::ValueType> {
        self.inner().spec_from_index(index)
    }

    open spec fn from_index_ok(&self, index: usize) -> bool {
        self.inner().from_index_ok(index)
    }

    fn size(&self) -> (r: usize) {
        self.inner.size()
    }

    fn index_of(&self, value: &R::ValueType) -> (r: Option<usize>) {
        self.inner.index_of(value)
    }

    fn from_index(&self, index: usize) -> (r: Option<R::ValueType>) {
        self.inner.from_index(index)
    }
}

/// The trait that binds a function computing the bold key points to an axis.
pub trait BindKeyPointMethod: AsRangedCoord {
    /// Decorate the axis with `func`, which computes the bold key points from
    /// the number of points wanted; there are no light points.
    fn with_key_point_func<F: Fn(usize) -> Vec<Self::Value>>(self, func: F) -> (r:
        WithKeyPointMethod<Self::CoordDescType, F, F>)
        ensures
            r.inner() == self.spec_into_coord(),
            r.bold_func() == func,
            r.light_func() is None,
    {
        WithKeyPointMethod { inner: self.into_coord(), bold_func: func, light_func: None }
    }
}

impl<T: AsRangedCoord> BindKeyPointMethod for T {

}

} // verus!
