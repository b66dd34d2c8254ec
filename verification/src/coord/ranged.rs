//! One-dimensional ranged axes and the two-dimensional coordinate built on them.

use std::ops::Range;

use super::{fits_i32, BackendCoord, CoordTranslate, ReverseCoordTranslate};
use vstd::prelude::*;
use vstd::std_specs::convert::IntoSpec;

verus! {

/// How heavy the key points that an axis is asked for may be.
pub enum KeyPointWeight {
    /// Only the bold (major) key points.
    Bold,
    /// Any key points, light (minor) ones included.
    Any,
}

impl KeyPointWeight {
    /// Whether light key points are acceptable.
    pub open spec fn spec_allow_light_points(&self) -> bool {
        self is Any
    }

    /// Whether light key points are acceptable.
    pub fn allow_light_points(&self) -> (r: bool)
        ensures
            r == self.spec_allow_light_points(),
    {
        match self {
            KeyPointWeight::Bold => false,
            KeyPointWeight::Any => true,
        }
    }
}

/// The hint given to an axis when it is asked for key points: how many at
/// most, and of which weight.
pub trait KeyPointHint {
    /// The largest number of key points wanted.
    spec fn spec_max_num_points(&self) -> usize;

    /// The weight of the key points wanted.
    spec fn spec_weight(&self) -> KeyPointWeight;

    /// The largest number of key points wanted.
    fn max_num_points(&self) -> (r: usize)
        ensures
            r == self.spec_max_num_points(),
    ;

    /// The weight of the key points wanted.
    fn weight(&self) -> (r: KeyPointWeight)
        ensures
            r == self.spec_weight(),
    ;
}

/// A plain number of points asks for key points of any weight.
impl KeyPointHint for usize {
    open spec fn spec_max_num_points(&self) -> usize {
        *self
    }

    open spec fn spec_weight(&self) -> KeyPointWeight {
        KeyPointWeight::Any
    }

    fn max_num_points(&self) -> (r: usize) {
        *self
    }

    fn weight(&self) -> (r: KeyPointWeight) {
        KeyPointWeight::Any
    }
}

/// Asks for at most the given number of bold key points.
pub struct BoldPoints(pub usize);

impl KeyPointHint for BoldPoints {
    open spec fn spec_max_num_points(&self) -> usize {
        self.0
    }

    open spec fn spec_weight(&self) -> KeyPointWeight {
        KeyPointWeight::Bold
    }

    fn max_num_points(&self) -> (r: usize) {
        self.0
    }

    fn weight(&self) -> (r: KeyPointWeight) {
        KeyPointWeight::Bold
    }
}

/// The trait that indicates we have an ordered and ranged value,
/// which is used to describe an axis.
pub trait Ranged: Sized {
    /// The type of the values on this axis.
    type ValueType;

    /// The pixel that `value` is mapped to within `limit`.
    spec fn spec_map(&self, value: Self::ValueType, limit: (i32, i32)) -> i32;

    /// The inputs on which mapping stays within the integer types involved.
    spec fn map_ok(&self, value: Self::ValueType, limit: (i32, i32)) -> bool;

    /// The key points given for at most `max_points` points of weight `weight`.
    spec fn spec_key_points(&self, max_points: usize, weight: KeyPointWeight) -> Seq<
        Self::ValueType,
    >;

    /// The numbers of points for which the key points can be computed.
    spec fn key_points_ok(&self, max_points: usize) -> bool;

    /// The range of this axis.
    spec fn spec_range(&self) -> Range<Self::ValueType>;

    /// Whether the range of this axis can be computed.
    spec fn range_ok(&self) -> bool;

    /// The on-axis part of the pixel range `limit`.
    spec fn spec_axis_pixel_range(&self, limit: (i32, i32)) -> Range<i32>;

    /// The inputs on which the on-axis pixel range can be computed.
    spec fn axis_pixel_range_ok(&self, limit: (i32, i32)) -> bool;

    /// This function maps the value to i32, which is the drawing coordinate.
    fn map(&self, value: &Self::ValueType, limit: (i32, i32)) -> (r: i32)
        requires
            self.map_ok(*value, limit),
        ensures
            r == self.spec_map(*value, limit),
    ;

    /// This function gives the key points that we can draw a grid based on.
    fn key_points<Hint: KeyPointHint>(&self, hint: Hint) -> (r: Vec<Self::ValueType>)
        requires
            self.key_points_ok(hint.spec_max_num_points()),
        ensures
            r@ == self.spec_key_points(hint.spec_max_num_points(), hint.spec_weight()),
    ;

    /// Get the range of this value.
    fn range(&self) -> (r: Range<Self::ValueType>)
        requires
            self.range_ok(),
        ensures
            r == self.spec_range(),
    ;

    /// This function provides the on-axis part of its range.
    fn axis_pixel_range(&self, limit: (i32, i32)) -> (r: Range<i32>)
        requires
            self.axis_pixel_range_ok(limit),
        ensures
            r == self.spec_axis_pixel_range(limit),
    ;
}

/// The whole pixel range `limit`, which is the on-axis part of most axes.
pub open spec fn full_pixel_range(limit: (i32, i32)) -> Range<i32> {
    Range { start: limit.0, end: limit.1 }
}

/// The trait indicates the ranged value can be mapped back from a pixel.
pub trait ReversableRanged: Ranged {
    /// The value that the pixel `input` maps back to, if any.
    spec fn spec_unmap(&self, input: i32, limit: (i32, i32)) -> Option<Self::ValueType>;

    /// The inputs on which unmapping stays within the integer types involved.
    spec fn unmap_ok(&self, input: i32, limit: (i32, i32)) -> bool;

    /// Map the pixel `input` back to the logic value.
    fn unmap(&self, input: i32, limit: (i32, i32)) -> (r: Option<Self::ValueType>)
        requires
            self.unmap_ok(input, limit),
        ensures
            r == self.spec_unmap(input, limit),
    ;
}

/// The trait for the types that can be converted into a ranged axis.
pub trait AsRangedCoord: Sized {
    /// The axis type that this converts into.
    type CoordDescType: Ranged<ValueType = Self::Value>;
    /// The type of the values on that axis.
    type Value;

    /// The axis that this value converts into.
    spec fn spec_into_coord(self) -> Self::CoordDescType;

    /// Convert into the axis.
    fn into_coord(self) -> (r: Self::CoordDescType)
        ensures
            r == self.spec_into_coord(),
    ;
}

/// The trait indicates the coordinate is discrete, so that we can draw a
/// histogram on it.
pub trait DescreteRanged: Ranged where Self::ValueType: Eq {
    /// The smallest value that is larger than `this`.
    spec fn spec_next_value(this: Self::ValueType) -> Self::ValueType;

    /// Whether the next value exists within the value type.
    spec fn next_value_ok(this: Self::ValueType) -> bool;

    /// The largest value that is smaller than `this`.
    spec fn spec_previous_value(this: Self::ValueType) -> Self::ValueType;

    /// Whether the previous value exists within the value type.
    spec fn previous_value_ok(this: Self::ValueType) -> bool;

    /// Get the smallest value that is larger than the `this` value.
    fn next_value(this: &Self::ValueType) -> (r: Self::ValueType)
        requires
            Self::next_value_ok(*this),
        ensures
            r == Self::spec_next_value(*this),
    ;

    /// Get the largest value that is smaller than `this` value.
    fn previous_value(this: &Self::ValueType) -> (r: Self::ValueType)
        requires
            Self::previous_value_ok(*this),
        ensures
            r == Self::spec_previous_value(*this),
    ;
}

/// The decorator that maps a value of a discrete axis to the middle
/// between it and the previous value.
pub struct CentricDescreteRange<D: DescreteRanged>(D) where <D as Ranged>::ValueType: Eq;

impl<D: DescreteRanged> CentricDescreteRange<D> where <D as Ranged>::ValueType: Eq {
    /// The decorated axis.
    pub closed spec fn inner(&self) -> D {
        self.0
    }
}

/// `x / 2`, rounded toward zero.
pub open spec fn halve(x: int) -> int {
    if x >= 0 {
        x / 2
    } else {
        -((-x) / 2)
    }
}

impl<D: DescreteRanged> Ranged for CentricDescreteRange<D> where <D as Ranged>::ValueType: Eq {
    type ValueType = <D as Ranged>::ValueType;

    open spec fn spec_map(&self, value: Self::ValueType, limit: (i32, i32)) -> i32 {
        let prev = D::spec_previous_value(value);
        halve(self.inner().spec_map(prev, limit) + self.inner().spec_map(value, limit)) as i32
    }

    open spec fn map_ok(&self, value: Self::ValueType, limit: (i32, i32)) -> bool {
        let prev = D::spec_previous_value(value);
        &&& D::previous_value_ok(value)
        &&& self.inner().map_ok(prev, limit)
        &&& self.inner().map_ok(value, limit)
        &&& fits_i32(self.inner().spec_map(prev, limit) + self.inner().spec_map(value, limit))
    }

    open spec fn spec_key_points(&self, max_points: usize, weight: KeyPointWeight) -> Seq<
        Self::ValueType,
    > {
        self.inner().spec_key_points(max_points, weight)
    }

    open spec fn key_points_ok(&self, max_points: usize) -> bool {
        self.inner().key_points_ok(max_points)
    }

    open spec fn spec_range(&self) -> Range<Self::ValueType> {
        self.inner().spec_range()
    }

    open spec fn range_ok(&self) -> bool {
        self.inner().range_ok()
    }

    open spec fn spec_axis_pixel_range(&self, limit: (i32, i32)) -> Range<i32> {
        full_pixel_range(limit)
    }

    open spec fn axis_pixel_range_ok(&self, limit: (i32, i32)) -> bool {
        true
    }

    fn map(&self, value: &Self::ValueType, limit: (i32, i32)) -> (r: i32) {
        let prev = D::previous_value(value);
        (self.0.map(&prev, limit) + self.0.map(value, limit)) / 2
    }

    fn key_points<Hint: KeyPointHint>(&self, hint: Hint) -> (r: Vec<Self::ValueType>) {
        self.0.key_points(hint)
    }

    fn range(&self) -> (r: Range<Self::ValueType>) {
        self.0.range()
    }

    fn axis_pixel_range(&self, limit: (i32, i32)) -> (r: Range<i32>) {
        limit.0..limit.1
    }
}

impl<D: DescreteRanged> DescreteRanged for CentricDescreteRange<D> where
    <D as Ranged>::ValueType: Eq,
 {
    open spec fn spec_next_value(this: Self::ValueType) -> Self::ValueType {
        D::spec_next_value(this)
    }

    open spec fn next_value_ok(this: Self::ValueType) -> bool {
        D::next_value_ok(this)
    }

    open spec fn spec_previous_value(this: Self::ValueType) -> Self::ValueType {
        D::spec_previous_value(this)
    }

    open spec fn previous_value_ok(this: Self::ValueType) -> bool {
        D::previous_value_ok(this)
    }

    fn next_value(this: &Self::ValueType) -> (r: Self::ValueType) {
        D::next_value(this)
    }

    fn previous_value(this: &Self::ValueType) -> (r: Self::ValueType) {
        D::previous_value(this)
    }
}

impl<D: DescreteRanged> AsRangedCoord for CentricDescreteRange<D> where
    <D as Ranged>::ValueType: Eq,
 {
    type CoordDescType = Self;
    type Value = <D as Ranged>::ValueType;

    open spec fn spec_into_coord(self) -> Self {
        self
    }

    fn into_coord(self) -> (r: Self) {
        self
    }
}

/// The trait for types whose axis can be decorated by `CentricDescreteRange`.
pub trait IntoCentric: AsRangedCoord where
    Self::CoordDescType: DescreteRanged,
    <Self::CoordDescType as Ranged>::ValueType: Eq,
 {
    /// Convert into the centric decorated axis.
    fn into_centric(self) -> (r: CentricDescreteRange<Self::CoordDescType>)
        ensures
            r.inner() == self.spec_into_coord(),
    {
        CentricDescreteRange(self.into_coord())
    }
}

impl<T: AsRangedCoord> IntoCentric for T where
    T::CoordDescType: DescreteRanged,
    <T::CoordDescType as Ranged>::ValueType: Eq,
 {

}

/// The axis decorator that only shows part of the pixel range as the axis.
pub struct PartialAxis<R: Ranged>(R, Range<R::ValueType>);

impl<R: Ranged> PartialAxis<R> {
    /// The decorated axis.
    pub closed spec fn inner(&self) -> R {
        self.0
    }

    /// The part of the range that is shown as the axis.
    pub closed spec fn axis_range(&self) -> Range<R::ValueType> {
        self.1
    }
}

/// The trait for types whose axis can be decorated by `PartialAxis`.
pub trait IntoPartialAxis: AsRangedCoord {
    /// Show only the values in `axis_range` as the axis.
    fn partial_axis(
        self,
        axis_range: Range<<Self::CoordDescType as Ranged>::ValueType>,
    ) -> (r: PartialAxis<Self::CoordDescType>)
        ensures
            r.inner() == self.spec_into_coord(),
            r.axis_range() == axis_range,
    {
        PartialAxis(self.into_coord(), axis_range)
    }
}

impl<R: AsRangedCoord> IntoPartialAxis for R {

}

impl<R: Ranged> Ranged for PartialAxis<R> where R::ValueType: Clone {
    type ValueType = R::ValueType;

    open spec fn spec_map(&self, value: R::ValueType, limit: (i32, i32)) -> i32 {
        self.inner().spec_map(value, limit)
    }

    open spec fn map_ok(&self, value: R::ValueType, limit: (i32, i32)) -> bool {
        self.inner().map_ok(value, limit)
    }

    open spec fn spec_key_points(&self, max_points: usize, weight: KeyPointWeight) -> Seq<
        R::ValueType,
    > {
        self.inner().spec_key_points(max_points, weight)
    }

    open spec fn key_points_ok(&self, max_points: usize) -> bool {
        self.inner().key_points_ok(max_points)
    }

    open spec fn spec_range(&self) -> Range<R::ValueType> {
        self.inner().spec_range()
    }

    open spec fn range_ok(&self) -> bool {
        self.inner().range_ok()
    }

    open spec fn spec_axis_pixel_range(&self, limit: (i32, i32)) -> Range<i32> {
        let left = self.inner().spec_map(self.axis_range().start, limit);
        let right = self.inner().spec_map(self.axis_range().end, limit);
        Range {
            start: if left <= right {
                left
            } else {
                right
            },
            end: if left <= right {
                right
            } else {
                left
            },
        }
    }

    open spec fn axis_pixel_range_ok(&self, limit: (i32, i32)) -> bool {
        self.inner().map_ok(self.axis_range().start, limit) && self.inner().map_ok(self.axis_range().end, limit)
    }

    fn map(&self, value: &R::ValueType, limit: (i32, i32)) -> (r: i32) {
        self.0.map(value, limit)
    }

    fn key_points<Hint: KeyPointHint>(&self, hint: Hint) -> (r: Vec<R::ValueType>) {
        self.0.key_points(hint)
    }

    fn range(&self) -> (r: Range<R::ValueType>) {
        self.0.range()
    }

    fn axis_pixel_range(&self, limit: (i32, i32)) -> (r: Range<i32>) {
        let left = self.map(&self.1.start, limit);
        let right = self.map(&self.1.end, limit);
        let lo = if left <= right {
            left
        } else {
            right
        };
        let hi = if left <= right {
            right
        } else {
            left
        };
        lo..hi
    }
}

impl<R: DescreteRanged> DescreteRanged for PartialAxis<R> where R::ValueType: Eq + Clone {
    open spec fn spec_next_value(this: Self::ValueType) -> Self::ValueType {
        R::spec_next_value(this)
    }

    open spec fn next_value_ok(this: Self::ValueType) -> bool {
        R::next_value_ok(this)
    }

    open spec fn spec_previous_value(this: Self::ValueType) -> Self::ValueType {
        R::spec_previous_value(this)
    }

    open spec fn previous_value_ok(this: Self::ValueType) -> bool {
        R::previous_value_ok(this)
    }

    fn next_value(this: &Self::ValueType) -> (r: Self::ValueType) {
        R::next_value(this)
    }

    fn previous_value(this: &Self::ValueType) -> (r: Self::ValueType) {
        R::previous_value(this)
    }
}

impl<R: Ranged> AsRangedCoord for PartialAxis<R> where R::ValueType: Clone {
    type CoordDescType = Self;
    type Value = R::ValueType;

    open spec fn spec_into_coord(self) -> Self {
        self
    }

    fn into_coord(self) -> (r: Self) {
        self
    }
}

/// The coordinate system described by two ranged axes and the pixel ranges
/// that they are drawn onto.
pub struct RangedCoord<X: Ranged, Y: Ranged> {
    logic_x: X,
    logic_y: Y,
    back_x: (i32, i32),
    back_y: (i32, i32),
}

impl<X: Ranged, Y: Ranged> RangedCoord<X, Y> {
    /// The X axis.
    pub closed spec fn x_axis(&self) -> X {
        self.logic_x
    }

    /// The Y axis.
    pub closed spec fn y_axis(&self) -> Y {
        self.logic_y
    }

    /// The pixel range of the X axis, `(start, end)`.
    pub closed spec fn x_pixels(&self) -> (i32, i32) {
        self.back_x
    }

    /// The pixel range of the Y axis, `(start, end)`.
    pub closed spec fn y_pixels(&self) -> (i32, i32) {
        self.back_y
    }

    /// Create a new ranged value coordinate system.
    pub fn new<IntoX: Into<X>, IntoY: Into<Y>>(
        logic_x: IntoX,
        logic_y: IntoY,
        actual: (Range<i32>, Range<i32>),
    ) -> (r: Self)
        ensures
            IntoX::obeys_into_spec() ==> r.x_axis() == logic_x.into_spec(),
            IntoY::obeys_into_spec() ==> r.y_axis() == logic_y.into_spec(),
            r.x_pixels() == (actual.0.start, actual.0.end),
            r.y_pixels() == (actual.1.start, actual.1.end),
    {
        RangedCoord {
            logic_x: logic_x.into(),
            logic_y: logic_y.into(),
            back_x: (actual.0.start, actual.0.end),
            back_y: (actual.1.start, actual.1.end),
        }
    }

    /// Create a coordinate system from the two axes themselves and the pixel
    /// ranges that they are drawn onto.
    pub fn from_axes(logic_x: X, logic_y: Y, actual: (Range<i32>, Range<i32>)) -> (r: Self)
        ensures
            r.x_axis() == logic_x,
            r.y_axis() == logic_y,
            r.x_pixels() == (actual.0.start, actual.0.end),
            r.y_pixels() == (actual.1.start, actual.1.end),
    {
        RangedCoord {
            logic_x,
            logic_y,
            back_x: (actual.0.start, actual.0.end),
            back_y: (actual.1.start, actual.1.end),
        }
    }

    /// The mesh lines of the coordinate system: one vertical line for each
    /// key point of the X axis (at most `v_limit` of them), then one
    /// horizontal line for each key point of the Y axis (at most `h_limit`).
    pub fn draw_mesh(&self, h_limit: usize, v_limit: usize) -> (r: Vec<MeshLine<X, Y>>)
        requires
            self.x_axis().key_points_ok(v_limit),
            self.y_axis().key_points_ok(h_limit),
            forall|i: int|
                0 <= i < self.x_axis().spec_key_points(v_limit, KeyPointWeight::Any).len()
                    ==> self.x_axis().map_ok(
                    #[trigger] self.x_axis().spec_key_points(v_limit, KeyPointWeight::Any)[i],
                    self.x_pixels(),
                ),
            forall|i: int|
                0 <= i < self.y_axis().spec_key_points(h_limit, KeyPointWeight::Any).len()
                    ==> self.y_axis().map_ok(
                    #[trigger] self.y_axis().spec_key_points(h_limit, KeyPointWeight::Any)[i],
                    self.y_pixels(),
                ),
        ensures
            r@ == self.spec_mesh_lines(h_limit, v_limit),
    {
        let xkp = self.logic_x.key_points(v_limit);
        let ykp = self.logic_y.key_points(h_limit);
        let ghost xs = xkp@;
        let ghost ys = ykp@;
        let mut ret: Vec<MeshLine<X, Y>> = Vec::new();
        for value in it: xkp
            invariant
                it.seq() == xs,
                ret@ == Seq::new(it.index() as nat, |j: int| self.spec_x_mesh_line(xs[j])),
                forall|j: int|
                    0 <= j < xs.len() ==> self.logic_x.map_ok(#[trigger] xs[j], self.back_x),
        {
            let x = self.logic_x.map(&value, self.back_x);
            ret.push(MeshLine::XMesh((x, self.back_y.0), (x, self.back_y.1), value));
        }
        let ghost xlines = ret@;
        for value in it: ykp
            invariant
                it.seq() == ys,
                xlines == Seq::new(xs.len(), |j: int| self.spec_x_mesh_line(xs[j])),
                ret@ == xlines + Seq::new(it.index() as nat, |j: int| self.spec_y_mesh_line(ys[j])),
                forall|j: int|
                    0 <= j < ys.len() ==> self.logic_y.map_ok(#[trigger] ys[j], self.back_y),
        {
            let y = self.logic_y.map(&value, self.back_y);
            ret.push(MeshLine::YMesh((self.back_x.0, y), (self.back_x.1, y), value));
        }
        ret
    }

    /// The vertical mesh line through the X value `value`.
    pub open spec fn spec_x_mesh_line(&self, value: X::ValueType) -> MeshLine<X, Y> {
        let x = self.x_axis().spec_map(value, self.x_pixels());
        MeshLine::XMesh((x, self.y_pixels().0), (x, self.y_pixels().1), value)
    }

    /// The horizontal mesh line through the Y value `value`.
    pub open spec fn spec_y_mesh_line(&self, value: Y::ValueType) -> MeshLine<X, Y> {
        let y = self.y_axis().spec_map(value, self.y_pixels());
        MeshLine::YMesh((self.x_pixels().0, y), (self.x_pixels().1, y), value)
    }

    /// The mesh lines: the vertical ones through the key points of the X axis,
    /// then the horizontal ones through the key points of the Y axis.
    pub open spec fn spec_mesh_lines(&self, h_limit: usize, v_limit: usize) -> Seq<MeshLine<X, Y>> {
        self.x_axis().spec_key_points(v_limit, KeyPointWeight::Any).map_values(
            |v: X::ValueType| self.spec_x_mesh_line(v),
        ) + self.y_axis().spec_key_points(h_limit, KeyPointWeight::Any).map_values(
            |v: Y::ValueType| self.spec_y_mesh_line(v),
        )
    }

    /// Get the range of the X axis.
    pub fn get_x_range(&self) -> (r: Range<X::ValueType>)
        requires
            self.x_axis().range_ok(),
        ensures
            r == self.x_axis().spec_range(),
    {
        self.logic_x.range()
    }

    /// Get the range of the Y axis.
    pub fn get_y_range(&self) -> (r: Range<Y::ValueType>)
        requires
            self.y_axis().range_ok(),
        ensures
            r == self.y_axis().spec_range(),
    {
        self.logic_y.range()
    }

    /// The on-axis part of the pixel range of the X axis.
    pub fn get_x_axis_pixel_range(&self) -> (r: Range<i32>)
        requires
            self.x_axis().axis_pixel_range_ok(self.x_pixels()),
        ensures
            r == self.x_axis().spec_axis_pixel_range(self.x_pixels()),
    {
        self.logic_x.axis_pixel_range(self.back_x)
    }

    /// The on-axis part of the pixel range of the Y axis.
    pub fn get_y_axis_pixel_range(&self) -> (r: Range<i32>)
        requires
            self.y_axis().axis_pixel_range_ok(self.y_pixels()),
        ensures
            r == self.y_axis().spec_axis_pixel_range(self.y_pixels()),
    {
        self.logic_y.axis_pixel_range(self.back_y)
    }
}

impl<X: Ranged, Y: Ranged> CoordTranslate for RangedCoord<X, Y> {
    type From = (X::ValueType, Y::ValueType);

    open spec fn spec_translate(&self, from: Self::From) -> BackendCoord {
        (self.x_axis().spec_map(from.0, self.x_pixels()), self.y_axis().spec_map(from.1, self.y_pixels()))
    }

    open spec fn translate_ok(&self, from: Self::From) -> bool {
        self.x_axis().map_ok(from.0, self.x_pixels()) && self.y_axis().map_ok(from.1, self.y_pixels())
    }

    fn translate(&self, from: &Self::From) -> (r: BackendCoord) {
        (self.logic_x.map(&from.0, self.back_x), self.logic_y.map(&from.1, self.back_y))
    }
}

impl<X: ReversableRanged, Y: ReversableRanged> ReverseCoordTranslate for RangedCoord<X, Y> {
    open spec fn spec_reverse_translate(&self, input: BackendCoord) -> Option<Self::From> {
        match (
            self.x_axis().spec_unmap(input.0, self.x_pixels()),
            self.y_axis().spec_unmap(input.1, self.y_pixels()),
        ) {
            (Some(x), Some(y)) => Some((x, y)),
            _ => None,
        }
    }

    open spec fn reverse_translate_ok(&self, input: BackendCoord) -> bool {
        &&& self.x_axis().unmap_ok(input.0, self.x_pixels())
        &&& self.x_axis().spec_unmap(input.0, self.x_pixels()) is Some ==> self.y_axis().unmap_ok(
            input.1,
            self.y_pixels(),
        )
    }

    fn reverse_translate(&self, input: BackendCoord) -> (r: Option<Self::From>) {
        let x = self.logic_x.unmap(input.0, self.back_x);
        match x {
            Some(x) => {
                let y = self.logic_y.unmap(input.1, self.back_y);
                match y {
                    Some(y) => Some((x, y)),
                    None => None,
                }
            },
            None => None,
        }
    }
}

/// A mesh line of a two-axis coordinate system: its two end points on the
/// backend and the axis value that it stands for.
pub enum MeshLine<X: Ranged, Y: Ranged> {
    /// A vertical line through a value of the X axis.
    XMesh(BackendCoord, BackendCoord, X::ValueType),
    /// A horizontal line through a value of the Y axis.
    YMesh(BackendCoord, BackendCoord, Y::ValueType),
}

impl<X: Ranged, Y: Ranged> MeshLine<X, Y> {
    /// The two end points of the line.
    pub open spec fn spec_endpoints(&self) -> (BackendCoord, BackendCoord) {
        match self {
            MeshLine::XMesh(a, b, _) => (*a, *b),
            MeshLine::YMesh(a, b, _) => (*a, *b),
        }
    }

    /// The two end points of the line, as they are handed to the backend.
    pub fn endpoints(&self) -> (r: (BackendCoord, BackendCoord))
        ensures
            r == self.spec_endpoints(),
    {
        match self {
            MeshLine::XMesh(a, b, _) => (*a, *b),
            MeshLine::YMesh(a, b, _) => (*a, *b),
        }
    }
}


/// The pixel of a value on a centric axis lies between the pixels that the
/// decorated axis gives to the value before it and to the value itself: it
/// is their midpoint, rounded toward zero.
pub proof fn lemma_centric_between<D: DescreteRanged>(
    c: CentricDescreteRange<D>,
    value: <D as Ranged>::ValueType,
    limit: (i32, i32),
) where <D as Ranged>::ValueType: Eq
    requires
        c.map_ok(value, limit),
    ensures
        ({
            let a = c.inner().spec_map(D::spec_previous_value(value), limit) as int;
            let b = c.inner().spec_map(value, limit) as int;
            let m = c.spec_map(value, limit) as int;
            &&& (if a <= b { a } else { b }) <= m <= (if a <= b { b } else { a })
            &&& a + b - 1 <= 2 * m <= a + b + 1
        }),
{
}

/// The mesh lines run across the whole chart: a vertical line for a value of
/// the X axis stands at that value's pixel and runs from the start to the
/// end of the Y pixel range, a horizontal line for a value of the Y axis
/// stands at that value's pixel and runs from the start to the end of the X
/// pixel range; the vertical lines come first, one per key point of the X
/// axis, then the horizontal ones, one per key point of the Y axis.
pub proof fn lemma_mesh_lines_span_the_chart<X: Ranged, Y: Ranged>(
    c: RangedCoord<X, Y>,
    h_limit: usize,
    v_limit: usize,
)
    ensures
        ({
            let lines = c.spec_mesh_lines(h_limit, v_limit);
            let xs = c.x_axis().spec_key_points(v_limit, KeyPointWeight::Any);
            let ys = c.y_axis().spec_key_points(h_limit, KeyPointWeight::Any);
            &&& lines.len() == xs.len() + ys.len()
            &&& forall|i: int|
                0 <= i < xs.len() ==> {
                    let x = c.x_axis().spec_map(xs[i], c.x_pixels());
                    #[trigger] lines[i] == MeshLine::<X, Y>::XMesh(
                        (x, c.y_pixels().0),
                        (x, c.y_pixels().1),
                        xs[i],
                    )
                }
            &&& forall|j: int|
                0 <= j < ys.len() ==> {
                    let y = c.y_axis().spec_map(ys[j], c.y_pixels());
                    #[trigger] lines[xs.len() + j] == MeshLine::<X, Y>::YMesh(
                        (c.x_pixels().0, y),
                        (c.x_pixels().1, y),
                        ys[j],
                    )
                }
        }),
{
    let lines = c.spec_mesh_lines(h_limit, v_limit);
    let xs = c.x_axis().spec_key_points(v_limit, KeyPointWeight::Any);
    let ys = c.y_axis().spec_key_points(h_limit, KeyPointWeight::Any);
    let xl = xs.map_values(|v: X::ValueType| c.spec_x_mesh_line(v));
    let yl = ys.map_values(|v: Y::ValueType| c.spec_y_mesh_line(v));
    assert(lines == xl + yl);
    assert forall|j: int| 0 <= j < ys.len() implies #[trigger] lines[xs.len() + j] == yl[j] by {
        assert((xl + yl)[xl.len() + j] == yl[j]);
    }
}

} // verus!
