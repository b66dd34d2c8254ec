//! The two-dimensional polar coordinate system: a radius axis and an angle
//! axis, each mapped onto its own pixel range.

use std::ops::Range;

use super::ranged::{Ranged, ReversableRanged};
use super::{BackendCoord, CoordTranslate, ReverseCoordTranslate};
use vstd::prelude::*;
use vstd::std_specs::convert::IntoSpec;

verus! {

/// A 2D polar coordinate system described by two 1D ranged coordinate specs.
pub struct Polar2d<R: Ranged, T: Ranged> {
    logic_r: R,
    logic_theta: T,
    back_r: (i32, i32),
    back_theta: (i32, i32),
}

impl<R: Ranged, T: Ranged> Polar2d<R, T> {
    /// The radius axis.
    pub closed spec fn r_axis(&self) -> R {
        self.logic_r
    }

    /// The angle axis.
    pub closed spec fn theta_axis(&self) -> T {
        self.logic_theta
    }

    /// The pixel range of the radius axis, `(start, end)`.
    pub closed spec fn r_pixels(&self) -> (i32, i32) {
        self.back_r
    }

    /// The pixel range of the angle axis, `(start, end)`.
    pub closed spec fn theta_pixels(&self) -> (i32, i32) {
        self.back_theta
    }

    /// Create a new 2D polar coordinate system.
    /// - `logic_r` and `logic_theta`: the descriptions of the 1D axes
    /// - `actual`: the pixel ranges on the screen for this coordinate system
    pub fn new<IntoR: Into<R>, IntoT: Into<T>>(
        logic_r: IntoR,
        logic_theta: IntoT,
        actual: (Range<i32>, Range<i32>),
    ) -> (r: Self)
        ensures
            IntoR::obeys_into_spec() ==> r.r_axis() == logic_r.into_spec(),
            IntoT::obeys_into_spec() ==> r.theta_axis() == logic_theta.into_spec(),
            r.r_pixels() == (actual.0.start, actual.0.end),
            r.theta_pixels() == (actual.1.start, actual.1.end),
    {
        Polar2d {
            logic_r: logic_r.into(),
            logic_theta: logic_theta.into(),
            back_r: (actual.0.start, actual.0.end),
            back_theta: (actual.1.start, actual.1.end),
        }
    }
}

/// A mesh line of a polar coordinate system.
pub enum MeshLine<R: Ranged, T: Ranged> {
    /// A circle of the radius mesh: its radius on the backend and the radius
    /// value that it stands for.
    RMesh(BackendCoord, R::ValueType),
    /// A line of the angle mesh: its two end points and the angle value that it
    /// stands for.
    TMesh(BackendCoord, BackendCoord, T::ValueType),
}

impl<R: Ranged, T: Ranged> CoordTranslate for Polar2d<R, T> {
    type From = (R::ValueType, T::ValueType);

    open spec fn spec_translate(&self, from: Self::From) -> BackendCoord {
        (
            self.r_axis().spec_map(from.0, self.r_pixels()),
            self.theta_axis().spec_map(from.1, self.theta_pixels()),
        )
    }

    open spec fn translate_ok(&self, from: Self::From) -> bool {
        self.r_axis().map_ok(from.0, self.r_pixels()) && self.theta_axis().map_ok(from.1, self.theta_pixels())
    }

    fn translate(&self, from: &Self::From) -> (r: BackendCoord) {
        (self.logic_r.map(&from.0, self.back_r), self.logic_theta.map(&from.1, self.back_theta))
    }
}

impl<R: ReversableRanged, T: ReversableRanged> ReverseCoordTranslate for Polar2d<R, T> {
    open spec fn spec_reverse_translate(&self, input: BackendCoord) -> Option<Self::From> {
        match (
            self.r_axis().spec_unmap(input.0, self.r_pixels()),
            self.theta_axis().spec_unmap(input.1, self.theta_pixels()),
        ) {
            (Some(r), Some(t)) => Some((r, t)),
            _ => None,
        }
    }

    open spec fn reverse_translate_ok(&self, input: BackendCoord) -> bool {
        &&& self.r_axis().unmap_ok(input.0, self.r_pixels())
        &&& self.r_axis().spec_unmap(input.0, self.r_pixels()) is Some ==> self.theta_axis().unmap_ok(
            input.1,
            self.theta_pixels(),
        )
    }

    fn reverse_translate(&self, input: BackendCoord) -> (r: Option<Self::From>) {
        let r = self.logic_r.unmap(input.0, self.back_r);
        match r {
            Some(r) => {
                let t = self.logic_theta.unmap(input.1, self.back_theta);
                match t {
                    Some(t) => Some((r, t)),
                    None => None,
                }
            },
            None => None,
        }
    }
}

} // verus!
