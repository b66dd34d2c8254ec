//! Coordinate system abstractions.
//!
//! Coordinate systems can be attached to drawing areas. `CoordTranslate`
//! maps a logic coordinate to the pixel-based backend coordinate;
//! `ReverseCoordTranslate` maps a backend coordinate back, where it can.

pub mod category;
pub mod ckps;
pub mod datetime;
pub mod discrete;
pub mod group_by;
pub mod linspace;
pub mod logarithmic;
pub mod nested;
pub mod numeric;
pub mod polar;
pub mod ranged;
pub mod ticks;

use vstd::prelude::*;

verus! {

/// A pixel position on the backend: `(x, y)`.
pub type BackendCoord = (i32, i32);

/// Whether `v` is a value of `i32`.
pub open spec fn fits_i32(v: int) -> bool {
    i32::MIN <= v <= i32::MAX
}

/// The trait that maps some customized object to the backend coordinate.
pub trait CoordTranslate {
    type From;

    /// The backend coordinate that `from` is mapped to.
    spec fn spec_translate(&self, from: Self::From) -> BackendCoord;

    /// The inputs on which the mapping stays within `i32`.
    spec fn translate_ok(&self, from: Self::From) -> bool;

    /// Map the guest coordinate to the backend coordinate.
    fn translate(&self, from: &Self::From) -> (r: BackendCoord)
        requires
            self.translate_ok(*from),
        ensures
            r == self.spec_translate(*from),
    ;
}

/// The trait indicates that the coordinate system supports reverse transform.
pub trait ReverseCoordTranslate: CoordTranslate {
    /// The logic coordinate that `input` maps back to, if any.
    spec fn spec_reverse_translate(&self, input: BackendCoord) -> Option<Self::From>;

    /// The inputs on which the reverse mapping stays within the value types.
    spec fn reverse_translate_ok(&self, input: BackendCoord) -> bool;

    /// Map the coordinate back from the drawing coordinate to the
    /// logic coordinate.
    fn reverse_translate(&self, input: BackendCoord) -> (r: Option<Self::From>)
        requires
            self.reverse_translate_ok(input),
        ensures
            r == self.spec_reverse_translate(input),
    ;
}

/// The coordinate mapping that only imposes a shift.
#[derive(Debug)]
pub struct Shift(pub BackendCoord);

impl Clone for Shift {
    fn clone(&self) -> (r: Self)
        ensures
            r == *self,
    {
        Shift(self.0)
    }
}

impl CoordTranslate for Shift {
    type From = BackendCoord;

    open spec fn spec_translate(&self, from: BackendCoord) -> BackendCoord {
        ((from.0 + (self.0).0) as i32, (from.1 + (self.0).1) as i32)
    }

    open spec fn translate_ok(&self, from: BackendCoord) -> bool {
        fits_i32(from.0 + (self.0).0) && fits_i32(from.1 + (self.0).1)
    }

    fn translate(&self, from: &BackendCoord) -> (r: BackendCoord) {
        (from.0 + (self.0).0, from.1 + (self.0).1)
    }
}

impl ReverseCoordTranslate for Shift {
    open spec fn spec_reverse_translate(&self, input: BackendCoord) -> Option<BackendCoord> {
        Some(((input.0 - (self.0).0) as i32, (input.1 - (self.0).1) as i32))
    }

    open spec fn reverse_translate_ok(&self, input: BackendCoord) -> bool {
        fits_i32(input.0 - (self.0).0) && fits_i32(input.1 - (self.0).1)
    }

    fn reverse_translate(&self, input: BackendCoord) -> (r: Option<BackendCoord>) {
        Some((input.0 - (self.0).0, input.1 - (self.0).1))
    }
}

/// Shifting a point and then shifting it back gives the point again, and
/// the other way round.
pub proof fn lemma_shift_round_trip(shift: Shift, p: BackendCoord)
    ensures
        shift.translate_ok(p) ==> shift.reverse_translate_ok(shift.spec_translate(p))
            && shift.spec_reverse_translate(shift.spec_translate(p)) == Some(p),
        shift.reverse_translate_ok(p) ==> shift.translate_ok(
            shift.spec_reverse_translate(p).unwrap(),
        ) && shift.spec_translate(shift.spec_reverse_translate(p).unwrap()) == p,
{
}

/// A transformation composed with a shift: the inner transformation is
/// applied first, then the shift.
pub struct ShiftAndTrans<T: CoordTranslate>(Shift, T);

impl<T: CoordTranslate> CoordTranslate for ShiftAndTrans<T> {
    type From = T::From;

    closed spec fn spec_translate(&self, from: T::From) -> BackendCoord {
        self.0.spec_translate(self.1.spec_translate(from))
    }

    closed spec fn translate_ok(&self, from: T::From) -> bool {
        self.1.translate_ok(from) && self.0.translate_ok(self.1.spec_translate(from))
    }

    fn translate(&self, from: &T::From) -> (r: BackendCoord) {
        let temp = self.1.translate(from);
        self.0.translate(&temp)
    }
}

impl<T: ReverseCoordTranslate> ReverseCoordTranslate for ShiftAndTrans<T> {
    closed spec fn spec_reverse_translate(&self, input: BackendCoord) -> Option<T::From> {
        match self.0.spec_reverse_translate(input) {
            Some(p) => self.1.spec_reverse_translate(p),
            None => None,
        }
    }

    closed spec fn reverse_translate_ok(&self, input: BackendCoord) -> bool {
        self.0.reverse_translate_ok(input) && self.1.reverse_translate_ok(
            self.0.spec_reverse_translate(input).unwrap(),
        )
    }

    fn reverse_translate(&self, input: BackendCoord) -> (r: Option<T::From>) {
        let shifted = self.0.reverse_translate(input);
        match shifted {
            Some(p) => self.1.reverse_translate(p),
            None => None,
        }
    }
}

} // verus!
