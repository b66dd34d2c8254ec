//! Colors given by their RGB components or by their place in a palette.

use std::marker::PhantomData;

use vstd::prelude::*;

verus! {

/// A fixed list of colors to pick from.
pub trait Palette {
    /// The colors of the palette, in order.
    spec fn spec_colors() -> Seq<(u8, u8, u8)>;

    /// The colors of the palette, in order.
    fn colors() -> (r: &'static [(u8, u8, u8)])
        ensures
            r@ == Self::spec_colors(),
    ;
}

/// A color in the given palette, by its index.
#[derive(Debug)]
pub struct PaletteColor<P: Palette>(usize, PhantomData<P>);

impl<P: Palette> Clone for PaletteColor<P> {
    fn clone(&self) -> (r: Self)
        ensures
            r == *self,
    {
        PaletteColor(self.0, PhantomData)
    }
}

impl<P: Palette> PaletteColor<P> {
    /// The index of the color in the palette.
    pub closed spec fn spec_index(&self) -> usize {
        self.0
    }

    /// Pick a color from the palette: the palette is taken round and round,
    /// so that every index gives a color.
    pub fn pick(idx: usize) -> (r: PaletteColor<P>)
        requires
            P::spec_colors().len() > 0,
        ensures
            r.spec_index() == idx % (P::spec_colors().len() as usize),
    {
        PaletteColor(idx % P::colors().len(), PhantomData)
    }

    /// The index of the color in the palette.
    pub fn index(&self) -> (r: usize)
        ensures
            r == self.spec_index(),
    {
        self.0
    }

    /// The RGB components of the color.
    pub fn rgb(&self) -> (r: (u8, u8, u8))
        requires
            self.spec_index() < P::spec_colors().len(),
        ensures
            r == P::spec_colors()[self.spec_index() as int],
    {
        P::colors()[self.0]
    }
}

/// The color described by its RGB value.
#[derive(Copy, Clone, PartialEq, Eq, Structural, Hash, Debug, Default)]
pub struct RGBColor(pub u8, pub u8, pub u8);

impl RGBColor {
    /// The RGB components of the color.
    pub fn rgb(&self) -> (r: (u8, u8, u8))
        ensures
            r == (self.0, self.1, self.2),
    {
        (self.0, self.1, self.2)
    }
}

/// Errors that can occur when constructing an HSL color.
#[derive(Debug, Clone, Copy, PartialEq, Eq, Structural)]
pub enum HSLColorError {
    /// Hue (or degrees input) must be finite.
    NonFiniteHue,
    /// Saturation must be in the closed interval `[0, 1]`.
    SaturationOutOfRange,
    /// Lightness must be in the closed interval `[0, 1]`.
    LightnessOutOfRange,
}

impl HSLColorError {
    /// The message that describes the error.
    pub open spec fn spec_message(&self) -> Seq<char> {
        match self {
            HSLColorError::NonFiniteHue => "hue must be finite"@,
            HSLColorError::SaturationOutOfRange => "saturation must be in [0, 1]"@,
            HSLColorError::LightnessOutOfRange => "lightness must be in [0, 1]"@,
        }
    }

    /// The message that describes the error.
    pub fn message(&self) -> (r: String)
        ensures
            r@ == self.spec_message(),
    {
        match self {
            HSLColorError::NonFiniteHue => "hue must be finite".to_owned(),
            HSLColorError::SaturationOutOfRange => "saturation must be in [0, 1]".to_owned(),
            HSLColorError::LightnessOutOfRange => "lightness must be in [0, 1]".to_owned(),
        }
    }
}

} // verus!
