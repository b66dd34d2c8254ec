//! Color maps: from a scalar value to a color.

use vstd::prelude::*;

verus! {

/// Converts scalar values to colors.
pub trait ColorMap<ColorType, FloatType> {
    /// The color of the value `h` between the bounds `min` and `max`.
    fn get_color_normalized(&self, h: FloatType, min: FloatType, max: FloatType) -> ColorType;
}

/// The color map given by a list of colors, spaced evenly apart.
pub struct DerivedColorMap<ColorType> {
    colors: Vec<ColorType>,
}

impl<ColorType: Clone> DerivedColorMap<ColorType> {
    /// The colors of the map, in order.
    pub closed spec fn spec_colors(&self) -> Seq<ColorType> {
        self.colors@
    }

    /// The color map made of the colors `colors`, in this order, spaced evenly
    /// apart.
    pub fn new(colors: &[ColorType]) -> (r: Self)
        ensures
            r.spec_colors().len() == colors@.len(),
            forall|i: int|
                0 <= i < colors@.len() ==> cloned(colors@[i], #[trigger] r.spec_colors()[i]),
    {
        let mut v: Vec<ColorType> = Vec::new();
        let mut i: usize = 0;
        while i < colors.len()
            invariant
                0 <= i <= colors@.len(),
                v@.len() == i,
                forall|j: int| 0 <= j < i ==> cloned(colors@[j], #[trigger] v@[j]),
            decreases colors@.len() - i,
        {
            v.push(colors[i].clone());
            i = i + 1;
        }
        DerivedColorMap { colors: v }
    }

    /// The colors of the map, in order.
    pub fn colors(&self) -> (r: &[ColorType])
        ensures
            r@ == self.spec_colors(),
    {
        self.colors.as_slice()
    }
}

} // verus!
