//! The fonts that a system font source offers.

use std::sync::Arc;

use super::{FontFamily, FontStyle};
use vstd::prelude::*;

verus! {

/// A font found by a system font source: the bytes of the font file and the
/// index of the face within it.
pub struct FontCandidate {
    /// The bytes of the font file.
    pub data: Arc<Vec<u8>>,
    /// The index of the face within the file.
    pub index: u32,
}


/// A generic font family of the system font collection.
#[derive(Clone, Copy, Debug, PartialEq, Eq, Structural)]
pub enum GenericFamily {
    /// The default serif family.
    Serif,
    /// The default sans-serif family.
    SansSerif,
    /// The default monospace family.
    Monospace,
}

/// A family that a query of the system font collection asks for.
#[derive(Clone, Copy, Debug, PartialEq, Eq)]
pub enum QueryFamily<'a> {
    /// The family of this name.
    Named(&'a str),
    /// A generic family.
    Generic(GenericFamily),
}

/// The families that a query for `family` asks for, in order: the family
/// itself, then the sans-serif family as the fallback of any family other
/// than sans-serif.
pub open spec fn spec_query_families<'a>(family: FontFamily<'a>) -> Seq<QueryFamily<'a>> {
    match family {
        FontFamily::Serif => seq![
            QueryFamily::Generic(GenericFamily::Serif),
            QueryFamily::Generic(GenericFamily::SansSerif),
        ],
        FontFamily::SansSerif => seq![QueryFamily::Generic(GenericFamily::SansSerif)],
        FontFamily::Monospace => seq![
            QueryFamily::Generic(GenericFamily::Monospace),
            QueryFamily::Generic(GenericFamily::SansSerif),
        ],
        FontFamily::Name(name) => seq![
            QueryFamily::Named(name),
            QueryFamily::Generic(GenericFamily::SansSerif),
        ],
    }
}

/// The families that a query of the system font collection for `family`
/// asks for, in order of preference; every query falls back to the
/// sans-serif family last.
pub fn query_families<'a>(family: FontFamily<'a>) -> (r: Vec<QueryFamily<'a>>)
    ensures
        r@ == spec_query_families(family),
        r@.len() >= 1,
        r@.last() == QueryFamily::Generic(GenericFamily::SansSerif),
{
    let r = match family {
        FontFamily::Serif => vec![
            QueryFamily::Generic(GenericFamily::Serif),
            QueryFamily::Generic(GenericFamily::SansSerif),
        ],
        FontFamily::SansSerif => vec![QueryFamily::Generic(GenericFamily::SansSerif)],
        FontFamily::Monospace => vec![
            QueryFamily::Generic(GenericFamily::Monospace),
            QueryFamily::Generic(GenericFamily::SansSerif),
        ],
        FontFamily::Name(name) => vec![
            QueryFamily::Named(name),
            QueryFamily::Generic(GenericFamily::SansSerif),
        ],
    };
    proof {
        assert(r@ =~= spec_query_families(family));
    }
    r
}

/// The slant of the fonts that a query asks for.
#[derive(Clone, Copy, Debug, PartialEq, Eq, Structural)]
pub enum FontSlant {
    /// Upright.
    Normal,
    /// Italic.
    Italic,
    /// Oblique, at the collection's default angle.
    Oblique,
}

/// The weight of the fonts that a query asks for.
#[derive(Clone, Copy, Debug, PartialEq, Eq, Structural)]
pub enum FontWeight {
    /// The normal weight.
    Normal,
    /// The bold weight.
    Bold,
}

/// The slant and weight that a query for the style `style` asks for: bold
/// is an upright bold font; the other styles are of normal weight.
pub open spec fn spec_attributes(style: FontStyle) -> (FontSlant, FontWeight) {
    match style {
        FontStyle::Normal => (FontSlant::Normal, FontWeight::Normal),
        FontStyle::Italic => (FontSlant::Italic, FontWeight::Normal),
        FontStyle::Oblique => (FontSlant::Oblique, FontWeight::Normal),
        FontStyle::Bold => (FontSlant::Normal, FontWeight::Bold),
    }
}

/// The slant and weight that a query of the system font collection for the
/// style `style` asks for.
pub fn attributes(style: FontStyle) -> (r: (FontSlant, FontWeight))
    ensures
        r == spec_attributes(style),
{
    match style {
        FontStyle::Normal => (FontSlant::Normal, FontWeight::Normal),
        FontStyle::Italic => (FontSlant::Italic, FontWeight::Normal),
        FontStyle::Oblique => (FontSlant::Oblique, FontWeight::Normal),
        FontStyle::Bold => (FontSlant::Normal, FontWeight::Bold),
    }
}

} // verus!
