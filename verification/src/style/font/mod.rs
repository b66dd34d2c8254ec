//! Font descriptions, the keys and lookups of the font caches, the queries of
//! the system font collection, the errors of the font backends, the plain
//! data that the font engines exchange and how the engine accepts font data.

pub mod context;
pub mod engine;
pub mod harfrust_engine;
pub mod migration;
pub mod system;
pub mod ttf;
pub mod web;

use vstd::prelude::*;

verus! {

/// The family of a font.
#[derive(Clone, Copy, Debug)]
pub enum FontFamily<'a> {
    /// The system default serif font.
    Serif,
    /// The system default sans-serif font.
    SansSerif,
    /// The system default monospace font.
    Monospace,
    /// A font family given by its name.
    Name(&'a str),
}

impl<'a> FontFamily<'a> {
    /// The name of the family.
    pub open spec fn spec_as_str(&self) -> Seq<char> {
        match self {
            FontFamily::Serif => "serif"@,
            FontFamily::SansSerif => "sans-serif"@,
            FontFamily::Monospace => "monospace"@,
            FontFamily::Name(name) => name@,
        }
    }

    /// The name of the family.
    pub fn as_str(&self) -> (r: &'a str)
        ensures
            r@ == self.spec_as_str(),
    {
        match self {
            FontFamily::Serif => "serif",
            FontFamily::SansSerif => "sans-serif",
            FontFamily::Monospace => "monospace",
            FontFamily::Name(name) => name,
        }
    }
}

/// The style of a font.
#[derive(Clone, Copy, Debug, PartialEq, Eq, Structural)]
pub enum FontStyle {
    /// The normal style.
    Normal,
    /// The oblique style.
    Oblique,
    /// The italic style.
    Italic,
    /// The bold style.
    Bold,
}

impl FontStyle {
    /// The name of the style.
    pub open spec fn spec_as_str(&self) -> Seq<char> {
        match self {
            FontStyle::Normal => "normal"@,
            FontStyle::Oblique => "oblique"@,
            FontStyle::Italic => "italic"@,
            FontStyle::Bold => "bold"@,
        }
    }

    /// The name of the style.
    pub fn as_str(&self) -> (r: &'static str)
        ensures
            r@ == self.spec_as_str(),
    {
        match self {
            FontStyle::Normal => "normal",
            FontStyle::Oblique => "oblique",
            FontStyle::Italic => "italic",
            FontStyle::Bold => "bold",
        }
    }
}

/// A box where a text label can be fit: its upper left and lower right
/// corners.
pub type LayoutBox = ((i32, i32), (i32, i32));

} // verus!
