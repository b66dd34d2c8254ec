//! The font engine that shapes text with HarfRust and draws glyph outlines
//! with Skrifa: how it accepts font data.

use std::sync::Arc;

use super::engine::FontError;
use vstd::prelude::*;

verus! {

/// The message of the error with which HarfRust's font reader
/// (`harfrust::FontRef::from_index`) refuses the font `index` of `data`, or
/// `None` where it reads it.
pub uninterp spec fn harfrust_read_error(data: Seq<u8>, index: u32) -> Option<Seq<char>>;

/// The message of the error with which Skrifa's font reader
/// (`skrifa::FontRef::from_index`) refuses the font `index` of `data`, or
/// `None` where it reads it.
pub uninterp spec fn skrifa_read_error(data: Seq<u8>, index: u32) -> Option<Seq<char>>;

/// `harfrust::FontRef::from_index`: whether HarfRust reads the font `index`
/// of `data`, and where it does not, the text of its error. Which data it
/// reads is left to the name `harfrust_read_error`.
#[verifier::external_body]
fn harfrust_read(data: &[u8], index: u32) -> (r: Option<String>)
    ensures
        r matches Some(e) ==> harfrust_read_error(data@, index) == Some(e@),
        r is None ==> harfrust_read_error(data@, index) is None,
{
    match harfrust::FontRef::from_index(data, index) {
        Ok(_) => None,
        Err(err) => Some(err.to_string()),
    }
}

/// `skrifa::FontRef::from_index`: whether Skrifa reads the font `index` of
/// `data`, and where it does not, the text of its error. Which data it reads
/// is left to the name `skrifa_read_error`.
#[verifier::external_body]
fn skrifa_read(data: &[u8], index: u32) -> (r: Option<String>)
    ensures
        r matches Some(e) ==> skrifa_read_error(data@, index) == Some(e@),
        r is None ==> skrifa_read_error(data@, index) is None,
{
    match skrifa::FontRef::from_index(data, index) {
        Ok(_) => None,
        Err(err) => Some(err.to_string()),
    }
}

/// Whether font data is accepted, from what the two font readers say of it:
/// HarfRust's refusal first, then Skrifa's, as invalid font data.
pub open spec fn spec_font_data_verdict(harfrust: Option<Seq<char>>, skrifa: Option<Seq<char>>) -> Option<Seq<char>> {
    match harfrust {
        Some(e) => Some(e),
        None => skrifa,
    }
}

/// The verdict on font data given the errors of the two font readers, if
/// any: the first refusal, HarfRust's before Skrifa's, as invalid font data.
pub fn font_data_verdict(harfrust: Option<String>, skrifa: Option<String>) -> (r: Result<(), FontError>)
    ensures
        match spec_font_data_verdict(
            match harfrust { Some(e) => Some(e@), None => None },
            match skrifa { Some(e) => Some(e@), None => None },
        ) {
            Some(e) => r matches Err(FontError::InvalidFontData(m)) && m@ == e,
            None => r is Ok,
        },
{
    match harfrust {
        Some(e) => Err(FontError::InvalidFontData(e)),
        None => match skrifa {
            Some(e) => Err(FontError::InvalidFontData(e)),
            None => Ok(()),
        },
    }
}

/// A font that the engine accepted: the bytes of the font file and the index
/// of the face within it.
pub struct HarfrustFont {
    data: Arc<Vec<u8>>,
    index: u32,
}

impl HarfrustFont {
    /// The bytes of the font file.
    pub closed spec fn spec_data(&self) -> Seq<u8> {
        (*self.data)@
    }

    /// The index of the face within the file.
    pub closed spec fn spec_index(&self) -> u32 {
        self.index
    }

    /// The bytes of the font file.
    pub fn data(&self) -> (r: &[u8])
        ensures
            r@ == self.spec_data(),
    {
        self.data.as_slice()
    }

    /// The index of the face within the file.
    pub fn index(&self) -> (r: u32)
        ensures
            r == self.spec_index(),
    {
        self.index
    }
}

/// The font engine that shapes text with HarfRust and draws glyph outlines
/// with Skrifa.
#[derive(Default)]
pub struct HarfrustEngine;

impl HarfrustEngine {
    /// Parse the font `index` of `data`: both HarfRust and Skrifa must read
    /// it; the first that refuses it makes it invalid font data.
    pub fn parse(&self, data: Arc<Vec<u8>>, index: u32) -> (r: Result<HarfrustFont, FontError>)
        ensures
            match spec_font_data_verdict(
                harfrust_read_error((*data)@, index),
                skrifa_read_error((*data)@, index),
            ) {
                Some(e) => r matches Err(FontError::InvalidFontData(m)) && m@ == e,
                None => r matches Ok(font) && font.spec_data() == (*data)@ && font.spec_index()
                    == index,
            },
    {
        let harfrust = harfrust_read(data.as_slice(), index);
        let skrifa = if harfrust.is_none() {
            skrifa_read(data.as_slice(), index)
        } else {
            None
        };
        match font_data_verdict(harfrust, skrifa) {
            Ok(()) => Ok(HarfrustFont { data, index }),
            Err(e) => Err(e),
        }
    }
}

} // verus!
