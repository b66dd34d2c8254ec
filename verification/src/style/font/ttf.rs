//! The system font cache: its keys, and the font objects that it holds.

use std::sync::Arc;

use super::{FontFamily, FontStyle};
use vstd::prelude::*;
use vstd::string::StringExecFns;

verus! {

/// The key of a font in the font caches: the family name, followed by the
/// style name where the style is not normal.
pub open spec fn spec_cache_key(face: FontFamily, style: FontStyle) -> Seq<char> {
    match style {
        FontStyle::Normal => face.spec_as_str(),
        _ => face.spec_as_str() + ", "@ + style.spec_as_str(),
    }
}

/// The key of a font in the font caches.
pub fn cache_key(face: FontFamily, style: FontStyle) -> (r: String)
    ensures
        r@ == spec_cache_key(face, style),
{
    match style {
        FontStyle::Normal => face.as_str().to_owned(),
        _ => face.as_str().to_owned().concat(", ").concat(style.as_str()),
    }
}

/// The data of a system font as the font source loaded it: the bytes of the
/// font file, the index of the face within it, and the id of the font.
#[derive(Clone)]
pub struct SystemFontData {
    /// The bytes of the font file.
    pub bytes: Arc<Vec<u8>>,
    /// The index of the face within the file.
    pub index: usize,
    /// The id of the font.
    pub id: u64,
}

/// A loaded font: the bytes of the font file, the index of the face within
/// it, and the id of the font.
pub struct FontExt {
    bytes: Arc<Vec<u8>>,
    index: usize,
    id: u64,
}

impl FontExt {
    /// The bytes of the font file.
    pub closed spec fn spec_bytes(&self) -> Seq<u8> {
        (*self.bytes)@
    }

    /// The index of the face within the file.
    pub closed spec fn spec_index(&self) -> usize {
        self.index
    }

    /// The id of the font.
    pub closed spec fn spec_id(&self) -> u64 {
        self.id
    }

    /// The font of the loaded data `data`.
    pub fn from_data(data: SystemFontData) -> (r: Self)
        ensures
            r.spec_bytes() == (*data.bytes)@,
            r.spec_index() == data.index,
            r.spec_id() == data.id,
    {
        FontExt { bytes: data.bytes, index: data.index, id: data.id }
    }

    /// The id by which the glyphs of this font are cached: the font id and the
    /// face index.
    pub fn cache_id(&self) -> (r: [u64; 2])
        ensures
            r@ == seq![self.spec_id(), self.spec_index() as u64],
    {
        let r = [self.id, self.index as u64];
        proof {
            assert(r@ =~= seq![self.id, self.index as u64]);
        }
        r
    }

    /// The bytes of the font file.
    pub fn bytes(&self) -> (r: &[u8])
        ensures
            r@ == self.spec_bytes(),
    {
        self.bytes.as_slice()
    }

    /// The index of the face within the file.
    pub fn index(&self) -> (r: usize)
        ensures
            r == self.spec_index(),
    {
        self.index
    }
}

/// A system font, as the text renderer uses it.
pub struct FontDataInternal(pub FontExt);


/// The error of the system font backend.
#[derive(Debug, Clone, PartialEq, Eq)]
pub enum FontError {
    /// The font cache could not be locked.
    LockError,
    /// No font of the family and style (the names) was found.
    NoSuchFont(String, String),
    /// The font file could not be loaded.
    FontLoadError(String),
    /// The font face could not be parsed.
    FaceParseError(String),
}

impl FontError {
    /// The message that describes the error.
    pub open spec fn spec_message(&self) -> Seq<char> {
        match self {
            FontError::LockError => "could not lock mutex"@,
            FontError::NoSuchFont(family, style) => "no such font: "@ + family@ + " "@ + style@,
            FontError::FontLoadError(e) => "font loading error: "@ + e@,
            FontError::FaceParseError(e) => "font face parse error: "@ + e@,
        }
    }

    /// The message that describes the error.
    pub fn message(&self) -> (r: String)
        ensures
            r@ == self.spec_message(),
    {
        match self {
            FontError::LockError => "could not lock mutex".to_owned(),
            FontError::NoSuchFont(family, style) => "no such font: ".to_owned().concat(
                family.as_str(),
            ).concat(" ").concat(style.as_str()),
            FontError::FontLoadError(e) => "font loading error: ".to_owned().concat(e.as_str()),
            FontError::FaceParseError(e) => "font face parse error: ".to_owned().concat(e.as_str()),
        }
    }
}

} // verus!
