//! The font description that the browser resolves.

use super::{FontFamily, FontStyle};
use vstd::prelude::*;

verus! {

/// The error of the browser's font handling.
#[derive(Debug, Clone, Copy, PartialEq, Eq, Structural)]
pub enum FontError {
    /// An error the browser did not describe.
    UnknownError,
}

impl FontError {
    /// The message that describes the error.
    pub fn message(&self) -> (r: String)
        ensures
            r@ == "Unknown error"@,
    {
        "Unknown error".to_owned()
    }
}

/// A font for the browser to resolve: the family name and the style name.
#[derive(Clone)]
pub struct FontDataInternal(String, String);

impl FontDataInternal {
    /// The family name.
    pub closed spec fn spec_family(&self) -> Seq<char> {
        self.0@
    }

    /// The style name.
    pub closed spec fn spec_style(&self) -> Seq<char> {
        self.1@
    }

    /// The font of family `family` and style `style`.
    pub fn new(family: FontFamily, style: FontStyle) -> (r: Self)
        ensures
            r.spec_family() == family.spec_as_str(),
            r.spec_style() == style.spec_as_str(),
    {
        FontDataInternal(family.as_str().to_owned(), style.as_str().to_owned())
    }
}

} // verus!
