//! The plain data of the native font pipeline.

use vstd::prelude::*;
use vstd::string::StringExecFns;

verus! {

/// A dense grayscale coverage mask: its position relative to the pen, its
/// size, and one coverage byte per pixel, row by row.
pub struct CoverageMask {
    /// The column of the left edge of the mask.
    pub left: i32,
    /// The row of the top edge of the mask.
    pub top: i32,
    /// The width of the mask in pixels.
    pub width: u32,
    /// The height of the mask in pixels.
    pub height: u32,
    /// The coverage of each pixel, row by row.
    pub data: Vec<u8>,
}

/// The mask that covers nothing: of size zero at the pen position.
pub fn empty_mask() -> (r: CoverageMask)
    ensures
        r.left == 0,
        r.top == 0,
        r.width == 0,
        r.height == 0,
        r.data@ == Seq::<u8>::empty(),
{
    CoverageMask { left: 0, top: 0, width: 0, height: 0, data: Vec::new() }
}



/// The error type for the native font pipeline.
#[derive(Debug, Clone, PartialEq, Eq)]
pub enum FontError {
    /// The font bytes could not be parsed.
    InvalidFontData(String),
    /// The requested font collection index does not exist.
    InvalidFontIndex(u32),
    /// The requested font family and style are not available in the active context.
    NotInContext {
        /// The requested family name.
        family: String,
        /// The requested style name.
        style: String,
    },
    /// The request could only be satisfied by system fonts, but system lookup is disabled.
    SystemFontsDisabled {
        /// The requested family name.
        family: String,
    },
    /// A candidate font could not be loaded.
    FontUnavailable {
        /// The requested family name.
        family: String,
        /// The requested style name.
        style: String,
    },
    /// A glyph outline could not be converted into a coverage mask.
    RasterizeError(String),
    /// Internal font state could not be locked.
    LockError,
}

/// The character of the decimal digit `d`.
pub open spec fn digit_char(d: int) -> char {
    if d == 0 {
        '0'
    } else if d == 1 {
        '1'
    } else if d == 2 {
        '2'
    } else if d == 3 {
        '3'
    } else if d == 4 {
        '4'
    } else if d == 5 {
        '5'
    } else if d == 6 {
        '6'
    } else if d == 7 {
        '7'
    } else if d == 8 {
        '8'
    } else {
        '9'
    }
}

/// The decimal digits of `n`, most significant first, without leading zeros
/// (`0` for zero).
pub open spec fn decimal(n: nat) -> Seq<char>
    decreases n,
{
    if n < 10 {
        seq![digit_char(n as int)]
    } else {
        decimal(n / 10) + seq![digit_char((n % 10) as int)]
    }
}

/// The text of the decimal digit `d`.
fn digit_str(d: u32) -> (r: &'static str)
    requires
        d < 10,
    ensures
        r@ == seq![digit_char(d as int)],
{
    proof {
        reveal_strlit("0");
        reveal_strlit("1");
        reveal_strlit("2");
        reveal_strlit("3");
        reveal_strlit("4");
        reveal_strlit("5");
        reveal_strlit("6");
        reveal_strlit("7");
        reveal_strlit("8");
        reveal_strlit("9");
    }
    if d == 0 {
        "0"
    } else if d == 1 {
        "1"
    } else if d == 2 {
        "2"
    } else if d == 3 {
        "3"
    } else if d == 4 {
        "4"
    } else if d == 5 {
        "5"
    } else if d == 6 {
        "6"
    } else if d == 7 {
        "7"
    } else if d == 8 {
        "8"
    } else {
        "9"
    }
}

/// `prefix` followed by the decimal digits of `n`.
fn push_decimal(prefix: String, n: u32) -> (r: String)
    ensures
        r@ == prefix@ + decimal(n as nat),
    decreases n,
{
    if n < 10 {
        prefix.concat(digit_str(n))
    } else {
        let head = push_decimal(prefix, n / 10);
        let r = head.concat(digit_str(n % 10));
        proof {
            assert(r@ =~= prefix@ + decimal(n as nat));
        }
        r
    }
}

impl FontError {
    /// The message that describes the error.
    pub open spec fn spec_message(&self) -> Seq<char> {
        match self {
            FontError::InvalidFontData(err) => "invalid font data: "@ + err@,
            FontError::InvalidFontIndex(index) => "invalid font index: "@ + decimal(*index as nat),
            FontError::NotInContext { family, style } => "font is not in context: "@ + family@
                + " "@ + style@,
            FontError::SystemFontsDisabled { family } => "system fonts are disabled for family: "@
                + family@,
            FontError::FontUnavailable { family, style } => "font is unavailable: "@ + family@
                + " "@ + style@,
            FontError::RasterizeError(err) => "failed to rasterize glyph: "@ + err@,
            FontError::LockError => "failed to lock font state"@,
        }
    }

    /// The message that describes the error.
    pub fn message(&self) -> (r: String)
        ensures
            r@ == self.spec_message(),
    {
        match self {
            FontError::InvalidFontData(err) => "invalid font data: ".to_owned().concat(
                err.as_str(),
            ),
            FontError::InvalidFontIndex(index) => push_decimal(
                "invalid font index: ".to_owned(),
                *index,
            ),
            FontError::NotInContext { family, style } => "font is not in context: ".to_owned().concat(
                family.as_str(),
            ).concat(" ").concat(style.as_str()),
            FontError::SystemFontsDisabled { family } =>
                "system fonts are disabled for family: ".to_owned().concat(family.as_str()),
            FontError::FontUnavailable { family, style } => "font is unavailable: ".to_owned().concat(
                family.as_str(),
            ).concat(" ").concat(style.as_str()),
            FontError::RasterizeError(err) => "failed to rasterize glyph: ".to_owned().concat(
                err.as_str(),
            ),
            FontError::LockError => "failed to lock font state".to_owned(),
        }
    }
}

} // verus!
