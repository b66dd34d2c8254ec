//! The fonts registered in a font context, how a family and style are
//! looked up among them and where a context takes a font from, and how the
//! glyphs of a shaped text are placed on pixels.

use std::sync::Arc;

use super::engine::{CoverageMask, FontError};
use super::system::FontCandidate;
use super::{FontFamily, FontStyle};
use vstd::prelude::*;

verus! {

/// A font registered under a family name and a style.
#[derive(Clone)]
pub struct RegisteredFont {
    family: String,
    style: FontStyle,
    data: Arc<Vec<u8>>,
    index: u32,
}

impl RegisteredFont {
    /// The family name it is registered under.
    pub closed spec fn spec_family(&self) -> Seq<char> {
        self.family@
    }

    /// The style it is registered under.
    pub closed spec fn spec_style(&self) -> FontStyle {
        self.style
    }

    /// The bytes of the font file.
    pub closed spec fn spec_data(&self) -> Seq<u8> {
        (*self.data)@
    }

    /// The index of the face within the file.
    pub closed spec fn spec_face_index(&self) -> u32 {
        self.index
    }

    /// The font of the file `data`, face `index`, registered under `family`
    /// and `style`.
    pub fn new(family: String, style: FontStyle, data: Arc<Vec<u8>>, index: u32) -> (r: Self)
        ensures
            r.spec_family() == family@,
            r.spec_style() == style,
            r.spec_data() == (*data)@,
            r.spec_face_index() == index,
    {
        RegisteredFont { family, style, data, index }
    }

    /// The family name it is registered under.
    pub fn family(&self) -> (r: &str)
        ensures
            r@ == self.spec_family(),
    {
        self.family.as_str()
    }

    /// The style it is registered under.
    pub fn style(&self) -> (r: FontStyle)
        ensures
            r == self.spec_style(),
    {
        self.style
    }

    /// The index of the face within the file.
    pub fn face_index(&self) -> (r: u32)
        ensures
            r == self.spec_face_index(),
    {
        self.index
    }
}

/// Whether the font `i` of `fonts` is registered under `family` and `style`.
pub open spec fn registered_as(fonts: Seq<RegisteredFont>, i: int, family: Seq<char>, style: FontStyle) -> bool {
    fonts[i].spec_family() == family && fonts[i].spec_style() == style
}

/// The last index below `end` of a font of `fonts` registered under
/// `family` and `style`, if any.
pub open spec fn last_registered(
    fonts: Seq<RegisteredFont>,
    end: int,
    family: Seq<char>,
    style: FontStyle,
) -> Option<int>
    decreases end,
{
    if end <= 0 {
        None
    } else if registered_as(fonts, end - 1, family, style) {
        Some(end - 1)
    } else {
        last_registered(fonts, end - 1, family, style)
    }
}

/// The font that a lookup of `family` and `style` finds among `fonts`: the
/// last one registered under both; else, for a style other than normal, the
/// last one registered under the family in the normal style.
pub open spec fn registered_font_index(fonts: Seq<RegisteredFont>, family: Seq<char>, style: FontStyle) -> Option<int> {
    match last_registered(fonts, fonts.len() as int, family, style) {
        Some(i) => Some(i),
        None => if style != FontStyle::Normal {
            last_registered(fonts, fonts.len() as int, family, FontStyle::Normal)
        } else {
            None
        },
    }
}

/// Look up the font of `family` and `style` among `fonts`: the last one
/// registered under both, else, for a style other than normal, the last one
/// registered under the family in the normal style.
pub fn find_registered_font<'a>(
    fonts: &'a [RegisteredFont],
    family: FontFamily<'_>,
    style: FontStyle,
) -> (r: Option<&'a RegisteredFont>)
    ensures
        r is Some <==> registered_font_index(fonts@, family.spec_as_str(), style) is Some,
        r is Some ==> *r.unwrap() == fonts@[registered_font_index(
            fonts@,
            family.spec_as_str(),
            style,
        ).unwrap()],
{
    let family_name = family.as_str().to_owned();
    let ghost f = family.spec_as_str();
    let mut fallback: Option<&'a RegisteredFont> = None;
    let mut i = fonts.len();
    while i > 0
        invariant
            i <= fonts@.len(),
            family_name@ == f,
            f == family.spec_as_str(),
            last_registered(fonts@, fonts@.len() as int, f, style) == last_registered(
                fonts@,
                i as int,
                f,
                style,
            ),
            style != FontStyle::Normal ==> (match fallback {
                Some(font) => exists|j: int|
                    i <= j < fonts@.len() && font == &fonts@[j] && last_registered(
                        fonts@,
                        fonts@.len() as int,
                        f,
                        FontStyle::Normal,
                    ) == Some(j),
                None => last_registered(fonts@, fonts@.len() as int, f, FontStyle::Normal)
                    == last_registered(fonts@, i as int, f, FontStyle::Normal),
            }),
            style == FontStyle::Normal ==> fallback is None,
        decreases i,
    {
        let font = &fonts[i - 1];
        if font.family == family_name {
            if font.style == style {
                proof {
                    assert(registered_as(fonts@, i - 1, f, style));
                    assert(last_registered(fonts@, i as int, f, style) == Some(i - 1));
                    assert(registered_font_index(fonts@, f, style) == Some(i - 1));
                    assert(*font == fonts@[i - 1]);
                }
                return Some(font);
            }
            if fallback.is_none() && style != FontStyle::Normal && font.style == FontStyle::Normal {
                fallback = Some(font);
            }
        }
        i = i - 1;
    }
    fallback
}


/// Where a font context takes the font of a family and style from: the last
/// matching font registered with the context; else, where the context
/// includes the process-wide registry, the last matching font registered
/// there; else, where system fonts are disabled, an error (the font is not in
/// the context where the context has fonts of its own or includes the
/// registry, else system fonts are disabled); else `None`: the system font
/// source is to be asked. Matching is as `find_registered_font` does it.
pub fn resolve_registered_source<'a>(
    explicit: &'a [RegisteredFont],
    registry: &'a [RegisteredFont],
    family: FontFamily<'_>,
    style: FontStyle,
    enable_system: bool,
    include_registered: bool,
) -> (r: Result<Option<&'a RegisteredFont>, FontError>)
    ensures
        ({
            let f = family.spec_as_str();
            let in_explicit = registered_font_index(explicit@, f, style);
            let in_registry = registered_font_index(registry@, f, style);
            if in_explicit is Some {
                r == Ok::<Option<&RegisteredFont>, FontError>(Some(&explicit@[in_explicit.unwrap()]))
            } else if include_registered && in_registry is Some {
                r == Ok::<Option<&RegisteredFont>, FontError>(Some(&registry@[in_registry.unwrap()]))
            } else if !enable_system {
                if explicit@.len() > 0 || include_registered {
                    r matches Err(FontError::NotInContext { family: fam, style: sty }) && fam@ == f
                        && sty@ == style.spec_as_str()
                } else {
                    r matches Err(FontError::SystemFontsDisabled { family: fam }) && fam@ == f
                }
            } else {
                r == Ok::<Option<&RegisteredFont>, FontError>(None)
            }
        }),
{
    if let Some(font) = find_registered_font(explicit, family, style) {
        return Ok(Some(font));
    }
    if include_registered {
        if let Some(font) = find_registered_font(registry, family, style) {
            return Ok(Some(font));
        }
    }
    if !enable_system {
        if explicit.len() > 0 || include_registered {
            return Err(
                FontError::NotInContext {
                    family: family.as_str().to_owned(),
                    style: style.as_str().to_owned(),
                },
            );
        }
        return Err(FontError::SystemFontsDisabled { family: family.as_str().to_owned() });
    }
    Ok(None)
}

/// The font that the system font source gave for `family` and `style`,
/// registered under them; where it gave none, the font is not in the context.
pub fn font_from_candidate(family: FontFamily<'_>, style: FontStyle, candidate: Option<FontCandidate>) -> (r: Result<RegisteredFont, FontError>)
    ensures
        match candidate {
            Some(c) => r matches Ok(font) && font.spec_family() == family.spec_as_str()
                && font.spec_style() == style && font.spec_data() == (*c.data)@
                && font.spec_face_index() == c.index,
            None => r matches Err(FontError::NotInContext { family: fam, style: sty }) && fam@
                == family.spec_as_str() && sty@ == style.spec_as_str(),
        },
{
    match candidate {
        Some(c) => Ok(RegisteredFont::new(family.as_str().to_owned(), style, c.data, c.index)),
        None => Err(
            FontError::NotInContext {
                family: family.as_str().to_owned(),
                style: style.as_str().to_owned(),
            },
        ),
    }
}

/// The number of subpixel positions cached per axis.
pub const SUBPIXEL_LEVELS: u32 = 4;

/// A position counted in quarters of a pixel, split into the pixel and the
/// quarter within it: Euclidean division, so that the quarter is never negative.
pub open spec fn spec_split_quantized(total: int) -> (int, int) {
    (total / (SUBPIXEL_LEVELS as int), total % (SUBPIXEL_LEVELS as int))
}

/// Split a position given in quarters of a pixel into the integer pixel and
/// the quantized subpixel offset; carry into the integer part is handled by
/// Euclidean division, so negative coordinates behave too.
pub fn split_quantized(total: i32) -> (r: (i32, u8))
    ensures
        (r.0 as int, r.1 as int) == spec_split_quantized(total as int),
        r.0 * (SUBPIXEL_LEVELS as int) + r.1 == total,
        r.1 < SUBPIXEL_LEVELS,
{
    let levels = SUBPIXEL_LEVELS as i32;
    let (int_part, quantum) = if total >= 0 {
        (total / levels, total % levels)
    } else {
        let p = -(total + 1);
        (-(p / levels) - 1, levels - 1 - p % levels)
    };
    proof {
        if total < 0 {
            let p = -(total + 1);
            assert(p == 4 * (p / 4) + p % 4);
            assert(total == 4 * int_part + quantum);
            assert(0 <= quantum < 4);
            assert(int_part == total / 4 && quantum == total % 4) by {
                vstd::arithmetic::div_mod::lemma_fundamental_div_mod_converse(
                    total as int,
                    4,
                    int_part as int,
                    quantum as int,
                );
            }
        }
    }
    (int_part, quantum as u8)
}

/// The pixel of the mask cell at `row` and `col`, drawn at `base` moved by
/// the glyph's offset `glyph`: its position and coverage.
pub open spec fn mask_pixel(mask: CoverageMask, base: (i32, i32), glyph: (i32, i32), row: int, col: int) -> (i32, i32, u8) {
    (
        (base.0 + glyph.0 + mask.left + col) as i32,
        (base.1 + glyph.1 + mask.top + row) as i32,
        mask.data@[row * (mask.width as int) + col],
    )
}

/// The covered pixels of the first `cols` cells of the mask row `row`, left
/// to right.
pub open spec fn row_pixels(mask: CoverageMask, base: (i32, i32), glyph: (i32, i32), row: int, cols: int) -> Seq<(i32, i32, u8)>
    decreases cols,
{
    if cols <= 0 {
        Seq::empty()
    } else {
        let before = row_pixels(mask, base, glyph, row, cols - 1);
        if mask.data@[row * (mask.width as int) + cols - 1] == 0 {
            before
        } else {
            before.push(mask_pixel(mask, base, glyph, row, cols - 1))
        }
    }
}

/// The covered pixels of the first `rows` rows of the mask, row by row.
pub open spec fn mask_pixels(mask: CoverageMask, base: (i32, i32), glyph: (i32, i32), rows: int) -> Seq<(i32, i32, u8)>
    decreases rows,
{
    if rows <= 0 {
        Seq::empty()
    } else {
        mask_pixels(mask, base, glyph, rows - 1) + row_pixels(
            mask,
            base,
            glyph,
            rows - 1,
            mask.width as int,
        )
    }
}

/// Whether the pixels of the mask can be computed: the mask holds a byte per
/// cell, its cells are numbered within `u32`, and every position fits `i32`.
pub open spec fn glyph_pixels_ok(mask: CoverageMask, base: (i32, i32), glyph: (i32, i32)) -> bool {
    &&& mask.width * mask.height <= mask.data@.len()
    &&& mask.width * mask.height <= u32::MAX + 1
    &&& mask.width <= i32::MAX
    &&& mask.height <= i32::MAX
    &&& i32::MIN <= base.0 + glyph.0 <= i32::MAX
    &&& i32::MIN <= base.0 + glyph.0 + mask.left
    &&& base.0 + glyph.0 + mask.left + mask.width <= i32::MAX
    &&& i32::MIN <= base.1 + glyph.1 <= i32::MAX
    &&& i32::MIN <= base.1 + glyph.1 + mask.top
    &&& base.1 + glyph.1 + mask.top + mask.height <= i32::MAX
}

/// The pixels that drawing the glyph mask `mask` at `base`, moved by the
/// glyph's offset `glyph`, covers: row by row, left to right, each with its
/// position and its coverage; cells of coverage zero are left out.
pub fn glyph_pixels(mask: &CoverageMask, base: (i32, i32), glyph: (i32, i32)) -> (r: Vec<(i32, i32, u8)>)
    requires
        glyph_pixels_ok(*mask, base, glyph),
    ensures
        r@ == mask_pixels(*mask, base, glyph, mask.height as int),
{
    let mut out: Vec<(i32, i32, u8)> = Vec::new();
    let mut row: u32 = 0;
    while row < mask.height
        invariant
            glyph_pixels_ok(*mask, base, glyph),
            row <= mask.height,
            out@ == mask_pixels(*mask, base, glyph, row as int),
        decreases mask.height - row,
    {
        let mut col: u32 = 0;
        while col < mask.width
            invariant
                glyph_pixels_ok(*mask, base, glyph),
                row < mask.height,
                col <= mask.width,
                out@ == mask_pixels(*mask, base, glyph, row as int) + row_pixels(
                    *mask,
                    base,
                    glyph,
                    row as int,
                    col as int,
                ),
            decreases mask.width - col,
        {
            assert(row * mask.width + col < mask.width * mask.height) by (nonlinear_arith)
                requires
                    row < mask.height,
                    col < mask.width,
            ;
            let index = (row * mask.width + col) as usize;
            let coverage = mask.data[index];
            let ghost before = out@;
            if coverage != 0 {
                let x = base.0 + glyph.0 + mask.left + col as i32;
                let y = base.1 + glyph.1 + mask.top + row as i32;
                out.push((x, y, coverage));
                proof {
                    assert(out@ =~= mask_pixels(*mask, base, glyph, row as int) + row_pixels(
                        *mask,
                        base,
                        glyph,
                        row as int,
                        col + 1,
                    ));
                }
            } else {
                proof {
                    assert(row_pixels(*mask, base, glyph, row as int, col + 1) == row_pixels(
                        *mask,
                        base,
                        glyph,
                        row as int,
                        col as int,
                    ));
                }
            }
            col = col + 1;
        }
        row = row + 1;
    }
    out
}

} // verus!
