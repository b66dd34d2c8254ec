//! The wrappers of figures rendered for display in a notebook.

use vstd::prelude::*;
use vstd::string::StringExecFns;

use image::ImageError;

verus! {

/// The wrapper for a rendered SVG figure: the SVG text and the CSS style of
/// the element that shows it.
pub struct SVGWrapper(String, String);

/// The notebook content that shows the SVG text `svg` in a `div` of style
/// `style`.
pub open spec fn svg_content(svg: Seq<char>, style: Seq<char>) -> Seq<char> {
    "EVCXR_BEGIN_CONTENT text/html\n<div style=\""@ + style + "\">"@ + svg + "</div>\nEVCXR_END_CONTENT"@
}

impl SVGWrapper {
    /// The SVG text.
    pub closed spec fn spec_svg(&self) -> Seq<char> {
        self.0@
    }

    /// The CSS style.
    pub closed spec fn spec_style(&self) -> Seq<char> {
        self.1@
    }

    /// The wrapper of the SVG text `svg`, with no style.
    pub fn new(svg: String) -> (r: Self)
        ensures
            r.spec_svg() == svg@,
            r.spec_style() == Seq::<char>::empty(),
    {
        SVGWrapper(svg, String::new())
    }

    /// Sets the style of the `SVGWrapper` struct.
    pub fn style(self, style: &str) -> (r: Self)
        ensures
            r.spec_svg() == self.spec_svg(),
            r.spec_style() == style@,
    {
        SVGWrapper(self.0, style.to_owned())
    }

    /// The notebook content that displays the figure.
    pub fn content(&self) -> (r: String)
        ensures
            r@ == svg_content(self.spec_svg(), self.spec_style()),
    {
        let s = "EVCXR_BEGIN_CONTENT text/html\n<div style=\"".to_owned();
        let s = s.concat(self.1.as_str());
        let s = s.concat("\">");
        let s = s.concat(self.0.as_str());
        s.concat("</div>\nEVCXR_END_CONTENT")
    }
}

/// The wrapper for a rendered bitmap figure: the base64 text of its PNG
/// encoding and the CSS style of the image element that shows it.
pub struct BitMapWrapper(String, String);

/// The notebook content that shows the base64 PNG text `png` in an `img` of
/// style `style`.
pub open spec fn bitmap_content(png: Seq<char>, style: Seq<char>) -> Seq<char> {
    "EVCXR_BEGIN_CONTENT text/html\n<img style=\""@ + style + "\" src=\"data:image/png;base64,"@
        + png + "\"/>\nEVCXR_END_CONTENT"@
}

impl BitMapWrapper {
    /// The base64 text of the PNG encoding.
    pub closed spec fn spec_png(&self) -> Seq<char> {
        self.0@
    }

    /// The CSS style.
    pub closed spec fn spec_style(&self) -> Seq<char> {
        self.1@
    }

    /// The wrapper of the base64 PNG text `png`, with no style.
    pub fn new(png: String) -> (r: Self)
        ensures
            r.spec_png() == png@,
            r.spec_style() == Seq::<char>::empty(),
    {
        BitMapWrapper(png, String::new())
    }

    /// Sets the style of the `BitMapWrapper` struct.
    pub fn style(self, style: &str) -> (r: Self)
        ensures
            r.spec_png() == self.spec_png(),
            r.spec_style() == style@,
    {
        BitMapWrapper(self.0, style.to_owned())
    }

    /// The notebook content that displays the figure.
    pub fn content(&self) -> (r: String)
        ensures
            r@ == bitmap_content(self.spec_png(), self.spec_style()),
    {
        let s = "EVCXR_BEGIN_CONTENT text/html\n<img style=\"".to_owned();
        let s = s.concat(self.1.as_str());
        let s = s.concat("\" src=\"data:image/png;base64,");
        let s = s.concat(self.0.as_str());
        s.concat("\"/>\nEVCXR_END_CONTENT")
    }
}

/// The character of the digit `v` (0 to 63) of the standard base64
/// alphabet: `A`-`Z`, `a`-`z`, `0`-`9`, `+` and `/`.
pub open spec fn base64_digit(v: int) -> char {
    if v < 26 {
        (65 + v) as char
    } else if v < 52 {
        (97 + v - 26) as char
    } else if v < 62 {
        (48 + v - 52) as char
    } else if v == 62 {
        '+'
    } else {
        '/'
    }
}

/// The standard base64 encoding of `s`, padded with `=`: every three bytes
/// become four digits of six bits each, and a last group of one or two bytes
/// becomes two or three digits followed by `=` up to four characters.
pub open spec fn base64_standard(s: Seq<u8>) -> Seq<char>
    decreases s.len(),
{
    if s.len() == 0 {
        Seq::empty()
    } else {
        let b0 = s[0] as int;
        let b1 = if s.len() > 1 {
            s[1] as int
        } else {
            0
        };
        let b2 = if s.len() > 2 {
            s[2] as int
        } else {
            0
        };
        if s.len() == 1 {
            seq![base64_digit(b0 / 4), base64_digit((b0 % 4) * 16), '=', '=']
        } else if s.len() == 2 {
            seq![
                base64_digit(b0 / 4),
                base64_digit((b0 % 4) * 16 + b1 / 16),
                base64_digit((b1 % 16) * 4),
                '=',
            ]
        } else {
            seq![
                base64_digit(b0 / 4),
                base64_digit((b0 % 4) * 16 + b1 / 16),
                base64_digit((b1 % 16) * 4 + b2 / 64),
                base64_digit(b2 % 64),
            ] + base64_standard(s.subrange(3, s.len() as int))
        }
    }
}

/// `base64::encode`: the standard base64 encoding of `data`, with padding.
/// The encoding panics where the length of its output does not fit `usize`.
#[verifier::external_body]
fn base64_encode(data: &[u8]) -> (r: String)
    requires
        data@.len() / 3 * 4 + 4 <= usize::MAX,
    ensures
        r@ == base64_standard(data@),
{
    base64::encode(data)
}

/// The PNG file that `image::png::PngEncoder`, with its fast compression and
/// its sub filter, writes for the 8-bit RGB image of `width` x `height`
/// pixels `pixels`, or `None` where the encoder refuses the image. Writing
/// into a `Vec` cannot fail, so whether the encoder refuses depends on the
/// image alone.
pub uninterp spec fn png_rgb_encoding(pixels: Seq<u8>, width: u32, height: u32) -> Option<Seq<u8>>;

/// The error of an image operation.
#[verifier::external_type_specification]
#[verifier::external_body]
pub struct ExImageError(ImageError);

/// `image::png::PngEncoder::encode`, writing into a `Vec`: the PNG encoding
/// of the 8-bit RGB image of `width` x `height` pixels `pixels`, or the
/// encoder's error, as the name `png_rgb_encoding` gives them. The encoder
/// refuses an image of zero width or zero height; which other images it
/// refuses is left to the name.
#[verifier::external_body]
fn encode_png_rgb(pixels: &[u8], width: u32, height: u32) -> (r: Result<Vec<u8>, ImageError>)
    requires
        pixels@.len() == width * height * 3,
    ensures
        r is Ok <==> png_rgb_encoding(pixels@, width, height) is Some,
        r matches Ok(png) ==> png_rgb_encoding(pixels@, width, height) == Some(png@),
        width == 0 || height == 0 ==> r is Err,
{
    let mut buf = Vec::new();
    match image::png::PngEncoder::new(&mut buf).encode(pixels, width, height, image::ColorType::Rgb8) {
        Ok(()) => Ok(buf),
        Err(e) => Err(e),
    }
}

/// The notebook figure of the PNG file `png`: the base64 text of its bytes,
/// with no style. It is `None` where the base64 text would not fit in memory.
pub fn bitmap_figure_from_png(png: &[u8]) -> (r: Option<BitMapWrapper>)
    ensures
        r is Some <==> png@.len() / 3 <= usize::MAX / 4 - 1,
        r matches Some(figure) ==> figure.spec_png() == base64_standard(png@)
            && figure.spec_style() == Seq::<char>::empty(),
{
    if png.len() / 3 > usize::MAX / 4 - 1 {
        return None;
    }
    Some(BitMapWrapper::new(base64_encode(png)))
}

/// The notebook figure of the 8-bit RGB bitmap `pixels` of `width` x
/// `height` pixels: the base64 text of its PNG encoding, with no style. It is
/// `None` where the PNG encoder refuses the image (always for an image of
/// zero width or height), or where the base64 text would not fit in memory.
pub fn bitmap_figure_from_rgb(pixels: Vec<u8>, width: u32, height: u32) -> (r: Option<BitMapWrapper>)
    requires
        pixels@.len() == width * height * 3,
    ensures
        r is Some <==> (png_rgb_encoding(pixels@, width, height) matches Some(png) && png.len() / 3
            <= usize::MAX / 4 - 1),
        r matches Some(figure) ==> png_rgb_encoding(pixels@, width, height) matches Some(png)
            && figure.spec_png() == base64_standard(png) && figure.spec_style() == Seq::<
            char,
        >::empty(),
        width == 0 || height == 0 ==> r is None,
{
    match encode_png_rgb(pixels.as_slice(), width, height) {
        Ok(png) => bitmap_figure_from_png(png.as_slice()),
        Err(_) => None,
    }
}

} // verus!
