use std::sync::Arc;

use plotters::style::font::context::{
    font_from_candidate, glyph_pixels, resolve_registered_source, split_quantized, RegisteredFont,
};
use plotters::style::font::engine::{CoverageMask, FontError};
use plotters::style::font::harfrust_engine::{font_data_verdict, HarfrustEngine};
use plotters::style::font::migration::InvalidFont;
use plotters::style::font::system::{
    attributes, query_families, FontCandidate, FontSlant, FontWeight, GenericFamily, QueryFamily,
};
use plotters::style::font::ttf;
use plotters::style::font::web;
use plotters::style::font::{FontFamily, FontStyle};

#[test]
fn font_error_messages() {
    assert_eq!(
        FontError::InvalidFontData("bad magic".to_string()).message(),
        "invalid font data: bad magic"
    );
    assert_eq!(FontError::InvalidFontIndex(0).message(), "invalid font index: 0");
    assert_eq!(FontError::InvalidFontIndex(7).message(), "invalid font index: 7");
    assert_eq!(FontError::InvalidFontIndex(1204).message(), "invalid font index: 1204");
    assert_eq!(
        FontError::InvalidFontIndex(u32::MAX).message(),
        format!("invalid font index: {}", u32::MAX)
    );
    assert_eq!(
        FontError::NotInContext { family: "Arial".to_string(), style: "bold".to_string() }
            .message(),
        "font is not in context: Arial bold"
    );
    assert_eq!(
        FontError::SystemFontsDisabled { family: "serif".to_string() }.message(),
        "system fonts are disabled for family: serif"
    );
    assert_eq!(
        FontError::FontUnavailable { family: "Mono".to_string(), style: "italic".to_string() }
            .message(),
        "font is unavailable: Mono italic"
    );
    assert_eq!(
        FontError::RasterizeError("no outline".to_string()).message(),
        "failed to rasterize glyph: no outline"
    );
    assert_eq!(FontError::LockError.message(), "failed to lock font state");
    assert_eq!(web::FontError::UnknownError.message(), "Unknown error");
}

#[test]
fn invalid_font_messages_and_source() {
    let e = InvalidFont::parse(FontError::InvalidFontIndex(3));
    assert_eq!(e.message(), "failed to register font: invalid font index: 3");
    assert_eq!(e.source(), Some(&FontError::InvalidFontIndex(3)));
    let e = InvalidFont::registry_lock("poisoned".to_string());
    assert_eq!(e.message(), "failed to lock registered font registry: poisoned");
    assert!(e.source().is_none());
}

fn font(family: &str, style: FontStyle, index: u32) -> RegisteredFont {
    RegisteredFont::new(family.to_string(), style, Arc::new(vec![1, 2, 3]), index)
}

#[test]
fn source_resolution_order() {
    let explicit = vec![font("Fixture", FontStyle::Normal, 0)];
    let registry = vec![font("Legacy", FontStyle::Normal, 5)];
    let r = resolve_registered_source(&explicit, &registry, FontFamily::Name("Fixture"), FontStyle::Bold, false, false);
    assert_eq!(r.unwrap().unwrap().face_index(), 0);
    let r = resolve_registered_source(&explicit, &registry, FontFamily::Name("Legacy"), FontStyle::Normal, true, true);
    assert_eq!(r.unwrap().unwrap().face_index(), 5);
    let r = resolve_registered_source(&explicit, &registry, FontFamily::Name("Legacy"), FontStyle::Normal, true, false);
    assert!(r.unwrap().is_none());
    let r = resolve_registered_source(&explicit, &registry, FontFamily::Serif, FontStyle::Italic, false, false);
    assert_eq!(
        r.err(),
        Some(FontError::NotInContext { family: "serif".to_string(), style: "italic".to_string() })
    );
    let r = resolve_registered_source(&[], &registry, FontFamily::Serif, FontStyle::Normal, false, false);
    assert_eq!(r.err(), Some(FontError::SystemFontsDisabled { family: "serif".to_string() }));
    let r = resolve_registered_source(&[], &registry, FontFamily::Serif, FontStyle::Normal, false, true);
    assert_eq!(
        r.err(),
        Some(FontError::NotInContext { family: "serif".to_string(), style: "normal".to_string() })
    );
}

#[test]
fn system_candidates_become_fonts() {
    let c = FontCandidate { data: Arc::new(vec![9, 9]), index: 2 };
    let f = font_from_candidate(FontFamily::SansSerif, FontStyle::Oblique, Some(c)).unwrap();
    assert_eq!(f.family(), "sans-serif");
    assert_eq!(f.style(), FontStyle::Oblique);
    assert_eq!(f.face_index(), 2);
    let e = font_from_candidate(FontFamily::Name("Calibri"), FontStyle::Normal, None);
    assert_eq!(
        e.err(),
        Some(FontError::NotInContext { family: "Calibri".to_string(), style: "normal".to_string() })
    );
}

#[test]
fn quantized_positions_split() {
    assert_eq!(split_quantized(0), (0, 0));
    assert_eq!(split_quantized(1), (0, 1));
    assert_eq!(split_quantized(2), (0, 2));
    assert_eq!(split_quantized(3), (0, 3));
    assert_eq!(split_quantized(4), (1, 0));
    assert_eq!(split_quantized(34), (8, 2));
    assert_eq!(split_quantized(-2), (-1, 2));
    assert_eq!(split_quantized(-4), (-1, 0));
    assert_eq!(split_quantized(i32::MIN), (i32::MIN / 4, 0));
    assert_eq!(split_quantized(i32::MAX), (i32::MAX / 4, 3));
}

#[test]
fn glyph_mask_covered_pixels() {
    let mask = CoverageMask { left: -1, top: 2, width: 3, height: 2, data: vec![0, 255, 10, 7, 0, 0] };
    assert_eq!(
        glyph_pixels(&mask, (100, 200), (5, -3)),
        vec![(105, 199, 255), (106, 199, 10), (104, 200, 7)]
    );
    let empty = CoverageMask { left: 0, top: 0, width: 0, height: 4, data: vec![] };
    assert!(glyph_pixels(&empty, (0, 0), (0, 0)).is_empty());
}

#[test]
fn engine_refuses_data_that_is_no_font() {
    match HarfrustEngine.parse(Arc::new(vec![]), 0) {
        Err(FontError::InvalidFontData(msg)) => assert!(!msg.is_empty()),
        _ => panic!("empty data is no font"),
    }
    match HarfrustEngine.parse(Arc::new(vec![0u8; 64]), 3) {
        Err(FontError::InvalidFontData(_)) => {}
        _ => panic!("zeros are no font"),
    }
}

#[test]
fn font_data_verdicts() {
    assert_eq!(font_data_verdict(None, None), Ok(()));
    assert_eq!(
        font_data_verdict(Some("a".to_string()), Some("b".to_string())),
        Err(FontError::InvalidFontData("a".to_string()))
    );
    assert_eq!(
        font_data_verdict(None, Some("b".to_string())),
        Err(FontError::InvalidFontData("b".to_string()))
    );
}

#[test]
fn system_font_queries() {
    assert_eq!(
        query_families(FontFamily::Serif),
        vec![
            QueryFamily::Generic(GenericFamily::Serif),
            QueryFamily::Generic(GenericFamily::SansSerif)
        ]
    );
    assert_eq!(
        query_families(FontFamily::SansSerif),
        vec![QueryFamily::Generic(GenericFamily::SansSerif)]
    );
    assert_eq!(
        query_families(FontFamily::Name("Calibri")),
        vec![QueryFamily::Named("Calibri"), QueryFamily::Generic(GenericFamily::SansSerif)]
    );
    assert_eq!(attributes(FontStyle::Bold), (FontSlant::Normal, FontWeight::Bold));
    assert_eq!(attributes(FontStyle::Oblique), (FontSlant::Oblique, FontWeight::Normal));
    assert_eq!(attributes(FontStyle::Italic), (FontSlant::Italic, FontWeight::Normal));
}

#[test]
fn system_backend_error_messages() {
    assert_eq!(ttf::FontError::LockError.message(), "could not lock mutex");
    assert_eq!(
        ttf::FontError::NoSuchFont("serif".to_string(), "bold".to_string()).message(),
        "no such font: serif bold"
    );
    assert_eq!(
        ttf::FontError::FontLoadError("gone".to_string()).message(),
        "font loading error: gone"
    );
    assert_eq!(
        ttf::FontError::FaceParseError("bad".to_string()).message(),
        "font face parse error: bad"
    );
}

#[test]
fn explicit_font_resolves_without_system_fonts() {
    // A context with one font of its own and system fonts disabled: the
    // font's family resolves to it, any other family is not in the context.
    // The text bounds come from shaping the resolved font.
    let explicit = vec![font("Fixture", FontStyle::Normal, 0)];
    let r = resolve_registered_source(&explicit, &[], FontFamily::Name("Fixture"), FontStyle::Normal, false, false);
    let found = r.unwrap().unwrap();
    assert_eq!(found.family(), "Fixture");
    assert_eq!(found.style(), FontStyle::Normal);

    let err = resolve_registered_source(&explicit, &[], FontFamily::Name("Missing"), FontStyle::Normal, false, false)
        .err()
        .unwrap();
    assert!(matches!(err, FontError::NotInContext { .. }));
}

/// A position in pixels, counted in quarters of a pixel to the nearest one.
fn quarters(pos: f32) -> i32 {
    (pos * 4.0).round() as i32
}

#[test]
fn split_subpixel_rounds_to_quantum() {
    assert_eq!(split_quantized(quarters(0.0)), (0, 0));
    assert_eq!(split_quantized(quarters(0.25)), (0, 1));
    assert_eq!(split_quantized(quarters(0.5)), (0, 2));
    assert_eq!(split_quantized(quarters(0.75)), (0, 3));
    // Rounding into the next pixel carries into the integer part.
    assert_eq!(split_quantized(quarters(0.99)), (1, 0));
    assert_eq!(split_quantized(quarters(8.4)), (8, 2));
    // Negative coordinates use Euclidean remainder so the quantum stays
    // non-negative.
    let (int_part, quantum) = split_quantized(quarters(-0.1));
    assert_eq!((int_part, quantum), (0, 0));
    let (int_part, quantum) = split_quantized(quarters(-0.6));
    assert_eq!((int_part, quantum), (-1, 2));
}
