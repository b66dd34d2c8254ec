use std::sync::Arc;

use plotters::chart::builder::LabelAreaPosition;
use plotters::chart::cartesian3d::Coord3D;
use plotters::chart::layout::AxisSpecs;
use plotters::chart::series::SeriesLabelPosition;
use plotters::coord::ticks::SimpleLinearAxis;
use plotters::style::color::{HSLColorError, RGBColor};
use plotters::style::colormaps::DerivedColorMap;
use plotters::style::evcxr::{bitmap_figure_from_png, bitmap_figure_from_rgb, SVGWrapper};
use plotters::style::font::context::{find_registered_font, RegisteredFont};
use plotters::style::font::engine::empty_mask;
use plotters::style::font::ttf::{cache_key, FontExt, SystemFontData};
use plotters::style::font::{FontFamily, FontStyle};

#[test]
fn rgb_components() {
    assert_eq!(RGBColor(1, 2, 3).rgb(), (1, 2, 3));
}

#[test]
fn hsl_error_messages() {
    assert_eq!(HSLColorError::NonFiniteHue.message(), "hue must be finite");
    assert_eq!(HSLColorError::SaturationOutOfRange.message(), "saturation must be in [0, 1]");
    assert_eq!(HSLColorError::LightnessOutOfRange.message(), "lightness must be in [0, 1]");
}

#[test]
fn derived_color_map_keeps_colors() {
    let colors = [RGBColor(0, 0, 0), RGBColor(255, 0, 0), RGBColor(0, 0, 255)];
    let map = DerivedColorMap::new(&colors);
    assert_eq!(map.colors(), &colors);
}

#[test]
fn font_cache_keys() {
    assert_eq!(cache_key(FontFamily::Serif, FontStyle::Normal), "serif");
    assert_eq!(cache_key(FontFamily::Name("Arial"), FontStyle::Bold), "Arial, bold");
    assert_eq!(cache_key(FontFamily::Monospace, FontStyle::Italic), "monospace, italic");
    assert_eq!(FontFamily::SansSerif.as_str(), "sans-serif");
    assert_eq!(FontStyle::Oblique.as_str(), "oblique");
}

#[test]
fn registered_font_lookup() {
    let data = Arc::new(vec![0u8; 4]);
    let fonts = vec![
        RegisteredFont::new("Arial".to_string(), FontStyle::Normal, data.clone(), 0),
        RegisteredFont::new("Arial".to_string(), FontStyle::Bold, data.clone(), 1),
        RegisteredFont::new("Arial".to_string(), FontStyle::Normal, data.clone(), 2),
        RegisteredFont::new("Mono".to_string(), FontStyle::Italic, data.clone(), 3),
    ];
    let f = find_registered_font(&fonts, FontFamily::Name("Arial"), FontStyle::Bold).unwrap();
    assert_eq!(f.face_index(), 1);
    let f = find_registered_font(&fonts, FontFamily::Name("Arial"), FontStyle::Normal).unwrap();
    assert_eq!(f.face_index(), 2);
    let f = find_registered_font(&fonts, FontFamily::Name("Arial"), FontStyle::Italic).unwrap();
    assert_eq!(f.face_index(), 2);
    assert_eq!(f.family(), "Arial");
    assert_eq!(f.style(), FontStyle::Normal);
    assert!(find_registered_font(&fonts, FontFamily::Name("Mono"), FontStyle::Normal).is_none());
    assert!(find_registered_font(&fonts, FontFamily::Serif, FontStyle::Normal).is_none());
}

#[test]
fn loaded_font_ids() {
    let data = SystemFontData { bytes: Arc::new(vec![1, 2, 3]), index: 3, id: 7 };
    let font = FontExt::from_data(data);
    assert_eq!(font.cache_id(), [7, 3]);
    assert_eq!(font.bytes(), &[1, 2, 3]);
    assert_eq!(font.index(), 3);
}

#[test]
fn empty_coverage_mask() {
    let m = empty_mask();
    assert_eq!((m.left, m.top, m.width, m.height), (0, 0, 0, 0));
    assert!(m.data.is_empty());
}

#[test]
fn svg_figure_content() {
    let w = SVGWrapper::new("<svg/>".to_string()).style("width:10px");
    assert_eq!(
        w.content(),
        "EVCXR_BEGIN_CONTENT text/html\n<div style=\"width:10px\"><svg/></div>\nEVCXR_END_CONTENT"
    );
}

#[test]
fn bitmap_figure_encodes_base64() {
    let fig = bitmap_figure_from_png(&[1, 2, 3, 4]).unwrap();
    assert_eq!(
        fig.content(),
        "EVCXR_BEGIN_CONTENT text/html\n<img style=\"\" src=\"data:image/png;base64,AQIDBA==\"/>\nEVCXR_END_CONTENT"
    );
    let fig = bitmap_figure_from_png(&[]).unwrap().style("x");
    assert_eq!(
        fig.content(),
        "EVCXR_BEGIN_CONTENT text/html\n<img style=\"x\" src=\"data:image/png;base64,\"/>\nEVCXR_END_CONTENT"
    );
}

#[test]
fn bitmap_figure_of_pixels_is_png() {
    let fig = bitmap_figure_from_rgb(vec![255, 0, 0], 1, 1).unwrap();
    assert!(fig.content().contains("base64,iVBORw0KGgo"));
    assert!(bitmap_figure_from_rgb(vec![], 0, 3).is_none());
    assert!(bitmap_figure_from_rgb(vec![], 2, 0).is_none());
}

#[test]
fn series_label_positions() {
    let label = (10, 20);
    let area = (100, 50);
    assert_eq!(SeriesLabelPosition::UpperRight.layout_label_area(label, area), (90, 0));
    assert_eq!(SeriesLabelPosition::MiddleRight.layout_label_area(label, area), (90, 15));
    assert_eq!(SeriesLabelPosition::LowerRight.layout_label_area(label, area), (90, 30));
    assert_eq!(SeriesLabelPosition::Coordinate(5, 6).layout_label_area(label, area), (5, 6));
    assert_eq!(SeriesLabelPosition::MiddleRight.layout_label_area((10, 61), area), (90, -5));
}

#[test]
fn label_area_indices() {
    assert_eq!(LabelAreaPosition::Top.index(), 0);
    assert_eq!(LabelAreaPosition::Bottom.index(), 1);
    assert_eq!(LabelAreaPosition::Left.index(), 2);
    assert_eq!(LabelAreaPosition::Right.index(), 3);
}

#[test]
fn blank_axis_specs() {
    let specs: AxisSpecs<u32> = AxisSpecs::new_blank();
    assert!(specs.left.is_none() && specs.right.is_none());
    assert!(specs.top.is_none() && specs.bottom.is_none());
}

#[test]
fn coord3d_parts() {
    let x: Coord3D<i32, u8, char> = Coord3D::X(4);
    let y: Coord3D<i32, u8, char> = Coord3D::Y(5);
    let z: Coord3D<i32, u8, char> = Coord3D::Z('z');
    assert_eq!(*x.get_x(), 4);
    assert_eq!(*y.get_y(), 5);
    assert_eq!(*z.get_z(), 'z');
    assert_eq!(Coord3D::build_coord([&x, &y, &z]), (4, 5, 'z'));
}

#[test]
fn simple_linear_axis_getters() {
    let axis = SimpleLinearAxis::new(5, 4, 0..100);
    assert_eq!(*axis.major_tick_spacing(), 5);
    assert_eq!(axis.minor_ticks_per_major_tick(), 4);
    assert_eq!(*axis.range(), 0..100);
}
