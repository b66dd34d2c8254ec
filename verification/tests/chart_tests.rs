use plotters::chart::builder::{ChartBuilder, LabelAreaPosition};
use plotters::chart::cartesian3d::{axis_panel, axis_tick_plan};
use plotters::chart::series::{legend_position, SeriesLabelPosition};
use plotters::chart::context::{
    element_context, is_overlapping_drawing_area, x_label_placement, y_label_placement,
    ElementContext,
};
use plotters::chart::layout::{
    border_lines, bottom_spill, left_spill, right_spill, ticks_extent, tick_drawing, tick_extent, top_spill, AxisSide,
    AxisSpecs, HAnchor, VAnchor,
};
use plotters::coord::ticks::TickKind;
use plotters::series::line_series::{LineSeries, SeriesElement};

#[test]
fn test_label_area_size() {
    let drawing_area = (200u32, 200u32);
    let mut chart: ChartBuilder<_, ()> = ChartBuilder::on(&drawing_area);

    chart
        .x_label_area_size(10)
        .y_label_area_size(20)
        .top_x_label_area_size(30)
        .right_y_label_area_size(40);
    assert_eq!(chart.label_area_size[1], 10);
    assert_eq!(chart.label_area_size[2], 20);
    assert_eq!(chart.label_area_size[0], 30);
    assert_eq!(chart.label_area_size[3], 40);

    chart.set_label_area_size(LabelAreaPosition::Left, 100);
    chart.set_label_area_size(LabelAreaPosition::Right, 200);
    chart.set_label_area_size(LabelAreaPosition::Top, 300);
    chart.set_label_area_size(LabelAreaPosition::Bottom, 400);

    assert_eq!(chart.label_area_size[0], 300);
    assert_eq!(chart.label_area_size[1], 400);
    assert_eq!(chart.label_area_size[2], 100);
    assert_eq!(chart.label_area_size[3], 200);
}

#[test]
fn test_margin_configure() {
    let drawing_area = (200u32, 200u32);
    let mut chart: ChartBuilder<_, ()> = ChartBuilder::on(&drawing_area);

    chart.margin(5);
    assert_eq!(chart.margin[0], 5);
    assert_eq!(chart.margin[1], 5);
    assert_eq!(chart.margin[2], 5);
    assert_eq!(chart.margin[3], 5);

    chart.margin_top(10);
    chart.margin_bottom(11);
    chart.margin_left(12);
    chart.margin_right(13);
    assert_eq!(chart.margin[0], 10);
    assert_eq!(chart.margin[1], 11);
    assert_eq!(chart.margin[2], 12);
    assert_eq!(chart.margin[3], 13);
}

#[test]
fn test_caption() {
    let drawing_area = (200u32, 200u32);
    let mut chart = ChartBuilder::on(&drawing_area);

    chart.caption("This is a test case", ("serif", 10));

    assert_eq!(chart.title.as_ref().unwrap().0, "This is a test case");
    assert_eq!(chart.title.as_ref().unwrap().1 .0, "serif");
    assert_eq!(chart.title.as_ref().unwrap().1 .1, 10);

    chart.caption("This is a test case", ("serif", 10));
    assert_eq!(chart.title.as_ref().unwrap().1 .0, "serif");
}

#[test]
fn negative_label_area_overlaps_plotting_area() {
    let area = ();
    let mut chart: ChartBuilder<_, ()> = ChartBuilder::on(&area);
    chart.set_label_area_size(LabelAreaPosition::Right, -30);
    assert_eq!(chart.label_area_size[3], 30);
    assert!(chart.overlap_plotting_area[3]);
    assert!(!chart.overlap_plotting_area[0]);
    chart.set_all_label_area_size(7);
    assert_eq!(chart.label_area_size, [7, 7, 7, 7]);
    assert_eq!(chart.overlap_plotting_area, [false; 4]);
    chart.set_left_and_bottom_label_area_size(-3);
    assert_eq!(chart.label_area_size, [7, 3, 3, 7]);
    assert_eq!(chart.overlap_plotting_area, [false, true, true, false]);
    chart.margin(-4);
    assert_eq!(chart.margin, [0, 0, 0, 0]);
}

#[test]
fn plotting_area_split() {
    let area = ();
    let mut chart: ChartBuilder<_, ()> = ChartBuilder::on(&area);
    chart.x_label_area_size(30).y_label_area_size(40).top_x_label_area_size(-10);
    let edges = chart.plotting_area_edges(300, 200);
    assert_eq!(edges, [0, 170, 40, 300]);
    assert_eq!(chart.overlapping_label_area(LabelAreaPosition::Top, 260, 170), Some(((0, 0), (260, 10))));
    assert_eq!(chart.overlapping_label_area(LabelAreaPosition::Bottom, 260, 170), None);
    chart.right_y_label_area_size(-20);
    assert_eq!(chart.overlapping_label_area(LabelAreaPosition::Right, 260, 170), Some(((240, 0), (20, 170))));
    chart.margin(5);
    assert_eq!(chart.plotting_area_position(edges, (0, 12)), (45, 17));
}

#[test]
fn tick_drawings_per_side() {
    let t = tick_drawing((100, 50), AxisSide::Left, TickKind::Major);
    assert_eq!(t.line, ((95, 50), (100, 50)));
    assert_eq!(t.label, Some(((92, 50), HAnchor::Right, VAnchor::Center)));
    let t = tick_drawing((100, 50), AxisSide::Right, TickKind::Minor);
    assert_eq!(t.line, ((100, 50), (103, 50)));
    assert_eq!(t.label, None);
    let t = tick_drawing((100, 50), AxisSide::Top, TickKind::Major);
    assert_eq!(t.line, ((100, 45), (100, 50)));
    assert_eq!(t.label, Some(((100, 42), HAnchor::Center, VAnchor::Bottom)));
    let t = tick_drawing((100, 50), AxisSide::Bottom, TickKind::Major);
    assert_eq!(t.line, ((100, 55), (100, 50)));
    assert_eq!(t.label, Some(((100, 58), HAnchor::Center, VAnchor::Top)));
}

#[test]
fn tick_label_spills() {
    let top = (-12, 0, 50, 10);
    let bottom = (-4, 90, 310, 100);
    assert_eq!(left_spill(top, bottom, (20, 5)), Some((32, 5)));
    assert_eq!(left_spill((0, 0, 1, 1), (3, 0, 4, 4), (20, 5)), None);
    assert_eq!(right_spill(300, top, bottom, (15, 0)), Some((25, 0)));
    assert_eq!(right_spill(400, top, bottom, (15, 0)), None);
    let left = (0, -6, 10, 180);
    let right = (300, -2, 320, 230);
    assert_eq!(top_spill(left, right, (0, 4)), Some((0, 6)));
    assert_eq!(top_spill(left, right, (0, 9)), Some((0, 9)));
    assert_eq!(bottom_spill(200, left, right, (0, 10)), Some((0, 30)));
    assert_eq!(bottom_spill(250, left, right, (0, 10)), None);
}

#[test]
fn mesh_label_placements() {
    assert_eq!(x_label_placement(150, 50, 0, 20, 300), Some(((100, 0), (100, 5), (90, 10))));
    assert_eq!(x_label_placement(50, 50, 0, 20, 300), None);
    assert_eq!(x_label_placement(345, 50, 0, 20, 300), None);
    assert_eq!(x_label_placement(150, 50, 7, 20, 300), Some(((100, 0), (100, 5), (97, 10))));
    assert_eq!(y_label_placement(80, 30, (25, 10), (60, 200)), Some(((25, 45), (55, 50), (60, 50))));
    assert_eq!(y_label_placement(20, 30, (25, 10), (60, 200)), None);
    assert_eq!(y_label_placement(236, 30, (25, 10), (60, 200)), None);
}

#[test]
fn label_area_overlap() {
    let plot = ((50, 50), (100, 100));
    assert!(is_overlapping_drawing_area(Some(((140, 60), (30, 30))), plot));
    assert!(!is_overlapping_drawing_area(Some(((150, 60), (30, 30))), plot));
    assert!(!is_overlapping_drawing_area(Some(((0, 0), (50, 200))), plot));
    assert!(!is_overlapping_drawing_area(None, plot));
    assert!(is_overlapping_drawing_area(Some(plot), plot));
    let a = ((140, 60), (30, 30));
    let b = ((150, 60), (30, 30));
    assert_eq!(
        is_overlapping_drawing_area(Some(a), plot),
        is_overlapping_drawing_area(Some(plot), a)
    );
    assert_eq!(
        is_overlapping_drawing_area(Some(b), plot),
        is_overlapping_drawing_area(Some(plot), b)
    );
}

#[test]
fn line_series_points_then_path() {
    let mut s = LineSeries::new(vec![(0, 0), (1, 2), (2, 4)], 'k').point_size(3);
    for i in 0..3 {
        match s.next() {
            Some(SeriesElement::Point(c, r, style)) => {
                assert_eq!(c, (i, 2 * i));
                assert_eq!(r, 3);
                assert_eq!(style, 'k');
            }
            _ => panic!("expected a point marker"),
        }
    }
    match s.next() {
        Some(SeriesElement::Path(points, style)) => {
            assert_eq!(points, vec![(0, 0), (1, 2), (2, 4)]);
            assert_eq!(style, 'k');
        }
        _ => panic!("expected the line"),
    }
    assert!(s.next().is_none());
    assert!(s.next().is_none());
}

#[test]
fn line_series_without_markers() {
    let mut s = LineSeries::new(vec![1, 2], ());
    assert!(matches!(s.next(), Some(SeriesElement::Path(ref p, _)) if p == &vec![1, 2]));
    assert!(s.next().is_none());
    let mut empty: LineSeries<(), i32> = LineSeries::new(vec![], ()).point_size(4);
    assert!(empty.next().is_none());
}

#[test]
fn series_label_box_layout() {
    let l = SeriesLabelPosition::MiddleRight.label_layout((40, 20), 10, 30, (200, 100));
    assert_eq!(l.corner, (110, 30));
    assert_eq!(l.size, (90, 40));
    assert_eq!(l.text_origin, (150, 40));
    let l = SeriesLabelPosition::Coordinate(3, 4).label_layout((40, 20), 0, 0, (200, 100));
    assert_eq!((l.corner, l.size, l.text_origin), ((3, 4), (40, 20), (3, 4)));
    assert_eq!(legend_position(110, 10, (35, 48)), (120, 41));
    assert_eq!(legend_position(0, 0, (-3, 0)), (0, -1));
}

#[test]
fn axis_ticks_of_3d_axes() {
    let (dir, anchor, offset) = axis_tick_plan((10, 50), (90, 50), (0, 100), (0, 100), 5);
    assert_eq!(dir, (0, 5));
    assert_eq!(anchor, Some((HAnchor::Center, VAnchor::Top)));
    assert_eq!(offset, (0, 10));
    let (dir, anchor, offset) = axis_tick_plan((10, 10), (10, 90), (0, 100), (0, 100), 5);
    assert_eq!(dir, (-5, 0));
    assert_eq!(anchor, Some((HAnchor::Right, VAnchor::Center)));
    assert_eq!(offset, (-10, 0));
    let (dir, anchor, _) = axis_tick_plan((10, 10), (10, 90), (0, 100), (0, 100), 0);
    assert_eq!(dir, (0, 0));
    assert_eq!(anchor, None);
}

#[test]
fn tooltip_contexts() {
    assert!(element_context(vec![], 3).is_none());
    match element_context(vec![((1, 2), "a".to_string(), "b".to_string())], 3) {
        Some(ElementContext::DataPoint { coord, x_label, y_label, series_id }) => {
            assert_eq!((coord, x_label.as_str(), y_label.as_str(), series_id), ((1, 2), "a", "b", 3));
        }
        _ => panic!("expected a data point"),
    }
    let pts = vec![
        ((1, 2), "a".to_string(), "b".to_string()),
        ((3, 4), "c".to_string(), "d".to_string()),
    ];
    match element_context(pts, 9) {
        Some(ElementContext::DataLine { x_points, y_points, series_id }) => {
            assert_eq!(x_points, vec![(1, "a".to_string()), (3, "c".to_string())]);
            assert_eq!(y_points, vec![(2, "b".to_string()), (4, "d".to_string())]);
            assert_eq!(series_id, 9);
        }
        _ => panic!("expected a data line"),
    }
}

#[test]
fn chart_border_lines() {
    let mut axes: AxisSpecs<u8> = AxisSpecs::new_blank();
    assert!(border_lines(&axes, (10, 20, 110, 220)).is_empty());
    axes.left = Some(1);
    axes.bottom = Some(2);
    assert_eq!(
        border_lines(&axes, (10, 20, 110, 220)),
        vec![((10, 20), (10, 220)), ((10, 220), (110, 220))]
    );
    axes.right = Some(3);
    axes.top = Some(4);
    assert_eq!(border_lines(&axes, (0, 0, 5, 6)).len(), 4);
}

#[test]
fn back_panels_of_3d_box() {
    assert_eq!(
        axis_panel(0, true),
        [[false, false, false], [false, true, false], [false, true, true], [false, false, true]]
    );
    assert_eq!(
        axis_panel(1, false),
        [[false, true, false], [false, true, true], [true, true, true], [true, true, false]]
    );
}

#[test]
fn test_line_series() {
    let style = ("red", 3);
    let mut series = LineSeries::new((0..100).map(|x| (x, x)).collect(), style);
    let mut draw_path_calls = 0;
    let mut draw_count = 0;
    while let Some(element) = series.next() {
        draw_count += 1;
        if let SeriesElement::Path(points, s) = element {
            draw_path_calls += 1;
            assert_eq!(s, ("red", 3));
            assert_eq!(points.len(), 100);
            for (i, p) in points.iter().enumerate() {
                assert_eq!(*p, (i as i32, i as i32));
            }
        }
    }
    assert_eq!(draw_path_calls, 1);
    assert_eq!(draw_count, 1);
}

#[test]
fn tick_extents_per_side() {
    let size = Some((10u32, 7u32));
    assert_eq!(tick_extent(AxisSide::Left, TickKind::Major, size), Some((-21, -6, 0, 7)));
    assert_eq!(tick_extent(AxisSide::Right, TickKind::Major, size), Some((0, -6, 21, 7)));
    assert_eq!(tick_extent(AxisSide::Top, TickKind::Major, size), Some((-8, -18, 8, 0)));
    assert_eq!(tick_extent(AxisSide::Bottom, TickKind::Major, size), Some((-8, 0, 8, 18)));
    assert_eq!(tick_extent(AxisSide::Left, TickKind::Minor, None), Some((-3, 0, 0, 0)));
    assert_eq!(tick_extent(AxisSide::Bottom, TickKind::Minor, size), Some((0, 0, 0, 3)));
    assert_eq!(tick_extent(AxisSide::Top, TickKind::Major, None), None);
    assert_eq!(tick_extent(AxisSide::Right, TickKind::Major, Some((0, 0))), Some((0, -3, 11, 3)));
}

#[test]
fn tick_extent_at_the_size_limit() {
    let w = (i32::MAX - 10) as u32;
    assert_eq!(tick_extent(AxisSide::Left, TickKind::Major, Some((w, 0))), Some((i32::MIN, -3, 0, 3)));
    let h = (i32::MAX - 11) as u32;
    assert_eq!(
        tick_extent(AxisSide::Bottom, TickKind::Major, Some((0, h))),
        Some((-3, 0, 3, i32::MAX))
    );
    // A minor tick's label size plays no part.
    assert_eq!(tick_extent(AxisSide::Top, TickKind::Minor, Some((u32::MAX, u32::MAX))), Some((0, -3, 0, 0)));
}

#[test]
fn tick_label_extents_of_an_axis() {
    let ticks = [
        ((0, 10), TickKind::Major, Some((10u32, 7u32))),
        ((0, 50), TickKind::Minor, None),
    ];
    assert_eq!(ticks_extent((0, 0, 10, 100), AxisSide::Left, &ticks), Some((-21, 0, 10, 100)));
    assert_eq!(ticks_extent((0, 0, 10, 100), AxisSide::Left, &[]), Some((0, 0, 10, 100)));
    let unmeasured = [((0, 10), TickKind::Major, None), ((0, 50), TickKind::Minor, None)];
    assert_eq!(ticks_extent((0, 0, 10, 100), AxisSide::Left, &unmeasured), None);
    let bottom = [((30, 0), TickKind::Major, Some((10u32, 7u32)))];
    assert_eq!(ticks_extent((0, 0, 100, 0), AxisSide::Bottom, &bottom), Some((0, 0, 100, 18)));
}
