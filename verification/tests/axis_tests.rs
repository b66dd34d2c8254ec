use plotters::coord::category::Category;
use plotters::coord::ckps::{BindKeyPointMethod, BindKeyPoints};
use plotters::coord::discrete::{DiscreteRanged, IntoCentric};
use plotters::coord::group_by::ToGroupByRange;
use plotters::coord::linspace::IntoLinspace;
use plotters::coord::logarithmic::{log_decade_step, log_tick_density};
use plotters::coord::nested::BuildNestedCoord;
use plotters::coord::numeric::{
    compute_i32_key_points, compute_i64_key_points, compute_u32_key_points,
    compute_u64_key_points, RangedCoordi32, RangedCoordu32,
};
use plotters::coord::polar::Polar2d;
use plotters::coord::ranged::{
    BoldPoints, IntoPartialAxis, KeyPointHint, KeyPointWeight, MeshLine, Ranged, RangedCoord,
};
use plotters::coord::ticks::{tick_layout, TickKind};
use plotters::coord::{CoordTranslate, ReverseCoordTranslate, Shift};

#[test]
fn shift_moves_and_moves_back() {
    let shift = Shift((3, -2));
    assert_eq!(shift.translate(&(10, 10)), (13, 8));
    assert_eq!(shift.reverse_translate((13, 8)), Some((10, 10)));
}

#[test]
fn integer_key_points_small_limits() {
    assert_eq!(compute_i32_key_points((0, 10), 1), vec![0, 10]);
    assert_eq!(compute_i32_key_points((-7, -3), 1), vec![0]);
    assert_eq!(compute_i32_key_points((0, 10), 11), (0..=10).collect::<Vec<i32>>());
    assert_eq!(compute_i32_key_points((3, 3), 0), vec![3]);
    assert_eq!(compute_u32_key_points((0, 100), 5), vec![0, 50, 100]);
    assert_eq!(compute_i64_key_points((-20, 20), 5), vec![-20, -10, 0, 10, 20]);
    assert_eq!(compute_u64_key_points((1, 9), 3), vec![5]);
}

#[test]
fn integer_key_points_bounded_and_increasing() {
    for max in 1..40usize {
        let kp = compute_i32_key_points((-123, 4567), max);
        assert!(kp.len() <= max + 1);
        for w in kp.windows(2) {
            assert!(w[0] < w[1]);
        }
    }
}

#[test]
fn integer_map_reversed_pixels() {
    let coord: RangedCoordu32 = (0..20).into();
    assert_eq!(coord.map(&5, (100, 0)), 75);
    assert_eq!(coord.map(&0, (100, 0)), 100);
    assert_eq!(coord.map(&20, (100, 0)), 0);
    assert_eq!(coord.map(&7, (5, 5)), 5);
}

#[test]
fn integer_discrete_values() {
    let coord: RangedCoordi32 = (-3..3).into();
    assert_eq!(coord.size(), 7);
    assert_eq!(coord.index_of(&-3), Some(0));
    assert_eq!(coord.index_of(&3), Some(6));
    assert_eq!(coord.index_of(&4), Some(7));
    assert_eq!(coord.index_of(&-4), None);
    assert_eq!(coord.from_index(6), Some(3));
    assert_eq!(coord.values().collect(), vec![-3, -2, -1, 0, 1, 2, 3]);
}

#[test]
fn key_point_hints() {
    assert_eq!(5usize.max_num_points(), 5);
    assert!(5usize.weight().allow_light_points());
    assert_eq!(BoldPoints(4).max_num_points(), 4);
    assert!(!BoldPoints(4).weight().allow_light_points());
    assert!(!KeyPointWeight::Bold.allow_light_points());
    assert!(KeyPointWeight::Any.allow_light_points());
}

#[test]
fn category_key_points_and_getters() {
    let cat = Category::new("letters", vec!["a", "b", "c", "d", "e", "f", "g"]);
    assert_eq!(cat.len(), 7);
    assert!(!cat.is_empty());
    assert_eq!(cat.name(), "letters".to_string());
    assert_eq!(cat.index(), -1);
    assert!(cat.element().is_none());
    assert!(cat.get(&"z").is_none());
    let kp = cat.key_points(3);
    let idx: Vec<i32> = kp.iter().map(|c| c.index()).collect();
    assert_eq!(idx, vec![0, 3, 6]);
    assert_eq!(cat.key_points(0).len(), 1);
    let full = Ranged::range(&cat);
    assert_eq!(full.start.index(), 0);
    assert_eq!(full.end.index(), 6);
    assert_eq!(cat.range().index(), -1);
    assert_eq!(cat.axis_pixel_range((3, 9)), 3..9);
    let empty: Category<i32> = Category::new("none", vec![]);
    assert!(empty.is_empty());
}

#[test]
fn category_map_of_each_element() {
    let cat = Category::new("color", vec!["red", "green", "blue"]);
    let blue = cat.get(&"blue").unwrap();
    assert_eq!(blue.index(), 2);
    assert_eq!(blue.element(), Some(&"blue"));
    assert_eq!(cat.map(&blue, (0, 8)), 6);
    assert_eq!(cat.map(&cat.get(&"red").unwrap(), (10, 20)), 12);
}

#[test]
fn group_by_counts_groups() {
    let g = (0..10).group_by(3);
    assert_eq!(g.size(), 4);
    assert_eq!(g.index_of(&7), Some(2));
    assert_eq!(g.from_index(2), Some(6));
    assert_eq!(g.key_points(100), vec![0, 3, 6, 9, 12]);
    for v in 0..=10 {
        let i = g.index_of(&v).unwrap();
        assert_eq!(i, (v / 3) as usize);
    }
}

#[test]
fn linspace_grid_values() {
    let l = (0..10).step(3);
    assert_eq!(l.size(), 4);
    assert_eq!(l.index_of(&6), Some(2));
    assert_eq!(l.index_of(&5), None);
    let grid: Vec<i32> = (0..l.size()).map(|i| l.from_index(i).unwrap()).collect();
    assert_eq!(grid, vec![0, 3, 6, 9]);
    assert_eq!(l.from_index(4), None);

    let wide = (0..10).step(20);
    assert_eq!(wide.size(), 0);

    let down = (10..0).step(-3);
    let grid: Vec<i32> = (0..down.size()).map(|i| down.from_index(i).unwrap()).collect();
    assert_eq!(grid, vec![10, 7, 4, 1]);
    for i in 0..down.size() {
        assert_eq!(down.index_of(&down.from_index(i).unwrap()), Some(i));
    }
}

#[test]
fn nested_buckets() {
    let n = (0..2).nested_coord(|_| 0..10);
    assert_eq!(n.map(&(1, None), (0, 30)), 15);
    assert_eq!(n.map(&(1, Some(5)), (0, 30)), 15);
    assert_eq!(n.map(&(2, None), (0, 30)), 25);
    assert_eq!(n.map(&(0, Some(0)), (0, 30)), 0);
}

#[test]
fn partial_axis_pixels() {
    let p = (0..100).partial_axis(20..80);
    assert_eq!(p.axis_pixel_range((0, 100)), 20..80);
    assert_eq!(p.map(&50, (0, 100)), 50);
}

#[test]
fn fixed_key_points() {
    let k = (0..100).with_key_points(vec![1, 50, 99]);
    assert_eq!(k.bold_points(), &[1, 50, 99]);
    assert!(k.light_points().is_empty());
    assert!(k.key_points(10).is_empty());
    let k = k.with_light_points(vec![25, 75]);
    assert_eq!(k.light_points(), &[25, 75]);
    assert_eq!(k.key_points(10), vec![25, 75]);
    assert_eq!(k.key_points(BoldPoints(10)), vec![1, 50, 99]);
    assert_eq!(k.map(&50, (0, 100)), 50);
}

#[test]
fn key_points_from_functions() {
    let k = (0..100).with_key_point_func(|n: usize| (0..n as i32).collect::<Vec<i32>>());
    assert_eq!(k.key_points(BoldPoints(3)), vec![0, 1, 2]);
    assert!(k.key_points(3).is_empty());
    let k = k.with_light_point_func(|n: usize| vec![n as i32; 2]);
    assert_eq!(k.key_points(BoldPoints(2)), vec![0, 1]);
    assert_eq!(k.key_points(4), vec![4, 4]);
    assert_eq!(k.map(&25, (0, 100)), 25);
}

#[test]
fn centric_of_integer_axis() {
    let c = (0..10).into_centric();
    assert_eq!(c.size(), 12);
}

#[test]
fn cartesian_coord_translate_and_mesh() {
    let coord = RangedCoord::<RangedCoordu32, RangedCoordu32>::new(0..10, 0..10, (0..100, 0..100));
    assert_eq!(coord.translate(&(5, 5)), (50, 50));
    assert_eq!(coord.translate(&(0, 0)), (0, 0));
    assert_eq!(coord.get_x_axis_pixel_range(), 0..100);
    assert_eq!(coord.get_y_axis_pixel_range(), 0..100);
    assert_eq!(coord.get_x_range(), 0..10);
    let lines = coord.draw_mesh(2, 2);
    assert_eq!(lines.len(), 4);
    let mut xs = 0;
    for l in lines.iter() {
        if let MeshLine::XMesh(_, _, _) = l {
            xs += 1;
        }
    }
    assert_eq!(xs, 2);
    assert_eq!(lines[0].endpoints(), ((0, 0), (0, 100)));
}

#[test]
fn polar_translate() {
    let p = Polar2d::<RangedCoordu32, RangedCoordu32>::new(0..10, 0..360, (0..100, 0..360));
    assert_eq!(p.translate(&(5, 90)), (50, 90));
}

#[test]
fn log_axis_plan() {
    assert_eq!(log_tick_density(2, 10), 0);
    assert_eq!(log_tick_density(1, 100), 99);
    assert_eq!(log_tick_density(1, 10), 9);
    assert_eq!(log_tick_density(3, 2), 0);
    assert_eq!(log_decade_step(6, 2), 3);
    assert_eq!(log_decade_step(1, 0), 2);
    assert_eq!(log_decade_step(5, 10), 1);
    for t in 1..50usize {
        for m in 0..20usize {
            let c = log_decade_step(t, m);
            assert!(t / c <= m);
            assert!(c == 1 || t / (c - 1) > m);
        }
    }
}

#[test]
fn group_by_round_trip_on_integers() {
    let g = (0..20).group_by(7);
    for i in 0..g.size() {
        let v = g.from_index(i).unwrap();
        assert_eq!(g.index_of(&v), Some(i));
    }
}

#[test]
fn tick_layout_order() {
    let t = tick_layout(0, 2, 1, 2, 1);
    assert_eq!(
        t,
        vec![
            (TickKind::Minor, 0, -2),
            (TickKind::Minor, 0, -1),
            (TickKind::Major, 0, 0),
            (TickKind::Minor, 0, 1),
            (TickKind::Major, 1, 0),
            (TickKind::Minor, 1, 1),
            (TickKind::Major, 2, 0),
            (TickKind::Minor, 2, 1),
        ]
    );
    assert_eq!(tick_layout(1, 0, 3, 0, 0), vec![(TickKind::Major, 0, 0)]);
    assert_eq!(tick_layout(-1, 4, 0, 0, 0).len(), 6);
}

#[test]
fn integer_map_is_ordered_and_hits_ends() {
    let coord: RangedCoordi32 = (-7..13).into();
    assert_eq!(coord.map(&-7, (10, 310)), 10);
    assert_eq!(coord.map(&13, (10, 310)), 310);
    let mut last = 10;
    for v in -7..=13 {
        let p = coord.map(&v, (10, 310));
        assert!(last <= p && p <= 310);
        last = p;
    }
}

#[test]
fn category_positions_in_order() {
    let cat = Category::new("c", vec![1, 2, 3, 4]);
    let mut last = 0;
    for v in 1..=4 {
        let p = cat.map(&cat.get(&v).unwrap(), (0, 100));
        assert!(last <= p && p <= 100);
        last = p;
    }
    assert_eq!(last, 80);
}

#[test]
fn coordinate_system_from_axes() {
    let x = (0..100).partial_axis(20..80);
    let y: RangedCoordi32 = (0..10).into();
    let c = RangedCoord::from_axes(x, y, (0..200, 0..100));
    assert_eq!(c.get_x_axis_pixel_range(), 40..160);
    assert_eq!(c.get_y_axis_pixel_range(), 0..100);
    assert_eq!(c.translate(&(50, 5)), (100, 50));
}
