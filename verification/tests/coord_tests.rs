use plotters::coord::category::Category;
use plotters::coord::discrete::{CentricValues, DiscreteRanged, IntoCentric};
use plotters::coord::numeric::{compute_i32_key_points, RangedCoordi32, RangedCoordu32};
use plotters::coord::ranged::{Ranged, RangedCoord};

#[test]
fn test_clone_trait() {
    let category = Category::new("color", vec!["red", "green", "blue"]);
    let red = category.get(&"red").unwrap();
    assert_eq!(red.index(), 0);
    let clone = red.clone();
    assert_eq!(clone.index(), 0);
}

#[test]
fn test_debug_trait() {
    let category = Category::new("color", vec!["red", "green", "blue"]);
    let red = category.get(&"red").unwrap();
    assert_eq!(format!("{}", red.element().unwrap()), "red");
}

#[test]
fn test_ranged_trait() {
    let category = Category::new("color", vec!["red", "green", "blue"]);
    assert_eq!(category.map(&category.get(&"red").unwrap(), (0, 8)), 2);
    assert_eq!(category.map(&category.get(&"green").unwrap(), (0, 8)), 4);
    assert_eq!(category.map(&category.get(&"blue").unwrap(), (0, 8)), 6);
    assert_eq!(category.key_points(3).len(), 3);
    assert_eq!(category.key_points(5).len(), 3);
}

#[test]
fn test_value_iter() {
    let range: RangedCoordi32 = (-10..10).into();

    let values: Vec<_> = range.values().collect();

    assert_eq!(21, values.len());

    for (expected, value) in (-10..=10).zip(values) {
        assert_eq!(expected, value)
    }
}

#[test]
fn test_centric_coord() {
    let coord = (0..10).into_centric();

    assert_eq!(coord.size(), 12);
    for i in 0..=11 {
        match coord.from_index(i as usize) {
            Some(CentricValues::Exact(value)) => assert_eq!(i, value),
            Some(CentricValues::Last) => assert_eq!(i, 11),
            _ => panic!(),
        }
    }

    for (kps, idx) in coord.key_points(20).into_iter().zip(0..) {
        match kps {
            CentricValues::CenterOf(value) if value <= 10 => assert_eq!(value, idx),
            _ => panic!(),
        }
    }

    assert_eq!(coord.map(&CentricValues::CenterOf(0), (0, 24)), 1);
    assert_eq!(coord.map(&CentricValues::Exact(0), (0, 24)), 0);
    assert_eq!(coord.map(&CentricValues::Exact(1), (0, 24)), 2);
}

#[test]
fn test_key_points() {
    let kp = compute_i32_key_points((0, 999), 28);

    assert!(kp.len() > 0);
    assert!(kp.len() <= 28);
}

#[test]
fn test_linear_coord_map() {
    let coord: RangedCoordu32 = (0..20).into();
    assert_eq!(coord.key_points(11).len(), 11);
    assert_eq!(coord.key_points(11)[0], 0);
    assert_eq!(coord.key_points(11)[10], 20);
    assert_eq!(coord.map(&5, (0, 100)), 25);
}

#[test]
fn test_linear_coord_system() {
    let _coord =
        RangedCoord::<RangedCoordu32, RangedCoordu32>::new(0..10, 0..10, (0..1024, 0..768));
}
