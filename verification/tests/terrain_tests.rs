use lift_planner::errors::PlanError;
use lift_planner::topography::{Coord, Topography};

fn c(x: usize, y: usize) -> Coord {
    Coord { x, y }
}

#[test]
fn it_works() {
    assert_eq!(2 + 2, 4);
}

#[test]
fn height_lookup_row_major() {
    let t = Topography::new(2, 3, vec![10, 11, 12, 20, 21, 22]);
    assert_eq!(t.height_at(c(0, 0)), Ok(10));
    assert_eq!(t.height_at(c(0, 2)), Ok(12));
    assert_eq!(t.height_at(c(1, 0)), Ok(20));
    assert_eq!(t.height_at(c(1, 2)), Ok(22));
}

#[test]
fn height_out_of_bounds() {
    let t = Topography::new(2, 2, vec![0, 1, 2, 3]);
    assert_eq!(t.height_at(c(2, 0)), Err(PlanError::OutOfBounds));
    assert_eq!(t.height_at(c(0, 2)), Err(PlanError::OutOfBounds));
}

#[test]
fn slope_is_height_difference() {
    let t = Topography::new(2, 2, vec![7, 3, -4, 0]);
    assert_eq!(t.slope(c(0, 0), c(0, 1)), Ok(4));
    assert_eq!(t.slope(c(0, 0), c(1, 0)), Ok(11));
    assert_eq!(t.slope(c(1, 1), c(0, 1)), Ok(-3));
    assert_eq!(t.slope(c(0, 0), c(2, 0)), Err(PlanError::OutOfBounds));
}

#[test]
fn slope_antisymmetric() {
    let t = Topography::new(3, 3, vec![0, 5, -2, 9, 1, 1, -8, 4, 3]);
    for ax in 0..3 {
        for ay in 0..3 {
            for bx in 0..3 {
                for by in 0..3 {
                    let ab = t.slope(c(ax, ay), c(bx, by)).unwrap();
                    let ba = t.slope(c(bx, by), c(ax, ay)).unwrap();
                    assert_eq!(ab, -ba);
                }
            }
        }
    }
}

#[test]
fn flat_terrain_is_uniform_zero() {
    let t = Topography::flat(4, 5);
    assert_eq!(t.iter().len(), 20);
    for h in t.iter() {
        assert_eq!(*h, 0);
    }
    assert_eq!(t.slope(c(1, 2), c(3, 4)), Ok(0));
}

#[test]
fn cone_heights_are_scaled_distances() {
    // center (1, 1), slope 2: elevation = 2 * floor(distance to center)
    let t = Topography::cone(3, 3, 1, 1, 2);
    assert_eq!(t.height_at(c(1, 1)), Ok(0));
    assert_eq!(t.height_at(c(0, 1)), Ok(2));
    assert_eq!(t.height_at(c(1, 0)), Ok(2));
    // corner: distance sqrt(2) rounds down to 1
    assert_eq!(t.height_at(c(0, 0)), Ok(2));
    assert_eq!(t.height_at(c(2, 2)), Ok(2));
}

#[test]
fn cone_negative_slope_falls_from_center() {
    let t = Topography::cone(100, 100, 50, 50, -1);
    // isqrt(5000) == 70, isqrt(3200) == 56
    assert_eq!(t.height_at(c(0, 0)), Ok(-70));
    assert_eq!(t.height_at(c(10, 10)), Ok(-56));
    assert_eq!(t.height_at(c(50, 50)), Ok(0));
}
