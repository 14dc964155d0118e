use caper::collision::{overlapping, overlapping_3d, CollisionInfo};
use caper::rat::Rat;

fn ri(n: i64) -> Rat {
    Rat::from_int(n)
}

fn half() -> Rat {
    Rat::new(1, 2)
}

#[test]
fn separated_squares_do_not_collide() {
    let r = overlapping(&(ri(0), ri(0)), &(ri(1), ri(1)), &(ri(5), ri(5)), &(ri(1), ri(1)), false);
    assert!(matches!(r, CollisionInfo::NoCollision));
    // touching edges count as no collision
    let t = overlapping(&(ri(0), ri(0)), &(ri(1), ri(1)), &(ri(1), ri(0)), &(ri(1), ri(1)), false);
    assert!(matches!(t, CollisionInfo::NoCollision));
}

#[test]
fn overlapping_squares_report_overlap() {
    let r = overlapping(
        &(ri(0), ri(0)),
        &(ri(1), ri(1)),
        &(half(), half()),
        &(ri(1), ri(1)),
        false,
    );
    assert!(matches!(r, CollisionInfo::Overlapping));
}

#[test]
fn separating_distances_are_exact() {
    let r = overlapping(
        &(ri(0), ri(0)),
        &(ri(1), ri(1)),
        &(half(), half()),
        &(ri(1), ri(1)),
        true,
    );
    match r {
        CollisionInfo::Separate2D { top, bottom, right, left } => {
            // top = |top_a - bottom_b| = |0 - 3/2| = 3/2
            assert_eq!((top.num(), top.den()), (3, 2));
            // bottom = |bottom_a - top_b| = |1 - 1/2| = 1/2
            assert_eq!((bottom.num(), bottom.den()), (1, 2));
            // right = |right_a - left_b| = |1 - 1/2| = 1/2
            assert_eq!((right.num(), right.den()), (1, 2));
            // left = |left_a - right_b| = |0 - 3/2| = 3/2
            assert_eq!((left.num(), left.den()), (3, 2));
        },
        _ => panic!("expected separating distances"),
    }
}

#[test]
fn cubes_separated_in_height_do_not_collide() {
    let r = overlapping_3d(
        &(ri(0), ri(0), ri(0)),
        &(ri(1), ri(1), ri(1)),
        &(ri(0), ri(5), ri(0)),
        &(ri(1), ri(1), ri(1)),
        false,
    );
    assert!(matches!(r, CollisionInfo::NoCollision));
}

#[test]
fn overlapping_cubes_report_distances() {
    let r = overlapping_3d(
        &(ri(0), ri(0), ri(0)),
        &(ri(2), ri(2), ri(2)),
        &(ri(1), ri(1), ri(1)),
        &(ri(2), ri(2), ri(2)),
        true,
    );
    match r {
        CollisionInfo::Separate3D { top, bottom, right, left, up, down } => {
            assert_eq!((top.num(), top.den()), (3, 1));
            assert_eq!((bottom.num(), bottom.den()), (1, 1));
            assert_eq!((right.num(), right.den()), (1, 1));
            assert_eq!((left.num(), left.den()), (3, 1));
            assert_eq!((up.num(), up.den()), (3, 1));
            assert_eq!((down.num(), down.den()), (1, 1));
        },
        _ => panic!("expected separating distances"),
    }
    let o = overlapping_3d(
        &(ri(0), ri(0), ri(0)),
        &(ri(2), ri(2), ri(2)),
        &(ri(1), ri(1), ri(1)),
        &(ri(2), ri(2), ri(2)),
        false,
    );
    assert!(matches!(o, CollisionInfo::Overlapping));
}
