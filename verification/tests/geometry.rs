use dr_rustario::geometry::{BottlePoint, Rotation};

#[test]
fn clockwise_rotation() {
    assert_eq!(Rotation::North.rotate(true), Rotation::East);
    assert_eq!(Rotation::West.rotate(true), Rotation::North);
}

#[test]
fn anticlockwise_rotation() {
    assert_eq!(Rotation::North.rotate(false), Rotation::West);
    assert_eq!(Rotation::East.rotate(false), Rotation::North);
}

#[test]
fn four_quarter_turns_come_round() {
    for start in [Rotation::North, Rotation::East, Rotation::South, Rotation::West] {
        for clockwise in [true, false] {
            let mut rotation = start;
            for _ in 0..4 {
                rotation = rotation.rotate(clockwise);
            }
            assert_eq!(rotation, start);
            assert_eq!(start.rotate(clockwise).rotate(!clockwise), start);
        }
    }
}

#[test]
fn points_translate_add_and_negate() {
    let p = BottlePoint::new(3, -1);
    assert_eq!(p.x(), 3);
    assert_eq!(p.y(), -1);
    assert_eq!(p.translate(2, 5), BottlePoint::new(5, 4));
    let mut q = p;
    q.translate_mut(-3, 1);
    assert_eq!(q, BottlePoint::new(0, 0));
    assert_eq!(p + BottlePoint::new(1, 1), BottlePoint::new(4, 0));
    assert_eq!(p - BottlePoint::new(1, 1), BottlePoint::new(2, -2));
    assert_eq!(-p, BottlePoint::new(-3, 1));
    assert_eq!(BottlePoint::from((7, 15)), BottlePoint::new(7, 15));
}
