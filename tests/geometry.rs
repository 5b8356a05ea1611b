use stg_core::collision::{circles_collide, clamp_to_field, point_in_field};
use stg_core::math::{cosine_of, isqrt, sine_of, Point, Vector};

#[test]
fn sine_is_exact_at_landmarks() {
    assert_eq!(sine_of(0), 0);
    assert_eq!(sine_of(30_000), 500_000);
    assert_eq!(sine_of(90_000), 1_000_000);
    assert_eq!(sine_of(180_000), 0);
    assert_eq!(sine_of(270_000), -1_000_000);
    assert_eq!(sine_of(-90_000), -1_000_000);
    assert_eq!(sine_of(450_000), 1_000_000);
}

#[test]
fn sine_between_landmarks() {
    assert_eq!(sine_of(60_000), 864_864);
    assert_eq!(sine_of(45_000), 705_882);
}

#[test]
fn cosine_is_shifted_sine() {
    assert_eq!(cosine_of(0), 1_000_000);
    assert_eq!(cosine_of(90_000), 0);
    assert_eq!(cosine_of(180_000), -1_000_000);
    assert_eq!(cosine_of(60_000), 500_000);
}

#[test]
fn rotate_by_quarter_turn() {
    let v = Vector::new(3_000, 1_000).rotate(90_000);
    assert_eq!(v, Vector::new(-1_000, 3_000));
}

#[test]
fn rotate_by_zero_is_identity() {
    let v = Vector::new(-1_234, 5_678).rotate(0);
    assert_eq!(v, Vector::new(-1_234, 5_678));
}

#[test]
fn rotate_by_thirty_degrees() {
    let v = Vector::new(0, 4_000).rotate(30_000);
    assert_eq!(v, Vector::new(-2_000, 3_459));
}

#[test]
fn heading_and_magnitude() {
    assert_eq!(Vector::from_deg_and_mag(0, 2_000), Vector::new(2_000, 0));
    assert_eq!(Vector::from_deg_and_mag(90_000, 2_000), Vector::new(0, 2_000));
    assert_eq!(Vector::from_deg_and_mag(45_000, 2_000), Vector::new(1_411, 1_411));
}

#[test]
fn aimed_vector_points_at_target() {
    let from = Point { x: 0, y: 0 };
    let to = Point { x: 3_000, y: 4_000 };
    assert_eq!(Vector::aimed(&from, &to, 1_000), Vector::new(600, 800));
    let back = Vector::aimed(&to, &from, 1_000);
    assert_eq!(back, Vector::new(-600, -800));
}

#[test]
fn aimed_vector_at_same_point_has_heading_zero() {
    let p = Point { x: 7, y: 9 };
    assert_eq!(Vector::aimed(&p, &p, 1_000), Vector::new(1_000, 0));
}

#[test]
fn integer_square_root() {
    assert_eq!(isqrt(0), 0);
    assert_eq!(isqrt(1), 1);
    assert_eq!(isqrt(24), 4);
    assert_eq!(isqrt(25), 5);
    assert_eq!(isqrt(26), 5);
    assert_eq!(isqrt(u64::MAX), 4_294_967_295);
}

#[test]
fn vector_and_point_addition() {
    let mut v = Vector::new(1, 2);
    v.add_assign(Vector::new(10, -20));
    assert_eq!(v, Vector::new(11, -18));
    let mut p = Point::zero();
    p.add_assign(v);
    assert_eq!(p, Point { x: 11, y: -18 });
    assert_eq!(Vector::zero(), Vector::new(0, 0));
}

#[test]
fn circle_collision_close_and_far() {
    let player = Point { x: 300_000, y: 475_000 };
    let near = Point { x: 305_000, y: 475_000 };
    let far = Point { x: 320_000, y: 475_000 };
    assert!(circles_collide(&player, 3_000, &near, 10_000));
    assert!(!circles_collide(&player, 3_000, &far, 10_000));
}

#[test]
fn circle_collision_boundary_is_exclusive() {
    let a = Point { x: 0, y: 0 };
    let touching = Point { x: 16_000, y: 0 };
    let inside = Point { x: 15_999, y: 0 };
    assert!(!circles_collide(&a, 3_000, &touching, 10_000));
    assert!(circles_collide(&a, 3_000, &inside, 10_000));
}

#[test]
fn field_edges_are_inside() {
    assert!(point_in_field(&Point { x: 550_000, y: 100_000 }));
    assert!(point_in_field(&Point { x: 50_000, y: 30_000 }));
    assert!(point_in_field(&Point { x: 550_000, y: 570_000 }));
    assert!(!point_in_field(&Point { x: 551_000, y: 100_000 }));
    assert!(!point_in_field(&Point { x: 300_000, y: 29_999 }));
}

#[test]
fn clamping_into_field() {
    assert_eq!(clamp_to_field(Point { x: 0, y: 900_000 }), Point { x: 50_000, y: 570_000 });
    assert_eq!(clamp_to_field(Point { x: 600_000, y: -5 }), Point { x: 550_000, y: 30_000 });
    assert_eq!(clamp_to_field(Point { x: 123_000, y: 456_000 }), Point { x: 123_000, y: 456_000 });
}
