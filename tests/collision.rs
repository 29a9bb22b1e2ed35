use drive_core::car::Car;
use drive_core::collision::{resolve_collisions, resolve_rect, Rectangle};
use drive_core::vector::Vec3;

fn car_at(x: i64, z: i64, vx: i64, vz: i64) -> Car {
    let mut c = Car::new(Vec3::new(x, 400, z));
    c.vel = Vec3::new(vx, 0, vz);
    c
}

/// Whether the vehicle's box still overlaps the rectangle.
fn overlaps(c: &Car, r: &Rectangle) -> bool {
    r.x - c.size.x < c.pos.x
        && c.pos.x < r.x + r.width + c.size.x
        && r.y - c.size.z < c.pos.z
        && c.pos.z < r.y + r.height + c.size.z
}

#[test]
fn pushed_out_along_x() {
    let r = Rectangle::new(0, 0, 2_500, 2_500);
    let mut c = car_at(4_000, 1_000, -3_000, 700);
    resolve_rect(&mut c, &r);
    assert_eq!(c.pos, Vec3::new(4_300, 400, 1_000));
    assert_eq!(c.vel, Vec3::new(0, 0, 700));
    assert!(!overlaps(&c, &r));
}

#[test]
fn pushed_out_along_z() {
    let r = Rectangle::new(0, 0, 2_500, 2_500);
    let mut c = car_at(1_000, -3_000, 500, 2_000);
    resolve_rect(&mut c, &r);
    assert_eq!(c.pos, Vec3::new(1_000, 400, -3_400));
    assert_eq!(c.vel, Vec3::new(500, 0, 0));
    assert!(!overlaps(&c, &r));
}

#[test]
fn pushed_to_the_far_edge_when_nearer() {
    let r = Rectangle::new(0, 0, 2_500, 2_500);
    let mut c = car_at(-1_500, 1_000, 100, 100);
    resolve_rect(&mut c, &r);
    assert_eq!(c.pos, Vec3::new(-1_800, 400, 1_000));
    assert_eq!(c.vel, Vec3::new(0, 0, 100));
}

#[test]
fn equal_depths_resolve_along_z() {
    // grown bounds: x in (-1800, 4300), z in (-3400, 5900)
    let r = Rectangle::new(0, 0, 2_500, 2_500);
    let mut c = car_at(-1_700, -3_300, 10, 20);
    resolve_rect(&mut c, &r);
    assert_eq!(c.pos, Vec3::new(-1_700, 400, -3_400));
    assert_eq!(c.vel, Vec3::new(10, 0, 0));
}

#[test]
fn touching_is_not_overlapping() {
    let r = Rectangle::new(0, 0, 2_500, 2_500);
    let mut c = car_at(4_300, 1_000, -3_000, 700);
    let before = c;
    resolve_rect(&mut c, &r);
    assert_eq!(c, before);
}

#[test]
fn far_away_is_untouched() {
    let r = Rectangle::new(0, 0, 2_500, 2_500);
    let mut c = car_at(20_000, 20_000, 1, 2);
    let before = c;
    resolve_rect(&mut c, &r);
    assert_eq!(c, before);
}

#[test]
fn walls_then_obstacles_in_order() {
    let walls = vec![Rectangle::new(-10_000, 0, 20_000, 2_000)];
    let obstacles = vec![
        Rectangle::new(2_500, -6_000, 2_000, 4_000),
        Rectangle::new(-20_000, -20_000, 1_000, 1_000),
    ];
    let start = car_at(1_000, -1_000, 300, -400);
    let mut c = start;
    resolve_collisions(&mut c, &walls, &obstacles);
    let mut expected = start;
    resolve_rect(&mut expected, &walls[0]);
    resolve_rect(&mut expected, &obstacles[0]);
    resolve_rect(&mut expected, &obstacles[1]);
    assert_eq!(c, expected);
    // the wall pushes it back along z, then the obstacle along x
    assert_eq!(c.pos, Vec3::new(700, 400, -3_400));
    assert_eq!(c.vel, Vec3::new(0, 0, 0));
}

#[test]
fn a_later_rectangle_may_push_back_into_an_earlier_one() {
    let walls = vec![Rectangle::new(0, 0, 1_000, 1_000)];
    let obstacles = vec![Rectangle::new(-3_000, -10_000, 2_000, 20_000)];
    let mut c = car_at(2_500, 500, 0, 0);
    resolve_collisions(&mut c, &walls, &obstacles);
    // out of the wall along x, and left there by the obstacle
    assert_eq!(c.pos, Vec3::new(2_800, 400, 500));
    let mut d = car_at(-1_000, 500, 0, 0);
    resolve_collisions(&mut d, &walls, &obstacles);
    // the wall pushes it to x = -1800, which the obstacle then pushes to 800:
    // back inside the wall's grown bounds, which is not checked again
    assert_eq!(d.pos, Vec3::new(800, 400, 500));
    assert!(overlaps(&d, &walls[0]));
}
