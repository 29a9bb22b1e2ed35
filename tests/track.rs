use drive_core::collision::Rectangle;
use drive_core::track::{build_track, Checkpoint};
use drive_core::vector::Vec3;

#[test]
fn track_layout() {
    let (walls, obstacles, cps) = build_track();
    assert_eq!(walls.len(), 6);
    assert_eq!(obstacles.len(), 9);
    assert_eq!(cps.len(), 4);
    assert_eq!(walls[0], Rectangle::new(-30_000, -52_000, 60_000, 2_000));
    assert_eq!(walls[3], Rectangle::new(30_000, -50_000, 2_000, 100_000));
    assert_eq!(walls[5], Rectangle::new(-10_000, 5_000, 20_000, 2_000));
    assert_eq!(obstacles[2], Rectangle::new(0, 0, 2_500, 2_500));
    // pylons alternate sides every ten metres
    assert_eq!(obstacles[4], Rectangle::new(-13_200, -31_200, 2_400, 2_400));
    assert_eq!(obstacles[5], Rectangle::new(10_800, -21_200, 2_400, 2_400));
    assert_eq!(obstacles[8], Rectangle::new(-13_200, 8_800, 2_400, 2_400));
    assert_eq!(cps[0], Checkpoint { pos: Vec3::new(0, 0, -44_000), radius: 5_500 });
    assert_eq!(cps[1], Checkpoint { pos: Vec3::new(24_000, 0, 0), radius: 5_500 });
    assert_eq!(cps[2], Checkpoint { pos: Vec3::new(0, 0, 44_000), radius: 5_500 });
    assert_eq!(cps[3], Checkpoint { pos: Vec3::new(-24_000, 0, 0), radius: 5_500 });
}
