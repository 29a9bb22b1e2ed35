use crate::collision::{all_wf, Rectangle};
use crate::vector::Vec3;
use vstd::prelude::*;

verus! {

/// A point to pass through on each lap, with the radius within which it
/// counts as reached (millimetres).
#[derive(Clone, Copy, Debug, PartialEq, Eq, Structural)]
pub struct Checkpoint {
    pub pos: Vec3,
    pub radius: u32,
}

/// Half the track's width, in millimetres.
pub const HALF_WIDTH: i64 = 30_000;

/// Half the track's length, in millimetres.
pub const HALF_LENGTH: i64 = 50_000;

/// Thickness of the outer walls, in millimetres.
pub const WALL_THICKNESS: i64 = 2_000;

/// Trigger radius of every checkpoint, in millimetres.
pub const CHECKPOINT_RADIUS: u32 = 5_500;

/// Where the vehicle starts and respawns: x, height and z, in millimetres.
pub const START_X: i64 = 0;

pub const START_Y: i64 = 400;

pub const START_Z: i64 = 20_000;

pub open spec fn track_walls() -> Seq<Rectangle> {
    seq![
        Rectangle { x: -30_000i64, y: -52_000i64, width: 60_000, height: 2_000 },
        Rectangle { x: -30_000i64, y: 50_000, width: 60_000, height: 2_000 },
        Rectangle { x: -32_000i64, y: -50_000i64, width: 2_000, height: 100_000 },
        Rectangle { x: 30_000, y: -50_000i64, width: 2_000, height: 100_000 },
        Rectangle { x: -10_000i64, y: -5_000i64, width: 20_000, height: 2_000 },
        Rectangle { x: -10_000i64, y: 5_000, width: 20_000, height: 2_000 },
    ]
}

/// The `k`-th of the pylons that alternate sides down the track.
pub open spec fn pylon(k: int) -> Rectangle {
    let z = -30_000 + k * 10_000;
    let x = if k % 2 == 0 {
        -12_000int
    } else {
        12_000int
    };
    Rectangle { x: (x - 1_200) as i64, y: (z - 1_200) as i64, width: 2_400, height: 2_400 }
}

pub open spec fn track_obstacles() -> Seq<Rectangle> {
    seq![
        Rectangle { x: -5_000i64, y: -20_000i64, width: 4_000, height: 4_000 },
        Rectangle { x: 8_000, y: -10_000i64, width: 3_000, height: 3_000 },
        Rectangle { x: 0, y: 0, width: 2_500, height: 2_500 },
        Rectangle { x: -8_000i64, y: 15_000, width: 3_500, height: 3_500 },
    ] + Seq::new(5, |k: int| pylon(k))
}

pub open spec fn track_checkpoints() -> Seq<Checkpoint> {
    seq![
        Checkpoint { pos: Vec3 { x: 0, y: 0, z: -44_000i64 }, radius: 5_500 },
        Checkpoint { pos: Vec3 { x: 24_000, y: 0, z: 0 }, radius: 5_500 },
        Checkpoint { pos: Vec3 { x: 0, y: 0, z: 44_000 }, radius: 5_500 },
        Checkpoint { pos: Vec3 { x: -24_000i64, y: 0, z: 0 }, radius: 5_500 },
    ]
}

/// Lays out the track: its walls (four outer, two inner), its obstacles and
/// its checkpoints in lap order.
pub fn build_track() -> (r: (Vec<Rectangle>, Vec<Rectangle>, Vec<Checkpoint>))
    ensures
        r.0@ == track_walls(),
        r.1@ == track_obstacles(),
        r.2@ == track_checkpoints(),
        all_wf(r.0@),
        all_wf(r.1@),
{
    let mut walls: Vec<Rectangle> = Vec::new();
    let mut obstacles: Vec<Rectangle> = Vec::new();

    let half_w: i64 = HALF_WIDTH;
    let half_l: i64 = HALF_LENGTH;
    let thickness: i64 = WALL_THICKNESS;

    // outer
    walls.push(Rectangle::new(-half_w, -half_l - thickness, half_w * 2, thickness));
    walls.push(Rectangle::new(-half_w, half_l, half_w * 2, thickness));
    walls.push(Rectangle::new(-half_w - thickness, -half_l, thickness, half_l * 2));
    walls.push(Rectangle::new(half_w, -half_l, thickness, half_l * 2));

    // inner
    walls.push(Rectangle::new(-10_000, -5_000, 20_000, 2_000));
    walls.push(Rectangle::new(-10_000, 5_000, 20_000, 2_000));

    obstacles.push(Rectangle::new(-5_000, -20_000, 4_000, 4_000));
    obstacles.push(Rectangle::new(8_000, -10_000, 3_000, 3_000));
    obstacles.push(Rectangle::new(0, 0, 2_500, 2_500));
    obstacles.push(Rectangle::new(-8_000, 15_000, 3_500, 3_500));
    let ghost fixed = obstacles@;
    let mut i: i64 = 0;
    while i < 5
        invariant
            0 <= i <= 5,
            obstacles@ == fixed + Seq::new(i as nat, |k: int| pylon(k)),
        decreases 5 - i,
    {
        let z = -30_000 + i * 10_000;
        let x: i64 = if i % 2 == 0 {
            -12_000
        } else {
            12_000
        };
        obstacles.push(Rectangle::new(x - 1_200, z - 1_200, 2_400, 2_400));
        proof {
            assert(obstacles@ =~= fixed + Seq::new((i + 1) as nat, |k: int| pylon(k)));
        }
        i = i + 1;
    }

    let north = half_l - 6_000;
    let east = half_w - 6_000;
    let south = 6_000 - half_l;
    let west = 6_000 - half_w;
    let cps = vec![
        Checkpoint { pos: Vec3::new(0, 0, south), radius: CHECKPOINT_RADIUS },
        Checkpoint { pos: Vec3::new(east, 0, 0), radius: CHECKPOINT_RADIUS },
        Checkpoint { pos: Vec3::new(0, 0, north), radius: CHECKPOINT_RADIUS },
        Checkpoint { pos: Vec3::new(west, 0, 0), radius: CHECKPOINT_RADIUS },
    ];
    proof {
        assert(walls@ =~= track_walls());
        assert(obstacles@ =~= track_obstacles());
        assert(cps@ =~= track_checkpoints());
    }
    (walls, obstacles, cps)
}

} // verus!
