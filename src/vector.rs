use vstd::prelude::*;

verus! {

/// Largest magnitude of a coordinate the simulation keeps, in millimetres.
pub const COORD_LIMIT: i64 = 1_000_000_000_000;

/// Largest origin coordinate, size or half-extent of a piece of track
/// geometry or of a vehicle, in millimetres.
pub const EXTENT_LIMIT: i64 = 300_000_000_000;

/// A point or a vector in space. `x` and `z` span the ground plane and `y`
/// points up. Positions are in millimetres, velocities in millimetres per
/// second, directions in parts per million of a unit vector.
#[derive(Clone, Copy, Debug, PartialEq, Eq, Structural)]
pub struct Vec3 {
    pub x: i64,
    pub y: i64,
    pub z: i64,
}

impl Vec3 {
    pub fn new(x: i64, y: i64, z: i64) -> (r: Vec3)
        ensures
            r == (Vec3 { x, y, z }),
    {
        Vec3 { x, y, z }
    }

    pub fn zero() -> (r: Vec3)
        ensures
            r == (Vec3 { x: 0, y: 0, z: 0 }),
    {
        Vec3 { x: 0, y: 0, z: 0 }
    }

    /// Every coordinate lies within `COORD_LIMIT`.
    pub open spec fn in_range(self) -> bool {
        &&& -COORD_LIMIT <= self.x <= COORD_LIMIT
        &&& -COORD_LIMIT <= self.y <= COORD_LIMIT
        &&& -COORD_LIMIT <= self.z <= COORD_LIMIT
    }
}

} // verus!
