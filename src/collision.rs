use crate::car::Car;
use crate::vector::{Vec3, EXTENT_LIMIT};
use vstd::prelude::*;

verus! {

/// An axis-aligned rectangle on the ground plane: `x` and `y` are its least
/// corner on the world x and z axes, `width` and `height` its extent along
/// them, all in millimetres.
#[derive(Clone, Copy, Debug, PartialEq, Eq, Structural)]
pub struct Rectangle {
    pub x: i64,
    pub y: i64,
    pub width: i64,
    pub height: i64,
}

impl Rectangle {
    pub fn new(x: i64, y: i64, width: i64, height: i64) -> (r: Rectangle)
        ensures
            r == (Rectangle { x, y, width, height }),
    {
        Rectangle { x, y, width, height }
    }

    /// The corner and the sizes lie within `EXTENT_LIMIT`, and the sizes are
    /// not negative.
    pub open spec fn wf(self) -> bool {
        &&& -EXTENT_LIMIT <= self.x <= EXTENT_LIMIT
        &&& -EXTENT_LIMIT <= self.y <= EXTENT_LIMIT
        &&& 0 <= self.width <= EXTENT_LIMIT
        &&& 0 <= self.height <= EXTENT_LIMIT
    }

    /// Least x of the rectangle grown by the half-extents `half`.
    pub open spec fn min_x(self, half: Vec3) -> int {
        self.x - half.x
    }

    pub open spec fn max_x(self, half: Vec3) -> int {
        self.x + self.width + half.x
    }

    /// Least z of the rectangle grown by the half-extents `half`.
    pub open spec fn min_z(self, half: Vec3) -> int {
        self.y - half.z
    }

    pub open spec fn max_z(self, half: Vec3) -> int {
        self.y + self.height + half.z
    }

    /// The point `p` lies strictly inside the rectangle grown by `half`: a box
    /// with half-extents `half` centred on `p` overlaps the rectangle.
    pub open spec fn overlaps(self, p: Vec3, half: Vec3) -> bool {
        &&& self.min_x(half) < p.x < self.max_x(half)
        &&& self.min_z(half) < p.z < self.max_z(half)
    }
}

pub open spec fn min(a: int, b: int) -> int {
    if a <= b {
        a
    } else {
        b
    }
}

/// Penetration depth along x: the distance to the nearer grown edge.
pub open spec fn depth_x(r: Rectangle, car: Car) -> int {
    min(car.pos.x - r.min_x(car.size), r.max_x(car.size) - car.pos.x)
}

/// Penetration depth along z: the distance to the nearer grown edge.
pub open spec fn depth_z(r: Rectangle, car: Car) -> int {
    min(car.pos.z - r.min_z(car.size), r.max_z(car.size) - car.pos.z)
}

/// The vehicle after it is pushed out of `r`. Where it overlaps, it is moved
/// along the axis of smaller penetration (z on a tie) to the nearer grown
/// edge (the greater one on a tie), and its velocity along that axis is
/// zeroed; the other axis is left alone.
pub open spec fn resolved(car: Car, r: Rectangle) -> Car {
    if !r.overlaps(car.pos, car.size) {
        car
    } else if depth_x(r, car) < depth_z(r, car) {
        let x = if car.pos.x - r.min_x(car.size) < r.max_x(car.size) - car.pos.x {
            r.min_x(car.size)
        } else {
            r.max_x(car.size)
        };
        Car {
            pos: Vec3 { x: x as i64, ..car.pos },
            vel: Vec3 { x: 0, ..car.vel },
            ..car
        }
    } else {
        let z = if car.pos.z - r.min_z(car.size) < r.max_z(car.size) - car.pos.z {
            r.min_z(car.size)
        } else {
            r.max_z(car.size)
        };
        Car {
            pos: Vec3 { z: z as i64, ..car.pos },
            vel: Vec3 { z: 0, ..car.vel },
            ..car
        }
    }
}

/// The vehicle after it is pushed out of each rectangle of `rects` in turn,
/// each from where the previous ones left it.
pub open spec fn resolved_all(car: Car, rects: Seq<Rectangle>) -> Car
    decreases rects.len(),
{
    if rects.len() == 0 {
        car
    } else {
        resolved(resolved_all(car, rects.drop_last()), rects.last())
    }
}

pub open spec fn all_wf(rects: Seq<Rectangle>) -> bool {
    forall|k: int| 0 <= k < rects.len() ==> (#[trigger] rects[k]).wf()
}

/// Pushes the vehicle out of one rectangle.
pub fn resolve_rect(car: &mut Car, r: &Rectangle)
    requires
        old(car).wf(),
        r.wf(),
    ensures
        *final(car) == resolved(*old(car), *r),
        final(car).wf(),
{
    let min_x = r.x - car.size.x;
    let max_x = r.x + r.width + car.size.x;
    let min_z = r.y - car.size.z;
    let max_z = r.y + r.height + car.size.z;
    let p = car.pos;
    if !(min_x < p.x && p.x < max_x && min_z < p.z && p.z < max_z) {
        return ;
    }
    let left = p.x - min_x;
    let right = max_x - p.x;
    let back = p.z - min_z;
    let front = max_z - p.z;
    let depth_x = if left <= right {
        left
    } else {
        right
    };
    let depth_z = if back <= front {
        back
    } else {
        front
    };
    if depth_x < depth_z {
        car.pos.x = if left < right {
            min_x
        } else {
            max_x
        };
        car.vel.x = 0;
    } else {
        car.pos.z = if back < front {
            min_z
        } else {
            max_z
        };
        car.vel.z = 0;
    }
}

/// Pushes the vehicle out of every wall and then every obstacle, in order,
/// each from where the previous ones left it. An overlap that a later
/// rectangle brings back against an earlier one is not revisited.
pub fn resolve_collisions(car: &mut Car, walls: &Vec<Rectangle>, obstacles: &Vec<Rectangle>)
    requires
        old(car).wf(),
        all_wf(walls@),
        all_wf(obstacles@),
    ensures
        *final(car) == resolved_all(*old(car), walls@ + obstacles@),
        final(car).wf(),
{
    let ghost start = *car;
    let ghost rects = walls@ + obstacles@;
    let mut i: usize = 0;
    while i < walls.len()
        invariant
            0 <= i <= walls.len(),
            rects == walls@ + obstacles@,
            car.wf(),
            all_wf(walls@),
            *car == resolved_all(start, rects.take(i as int)),
        decreases walls.len() - i,
    {
        proof {
            assert(rects.take(i + 1).drop_last() =~= rects.take(i as int));
        }
        resolve_rect(car, &walls[i]);
        i = i + 1;
    }
    let mut j: usize = 0;
    while j < obstacles.len()
        invariant
            0 <= j <= obstacles.len(),
            i == walls.len(),
            rects == walls@ + obstacles@,
            car.wf(),
            all_wf(obstacles@),
            *car == resolved_all(start, rects.take(i + j)),
        decreases obstacles.len() - j,
    {
        proof {
            assert(rects.take(i + j + 1).drop_last() =~= rects.take(i + j));
            assert(rects[i + j] == obstacles@[j as int]);
        }
        resolve_rect(car, &obstacles[j]);
        j = j + 1;
    }
    proof {
        assert(rects.take(i + j) =~= rects);
    }
}

/// Once pushed out of a rectangle it overlapped, the vehicle no longer
/// overlaps it: on the axis chosen for the correction it stands on a grown
/// edge and its velocity along that axis is zero, while the other axis keeps
/// its position and velocity.
pub proof fn lemma_resolution_contains(car: Car, r: Rectangle)
    requires
        car.wf(),
        r.wf(),
        r.overlaps(car.pos, car.size),
    ensures
        !r.overlaps(resolved(car, r).pos, resolved(car, r).size),
        ({
            let c = resolved(car, r);
            ||| c.vel.x == 0 && (c.pos.x <= r.min_x(c.size) || c.pos.x >= r.max_x(c.size))
                && c.pos.z == car.pos.z && c.vel.z == car.vel.z
            ||| c.vel.z == 0 && (c.pos.z <= r.min_z(c.size) || c.pos.z >= r.max_z(c.size))
                && c.pos.x == car.pos.x && c.vel.x == car.vel.x
        }),
        resolved(car, r).size == car.size,
        resolved(car, r).pos.y == car.pos.y,
{
}

} // verus!
