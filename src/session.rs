use crate::car::{Car, InputState, Tuning};
use crate::collision::{all_wf, resolve_collisions, resolved_all, Rectangle};
use crate::progress::{LapState, LapTime};
use crate::track::{
    build_track, track_checkpoints, track_obstacles, track_walls, Checkpoint, START_X, START_Y,
    START_Z,
};
use crate::vector::Vec3;
use vstd::prelude::*;

verus! {

/// One run on the track: the vehicle, its lap progress, the force model's
/// parameters and the fixed track geometry.
pub struct Session {
    pub car: Car,
    pub lap: LapState,
    pub tuning: Tuning,
    pub walls: Vec<Rectangle>,
    pub obstacles: Vec<Rectangle>,
    pub checkpoints: Vec<Checkpoint>,
}

/// The vehicle as it stands at the start line.
pub open spec fn start_car() -> Car {
    Car {
        pos: Vec3 { x: START_X, y: START_Y, z: START_Z },
        yaw: 0,
        vel: Vec3 { x: 0, y: 0, z: 0 },
        yaw_rate: 0,
        size: Vec3 { x: 1800, y: 800, z: 3400 },
    }
}

impl Session {
    pub open spec fn wf(&self) -> bool {
        &&& self.car.wf()
        &&& all_wf(self.walls@)
        &&& all_wf(self.obstacles@)
        &&& self.checkpoints@.len() > 0
        &&& self.lap.wf(self.checkpoints@.len() as int)
    }

    /// A run on the standard track under `tuning`, starting at time `now`
    /// (microseconds).
    pub fn new(tuning: Tuning, now: i64) -> (r: Session)
        ensures
            r.wf(),
            r.car == start_car(),
            r.lap == (LapState { checkpoint: 0, laps: 0, lap_start: now }),
            r.tuning == tuning,
            r.walls@ == track_walls(),
            r.obstacles@ == track_obstacles(),
            r.checkpoints@ == track_checkpoints(),
    {
        let (walls, obstacles, checkpoints) = build_track();
        Session {
            car: Car::new(Vec3::new(START_X, START_Y, START_Z)),
            lap: LapState::new(now),
            tuning,
            walls,
            obstacles,
            checkpoints,
        }
    }

    /// Puts the vehicle back at the start line at rest and begins a fresh lap
    /// count at `now`.
    pub fn reset(&mut self, now: i64)
        requires
            old(self).wf(),
        ensures
            final(self).wf(),
            final(self).car == start_car(),
            final(self).lap == (LapState { checkpoint: 0, laps: 0, lap_start: now }),
            final(self).tuning == old(self).tuning,
            final(self).walls@ == old(self).walls@,
            final(self).obstacles@ == old(self).obstacles@,
            final(self).checkpoints@ == old(self).checkpoints@,
    {
        self.car = Car::new(Vec3::new(START_X, START_Y, START_Z));
        self.lap = LapState::new(now);
    }

    /// One frame of `dt` microseconds ending at time `now`: the vehicle is
    /// integrated with `input`, pushed out of the walls and then the
    /// obstacles, and its progress checked. Returns the lap this completes,
    /// if any.
    pub fn frame(&mut self, input: &InputState, dt: u32, now: i64) -> (r: Option<LapTime>)
        requires
            old(self).wf(),
            dt > 0,
            i64::MIN <= now - old(self).lap.lap_start <= i64::MAX,
            old(self).lap.laps + 1 < u64::MAX,
        ensures
            final(self).wf(),
            ({
                let moved = resolved_all(
                    old(self).car.stepped(*input, dt as int, old(self).tuning),
                    old(self).walls@ + old(self).obstacles@,
                );
                &&& final(self).car == moved
                &&& final(self).lap == old(self).lap.advanced(
                    moved.pos,
                    old(self).checkpoints@,
                    now as int,
                )
                &&& r == old(self).lap.completed(moved.pos, old(self).checkpoints@, now as int)
            }),
            final(self).tuning == old(self).tuning,
            final(self).walls@ == old(self).walls@,
            final(self).obstacles@ == old(self).obstacles@,
            final(self).checkpoints@ == old(self).checkpoints@,
    {
        self.car.update_tuned(dt, input, &self.tuning);
        resolve_collisions(&mut self.car, &self.walls, &self.obstacles);
        let pos = self.car.pos;
        self.lap.advance(&pos, &self.checkpoints, now)
    }
}

} // verus!
