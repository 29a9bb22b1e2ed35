use crate::track::Checkpoint;
use crate::vector::Vec3;
use vstd::prelude::*;

verus! {

/// Progress around the track: the checkpoint to reach next, the laps
/// completed, and when the current lap began (microseconds).
#[derive(Clone, Copy, Debug, PartialEq, Eq, Structural)]
pub struct LapState {
    pub checkpoint: usize,
    pub laps: u64,
    pub lap_start: i64,
}

/// A completed lap: its number and how long it took, in microseconds.
#[derive(Clone, Copy, Debug, PartialEq, Eq, Structural)]
pub struct LapTime {
    pub lap: u64,
    pub elapsed: i64,
}

pub open spec fn square(a: int) -> int {
    a * a
}

/// `pos` lies strictly within the checkpoint's radius.
pub open spec fn reached(pos: Vec3, cp: Checkpoint) -> bool {
    square(pos.x - cp.pos.x) + square(pos.y - cp.pos.y) + square(pos.z - cp.pos.z) < square(
        cp.radius as int,
    )
}

impl LapState {
    /// A fresh lap beginning at `now`, aiming for the first checkpoint.
    pub fn new(now: i64) -> (r: LapState)
        ensures
            r == (LapState { checkpoint: 0, laps: 0, lap_start: now }),
    {
        LapState { checkpoint: 0, laps: 0, lap_start: now }
    }

    /// The next checkpoint is one of `count` and the lap counter can still
    /// grow.
    pub open spec fn wf(self, count: int) -> bool {
        &&& self.checkpoint < count
        &&& self.laps < u64::MAX
    }

    /// Reaching the checkpoint in hand moves on to the next one, cyclically;
    /// coming back to the first one completes a lap, which restarts the lap
    /// clock at `now`. Elsewhere nothing changes.
    pub open spec fn advanced(self, pos: Vec3, cps: Seq<Checkpoint>, now: int) -> LapState {
        if !reached(pos, cps[self.checkpoint as int]) {
            self
        } else if self.checkpoint + 1 == cps.len() {
            LapState { checkpoint: 0, laps: (self.laps + 1) as u64, lap_start: now as i64 }
        } else {
            LapState { checkpoint: (self.checkpoint + 1) as usize, ..self }
        }
    }

    /// The lap that a step completes, if it completes one.
    pub open spec fn completed(self, pos: Vec3, cps: Seq<Checkpoint>, now: int) -> Option<
        LapTime,
    > {
        if reached(pos, cps[self.checkpoint as int]) && self.checkpoint + 1 == cps.len() {
            Some(LapTime { lap: (self.laps + 1) as u64, elapsed: (now - self.lap_start) as i64 })
        } else {
            None
        }
    }

    /// Checks the vehicle's position `pos` against the checkpoint in hand at
    /// time `now` (microseconds) and returns the lap this completes, if any.
    pub fn advance(&mut self, pos: &Vec3, checkpoints: &Vec<Checkpoint>, now: i64) -> (r: Option<
        LapTime,
    >)
        requires
            old(self).wf(checkpoints@.len() as int),
            i64::MIN <= now - old(self).lap_start <= i64::MAX,
        ensures
            *final(self) == old(self).advanced(*pos, checkpoints@, now as int),
            r == old(self).completed(*pos, checkpoints@, now as int),
            final(self).checkpoint < checkpoints@.len(),
    {
        let count = checkpoints.len();
        let cp = &checkpoints[self.checkpoint];
        if !within(pos, cp) {
            return None;
        }
        if self.checkpoint + 1 == count {
            let done = LapTime { lap: self.laps + 1, elapsed: now - self.lap_start };
            self.checkpoint = 0;
            self.laps = self.laps + 1;
            self.lap_start = now;
            Some(done)
        } else {
            self.checkpoint = self.checkpoint + 1;
            None
        }
    }
}

/// Whether `pos` lies strictly within the radius of `cp`.
pub fn within(pos: &Vec3, cp: &Checkpoint) -> (r: bool)
    ensures
        r == reached(*pos, *cp),
{
    let dx = pos.x as i128 - cp.pos.x as i128;
    let dy = pos.y as i128 - cp.pos.y as i128;
    let dz = pos.z as i128 - cp.pos.z as i128;
    let radius = cp.radius as i128;
    if dx <= -radius || dx >= radius {
        proof {
            lemma_far_axis(dx as int, dy as int, dz as int, radius as int);
        }
        return false;
    }
    if dy <= -radius || dy >= radius {
        proof {
            lemma_far_axis(dy as int, dx as int, dz as int, radius as int);
        }
        return false;
    }
    if dz <= -radius || dz >= radius {
        proof {
            lemma_far_axis(dz as int, dy as int, dx as int, radius as int);
        }
        return false;
    }
    proof {
        assert(0 <= dx * dx < 0x1_0000_0000 * 0x1_0000_0000) by (nonlinear_arith)
            requires
                -radius < dx < radius,
                0 <= radius < 0x1_0000_0000,
        ;
        assert(0 <= dy * dy < 0x1_0000_0000 * 0x1_0000_0000) by (nonlinear_arith)
            requires
                -radius < dy < radius,
                0 <= radius < 0x1_0000_0000,
        ;
        assert(0 <= dz * dz < 0x1_0000_0000 * 0x1_0000_0000) by (nonlinear_arith)
            requires
                -radius < dz < radius,
                0 <= radius < 0x1_0000_0000,
        ;
        assert(radius * radius < 0x1_0000_0000 * 0x1_0000_0000) by (nonlinear_arith)
            requires
                0 <= radius < 0x1_0000_0000,
        ;
    }
    dx * dx + dy * dy + dz * dz < radius * radius
}

/// One coordinate at least a radius away puts the point out of reach.
proof fn lemma_far_axis(a: int, b: int, c: int, radius: int)
    requires
        radius >= 0,
        a <= -radius || a >= radius,
    ensures
        square(a) + square(b) + square(c) >= square(radius),
{
    assert(square(a) + square(b) + square(c) >= square(radius)) by (nonlinear_arith)
        requires
            radius >= 0,
            a <= -radius || a >= radius,
    ;
}

/// The lap state after the steps `visits`, each a position and a time.
pub open spec fn progressed(state: LapState, visits: Seq<(Vec3, int)>, cps: Seq<Checkpoint>) -> LapState
    decreases visits.len(),
{
    if visits.len() == 0 {
        state
    } else {
        let prev = progressed(state, visits.drop_last(), cps);
        prev.advanced(visits.last().0, cps, visits.last().1)
    }
}

/// Starting at the first of `n` checkpoints and reaching each one in turn
/// moves the index forward once per checkpoint, and the last one brings it
/// back to the first while the lap counter grows by exactly one. Only that
/// last step reports a lap: its number is one more than before, its time is
/// the last visit's time less the lap's start, and the lap clock restarts at
/// the last visit's time.
pub proof fn lemma_checkpoint_cycle(state: LapState, visits: Seq<(Vec3, int)>, cps: Seq<Checkpoint>)
    requires
        0 < cps.len() <= usize::MAX,
        state.wf(cps.len() as int),
        state.checkpoint == 0,
        visits.len() == cps.len(),
        forall|k: int| 0 <= k < cps.len() ==> reached(#[trigger] visits[k].0, cps[k]),
    ensures
        forall|k: int|
            1 <= k < cps.len() ==> (#[trigger] progressed(state, visits.take(k), cps)).checkpoint == k
                && progressed(state, visits.take(k), cps).laps == state.laps
                && progressed(state, visits.take(k), cps).lap_start == state.lap_start,
        forall|k: int|
            0 <= k < cps.len() - 1 ==> (#[trigger] progressed(state, visits.take(k), cps)).completed(
                visits[k].0,
                cps,
                visits[k].1,
            ).is_none(),
        progressed(state, visits.take(cps.len() - 1), cps).completed(
            visits[cps.len() - 1].0,
            cps,
            visits[cps.len() - 1].1,
        ) == Some(
            LapTime {
                lap: (state.laps + 1) as u64,
                elapsed: (visits[cps.len() - 1].1 - state.lap_start) as i64,
            },
        ),
        progressed(state, visits, cps).checkpoint == 0,
        progressed(state, visits, cps).laps == state.laps + 1,
        progressed(state, visits, cps).lap_start == visits[cps.len() - 1].1 as i64,
{
    let n = cps.len() as int;
    lemma_cycle_prefix(state, visits, cps, n);
    lemma_cycle_prefix(state, visits, cps, n - 1);
    assert(visits.take(n) =~= visits);
    assert forall|k: int| 1 <= k < cps.len() implies (#[trigger] progressed(
        state,
        visits.take(k),
        cps,
    )).checkpoint == k && progressed(state, visits.take(k), cps).laps == state.laps
        && progressed(state, visits.take(k), cps).lap_start == state.lap_start by {
        lemma_cycle_prefix(state, visits, cps, k);
    }
    assert forall|k: int| 0 <= k < cps.len() - 1 implies (#[trigger] progressed(
        state,
        visits.take(k),
        cps,
    )).completed(visits[k].0, cps, visits[k].1).is_none() by {
        lemma_cycle_prefix(state, visits, cps, k);
    }
}

proof fn lemma_cycle_prefix(state: LapState, visits: Seq<(Vec3, int)>, cps: Seq<Checkpoint>, k: int)
    requires
        0 < cps.len() <= usize::MAX,
        state.wf(cps.len() as int),
        state.checkpoint == 0,
        visits.len() == cps.len(),
        forall|j: int| 0 <= j < cps.len() ==> reached(#[trigger] visits[j].0, cps[j]),
        0 <= k <= cps.len(),
    ensures
        k < cps.len() ==> progressed(state, visits.take(k), cps) == (LapState {
            checkpoint: k as usize,
            ..state
        }),
        k == cps.len() ==> progressed(state, visits.take(k), cps) == (LapState {
            checkpoint: 0,
            laps: (state.laps + 1) as u64,
            lap_start: visits[k - 1].1 as i64,
        }),
    decreases k,
{
    if k == 0 {
        assert(visits.take(0).len() == 0);
    } else {
        lemma_cycle_prefix(state, visits, cps, k - 1);
        let prefix = visits.take(k);
        assert(prefix.drop_last() =~= visits.take(k - 1));
        assert(prefix.last() == visits[k - 1]);
        assert(reached(visits[k - 1].0, cps[k - 1]));
        let prev = progressed(state, visits.take(k - 1), cps);
        assert(prev.checkpoint == k - 1);
        assert(progressed(state, prefix, cps) == prev.advanced(visits[k - 1].0, cps, visits[k - 1].1));
    }
}

} // verus!
