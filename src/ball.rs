use vstd::prelude::*;

use crate::config::{BALL_RADIUS, LAUNCH_VX, LAUNCH_VY, TRAIL_CAPACITY};
use crate::geometry::{move_fits, moved, Vec2};

verus! {

/// The ball: where it is, how fast it moves, and the trail of its most
/// recent positions, oldest first.
pub struct Ball {
    pub position: Vec2,
    pub velocity: Vec2,
    pub radius: i64,
    pub trail: Vec<Vec2>,
}

/// The ball as plain values.
pub struct BallView {
    pub position: Vec2,
    pub velocity: Vec2,
    pub radius: i64,
    pub trail: Seq<Vec2>,
}

impl View for Ball {
    type V = BallView;

    open spec fn view(&self) -> BallView {
        BallView {
            position: self.position,
            velocity: self.velocity,
            radius: self.radius,
            trail: self.trail@,
        }
    }
}

/// The launch velocity every served ball gets.
pub open spec fn launch_velocity() -> Vec2 {
    Vec2 { x: LAUNCH_VX, y: LAUNCH_VY }
}

/// The trail after `p` is recorded: appended at the end, and the oldest
/// point dropped once the trail holds more than its capacity.
pub open spec fn trail_with(trail: Seq<Vec2>, p: Vec2) -> Seq<Vec2> {
    let t = trail.push(p);
    if t.len() > TRAIL_CAPACITY {
        t.subrange(1, t.len() as int)
    } else {
        t
    }
}

/// The ball after flying for `dt` milliseconds.
pub open spec fn ball_flown(b: BallView, dt: int) -> BallView {
    let p = moved(b.position, b.velocity, dt);
    BallView { position: p, trail: trail_with(b.trail, p), ..b }
}

/// A ball served at `(x, y)`: launch velocity, empty trail.
pub open spec fn ball_served(b: BallView, x: i64, y: i64) -> BallView {
    BallView { position: Vec2 { x, y }, velocity: launch_velocity(), trail: Seq::empty(), ..b }
}

impl Ball {
    pub fn new(x: i64, y: i64) -> (r: Ball)
        ensures
            r@ == (BallView {
                position: Vec2 { x, y },
                velocity: launch_velocity(),
                radius: BALL_RADIUS,
                trail: Seq::empty(),
            }),
    {
        Ball {
            position: Vec2::new(x, y),
            velocity: Vec2::new(LAUNCH_VX, LAUNCH_VY),
            radius: BALL_RADIUS,
            trail: Vec::new(),
        }
    }

    /// Moves the ball by its velocity over `dt` and records the new
    /// position in the trail.
    pub fn update(&mut self, dt: i64)
        requires
            move_fits(old(self).position, old(self).velocity, dt as int),
        ensures
            final(self)@ == ball_flown(old(self)@, dt as int),
            old(self).trail.len() <= TRAIL_CAPACITY ==> final(self).trail.len() <= TRAIL_CAPACITY,
    {
        self.position = self.position.advanced(self.velocity, dt);
        self.trail.push(self.position);
        if self.trail.len() > TRAIL_CAPACITY {
            self.trail.remove(0);
        }
        proof {
            let t = old(self).trail@.push(self.position);
            if t.len() > TRAIL_CAPACITY {
                assert(t.remove(0) =~= t.subrange(1, t.len() as int));
            }
        }
    }

    /// Serves the ball again at `(x, y)`.
    pub fn reset(&mut self, x: i64, y: i64)
        ensures
            final(self)@ == ball_served(old(self)@, x, y),
    {
        self.position = Vec2::new(x, y);
        self.velocity = Vec2::new(LAUNCH_VX, LAUNCH_VY);
        self.trail.clear();
    }
}

} // verus!
