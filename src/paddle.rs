use vstd::prelude::*;

use crate::config::{MAX_DT, PADDLE_HEIGHT, PADDLE_SPEED, PADDLE_WIDTH, SCREEN_WIDTH, SPEED_BOUND};
use crate::geometry::Vec2;

verus! {

/// The player's paddle. It moves sideways only.
#[derive(Clone, Copy, Debug, PartialEq, Eq, Structural)]
pub struct Paddle {
    pub position: Vec2,
    pub width: i64,
    pub height: i64,
    pub speed: i64,
}

/// The paddle's horizontal position after a frame of `dt` with the move
/// keys as given. A left move is clamped at the left edge, then a right move
/// at the right edge; both apply when both keys are held.
pub open spec fn paddle_x_after(p: Paddle, dt: int, left: bool, right: bool) -> int {
    let step = p.speed * dt;
    let x1 = if left {
        if p.position.x - step < 0 { 0 } else { p.position.x - step }
    } else {
        p.position.x as int
    };
    if right {
        if x1 + step + p.width > SCREEN_WIDTH { SCREEN_WIDTH - p.width } else { x1 + step }
    } else {
        x1
    }
}

impl Paddle {
    /// The paddle lies on screen, `0 <= x <= SCREEN_WIDTH - width`, and its
    /// size and speed are sensible.
    pub open spec fn well_formed(&self) -> bool {
        &&& 2 <= self.width <= SCREEN_WIDTH
        &&& 0 <= self.speed <= SPEED_BOUND
        &&& 0 <= self.position.x <= SCREEN_WIDTH - self.width
    }

    /// The paddle after a frame of `dt` with the move keys as given.
    pub open spec fn moved(self, dt: int, left: bool, right: bool) -> Paddle {
        Paddle {
            position: Vec2 { x: paddle_x_after(self, dt, left, right) as i64, ..self.position },
            ..self
        }
    }

    /// A paddle of the standard size and speed at `(x, y)`.
    pub open spec fn new_spec(x: i64, y: i64) -> Paddle {
        Paddle {
            position: Vec2 { x, y },
            width: PADDLE_WIDTH,
            height: PADDLE_HEIGHT,
            speed: PADDLE_SPEED,
        }
    }

    pub fn new(x: i64, y: i64) -> (r: Paddle)
        ensures
            r == Paddle::new_spec(x, y),
    {
        Paddle {
            position: Vec2::new(x, y),
            width: PADDLE_WIDTH,
            height: PADDLE_HEIGHT,
            speed: PADDLE_SPEED,
        }
    }

    /// Moves the paddle for `dt` while the left and/or right key is held,
    /// keeping it on screen.
    pub fn update(&mut self, dt: i64, left: bool, right: bool)
        requires
            old(self).well_formed(),
            0 <= dt <= MAX_DT,
        ensures
            *final(self) == old(self).moved(dt as int, left, right),
            final(self).well_formed(),
    {
        proof {
            assert(0 <= self.speed * dt <= SPEED_BOUND * MAX_DT) by (nonlinear_arith)
                requires 0 <= self.speed <= SPEED_BOUND, 0 <= dt <= MAX_DT;
        }
        let step = self.speed * dt;
        if left {
            self.position.x = self.position.x - step;
            if self.position.x < 0 {
                self.position.x = 0;
            }
        }
        if right {
            self.position.x = self.position.x + step;
            if self.position.x + self.width > SCREEN_WIDTH {
                self.position.x = SCREEN_WIDTH - self.width;
            }
        }
    }

    /// `(x, y, width, height)` of the paddle's rectangle.
    pub fn get_rect(&self) -> (r: (i64, i64, i64, i64))
        ensures
            r == (self.position.x, self.position.y, self.width, self.height),
    {
        (self.position.x, self.position.y, self.width, self.height)
    }
}

} // verus!
