use vstd::prelude::*;

verus! {

/// Micro-pixels in one pixel.
pub const UNIT: i64 = 1_000_000;

pub const SCREEN_WIDTH: i64 = 800_000_000;
pub const SCREEN_HEIGHT: i64 = 600_000_000;

pub const BALL_RADIUS: i64 = 8_000_000;
/// Launch velocity of the ball: 200 px/s right, 250 px/s up.
pub const LAUNCH_VX: i64 = 200_000;
pub const LAUNCH_VY: i64 = -250_000;
/// Where the ball is served: centred, 100 px above the bottom edge.
pub const SERVE_X: i64 = 400_000_000;
pub const SERVE_Y: i64 = 500_000_000;
/// The ball is lost once its centre is this far below the bottom edge.
pub const FALL_MARGIN: i64 = 50_000_000;
/// Number of recent ball positions kept for the trail.
pub const TRAIL_CAPACITY: usize = 10;

pub const PADDLE_WIDTH: i64 = 100_000_000;
pub const PADDLE_HEIGHT: i64 = 15_000_000;
/// 400 px/s.
pub const PADDLE_SPEED: i64 = 400_000;
pub const PADDLE_START_X: i64 = 350_000_000;
pub const PADDLE_Y: i64 = 540_000_000;
/// Horizontal speed added when the ball strikes the paddle one half-width
/// from its centre: 100 px/s.
pub const PADDLE_SPIN: i64 = 100_000;
/// Largest horizontal ball speed after a paddle bounce: 300 px/s.
pub const MAX_BOUNCE_VX: i64 = 300_000;

pub const BRICK_WIDTH: i64 = 75_000_000;
pub const BRICK_HEIGHT: i64 = 25_000_000;
pub const BRICK_GAP: i64 = 2_000_000;
pub const BRICK_ROWS: usize = 8;
pub const BRICK_COLS: usize = 10;
pub const BRICK_COUNT: usize = 80;
/// Left edge of the grid: (800 - 10 * 77) / 2 px.
pub const BRICK_LEFT: i64 = 15_000_000;
pub const BRICK_TOP: i64 = 60_000_000;
/// A struck brick's animation starts at this many thousandths ...
pub const HIT_ANIMATION_START: i64 = 1000;
/// ... and loses this many thousandths per millisecond (three per second).
pub const HIT_ANIMATION_RATE: i64 = 3;
pub const BRICK_SCORE: u32 = 10;

pub const START_LIVES: u32 = 3;

/// Particles thrown out by a struck brick.
pub const PARTICLES_PER_HIT: usize = 8;
/// Downward acceleration of particles: 200 px/s^2, in micro-pixels per
/// millisecond, per millisecond.
pub const GRAVITY: i64 = 200;

/// Longest particle life a well-formed game holds: 100 s.
pub const LIFE_BOUND: i64 = 100_000;

/// Longest frame the simulation accepts: one minute.
pub const MAX_DT: i64 = 60_000;
/// Bound on any coordinate of a well-formed game: 10_000 px.
pub const FIELD_BOUND: i64 = 10_000_000_000;
/// Bound on any velocity component of a well-formed game: 10_000 px/s.
pub const SPEED_BOUND: i64 = 10_000_000;

/// Furthest a ball of a well-formed game can get from the origin in one
/// frame: `FIELD_BOUND + SPEED_BOUND * MAX_DT`.
pub const REACH: i64 = 610_000_000_000;
/// Fastest fall a particle of a well-formed game can reach: its launch
/// speed plus gravity over `LIFE_BOUND`.
pub const FALL_SPEED_BOUND: i64 = 30_000_000;

} // verus!
