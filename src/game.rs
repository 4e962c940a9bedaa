use vstd::prelude::*;

use crate::ball::{ball_flown, ball_served, launch_velocity, Ball, BallView};
use crate::brick::{color_of_row, Brick, BrickColor};
use crate::config::{
    BALL_RADIUS, BRICK_COLS, BRICK_COUNT, BRICK_GAP, BRICK_HEIGHT, BRICK_LEFT, BRICK_ROWS,
    BRICK_SCORE, BRICK_TOP, BRICK_WIDTH, FALL_MARGIN, FALL_SPEED_BOUND, FIELD_BOUND, GRAVITY,
    LIFE_BOUND, MAX_BOUNCE_VX, MAX_DT, PADDLE_SPIN, PADDLE_START_X, PADDLE_Y, PARTICLES_PER_HIT,
    REACH, SCREEN_HEIGHT, SCREEN_WIDTH, SERVE_X, SERVE_Y, SPEED_BOUND, START_LIVES,
    TRAIL_CAPACITY,
};
use crate::geometry::{bounded, lemma_move_fits, lemma_product_bounded, vec_bounded, Vec2};
use crate::laws::lemma_step_well_formed;
use crate::paddle::Paddle;
use crate::particle::{launched, Particle, ParticleLaunch};
use vstd::arithmetic::div_mod::{lemma_div_is_ordered_by_denominator, lemma_div_pos_is_pos};

verus! {

/// Only a playing game advances; pause toggles between playing and paused,
/// and a game that is over or won waits for a restart.
#[derive(Clone, Copy, Debug, PartialEq, Eq, Structural)]
pub enum GameState {
    Playing,
    GameOver,
    Victory,
    Paused,
}

/// The keys of one frame: `left` and `right` are held, `pause_pressed` and
/// `restart_pressed` went down during the frame.
#[derive(Clone, Copy, Debug, PartialEq, Eq, Structural)]
pub struct FrameInput {
    pub left: bool,
    pub right: bool,
    pub pause_pressed: bool,
    pub restart_pressed: bool,
}

/// The whole game: ball, paddle, the brick grid in row-major order, the live
/// particles, score, lives and state.
pub struct Game {
    pub ball: Ball,
    pub paddle: Paddle,
    pub bricks: Vec<Brick>,
    pub state: GameState,
    pub score: u32,
    pub lives: u32,
    pub particles: Vec<Particle>,
}

/// The game as plain values.
pub struct GameView {
    pub ball: BallView,
    pub paddle: Paddle,
    pub bricks: Seq<Brick>,
    pub state: GameState,
    pub score: u32,
    pub lives: u32,
    pub particles: Seq<Particle>,
}

impl View for Game {
    type V = GameView;

    open spec fn view(&self) -> GameView {
        GameView {
            ball: self.ball@,
            paddle: self.paddle,
            bricks: self.bricks@,
            state: self.state,
            score: self.score,
            lives: self.lives,
            particles: self.particles@,
        }
    }
}

// ---------------------------------------------------------------------------
// The brick grid

/// Brick `i` of a fresh grid: row `i / BRICK_COLS`, column `i % BRICK_COLS`,
/// 2 px apart.
pub open spec fn grid_brick(i: int) -> Brick {
    let row = i / BRICK_COLS as int;
    let col = i % BRICK_COLS as int;
    Brick {
        position: Vec2 {
            x: (BRICK_LEFT + col * (BRICK_WIDTH + BRICK_GAP)) as i64,
            y: (BRICK_TOP + row * (BRICK_HEIGHT + BRICK_GAP)) as i64,
        },
        width: BRICK_WIDTH,
        height: BRICK_HEIGHT,
        destroyed: false,
        color: color_of_row(row),
        hit_animation: 0,
    }
}

/// The fresh grid of `BRICK_ROWS * BRICK_COLS` standing bricks.
pub open spec fn initial_bricks() -> Seq<Brick> {
    Seq::new(BRICK_COUNT as nat, |i: int| grid_brick(i))
}

/// Every brick is destroyed or animating.
pub open spec fn all_inert(bricks: Seq<Brick>) -> bool {
    forall|i: int| 0 <= i < bricks.len() ==> #[trigger] bricks[i].inert()
}

// ---------------------------------------------------------------------------
// Collisions

/// The ball's bounding square overlaps the rectangle `(x, y, w, h)`.
pub open spec fn overlaps(b: BallView, x: int, y: int, w: int, h: int) -> bool {
    &&& b.position.x + b.radius > x
    &&& b.position.x - b.radius < x + w
    &&& b.position.y + b.radius > y
    &&& b.position.y - b.radius < y + h
}

/// `a / d` rounded towards zero, for `d > 0`.
pub open spec fn div_toward_zero(a: int, d: int) -> int {
    if a >= 0 {
        a / d
    } else {
        -((-a) / d)
    }
}

pub open spec fn abs(a: int) -> int {
    if a >= 0 {
        a
    } else {
        -a
    }
}

/// The ball after the side and top walls: pushed back inside and its
/// velocity reflected. There is no bottom wall.
pub open spec fn off_walls(b: BallView) -> BallView {
    let r = b.radius;
    let b1 = if b.position.x - r <= 0 {
        BallView {
            position: Vec2 { x: r, ..b.position },
            velocity: Vec2 { x: -b.velocity.x as i64, ..b.velocity },
            ..b
        }
    } else {
        b
    };
    let b2 = if b1.position.x + r >= SCREEN_WIDTH {
        BallView {
            position: Vec2 { x: (SCREEN_WIDTH - r) as i64, ..b1.position },
            velocity: Vec2 { x: -b1.velocity.x as i64, ..b1.velocity },
            ..b1
        }
    } else {
        b1
    };
    if b2.position.y - r <= 0 {
        BallView {
            position: Vec2 { y: r, ..b2.position },
            velocity: Vec2 { y: -b2.velocity.y as i64, ..b2.velocity },
            ..b2
        }
    } else {
        b2
    }
}

/// The game after checking whether the ball fell out: a life is lost; with
/// none left the game is over, else the ball is served again. The count of
/// lives is tested before it is lowered, so it never goes below zero.
pub open spec fn after_fall(g: GameView) -> GameView {
    if g.ball.position.y > SCREEN_HEIGHT + FALL_MARGIN {
        if g.lives <= 1 {
            GameView { lives: 0, state: GameState::GameOver, ..g }
        } else {
            GameView {
                lives: (g.lives - 1) as u32,
                ball: ball_served(g.ball, SERVE_X, SERVE_Y),
                ..g
            }
        }
    } else {
        g
    }
}

/// Horizontal velocity after a paddle bounce: the spin for where the ball
/// struck, added and then clamped to `MAX_BOUNCE_VX` in magnitude.
pub open spec fn spun_vx(b: BallView, p: Paddle) -> int {
    let half = p.width / 2;
    let dx = b.position.x - (p.position.x + half);
    let vx = b.velocity.x + div_toward_zero(dx * PADDLE_SPIN, half);
    if vx > MAX_BOUNCE_VX {
        MAX_BOUNCE_VX as int
    } else if vx < -MAX_BOUNCE_VX {
        -MAX_BOUNCE_VX
    } else {
        vx
    }
}

/// The ball after the paddle: a falling ball that overlaps it goes back up,
/// with spin.
pub open spec fn off_paddle(b: BallView, p: Paddle) -> BallView {
    if overlaps(b, p.position.x as int, p.position.y as int, p.width as int, p.height as int)
        && b.velocity.y > 0 {
        BallView { velocity: Vec2 { x: spun_vx(b, p) as i64, y: -b.velocity.y as i64 }, ..b }
    } else {
        b
    }
}

/// The ball can strike this brick.
pub open spec fn strikes(b: BallView, br: Brick) -> bool {
    !br.inert() && overlaps(
        b,
        br.position.x as int,
        br.position.y as int,
        br.width as int,
        br.height as int,
    )
}

/// Index of the first brick from `i` on that the ball strikes, or the
/// number of bricks if there is none.
pub open spec fn first_struck(b: BallView, bricks: Seq<Brick>, i: int) -> int
    decreases bricks.len() - i,
{
    if i < 0 || i >= bricks.len() {
        bricks.len() as int
    } else if strikes(b, bricks[i]) {
        i
    } else {
        first_struck(b, bricks, i + 1)
    }
}

/// The ball bounces off `br` along the axis it penetrates least, relative
/// to the brick's half-size: sideways if its horizontal offset from the
/// brick's centre is the larger, else vertically.
pub open spec fn off_brick(b: BallView, br: Brick) -> BallView {
    let hw = br.width / 2;
    let hh = br.height / 2;
    let dx = b.position.x - (br.position.x + hw);
    let dy = b.position.y - (br.position.y + hh);
    if abs(dx) * hh > abs(dy) * hw {
        BallView { velocity: Vec2 { x: -b.velocity.x as i64, ..b.velocity }, ..b }
    } else {
        BallView { velocity: Vec2 { y: -b.velocity.y as i64, ..b.velocity }, ..b }
    }
}

/// Particles thrown out from `(x, y)`, one for each launch.
pub open spec fn burst(x: int, y: int, color: BrickColor, launches: Seq<ParticleLaunch>) -> Seq<
    Particle,
> {
    launches.map_values(|l: ParticleLaunch| launched(x as i64, y as i64, color, l))
}

/// The game after the bricks: the first brick in row-major order that the
/// ball strikes is hit, scores, throws out particles from its centre and
/// bounces the ball. At most one brick is struck.
pub open spec fn after_bricks(g: GameView, launches: Seq<ParticleLaunch>) -> GameView {
    let i = first_struck(g.ball, g.bricks, 0);
    if i < g.bricks.len() {
        let br = g.bricks[i];
        GameView {
            ball: off_brick(g.ball, br),
            bricks: g.bricks.update(i, br.struck()),
            score: (g.score + BRICK_SCORE) as u32,
            particles: g.particles + burst(
                br.position.x + br.width / 2,
                br.position.y + br.height / 2,
                br.color,
                launches,
            ),
            ..g
        }
    } else {
        g
    }
}

/// The game after all collisions of a frame: walls, falling out, paddle,
/// bricks, in that order.
pub open spec fn collided(g: GameView, launches: Seq<ParticleLaunch>) -> GameView {
    let g1 = GameView { ball: off_walls(g.ball), ..g };
    let g2 = after_fall(g1);
    let g3 = GameView { ball: off_paddle(g2.ball, g2.paddle), ..g2 };
    after_bricks(g3, launches)
}

// ---------------------------------------------------------------------------
// Frames

/// The particles still alive, in order.
pub open spec fn survivors(s: Seq<Particle>) -> Seq<Particle>
    decreases s.len(),
{
    if s.len() == 0 {
        s
    } else {
        let rest = survivors(s.drop_last());
        if s.last().dead() {
            rest
        } else {
            rest.push(s.last())
        }
    }
}

/// The game after the motion of a frame of `dt`, before collisions.
pub open spec fn moved(g: GameView, dt: int, input: FrameInput) -> GameView {
    GameView {
        paddle: g.paddle.moved(dt, input.left, input.right),
        ball: ball_flown(g.ball, dt),
        bricks: g.bricks.map_values(|b: Brick| b.aged(dt)),
        particles: survivors(g.particles.map_values(|p: Particle| p.aged(dt))),
        ..g
    }
}

/// A fresh game with the ball, paddle and grid of `g` reset.
pub open spec fn restarted(g: GameView) -> GameView {
    GameView {
        ball: ball_served(g.ball, SERVE_X, SERVE_Y),
        paddle: Paddle { position: Vec2 { x: PADDLE_START_X, y: PADDLE_Y }, ..g.paddle },
        bricks: initial_bricks(),
        state: GameState::Playing,
        score: 0,
        lives: START_LIVES,
        particles: Seq::empty(),
    }
}

/// `g` with the pause key applied: it toggles between playing and paused.
pub open spec fn pause_toggled(g: GameView, pressed: bool) -> GameView {
    if pressed && g.state == GameState::Playing {
        GameView { state: GameState::Paused, ..g }
    } else if pressed && g.state == GameState::Paused {
        GameView { state: GameState::Playing, ..g }
    } else {
        g
    }
}

/// One frame of `dt`. Only a playing game advances: it moves, collides, and
/// is won once every brick is inert. A stopped game restarts on request.
/// The pause key is applied last.
pub open spec fn stepped(
    g: GameView,
    dt: int,
    input: FrameInput,
    launches: Seq<ParticleLaunch>,
) -> GameView {
    let g1 = if g.state == GameState::Playing {
        let c = collided(moved(g, dt, input), launches);
        if all_inert(c.bricks) {
            GameView { state: GameState::Victory, ..c }
        } else {
            c
        }
    } else if input.restart_pressed {
        restarted(g)
    } else {
        g
    };
    pause_toggled(g1, input.pause_pressed)
}

// ---------------------------------------------------------------------------
// Bounds that keep the integer arithmetic of a frame in range

/// A brick of positive size inside the field.
pub open spec fn brick_sized(b: Brick) -> bool {
    &&& vec_bounded(b.position, FIELD_BOUND as int)
    &&& 0 < b.width <= FIELD_BOUND
    &&& 0 < b.height <= FIELD_BOUND
}

/// A particle of a well-formed game: alive, launched at most `LIFE_BOUND`
/// ago from inside the field at a bounded speed, and no further or faster
/// than it can have got since. Its age is measured as `LIFE_BOUND - life`.
pub open spec fn particle_in_flight(p: Particle) -> bool {
    let age = LIFE_BOUND - p.life;
    &&& 0 < p.life <= LIFE_BOUND
    &&& bounded(p.velocity.x as int, SPEED_BOUND as int)
    &&& -SPEED_BOUND <= p.velocity.y <= SPEED_BOUND + GRAVITY * age
    &&& bounded(p.position.x as int, 2 * FIELD_BOUND + SPEED_BOUND * age)
    &&& bounded(p.position.y as int, 2 * FIELD_BOUND + FALL_SPEED_BOUND * age)
}

/// A particle launch that a well-formed game accepts.
pub open spec fn launch_ok(l: ParticleLaunch) -> bool {
    &&& 0 < l.life <= LIFE_BOUND
    &&& vec_bounded(l.velocity, SPEED_BOUND as int)
}

/// A ball whose collisions stay in range.
pub open spec fn ball_in_reach(b: BallView) -> bool {
    &&& vec_bounded(b.position, REACH as int)
    &&& vec_bounded(b.velocity, SPEED_BOUND as int)
    &&& 0 <= b.radius <= FIELD_BOUND
}

/// Paddle and bricks are sized so that collisions stay in range.
pub open spec fn field_sized(g: GameView) -> bool {
    &&& g.paddle.well_formed()
    &&& bounded(g.paddle.position.y as int, FIELD_BOUND as int)
    &&& 0 <= g.paddle.height <= FIELD_BOUND
    &&& forall|i: int| 0 <= i < g.bricks.len() ==> #[trigger] brick_sized(g.bricks[i])
}

/// The game can collide: its ball is in reach, its field sized, and a
/// struck brick's score fits.
pub open spec fn collision_ready(g: GameView) -> bool {
    &&& ball_in_reach(g.ball)
    &&& field_sized(g)
    &&& g.score <= u32::MAX - BRICK_SCORE
}

impl GameView {
    /// Every size is positive, the paddle is on screen and fits at its
    /// starting place, the trail is within capacity, and every coordinate,
    /// velocity and lifetime is small enough that a frame of up to `MAX_DT`
    /// stays in range. A ball that is still in play lies within
    /// `FIELD_BOUND`; one that ended the game may have fallen further.
    pub open spec fn well_formed(self) -> bool {
        &&& ball_in_reach(self.ball)
        &&& (self.state == GameState::Playing || self.state == GameState::Paused) ==> vec_bounded(
            self.ball.position,
            FIELD_BOUND as int,
        )
        &&& self.ball.trail.len() <= TRAIL_CAPACITY
        &&& field_sized(self)
        &&& self.paddle.width <= SCREEN_WIDTH - PADDLE_START_X
        &&& forall|i: int|
            0 <= i < self.particles.len() ==> #[trigger] particle_in_flight(self.particles[i])
    }
}

// ---------------------------------------------------------------------------
// Executable steps

/// The ball's bounding square overlaps the rectangle `(x, y, w, h)`.
fn ball_overlaps(ball: &Ball, x: i64, y: i64, w: i64, h: i64) -> (r: bool)
    requires
        ball_in_reach(ball@),
        bounded(x as int, FIELD_BOUND as int),
        bounded(y as int, FIELD_BOUND as int),
        0 <= w <= FIELD_BOUND,
        0 <= h <= FIELD_BOUND,
    ensures
        r == overlaps(ball@, x as int, y as int, w as int, h as int),
{
    ball.position.x + ball.radius > x && ball.position.x - ball.radius < x + w
        && ball.position.y + ball.radius > y && ball.position.y - ball.radius < y + h
}

/// Index of the first brick that the ball strikes, or the number of bricks.
fn first_struck_index(ball: &Ball, bricks: &Vec<Brick>) -> (r: usize)
    requires
        ball_in_reach(ball@),
        forall|i: int| 0 <= i < bricks@.len() ==> #[trigger] brick_sized(bricks@[i]),
    ensures
        r == first_struck(ball@, bricks@, 0),
{
    let mut i: usize = 0;
    while i < bricks.len()
        invariant
            i <= bricks@.len(),
            ball_in_reach(ball@),
            forall|k: int| 0 <= k < bricks@.len() ==> #[trigger] brick_sized(bricks@[k]),
            first_struck(ball@, bricks@, 0) == first_struck(ball@, bricks@, i as int),
        decreases bricks@.len() - i,
    {
        let br = bricks[i];
        assert(brick_sized(bricks@[i as int]));
        if !(br.destroyed || br.hit_animation > 0) && ball_overlaps(
            ball,
            br.position.x,
            br.position.y,
            br.width,
            br.height,
        ) {
            return i;
        }
        i = i + 1;
    }
    i
}

/// Appends one particle at `(x, y)` for each launch.
fn spawn_burst(
    particles: &mut Vec<Particle>,
    x: i64,
    y: i64,
    color: BrickColor,
    launches: &Vec<ParticleLaunch>,
)
    ensures
        final(particles)@ == old(particles)@ + burst(x as int, y as int, color, launches@),
{
    let ghost start = old(particles)@;
    let mut i: usize = 0;
    while i < launches.len()
        invariant
            i <= launches@.len(),
            particles@ == start + burst(x as int, y as int, color, launches@.subrange(0, i as int)),
        decreases launches@.len() - i,
    {
        particles.push(Particle::new(x, y, color, launches[i]));
        i = i + 1;
        assert(burst(x as int, y as int, color, launches@.subrange(0, i as int)) =~= burst(
            x as int,
            y as int,
            color,
            launches@.subrange(0, i - 1),
        ).push(launched(x, y, color, launches@[i - 1])));
    }
    assert(launches@.subrange(0, i as int) =~= launches@);
}

impl Game {
    fn collide_walls(&mut self)
        requires
            ball_in_reach(old(self).ball@),
        ensures
            final(self)@ == (GameView { ball: off_walls(old(self).ball@), ..old(self)@ }),
            ball_in_reach(final(self).ball@),
    {
        if self.ball.position.x - self.ball.radius <= 0 {
            self.ball.position.x = self.ball.radius;
            self.ball.velocity.x = -self.ball.velocity.x;
        }
        if self.ball.position.x + self.ball.radius >= SCREEN_WIDTH {
            self.ball.position.x = SCREEN_WIDTH - self.ball.radius;
            self.ball.velocity.x = -self.ball.velocity.x;
        }
        if self.ball.position.y - self.ball.radius <= 0 {
            self.ball.position.y = self.ball.radius;
            self.ball.velocity.y = -self.ball.velocity.y;
        }
    }

    fn check_fall(&mut self)
        requires
            ball_in_reach(old(self).ball@),
        ensures
            final(self)@ == after_fall(old(self)@),
            ball_in_reach(final(self).ball@),
    {
        if self.ball.position.y > SCREEN_HEIGHT + FALL_MARGIN {
            if self.lives <= 1 {
                self.lives = 0;
                self.state = GameState::GameOver;
            } else {
                self.lives = self.lives - 1;
                self.ball.reset(SERVE_X, SERVE_Y);
            }
        }
    }

    fn collide_paddle(&mut self)
        requires
            ball_in_reach(old(self).ball@),
            field_sized(old(self)@),
        ensures
            final(self)@ == (GameView {
                ball: off_paddle(old(self).ball@, old(self).paddle),
                ..old(self)@
            }),
            ball_in_reach(final(self).ball@),
    {
        let (px, py, pw, ph) = self.paddle.get_rect();
        if ball_overlaps(&self.ball, px, py, pw, ph) && self.ball.velocity.y > 0 {
            self.ball.velocity.y = -self.ball.velocity.y;
            let half = pw / 2;
            let dx = self.ball.position.x - (px + half);
            let a = dx * PADDLE_SPIN;
            let spin = if a >= 0 {
                proof {
                    lemma_div_is_ordered_by_denominator(a as int, 1, half as int);
                    lemma_div_pos_is_pos(a as int, half as int);
                }
                a / half
            } else {
                proof {
                    lemma_div_is_ordered_by_denominator(-a, 1, half as int);
                    lemma_div_pos_is_pos(-a, half as int);
                }
                -((-a) / half)
            };
            let vx = self.ball.velocity.x + spin;
            self.ball.velocity.x = if vx > MAX_BOUNCE_VX {
                MAX_BOUNCE_VX
            } else if vx < -MAX_BOUNCE_VX {
                -MAX_BOUNCE_VX
            } else {
                vx
            };
        }
    }

    fn collide_bricks(&mut self, launches: &Vec<ParticleLaunch>)
        requires
            collision_ready(old(self)@),
        ensures
            final(self)@ == after_bricks(old(self)@, launches@),
    {
        let i = first_struck_index(&self.ball, &self.bricks);
        if i < self.bricks.len() {
            let mut br = self.bricks[i];
            assert(brick_sized(self.bricks@[i as int]));
            let (bx, by, bw, bh) = br.get_rect();
            br.hit();
            self.bricks.set(i, br);
            self.score = self.score + BRICK_SCORE;
            let half_w = bw / 2;
            let half_h = bh / 2;
            let cx = bx + half_w;
            let cy = by + half_h;
            spawn_burst(&mut self.particles, cx, cy, br.color, launches);
            let dx = self.ball.position.x - cx;
            let dy = self.ball.position.y - cy;
            let adx: i128 = if dx >= 0 { dx as i128 } else { -(dx as i128) };
            let ady: i128 = if dy >= 0 { dy as i128 } else { -(dy as i128) };
            proof {
                assert(adx * half_h <= 1_000_000_000_000 * 10_000_000_000) by (nonlinear_arith)
                    requires 0 <= adx <= 1_000_000_000_000, 0 <= half_h <= 10_000_000_000;
                assert(ady * half_w <= 1_000_000_000_000 * 10_000_000_000) by (nonlinear_arith)
                    requires 0 <= ady <= 1_000_000_000_000, 0 <= half_w <= 10_000_000_000;
            }
            if adx * (half_h as i128) > ady * (half_w as i128) {
                self.ball.velocity.x = -self.ball.velocity.x;
            } else {
                self.ball.velocity.y = -self.ball.velocity.y;
            }
        }
    }

    /// Resolves the collisions of one frame: side and top walls, the ball
    /// falling out, the paddle, and at most one brick, which scores
    /// `BRICK_SCORE` and throws out one particle per launch.
    pub fn handle_collisions(&mut self, launches: &Vec<ParticleLaunch>)
        requires
            collision_ready(old(self)@),
            launches@.len() == PARTICLES_PER_HIT,
        ensures
            final(self)@ == collided(old(self)@, launches@),
    {
        self.collide_walls();
        self.check_fall();
        self.collide_paddle();
        self.collide_bricks(launches);
    }
}

/// Advances every brick's hit animation by `dt`.
fn age_bricks(bricks: &mut Vec<Brick>, dt: i64)
    requires
        0 <= dt <= MAX_DT,
    ensures
        final(bricks)@ == old(bricks)@.map_values(|b: Brick| b.aged(dt as int)),
{
    let ghost start = old(bricks)@;
    let mut i: usize = 0;
    while i < bricks.len()
        invariant
            0 <= dt <= MAX_DT,
            i <= bricks@.len(),
            bricks@.len() == start.len(),
            forall|k: int| 0 <= k < i ==> #[trigger] bricks@[k] == start[k].aged(dt as int),
            forall|k: int| i <= k < bricks@.len() ==> #[trigger] bricks@[k] == start[k],
        decreases bricks@.len() - i,
    {
        let mut b = bricks[i];
        b.update(dt);
        bricks.set(i, b);
        i = i + 1;
    }
    assert(bricks@ =~= start.map_values(|b: Brick| b.aged(dt as int)));
}

/// A frame of a particle in flight stays in range, and the particle is
/// still in flight afterwards unless it died.
pub proof fn lemma_aged_in_flight(p: Particle, dt: int)
    requires
        particle_in_flight(p),
        0 <= dt <= MAX_DT,
    ensures
        p.step_fits(dt),
        !p.aged(dt).dead() ==> particle_in_flight(p.aged(dt)),
{
    lemma_product_bounded(p.velocity.x as int, SPEED_BOUND as int, dt, MAX_DT as int);
    lemma_product_bounded(p.velocity.y as int, FALL_SPEED_BOUND as int, dt, MAX_DT as int);
}

/// The survivors of particles that are in flight unless dead are all in
/// flight.
pub proof fn lemma_survivors_in_flight(s: Seq<Particle>)
    requires
        forall|j: int| 0 <= j < s.len() && !s[j].dead() ==> #[trigger] particle_in_flight(s[j]),
    ensures
        forall|k: int|
            0 <= k < survivors(s).len() ==> #[trigger] particle_in_flight(survivors(s)[k]),
    decreases s.len(),
{
    if s.len() > 0 {
        let t = s.drop_last();
        assert forall|j: int| 0 <= j < t.len() && !t[j].dead() implies #[trigger] particle_in_flight(
            t[j],
        ) by {
            assert(t[j] == s[j]);
        }
        lemma_survivors_in_flight(t);
        let rest = survivors(t);
        if !s.last().dead() {
            assert(particle_in_flight(s[s.len() - 1]));
            assert forall|k: int| 0 <= k < survivors(s).len() implies #[trigger] particle_in_flight(
                survivors(s)[k],
            ) by {
                if k < rest.len() {
                    assert(survivors(s)[k] == rest[k]);
                }
            }
        }
    }
}

/// Advances every particle by `dt`.
fn age_particles(particles: &mut Vec<Particle>, dt: i64)
    requires
        0 <= dt <= MAX_DT,
        forall|i: int|
            0 <= i < old(particles)@.len() ==> #[trigger] particle_in_flight(old(particles)@[i]),
    ensures
        final(particles)@ == old(particles)@.map_values(|p: Particle| p.aged(dt as int)),
{
    let ghost start = old(particles)@;
    let mut i: usize = 0;
    while i < particles.len()
        invariant
            0 <= dt <= MAX_DT,
            i <= particles@.len(),
            particles@.len() == start.len(),
            forall|k: int| 0 <= k < start.len() ==> #[trigger] particle_in_flight(start[k]),
            forall|k: int| 0 <= k < i ==> #[trigger] particles@[k] == start[k].aged(dt as int),
            forall|k: int| i <= k < particles@.len() ==> #[trigger] particles@[k] == start[k],
        decreases particles@.len() - i,
    {
        let mut p = particles[i];
        proof {
            lemma_aged_in_flight(start[i as int], dt as int);
        }
        p.update(dt);
        particles.set(i, p);
        i = i + 1;
    }
    assert(particles@ =~= start.map_values(|p: Particle| p.aged(dt as int)));
}

/// The particles that are not dead, in order.
fn live_particles(particles: &Vec<Particle>) -> (r: Vec<Particle>)
    ensures
        r@ == survivors(particles@),
{
    let mut out: Vec<Particle> = Vec::new();
    let mut i: usize = 0;
    while i < particles.len()
        invariant
            i <= particles@.len(),
            out@ == survivors(particles@.subrange(0, i as int)),
        decreases particles@.len() - i,
    {
        let p = particles[i];
        assert(particles@.subrange(0, i + 1).drop_last() =~= particles@.subrange(0, i as int));
        if !p.is_dead() {
            out.push(p);
        }
        i = i + 1;
    }
    assert(particles@.subrange(0, i as int) =~= particles@);
    out
}

/// Every brick is destroyed or animating.
fn all_cleared(bricks: &Vec<Brick>) -> (r: bool)
    ensures
        r == all_inert(bricks@),
{
    let mut i: usize = 0;
    while i < bricks.len()
        invariant
            i <= bricks@.len(),
            forall|k: int| 0 <= k < i ==> #[trigger] bricks@[k].inert(),
        decreases bricks@.len() - i,
    {
        let b = bricks[i];
        if !(b.destroyed || b.hit_animation > 0) {
            assert(!bricks@[i as int].inert());
            return false;
        }
        i = i + 1;
    }
    true
}

impl Game {
    /// A new game: ball served, paddle centred, a full grid, no particles,
    /// score 0 and `START_LIVES` lives, playing.
    pub fn new() -> (r: Game)
        ensures
            r@ == (GameView {
                ball: BallView {
                    position: Vec2 { x: SERVE_X, y: SERVE_Y },
                    velocity: launch_velocity(),
                    radius: BALL_RADIUS,
                    trail: Seq::empty(),
                },
                paddle: Paddle::new_spec(PADDLE_START_X, PADDLE_Y),
                bricks: initial_bricks(),
                state: GameState::Playing,
                score: 0,
                lives: START_LIVES,
                particles: Seq::empty(),
            }),
            r@.well_formed(),
    {
        let mut game = Game {
            ball: Ball::new(SERVE_X, SERVE_Y),
            paddle: Paddle::new(PADDLE_START_X, PADDLE_Y),
            bricks: Vec::new(),
            state: GameState::Playing,
            score: 0,
            lives: START_LIVES,
            particles: Vec::new(),
        };
        game.init_bricks();
        game
    }

    /// Replaces the bricks with a fresh grid, row by row.
    pub fn init_bricks(&mut self)
        ensures
            final(self)@ == (GameView { bricks: initial_bricks(), ..old(self)@ }),
    {
        self.bricks.clear();
        let mut i: usize = 0;
        while i < BRICK_COUNT
            invariant
                i <= BRICK_COUNT,
                self.bricks@.len() == i,
                forall|k: int| 0 <= k < i ==> #[trigger] self.bricks@[k] == grid_brick(k),
                self.ball == old(self).ball,
                self.paddle == old(self).paddle,
                self.state == old(self).state,
                self.score == old(self).score,
                self.lives == old(self).lives,
                self.particles == old(self).particles,
            decreases BRICK_COUNT - i,
        {
            let row = i / BRICK_COLS;
            let col = i % BRICK_COLS;
            assert(row < BRICK_ROWS && col < BRICK_COLS) by (nonlinear_arith)
                requires i < 80, row == i / 10, col == i % 10;
            assert(row * (BRICK_HEIGHT + BRICK_GAP) <= 7 * 27_000_000) by (nonlinear_arith)
                requires row < 8;
            let x = BRICK_LEFT + (col as i64) * (BRICK_WIDTH + BRICK_GAP);
            let y = BRICK_TOP + (row as i64) * (BRICK_HEIGHT + BRICK_GAP);
            self.bricks.push(Brick::new(x, y, row));
            i = i + 1;
        }
        assert(self.bricks@ =~= initial_bricks());
    }

    /// Starts over: ball served, paddle centred, a fresh grid, score 0,
    /// `START_LIVES` lives, no particles, playing.
    pub fn restart(&mut self)
        ensures
            final(self)@ == restarted(old(self)@),
    {
        self.ball.reset(SERVE_X, SERVE_Y);
        self.paddle.position = Vec2::new(PADDLE_START_X, PADDLE_Y);
        self.init_bricks();
        self.state = GameState::Playing;
        self.score = 0;
        self.lives = START_LIVES;
        self.particles.clear();
    }

    /// Runs one frame of `dt` milliseconds with the keys of `input`. The
    /// launches are used for the particles of a brick struck in this frame.
    pub fn update(&mut self, dt: i64, input: FrameInput, launches: &Vec<ParticleLaunch>)
        requires
            old(self)@.well_formed(),
            old(self).score <= u32::MAX - BRICK_SCORE,
            0 <= dt <= MAX_DT,
            launches@.len() == PARTICLES_PER_HIT,
            forall|i: int| 0 <= i < launches@.len() ==> #[trigger] launch_ok(launches@[i]),
        ensures
            final(self)@ == stepped(old(self)@, dt as int, input, launches@),
            final(self)@.well_formed(),
    {
        proof {
            lemma_step_well_formed(self@, dt as int, input, launches@);
        }
        if self.state == GameState::Playing {
            proof {
                lemma_move_fits(
                    self.ball.position,
                    self.ball.velocity,
                    dt as int,
                    FIELD_BOUND as int,
                    SPEED_BOUND as int,
                    MAX_DT as int,
                );
            }
            self.paddle.update(dt, input.left, input.right);
            self.ball.update(dt);
            let ghost before = self.bricks@;
            age_bricks(&mut self.bricks, dt);
            age_particles(&mut self.particles, dt);
            self.particles = live_particles(&self.particles);
            assert forall|k: int| 0 <= k < self.bricks@.len() implies #[trigger] brick_sized(
                self.bricks@[k],
            ) by {
                assert(brick_sized(before[k]));
                assert(self.bricks@[k] == before[k].aged(dt as int));
            }
            self.handle_collisions(launches);
            if all_cleared(&self.bricks) {
                self.state = GameState::Victory;
            }
        } else {
            if input.restart_pressed {
                self.restart();
            }
        }
        if input.pause_pressed && self.state == GameState::Playing {
            self.state = GameState::Paused;
        } else if input.pause_pressed && self.state == GameState::Paused {
            self.state = GameState::Playing;
        }
    }
}

} // verus!
