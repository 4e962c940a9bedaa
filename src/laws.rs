//! Properties of the simulation that span several steps or functions.
use vstd::prelude::*;

use crate::ball::{ball_flown, BallView};
use crate::brick::Brick;
use crate::config::{
    BRICK_COUNT, BRICK_SCORE, FIELD_BOUND, HIT_ANIMATION_RATE, MAX_DT, PADDLE_START_X,
    SCREEN_WIDTH, SPEED_BOUND, START_LIVES, TRAIL_CAPACITY,
};
use crate::game::{
    after_bricks, after_fall, all_inert, ball_in_reach, brick_sized, burst, collided, field_sized,
    first_struck, lemma_aged_in_flight, lemma_survivors_in_flight, launch_ok, moved, off_paddle,
    off_walls, particle_in_flight, restarted, stepped, strikes, FrameInput, GameState, GameView,
};
use crate::geometry::{lemma_move_fits, moved as moved_point, vec_bounded};
use crate::paddle::Paddle;
use crate::particle::{Particle, ParticleLaunch};

verus! {

/// A paddle that starts a frame on screen ends it on screen, whatever keys
/// are held.
pub proof fn lemma_paddle_stays_on_screen(p: Paddle, dt: int, left: bool, right: bool)
    requires
        p.well_formed(),
        0 <= dt <= MAX_DT,
    ensures
        p.moved(dt, left, right).well_formed(),
        0 <= p.moved(dt, left, right).position.x <= SCREEN_WIDTH - p.width,
{
    assert(0 <= p.speed * dt) by (nonlinear_arith)
        requires 0 <= p.speed, 0 <= dt;
}

/// Every frame of a well-formed game leaves the paddle on screen, provided
/// the paddle fits at its starting place for a restart.
pub proof fn lemma_game_paddle_on_screen(
    g: GameView,
    dt: int,
    input: FrameInput,
    launches: Seq<ParticleLaunch>,
)
    requires
        g.well_formed(),
        g.paddle.width <= SCREEN_WIDTH - PADDLE_START_X,
        0 <= dt <= MAX_DT,
    ensures
        stepped(g, dt, input, launches).paddle.well_formed(),
{
    lemma_paddle_stays_on_screen(g.paddle, dt, input.left, input.right);
}

/// The trail never holds more than `TRAIL_CAPACITY` points, and it is
/// first in, first out: after a frame it is a suffix of the old trail
/// followed by the new position, and the oldest points go first.
pub proof fn lemma_trail_fifo(b: BallView, dt: int)
    requires
        b.trail.len() <= TRAIL_CAPACITY,
    ensures
        ({
            let t = ball_flown(b, dt).trail;
            let p = moved_point(b.position, b.velocity, dt);
            let n = b.trail.len() as int;
            &&& t.len() <= TRAIL_CAPACITY
            &&& t.len() == if n < TRAIL_CAPACITY { n + 1 } else { TRAIL_CAPACITY as int }
            &&& t == b.trail.subrange(n + 1 - t.len(), n).push(p)
        }),
{
    let t = ball_flown(b, dt).trail;
    let p = moved_point(b.position, b.velocity, dt);
    let n = b.trail.len() as int;
    if n < TRAIL_CAPACITY {
        assert(b.trail.subrange(0, n) =~= b.trail);
    } else {
        assert(t =~= b.trail.subrange(1, n).push(p));
    }
}

/// No frame of a well-formed game lets the trail grow past
/// `TRAIL_CAPACITY`.
pub proof fn lemma_game_trail_bounded(
    g: GameView,
    dt: int,
    input: FrameInput,
    launches: Seq<ParticleLaunch>,
)
    requires
        g.well_formed(),
        0 <= dt <= MAX_DT,
    ensures
        stepped(g, dt, input, launches).ball.trail.len() <= TRAIL_CAPACITY,
{
    lemma_trail_fifo(g.ball, dt);
}

/// Hitting a brick that is already animating changes nothing: the
/// animation is neither restarted nor extended. Hitting twice is hitting
/// once.
pub proof fn lemma_hit_idempotent(b: Brick)
    ensures
        b.hit_animation > 0 ==> b.struck() == b,
        b.struck().struck() == b.struck(),
{
}

/// Once the animation of a struck brick runs down to zero the brick is
/// destroyed, and a destroyed brick stays destroyed through any later
/// frame or hit.
pub proof fn lemma_destroyed_monotonic(b: Brick, dt: int)
    requires
        0 <= dt,
    ensures
        b.hit_animation > 0 && b.hit_animation - HIT_ANIMATION_RATE * dt <= 0 ==> b.aged(
            dt,
        ).destroyed,
        b.destroyed ==> b.aged(dt).destroyed,
        b.destroyed ==> b.struck().destroyed,
{
}

/// In a game, a destroyed brick stays destroyed through every frame that
/// does not restart.
pub proof fn lemma_game_destroyed_stays(
    g: GameView,
    dt: int,
    input: FrameInput,
    launches: Seq<ParticleLaunch>,
    i: int,
)
    requires
        0 <= dt,
        !input.restart_pressed,
        0 <= i < g.bricks.len(),
        g.bricks[i].destroyed,
    ensures
        stepped(g, dt, input, launches).bricks.len() == g.bricks.len(),
        stepped(g, dt, input, launches).bricks[i].destroyed,
{
    lemma_destroyed_monotonic(g.bricks[i], dt);
    if g.state == GameState::Playing {
        let m = moved(g, dt, input);
        assert(m.bricks[i] == g.bricks[i].aged(dt));
        lemma_destroyed_monotonic(m.bricks[i], dt);
        let g1 = GameView { ball: off_walls(m.ball), ..m };
        let g2 = after_fall(g1);
        let g3 = GameView { ball: off_paddle(g2.ball, g2.paddle), ..g2 };
        assert(g3.bricks == m.bricks);
        let j = first_struck(g3.ball, g3.bricks, 0);
        if j < g3.bricks.len() {
            lemma_first_struck_in_range(g3.ball, g3.bricks, 0);
            assert(after_bricks(g3, launches).bricks[i] == if i == j {
                m.bricks[i].struck()
            } else {
                m.bricks[i]
            });
        }
    }
}

/// The first struck index from `i` on is the length, or an index from `i`
/// on of a brick that the ball strikes, with none struck between.
proof fn lemma_first_struck_in_range(b: BallView, bricks: Seq<Brick>, i: int)
    requires
        0 <= i,
    ensures
        first_struck(b, bricks, i) == bricks.len() || i <= first_struck(b, bricks, i)
            < bricks.len(),
        first_struck(b, bricks, i) < bricks.len() ==> strikes(
            b,
            bricks[first_struck(b, bricks, i)],
        ),
        forall|k: int| i <= k < first_struck(b, bricks, i) ==> !#[trigger] strikes(b, bricks[k]),
    decreases bricks.len() - i,
{
    if i < bricks.len() && !strikes(b, bricks[i]) {
        lemma_first_struck_in_range(b, bricks, i + 1);
    }
}

/// A playing game is won in a frame exactly when every brick is destroyed
/// or animating at the end of it.
pub proof fn lemma_victory_iff_cleared(
    g: GameView,
    dt: int,
    input: FrameInput,
    launches: Seq<ParticleLaunch>,
)
    requires
        g.state == GameState::Playing,
    ensures
        stepped(g, dt, input, launches).state == GameState::Victory <==> all_inert(
            stepped(g, dt, input, launches).bricks,
        ),
{
}

/// A restart clears the score and particles, restores `START_LIVES` lives
/// and a full grid of standing bricks, and plays. A stopped game restarts
/// on the restart key.
pub proof fn lemma_restart_resets(g: GameView, dt: int, input: FrameInput, launches: Seq<ParticleLaunch>)
    ensures
        restarted(g).score == 0,
        restarted(g).lives == START_LIVES,
        restarted(g).particles.len() == 0,
        restarted(g).bricks.len() == BRICK_COUNT,
        forall|i: int|
            0 <= i < BRICK_COUNT ==> !(#[trigger] restarted(g).bricks[i]).destroyed
                && restarted(g).bricks[i].hit_animation == 0,
        restarted(g).state == GameState::Playing,
        g.state != GameState::Playing && input.restart_pressed && !input.pause_pressed ==> stepped(
            g,
            dt,
            input,
            launches,
        ) == restarted(g),
{
}

/// A paused game stands still until the pause or restart key is pressed;
/// the pause key resumes it unchanged.
pub proof fn lemma_pause_freezes(g: GameView, dt: int, input: FrameInput, launches: Seq<ParticleLaunch>)
    requires
        g.state == GameState::Paused,
        !input.restart_pressed,
    ensures
        !input.pause_pressed ==> stepped(g, dt, input, launches) == g,
        input.pause_pressed ==> stepped(g, dt, input, launches) == (GameView {
            state: GameState::Playing,
            ..g
        }),
{
}

/// Pressing pause while playing pauses the game, unless the same frame
/// ended it.
pub proof fn lemma_pause_stops_play(g: GameView, dt: int, input: FrameInput, launches: Seq<ParticleLaunch>)
    requires
        g.state == GameState::Playing,
        input.pause_pressed,
        collided(moved(g, dt, input), launches).state == GameState::Playing,
        !all_inert(collided(moved(g, dt, input), launches).bricks),
    ensures
        stepped(g, dt, input, launches).state == GameState::Paused,
{
}

/// A frame's collisions strike at most one brick, and only one that was
/// standing: either nothing about the bricks, score and particles changes,
/// or exactly one standing brick is hit, the score rises by `BRICK_SCORE`,
/// and one particle appears per launch. The brick is the first in
/// row-major order that the ball strikes.
pub proof fn lemma_one_brick_per_frame(g: GameView, launches: Seq<ParticleLaunch>)
    requires
        g.score <= u32::MAX - BRICK_SCORE,
    ensures
        ({
            let c = collided(g, launches);
            ||| (c.bricks == g.bricks && c.score == g.score && c.particles == g.particles)
            ||| exists|j: int|
                {
                    &&& 0 <= j < g.bricks.len()
                    &&& !g.bricks[j].inert()
                    &&& strikes(c.ball, #[trigger] g.bricks[j])
                    &&& forall|k: int| 0 <= k < j ==> !strikes(c.ball, #[trigger] g.bricks[k])
                    &&& c.bricks == g.bricks.update(j, g.bricks[j].struck())
                    &&& c.score == g.score + BRICK_SCORE
                    &&& c.particles.len() == g.particles.len() + launches.len()
                }
        }),
{
    let g1 = GameView { ball: off_walls(g.ball), ..g };
    let g2 = after_fall(g1);
    let g3 = GameView { ball: off_paddle(g2.ball, g2.paddle), ..g2 };
    let j = first_struck(g3.ball, g3.bricks, 0);
    lemma_first_struck_in_range(g3.ball, g3.bricks, 0);
    let c = collided(g, launches);
    assert(c.ball.position == g3.ball.position && c.ball.radius == g3.ball.radius);
    if j < g3.bricks.len() {
        assert(!g.bricks[j].inert());
        assert(c.bricks == g.bricks.update(j, g.bricks[j].struck()));
        assert(strikes(c.ball, g.bricks[j]));
        assert forall|k: int| 0 <= k < j implies !strikes(c.ball, #[trigger] g.bricks[k]) by {
            assert(!strikes(g3.ball, g3.bricks[k]));
        }
    }
}

/// A playing game after the motion of a frame, before collisions: the
/// ball may have left the field, but no further than `REACH`.
spec fn in_play(m: GameView) -> bool {
    &&& m.state == GameState::Playing
    &&& ball_in_reach(m.ball)
    &&& m.ball.trail.len() <= TRAIL_CAPACITY
    &&& field_sized(m)
    &&& m.paddle.width <= SCREEN_WIDTH - PADDLE_START_X
    &&& forall|i: int| 0 <= i < m.particles.len() ==> #[trigger] particle_in_flight(m.particles[i])
}

proof fn lemma_moved_in_play(g: GameView, dt: int, input: FrameInput)
    requires
        g.well_formed(),
        g.state == GameState::Playing,
        0 <= dt <= MAX_DT,
    ensures
        in_play(moved(g, dt, input)),
{
    let m = moved(g, dt, input);
    lemma_paddle_stays_on_screen(g.paddle, dt, input.left, input.right);
    lemma_move_fits(
        g.ball.position,
        g.ball.velocity,
        dt,
        FIELD_BOUND as int,
        SPEED_BOUND as int,
        MAX_DT as int,
    );
    lemma_trail_fifo(g.ball, dt);
    assert forall|k: int| 0 <= k < m.bricks.len() implies #[trigger] brick_sized(m.bricks[k]) by {
        assert(m.bricks[k] == g.bricks[k].aged(dt));
        assert(brick_sized(g.bricks[k]));
    }
    let aged = g.particles.map_values(|p: Particle| p.aged(dt));
    assert forall|j: int| 0 <= j < aged.len() && !aged[j].dead() implies #[trigger] particle_in_flight(
        aged[j],
    ) by {
        assert(particle_in_flight(g.particles[j]));
        lemma_aged_in_flight(g.particles[j], dt);
    }
    lemma_survivors_in_flight(aged);
}

proof fn lemma_collided_well_formed(m: GameView, launches: Seq<ParticleLaunch>)
    requires
        in_play(m),
        forall|i: int| 0 <= i < launches.len() ==> #[trigger] launch_ok(launches[i]),
    ensures
        collided(m, launches).well_formed(),
{
    let g1 = GameView { ball: off_walls(m.ball), ..m };
    assert(ball_in_reach(g1.ball));
    assert(-FIELD_BOUND <= g1.ball.position.x <= FIELD_BOUND);
    assert(0 <= g1.ball.position.y);
    let g2 = after_fall(g1);
    assert(ball_in_reach(g2.ball));
    assert(g2.state == GameState::Playing ==> vec_bounded(g2.ball.position, FIELD_BOUND as int));
    let g3 = GameView { ball: off_paddle(g2.ball, g2.paddle), ..g2 };
    assert(ball_in_reach(g3.ball));
    let j = first_struck(g3.ball, g3.bricks, 0);
    if j < g3.bricks.len() {
        lemma_first_struck_in_range(g3.ball, g3.bricks, 0);
        let br = g3.bricks[j];
        assert(brick_sized(br));
        let b = burst(
            br.position.x + br.width / 2,
            br.position.y + br.height / 2,
            br.color,
            launches,
        );
        assert forall|k: int| 0 <= k < b.len() implies #[trigger] particle_in_flight(b[k]) by {
            assert(launch_ok(launches[k]));
        }
        let c = after_bricks(g3, launches);
        assert(c.particles == g3.particles + b);
        assert forall|k: int| 0 <= k < c.particles.len() implies #[trigger] particle_in_flight(
            c.particles[k],
        ) by {
            if k < g3.particles.len() {
                assert(c.particles[k] == g3.particles[k]);
            } else {
                assert(c.particles[k] == b[k - g3.particles.len()]);
            }
        }
        assert forall|k: int| 0 <= k < c.bricks.len() implies #[trigger] brick_sized(c.bricks[k]) by {
            assert(brick_sized(g3.bricks[k]));
        }
    }
}

/// Every frame keeps a well-formed game well-formed.
pub proof fn lemma_step_well_formed(
    g: GameView,
    dt: int,
    input: FrameInput,
    launches: Seq<ParticleLaunch>,
)
    requires
        g.well_formed(),
        0 <= dt <= MAX_DT,
        forall|i: int| 0 <= i < launches.len() ==> #[trigger] launch_ok(launches[i]),
    ensures
        stepped(g, dt, input, launches).well_formed(),
{
    if g.state == GameState::Playing {
        lemma_moved_in_play(g, dt, input);
        lemma_collided_well_formed(moved(g, dt, input), launches);
    }
}

} // verus!
