use brick_breaker::ball::Ball;
use brick_breaker::brick::{Brick, BrickColor};
use brick_breaker::config::{
    BALL_RADIUS, BRICK_COUNT, LAUNCH_VX, LAUNCH_VY, PADDLE_WIDTH, SCREEN_WIDTH, SERVE_X, SERVE_Y,
    START_LIVES, UNIT,
};
use brick_breaker::game::{FrameInput, Game, GameState};
use brick_breaker::geometry::Vec2;
use brick_breaker::paddle::Paddle;
use brick_breaker::particle::{Particle, ParticleLaunch};

const NO_KEYS: FrameInput =
    FrameInput { left: false, right: false, pause_pressed: false, restart_pressed: false };

fn px(v: i64) -> i64 {
    v * UNIT
}

fn launches() -> Vec<ParticleLaunch> {
    (0..8)
        .map(|k| ParticleLaunch {
            velocity: Vec2::new(10_000 * k, -20_000),
            life: 500 + 100 * k,
            max_life: 1_000,
        })
        .collect()
}

#[test]
fn ball_update_moves_by_velocity() {
    let mut ball = Ball::new(px(400), px(500));
    ball.update(100);
    assert_eq!(ball.position, Vec2::new(px(420), px(475)));
    assert_eq!(ball.trail, vec![Vec2::new(px(420), px(475))]);
}

#[test]
fn trail_keeps_ten_newest_points_oldest_first() {
    let mut ball = Ball::new(0, 0);
    ball.velocity = Vec2::new(1, 2);
    for _ in 0..15 {
        ball.update(1);
    }
    assert_eq!(ball.trail.len(), 10);
    let expected: Vec<Vec2> = (6..=15).map(|k| Vec2::new(k, 2 * k)).collect();
    assert_eq!(ball.trail, expected);
}

#[test]
fn ball_reset_serves_with_launch_velocity() {
    let mut ball = Ball::new(px(10), px(10));
    ball.velocity = Vec2::new(5, 5);
    ball.update(10);
    ball.reset(px(400), px(500));
    assert_eq!(ball.position, Vec2::new(px(400), px(500)));
    assert_eq!(ball.velocity, Vec2::new(LAUNCH_VX, LAUNCH_VY));
    assert!(ball.trail.is_empty());
}

#[test]
fn paddle_clamped_at_left_edge() {
    let mut p = Paddle::new(px(10), px(540));
    p.update(100, true, false);
    assert_eq!(p.position.x, 0);
}

#[test]
fn paddle_clamped_at_right_edge() {
    let mut p = Paddle::new(px(690), px(540));
    p.update(100, false, true);
    assert_eq!(p.position.x, SCREEN_WIDTH - PADDLE_WIDTH);
}

#[test]
fn paddle_moves_at_its_speed() {
    let mut p = Paddle::new(px(350), px(540));
    p.update(100, true, false);
    assert_eq!(p.position.x, px(310));
    p.update(50, false, true);
    assert_eq!(p.position.x, px(330));
    p.update(50, false, false);
    assert_eq!(p.position.x, px(330));
}

#[test]
fn paddle_both_keys_clamp_left_then_move_right() {
    let mut p = Paddle::new(px(10), px(540));
    p.update(100, true, true);
    assert_eq!(p.position.x, px(40));
}

#[test]
fn paddle_stays_on_screen_over_many_frames() {
    let mut p = Paddle::new(px(350), px(540));
    for k in 0..200 {
        p.update(17, k % 3 == 0, k % 5 != 0);
        assert!(0 <= p.position.x && p.position.x <= SCREEN_WIDTH - p.width);
    }
}

#[test]
fn brick_color_follows_row() {
    let colors: Vec<BrickColor> = (0..10).map(|r| Brick::new(0, 0, r).color).collect();
    assert_eq!(
        colors,
        vec![
            BrickColor::Red,
            BrickColor::Red,
            BrickColor::Orange,
            BrickColor::Orange,
            BrickColor::Yellow,
            BrickColor::Yellow,
            BrickColor::Green,
            BrickColor::Green,
            BrickColor::Blue,
            BrickColor::Blue,
        ]
    );
}

#[test]
fn brick_hit_is_idempotent_while_animating() {
    let mut b = Brick::new(0, 0, 0);
    b.hit();
    assert_eq!(b.hit_animation, 1000);
    b.update(100);
    assert_eq!(b.hit_animation, 700);
    b.hit();
    assert_eq!(b.hit_animation, 700);
    assert!(!b.destroyed);
}

#[test]
fn brick_destroyed_when_animation_ends_and_stays_destroyed() {
    let mut b = Brick::new(0, 0, 3);
    b.hit();
    b.update(200);
    assert_eq!(b.hit_animation, 400);
    assert!(!b.destroyed);
    b.update(200);
    assert_eq!(b.hit_animation, -200);
    assert!(b.destroyed);
    b.update(200);
    b.hit();
    assert!(b.destroyed);
    assert_eq!(b.hit_animation, -200);
}

#[test]
fn idle_brick_ignores_time() {
    let mut b = Brick::new(5, 6, 0);
    let before = b;
    b.update(1000);
    assert_eq!(b, before);
}

#[test]
fn particle_moves_falls_and_ages() {
    let launch = ParticleLaunch { velocity: Vec2::new(100_000, -50_000), life: 800, max_life: 1200 };
    let mut p = Particle::new(px(100), px(100), BrickColor::Green, launch);
    p.update(10);
    assert_eq!(p.position, Vec2::new(px(101), px(100) - 500_000));
    assert_eq!(p.velocity, Vec2::new(100_000, -48_000));
    assert_eq!(p.life, 790);
    assert_eq!(p.max_life, 1200);
    assert!(!p.is_dead());
    p.update(790);
    assert!(p.is_dead());
}

#[test]
fn new_game_lays_out_grid() {
    let g = Game::new();
    assert_eq!(g.bricks.len(), BRICK_COUNT);
    assert_eq!(g.bricks[0].position, Vec2::new(px(15), px(60)));
    assert_eq!(g.bricks[11].position, Vec2::new(px(92), px(87)));
    assert_eq!(g.bricks[79].position, Vec2::new(px(708), px(249)));
    assert_eq!(g.bricks[79].color, BrickColor::Green);
    assert_eq!(g.bricks[20].color, BrickColor::Orange);
    assert!(g.bricks.iter().all(|b| !b.destroyed && b.hit_animation == 0));
    assert_eq!(g.state, GameState::Playing);
    assert_eq!(g.score, 0);
    assert_eq!(g.lives, START_LIVES);
    assert_eq!(g.ball.position, Vec2::new(SERVE_X, SERVE_Y));
    assert_eq!(g.paddle.position, Vec2::new(px(350), px(540)));
}

#[test]
fn paddle_bounce_reverses_fall_and_limits_speed() {
    let mut g = Game::new();
    g.paddle.position = Vec2::new(px(50), px(585));
    g.ball.position = Vec2::new(px(100), px(590));
    g.ball.velocity = Vec2::new(LAUNCH_VX, 100_000);
    g.handle_collisions(&launches());
    assert!(g.ball.velocity.y < 0);
    assert!(g.ball.velocity.x.abs() <= 300_000);
    assert_eq!(g.ball.velocity, Vec2::new(200_000, -100_000));
}

#[test]
fn paddle_bounce_adds_spin_by_offset() {
    let mut g = Game::new();
    g.ball.position = Vec2::new(px(425), px(545));
    g.ball.velocity = Vec2::new(200_000, 100_000);
    g.handle_collisions(&launches());
    assert_eq!(g.ball.velocity, Vec2::new(250_000, -100_000));
}

#[test]
fn paddle_bounce_spin_is_clamped() {
    let mut g = Game::new();
    g.ball.position = Vec2::new(px(449), px(545));
    g.ball.velocity = Vec2::new(250_000, 100_000);
    g.handle_collisions(&launches());
    assert_eq!(g.ball.velocity, Vec2::new(300_000, -100_000));
}

#[test]
fn paddle_spin_rounds_toward_zero() {
    let mut g = Game::new();
    g.ball.position = Vec2::new(px(400) - 1, px(545));
    g.ball.velocity = Vec2::new(0, 100_000);
    g.handle_collisions(&launches());
    assert_eq!(g.ball.velocity, Vec2::new(0, -100_000));
}

#[test]
fn rising_ball_passes_through_paddle() {
    let mut g = Game::new();
    g.ball.position = Vec2::new(px(400), px(545));
    g.ball.velocity = Vec2::new(0, -100_000);
    g.handle_collisions(&launches());
    assert_eq!(g.ball.velocity, Vec2::new(0, -100_000));
}

#[test]
fn last_life_lost_ends_game() {
    let mut g = Game::new();
    g.ball.position = Vec2::new(px(400), px(651));
    g.lives = 1;
    g.handle_collisions(&launches());
    assert_eq!(g.lives, 0);
    assert_eq!(g.state, GameState::GameOver);
}

#[test]
fn lost_ball_with_lives_left_is_served_again() {
    let mut g = Game::new();
    g.ball.position = Vec2::new(px(100), px(651));
    g.ball.update(0);
    g.handle_collisions(&launches());
    assert_eq!(g.lives, 2);
    assert_eq!(g.state, GameState::Playing);
    assert_eq!(g.ball.position, Vec2::new(SERVE_X, SERVE_Y));
    assert_eq!(g.ball.velocity, Vec2::new(LAUNCH_VX, LAUNCH_VY));
    assert!(g.ball.trail.is_empty());
}

#[test]
fn ball_at_threshold_is_not_lost() {
    let mut g = Game::new();
    g.ball.position = Vec2::new(px(100), px(650));
    g.handle_collisions(&launches());
    assert_eq!(g.lives, 3);
}

#[test]
fn walls_reflect_ball() {
    let mut g = Game::new();
    g.ball.position = Vec2::new(px(5), px(300));
    g.ball.velocity = Vec2::new(-100_000, 50_000);
    g.handle_collisions(&launches());
    assert_eq!(g.ball.position, Vec2::new(BALL_RADIUS, px(300)));
    assert_eq!(g.ball.velocity, Vec2::new(100_000, 50_000));

    g.ball.position = Vec2::new(px(795), px(300));
    g.handle_collisions(&launches());
    assert_eq!(g.ball.position, Vec2::new(SCREEN_WIDTH - BALL_RADIUS, px(300)));
    assert_eq!(g.ball.velocity, Vec2::new(-100_000, 50_000));

    g.ball.position = Vec2::new(px(400), px(3));
    g.ball.velocity = Vec2::new(0, -50_000);
    g.handle_collisions(&launches());
    assert_eq!(g.ball.position, Vec2::new(px(400), BALL_RADIUS));
    assert_eq!(g.ball.velocity, Vec2::new(0, 50_000));
}

#[test]
fn one_brick_struck_when_ball_overlaps_two() {
    let mut g = Game::new();
    g.ball.position = Vec2::new(px(91), px(72));
    g.ball.velocity = Vec2::new(200_000, -250_000);
    g.handle_collisions(&launches());
    assert_eq!(g.bricks[0].hit_animation, 1000);
    assert_eq!(g.bricks[1].hit_animation, 0);
    assert_eq!(g.bricks.iter().filter(|b| b.hit_animation > 0).count(), 1);
    assert_eq!(g.score, 10);
    assert_eq!(g.particles.len(), 8);
    for (p, l) in g.particles.iter().zip(launches()) {
        assert_eq!(p.position, Vec2::new(52_500_000, 72_500_000));
        assert_eq!(p.velocity, l.velocity);
        assert_eq!(p.life, l.life);
        assert_eq!(p.color, BrickColor::Red);
    }
    assert_eq!(g.ball.velocity, Vec2::new(-200_000, -250_000));
}

#[test]
fn brick_struck_from_below_reflects_vertically() {
    let mut g = Game::new();
    g.ball.position = Vec2::new(px(52), px(90));
    g.ball.velocity = Vec2::new(200_000, -250_000);
    g.handle_collisions(&launches());
    assert_eq!(g.bricks[0].hit_animation, 1000);
    assert_eq!(g.ball.velocity, Vec2::new(200_000, 250_000));
}

#[test]
fn animating_brick_is_passed_over() {
    let mut g = Game::new();
    g.bricks[0].hit();
    g.ball.position = Vec2::new(px(91), px(72));
    g.handle_collisions(&launches());
    assert_eq!(g.bricks[1].hit_animation, 1000);
    assert_eq!(g.score, 10);
}

#[test]
fn clearing_all_bricks_wins() {
    let mut g = Game::new();
    for b in g.bricks.iter_mut() {
        b.destroyed = true;
    }
    g.update(16, NO_KEYS, &launches());
    assert_eq!(g.state, GameState::Victory);
}

#[test]
fn one_standing_brick_prevents_victory() {
    let mut g = Game::new();
    for b in g.bricks.iter_mut().skip(1) {
        b.destroyed = true;
    }
    g.update(16, NO_KEYS, &launches());
    assert_eq!(g.state, GameState::Playing);
}

#[test]
fn animating_bricks_count_as_cleared() {
    let mut g = Game::new();
    for b in g.bricks.iter_mut() {
        b.hit();
    }
    g.update(16, NO_KEYS, &launches());
    assert_eq!(g.state, GameState::Victory);
}

#[test]
fn restart_resets_everything() {
    let mut g = Game::new();
    g.ball.position = Vec2::new(px(91), px(72));
    g.handle_collisions(&launches());
    g.lives = 1;
    g.bricks[5].destroyed = true;
    g.state = GameState::GameOver;
    let restart = FrameInput { restart_pressed: true, ..NO_KEYS };
    g.update(16, restart, &launches());
    assert_eq!(g.state, GameState::Playing);
    assert_eq!(g.score, 0);
    assert_eq!(g.lives, 3);
    assert!(g.particles.is_empty());
    assert_eq!(g.bricks.len(), 80);
    assert!(g.bricks.iter().all(|b| !b.destroyed && b.hit_animation == 0));
    assert_eq!(g.ball.position, Vec2::new(SERVE_X, SERVE_Y));
    assert_eq!(g.paddle.position, Vec2::new(px(350), px(540)));
}

#[test]
fn restart_key_ignored_while_playing() {
    let mut g = Game::new();
    g.score = 40;
    let restart = FrameInput { restart_pressed: true, ..NO_KEYS };
    g.update(16, restart, &launches());
    assert_eq!(g.score, 40);
}

#[test]
fn game_over_stands_still() {
    let mut g = Game::new();
    g.state = GameState::GameOver;
    let before = g.ball.position;
    g.update(16, FrameInput { left: true, pause_pressed: true, ..NO_KEYS }, &launches());
    assert_eq!(g.state, GameState::GameOver);
    assert_eq!(g.ball.position, before);
    assert_eq!(g.paddle.position.x, px(350));
}

#[test]
fn pause_freezes_until_pressed_again() {
    let mut g = Game::new();
    let pause = FrameInput { pause_pressed: true, ..NO_KEYS };
    g.update(16, pause, &launches());
    assert_eq!(g.state, GameState::Paused);
    let frozen = g.ball.position;
    for _ in 0..5 {
        g.update(16, NO_KEYS, &launches());
        assert_eq!(g.ball.position, frozen);
        assert_eq!(g.state, GameState::Paused);
    }
    g.update(16, pause, &launches());
    assert_eq!(g.state, GameState::Playing);
    assert_eq!(g.ball.position, frozen);
    g.update(10, NO_KEYS, &launches());
    assert_eq!(g.ball.position, Vec2::new(frozen.x + 2_000_000, frozen.y - 2_500_000));
}

#[test]
fn frame_moves_ages_and_prunes() {
    let mut g = Game::new();
    g.particles.push(Particle::new(px(100), px(100), BrickColor::Blue, ParticleLaunch {
        velocity: Vec2::new(0, 0),
        life: 10,
        max_life: 10,
    }));
    g.particles.push(Particle::new(px(100), px(100), BrickColor::Blue, ParticleLaunch {
        velocity: Vec2::new(0, 0),
        life: 30,
        max_life: 30,
    }));
    g.bricks[3].hit();
    g.update(16, FrameInput { right: true, ..NO_KEYS }, &launches());
    assert_eq!(g.particles.len(), 1);
    assert_eq!(g.particles[0].life, 14);
    assert_eq!(g.particles[0].velocity, Vec2::new(0, 3_200));
    assert_eq!(g.bricks[3].hit_animation, 952);
    assert_eq!(g.paddle.position.x, px(350) + 6_400_000);
    assert_eq!(g.ball.position, Vec2::new(SERVE_X + 3_200_000, SERVE_Y - 4_000_000));
    assert_eq!(g.ball.trail.len(), 1);
}
