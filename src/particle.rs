use vstd::prelude::*;

use crate::brick::BrickColor;
use crate::config::{GRAVITY, MAX_DT};
use crate::geometry::{fits, move_fits, moved, Vec2};

verus! {

/// What chance decides about a new particle: its initial velocity and its
/// lifetimes, in milliseconds. The caller draws these; the simulation itself
/// is deterministic.
#[derive(Clone, Copy, Debug, PartialEq, Eq, Structural)]
pub struct ParticleLaunch {
    pub velocity: Vec2,
    pub life: i64,
    pub max_life: i64,
}

/// A spark thrown out of a struck brick. It falls under gravity and
/// disappears once its life runs out; `life / max_life` is its opacity.
#[derive(Clone, Copy, Debug, PartialEq, Eq, Structural)]
pub struct Particle {
    pub position: Vec2,
    pub velocity: Vec2,
    pub life: i64,
    pub max_life: i64,
    pub color: BrickColor,
}

/// A particle at `(x, y)` launched as `l`.
pub open spec fn launched(x: i64, y: i64, color: BrickColor, l: ParticleLaunch) -> Particle {
    Particle {
        position: Vec2 { x, y },
        velocity: l.velocity,
        life: l.life,
        max_life: l.max_life,
        color,
    }
}

impl Particle {
    /// A frame of `dt` fits in `i64`.
    pub open spec fn step_fits(self, dt: int) -> bool {
        &&& move_fits(self.position, self.velocity, dt)
        &&& fits(self.velocity.y + GRAVITY * dt)
        &&& fits(self.life - dt)
    }

    /// The particle after a frame of `dt`: it moves by its velocity, then
    /// gravity speeds its fall, and its life shortens by `dt`.
    pub open spec fn aged(self, dt: int) -> Particle {
        Particle {
            position: moved(self.position, self.velocity, dt),
            velocity: Vec2 { y: (self.velocity.y + GRAVITY * dt) as i64, ..self.velocity },
            life: (self.life - dt) as i64,
            ..self
        }
    }

    pub open spec fn dead(self) -> bool {
        self.life <= 0
    }

    pub fn new(x: i64, y: i64, color: BrickColor, launch: ParticleLaunch) -> (r: Particle)
        ensures
            r == launched(x, y, color, launch),
    {
        Particle {
            position: Vec2::new(x, y),
            velocity: launch.velocity,
            life: launch.life,
            max_life: launch.max_life,
            color,
        }
    }

    pub fn update(&mut self, dt: i64)
        requires
            0 <= dt <= MAX_DT,
            old(self).step_fits(dt as int),
        ensures
            *final(self) == old(self).aged(dt as int),
    {
        self.position = self.position.advanced(self.velocity, dt);
        self.life = self.life - dt;
        self.velocity.y = self.velocity.y + GRAVITY * dt;
    }

    pub fn is_dead(&self) -> (r: bool)
        ensures
            r == self.dead(),
    {
        self.life <= 0
    }
}

} // verus!
