use vstd::prelude::*;

use crate::config::{BRICK_HEIGHT, BRICK_WIDTH, HIT_ANIMATION_RATE, HIT_ANIMATION_START, MAX_DT};
use crate::geometry::Vec2;

verus! {

/// The colour band of a brick, and of the particles it throws out.
#[derive(Clone, Copy, Debug, PartialEq, Eq, Structural)]
pub enum BrickColor {
    Red,
    Orange,
    Yellow,
    Green,
    Blue,
}

/// Rows 0-1 are red, 2-3 orange, 4-5 yellow, 6-7 green, the rest blue.
pub open spec fn color_of_row(row: int) -> BrickColor {
    if row <= 1 {
        BrickColor::Red
    } else if row <= 3 {
        BrickColor::Orange
    } else if row <= 5 {
        BrickColor::Yellow
    } else if row <= 7 {
        BrickColor::Green
    } else {
        BrickColor::Blue
    }
}

/// A brick. `hit_animation` is in thousandths: 0 when idle, positive while
/// the brick plays its hit animation, after which it is destroyed.
#[derive(Clone, Copy, Debug, PartialEq, Eq, Structural)]
pub struct Brick {
    pub position: Vec2,
    pub width: i64,
    pub height: i64,
    pub destroyed: bool,
    pub color: BrickColor,
    pub hit_animation: i64,
}

impl Brick {
    /// Destroyed or animating: ignored by collisions and counted as cleared.
    pub open spec fn inert(self) -> bool {
        self.destroyed || self.hit_animation > 0
    }

    /// The brick after `hit`: an idle, standing brick starts its animation;
    /// any other brick is left as it is.
    pub open spec fn struck(self) -> Brick {
        if !self.destroyed && self.hit_animation <= 0 {
            Brick { hit_animation: HIT_ANIMATION_START, ..self }
        } else {
            self
        }
    }

    /// The brick after a frame of `dt`: a running animation counts down,
    /// and the brick is destroyed once it reaches zero.
    pub open spec fn aged(self, dt: int) -> Brick {
        if self.hit_animation > 0 {
            let h = self.hit_animation - HIT_ANIMATION_RATE * dt;
            Brick { hit_animation: h as i64, destroyed: self.destroyed || h <= 0, ..self }
        } else {
            self
        }
    }

    /// A standing brick at `(x, y)` in grid row `row`.
    pub fn new(x: i64, y: i64, row: usize) -> (r: Brick)
        ensures
            r == (Brick {
                position: Vec2 { x, y },
                width: BRICK_WIDTH,
                height: BRICK_HEIGHT,
                destroyed: false,
                color: color_of_row(row as int),
                hit_animation: 0,
            }),
    {
        let color = if row <= 1 {
            BrickColor::Red
        } else if row <= 3 {
            BrickColor::Orange
        } else if row <= 5 {
            BrickColor::Yellow
        } else if row <= 7 {
            BrickColor::Green
        } else {
            BrickColor::Blue
        };
        Brick {
            position: Vec2::new(x, y),
            width: BRICK_WIDTH,
            height: BRICK_HEIGHT,
            destroyed: false,
            color,
            hit_animation: 0,
        }
    }

    /// Advances the hit animation by `dt` milliseconds.
    pub fn update(&mut self, dt: i64)
        requires
            0 <= dt <= MAX_DT,
        ensures
            *final(self) == old(self).aged(dt as int),
    {
        if self.hit_animation > 0 {
            self.hit_animation = self.hit_animation - HIT_ANIMATION_RATE * dt;
            if self.hit_animation <= 0 {
                self.destroyed = true;
            }
        }
    }

    /// Starts the hit animation, unless the brick is destroyed or already
    /// animating.
    pub fn hit(&mut self)
        ensures
            *final(self) == old(self).struck(),
    {
        if !self.destroyed && self.hit_animation <= 0 {
            self.hit_animation = HIT_ANIMATION_START;
        }
    }

    /// `(x, y, width, height)` of the brick's rectangle.
    pub fn get_rect(&self) -> (r: (i64, i64, i64, i64))
        ensures
            r == (self.position.x, self.position.y, self.width, self.height),
    {
        (self.position.x, self.position.y, self.width, self.height)
    }
}

} // verus!
