use vstd::prelude::*;

verus! {

/// A point or offset in micro-pixels, or a velocity in micro-pixels per
/// millisecond.
#[derive(Clone, Copy, Debug, PartialEq, Eq, Structural)]
pub struct Vec2 {
    pub x: i64,
    pub y: i64,
}

/// `v` is a value of `i64`.
pub open spec fn fits(v: int) -> bool {
    i64::MIN <= v <= i64::MAX
}

/// `-b <= v <= b`.
pub open spec fn bounded(v: int, b: int) -> bool {
    -b <= v <= b
}

/// Both components of `v` lie within `b` of zero.
pub open spec fn vec_bounded(v: Vec2, b: int) -> bool {
    bounded(v.x as int, b) && bounded(v.y as int, b)
}

/// `p` moved for `dt` at velocity `v` stays inside `i64`.
pub open spec fn move_fits(p: Vec2, v: Vec2, dt: int) -> bool {
    &&& fits(v.x * dt)
    &&& fits(v.y * dt)
    &&& fits(p.x + v.x * dt)
    &&& fits(p.y + v.y * dt)
}

/// `p` moved for `dt` at velocity `v`.
pub open spec fn moved(p: Vec2, v: Vec2, dt: int) -> Vec2 {
    Vec2 { x: (p.x + v.x * dt) as i64, y: (p.y + v.y * dt) as i64 }
}

impl Vec2 {
    pub fn new(x: i64, y: i64) -> (r: Vec2)
        ensures
            r == (Vec2 { x, y }),
    {
        Vec2 { x, y }
    }

    /// The point reached from `self` after `dt` at velocity `v`.
    pub fn advanced(self, v: Vec2, dt: i64) -> (r: Vec2)
        requires
            move_fits(self, v, dt as int),
        ensures
            r == moved(self, v, dt as int),
    {
        Vec2 { x: self.x + v.x * dt, y: self.y + v.y * dt }
    }
}

/// A product of bounded factors is bounded by the product of the bounds.
pub proof fn lemma_product_bounded(v: int, a: int, dt: int, t: int)
    requires
        bounded(v, a),
        0 <= dt <= t,
        0 <= a,
    ensures
        bounded(v * dt, a * t),
        bounded(v * dt, a * dt),
{
    assert(bounded(v * dt, a * dt)) by (nonlinear_arith)
        requires bounded(v, a), 0 <= dt, 0 <= a;
    assert(a * dt <= a * t) by (nonlinear_arith)
        requires 0 <= dt <= t, 0 <= a;
}

/// Moving a bounded point at a bounded speed for a bounded time stays in
/// `i64`, and within the sum of the bounds.
pub proof fn lemma_move_fits(p: Vec2, v: Vec2, dt: int, pb: int, vb: int, t: int)
    requires
        vec_bounded(p, pb),
        vec_bounded(v, vb),
        0 <= dt <= t,
        0 <= vb,
        0 <= pb,
        pb + vb * t <= i64::MAX,
    ensures
        move_fits(p, v, dt),
        vec_bounded(moved(p, v, dt), pb + vb * t),
{
    lemma_product_bounded(v.x as int, vb, dt, t);
    lemma_product_bounded(v.y as int, vb, dt, t);
}

} // verus!
