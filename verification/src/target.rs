use vstd::prelude::*;
use crate::geom::{Vec2I, ScreenSize, MOTION_LIMIT};
use crate::rng::rand_in_range;

verus! {

/// Edge length of every spawned target: 100 simulation units, in milli.
pub const TARGET_EDGE: i64 = 100_000;

/// Largest visual edge, in milli-units, the hit test supports.
pub const SIZE_LIMIT: i64 = 1_000_000_000;

/// One thousandth of a unit channel value: 1000 stands for 1.0.
pub const MILLI_ONE: i64 = 1000;

/// An RGBA color with each channel in milli (1000 stands for 1.0).
#[derive(Clone, Copy, PartialEq, Eq, Structural, Debug)]
pub struct Rgba {
    pub r: i64,
    pub g: i64,
    pub b: i64,
    pub a: i64,
}

impl Rgba {
    pub open spec fn wf(self) -> bool {
        &&& 0 <= self.r <= MILLI_ONE
        &&& 0 <= self.g <= MILLI_ONE
        &&& 0 <= self.b <= MILLI_ONE
        &&& 0 <= self.a <= MILLI_ONE
    }
}

/// A destructible rectangular target: clicked close enough to its center,
/// it is destroyed for points.
#[derive(Clone, Copy, PartialEq, Eq, Structural, Debug)]
pub struct Target {
    pub pos: Vec2I,
    pub width: i64,
    pub height: i64,
    pub color: Rgba,
}

impl Target {
    pub open spec fn wf(self) -> bool {
        &&& self.pos.in_motion_range()
        &&& 0 < self.width <= SIZE_LIMIT
        &&& 0 < self.height <= SIZE_LIMIT
        &&& self.color.wf()
    }
}

/// Squared Euclidean distance between two simulation points.
pub open spec fn dist_sq(a: Vec2I, b: Vec2I) -> int {
    (a.x - b.x) * (a.x - b.x) + (a.y - b.y) * (a.y - b.y)
}

/// A click hits a target exactly when the distance from the click point to
/// the target's center is strictly less than half the target's diagonal (a
/// deliberately generous circular approximation of the rectangle):
/// `4·dist² < width² + height²` states that comparison without a root.
pub open spec fn hits(click: Vec2I, t: Target) -> bool {
    4 * dist_sq(click, t.pos) < t.width * t.width + t.height * t.height
}

/// Decides whether a click at `click` (simulation space) hits the target.
pub fn target_hit(click: Vec2I, t: &Target) -> (b: bool)
    requires
        click.in_motion_range(),
        t.wf(),
    ensures
        b == hits(click, *t),
{
    let dx = (click.x as i128) - (t.pos.x as i128);
    let dy = (click.y as i128) - (t.pos.y as i128);
    let w = t.width as i128;
    let h = t.height as i128;
    proof {
        assert(dx * dx <= 4_000_000_000_000_000_000_000_000_000_000) by (nonlinear_arith)
            requires
                -2_000_000_000_000_000 <= dx <= 2_000_000_000_000_000,
        ;
        assert(dy * dy <= 4_000_000_000_000_000_000_000_000_000_000) by (nonlinear_arith)
            requires
                -2_000_000_000_000_000 <= dy <= 2_000_000_000_000_000,
        ;
        assert(0 <= dx * dx && 0 <= dy * dy) by (nonlinear_arith);
        assert(0 <= w * w <= 1_000_000_000_000_000_000 && 0 <= h * h
            <= 1_000_000_000_000_000_000) by (nonlinear_arith)
            requires
                0 < w <= 1_000_000_000 && 0 < h <= 1_000_000_000,
        ;
    }
    4 * (dx * dx + dy * dy) < w * w + h * h
}

/// What one firing of the spawn scheduler guarantees of the target it
/// places: on-screen uniform position, the fixed 100×100 size, and channel
/// ranges R,G,B in [0,1) and alpha in [0.5,1).
pub open spec fn spawned_target_ok(t: Target, screen: ScreenSize) -> bool {
    &&& t.wf()
    &&& -screen.half_width <= t.pos.x < screen.half_width
    &&& -screen.half_height <= t.pos.y < screen.half_height
    &&& t.width == TARGET_EDGE
    &&& t.height == TARGET_EDGE
    &&& 0 <= t.color.r < MILLI_ONE
    &&& 0 <= t.color.g < MILLI_ONE
    &&& 0 <= t.color.b < MILLI_ONE
    &&& 500 <= t.color.a < MILLI_ONE
}

/// Creates the target for one spawn-scheduler firing: position uniform over
/// the screen, color channels uniform (alpha kept above one half), fixed
/// 100×100 size.
pub fn spawn_target(rng: &mut rand::rngs::ThreadRng, screen: ScreenSize) -> (t: Target)
    requires
        screen.wf(),
    ensures
        spawned_target_ok(t, screen),
{
    let x = rand_in_range(rng, -screen.half_width, screen.half_width);
    let y = rand_in_range(rng, -screen.half_height, screen.half_height);
    let r = rand_in_range(rng, 0, MILLI_ONE);
    let g = rand_in_range(rng, 0, MILLI_ONE);
    let b = rand_in_range(rng, 0, MILLI_ONE);
    let a = rand_in_range(rng, 500, MILLI_ONE);
    Target {
        pos: Vec2I { x, y },
        width: TARGET_EDGE,
        height: TARGET_EDGE,
        color: Rgba { r, g, b, a },
    }
}

} // verus!
