use vstd::prelude::*;

verus! {

/// Largest magnitude, in milli-units, that any simulation position or
/// velocity component may reach; integration saturates here.
pub const MOTION_LIMIT: i64 = 1_000_000_000_000_000;

/// Largest half-extent, in milli-units, a screen may report.
pub const SCREEN_LIMIT: i64 = 1_000_000_000_000;

/// A point or vector in simulation space, in milli-units
/// (one simulation unit is 1000 milli-units).
#[derive(Clone, Copy, PartialEq, Eq, Structural, Debug)]
pub struct Vec2I {
    pub x: i64,
    pub y: i64,
}

impl Vec2I {
    /// Both components stay within the simulation's motion range.
    pub open spec fn in_motion_range(self) -> bool {
        &&& -MOTION_LIMIT <= self.x <= MOTION_LIMIT
        &&& -MOTION_LIMIT <= self.y <= MOTION_LIMIT
    }
}

/// Screen half-extents in milli-units: the host derives them as half the
/// window's width and height, which are whole milli-unit counts.
#[derive(Clone, Copy, PartialEq, Eq, Structural, Debug)]
pub struct ScreenSize {
    pub half_width: i64,
    pub half_height: i64,
}

impl ScreenSize {
    /// A screen has positive extents and fits the supported range.
    pub open spec fn wf(self) -> bool {
        &&& 0 < self.half_width <= SCREEN_LIMIT
        &&& 0 < self.half_height <= SCREEN_LIMIT
    }
}

/// Simulation-space x of a raw window coordinate: the origin moves to the
/// screen center, so `sim.x = raw.x - width/2`.
pub open spec fn sim_x(raw: Vec2I, screen: ScreenSize) -> int {
    raw.x - screen.half_width
}

/// Simulation-space y of a raw window coordinate: the origin moves to the
/// screen center and the axis flips to point up, so `sim.y = height/2 - raw.y`.
pub open spec fn sim_y(raw: Vec2I, screen: ScreenSize) -> int {
    screen.half_height - raw.y
}

/// Converts a raw window coordinate (origin top-left, y down) into
/// simulation space (origin at screen center, y up).
pub fn window_to_sim(raw: Vec2I, screen: ScreenSize) -> (sim: Vec2I)
    requires
        screen.wf(),
        -2 * SCREEN_LIMIT <= raw.x <= 2 * SCREEN_LIMIT,
        -2 * SCREEN_LIMIT <= raw.y <= 2 * SCREEN_LIMIT,
    ensures
        sim.x == sim_x(raw, screen),
        sim.y == sim_y(raw, screen),
        sim.in_motion_range(),
{
    Vec2I { x: raw.x - screen.half_width, y: screen.half_height - raw.y }
}

/// Law: the top-right window corner, raw `(width, 0)`, converts to the
/// simulation point `(width/2, height/2)`.
pub proof fn lemma_corner_conversion(raw: Vec2I, screen: ScreenSize)
    requires
        screen.wf(),
        raw.x == 2 * screen.half_width,
        raw.y == 0,
    ensures
        sim_x(raw, screen) == screen.half_width,
        sim_y(raw, screen) == screen.half_height,
{
}

} // verus!
