use vstd::prelude::*;
use crate::geom::{Vec2I, ScreenSize, MOTION_LIMIT};
use crate::target::{SIZE_LIMIT, MILLI_ONE};
use crate::rng::{rand_in_range, rand_coin};

verus! {

/// Number of fragments every destroyed target bursts into.
pub const FRAGMENT_BATCH: usize = 15;

/// Spawn jitter around the click point, in milli-units (10 units).
pub const JITTER: i64 = 10_000;

/// Exclusive bound of the initial horizontal speed magnitude (400 units).
pub const VEL_X_MAX: i64 = 400_000;

/// Exclusive bound of the initial upward launch speed (600 units).
pub const VEL_Y_MAX: i64 = 600_000;

/// Exclusive bound of the angular velocity draw (20 units).
pub const ANG_VEL_MAX: i64 = 20_000;

/// Exclusive bound of the per-frame hue advance (10 degrees, in milli).
pub const HUE_STEP_MAX: i64 = 10_000;

/// Full turn in milli-degrees; hue and rotation wrap here.
pub const DEG_WRAP: i64 = 360_000;

/// Gravity: milli-units of downward velocity gained per milli-time-unit
/// (400 units per squared time unit).
pub const GRAVITY: i64 = 400;

/// Inclusive lower and exclusive upper bound of the shrink factor draw, in
/// milli (a fragment is its source target's size divided by 1.5 to 5).
pub const SHRINK_MIN: i64 = 1500;
pub const SHRINK_MAX: i64 = 5000;

/// A fresh fragment's uniform scale (1.0 in milli).
pub const FULL_SCALE: i64 = 1000;

/// Destruction threshold: a fragment whose scale sinks below 0.1 dies.
pub const SCALE_EPS: i64 = 100;

/// Largest single time step the physics accepts, in milli-time-units.
pub const DT_LIMIT: u64 = 1_000_000_000;

/// An HSVA color with each channel in milli; hue wraps at [`DEG_WRAP`].
#[derive(Clone, Copy, PartialEq, Eq, Structural, Debug)]
pub struct Hsva {
    pub h: i64,
    pub s: i64,
    pub v: i64,
    pub a: i64,
}

impl Hsva {
    pub open spec fn wf(self) -> bool {
        &&& 0 <= self.h < DEG_WRAP
        &&& 0 <= self.s <= MILLI_ONE
        &&& 0 <= self.v <= MILLI_ONE
        &&& 0 <= self.a <= MILLI_ONE
    }
}

/// A decaying particle emitted when a target is destroyed.
#[derive(Clone, Copy, PartialEq, Eq, Structural, Debug)]
pub struct Fragment {
    pub pos: Vec2I,
    pub vel: Vec2I,
    pub rot: i64,
    pub ang_vel: i64,
    pub scale: i64,
    pub width: i64,
    pub height: i64,
    pub color: Hsva,
}

impl Fragment {
    pub open spec fn wf(self) -> bool {
        &&& self.pos.in_motion_range()
        &&& self.vel.in_motion_range()
        &&& 0 <= self.rot < DEG_WRAP
        &&& 0 <= self.ang_vel < ANG_VEL_MAX
        &&& 0 <= self.scale <= FULL_SCALE
        &&& 0 <= self.width <= SIZE_LIMIT
        &&& 0 <= self.height <= SIZE_LIMIT
        &&& self.color.wf()
    }
}

/// A value clamped to the simulation's motion range.
pub open spec fn clamp_motion(x: int) -> int {
    if x > MOTION_LIMIT {
        MOTION_LIMIT as int
    } else if x < -MOTION_LIMIT {
        -MOTION_LIMIT as int
    } else {
        x
    }
}

/// Displacement of a velocity `v` (milli-units per time unit) over a step
/// of `dt` milli-time-units: `v·dt/1000`, rounded toward zero.
pub open spec fn scale_by_dt(v: int, dt: int) -> int {
    if v >= 0 {
        v * dt / 1000
    } else {
        -((-v) * dt / 1000)
    }
}

/// Velocity after a screen-edge bounce: reversed and damped to 96%, the
/// magnitude rounded toward zero.
pub open spec fn bounce(v: int) -> int {
    if v >= 0 {
        -(v * 96 / 100)
    } else {
        (-v) * 96 / 100
    }
}

/// Scale after one bounce decay: shrunk to 70%, rounded down.
pub open spec fn decayed(s: int) -> int {
    s * 7 / 10
}

/// One fixed-timestep physics update of a live fragment, in order: gravity
/// onto the velocity, explicit-Euler position integration with the updated
/// velocity, angular integration modulo a full turn, hue advance by
/// `hue_step`, then a bounce test on the post-integration position — each
/// axis beyond the screen's half-extent reverses and damps its velocity
/// component — and a single 70% scale decay if any axis bounced.
pub open spec fn frag_step(f: Fragment, dt: int, screen: ScreenSize, hue_step: int) -> Fragment {
    let vy1 = clamp_motion(f.vel.y - GRAVITY * dt);
    let px = clamp_motion(f.pos.x + scale_by_dt(f.vel.x as int, dt));
    let py = clamp_motion(f.pos.y + scale_by_dt(vy1, dt));
    let rot1 = (f.rot + scale_by_dt(f.ang_vel as int, dt)) % (DEG_WRAP as int);
    let h1 = (f.color.h + hue_step) % (DEG_WRAP as int);
    let bounce_x = px > screen.half_width || px < -screen.half_width;
    let bounce_y = py > screen.half_height || py < -screen.half_height;
    let vx2 = if bounce_x {
        bounce(f.vel.x as int)
    } else {
        f.vel.x as int
    };
    let vy2 = if bounce_y {
        bounce(vy1)
    } else {
        vy1
    };
    let scale1 = if bounce_x || bounce_y {
        decayed(f.scale as int)
    } else {
        f.scale as int
    };
    Fragment {
        pos: Vec2I { x: px as i64, y: py as i64 },
        vel: Vec2I { x: vx2 as i64, y: vy2 as i64 },
        rot: rot1 as i64,
        ang_vel: f.ang_vel,
        scale: scale1 as i64,
        width: f.width,
        height: f.height,
        color: Hsva { h: h1 as i64, s: f.color.s, v: f.color.v, a: f.color.a },
    }
}

/// `0 <= v·num/den <= v` when the factor `num/den` is at most one.
proof fn lemma_mul_div_le(v: int, num: int, den: int)
    requires
        0 <= v,
        0 <= num <= den,
        0 < den,
    ensures
        0 <= v * num / den <= v,
{
    assert(0 <= v * num && v * num <= v * den) by (nonlinear_arith)
        requires
            0 <= v && 0 <= num <= den,
    ;
    vstd::arithmetic::div_mod::lemma_div_pos_is_pos(v * num, den);
    vstd::arithmetic::div_mod::lemma_div_is_ordered(v * num, v * den, den);
    vstd::arithmetic::div_mod::lemma_div_by_multiple(v, den);
}

/// `0 <= p/den <= p` for a non-negative numerator.
proof fn lemma_div_le_self(p: int, den: int)
    requires
        0 <= p,
        0 < den,
    ensures
        0 <= p / den <= p,
{
    vstd::arithmetic::div_mod::lemma_div_pos_is_pos(p, den);
    vstd::arithmetic::div_mod::lemma_div_nonincreasing(p, den);
}

/// Clamps a 128-bit intermediate back into the motion range.
fn clamp_exec(x: i128) -> (r: i64)
    ensures
        r as int == clamp_motion(x as int),
{
    if x > MOTION_LIMIT as i128 {
        MOTION_LIMIT
    } else if x < -(MOTION_LIMIT as i128) {
        -MOTION_LIMIT
    } else {
        x as i64
    }
}

/// Displacement `v·dt/1000` in 128 bits, since the product can overflow 64.
fn displace(v: i64, dt: u64) -> (r: i128)
    requires
        -MOTION_LIMIT <= v <= MOTION_LIMIT,
        dt <= DT_LIMIT,
    ensures
        r as int == scale_by_dt(v as int, dt as int),
        -1_000_000_000_000_000_000_000_000 <= r <= 1_000_000_000_000_000_000_000_000,
{
    if v >= 0 {
        proof {
            assert((v as int) * (dt as int) <= 1_000_000_000_000_000_000_000_000) by (nonlinear_arith)
                requires
                    0 <= v <= 1_000_000_000_000_000 && 0 <= dt <= 1_000_000_000,
            ;
            assert(0 <= (v as int) * (dt as int)) by (nonlinear_arith)
                requires
                    0 <= v && 0 <= dt,
            ;
            lemma_div_le_self((v as int) * (dt as int), 1000);
        }
        let prod: u128 = (v as u128) * (dt as u128);
        let q: u128 = prod / 1000;
        q as i128
    } else {
        let mag: i64 = -v;
        proof {
            assert((mag as int) * (dt as int) <= 1_000_000_000_000_000_000_000_000) by (nonlinear_arith)
                requires
                    0 <= mag <= 1_000_000_000_000_000 && 0 <= dt <= 1_000_000_000,
            ;
            assert(0 <= (mag as int) * (dt as int)) by (nonlinear_arith)
                requires
                    0 <= mag && 0 <= dt,
            ;
            lemma_div_le_self((mag as int) * (dt as int), 1000);
        }
        let prod: u128 = (mag as u128) * (dt as u128);
        let q: u128 = prod / 1000;
        -(q as i128)
    }
}

/// Velocity after a bounce, exactly [`bounce`].
fn bounce_exec(v: i64) -> (r: i64)
    requires
        -MOTION_LIMIT <= v <= MOTION_LIMIT,
    ensures
        r as int == bounce(v as int),
        -MOTION_LIMIT <= r <= MOTION_LIMIT,
{
    if v >= 0 {
        proof {
            lemma_mul_div_le(v as int, 96, 100);
        }
        let q: u64 = (v as u64) * 96 / 100;
        -(q as i64)
    } else {
        let mag: i64 = -v;
        proof {
            lemma_mul_div_le(mag as int, 96, 100);
        }
        let q: u64 = (mag as u64) * 96 / 100;
        q as i64
    }
}

/// Advances one live fragment by one fixed timestep; `hue_step` is the
/// frame's uniform random hue advance in `[0, HUE_STEP_MAX)`. Returns true
/// exactly when the fragment's scale had already decayed below the
/// threshold, in which case the fragment is untouched and must be
/// destroyed this very frame.
pub fn step_fragment(f: &mut Fragment, dt: u64, screen: ScreenSize, hue_step: i64) -> (destroyed: bool)
    requires
        old(f).wf(),
        screen.wf(),
        dt <= DT_LIMIT,
        0 <= hue_step < HUE_STEP_MAX,
    ensures
        destroyed == (old(f).scale < SCALE_EPS),
        destroyed ==> *final(f) == *old(f),
        !destroyed ==> *final(f) == frag_step(*old(f), dt as int, screen, hue_step as int),
        final(f).wf(),
        final(f).scale <= old(f).scale,
        final(f).ang_vel == old(f).ang_vel,
{
    if f.scale < SCALE_EPS {
        return true;
    }
    let ghost f0 = *f;
    proof {
        assert(0 <= 400 * (dt as int) <= 400_000_000_000) by (nonlinear_arith)
            requires
                0 <= dt <= 1_000_000_000,
        ;
    }
    // Gravity, then position integration with the updated velocity.
    let vy1: i64 = clamp_exec((f.vel.y as i128) - (GRAVITY as i128) * (dt as i128));
    let px: i64 = clamp_exec((f.pos.x as i128) + displace(f.vel.x, dt));
    let py: i64 = clamp_exec((f.pos.y as i128) + displace(vy1, dt));
    // Angular integration, wrapping at a full turn.
    let spin: i128 = displace(f.ang_vel, dt);
    proof {
        lemma_div_le_self((f.ang_vel as int) * (dt as int), 1000);
        assert((f.ang_vel as int) * (dt as int) <= 20_000_000_000_000) by (nonlinear_arith)
            requires
                0 <= f.ang_vel < 20_000 && 0 <= dt <= 1_000_000_000,
        ;
        assert(0 <= (f.ang_vel as int) * (dt as int)) by (nonlinear_arith)
            requires
                0 <= f.ang_vel && 0 <= dt,
        ;
    }
    let rot1: i64 = (((f.rot as u64) + (spin as u64)) % (DEG_WRAP as u64)) as i64;
    // Hue advance, wrapping at a full turn.
    let h1: i64 = (((f.color.h as u64) + (hue_step as u64)) % (DEG_WRAP as u64)) as i64;
    // Bounce on the post-integration position, then decay if any axis hit.
    let bounce_x = px > screen.half_width || px < -screen.half_width;
    let bounce_y = py > screen.half_height || py < -screen.half_height;
    let vx2: i64 = if bounce_x {
        bounce_exec(f.vel.x)
    } else {
        f.vel.x
    };
    let vy2: i64 = if bounce_y {
        bounce_exec(vy1)
    } else {
        vy1
    };
    let scale1: i64 = if bounce_x || bounce_y {
        proof {
            lemma_mul_div_le(f.scale as int, 7, 10);
        }
        ((f.scale as u64) * 7 / 10) as i64
    } else {
        f.scale
    };
    f.pos = Vec2I { x: px, y: py };
    f.vel = Vec2I { x: vx2, y: vy2 };
    f.rot = rot1;
    f.scale = scale1;
    f.color = Hsva { h: h1, s: f.color.s, v: f.color.v, a: f.color.a };
    proof {
        assert(*f == frag_step(f0, dt as int, screen, hue_step as int));
    }
    false
}

/// The independent uniform draws that shape one emitted fragment.
#[derive(Clone, Copy, PartialEq, Eq, Structural, Debug)]
pub struct FragmentDraws {
    pub offset_x: i64,
    pub offset_y: i64,
    pub flip_x: bool,
    pub speed_x: i64,
    pub speed_y: i64,
    pub hue: i64,
    pub saturation: i64,
    pub value: i64,
    pub alpha: i64,
    pub shrink: i64,
    pub spin: i64,
}

impl FragmentDraws {
    /// Every draw landed in its documented range.
    pub open spec fn wf(self) -> bool {
        &&& -JITTER <= self.offset_x < JITTER
        &&& -JITTER <= self.offset_y < JITTER
        &&& 0 <= self.speed_x < VEL_X_MAX
        &&& 0 <= self.speed_y < VEL_Y_MAX
        &&& 500 <= self.hue < MILLI_ONE
        &&& 500 <= self.saturation < MILLI_ONE
        &&& 500 <= self.value < MILLI_ONE
        &&& 500 <= self.alpha < MILLI_ONE
        &&& SHRINK_MIN <= self.shrink < SHRINK_MAX
        &&& 0 <= self.spin < ANG_VEL_MAX
    }
}

/// The fragment a given set of draws produces for a destroyed target of
/// the given visual size at the given click point: spawn position is the
/// click plus jitter, the horizontal speed takes the drawn sign, the
/// vertical launch is upward, the size is the target's divided by the
/// shrink factor, the scale starts full, and the rotation starts at zero.
pub open spec fn fragment_from_draws(width: int, height: int, click: Vec2I, d: FragmentDraws) -> Fragment {
    Fragment {
        pos: Vec2I { x: (click.x + d.offset_x) as i64, y: (click.y + d.offset_y) as i64 },
        vel: Vec2I {
            x: (if d.flip_x {
                -(d.speed_x as int)
            } else {
                d.speed_x as int
            }) as i64,
            y: d.speed_y,
        },
        rot: 0,
        ang_vel: d.spin,
        scale: FULL_SCALE,
        width: (width * 1000 / (d.shrink as int)) as i64,
        height: (height * 1000 / (d.shrink as int)) as i64,
        color: Hsva { h: d.hue, s: d.saturation, v: d.value, a: d.alpha },
    }
}

/// A fragment that one emission for a target of the given size at the
/// given click point can produce: some admissible set of draws shapes it.
pub open spec fn emitted_from(f: Fragment, width: int, height: int, click: Vec2I) -> bool {
    exists|d: FragmentDraws| d.wf() && f == fragment_from_draws(width, height, click, d)
}

/// Builds the fragment a set of draws dictates; pure and fully verified,
/// so the randomized emission is exact once the draws are fixed.
pub fn make_fragment(width: i64, height: i64, click: Vec2I, d: &FragmentDraws) -> (f: Fragment)
    requires
        d.wf(),
        0 < width <= SIZE_LIMIT,
        0 < height <= SIZE_LIMIT,
        -(MOTION_LIMIT - JITTER) <= click.x <= MOTION_LIMIT - JITTER,
        -(MOTION_LIMIT - JITTER) <= click.y <= MOTION_LIMIT - JITTER,
    ensures
        f == fragment_from_draws(width as int, height as int, click, *d),
        f.wf(),
{
    let sx: i64 = if d.flip_x {
        -d.speed_x
    } else {
        d.speed_x
    };
    proof {
        lemma_mul_div_le(width as int, 1000, d.shrink as int);
        lemma_mul_div_le(height as int, 1000, d.shrink as int);
        assert(width as int * 1000 / (d.shrink as int) <= width) by {
            assert(1000 <= d.shrink as int);
        }
    }
    let fw: i64 = ((width as u64) * 1000 / (d.shrink as u64)) as i64;
    let fh: i64 = ((height as u64) * 1000 / (d.shrink as u64)) as i64;
    Fragment {
        pos: Vec2I { x: click.x + d.offset_x, y: click.y + d.offset_y },
        vel: Vec2I { x: sx, y: d.speed_y },
        rot: 0,
        ang_vel: d.spin,
        scale: FULL_SCALE,
        width: fw,
        height: fh,
        color: Hsva { h: d.hue, s: d.saturation, v: d.value, a: d.alpha },
    }
}

/// Draws the randomized parameters of one fragment.
pub fn draw_fragment(rng: &mut rand::rngs::ThreadRng) -> (d: FragmentDraws)
    ensures
        d.wf(),
{
    FragmentDraws {
        offset_x: rand_in_range(rng, -JITTER, JITTER),
        offset_y: rand_in_range(rng, -JITTER, JITTER),
        flip_x: rand_coin(rng),
        speed_x: rand_in_range(rng, 0, VEL_X_MAX),
        speed_y: rand_in_range(rng, 0, VEL_Y_MAX),
        hue: rand_in_range(rng, 500, MILLI_ONE),
        saturation: rand_in_range(rng, 500, MILLI_ONE),
        value: rand_in_range(rng, 500, MILLI_ONE),
        alpha: rand_in_range(rng, 500, MILLI_ONE),
        shrink: rand_in_range(rng, SHRINK_MIN, SHRINK_MAX),
        spin: rand_in_range(rng, 0, ANG_VEL_MAX),
    }
}

/// Emits the full burst for one destroyed target: always exactly
/// [`FRAGMENT_BATCH`] fragments, each shaped by its own independent draws,
/// regardless of the target's size or position.
pub fn emit_fragments(rng: &mut rand::rngs::ThreadRng, width: i64, height: i64, click: Vec2I) -> (batch: Vec<Fragment>)
    requires
        0 < width <= SIZE_LIMIT,
        0 < height <= SIZE_LIMIT,
        -(MOTION_LIMIT - JITTER) <= click.x <= MOTION_LIMIT - JITTER,
        -(MOTION_LIMIT - JITTER) <= click.y <= MOTION_LIMIT - JITTER,
    ensures
        batch@.len() == FRAGMENT_BATCH,
        forall|i: int|
            0 <= i < batch@.len() ==> (#[trigger] batch@[i]).wf() && emitted_from(
                batch@[i],
                width as int,
                height as int,
                click,
            ),
{
    let mut batch: Vec<Fragment> = Vec::new();
    for n in 0..FRAGMENT_BATCH
        invariant
            batch@.len() == n,
            0 < width <= SIZE_LIMIT,
            0 < height <= SIZE_LIMIT,
            -(MOTION_LIMIT - JITTER) <= click.x <= MOTION_LIMIT - JITTER,
            -(MOTION_LIMIT - JITTER) <= click.y <= MOTION_LIMIT - JITTER,
            forall|i: int|
                0 <= i < batch@.len() ==> (#[trigger] batch@[i]).wf() && emitted_from(
                    batch@[i],
                    width as int,
                    height as int,
                    click,
                ),
    {
        let d = draw_fragment(rng);
        let f = make_fragment(width, height, click, &d);
        proof {
            assert(emitted_from(f, width as int, height as int, click)) by {
                assert(d.wf() && f == fragment_from_draws(width as int, height as int, click, d));
            }
        }
        batch.push(f);
    }
    batch
}

} // verus!
