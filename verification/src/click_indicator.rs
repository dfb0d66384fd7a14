use vstd::prelude::*;
use crate::geom::{Vec2I, ScreenSize, SCREEN_LIMIT, sim_x, sim_y, window_to_sim};
use crate::timer::{OneShotTimer, MARKER_TIMEOUT};
use crate::target::Rgba;

verus! {

/// Edge length of the marker dot: 10 simulation units, in milli.
pub const MARKER_EDGE: i64 = 10_000;

/// A purely cosmetic, fixed-duration dot shown at every click location.
#[derive(Clone, Copy, PartialEq, Eq, Structural, Debug)]
pub struct ClickMarker {
    pub pos: Vec2I,
    pub width: i64,
    pub height: i64,
    pub color: Rgba,
    pub timer: OneShotTimer,
}

impl ClickMarker {
    /// Fixed size, fixed low-red/high-green/low-blue opaque color, and a
    /// still-running countdown at the fixed timeout.
    pub open spec fn wf(self) -> bool {
        &&& self.pos.in_motion_range()
        &&& self.width == MARKER_EDGE
        &&& self.height == MARKER_EDGE
        &&& self.color == (Rgba { r: 100, g: 900, b: 100, a: 1000 })
        &&& self.timer.wf()
        &&& self.timer.duration == MARKER_TIMEOUT
        &&& self.timer.elapsed < MARKER_TIMEOUT
    }
}

/// The marker a pointer release at simulation point `p` creates.
pub open spec fn fresh_marker(p: Vec2I) -> ClickMarker {
    ClickMarker {
        pos: p,
        width: MARKER_EDGE,
        height: MARKER_EDGE,
        color: Rgba { r: 100, g: 900, b: 100, a: 1000 },
        timer: OneShotTimer { duration: MARKER_TIMEOUT, elapsed: 0 },
    }
}

/// Markers whose countdown does not finish within a tick of `dt`.
pub open spec fn surviving_filter(dt: int) -> spec_fn(ClickMarker) -> bool {
    |m: ClickMarker| m.timer.elapsed + dt < m.timer.duration
}

/// A surviving marker after a tick of `dt`: only the countdown advances.
pub open spec fn marker_ticked(m: ClickMarker, dt: int) -> ClickMarker {
    ClickMarker {
        pos: m.pos,
        width: m.width,
        height: m.height,
        color: m.color,
        timer: OneShotTimer {
            duration: m.timer.duration,
            elapsed: (m.timer.elapsed + dt) as u64,
        },
    }
}

pub open spec fn tick_map(dt: int) -> spec_fn(ClickMarker) -> ClickMarker {
    |m: ClickMarker| marker_ticked(m, dt)
}

/// The click-indicator subsystem: owns the live marker dots, spawns one on
/// every pointer release, and expires each after its fixed one-second
/// countdown. It is independent of the hit tester and never learns whether
/// a click destroyed a target.
pub struct ClickIndicatorPlugin {
    pub markers: Vec<ClickMarker>,
}

impl ClickIndicatorPlugin {
    pub open spec fn wf(self) -> bool {
        forall|i: int| 0 <= i < self.markers@.len() ==> (#[trigger] self.markers@[i]).wf()
    }

    pub fn new() -> (p: ClickIndicatorPlugin)
        ensures
            p.wf(),
            p.markers@.len() == 0,
    {
        ClickIndicatorPlugin { markers: Vec::new() }
    }

    /// One variable-rate frame of the spawn half: on the release edge of
    /// the primary button, with a screen size and a cursor position
    /// available, places one fresh marker at the click's simulation-space
    /// position; otherwise nothing happens.
    pub fn on_pointer_event(
        &mut self,
        released: bool,
        screen: Option<ScreenSize>,
        cursor: Option<Vec2I>,
    ) -> (spawned: bool)
        requires
            old(self).wf(),
            match screen {
                Some(s) => s.wf(),
                None => true,
            },
            match cursor {
                Some(c) => -2 * SCREEN_LIMIT <= c.x <= 2 * SCREEN_LIMIT && -2 * SCREEN_LIMIT <= c.y
                    <= 2 * SCREEN_LIMIT,
                None => true,
            },
        ensures
            final(self).wf(),
            match (screen, cursor) {
                (Some(s), Some(c)) => if released {
                    spawned && final(self).markers@ == old(self).markers@.push(
                        fresh_marker(Vec2I { x: sim_x(c, s) as i64, y: sim_y(c, s) as i64 }),
                    )
                } else {
                    !spawned && *final(self) == *old(self)
                },
                _ => !spawned && *final(self) == *old(self),
            },
    {
        if !released {
            return false;
        }
        if let (Some(s), Some(c)) = (screen, cursor) {
            let p = window_to_sim(c, s);
            let m = ClickMarker {
                pos: p,
                width: MARKER_EDGE,
                height: MARKER_EDGE,
                color: Rgba { r: 100, g: 900, b: 100, a: 1000 },
                timer: OneShotTimer::new(MARKER_TIMEOUT),
            };
            let ghost ms0 = self.markers@;
            self.markers.push(m);
            proof {
                assert forall|i: int| 0 <= i < self.markers@.len() implies (
                #[trigger] self.markers@[i]).wf() by {
                    if i < ms0.len() {
                        assert(self.markers@[i] == ms0[i]);
                    }
                }
            }
            true
        } else {
            false
        }
    }

    /// One variable-rate frame of the expiry half: advances every live
    /// marker's countdown by `dt` and destroys each marker on the very
    /// frame its countdown finishes — never a frame later.
    pub fn tick(&mut self, dt: u64)
        requires
            old(self).wf(),
            dt <= u64::MAX - MARKER_TIMEOUT,
        ensures
            final(self).wf(),
            final(self).markers@ == old(self).markers@.filter(
                surviving_filter(dt as int),
            ).map_values(tick_map(dt as int)),
    {
        let ghost ms0 = self.markers@;
        let n = self.markers.len();
        let mut alive: Vec<ClickMarker> = Vec::new();
        let mut i: usize = 0;
        while i < n
            invariant
                i <= n,
                n == ms0.len(),
                self.markers@ == ms0,
                dt <= u64::MAX - MARKER_TIMEOUT,
                forall|k: int| 0 <= k < ms0.len() ==> (#[trigger] ms0[k]).wf(),
                alive@ == ms0.subrange(0, i as int).filter(surviving_filter(dt as int)).map_values(
                    tick_map(dt as int),
                ),
                forall|k: int| 0 <= k < alive@.len() ==> (#[trigger] alive@[k]).wf(),
            decreases n - i,
        {
            let ghost prefix = ms0.subrange(0, i as int);
            let mut m = self.markers[i];
            let finished = m.timer.tick(dt);
            proof {
                assert(ms0.subrange(0, i as int + 1) =~= prefix.push(ms0[i as int]));
                prefix.lemma_filter_push(ms0[i as int], surviving_filter(dt as int));
            }
            if !finished {
                alive.push(m);
                proof {
                    assert(m == marker_ticked(ms0[i as int], dt as int));
                    assert(ms0.subrange(0, i as int + 1).filter(
                        surviving_filter(dt as int),
                    ).map_values(tick_map(dt as int)) =~= prefix.filter(
                        surviving_filter(dt as int),
                    ).map_values(tick_map(dt as int)).push(marker_ticked(ms0[i as int], dt as int)));
                }
            }
            i = i + 1;
        }
        proof {
            assert(ms0.subrange(0, n as int) =~= ms0);
        }
        self.markers = alive;
    }
}

} // verus!
