use vstd::prelude::*;
use crate::geom::{Vec2I, ScreenSize, MOTION_LIMIT, SCREEN_LIMIT, sim_x, sim_y, window_to_sim};
use crate::score::{Score, HIT_POINTS};
use crate::timer::{RepeatingTimer, SPAWN_PERIOD, timer_fires, timer_next};
use crate::target::{Target, hits, target_hit, spawn_target, spawned_target_ok};
use crate::fragment::{
    Fragment, FRAGMENT_BATCH, JITTER, SCALE_EPS, HUE_STEP_MAX, DT_LIMIT, frag_step, emitted_from,
    emit_fragments, step_fragment,
};
use crate::rng::rand_in_range;

verus! {

/// Targets the click does not destroy (the hit test misses them).
pub open spec fn miss_filter(click: Vec2I) -> spec_fn(Target) -> bool {
    |t: Target| !hits(click, t)
}

/// Targets the click destroys.
pub open spec fn hit_filter(click: Vec2I) -> spec_fn(Target) -> bool {
    |t: Target| hits(click, t)
}

/// Fragments that survive the pre-update destruction check.
pub open spec fn live_filter() -> spec_fn(Fragment) -> bool {
    |f: Fragment| f.scale >= SCALE_EPS
}

/// The fragment belongs to the burst of some target the click hit.
pub open spec fn hit_emitted(f: Fragment, targets: Seq<Target>, click: Vec2I) -> bool {
    exists|j: int|
        0 <= j < targets.len() && hits(click, targets[j]) && emitted_from(
            f,
            targets[j].width as int,
            targets[j].height as int,
            click,
        )
}

/// The fragment is one physics step of `f`, whatever hue advance the frame
/// drew.
pub open spec fn stepped_from(g: Fragment, f: Fragment, dt: int, screen: ScreenSize) -> bool {
    exists|hd: int| 0 <= hd < HUE_STEP_MAX && g == frag_step(f, dt, screen, hd)
}

/// What resolving one click at `click` does to the world: every hit target
/// is destroyed (the others keep their order), each hit awards the fixed
/// points, and each hit bursts exactly one batch of fragments at the click
/// point, appended after the fragments already alive.
pub open spec fn click_resolved(pre: World, post: World, click: Vec2I) -> bool {
    &&& post.spawn_timer == pre.spawn_timer
    &&& post.targets@ == pre.targets@.filter(miss_filter(click))
    &&& post.score.points == pre.score.points + HIT_POINTS * pre.targets@.filter(
        hit_filter(click),
    ).len()
    &&& post.fragments@.len() == pre.fragments@.len() + FRAGMENT_BATCH * pre.targets@.filter(
        hit_filter(click),
    ).len()
    &&& post.fragments@.subrange(0, pre.fragments@.len() as int) == pre.fragments@
    &&& forall|i: int|
        pre.fragments@.len() <= i < post.fragments@.len() ==> hit_emitted(
            #[trigger] post.fragments@[i],
            pre.targets@,
            click,
        )
}

/// Law (monotonic score): resolving a click never decreases the score; it
/// raises it by exactly the fixed points per target the click destroyed.
pub proof fn lemma_click_score_monotone(pre: World, post: World, click: Vec2I)
    requires
        click_resolved(pre, post, click),
    ensures
        post.score.points >= pre.score.points,
        post.score.points == pre.score.points + HIT_POINTS * pre.targets@.filter(
            hit_filter(click),
        ).len(),
{
}

/// The whole simulation state one session owns: the live registries, the
/// spawn scheduler and the score, threaded explicitly through every step.
pub struct World {
    pub targets: Vec<Target>,
    pub fragments: Vec<Fragment>,
    pub spawn_timer: RepeatingTimer,
    pub score: Score,
}

impl World {
    /// Every live entity is well formed and the spawn timer runs at the
    /// fixed period.
    pub open spec fn wf(self) -> bool {
        &&& self.spawn_timer.wf()
        &&& self.spawn_timer.period == SPAWN_PERIOD
        &&& forall|i: int| 0 <= i < self.targets@.len() ==> (#[trigger] self.targets@[i]).wf()
        &&& forall|i: int| 0 <= i < self.fragments@.len() ==> (#[trigger] self.fragments@[i]).wf()
    }

    /// A fresh session: no entities, score zero, spawn timer re-armed.
    pub fn new() -> (w: World)
        ensures
            w.wf(),
            w.targets@.len() == 0,
            w.fragments@.len() == 0,
            w.score.points == 0,
            w.spawn_timer.elapsed == 0,
            w.spawn_timer.period == SPAWN_PERIOD,
    {
        World {
            targets: Vec::new(),
            fragments: Vec::new(),
            spawn_timer: RepeatingTimer::new(SPAWN_PERIOD),
            score: Score::new(),
        }
    }

    /// Fixed-timestep spawn scheduling: advances the spawn timer by `dt`
    /// and, when it fires, places one random target on the screen. Without
    /// a screen size the whole step is deferred and nothing changes.
    pub fn spawn_step(&mut self, dt: u64, screen: Option<ScreenSize>, rng: &mut rand::rngs::ThreadRng) -> (spawned: bool)
        requires
            old(self).wf(),
            match screen {
                Some(s) => s.wf(),
                None => true,
            },
            old(self).spawn_timer.elapsed + dt <= u64::MAX,
        ensures
            final(self).wf(),
            final(self).fragments == old(self).fragments,
            final(self).score == old(self).score,
            match screen {
                None => *final(self) == *old(self) && !spawned,
                Some(s) => {
                    &&& spawned == timer_fires(
                        SPAWN_PERIOD as int,
                        old(self).spawn_timer.elapsed as int,
                        dt as int,
                    )
                    &&& final(self).spawn_timer.period == SPAWN_PERIOD
                    &&& final(self).spawn_timer.elapsed == timer_next(
                        SPAWN_PERIOD as int,
                        old(self).spawn_timer.elapsed as int,
                        dt as int,
                    )
                    &&& (spawned ==> final(self).targets@.len() == old(self).targets@.len() + 1
                        && final(self).targets@.subrange(0, old(self).targets@.len() as int)
                        == old(self).targets@ && spawned_target_ok(final(self).targets@.last(), s))
                    &&& (!spawned ==> final(self).targets == old(self).targets)
                },
            },
    {
        match screen {
            None => false,
            Some(s) => {
                let fired = self.spawn_timer.tick(dt);
                if fired {
                    let ghost targets0 = self.targets@;
                    let t = spawn_target(rng, s);
                    self.targets.push(t);
                    proof {
                        assert(self.targets@.subrange(0, targets0.len() as int) =~= targets0);
                        assert forall|i: int| 0 <= i < self.targets@.len() implies (
                        #[trigger] self.targets@[i]).wf() by {
                            if i < targets0.len() {
                                assert(self.targets@[i] == targets0[i]);
                            }
                        }
                    }
                }
                fired
            },
        }
    }

    /// Resolves a click already converted to simulation space: destroys
    /// every live target within half its diagonal of the click, awards the
    /// fixed points per destruction, and bursts one fragment batch per
    /// destruction at the click point — all in the same frame, with no
    /// first-match short-circuit.
    pub fn resolve_click(&mut self, click: Vec2I, rng: &mut rand::rngs::ThreadRng)
        requires
            old(self).wf(),
            -(MOTION_LIMIT - JITTER) <= click.x <= MOTION_LIMIT - JITTER,
            -(MOTION_LIMIT - JITTER) <= click.y <= MOTION_LIMIT - JITTER,
            old(self).score.points + HIT_POINTS * old(self).targets@.len() <= u64::MAX,
        ensures
            final(self).wf(),
            click_resolved(*old(self), *final(self), click),
    {
        let ghost targets0 = self.targets@;
        let ghost frags0 = self.fragments@;
        let ghost score0 = self.score.points;
        let n = self.targets.len();
        let mut kept: Vec<Target> = Vec::new();
        let mut i: usize = 0;
        while i < n
            invariant
                i <= n,
                n == targets0.len(),
                self.targets@ == targets0,
                self.spawn_timer == old(self).spawn_timer,
                forall|k: int| 0 <= k < targets0.len() ==> (#[trigger] targets0[k]).wf(),
                forall|k: int|
                    0 <= k < self.fragments@.len() ==> (#[trigger] self.fragments@[k]).wf(),
                -(MOTION_LIMIT - JITTER) <= click.x <= MOTION_LIMIT - JITTER,
                -(MOTION_LIMIT - JITTER) <= click.y <= MOTION_LIMIT - JITTER,
                score0 + HIT_POINTS * targets0.len() <= u64::MAX,
                kept@ == targets0.subrange(0, i as int).filter(miss_filter(click)),
                self.score.points == score0 + HIT_POINTS * targets0.subrange(0, i as int).filter(
                    hit_filter(click),
                ).len(),
                self.fragments@.len() == frags0.len() + FRAGMENT_BATCH * targets0.subrange(
                    0,
                    i as int,
                ).filter(hit_filter(click)).len(),
                self.fragments@.subrange(0, frags0.len() as int) == frags0,
                forall|k: int|
                    frags0.len() <= k < self.fragments@.len() ==> hit_emitted(
                        #[trigger] self.fragments@[k],
                        targets0,
                        click,
                    ),
            decreases n - i,
        {
            let ghost prefix = targets0.subrange(0, i as int);
            let t = self.targets[i];
            proof {
                assert(targets0.subrange(0, i as int + 1) =~= prefix.push(targets0[i as int]));
                prefix.lemma_filter_push(targets0[i as int], miss_filter(click));
                prefix.lemma_filter_push(targets0[i as int], hit_filter(click));
                prefix.lemma_filter_len(miss_filter(click));
                prefix.lemma_filter_len(hit_filter(click));
                targets0.subrange(0, i as int + 1).lemma_filter_len(hit_filter(click));
            }
            if target_hit(click, &t) {
                self.score.award_hit();
                let ghost before = self.fragments@;
                let mut burst = emit_fragments(rng, t.width, t.height, click);
                let ghost burst0 = burst@;
                self.fragments.append(&mut burst);
                proof {
                    assert(self.fragments@.subrange(0, frags0.len() as int) =~= frags0);
                    assert forall|k: int|
                        frags0.len() <= k < self.fragments@.len() implies hit_emitted(
                        #[trigger] self.fragments@[k],
                        targets0,
                        click,
                    ) by {
                        if k < before.len() {
                            assert(self.fragments@[k] == before[k]);
                        } else {
                            let b = self.fragments@[k];
                            assert(b == burst0[k - before.len()]);
                            assert(emitted_from(
                                b,
                                targets0[i as int].width as int,
                                targets0[i as int].height as int,
                                click,
                            ));
                            assert(hit_emitted(b, targets0, click));
                        }
                    }
                    assert forall|k: int|
                        0 <= k < self.fragments@.len() implies (#[trigger] self.fragments@[k]).wf()
                    by {
                        if k < before.len() {
                            assert(self.fragments@[k] == before[k]);
                        } else {
                            assert(self.fragments@[k] == burst0[k - before.len()]);
                        }
                    }
                }
            } else {
                kept.push(t);
            }
            i = i + 1;
        }
        proof {
            assert(targets0.subrange(0, n as int) =~= targets0);
        }
        self.targets = kept;
        proof {
            targets0.lemma_filter_len(miss_filter(click));
            assert forall|k: int| 0 <= k < self.targets@.len() implies (
            #[trigger] self.targets@[k]).wf() by {
                targets0.lemma_filter_pred(miss_filter(click), k);
                targets0.lemma_filter_contains_rev(miss_filter(click), self.targets@[k]);
            }
        }
    }

    /// One variable-rate frame of the hit tester: acts only on the release
    /// edge of the primary button, and only when a screen size and a
    /// cursor position are available — otherwise the click is lost, not
    /// queued. The raw cursor is converted to simulation space and the
    /// click resolved against every live target.
    pub fn pointer_release(
        &mut self,
        released: bool,
        screen: Option<ScreenSize>,
        cursor: Option<Vec2I>,
        rng: &mut rand::rngs::ThreadRng,
    )
        requires
            old(self).wf(),
            match screen {
                Some(s) => s.wf(),
                None => true,
            },
            match cursor {
                Some(c) => -2 * SCREEN_LIMIT <= c.x <= 2 * SCREEN_LIMIT && -2 * SCREEN_LIMIT <= c.y
                    <= 2 * SCREEN_LIMIT,
                None => true,
            },
            old(self).score.points + HIT_POINTS * old(self).targets@.len() <= u64::MAX,
        ensures
            final(self).wf(),
            match (screen, cursor) {
                (Some(s), Some(c)) => if released {
                    click_resolved(
                        *old(self),
                        *final(self),
                        Vec2I { x: sim_x(c, s) as i64, y: sim_y(c, s) as i64 },
                    )
                } else {
                    *final(self) == *old(self)
                },
                _ => *final(self) == *old(self),
            },
    {
        if !released {
            return ;
        }
        if let (Some(s), Some(c)) = (screen, cursor) {
            let click = window_to_sim(c, s);
            self.resolve_click(click, rng);
        }
    }

    /// Fixed-timestep fragment physics: every live fragment whose scale
    /// already decayed below the threshold is destroyed this very frame;
    /// every other is advanced one step, with its own random hue advance.
    /// Without a screen size (no bounce bounds) the step is deferred.
    pub fn step_fragments(&mut self, dt: u64, screen: Option<ScreenSize>, rng: &mut rand::rngs::ThreadRng)
        requires
            old(self).wf(),
            dt <= DT_LIMIT,
            match screen {
                Some(s) => s.wf(),
                None => true,
            },
        ensures
            final(self).wf(),
            final(self).targets == old(self).targets,
            final(self).score == old(self).score,
            final(self).spawn_timer == old(self).spawn_timer,
            match screen {
                None => *final(self) == *old(self),
                Some(s) => {
                    let live = old(self).fragments@.filter(live_filter());
                    &&& final(self).fragments@.len() == live.len()
                    &&& forall|i: int|
                        0 <= i < live.len() ==> stepped_from(
                            #[trigger] final(self).fragments@[i],
                            live[i],
                            dt as int,
                            s,
                        )
                },
            },
    {
        if screen.is_none() {
            return ;
        }
        let s = screen.unwrap();
        let ghost frags0 = self.fragments@;
        let n = self.fragments.len();
        let mut alive: Vec<Fragment> = Vec::new();
        let mut i: usize = 0;
        while i < n
            invariant
                i <= n,
                n == frags0.len(),
                self.fragments@ == frags0,
                s.wf(),
                dt <= DT_LIMIT,
                forall|k: int| 0 <= k < frags0.len() ==> (#[trigger] frags0[k]).wf(),
                alive@.len() == frags0.subrange(0, i as int).filter(live_filter()).len(),
                forall|k: int|
                    0 <= k < alive@.len() ==> stepped_from(
                        #[trigger] alive@[k],
                        frags0.subrange(0, i as int).filter(live_filter())[k],
                        dt as int,
                        s,
                    ),
                forall|k: int| 0 <= k < alive@.len() ==> (#[trigger] alive@[k]).wf(),
            decreases n - i,
        {
            let ghost prefix = frags0.subrange(0, i as int);
            let mut g = self.fragments[i];
            let hue_step = rand_in_range(rng, 0, HUE_STEP_MAX);
            let destroyed = step_fragment(&mut g, dt, s, hue_step);
            proof {
                assert(frags0.subrange(0, i as int + 1) =~= prefix.push(frags0[i as int]));
                prefix.lemma_filter_push(frags0[i as int], live_filter());
            }
            if !destroyed {
                alive.push(g);
                proof {
                    let lived = frags0.subrange(0, i as int + 1).filter(live_filter());
                    assert(lived == prefix.filter(live_filter()).push(frags0[i as int]));
                    assert(stepped_from(g, frags0[i as int], dt as int, s)) by {
                        assert(0 <= hue_step < HUE_STEP_MAX && g == frag_step(
                            frags0[i as int],
                            dt as int,
                            s,
                            hue_step as int,
                        ));
                    }
                    assert forall|k: int| 0 <= k < alive@.len() implies stepped_from(
                        #[trigger] alive@[k],
                        lived[k],
                        dt as int,
                        s,
                    ) by {
                        if k < alive@.len() - 1 {
                            assert(lived[k] == prefix.filter(live_filter())[k]);
                        }
                    }
                }
            }
            i = i + 1;
        }
        proof {
            assert(frags0.subrange(0, n as int) =~= frags0);
        }
        self.fragments = alive;
    }
}

} // verus!
