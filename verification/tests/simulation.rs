use boxburst::click_indicator::{ClickIndicatorPlugin, MARKER_EDGE};
use boxburst::fragment::{
    make_fragment, step_fragment, emit_fragments, Fragment, FragmentDraws, Hsva, FRAGMENT_BATCH,
};
use boxburst::geom::{window_to_sim, ScreenSize, Vec2I};
use boxburst::score::Score;
use boxburst::target::{spawn_target, target_hit, Rgba, Target, TARGET_EDGE};
use boxburst::timer::{OneShotTimer, RepeatingTimer, MARKER_TIMEOUT, SPAWN_PERIOD};
use boxburst::world::World;

fn screen_800_600() -> ScreenSize {
    // Window 800x600 units: half-extents in milli-units.
    ScreenSize { half_width: 400_000, half_height: 300_000 }
}

fn target_at_origin() -> Target {
    Target {
        pos: Vec2I { x: 0, y: 0 },
        width: TARGET_EDGE,
        height: TARGET_EDGE,
        color: Rgba { r: 500, g: 500, b: 500, a: 800 },
    }
}

#[test]
fn score_counts_ten_per_hit() {
    let mut score = Score::new();
    assert_eq!(score.read(), 0);
    let mut previous = 0;
    for n in 1..=5u64 {
        score.award_hit();
        assert_eq!(score.read(), 10 * n);
        assert!(score.read() >= previous);
        previous = score.read();
    }
}

#[test]
fn spawn_timer_fires_once_at_exact_period() {
    let mut timer = RepeatingTimer::new(SPAWN_PERIOD);
    let mut fires = 0;
    // Cumulative elapsed time exactly one period, split unevenly.
    for dt in [500, 700, 800] {
        if timer.tick(dt) {
            fires += 1;
        }
    }
    assert_eq!(fires, 1);
    assert_eq!(timer.elapsed, 0);
}

#[test]
fn spawn_timer_one_fire_per_period_window() {
    let mut timer = RepeatingTimer::new(SPAWN_PERIOD);
    // Two period-length windows of ticks: one fire in each.
    let mut fires_first = 0;
    for dt in [1000, 1000] {
        if timer.tick(dt) {
            fires_first += 1;
        }
    }
    let mut fires_second = 0;
    for dt in [1999, 1] {
        if timer.tick(dt) {
            fires_second += 1;
        }
    }
    assert_eq!(fires_first, 1);
    assert_eq!(fires_second, 1);
}

#[test]
fn spawn_timer_single_fire_on_large_delta() {
    let mut timer = RepeatingTimer::new(SPAWN_PERIOD);
    // A delta of two periods in one tick check still reports one firing,
    // with the surplus carried into the countdown.
    assert!(timer.tick(2 * SPAWN_PERIOD));
    assert_eq!(timer.elapsed, 0);
    assert!(!timer.tick(SPAWN_PERIOD - 1));
    assert!(timer.tick(1));
}

#[test]
fn hit_test_boundary_is_excluded() {
    // The point (50, 50) units lies at distance sqrt(5000) = 70.71... from
    // the center: exactly half the 100x100 diagonal, sqrt(100^2+100^2)/2.
    let t = target_at_origin();
    let boundary = Vec2I { x: 50_000, y: 50_000 };
    assert!(!target_hit(boundary, &t));
}

#[test]
fn hit_test_inside_circle_hits() {
    // Distance 70.0 units from the center: strictly inside the boundary.
    let t = target_at_origin();
    let inside = Vec2I { x: 70_000, y: 0 };
    assert!(target_hit(inside, &t));
    // Distance 71 units: outside.
    let outside = Vec2I { x: 71_000, y: 0 };
    assert!(!target_hit(outside, &t));
}

#[test]
fn fragment_batch_is_always_fifteen() {
    let mut rng = rand::thread_rng();
    let click = Vec2I { x: 1_000, y: -2_000 };
    let batch = emit_fragments(&mut rng, TARGET_EDGE, TARGET_EDGE, click);
    assert_eq!(batch.len(), FRAGMENT_BATCH);
    // A tiny target bursts into just as many fragments.
    let batch_small = emit_fragments(&mut rng, 1_000, 2_000, Vec2I { x: 500_000, y: 0 });
    assert_eq!(batch_small.len(), FRAGMENT_BATCH);
    for f in &batch {
        // Spawn position within the jitter box around the click.
        assert!((f.pos.x - click.x).abs() <= 10_000);
        assert!((f.pos.y - click.y).abs() <= 10_000);
        // Upward launch, bounded sideways speed, full starting scale.
        assert!(f.vel.y >= 0 && f.vel.y < 600_000);
        assert!(f.vel.x.abs() < 400_000);
        assert_eq!(f.scale, 1000);
        // Always smaller than the source target.
        assert!(f.width < TARGET_EDGE && f.height < TARGET_EDGE);
        // HSVA channels drawn from [0.5, 1.0).
        assert!(f.color.h >= 500 && f.color.h < 1000);
        assert!(f.color.s >= 500 && f.color.s < 1000);
        assert!(f.color.v >= 500 && f.color.v < 1000);
        assert!(f.color.a >= 500 && f.color.a < 1000);
        assert!(f.ang_vel >= 0 && f.ang_vel < 20_000);
    }
}

#[test]
fn fragment_from_draws_is_exact() {
    let draws = FragmentDraws {
        offset_x: 1_000,
        offset_y: -2_000,
        flip_x: true,
        speed_x: 300_000,
        speed_y: 400_000,
        hue: 600,
        saturation: 700,
        value: 800,
        alpha: 900,
        shrink: 2_000,
        spin: 15_000,
    };
    let f = make_fragment(TARGET_EDGE, TARGET_EDGE, Vec2I { x: 0, y: 0 }, &draws);
    assert_eq!(f.pos, Vec2I { x: 1_000, y: -2_000 });
    assert_eq!(f.vel, Vec2I { x: -300_000, y: 400_000 });
    assert_eq!(f.rot, 0);
    assert_eq!(f.ang_vel, 15_000);
    assert_eq!(f.scale, 1000);
    // 100 units divided by the factor 2.0: 50 units a side.
    assert_eq!(f.width, 50_000);
    assert_eq!(f.height, 50_000);
    assert_eq!(f.color, Hsva { h: 600, s: 700, v: 800, a: 900 });
}

#[test]
fn physics_step_exact_bounce_and_decay() {
    let screen = screen_800_600();
    let mut f = Fragment {
        pos: Vec2I { x: 500_000, y: 0 },
        vel: Vec2I { x: 100_000, y: 50_000 },
        rot: 0,
        ang_vel: 5_000,
        scale: 1000,
        width: 50_000,
        height: 50_000,
        color: Hsva { h: 600, s: 700, v: 800, a: 900 },
    };
    // One full time unit.
    let destroyed = step_fragment(&mut f, 1000, screen, 5_000);
    assert!(!destroyed);
    // Gravity first: vy = 50000 - 400*1000 = -350000; then integration.
    assert_eq!(f.pos, Vec2I { x: 600_000, y: -350_000 });
    // Both axes ended beyond the half-extents: both velocities reverse,
    // damped to 96%, and the scale decays once to 70%.
    assert_eq!(f.vel, Vec2I { x: -96_000, y: 336_000 });
    assert_eq!(f.scale, 700);
    assert_eq!(f.rot, 5_000);
    assert_eq!(f.color, Hsva { h: 5_600, s: 700, v: 800, a: 900 });
    assert_eq!(f.ang_vel, 5_000);
}

#[test]
fn fragment_destroyed_on_first_subthreshold_frame() {
    let screen = screen_800_600();
    let mut f = Fragment {
        pos: Vec2I { x: 0, y: 0 },
        vel: Vec2I { x: 0, y: 0 },
        rot: 0,
        ang_vel: 0,
        scale: 99,
        width: 10_000,
        height: 10_000,
        color: Hsva { h: 500, s: 500, v: 500, a: 500 },
    };
    let before = f;
    // Scale 0.099 is below the 0.1 threshold: destroyed this very frame,
    // untouched otherwise.
    assert!(step_fragment(&mut f, 1000, screen, 0));
    assert_eq!(f, before);
    // Scale exactly 0.1 still lives.
    f.scale = 100;
    assert!(!step_fragment(&mut f, 1000, screen, 0));
}

#[test]
fn repeated_bounce_decay_reaches_destruction() {
    let screen = screen_800_600();
    let mut f = Fragment {
        pos: Vec2I { x: 500_000, y: 0 },
        vel: Vec2I { x: 0, y: 0 },
        rot: 0,
        ang_vel: 0,
        scale: 1000,
        width: 10_000,
        height: 10_000,
        color: Hsva { h: 500, s: 500, v: 500, a: 500 },
    };
    // Parked beyond the right edge with no velocity: every frame bounces
    // and decays the scale by 0.7 until the check sees it below 0.1.
    let mut frames = 0;
    loop {
        let destroyed = step_fragment(&mut f, 0, screen, 0);
        if destroyed {
            break;
        }
        frames += 1;
        assert!(frames < 100, "fragment must decay to destruction");
    }
    // 1000 -> 700 -> 490 -> 343 -> 240 -> 168 -> 117 -> 81: seven decays,
    // destroyed on the eighth check.
    assert_eq!(frames, 7);
}

#[test]
fn corner_conversion_round_trip() {
    let screen = screen_800_600();
    // Raw top-right corner (x = width, y = 0) lands at (width/2, height/2).
    let sim = window_to_sim(Vec2I { x: 800_000, y: 0 }, screen);
    assert_eq!(sim, Vec2I { x: 400_000, y: 300_000 });
    // And the window center lands at the origin.
    let center = window_to_sim(Vec2I { x: 400_000, y: 300_000 }, screen);
    assert_eq!(center, Vec2I { x: 0, y: 0 });
}

#[test]
fn spawned_target_is_on_screen() {
    let mut rng = rand::thread_rng();
    let screen = screen_800_600();
    for _ in 0..50 {
        let t = spawn_target(&mut rng, screen);
        assert!(t.pos.x >= -screen.half_width && t.pos.x < screen.half_width);
        assert!(t.pos.y >= -screen.half_height && t.pos.y < screen.half_height);
        assert_eq!(t.width, TARGET_EDGE);
        assert_eq!(t.height, TARGET_EDGE);
        assert!(t.color.r >= 0 && t.color.r < 1000);
        assert!(t.color.g >= 0 && t.color.g < 1000);
        assert!(t.color.b >= 0 && t.color.b < 1000);
        assert!(t.color.a >= 500 && t.color.a < 1000);
    }
}

#[test]
fn world_spawn_step_schedules_one_target() {
    let mut rng = rand::thread_rng();
    let screen = screen_800_600();
    let mut world = World::new();
    // Short of the period: no spawn.
    assert!(!world.spawn_step(SPAWN_PERIOD - 1, Some(screen), &mut rng));
    assert_eq!(world.targets.len(), 0);
    // Reaching it: exactly one target appears.
    assert!(world.spawn_step(1, Some(screen), &mut rng));
    assert_eq!(world.targets.len(), 1);
    // Without a screen size the step is deferred entirely.
    let elapsed_before = world.spawn_timer.elapsed;
    assert!(!world.spawn_step(SPAWN_PERIOD, None, &mut rng));
    assert_eq!(world.targets.len(), 1);
    assert_eq!(world.spawn_timer.elapsed, elapsed_before);
}

#[test]
fn click_on_empty_world_changes_nothing() {
    let mut rng = rand::thread_rng();
    let screen = screen_800_600();
    let mut world = World::new();
    world.pointer_release(
        true,
        Some(screen),
        Some(Vec2I { x: 100_000, y: 100_000 }),
        &mut rng,
    );
    assert_eq!(world.score.read(), 0);
    assert_eq!(world.targets.len(), 0);
    assert_eq!(world.fragments.len(), 0);
}

#[test]
fn overlapping_targets_all_destroyed_by_one_click() {
    let mut rng = rand::thread_rng();
    let screen = screen_800_600();
    let mut world = World::new();
    let mut second = target_at_origin();
    second.pos = Vec2I { x: 10_000, y: 0 };
    let mut far = target_at_origin();
    far.pos = Vec2I { x: 200_000, y: 0 };
    world.targets.push(target_at_origin());
    world.targets.push(second);
    world.targets.push(far);
    // Click at the window center: simulation origin. Both near targets
    // fall inside the hit circle and are destroyed in the same event.
    world.pointer_release(
        true,
        Some(screen),
        Some(Vec2I { x: 400_000, y: 300_000 }),
        &mut rng,
    );
    assert_eq!(world.score.read(), 20);
    assert_eq!(world.targets.len(), 1);
    assert_eq!(world.targets[0].pos, Vec2I { x: 200_000, y: 0 });
    assert_eq!(world.fragments.len(), 2 * FRAGMENT_BATCH);
}

#[test]
fn release_edge_required_for_hit_test() {
    let mut rng = rand::thread_rng();
    let screen = screen_800_600();
    let mut world = World::new();
    world.targets.push(target_at_origin());
    // Not released: nothing happens.
    world.pointer_release(
        false,
        Some(screen),
        Some(Vec2I { x: 400_000, y: 300_000 }),
        &mut rng,
    );
    assert_eq!(world.targets.len(), 1);
    assert_eq!(world.score.read(), 0);
    // Released with the cursor unavailable: the click is lost.
    world.pointer_release(true, Some(screen), None, &mut rng);
    assert_eq!(world.targets.len(), 1);
    assert_eq!(world.score.read(), 0);
}

#[test]
fn marker_spawns_at_click_and_expires_on_time() {
    let screen = screen_800_600();
    let mut plugin = ClickIndicatorPlugin::new();
    // Spawn on release at the window center.
    assert!(plugin.on_pointer_event(
        true,
        Some(screen),
        Some(Vec2I { x: 400_000, y: 300_000 }),
    ));
    assert_eq!(plugin.markers.len(), 1);
    assert_eq!(plugin.markers[0].pos, Vec2I { x: 0, y: 0 });
    assert_eq!(plugin.markers[0].width, MARKER_EDGE);
    assert_eq!(plugin.markers[0].color, Rgba { r: 100, g: 900, b: 100, a: 1000 });
    // Alive at every tick strictly before the timeout accumulates...
    plugin.tick(400);
    assert_eq!(plugin.markers.len(), 1);
    plugin.tick(MARKER_TIMEOUT - 401);
    assert_eq!(plugin.markers.len(), 1);
    // ...destroyed at the first tick where the elapsed time reaches it.
    plugin.tick(1);
    assert_eq!(plugin.markers.len(), 0);
}

#[test]
fn marker_not_spawned_without_release_or_cursor() {
    let screen = screen_800_600();
    let mut plugin = ClickIndicatorPlugin::new();
    assert!(!plugin.on_pointer_event(
        false,
        Some(screen),
        Some(Vec2I { x: 0, y: 0 }),
    ));
    assert!(!plugin.on_pointer_event(true, Some(screen), None));
    assert!(!plugin.on_pointer_event(true, None, Some(Vec2I { x: 0, y: 0 })));
    assert_eq!(plugin.markers.len(), 0);
}

#[test]
fn one_shot_timer_finishes_exactly_once() {
    let mut timer = OneShotTimer::new(MARKER_TIMEOUT);
    assert!(!timer.tick(999));
    assert!(timer.tick(1));
    // Finished timers never report finishing again.
    assert!(!timer.tick(1000));
    assert!(!timer.tick(0));
}

#[test]
fn end_to_end_center_click() {
    let mut rng = rand::thread_rng();
    // Window 800x600; a 100x100 target sits at the simulation origin.
    let screen = screen_800_600();
    let mut world = World::new();
    let mut plugin = ClickIndicatorPlugin::new();
    world.targets.push(target_at_origin());
    // Click released at raw (400, 300): the window center, distance 0.
    let cursor = Some(Vec2I { x: 400_000, y: 300_000 });
    world.pointer_release(true, Some(screen), cursor, &mut rng);
    plugin.on_pointer_event(true, Some(screen), cursor);
    assert_eq!(world.targets.len(), 0);
    assert_eq!(world.score.read(), 10);
    assert_eq!(world.fragments.len(), FRAGMENT_BATCH);
    for f in &world.fragments {
        assert!(f.pos.x.abs() <= 10_000 && f.pos.y.abs() <= 10_000);
    }
    assert_eq!(plugin.markers.len(), 1);
    assert_eq!(plugin.markers[0].pos, Vec2I { x: 0, y: 0 });
    // The fragments then animate and the dead ones disappear in place.
    world.step_fragments(16, Some(screen), &mut rng);
    assert_eq!(world.fragments.len(), FRAGMENT_BATCH);
}

#[test]
fn step_fragments_removes_only_dead_fragments() {
    let mut rng = rand::thread_rng();
    let screen = screen_800_600();
    let mut world = World::new();
    let live = Fragment {
        pos: Vec2I { x: 0, y: 0 },
        vel: Vec2I { x: 1_000, y: 0 },
        rot: 0,
        ang_vel: 0,
        scale: 500,
        width: 10_000,
        height: 10_000,
        color: Hsva { h: 500, s: 500, v: 500, a: 500 },
    };
    let mut dead = live;
    dead.scale = 50;
    world.fragments.push(live);
    world.fragments.push(dead);
    world.fragments.push(live);
    world.step_fragments(1000, Some(screen), &mut rng);
    assert_eq!(world.fragments.len(), 2);
    // Survivors moved by their velocity over the one-unit step.
    assert_eq!(world.fragments[0].pos, Vec2I { x: 1_000, y: -400_000 });
    assert_eq!(world.fragments[1].pos, Vec2I { x: 1_000, y: -400_000 });
}

