use speaki_sim::components::{
    BlinkTimer, CurrentAudio, IdleVoiceTimer, RotationState, Shiny, Speaki, SpeakiSize,
    SpriteState, Vec2, Velocity,
};
use speaki_sim::events::RequestBus;
use speaki_sim::physics::{
    compute_bounds, gravity_system, movement_system, rotation_system, shiny_explosion_pass,
    wall_collision_pass, wall_collision_system, window_inertia_system, WallBounds,
};
use speaki_sim::resources::{
    BorderConfig, PhysicsConfig, ShinyConfig, WindowPositionTracker,
};
use speaki_sim::world::World;

fn plain_speaki(id: u64, x: i64, y: i64, vx: i64, vy: i64, size: i64) -> Speaki {
    Speaki {
        id,
        pos: Vec2 { x, y },
        vel: Velocity { x: vx, y: vy },
        size: SpeakiSize(size),
        rot: RotationState { speed: 0 },
        angle: 0,
        sprite: SpriteState { current_index: 0 },
        blink: BlinkTimer {
            last_blink_time: 0,
            blink_cooldown: 5000,
            blink_open_time: 0,
            is_blinking: false,
            double_blink: false,
        },
        idle: IdleVoiceTimer { last_idle_time: 0, idle_cooldown: 0 },
        audio: CurrentAudio { handle: None },
        dragged: false,
        shiny: None,
    }
}

fn one_entity_world(s: Speaki) -> World {
    World { speakis: vec![s], next_id: s.id + 1, graph_len: 20 }
}

#[test]
fn gravity_lowers_vertical_velocity() {
    let mut w = one_entity_world(plain_speaki(0, 0, 0, 100, 200, 150_000));
    let p = PhysicsConfig::default();
    gravity_system(&mut w, &p);
    assert_eq!(w.speakis[0].vel.y, -300);
    assert_eq!(w.speakis[0].vel.x, 100);
}

#[test]
fn gravity_skips_dragged() {
    let mut s = plain_speaki(0, 0, 0, 0, 0, 150_000);
    s.dragged = true;
    let mut w = one_entity_world(s);
    gravity_system(&mut w, &PhysicsConfig::default());
    assert_eq!(w.speakis[0].vel.y, 0);
}

#[test]
fn movement_is_euler_integration() {
    let mut w = one_entity_world(plain_speaki(0, 1000, 2000, 30, -40, 150_000));
    movement_system(&mut w);
    assert_eq!(w.speakis[0].pos.x, 1030);
    assert_eq!(w.speakis[0].pos.y, 1960);
}

#[test]
fn rotation_advances_angle() {
    let mut s = plain_speaki(0, 0, 0, 0, 0, 150_000);
    s.rot.speed = 500;
    let mut w = one_entity_world(s);
    rotation_system(&mut w, &PhysicsConfig::default());
    // 500 per-mille angular speed at the default 0.3 scale: 150 per tick.
    assert_eq!(w.speakis[0].angle, 150);
    rotation_system(&mut w, &PhysicsConfig::default());
    assert_eq!(w.speakis[0].angle, 300);
}

#[test]
fn bounds_follow_borders() {
    let b = compute_bounds(640_000, 360_000, &BorderConfig::default());
    assert_eq!(
        b,
        WallBounds { left: -640_000, right: 640_000, bottom: -360_000, top: 360_000 }
    );
    let bc = BorderConfig { left: 100, right: 250, up: 0, down: 500 };
    let b2 = compute_bounds(640_000, 360_000, &bc);
    assert_eq!(b2.left, -640_000 + 64_000);
    assert_eq!(b2.right, 640_000 - 160_000);
    assert_eq!(b2.bottom, -360_000 + 180_000);
    assert_eq!(b2.top, 360_000);
}

#[test]
fn wall_bounce_reflects_and_damps() {
    // Entity below the bottom bound, falling fast.
    let s = plain_speaki(0, 0, -300_000, 1000, -40_000, 150_000);
    let mut w = one_entity_world(s);
    let b = WallBounds { left: -640_000, right: 640_000, bottom: -360_000, top: 360_000 };
    let p = PhysicsConfig::default();
    let mut bus = RequestBus::new();
    wall_collision_pass(&mut w, &b, &p, &mut bus, &vec![0]);
    let r = &w.speakis[0];
    // Clamped to the bound plus half the size; vy reflected by 0.7; vx damped by 0.5.
    assert_eq!(r.pos.y, -360_000 + 75_000);
    assert_eq!(r.vel.y, 28_000);
    assert_eq!(r.vel.x, 500);
    // Squared speed 1600 square units over the 1000-unit threshold: one request.
    assert_eq!(bus.bounces.len(), 1);
    assert_eq!(bus.bounces[0].entity, 0);
}

#[test]
fn wall_bounce_quiet_when_slow() {
    let s = plain_speaki(0, 0, -300_000, 0, -2_000, 150_000);
    let mut w = one_entity_world(s);
    let b = WallBounds { left: -640_000, right: 640_000, bottom: -360_000, top: 360_000 };
    let mut bus = RequestBus::new();
    wall_collision_pass(&mut w, &b, &PhysicsConfig::default(), &mut bus, &vec![0]);
    // Squared speed 4e6 under the threshold of 1e9 milli-units squared.
    assert_eq!(bus.bounces.len(), 0);
    assert_eq!(w.speakis[0].vel.y, 1_400);
}

#[test]
fn wall_zeroes_jitter_on_every_side() {
    // Reflected perpendicular speed of 0.7 * 500 = 350 is under the
    // half-unit threshold on each of the four sides.
    let b = WallBounds { left: -640_000, right: 640_000, bottom: -360_000, top: 360_000 };
    let p = PhysicsConfig::default();
    let mut bus = RequestBus::new();

    let mut w = one_entity_world(plain_speaki(0, 0, -290_000, 0, -500, 150_000));
    wall_collision_pass(&mut w, &b, &p, &mut bus, &vec![0]);
    assert_eq!(w.speakis[0].vel.y, 0);

    let mut w = one_entity_world(plain_speaki(0, 0, 290_000, 0, 500, 150_000));
    wall_collision_pass(&mut w, &b, &p, &mut bus, &vec![0]);
    assert_eq!(w.speakis[0].vel.y, 0);

    let mut w = one_entity_world(plain_speaki(0, -570_000, 0, -500, 0, 150_000));
    wall_collision_pass(&mut w, &b, &p, &mut bus, &vec![0]);
    assert_eq!(w.speakis[0].vel.x, 0);

    let mut w = one_entity_world(plain_speaki(0, 570_000, 0, 500, 0, 150_000));
    wall_collision_pass(&mut w, &b, &p, &mut bus, &vec![0]);
    assert_eq!(w.speakis[0].vel.x, 0);
}

#[test]
fn spawn_and_settle_scenario() {
    // One entity at (0, 300) with zero velocity, gravity 0.5, bounce 0.7,
    // friction 0.5: it must settle on the floor with zero vertical speed.
    let size = 150_000i64;
    let mut w = one_entity_world(plain_speaki(0, 0, 300_000, 0, 0, size));
    let p = PhysicsConfig { gravity: 500, bounce: 700, friction: 500, ..PhysicsConfig::default() };
    let b = WallBounds { left: -640_000, right: 640_000, bottom: -360_000, top: 360_000 };
    let mut bus = RequestBus::new();
    for _ in 0..2000 {
        gravity_system(&mut w, &p);
        movement_system(&mut w);
        wall_collision_pass(&mut w, &b, &p, &mut bus, &vec![0]);
    }
    let r = &w.speakis[0];
    assert_eq!(r.vel.y, 0);
    assert_eq!(r.pos.y, b.bottom + size / 2);
}

#[test]
fn window_inertia_pushes_against_motion() {
    let mut w = one_entity_world(plain_speaki(0, 0, 0, 0, 0, 150_000));
    let mut t = WindowPositionTracker::default();
    // First observation only records the position.
    window_inertia_system(&mut w, &mut t, Vec2 { x: 0, y: 0 });
    assert_eq!(w.speakis[0].vel.x, 0);
    // A 10-unit move right and 20 down (screen coordinates).
    window_inertia_system(&mut w, &mut t, Vec2 { x: 10_000, y: 20_000 });
    // Strength 0.1: vx -= 1 unit, vy += 2 units.
    assert_eq!(w.speakis[0].vel.x, -1_000);
    assert_eq!(w.speakis[0].vel.y, 2_000);
    assert_eq!(t.last_position, Some(Vec2 { x: 10_000, y: 20_000 }));
}

#[test]
fn window_inertia_ignores_noise() {
    let mut w = one_entity_world(plain_speaki(0, 0, 0, 0, 0, 150_000));
    let mut t = WindowPositionTracker::default();
    window_inertia_system(&mut w, &mut t, Vec2 { x: 0, y: 0 });
    window_inertia_system(&mut w, &mut t, Vec2 { x: 400, y: -300 });
    assert_eq!(w.speakis[0].vel.x, 0);
    assert_eq!(w.speakis[0].vel.y, 0);
}

#[test]
fn explosion_pushes_neighbours_radially() {
    let mut shiny = plain_speaki(0, 0, 0, 0, 0, 150_000);
    shiny.shiny = Some(Shiny { pulse_phase: 0, next_explosion: 100 });
    let other = plain_speaki(1, 200_000, 0, 0, 0, 150_000);
    let far = plain_speaki(2, 900_000, 0, 0, 0, 150_000);
    let mut w = World { speakis: vec![shiny, other, far], next_id: 3, graph_len: 20 };
    let cfg = ShinyConfig::default();
    let mut bus = RequestBus::new();
    // dt 200 ms expires the 100 ms countdown.
    shiny_explosion_pass(&mut w, &cfg, 200, &mut bus, &vec![0, 0, 0]);
    // Countdown redrawn at the interval minimum under draw 0.
    assert_eq!(w.speakis[0].shiny.unwrap().next_explosion, 3000);
    // Within the 400-unit radius at distance 200: force 80 * (1 - 0.5) = 40.
    assert_eq!(w.speakis[1].vel.x, 40_000);
    assert_eq!(w.speakis[1].vel.y, 0);
    // Out of reach.
    assert_eq!(w.speakis[2].vel.x, 0);
    // One shockwave request at the explosion's position.
    assert_eq!(bus.shockwaves.len(), 1);
    assert_eq!(bus.shockwaves[0].position, Vec2 { x: 0, y: 0 });
    assert_eq!(bus.shockwaves[0].max_radius, 400_000);
}

#[test]
fn explosion_countdown_merely_ticks_down() {
    let mut shiny = plain_speaki(0, 0, 0, 0, 0, 150_000);
    shiny.shiny = Some(Shiny { pulse_phase: 0, next_explosion: 5000 });
    let mut w = one_entity_world(shiny);
    let mut bus = RequestBus::new();
    shiny_explosion_pass(&mut w, &ShinyConfig::default(), 200, &mut bus, &vec![0]);
    assert_eq!(w.speakis[0].shiny.unwrap().next_explosion, 4800);
    assert_eq!(bus.shockwaves.len(), 0);
}

#[test]
fn wall_system_contains_entities_whatever_the_draws() {
    // The driver draws its own rotation reseeds; position and velocity are
    // deterministic regardless.
    let s = plain_speaki(0, -700_000, 500_000, -40_000, 40_000, 150_000);
    let mut w = one_entity_world(s);
    let mut bus = RequestBus::new();
    wall_collision_system(
        &mut w,
        640_000,
        360_000,
        &PhysicsConfig::default(),
        &BorderConfig::default(),
        &mut bus,
    );
    let r = &w.speakis[0];
    assert_eq!(r.pos.y, 360_000 - 75_000);
    assert_eq!(r.pos.x, -640_000 + 75_000);
    // Top: vy reflected, vx frictioned; then left: vx reflected, vy frictioned.
    assert_eq!(r.vel.y, -14_000);
    assert_eq!(r.vel.x, 14_000);
    // A corner hit at speed: two bounce requests.
    assert_eq!(bus.bounces.len(), 2);
}
