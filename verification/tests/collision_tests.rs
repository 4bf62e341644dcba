use speaki_sim::components::{
    BlinkTimer, CurrentAudio, IdleVoiceTimer, RotationState, Speaki, SpeakiSize, SpriteState,
    Vec2, Velocity,
};
use speaki_sim::collision::speaki_collision_system;
use speaki_sim::resources::PhysicsConfig;
use speaki_sim::world::World;

fn plain_speaki(id: u64, x: i64, y: i64, vx: i64, vy: i64, size: i64) -> Speaki {
    Speaki {
        id,
        pos: Vec2 { x, y },
        vel: Velocity { x: vx, y: vy },
        size: SpeakiSize(size),
        rot: RotationState { speed: 0 },
        angle: 0,
        sprite: SpriteState { current_index: 0 },
        blink: BlinkTimer {
            last_blink_time: 0,
            blink_cooldown: 5000,
            blink_open_time: 0,
            is_blinking: false,
            double_blink: false,
        },
        idle: IdleVoiceTimer { last_idle_time: 0, idle_cooldown: 0 },
        audio: CurrentAudio { handle: None },
        dragged: false,
        shiny: None,
    }
}

#[test]
fn overlapping_pair_separates_by_half_the_overlap_each() {
    // Centers 100 apart on the x axis, radii 75 + 75: overlap 50.
    let a = plain_speaki(0, 0, 0, 0, 0, 150_000);
    let b = plain_speaki(1, 100_000, 0, 0, 0, 150_000);
    let mut w = World { speakis: vec![a, b], next_id: 2, graph_len: 20 };
    let p = PhysicsConfig { collision_damping: 1000, ..PhysicsConfig::default() };
    speaki_collision_system(&mut w, &p);
    // Each moved exactly half the overlap (25 units) along the line of centers.
    assert_eq!(w.speakis[0].pos.x, -25_000);
    assert_eq!(w.speakis[1].pos.x, 125_000);
    assert_eq!(w.speakis[0].pos.y, 0);
    assert_eq!(w.speakis[1].pos.y, 0);
}

#[test]
fn approaching_pair_exchanges_opposite_impulses() {
    // Moving toward each other at 10 units/tick each.
    let a = plain_speaki(0, 0, 0, 10_000, 0, 150_000);
    let b = plain_speaki(1, 100_000, 0, -10_000, 0, 150_000);
    let mut w = World { speakis: vec![a, b], next_id: 2, graph_len: 20 };
    let p = PhysicsConfig { collision_damping: 1000, ..PhysicsConfig::default() };
    speaki_collision_system(&mut w, &p);
    // Projected relative velocity -20; the full impulse swaps the motion.
    assert_eq!(w.speakis[0].vel.x, -10_000);
    assert_eq!(w.speakis[1].vel.x, 10_000);
}

#[test]
fn separating_pair_gets_no_impulse() {
    // Overlapping but already separating: velocities must stay.
    let a = plain_speaki(0, 0, 0, -5_000, 0, 150_000);
    let b = plain_speaki(1, 100_000, 0, 5_000, 0, 150_000);
    let mut w = World { speakis: vec![a, b], next_id: 2, graph_len: 20 };
    let p = PhysicsConfig { collision_damping: 1000, ..PhysicsConfig::default() };
    speaki_collision_system(&mut w, &p);
    assert_eq!(w.speakis[0].vel.x, -5_000);
    assert_eq!(w.speakis[1].vel.x, 5_000);
    // The positional separation still applies.
    assert_eq!(w.speakis[0].pos.x, -25_000);
    assert_eq!(w.speakis[1].pos.x, 125_000);
}

#[test]
fn coincident_centers_are_skipped() {
    let a = plain_speaki(0, 0, 0, 0, 0, 150_000);
    let b = plain_speaki(1, 0, 0, 0, 0, 150_000);
    let mut w = World { speakis: vec![a, b], next_id: 2, graph_len: 20 };
    speaki_collision_system(&mut w, &PhysicsConfig::default());
    assert_eq!(w.speakis[0].pos, Vec2 { x: 0, y: 0 });
    assert_eq!(w.speakis[1].pos, Vec2 { x: 0, y: 0 });
}

#[test]
fn dragged_entity_pushes_but_is_not_pushed() {
    let mut a = plain_speaki(0, 0, 0, 0, 0, 150_000);
    a.dragged = true;
    let b = plain_speaki(1, 100_000, 0, 0, 0, 150_000);
    let mut w = World { speakis: vec![a, b], next_id: 2, graph_len: 20 };
    let p = PhysicsConfig {
        collision_damping: 1000,
        cursor_impulse: 20_000,
        ..PhysicsConfig::default()
    };
    speaki_collision_system(&mut w, &p);
    // The dragged entity's velocity is untouched; the other is pushed away
    // along +x by the fixed cursor impulse.
    assert_eq!(w.speakis[0].vel.x, 0);
    assert_eq!(w.speakis[1].vel.x, 20_000);
}

#[test]
fn disabled_collisions_change_nothing() {
    let a = plain_speaki(0, 0, 0, 3, 4, 150_000);
    let b = plain_speaki(1, 10_000, 0, -3, -4, 150_000);
    let mut w = World { speakis: vec![a, b], next_id: 2, graph_len: 20 };
    let p = PhysicsConfig { collision_enabled: false, ..PhysicsConfig::default() };
    speaki_collision_system(&mut w, &p);
    assert_eq!(w.speakis[0], a);
    assert_eq!(w.speakis[1], b);
}

#[test]
fn rotation_damped_after_pass() {
    let mut a = plain_speaki(0, 0, 0, 0, 0, 150_000);
    a.rot.speed = 1000;
    let mut w = World { speakis: vec![a], next_id: 1, graph_len: 20 };
    let p = PhysicsConfig { collision_damping: 990, ..PhysicsConfig::default() };
    speaki_collision_system(&mut w, &p);
    assert_eq!(w.speakis[0].rot.speed, 990);
}

#[test]
fn pair_separates_among_bystanders() {
    // The overlapping pair moves apart exactly as if alone; a far
    // bystander is untouched.
    let a = plain_speaki(0, 0, 0, 0, 0, 150_000);
    let b = plain_speaki(1, 100_000, 0, 0, 0, 150_000);
    let c = plain_speaki(2, 500_000, 0, 0, 0, 150_000);
    let mut w = World { speakis: vec![a, b, c], next_id: 3, graph_len: 20 };
    let p = PhysicsConfig { collision_damping: 1000, ..PhysicsConfig::default() };
    speaki_collision_system(&mut w, &p);
    assert_eq!(w.speakis[0].pos.x, -25_000);
    assert_eq!(w.speakis[1].pos.x, 125_000);
    assert_eq!(w.speakis[2].pos.x, 500_000);
    assert_eq!(w.speakis[2].vel.x, 0);
}
