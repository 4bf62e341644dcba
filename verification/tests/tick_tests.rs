use speaki_sim::components::{
    BlinkTimer, CurrentAudio, IdleVoiceTimer, RotationState, Speaki, SpeakiSize, SpriteState,
    Vec2, Velocity,
};
use speaki_sim::events::RequestBus;
use speaki_sim::resources::{
    AudioConfig, BorderConfig, GameConfig, MergeConfig, PhysicsConfig, ShinyConfig,
    WindowPositionTracker,
};
use speaki_sim::sprites::{ImageGroups, SpriteAssets, VoiceGroups};
use speaki_sim::tick::simulation_tick;
use speaki_sim::world::World;

fn plain_speaki(id: u64, x: i64, y: i64, size: i64) -> Speaki {
    Speaki {
        id,
        pos: Vec2 { x, y },
        vel: Velocity { x: 0, y: 0 },
        size: SpeakiSize(size),
        rot: RotationState { speed: 0 },
        angle: 0,
        sprite: SpriteState { current_index: 0 },
        blink: BlinkTimer {
            last_blink_time: 0,
            blink_cooldown: 5000,
            blink_open_time: 0,
            is_blinking: false,
            double_blink: false,
        },
        idle: IdleVoiceTimer { last_idle_time: 0, idle_cooldown: 500 },
        audio: CurrentAudio { handle: None },
        dragged: false,
        shiny: None,
    }
}

#[test]
fn one_frame_applies_gravity_and_integration() {
    // A single resting entity far from the walls: the only observable
    // effects of a frame are one unit of gravity and its integration.
    let sprites = SpriteAssets::standard();
    let mut w = World { speakis: vec![plain_speaki(0, 0, 0, 150_000)], next_id: 1, graph_len: 20 };
    let mut tracker = WindowPositionTracker::default();
    let mut bus = RequestBus::new();
    simulation_tick(
        &mut w,
        &PhysicsConfig::default(),
        &BorderConfig::default(),
        &MergeConfig::default(),
        &ShinyConfig::default(),
        &sprites,
        &GameConfig::default(),
        &ImageGroups::default(),
        &VoiceGroups::default(),
        &AudioConfig::default(),
        640_000,
        360_000,
        16,
        16,
        None,
        &mut tracker,
        &mut bus,
    );
    let s = &w.speakis[0];
    assert_eq!(s.vel, Velocity { x: 0, y: -500 });
    assert_eq!(s.pos, Vec2 { x: 0, y: -500 });
    assert_eq!(s.sprite.current_index, 0);
    assert!(bus.bounces.is_empty());
    assert!(bus.merges.is_empty());
    assert!(bus.shockwaves.is_empty());
    assert!(bus.voices.is_empty());
}

#[test]
fn frames_merge_a_coincident_pair_and_report_it() {
    let sprites = SpriteAssets::standard();
    let a = plain_speaki(0, 0, 200_000, 150_000);
    let b = plain_speaki(1, 0, 200_000, 150_000);
    let mut w = World { speakis: vec![a, b], next_id: 2, graph_len: 20 };
    let mut tracker = WindowPositionTracker::default();
    let mut bus = RequestBus::new();
    simulation_tick(
        &mut w,
        &PhysicsConfig::default(),
        &BorderConfig::default(),
        &MergeConfig::default(),
        &ShinyConfig::default(),
        &sprites,
        &GameConfig::default(),
        &ImageGroups::default(),
        &VoiceGroups::default(),
        &AudioConfig::default(),
        640_000,
        360_000,
        16,
        16,
        None,
        &mut tracker,
        &mut bus,
    );
    // Coincident centers skip pairwise collision but merge within tolerance.
    assert_eq!(w.speakis.len(), 1);
    assert_eq!(w.speakis[0].size.0, 180_000);
    assert_eq!(bus.merges.len(), 1);
}

#[test]
fn window_observation_feeds_the_inertia_pass() {
    let sprites = SpriteAssets::standard();
    let mut w = World { speakis: vec![plain_speaki(0, 0, 300_000, 150_000)], next_id: 1, graph_len: 20 };
    let mut tracker = WindowPositionTracker::default();
    let mut bus = RequestBus::new();
    let cfgs = (
        PhysicsConfig { gravity: 0, ..PhysicsConfig::default() },
        BorderConfig::default(),
        MergeConfig::default(),
        ShinyConfig::default(),
        GameConfig::default(),
        ImageGroups::default(),
        VoiceGroups::default(),
        AudioConfig { idle_frequency: 0, ..AudioConfig::default() },
    );
    // First observation only records the position.
    simulation_tick(
        &mut w, &cfgs.0, &cfgs.1, &cfgs.2, &cfgs.3, &sprites, &cfgs.4, &cfgs.5, &cfgs.6, &cfgs.7,
        640_000, 360_000, 16, 16, Some(Vec2 { x: 0, y: 0 }), &mut tracker, &mut bus,
    );
    assert_eq!(w.speakis[0].vel.x, 0);
    // A 50-unit move at strength 0.1 gives a 5-unit opposite impulse.
    simulation_tick(
        &mut w, &cfgs.0, &cfgs.1, &cfgs.2, &cfgs.3, &sprites, &cfgs.4, &cfgs.5, &cfgs.6, &cfgs.7,
        640_000, 360_000, 32, 16, Some(Vec2 { x: 50_000, y: 0 }), &mut tracker, &mut bus,
    );
    assert_eq!(w.speakis[0].vel.x, -5_000);
    assert_eq!(tracker.last_position, Some(Vec2 { x: 50_000, y: 0 }));
}
