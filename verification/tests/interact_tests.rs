use speaki_sim::components::{
    BlinkTimer, CurrentAudio, IdleVoiceTimer, RotationState, Speaki, SpeakiSize, SpriteState,
    Vec2, Velocity,
};
use speaki_sim::events::{DespawnSpeakiEvent, RequestBus, SpawnSpeakiEvent};
use speaki_sim::interact::{
    despawn_speaki_system, drag_release_system, drag_update_system, mouse_input_pressed,
    right_click_delete, spawn_speaki_system,
};
use speaki_sim::resources::{AudioConfig, DragState, GameConfig, PhysicsConfig};
use speaki_sim::rng::random_milli;
use speaki_sim::sprites::VoiceGroups;
use speaki_sim::world::World;

fn plain_speaki(id: u64, x: i64, y: i64, size: i64) -> Speaki {
    Speaki {
        id,
        pos: Vec2 { x, y },
        vel: Velocity { x: 0, y: 0 },
        size: SpeakiSize(size),
        rot: RotationState { speed: 0 },
        angle: 0,
        sprite: SpriteState { current_index: 0 },
        blink: BlinkTimer {
            last_blink_time: 0,
            blink_cooldown: 5000,
            blink_open_time: 0,
            is_blinking: false,
            double_blink: false,
        },
        idle: IdleVoiceTimer { last_idle_time: 0, idle_cooldown: 0 },
        audio: CurrentAudio { handle: None },
        dragged: false,
        shiny: None,
    }
}

#[test]
fn press_grabs_the_topmost_entity() {
    // Two coincident entities: the later-spawned one is on top.
    let a = plain_speaki(0, 0, 0, 150_000);
    let b = plain_speaki(1, 0, 0, 150_000);
    let mut w = World { speakis: vec![a, b], next_id: 2, graph_len: 20 };
    let mut drag = DragState::default();
    let mut bus = RequestBus::new();
    mouse_input_pressed(
        &mut w,
        &mut drag,
        &GameConfig::default(),
        &VoiceGroups::default(),
        &AudioConfig::default(),
        Vec2 { x: 10_000, y: 0 },
        500,
        &mut bus,
        2,
    );
    assert!(!w.speakis[0].dragged);
    assert!(w.speakis[1].dragged);
    assert!(drag.is_dragging);
    assert_eq!(drag.dragged_entity, Some(1));
    assert_eq!(drag.last_start_pos, Vec2 { x: 10_000, y: 0 });
    assert_eq!(drag.last_start_time, 500);
    // A drag voice: pick 2 % 4 of the drag group at the grab volume.
    assert_eq!(bus.voices.len(), 1);
    assert_eq!(bus.voices[0].voice_index, 2);
    assert_eq!(bus.voices[0].volume, 1000);
    assert_eq!(bus.spawns.len(), 0);
}

#[test]
fn press_on_empty_space_asks_for_a_spawn() {
    let a = plain_speaki(0, 0, 0, 150_000);
    let mut w = World { speakis: vec![a], next_id: 1, graph_len: 20 };
    let mut drag = DragState::default();
    let mut bus = RequestBus::new();
    mouse_input_pressed(
        &mut w,
        &mut drag,
        &GameConfig::default(),
        &VoiceGroups::default(),
        &AudioConfig::default(),
        Vec2 { x: 500_000, y: 0 },
        500,
        &mut bus,
        0,
    );
    assert!(!w.speakis[0].dragged);
    assert!(drag.is_dragging);
    assert_eq!(drag.dragged_entity, None);
    assert_eq!(drag.last_click_time, 500);
    assert_eq!(bus.spawns.len(), 1);
    assert_eq!(bus.spawns[0].position, Vec2 { x: 500_000, y: 0 });
    assert_eq!(bus.spawns[0].velocity, Velocity { x: 0, y: 0 });
    // The create voice, untargeted.
    assert_eq!(bus.voices.len(), 1);
    assert_eq!(bus.voices[0].voice_index, 4);
    assert_eq!(bus.voices[0].entity, None);
}

#[test]
fn press_on_empty_space_without_click_to_add() {
    let a = plain_speaki(0, 0, 0, 150_000);
    let mut w = World { speakis: vec![a], next_id: 1, graph_len: 20 };
    let mut drag = DragState::default();
    let mut bus = RequestBus::new();
    let cfg = GameConfig { click_to_add: false, ..GameConfig::default() };
    mouse_input_pressed(
        &mut w,
        &mut drag,
        &cfg,
        &VoiceGroups::default(),
        &AudioConfig::default(),
        Vec2 { x: 500_000, y: 0 },
        500,
        &mut bus,
        0,
    );
    assert!(!drag.is_dragging);
    assert_eq!(bus.spawns.len(), 0);
    assert_eq!(bus.voices.len(), 0);
}

#[test]
fn drag_carries_the_entity_and_refreshes_the_reference() {
    let mut a = plain_speaki(0, 0, 0, 150_000);
    a.dragged = true;
    a.vel = Velocity { x: 7, y: 8 };
    let mut w = World { speakis: vec![a], next_id: 1, graph_len: 20 };
    let mut drag = DragState {
        is_dragging: true,
        dragged_entity: Some(0),
        last_start_pos: Vec2 { x: 0, y: 0 },
        last_start_time: 0,
        last_click_time: 0,
    };
    // 50 ms in: carried, reference kept.
    drag_update_system(&mut w, &mut drag, Vec2 { x: 30_000, y: 40_000 }, 50);
    assert_eq!(w.speakis[0].pos, Vec2 { x: 30_000, y: 40_000 });
    assert_eq!(w.speakis[0].vel, Velocity { x: 0, y: 0 });
    assert_eq!(drag.last_start_time, 0);
    // 101 ms in: the reference point refreshes.
    drag_update_system(&mut w, &mut drag, Vec2 { x: 35_000, y: 40_000 }, 101);
    assert_eq!(drag.last_start_pos, Vec2 { x: 35_000, y: 40_000 });
    assert_eq!(drag.last_start_time, 101);
}

#[test]
fn drag_throw_scenario() {
    // Release after moving (100, 0) units over 0.1 s with power 1.0:
    // the throw velocity is (100 / (0.1/0.05), 0) = (50, 0).
    let mut a = plain_speaki(0, 100_000, 0, 150_000);
    a.dragged = true;
    let mut w = World { speakis: vec![a], next_id: 1, graph_len: 20 };
    let mut drag = DragState {
        is_dragging: true,
        dragged_entity: Some(0),
        last_start_pos: Vec2 { x: 0, y: 0 },
        last_start_time: 0,
        last_click_time: 0,
    };
    let p = PhysicsConfig { cursor_throwing_power: 1000, ..PhysicsConfig::default() };
    drag_release_system(&mut w, &mut drag, &p, Vec2 { x: 100_000, y: 0 }, 100);
    assert_eq!(w.speakis[0].vel, Velocity { x: 50_000, y: 0 });
    assert!(!w.speakis[0].dragged);
    assert_eq!(w.speakis[0].idle.last_idle_time, 100);
    assert!(!drag.is_dragging);
    assert_eq!(drag.dragged_entity, None);
}

#[test]
fn right_click_asks_for_removal() {
    let a = plain_speaki(4, 0, 0, 150_000);
    let w = World { speakis: vec![a], next_id: 5, graph_len: 20 };
    let mut bus = RequestBus::new();
    right_click_delete(
        &w,
        &VoiceGroups::default(),
        &AudioConfig::default(),
        &mut bus,
        Vec2 { x: 0, y: 10_000 },
        1,
    );
    assert_eq!(bus.despawns.len(), 1);
    assert_eq!(bus.despawns[0].entity, 4);
    // Remove pick 1 % 2 from the remove group.
    assert_eq!(bus.voices.len(), 1);
    assert_eq!(bus.voices[0].voice_index, 16);
    assert_eq!(bus.voices[0].entity, Some(4));
}

#[test]
fn right_click_on_empty_space_is_silent() {
    let a = plain_speaki(4, 0, 0, 150_000);
    let w = World { speakis: vec![a], next_id: 5, graph_len: 20 };
    let mut bus = RequestBus::new();
    right_click_delete(
        &w,
        &VoiceGroups::default(),
        &AudioConfig::default(),
        &mut bus,
        Vec2 { x: 300_000, y: 0 },
        1,
    );
    assert_eq!(bus.despawns.len(), 0);
    assert_eq!(bus.voices.len(), 0);
}

#[test]
fn spawn_requests_become_entities_and_attach_to_a_pending_drag() {
    let mut w = World { speakis: vec![], next_id: 0, graph_len: 20 };
    let mut drag = DragState {
        is_dragging: true,
        dragged_entity: None,
        last_start_pos: Vec2 { x: 0, y: 0 },
        last_start_time: 0,
        last_click_time: 0,
    };
    let reqs = vec![
        SpawnSpeakiEvent { position: Vec2 { x: 1000, y: 2000 }, velocity: Velocity { x: 0, y: 0 } },
        SpawnSpeakiEvent { position: Vec2 { x: 3000, y: 4000 }, velocity: Velocity { x: 5, y: 6 } },
    ];
    spawn_speaki_system(&mut w, &mut drag, &GameConfig::default(), &reqs);
    assert_eq!(w.speakis.len(), 2);
    assert_eq!(w.next_id, 2);
    let first = &w.speakis[0];
    assert_eq!(first.id, 0);
    assert_eq!(first.pos, Vec2 { x: 1000, y: 2000 });
    assert_eq!(first.size.0, 200_000);
    assert_eq!(first.sprite.current_index, 0);
    assert!(first.dragged);
    assert!(-500 <= first.rot.speed && first.rot.speed < 500);
    assert!(5000 <= first.blink.blink_cooldown && first.blink.blink_cooldown < 10_000);
    assert!(first.idle.idle_cooldown < 1000);
    let second = &w.speakis[1];
    assert_eq!(second.id, 1);
    assert_eq!(second.vel, Velocity { x: 5, y: 6 });
    assert!(!second.dragged);
    assert_eq!(drag.dragged_entity, Some(0));
}

#[test]
fn despawn_requests_remove_by_identity() {
    let a = plain_speaki(0, 0, 0, 150_000);
    let b = plain_speaki(1, 0, 0, 150_000);
    let c = plain_speaki(2, 0, 0, 150_000);
    let mut w = World { speakis: vec![a, b, c], next_id: 3, graph_len: 20 };
    let reqs = vec![
        DespawnSpeakiEvent { entity: 1 },
        DespawnSpeakiEvent { entity: 7 },
        DespawnSpeakiEvent { entity: 0 },
    ];
    despawn_speaki_system(&mut w, &reqs);
    assert_eq!(w.speakis.len(), 1);
    assert_eq!(w.speakis[0].id, 2);
}

#[test]
fn despawn_of_a_missing_entity_reports_false() {
    let a = plain_speaki(0, 0, 0, 150_000);
    let mut w = World { speakis: vec![a], next_id: 1, graph_len: 20 };
    assert!(!w.despawn_speaki(9));
    assert_eq!(w.speakis.len(), 1);
    assert!(w.despawn_speaki(0));
    assert_eq!(w.speakis.len(), 0);
}

#[test]
fn random_draws_respect_their_bound() {
    for _ in 0..500 {
        assert!(random_milli() < 1000);
    }
}

#[test]
fn seeded_population_is_plausible() {
    let mut w = World::new(20);
    let cfg = GameConfig::default();
    speaki_sim::world::spawn_initial_speakis(&mut w, &cfg, 640_000, 360_000);
    assert_eq!(w.speakis.len(), 3);
    for s in &w.speakis {
        assert_eq!(s.size.0, 200_000);
        assert!(-640_000 <= s.pos.x && s.pos.x <= 640_000);
        assert!(0 <= s.pos.y && s.pos.y <= 360_000);
        assert!(-2_500 <= s.vel.x && s.vel.x <= 2_500);
        assert!(0 <= s.vel.y && s.vel.y < 2_000);
        assert!(!s.dragged);
    }
}
