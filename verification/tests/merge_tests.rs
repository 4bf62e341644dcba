use speaki_sim::components::{
    BlinkTimer, CurrentAudio, IdleVoiceTimer, RotationState, Speaki, SpeakiSize, SpriteState,
    Vec2, Velocity,
};
use speaki_sim::events::RequestBus;
use speaki_sim::merge::speaki_merge_system;
use speaki_sim::resources::MergeConfig;
use speaki_sim::world::World;

fn plain_speaki(id: u64, x: i64, y: i64, size: i64) -> Speaki {
    Speaki {
        id,
        pos: Vec2 { x, y },
        vel: Velocity { x: 0, y: 0 },
        size: SpeakiSize(size),
        rot: RotationState { speed: 0 },
        angle: 0,
        sprite: SpriteState { current_index: 0 },
        blink: BlinkTimer {
            last_blink_time: 0,
            blink_cooldown: 5000,
            blink_open_time: 0,
            is_blinking: false,
            double_blink: false,
        },
        idle: IdleVoiceTimer { last_idle_time: 0, idle_cooldown: 0 },
        audio: CurrentAudio { handle: None },
        dragged: false,
        shiny: None,
    }
}

fn merge_cfg() -> MergeConfig {
    MergeConfig {
        enabled: true,
        size_tolerance: 500,
        growth_factor: 1200,
        max_size: 400_000,
        merge_impulse: 2000,
    }
}

#[test]
fn symmetric_merge_scenario() {
    // Two entities of size 150 at the same position with zero velocity,
    // tolerance 0.5, growth 1.2: exactly one remains, of size 180.
    let a = plain_speaki(0, 0, 0, 150_000);
    let b = plain_speaki(1, 0, 0, 150_000);
    let mut w = World { speakis: vec![a, b], next_id: 2, graph_len: 20 };
    let mut bus = RequestBus::new();
    speaki_merge_system(&mut w, &merge_cfg(), &mut bus);
    assert_eq!(w.speakis.len(), 1);
    assert_eq!(w.speakis[0].id, 0);
    assert_eq!(w.speakis[0].size.0, 180_000);
    // The survivor stays put and gets the upward pop.
    assert_eq!(w.speakis[0].pos, Vec2 { x: 0, y: 0 });
    assert_eq!(w.speakis[0].vel, Velocity { x: 0, y: 2000 });
    // One merge request with the midpoint and the merged size.
    assert_eq!(bus.merges.len(), 1);
    assert_eq!(bus.merges[0].entity1, 0);
    assert_eq!(bus.merges[0].entity2, 1);
    assert_eq!(bus.merges[0].position, Vec2 { x: 0, y: 0 });
    assert_eq!(bus.merges[0].new_size, 180_000);
}

#[test]
fn merged_size_is_capped() {
    let a = plain_speaki(0, 0, 0, 390_000);
    let b = plain_speaki(1, 10_000, 0, 390_000);
    let mut w = World { speakis: vec![a, b], next_id: 2, graph_len: 20 };
    let mut bus = RequestBus::new();
    speaki_merge_system(&mut w, &merge_cfg(), &mut bus);
    assert_eq!(w.speakis.len(), 1);
    // 390 * 1.2 = 468 is over the 400 cap.
    assert_eq!(w.speakis[0].size.0, 400_000);
}

#[test]
fn no_merge_outside_tolerance() {
    // Sizes 100 and 300: difference 200 over average 200 is 1.0 > 0.5.
    let a = plain_speaki(0, 0, 0, 100_000);
    let b = plain_speaki(1, 10_000, 0, 300_000);
    let mut w = World { speakis: vec![a, b], next_id: 2, graph_len: 20 };
    let mut bus = RequestBus::new();
    speaki_merge_system(&mut w, &merge_cfg(), &mut bus);
    assert_eq!(w.speakis.len(), 2);
    assert_eq!(bus.merges.len(), 0);
}

#[test]
fn no_merge_at_max_size() {
    let a = plain_speaki(0, 0, 0, 400_000);
    let b = plain_speaki(1, 10_000, 0, 400_000);
    let mut w = World { speakis: vec![a, b], next_id: 2, graph_len: 20 };
    let mut bus = RequestBus::new();
    speaki_merge_system(&mut w, &merge_cfg(), &mut bus);
    assert_eq!(w.speakis.len(), 2);
}

#[test]
fn no_merge_when_apart() {
    let a = plain_speaki(0, 0, 0, 150_000);
    let b = plain_speaki(1, 200_000, 0, 150_000);
    let mut w = World { speakis: vec![a, b], next_id: 2, graph_len: 20 };
    let mut bus = RequestBus::new();
    speaki_merge_system(&mut w, &merge_cfg(), &mut bus);
    assert_eq!(w.speakis.len(), 2);
}

#[test]
fn dragged_entity_never_merges() {
    let mut a = plain_speaki(0, 0, 0, 150_000);
    a.dragged = true;
    let b = plain_speaki(1, 0, 0, 150_000);
    let mut w = World { speakis: vec![a, b], next_id: 2, graph_len: 20 };
    let mut bus = RequestBus::new();
    speaki_merge_system(&mut w, &merge_cfg(), &mut bus);
    assert_eq!(w.speakis.len(), 2);
}

#[test]
fn first_match_wins_among_three() {
    // Three coincident entities: the scan pairs 0 with 1, and 2 stays.
    let a = plain_speaki(0, 0, 0, 150_000);
    let b = plain_speaki(1, 0, 0, 150_000);
    let c = plain_speaki(2, 0, 0, 150_000);
    let mut w = World { speakis: vec![a, b, c], next_id: 3, graph_len: 20 };
    let mut bus = RequestBus::new();
    speaki_merge_system(&mut w, &merge_cfg(), &mut bus);
    assert_eq!(w.speakis.len(), 2);
    assert_eq!(w.speakis[0].id, 0);
    assert_eq!(w.speakis[0].size.0, 180_000);
    assert_eq!(w.speakis[1].id, 2);
    assert_eq!(w.speakis[1].size.0, 150_000);
    assert_eq!(bus.merges.len(), 1);
}

#[test]
fn merging_disabled_changes_nothing() {
    let a = plain_speaki(0, 0, 0, 150_000);
    let b = plain_speaki(1, 0, 0, 150_000);
    let mut w = World { speakis: vec![a, b], next_id: 2, graph_len: 20 };
    let mut bus = RequestBus::new();
    let cfg = MergeConfig { enabled: false, ..merge_cfg() };
    speaki_merge_system(&mut w, &cfg, &mut bus);
    assert_eq!(w.speakis.len(), 2);
    assert_eq!(bus.merges.len(), 0);
}

#[test]
fn pair_merges_among_bystanders() {
    // The eligible pair merges; a far bystander is untouched and keeps
    // its place in the store.
    let a = plain_speaki(0, 0, 0, 150_000);
    let b = plain_speaki(1, 0, 0, 150_000);
    let c = plain_speaki(2, 500_000, 0, 150_000);
    let mut w = World { speakis: vec![a, b, c], next_id: 3, graph_len: 20 };
    let mut bus = RequestBus::new();
    speaki_merge_system(&mut w, &merge_cfg(), &mut bus);
    assert_eq!(w.speakis.len(), 2);
    assert_eq!(w.speakis[0].id, 0);
    assert_eq!(w.speakis[0].size.0, 180_000);
    assert_eq!(w.speakis[1].id, 2);
    assert_eq!(w.speakis[1].size.0, 150_000);
    assert_eq!(bus.merges.len(), 1);
    assert_eq!(bus.merges[0].entity2, 1);
}
