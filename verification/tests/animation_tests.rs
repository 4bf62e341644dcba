use speaki_sim::components::{
    BlinkTimer, CurrentAudio, IdleVoiceTimer, RotationState, Speaki, SpeakiSize, SpriteState,
    Vec2, Velocity,
};
use speaki_sim::animation::{
    blink_step_exec, blink_system, change_to_normal_system, change_to_sad_system,
    drag_expression_pass, dragged_ids,
};
use speaki_sim::resources::GameConfig;
use speaki_sim::sprites::{ImageGroups, SpriteAssets};
use speaki_sim::world::World;

fn plain_speaki(id: u64) -> Speaki {
    Speaki {
        id,
        pos: Vec2 { x: 0, y: 0 },
        vel: Velocity { x: 0, y: 0 },
        size: SpeakiSize(150_000),
        rot: RotationState { speed: 0 },
        angle: 0,
        sprite: SpriteState { current_index: 0 },
        blink: BlinkTimer {
            last_blink_time: 0,
            blink_cooldown: 5000,
            blink_open_time: 0,
            is_blinking: false,
            double_blink: false,
        },
        idle: IdleVoiceTimer { last_idle_time: 0, idle_cooldown: 0 },
        audio: CurrentAudio { handle: None },
        dragged: false,
        shiny: None,
    }
}

#[test]
fn standard_graph_wiring() {
    let g = SpriteAssets::standard();
    assert_eq!(g.len(), 20);
    assert!(g.loaded);
    assert_eq!(g.states[0].eye_close, Some(1));
    assert_eq!(g.states[1].eye_open, Some(0));
    assert_eq!(g.states[0].mouth_close, Some(10));
    assert_eq!(g.states[10].mouth_open, Some(0));
    assert_eq!(g.states[10].eye_close, Some(11));
    assert_eq!(g.states[19].mouth_open, Some(17));
    assert_eq!(g.states[2].eye_open, None);
    assert_eq!(g.states[2].eye_close, None);
}

#[test]
fn group_defaults() {
    let ig = ImageGroups::default();
    assert_eq!(ig.sad, vec![9, 10]);
    assert_eq!(ig.idle, vec![1, 2, 3, 4, 5, 6, 7, 8]);
    assert_eq!(ig.idle2, vec![11, 12, 13]);
}

#[test]
fn blink_cycle_with_fixed_draws() {
    let g = SpriteAssets::standard();
    let s = plain_speaki(0);
    // Cooldown 5000 not yet elapsed: nothing happens.
    let s1 = blink_step_exec(s, &g, 5000, 0, 0);
    assert_eq!(s1, s);
    // One tick past the cooldown: eyes close along 0 -> 1 for exactly 100 ms;
    // a draw under 800 flags no double-blink.
    let s2 = blink_step_exec(s, &g, 5001, 0, 0);
    assert!(s2.blink.is_blinking);
    assert_eq!(s2.sprite.current_index, 1);
    assert_eq!(s2.blink.blink_open_time, 100);
    assert_eq!(s2.blink.last_blink_time, 5001);
    assert!(!s2.blink.double_blink);
    // Still closed at exactly 100 ms.
    let s3 = blink_step_exec(s2, &g, 5101, 0, 0);
    assert_eq!(s3, s2);
    // Reopens one past the closed duration; draw 999 seeds a cooldown of
    // 5000 + 5*999 = 9995, inside [5000, 10000).
    let s4 = blink_step_exec(s2, &g, 5102, 999, 0);
    assert!(!s4.blink.is_blinking);
    assert_eq!(s4.sprite.current_index, 0);
    assert_eq!(s4.blink.blink_cooldown, 9995);
    assert_eq!(s4.blink.last_blink_time, 5102);
}

#[test]
fn double_blink_shortens_the_cooldown_to_70ms() {
    let g = SpriteAssets::standard();
    let s = plain_speaki(0);
    // Closing with a double-blink draw of 800 or more flags the short cycle.
    let closed = blink_step_exec(s, &g, 5001, 0, 800);
    assert!(closed.blink.double_blink);
    // On reopening the cooldown is exactly 70 ms, whatever the cooldown draw.
    let opened = blink_step_exec(closed, &g, 5102, 999, 0);
    assert_eq!(opened.blink.blink_cooldown, 70);
    assert!(!opened.blink.double_blink);
}

#[test]
fn blink_missing_edge_keeps_the_index() {
    let g = SpriteAssets::standard();
    let mut s = plain_speaki(0);
    // State 2 has no eye-close edge: the timer still advances but the
    // sprite index stays.
    s.sprite.current_index = 2;
    let s2 = blink_step_exec(s, &g, 5001, 0, 0);
    assert!(s2.blink.is_blinking);
    assert_eq!(s2.sprite.current_index, 2);
}

#[test]
fn blink_system_respects_the_enable_flag() {
    let g = SpriteAssets::standard();
    let s = plain_speaki(0);
    let mut w = World { speakis: vec![s], next_id: 1, graph_len: 20 };
    let cfg = GameConfig { eye_blink_enabled: false, ..GameConfig::default() };
    blink_system(&mut w, &g, &cfg, 100_000);
    assert_eq!(w.speakis[0], s);
    // Enabled: well past the cooldown, the eyes close whatever the draws.
    let cfg2 = GameConfig::default();
    blink_system(&mut w, &g, &cfg2, 100_000);
    assert!(w.speakis[0].blink.is_blinking);
    assert_eq!(w.speakis[0].sprite.current_index, 1);
}

#[test]
fn sad_and_normal_expressions() {
    let s = plain_speaki(7);
    let mut w = World { speakis: vec![s], next_id: 8, graph_len: 20 };
    let groups = ImageGroups::default();
    let changed = change_to_sad_system(&mut w, &groups, 7, 0);
    assert!(changed);
    // Draw 0 picks the first sad index.
    assert_eq!(w.speakis[0].sprite.current_index, 9);
    change_to_normal_system(&mut w, 7);
    assert_eq!(w.speakis[0].sprite.current_index, 0);
    // A missing entity changes nothing.
    let changed2 = change_to_sad_system(&mut w, &groups, 99, 0);
    assert!(!changed2);
    assert_eq!(w.speakis[0].sprite.current_index, 0);
}

#[test]
fn drag_edges_force_sad_and_reset_expressions() {
    let groups = ImageGroups::default();
    // Entity 0 just became dragged; entity 1 just stopped; entity 2 steady.
    let mut a = plain_speaki(0);
    a.dragged = true;
    let mut b = plain_speaki(1);
    b.sprite.current_index = 9;
    let mut c = plain_speaki(2);
    c.sprite.current_index = 3;
    let mut w = World { speakis: vec![a, b, c], next_id: 3, graph_len: 20 };
    let prev = vec![1];
    drag_expression_pass(&mut w, &groups, &prev, &vec![1, 0, 0]);
    // Draw 1 picks the second sad index for the fresh grab.
    assert_eq!(w.speakis[0].sprite.current_index, 10);
    // The released entity snaps back to the default.
    assert_eq!(w.speakis[1].sprite.current_index, 0);
    // The steady one keeps its expression.
    assert_eq!(w.speakis[2].sprite.current_index, 3);
    // The dragged-ids snapshot for the next tick.
    assert_eq!(dragged_ids(&w), vec![0]);
}
