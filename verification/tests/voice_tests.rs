use speaki_sim::components::{
    BlinkTimer, CurrentAudio, IdleVoiceTimer, RotationState, Speaki, SpeakiSize, SpriteState,
    Vec2, Velocity,
};
use speaki_sim::events::{RequestBus, WallBounceEvent};
use speaki_sim::resources::AudioConfig;
use speaki_sim::sprites::{ImageGroups, SpriteAssets, VoiceGroups};
use speaki_sim::voice::{
    bounce_voice_pass, idle_voice_pass, mouth_pass, play_voice_system,
};
use speaki_sim::world::World;

fn plain_speaki(id: u64) -> Speaki {
    Speaki {
        id,
        pos: Vec2 { x: 0, y: 0 },
        vel: Velocity { x: 0, y: 0 },
        size: SpeakiSize(150_000),
        rot: RotationState { speed: 0 },
        angle: 0,
        sprite: SpriteState { current_index: 0 },
        blink: BlinkTimer {
            last_blink_time: 0,
            blink_cooldown: 5000,
            blink_open_time: 0,
            is_blinking: false,
            double_blink: false,
        },
        idle: IdleVoiceTimer { last_idle_time: 0, idle_cooldown: 500 },
        audio: CurrentAudio { handle: None },
        dragged: false,
        shiny: None,
    }
}

#[test]
fn voice_groups_defaults() {
    let vg = VoiceGroups::default();
    assert_eq!(vg.drag, vec![0, 1, 2, 3]);
    assert_eq!(vg.bounce, vec![16]);
    assert_eq!(vg.create, vec![4]);
    assert_eq!(vg.remove, vec![15, 16]);
    assert_eq!(vg.idle, vec![5, 6, 7, 8, 9, 10, 11]);
    assert_eq!(vg.idle2, vec![12, 14]);
}

#[test]
fn voice_opens_the_mouth_and_tracks_the_handle() {
    let g = SpriteAssets::standard();
    let s = plain_speaki(3);
    let mut w = World { speakis: vec![s], next_id: 4, graph_len: 20 };
    play_voice_system(&mut w, &g, Some(3), 42);
    assert_eq!(w.speakis[0].audio.handle, Some(42));
    // State 0 has no mouth-open edge of its own? It does not: mouth_open of
    // node 0 is absent, so the index stays.
    assert_eq!(w.speakis[0].sprite.current_index, 0);
    // From the sad state 10 the mouth opens to 0.
    let mut s2 = plain_speaki(5);
    s2.sprite.current_index = 10;
    let mut w2 = World { speakis: vec![s2], next_id: 6, graph_len: 20 };
    play_voice_system(&mut w2, &g, Some(5), 7);
    assert_eq!(w2.speakis[0].sprite.current_index, 0);
    assert_eq!(w2.speakis[0].audio.handle, Some(7));
    // An untargeted voice changes nothing.
    play_voice_system(&mut w2, &g, None, 9);
    assert_eq!(w2.speakis[0].audio.handle, Some(7));
}

#[test]
fn finished_audio_clears_the_handle_and_may_close_the_mouth() {
    let g = SpriteAssets::standard();
    let mut s = plain_speaki(0);
    s.audio.handle = Some(11);
    s.sprite.current_index = 0;
    let mut w = World { speakis: vec![s], next_id: 1, graph_len: 20 };
    // Draw 399 is within the two-fifths closing chance: 0 closes to 10.
    mouth_pass(&mut w, &g, &vec![true], &vec![399]);
    assert_eq!(w.speakis[0].audio.handle, None);
    assert_eq!(w.speakis[0].sprite.current_index, 10);
    // Draw 400 leaves the mouth open but still clears the handle.
    let mut s2 = plain_speaki(1);
    s2.audio.handle = Some(12);
    let mut w2 = World { speakis: vec![s2], next_id: 2, graph_len: 20 };
    mouth_pass(&mut w2, &g, &vec![true], &vec![400]);
    assert_eq!(w2.speakis[0].audio.handle, None);
    assert_eq!(w2.speakis[0].sprite.current_index, 0);
    // Unfinished audio changes nothing.
    let mut s3 = plain_speaki(2);
    s3.audio.handle = Some(13);
    let mut w3 = World { speakis: vec![s3], next_id: 3, graph_len: 20 };
    mouth_pass(&mut w3, &g, &vec![false], &vec![0]);
    assert_eq!(w3.speakis[0].audio.handle, Some(13));
}

#[test]
fn bounce_makes_sad_and_asks_for_a_voice() {
    let s = plain_speaki(0);
    let mut w = World { speakis: vec![s], next_id: 1, graph_len: 20 };
    let mut bus = RequestBus::new();
    bus.bounces.push(WallBounceEvent { entity: 0 });
    let vg = VoiceGroups::default();
    let ig = ImageGroups::default();
    let ac = AudioConfig::default();
    bounce_voice_pass(&mut w, &vg, &ig, &ac, &mut bus, 7000, &vec![0, 1]);
    // Voice from the bounce group at the bounce volume.
    assert_eq!(bus.voices.len(), 1);
    assert_eq!(bus.voices[0].voice_index, 16);
    assert_eq!(bus.voices[0].volume, 300);
    assert_eq!(bus.voices[0].entity, Some(0));
    // Sad pick 1 % 2 selects the second sad index; idle timer restarted.
    assert_eq!(w.speakis[0].sprite.current_index, 10);
    assert_eq!(w.speakis[0].idle.last_idle_time, 7000);
}

#[test]
fn idle_fires_exactly_past_the_interval() {
    // Frequency 0.5, cooldown factor 0.5: the interval is
    // (30/0.5 - 29) * 0.5 + 3 = 18.5 seconds.
    let s = plain_speaki(0);
    let vg = VoiceGroups::default();
    let ig = ImageGroups::default();
    let ac = AudioConfig { idle_frequency: 500, ..AudioConfig::default() };
    let draws = vec![0, 0, 0, 250];
    let mut w = World { speakis: vec![s], next_id: 1, graph_len: 20 };
    let mut bus = RequestBus::new();
    idle_voice_pass(&mut w, &vg, &ig, &ac, 18_500, &mut bus, &draws);
    assert_eq!(bus.voices.len(), 0);
    assert_eq!(w.speakis[0].idle.last_idle_time, 0);
    idle_voice_pass(&mut w, &vg, &ig, &ac, 18_501, &mut bus, &draws);
    // Fired: voice 5 (first of the idle set) at the idle volume, expression
    // from the idle image set, timer restarted with the fresh factor.
    assert_eq!(bus.voices.len(), 1);
    assert_eq!(bus.voices[0].voice_index, 5);
    assert_eq!(bus.voices[0].volume, 800);
    assert_eq!(w.speakis[0].sprite.current_index, 1);
    assert_eq!(w.speakis[0].idle.last_idle_time, 18_501);
    assert_eq!(w.speakis[0].idle.idle_cooldown, 250);
}

#[test]
fn idle_uses_the_second_set_on_a_high_choice_draw() {
    let s = plain_speaki(0);
    let vg = VoiceGroups::default();
    let ig = ImageGroups::default();
    let ac = AudioConfig { idle_frequency: 500, ..AudioConfig::default() };
    // Choice 800 selects the second idle set; picks 1 % len.
    let draws = vec![800, 1, 1, 0];
    let mut w = World { speakis: vec![s], next_id: 1, graph_len: 20 };
    let mut bus = RequestBus::new();
    idle_voice_pass(&mut w, &vg, &ig, &ac, 20_000, &mut bus, &draws);
    assert_eq!(bus.voices.len(), 1);
    assert_eq!(bus.voices[0].voice_index, 14);
    assert_eq!(w.speakis[0].sprite.current_index, 12);
}

#[test]
fn idle_disabled_by_zero_frequency() {
    let s = plain_speaki(0);
    let vg = VoiceGroups::default();
    let ig = ImageGroups::default();
    let ac = AudioConfig { idle_frequency: 0, ..AudioConfig::default() };
    let mut w = World { speakis: vec![s], next_id: 1, graph_len: 20 };
    let mut bus = RequestBus::new();
    idle_voice_pass(&mut w, &vg, &ig, &ac, 1_000_000, &mut bus, &vec![0, 0, 0, 0]);
    assert_eq!(bus.voices.len(), 0);
    assert_eq!(w.speakis[0].idle.last_idle_time, 0);
}

#[test]
fn dragged_entity_stays_quiet() {
    let mut s = plain_speaki(0);
    s.dragged = true;
    let vg = VoiceGroups::default();
    let ig = ImageGroups::default();
    let ac = AudioConfig { idle_frequency: 500, ..AudioConfig::default() };
    let mut w = World { speakis: vec![s], next_id: 1, graph_len: 20 };
    let mut bus = RequestBus::new();
    idle_voice_pass(&mut w, &vg, &ig, &ac, 1_000_000, &mut bus, &vec![0, 0, 0, 0]);
    assert_eq!(bus.voices.len(), 0);
}
