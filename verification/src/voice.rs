//! Voice-driven logic: recording which sound an entity is playing and
//! opening its mouth, closing the mouth when the audio collaborator
//! reports completion, reacting to wall bounces with a sound and a sad
//! expression, and the idle-voice timer. The audio backend itself is an
//! external collaborator: it receives `PlayVoiceEvent`s and reports
//! per-entity completion flags.

use vstd::prelude::*;
use vstd::pervasive::VecAdditionalExecFns;

use crate::components::{CurrentAudio, IdleVoiceTimer, Speaki, SpriteState};
use crate::events::{PlayVoiceEvent, RequestBus, WallBounceEvent};
use crate::fx::tdiv;
use crate::resources::AudioConfig;
use crate::sprites::{ImageGroups, SpriteAssets, VoiceGroups};
use crate::world::World;

verus! {

/// A voice began playing for `id` under the opaque `handle`: record the
/// handle and open the mouth along the mouth-open edge.
pub open spec fn voice_started(s: Speaki, g: SpriteAssets, id: u64, handle: u64) -> Speaki {
    if s.id == id {
        Speaki {
            audio: CurrentAudio { handle: Some(handle) },
            sprite: SpriteState {
                current_index: g.mouth_open_target(s.sprite.current_index as int) as usize,
            },
            ..s
        }
    } else {
        s
    }
}

/// The audio collaborator started playing a voice. If the request targets
/// a live entity, track the handle there and open its mouth.
pub fn play_voice_system(world: &mut World, sprites: &SpriteAssets, entity: Option<u64>, handle: u64)
    requires
        old(world).wf(),
        sprites.wf(),
        sprites.len_spec() == old(world).graph_len,
    ensures
        final(world).wf(),
        final(world).next_id == old(world).next_id,
        final(world).graph_len == old(world).graph_len,
        final(world).speakis@.len() == old(world).speakis@.len(),
        match entity {
            None => final(world).speakis@ == old(world).speakis@,
            Some(id) => forall|i: int|
                0 <= i < old(world).speakis@.len() ==> #[trigger] final(world).speakis@[i]
                    == voice_started(old(world).speakis@[i], *sprites, id, handle),
        },
{
    let id = match entity {
        None => {
            return ;
        },
        Some(id) => id,
    };
    let n = world.speakis.len();
    let mut i: usize = 0;
    while i < n
        invariant
            i <= n,
            n == world.speakis@.len(),
            n == old(world).speakis@.len(),
            world.next_id == old(world).next_id,
            world.graph_len == old(world).graph_len,
            old(world).wf(),
            sprites.wf(),
            sprites.len_spec() == old(world).graph_len,
            forall|k: int|
                0 <= k < i ==> #[trigger] world.speakis@[k] == voice_started(
                    old(world).speakis@[k],
                    *sprites,
                    id,
                    handle,
                ),
            forall|k: int| i <= k < n ==> #[trigger] world.speakis@[k] == old(world).speakis@[k],
        decreases n - i,
    {
        let s = world.speakis[i];
        if s.id == id {
            proof {
                assert(old(world).speakis@[i as int].wf(old(world).graph_len as nat));
            }
            let idx2 = sprites.step_mouth_open(s.sprite.current_index);
            world.speakis.set(
                i,
                Speaki {
                    audio: CurrentAudio { handle: Some(handle) },
                    sprite: SpriteState { current_index: idx2 },
                    ..s
                },
            );
        }
        i = i + 1;
    }
}

/// One mouth tick: if the entity's sound has finished, forget the handle
/// and, with probability two fifths (`draw < 400`), close the mouth along
/// the mouth-close edge.
pub open spec fn mouth_step(s: Speaki, g: SpriteAssets, finished: bool, draw: u32) -> Speaki {
    match s.audio.handle {
        None => s,
        Some(_) => {
            if finished {
                if draw < 400 {
                    Speaki {
                        audio: CurrentAudio { handle: None },
                        sprite: SpriteState {
                            current_index: g.mouth_close_target(
                                s.sprite.current_index as int,
                            ) as usize,
                        },
                        ..s
                    }
                } else {
                    Speaki { audio: CurrentAudio { handle: None }, ..s }
                }
            } else {
                s
            }
        },
    }
}

/// The entity after one mouth tick under some per-mille draw.
pub open spec fn mouth_stepped_somehow(pre: Speaki, post: Speaki, g: SpriteAssets, finished: bool) -> bool {
    exists|d: u32| d < 1000 && post == #[trigger] mouth_step(pre, g, finished, d)
}

/// Deterministic mouth pass: `finished[i]` is the audio collaborator's
/// completion flag for entity `i`.
pub fn mouth_pass(world: &mut World, sprites: &SpriteAssets, finished: &Vec<bool>, draws: &Vec<u32>)
    requires
        old(world).wf(),
        sprites.wf(),
        sprites.len_spec() == old(world).graph_len,
        finished@.len() == old(world).speakis@.len(),
        draws@.len() == old(world).speakis@.len(),
    ensures
        final(world).wf(),
        final(world).next_id == old(world).next_id,
        final(world).graph_len == old(world).graph_len,
        final(world).speakis@.len() == old(world).speakis@.len(),
        forall|i: int|
            0 <= i < old(world).speakis@.len() ==> #[trigger] final(world).speakis@[i]
                == mouth_step(old(world).speakis@[i], *sprites, finished@[i], draws@[i]),
{
    let n = world.speakis.len();
    let mut i: usize = 0;
    while i < n
        invariant
            i <= n,
            n == world.speakis@.len(),
            n == old(world).speakis@.len(),
            n == finished@.len(),
            n == draws@.len(),
            world.next_id == old(world).next_id,
            world.graph_len == old(world).graph_len,
            old(world).wf(),
            sprites.wf(),
            sprites.len_spec() == old(world).graph_len,
            forall|k: int|
                0 <= k < i ==> #[trigger] world.speakis@[k] == mouth_step(
                    old(world).speakis@[k],
                    *sprites,
                    finished@[k],
                    draws@[k],
                ),
            forall|k: int| i <= k < n ==> #[trigger] world.speakis@[k] == old(world).speakis@[k],
        decreases n - i,
    {
        let s = world.speakis[i];
        proof {
            assert(old(world).speakis@[i as int].wf(old(world).graph_len as nat));
        }
        match s.audio.handle {
            None => {},
            Some(_) => {
                if finished[i] {
                    if draws[i] < 400 {
                        let idx2 = sprites.step_mouth_close(s.sprite.current_index);
                        world.speakis.set(
                            i,
                            Speaki {
                                audio: CurrentAudio { handle: None },
                                sprite: SpriteState { current_index: idx2 },
                                ..s
                            },
                        );
                    } else {
                        world.speakis.set(i, Speaki { audio: CurrentAudio { handle: None }, ..s });
                    }
                }
            },
        }
        i = i + 1;
    }
}

/// Mouth pass with fresh random draws.
pub fn mouth_animation_system(world: &mut World, sprites: &SpriteAssets, finished: &Vec<bool>)
    requires
        old(world).wf(),
        sprites.wf(),
        sprites.len_spec() == old(world).graph_len,
        finished@.len() == old(world).speakis@.len(),
    ensures
        final(world).wf(),
        final(world).next_id == old(world).next_id,
        final(world).graph_len == old(world).graph_len,
        final(world).speakis@.len() == old(world).speakis@.len(),
        forall|i: int|
            0 <= i < old(world).speakis@.len() ==> mouth_stepped_somehow(
                old(world).speakis@[i],
                #[trigger] final(world).speakis@[i],
                *sprites,
                finished@[i],
            ),
{
    let n = world.speakis.len();
    let mut draws: Vec<u32> = Vec::new();
    let mut i: usize = 0;
    while i < n
        invariant
            i <= n,
            draws@.len() == i,
            forall|k: int| 0 <= k < i ==> #[trigger] draws@[k] < 1000,
        decreases n - i,
    {
        draws.push(crate::rng::random_milli());
        i = i + 1;
    }
    mouth_pass(world, sprites, finished, &draws);
    proof {
        assert forall|k: int| 0 <= k < old(world).speakis@.len() implies mouth_stepped_somehow(
            old(world).speakis@[k],
            #[trigger] world.speakis@[k],
            *sprites,
            finished@[k],
        ) by {
            let d0 = draws@[k];
            assert(d0 < 1000 && world.speakis@[k] == mouth_step(
                old(world).speakis@[k],
                *sprites,
                finished@[k],
                d0,
            ));
        }
    }
}

/// What one wall-bounce event does to the store: the bounced entity gets
/// the sad expression (if a pick exists) and its idle timer restarts.
pub open spec fn bounce_apply_one(
    ws: Seq<Speaki>,
    id: u64,
    sad_pick: Option<usize>,
    now: u64,
) -> Seq<Speaki> {
    Seq::new(
        ws.len(),
        |i: int|
            if ws[i].id == id {
                Speaki {
                    sprite: match sad_pick {
                        Some(p) => SpriteState { current_index: p },
                        None => ws[i].sprite,
                    },
                    idle: IdleVoiceTimer { last_idle_time: now, ..ws[i].idle },
                    ..ws[i]
                }
            } else {
                ws[i]
            },
    )
}

/// The sad pick of a bounce event, from its per-mille draw.
pub open spec fn bounce_sad_pick(groups: ImageGroups, draw: u32) -> Option<usize> {
    if groups.sad@.len() > 0 {
        Some(groups.sad@[draw as int % groups.sad@.len() as int])
    } else {
        None
    }
}

/// The store after the first `k` bounce events, with draws `2j+1` picking
/// the sad expression of event `j`.
pub open spec fn bounce_fold(
    ws: Seq<Speaki>,
    evs: Seq<WallBounceEvent>,
    groups: ImageGroups,
    now: u64,
    draws: Seq<u32>,
    k: int,
) -> Seq<Speaki>
    decreases k,
{
    if k <= 0 {
        ws
    } else {
        bounce_apply_one(
            bounce_fold(ws, evs, groups, now, draws, k - 1),
            evs[k - 1].entity,
            bounce_sad_pick(groups, draws[2 * (k - 1) + 1]),
            now,
        )
    }
}

/// The voice requests of the first `k` bounce events, with draws `2j`
/// picking the voice of event `j`; an empty bounce group emits nothing.
pub open spec fn bounce_voices(
    evs: Seq<WallBounceEvent>,
    groups: VoiceGroups,
    audio: AudioConfig,
    draws: Seq<u32>,
    k: int,
) -> Seq<PlayVoiceEvent>
    decreases k,
{
    if k <= 0 {
        Seq::empty()
    } else {
        bounce_voices(evs, groups, audio, draws, k - 1) + (if groups.bounce@.len() > 0 {
            seq![
                PlayVoiceEvent {
                    entity: Some(evs[k - 1].entity),
                    voice_index: groups.bounce@[draws[2 * (k - 1)] as int % groups.bounce@.len() as int],
                    volume: audio.bounce_volume,
                },
            ]
        } else {
            Seq::empty()
        })
    }
}

/// Deterministic bounce reaction pass: every bounce request already on the
/// bus gets a bounce voice (if the group has one) and turns the bounced
/// entity sad with a restarted idle timer, in request order.
#[verifier::rlimit(50)]
pub fn bounce_voice_pass(
    world: &mut World,
    voice_groups: &VoiceGroups,
    image_groups: &ImageGroups,
    audio_config: &AudioConfig,
    bus: &mut RequestBus,
    now: u64,
    draws: &Vec<u32>,
)
    requires
        old(world).wf(),
        image_groups.wf(old(world).graph_len as nat),
        draws@.len() == 2 * old(bus).bounces@.len(),
    ensures
        final(world).wf(),
        final(world).next_id == old(world).next_id,
        final(world).graph_len == old(world).graph_len,
        final(world).speakis@.len() == old(world).speakis@.len(),
        final(world).speakis@ == bounce_fold(
            old(world).speakis@,
            old(bus).bounces@,
            *image_groups,
            now,
            draws@,
            old(bus).bounces@.len() as int,
        ),
        final(bus).voices@ == old(bus).voices@ + bounce_voices(
            old(bus).bounces@,
            *voice_groups,
            *audio_config,
            draws@,
            old(bus).bounces@.len() as int,
        ),
        final(bus).bounces@ == old(bus).bounces@,
        final(bus).spawns@ == old(bus).spawns@,
        final(bus).despawns@ == old(bus).despawns@,
        final(bus).merges@ == old(bus).merges@,
        final(bus).shockwaves@ == old(bus).shockwaves@,
{
    let m = bus.bounces.len();
    let dn = draws.len();
    let ghost ws0 = old(world).speakis@;
    let ghost evs = old(bus).bounces@;
    let mut k: usize = 0;
    while k < m
        invariant
            k <= m,
            m == evs.len(),
            evs == bus.bounces@,
            ws0 == old(world).speakis@,
            2 * m == draws@.len(),
            dn == draws@.len(),
            world.next_id == old(world).next_id,
            world.graph_len == old(world).graph_len,
            world.wf(),
            old(world).wf(),
            image_groups.wf(old(world).graph_len as nat),
            world.speakis@.len() == ws0.len(),
            world.speakis@ == bounce_fold(ws0, evs, *image_groups, now, draws@, k as int),
            bus.voices@ == old(bus).voices@ + bounce_voices(
                evs,
                *voice_groups,
                *audio_config,
                draws@,
                k as int,
            ),
            bus.bounces@ == old(bus).bounces@,
            bus.spawns@ == old(bus).spawns@,
            bus.despawns@ == old(bus).despawns@,
            bus.merges@ == old(bus).merges@,
            bus.shockwaves@ == old(bus).shockwaves@,
        decreases m - k,
    {
        let ev = bus.bounces[k];
        proof {
            assert(2 * k + 1 < draws@.len());
        }
        let vdraw = draws[2 * k];
        let sdraw = draws[2 * k + 1];
        if voice_groups.bounce.len() > 0 {
            let vi = voice_groups.bounce[vdraw as usize % voice_groups.bounce.len()];
            bus.voices.push(
                PlayVoiceEvent {
                    entity: Some(ev.entity),
                    voice_index: vi,
                    volume: audio_config.bounce_volume,
                },
            );
        }
        proof {
            assert(bus.voices@ =~= old(bus).voices@ + bounce_voices(
                evs,
                *voice_groups,
                *audio_config,
                draws@,
                k + 1,
            ));
        }
        let sad_pick: Option<usize> = if image_groups.sad.len() > 0 {
            Some(image_groups.sad[sdraw as usize % image_groups.sad.len()])
        } else {
            None
        };
        let ghost mid = world.speakis@;
        let n = world.speakis.len();
        let mut i: usize = 0;
        while i < n
            invariant
                i <= n,
                n == world.speakis@.len(),
                n == mid.len(),
                world.next_id == old(world).next_id,
                world.graph_len == old(world).graph_len,
                sad_pick == bounce_sad_pick(*image_groups, sdraw),
                match sad_pick {
                    Some(p) => p < world.graph_len,
                    None => true,
                },
                forall|q: int| 0 <= q < mid.len() ==> (#[trigger] mid[q]).wf(world.graph_len as nat),
                forall|q: int|
                    0 <= q < i ==> #[trigger] world.speakis@[q] == bounce_apply_one(
                        mid,
                        ev.entity,
                        sad_pick,
                        now,
                    )[q],
                forall|q: int| i <= q < n ==> #[trigger] world.speakis@[q] == mid[q],
            decreases n - i,
        {
            let s = world.speakis[i];
            if s.id == ev.entity {
                let sp = match sad_pick {
                    Some(p) => SpriteState { current_index: p },
                    None => s.sprite,
                };
                world.speakis.set(
                    i,
                    Speaki {
                        sprite: sp,
                        idle: IdleVoiceTimer { last_idle_time: now, ..s.idle },
                        ..s
                    },
                );
            }
            i = i + 1;
        }
        proof {
            assert(world.speakis@ =~= bounce_apply_one(mid, ev.entity, sad_pick, now));
            assert(world.speakis@ == bounce_fold(ws0, evs, *image_groups, now, draws@, k + 1));
            assert forall|q: int| 0 <= q < world.speakis@.len() implies (
            #[trigger] world.speakis@[q]).wf(world.graph_len as nat)
                && world.speakis@[q].id == mid[q].id by {
                assert(world.speakis@[q] == bounce_apply_one(mid, ev.entity, sad_pick, now)[q]);
            }
        }
        k = k + 1;
    }
}

/// Bounce reaction pass with fresh random draws. The bounced entities end
/// sad under some picks; the voice requests target exactly the bounced
/// entities, in request order, with the configured bounce volume.
pub fn bounce_voice_system(
    world: &mut World,
    voice_groups: &VoiceGroups,
    image_groups: &ImageGroups,
    audio_config: &AudioConfig,
    bus: &mut RequestBus,
    now: u64,
)
    requires
        old(world).wf(),
        image_groups.wf(old(world).graph_len as nat),
    ensures
        final(world).wf(),
        final(world).next_id == old(world).next_id,
        final(world).graph_len == old(world).graph_len,
        final(world).speakis@.len() == old(world).speakis@.len(),
        exists|ds: Seq<u32>|
            ds.len() == 2 * old(bus).bounces@.len() && final(world).speakis@
                == #[trigger] bounce_fold(
                old(world).speakis@,
                old(bus).bounces@,
                *image_groups,
                now,
                ds,
                old(bus).bounces@.len() as int,
            ) && final(bus).voices@ == old(bus).voices@ + bounce_voices(
                old(bus).bounces@,
                *voice_groups,
                *audio_config,
                ds,
                old(bus).bounces@.len() as int,
            ),
        final(bus).bounces@ == old(bus).bounces@,
        final(bus).spawns@ == old(bus).spawns@,
        final(bus).despawns@ == old(bus).despawns@,
        final(bus).merges@ == old(bus).merges@,
        final(bus).shockwaves@ == old(bus).shockwaves@,
{
    let m = bus.bounces.len();
    let mut draws: Vec<u32> = Vec::new();
    let mut i: usize = 0;
    while i < m
        invariant
            i <= m,
            draws@.len() == 2 * i,
            forall|k: int| 0 <= k < draws@.len() ==> #[trigger] draws@[k] < 1000,
        decreases m - i,
    {
        draws.push(crate::rng::random_milli());
        draws.push(crate::rng::random_milli());
        i = i + 1;
    }
    bounce_voice_pass(world, voice_groups, image_groups, audio_config, bus, now, &draws);
}


/// The idle-voice firing interval in microseconds:
/// `(30/frequency − 29) · cooldown + 3` seconds, with the per-mille
/// frequency and cooldown factor.
pub open spec fn idle_interval_us(freq: i64, cooldown: u32) -> int {
    tdiv((tdiv(30_000_000_000, freq as int) - 29_000_000) * cooldown, 1000) + 3_000_000
}

/// The idle timer fires: the frequency is positive and the time since the
/// last idle emission exceeds the interval.
pub open spec fn idle_fires(s: Speaki, now: u64, freq: i64) -> bool {
    freq >= 1 && (now - s.idle.last_idle_time) * 1000 > idle_interval_us(
        freq,
        s.idle.idle_cooldown,
    )
}

/// A random member of a group, or nothing from an empty group.
pub open spec fn group_pick(g: Seq<usize>, draw: u32) -> Option<usize> {
    if g.len() > 0 {
        Some(g[draw as int % g.len() as int])
    } else {
        None
    }
}

/// One idle tick for one non-dragged entity: on firing, one fifth of the
/// time (`d_choice >= 800`) the second idle set supplies the expression,
/// otherwise the first; the timer restarts with a fresh cooldown factor.
pub open spec fn idle_step(
    s: Speaki,
    now: u64,
    freq: i64,
    images: ImageGroups,
    d_choice: u32,
    d_img: u32,
    d_cd: u32,
) -> Speaki {
    if s.dragged || !idle_fires(s, now, freq) {
        s
    } else {
        let grp = if d_choice >= 800 {
            images.idle2@
        } else {
            images.idle@
        };
        Speaki {
            sprite: match group_pick(grp, d_img) {
                Some(p) => SpriteState { current_index: p },
                None => s.sprite,
            },
            idle: IdleVoiceTimer { last_idle_time: now, idle_cooldown: d_cd },
            ..s
        }
    }
}

/// The voice request one idle tick emits for one entity, if any: from the
/// matching voice group, at the configured idle volume.
pub open spec fn idle_voice_of(
    s: Speaki,
    now: u64,
    voices: VoiceGroups,
    audio: AudioConfig,
    d_choice: u32,
    d_voice: u32,
) -> Seq<PlayVoiceEvent> {
    if s.dragged || !idle_fires(s, now, audio.idle_frequency) {
        Seq::empty()
    } else {
        let grp = if d_choice >= 800 {
            voices.idle2@
        } else {
            voices.idle@
        };
        match group_pick(grp, d_voice) {
            Some(vi) => seq![
                PlayVoiceEvent { entity: Some(s.id), voice_index: vi, volume: audio.idle_volume },
            ],
            None => Seq::empty(),
        }
    }
}

/// The idle voice requests of the first `i` entities, in store order,
/// with draws `4k` (choice) and `4k+1` (voice) of entity `k`.
pub open spec fn idle_voices_upto(
    ws: Seq<Speaki>,
    now: u64,
    voices: VoiceGroups,
    audio: AudioConfig,
    draws: Seq<u32>,
    i: int,
) -> Seq<PlayVoiceEvent>
    decreases i,
{
    if i <= 0 {
        Seq::empty()
    } else {
        idle_voices_upto(ws, now, voices, audio, draws, i - 1) + idle_voice_of(
            ws[i - 1],
            now,
            voices,
            audio,
            draws[4 * (i - 1)],
            draws[4 * (i - 1) + 1],
        )
    }
}

/// Decide whether one entity's idle timer fires.
fn idle_fires_exec(s: &Speaki, now: u64, freq: i64) -> (r: bool)
    requires
        now <= 1_000_000_000_000_000,
        1 <= freq <= 1000,
        s.idle.wf(),
    ensures
        r == idle_fires(*s, now, freq),
{
    let a = 30_000_000_000i64 / freq;
    proof {
        vstd::arithmetic::div_mod::lemma_div_is_ordered_by_denominator(30_000_000_000, freq as int, 1000);
        vstd::arithmetic::div_mod::lemma_div_is_ordered_by_denominator(30_000_000_000, 1, freq as int);
        assert(30_000_000_000int / 1000 == 30_000_000);
        assert(30_000_000_000int / 1 == 30_000_000_000);
        assert(30_000_000 <= a <= 30_000_000_000);
    }
    let b = a - 29_000_000;
    proof {
        assert(0 <= (b as int) * (s.idle.idle_cooldown as int) <= 30_000_000_000_000)
            by (nonlinear_arith)
            requires
                0 < b <= 30_000_000_000 && 0 <= s.idle.idle_cooldown < 1000,
        ;
    }
    let num = b * (s.idle.idle_cooldown as i64);
    let iv = num / 1000 + 3_000_000;
    proof {
        assert(iv == idle_interval_us(freq, s.idle.idle_cooldown));
        assert(0 <= num / 1000 <= num);
    }
    let last = s.idle.last_idle_time;
    if now > last {
        (now - last) > 1_000_000_000_000_000 || (now - last) * 1000 > (iv as u64)
    } else {
        false
    }
}


/// Deterministic idle pass: each non-dragged entity whose interval has
/// elapsed emits an idle voice, takes a matching expression, and restarts
/// its timer; four draws per entity (set choice, voice pick, image pick,
/// fresh cooldown). Disabled frequency means no entity fires.
#[verifier::rlimit(50)]
pub fn idle_voice_pass(
    world: &mut World,
    voice_groups: &VoiceGroups,
    image_groups: &ImageGroups,
    audio_config: &AudioConfig,
    now: u64,
    bus: &mut RequestBus,
    draws: &Vec<u32>,
)
    requires
        old(world).wf(),
        image_groups.wf(old(world).graph_len as nat),
        audio_config.wf(),
        now <= 1_000_000_000_000_000,
        draws@.len() == 4 * old(world).speakis@.len(),
        forall|i: int| 0 <= i < draws@.len() ==> #[trigger] draws@[i] < 1000,
    ensures
        final(world).wf(),
        final(world).next_id == old(world).next_id,
        final(world).graph_len == old(world).graph_len,
        final(world).speakis@.len() == old(world).speakis@.len(),
        audio_config.idle_frequency <= 0 ==> final(world).speakis@ == old(world).speakis@
            && final(bus).voices@ == old(bus).voices@,
        audio_config.idle_frequency >= 1 ==> forall|i: int|
            0 <= i < old(world).speakis@.len() ==> #[trigger] final(world).speakis@[i] == idle_step(
                old(world).speakis@[i],
                now,
                audio_config.idle_frequency,
                *image_groups,
                draws@[4 * i],
                draws@[4 * i + 2],
                draws@[4 * i + 3],
            ),
        audio_config.idle_frequency >= 1 ==> final(bus).voices@ == old(bus).voices@
            + idle_voices_upto(
            old(world).speakis@,
            now,
            *voice_groups,
            *audio_config,
            draws@,
            old(world).speakis@.len() as int,
        ),
        final(bus).bounces@ == old(bus).bounces@,
        final(bus).spawns@ == old(bus).spawns@,
        final(bus).despawns@ == old(bus).despawns@,
        final(bus).merges@ == old(bus).merges@,
        final(bus).shockwaves@ == old(bus).shockwaves@,
{
    if audio_config.idle_frequency <= 0 {
        return ;
    }
    let freq = audio_config.idle_frequency;
    let n = world.speakis.len();
    let dn = draws.len();
    let mut i: usize = 0;
    while i < n
        invariant
            i <= n,
            n == world.speakis@.len(),
            n == old(world).speakis@.len(),
            4 * n == draws@.len(),
            dn == draws@.len(),
            world.next_id == old(world).next_id,
            world.graph_len == old(world).graph_len,
            old(world).wf(),
            image_groups.wf(old(world).graph_len as nat),
            audio_config.wf(),
            1 <= freq <= 1000,
            freq == audio_config.idle_frequency,
            now <= 1_000_000_000_000_000,
            forall|k: int| 0 <= k < draws@.len() ==> #[trigger] draws@[k] < 1000,
            forall|k: int|
                0 <= k < i ==> #[trigger] world.speakis@[k] == idle_step(
                    old(world).speakis@[k],
                    now,
                    freq,
                    *image_groups,
                    draws@[4 * k],
                    draws@[4 * k + 2],
                    draws@[4 * k + 3],
                ),
            forall|k: int| i <= k < n ==> #[trigger] world.speakis@[k] == old(world).speakis@[k],
            bus.voices@ == old(bus).voices@ + idle_voices_upto(
                old(world).speakis@,
                now,
                *voice_groups,
                *audio_config,
                draws@,
                i as int,
            ),
            bus.bounces@ == old(bus).bounces@,
            bus.spawns@ == old(bus).spawns@,
            bus.despawns@ == old(bus).despawns@,
            bus.merges@ == old(bus).merges@,
            bus.shockwaves@ == old(bus).shockwaves@,
        decreases n - i,
    {
        let s = world.speakis[i];
        proof {
            assert(old(world).speakis@[i as int].wf(old(world).graph_len as nat));
            assert(4 * i + 3 < draws@.len());
        }
        let fires = !s.dragged && idle_fires_exec(&s, now, freq);
        if fires {
            let d_choice = draws[4 * i];
            let d_voice = draws[4 * i + 1];
            let d_img = draws[4 * i + 2];
            let d_cd = draws[4 * i + 3];
            if d_choice >= 800 {
                if voice_groups.idle2.len() > 0 {
                    let vi = voice_groups.idle2[d_voice as usize % voice_groups.idle2.len()];
                    bus.voices.push(
                        PlayVoiceEvent {
                            entity: Some(s.id),
                            voice_index: vi,
                            volume: audio_config.idle_volume,
                        },
                    );
                }
                if image_groups.idle2.len() > 0 {
                    let p = image_groups.idle2[d_img as usize % image_groups.idle2.len()];
                    world.speakis.set(
                        i,
                        Speaki {
                            sprite: SpriteState { current_index: p },
                            idle: IdleVoiceTimer { last_idle_time: now, idle_cooldown: d_cd },
                            ..s
                        },
                    );
                } else {
                    world.speakis.set(
                        i,
                        Speaki {
                            idle: IdleVoiceTimer { last_idle_time: now, idle_cooldown: d_cd },
                            ..s
                        },
                    );
                }
            } else {
                if voice_groups.idle.len() > 0 {
                    let vi = voice_groups.idle[d_voice as usize % voice_groups.idle.len()];
                    bus.voices.push(
                        PlayVoiceEvent {
                            entity: Some(s.id),
                            voice_index: vi,
                            volume: audio_config.idle_volume,
                        },
                    );
                }
                if image_groups.idle.len() > 0 {
                    let p = image_groups.idle[d_img as usize % image_groups.idle.len()];
                    world.speakis.set(
                        i,
                        Speaki {
                            sprite: SpriteState { current_index: p },
                            idle: IdleVoiceTimer { last_idle_time: now, idle_cooldown: d_cd },
                            ..s
                        },
                    );
                } else {
                    world.speakis.set(
                        i,
                        Speaki {
                            idle: IdleVoiceTimer { last_idle_time: now, idle_cooldown: d_cd },
                            ..s
                        },
                    );
                }
            }
        }
        proof {
            assert(bus.voices@ =~= old(bus).voices@ + idle_voices_upto(
                old(world).speakis@,
                now,
                *voice_groups,
                *audio_config,
                draws@,
                i + 1,
            ));
        }
        i = i + 1;
    }
}

/// The store and the voice queue after the idle pass under some draws.
pub open spec fn idle_passed_somehow(
    pre: Seq<Speaki>,
    post: Seq<Speaki>,
    pre_voices: Seq<PlayVoiceEvent>,
    post_voices: Seq<PlayVoiceEvent>,
    now: u64,
    voices: VoiceGroups,
    images: ImageGroups,
    audio: AudioConfig,
) -> bool {
    exists|ds: Seq<u32>|
        ds.len() == 4 * pre.len() && (forall|k: int| 0 <= k < ds.len() ==> #[trigger] ds[k] < 1000)
            && (forall|i: int|
            0 <= i < pre.len() ==> #[trigger] post[i] == idle_step(
                pre[i],
                now,
                audio.idle_frequency,
                images,
                ds[4 * i],
                ds[4 * i + 2],
                ds[4 * i + 3],
            )) && post_voices == pre_voices + idle_voices_upto(
            pre,
            now,
            voices,
            audio,
            ds,
            pre.len() as int,
        )
}

/// Idle pass with fresh random draws.
pub fn idle_voice_system(
    world: &mut World,
    voice_groups: &VoiceGroups,
    image_groups: &ImageGroups,
    audio_config: &AudioConfig,
    now: u64,
    bus: &mut RequestBus,
)
    requires
        old(world).wf(),
        image_groups.wf(old(world).graph_len as nat),
        audio_config.wf(),
        now <= 1_000_000_000_000_000,
    ensures
        final(world).wf(),
        final(world).next_id == old(world).next_id,
        final(world).graph_len == old(world).graph_len,
        final(world).speakis@.len() == old(world).speakis@.len(),
        audio_config.idle_frequency <= 0 ==> final(world).speakis@ == old(world).speakis@
            && final(bus).voices@ == old(bus).voices@,
        audio_config.idle_frequency >= 1 ==> idle_passed_somehow(
            old(world).speakis@,
            final(world).speakis@,
            old(bus).voices@,
            final(bus).voices@,
            now,
            *voice_groups,
            *image_groups,
            *audio_config,
        ),
        final(bus).bounces@ == old(bus).bounces@,
        final(bus).spawns@ == old(bus).spawns@,
        final(bus).despawns@ == old(bus).despawns@,
        final(bus).merges@ == old(bus).merges@,
        final(bus).shockwaves@ == old(bus).shockwaves@,
{
    let n = world.speakis.len();
    let mut draws: Vec<u32> = Vec::new();
    let mut i: usize = 0;
    while i < n
        invariant
            i <= n,
            draws@.len() == 4 * i,
            forall|k: int| 0 <= k < draws@.len() ==> #[trigger] draws@[k] < 1000,
        decreases n - i,
    {
        draws.push(crate::rng::random_milli());
        draws.push(crate::rng::random_milli());
        draws.push(crate::rng::random_milli());
        draws.push(crate::rng::random_milli());
        i = i + 1;
    }
    idle_voice_pass(world, voice_groups, image_groups, audio_config, now, bus, &draws);
    proof {
        if audio_config.idle_frequency >= 1 {
            assert(idle_passed_somehow(
                old(world).speakis@,
                world.speakis@,
                old(bus).voices@,
                bus.voices@,
                now,
                *voice_groups,
                *image_groups,
                *audio_config,
            )) by {
                assert(draws@.len() == 4 * old(world).speakis@.len() && (forall|k: int|
                    0 <= k < draws@.len() ==> #[trigger] draws@[k] < 1000) && (forall|i2: int|
                    0 <= i2 < old(world).speakis@.len() ==> #[trigger] world.speakis@[i2]
                        == idle_step(
                        old(world).speakis@[i2],
                        now,
                        audio_config.idle_frequency,
                        *image_groups,
                        draws@[4 * i2],
                        draws@[4 * i2 + 2],
                        draws@[4 * i2 + 3],
                    )) && bus.voices@ == old(bus).voices@ + idle_voices_upto(
                    old(world).speakis@,
                    now,
                    *voice_groups,
                    *audio_config,
                    draws@,
                    old(world).speakis@.len() as int,
                ));
            }
        }
    }
}

/// Idle interval monotonic in frequency: with the cooldown factor held
/// fixed (and not zero, which pins every interval at its 3-second floor),
/// a strictly higher frequency gives a strictly shorter firing interval.
pub proof fn lemma_idle_interval_monotonic(f1: i64, f2: i64, cooldown: u32)
    requires
        1 <= f1 < f2 <= 1000,
        1 <= cooldown < 1000,
    ensures
        idle_interval_us(f2, cooldown) < idle_interval_us(f1, cooldown),
{
    let a1 = tdiv(30_000_000_000, f1 as int);
    let a2 = tdiv(30_000_000_000, f2 as int);
    vstd::arithmetic::div_mod::lemma_div_is_ordered_by_denominator(30_000_000_000, f2 as int, 1000);
    assert(30_000_000_000int / 1000 == 30_000_000);
    assert(a2 >= 30_000_000);
    vstd::arithmetic::div_mod::lemma_fundamental_div_mod(30_000_000_000, f2 as int);
    assert(a2 * f2 <= 30_000_000_000) by (nonlinear_arith)
        requires
            30_000_000_000 == f2 * a2 + 30_000_000_000int % (f2 as int)
                && 30_000_000_000int % (f2 as int) >= 0,
    ;
    assert((a2 + 30000) * f1 <= 30_000_000_000) by (nonlinear_arith)
        requires
            a2 * f2 <= 30_000_000_000 && a2 >= 30_000_000 && 1 <= f1 && f1 <= f2 - 1 && f2 <= 1000,
    ;
    vstd::arithmetic::div_mod::lemma_div_is_ordered((a2 + 30000) * f1, 30_000_000_000, f1 as int);
    vstd::arithmetic::div_mod::lemma_div_by_multiple(a2 + 30000, f1 as int);
    assert(a1 >= a2 + 30000);
    let b1 = a1 - 29_000_000;
    let b2 = a2 - 29_000_000;
    assert(b1 * cooldown >= b2 * cooldown + 30000 * cooldown) by (nonlinear_arith)
        requires
            b1 >= b2 + 30000 && cooldown >= 1,
    ;
    assert(30000 * cooldown >= 30000) by (nonlinear_arith)
        requires
            cooldown >= 1,
    ;
    assert(b2 * cooldown >= 0) by (nonlinear_arith)
        requires
            b2 >= 0 && cooldown >= 0,
    ;
    let n1 = b1 * cooldown;
    let n2 = b2 * cooldown;
    vstd::arithmetic::div_mod::lemma_div_is_ordered(n2 + 30000, n1, 1000);
    vstd::arithmetic::div_mod::lemma_hoist_over_denominator(n2, 30, 1000nat);
    assert(n2 / 1000 + 30 == (n2 + 30 * 1000) / 1000);
    assert(n1 / 1000 >= n2 / 1000 + 30);
    assert(tdiv(n1, 1000) == n1 / 1000);
    assert(tdiv(n2, 1000) == n2 / 1000);
}

} // verus!
