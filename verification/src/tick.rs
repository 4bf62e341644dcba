//! One whole simulation frame, in the fixed order of the design: gravity,
//! integration, wall collision, pairwise collision, merging, explosions,
//! rotation, window inertia, then the blink automaton, the bounce
//! reactions and the idle timers; the caller drains the request queues
//! afterwards. Pointer interaction and the realization of spawn and
//! despawn requests need per-tick inputs and stay with the caller, before
//! and after this function.
//!
//! `tick_rel` states the whole composition over the per-pass spec
//! functions: the deterministic passes appear as sequence maps, and each
//! randomized pass under some per-mille draws.

use vstd::prelude::*;

use crate::collision::{collide_entity, first_dragged};
use crate::components::{Speaki, Vec2};
use crate::events::{MergeSpeakiEvent, PlayVoiceEvent, RequestBus, Shockwave, WallBounceEvent};
use crate::fx::sat;
use crate::merge::{merge_events, merge_result};
use crate::physics::{
    bounds_of, gravity_step, inertia_step, movement_step, rotation_step, shiny_passed_somehow,
    shockwaves_of, wall_events_upto, wall_resolved_somehow,
};
use crate::resources::{
    AudioConfig, BorderConfig, GameConfig, MergeConfig, PhysicsConfig, ShinyConfig,
    WindowPositionTracker,
};
use crate::sprites::{ImageGroups, SpriteAssets, VoiceGroups};
use crate::animation::blink_stepped_somehow;
use crate::voice::{bounce_fold, bounce_voices, idle_passed_somehow};
use crate::world::World;

verus! {

/// The store after the gravity pass.
pub open spec fn gravity_stepped(ws: Seq<Speaki>, g: i64) -> Seq<Speaki> {
    Seq::new(ws.len(), |i: int| gravity_step(ws[i], g))
}

/// The store after the integration pass.
pub open spec fn movement_stepped(ws: Seq<Speaki>) -> Seq<Speaki> {
    Seq::new(ws.len(), |i: int| movement_step(ws[i]))
}

/// The store after the pairwise-collision pass (unchanged when disabled).
pub open spec fn collide_stepped(ws: Seq<Speaki>, p: PhysicsConfig) -> Seq<Speaki> {
    if !p.collision_enabled {
        ws
    } else {
        Seq::new(ws.len(), |e: int| collide_entity(ws, e, first_dragged(ws), p))
    }
}

/// The store after the merge pass (unchanged when disabled).
pub open spec fn merge_stepped(ws: Seq<Speaki>, cfg: MergeConfig) -> Seq<Speaki> {
    if !cfg.enabled {
        ws
    } else {
        merge_result(ws, cfg, first_dragged(ws))
    }
}

/// The merge requests of the pass (none when disabled).
pub open spec fn merge_emitted(ws: Seq<Speaki>, cfg: MergeConfig) -> Seq<MergeSpeakiEvent> {
    if !cfg.enabled {
        Seq::empty()
    } else {
        merge_events(ws, cfg, first_dragged(ws))
    }
}

/// The store after the rotation pass.
pub open spec fn rotation_stepped(ws: Seq<Speaki>, rotation_speed: i64) -> Seq<Speaki> {
    Seq::new(ws.len(), |i: int| rotation_step(ws[i], rotation_speed))
}

/// The window tracker after an optional window-move observation.
pub open spec fn tracker_after(t: WindowPositionTracker, window: Option<Vec2>) -> WindowPositionTracker {
    match window {
        None => t,
        Some(c) => if !t.enabled {
            t
        } else {
            WindowPositionTracker { last_position: Some(c), ..t }
        },
    }
}

/// The store after the window-inertia pass: with an observation, an
/// enabled tracker, a known previous position and a delta past the noise
/// threshold, every non-dragged entity takes the impulse.
pub open spec fn inertia_stepped(
    ws: Seq<Speaki>,
    t: WindowPositionTracker,
    window: Option<Vec2>,
) -> Seq<Speaki> {
    match window {
        None => ws,
        Some(c) => if !t.enabled {
            ws
        } else {
            match t.last_position {
                None => ws,
                Some(last) => {
                    let dx = sat(c.x - last.x);
                    let dy = sat(c.y - last.y);
                    if dx > 500 || dx < -500 || dy > 500 || dy < -500 {
                        Seq::new(
                            ws.len(),
                            |i: int| inertia_step(ws[i], dx as i64, dy as i64, t.strength),
                        )
                    } else {
                        ws
                    }
                },
            }
        },
    }
}

/// The whole frame, from the pre-tick store `pre` to the post-tick store
/// `post`, with the intermediate stores of the randomized passes
/// (`walled`, `exploded`, `blinked`, `bounced`) and the voice queue after
/// the bounce reactions (`voices_mid`) as witnesses. States exactly, pass
/// by pass in the design's order, how every store and every request queue
/// came to be.
pub open spec fn tick_rel(
    pre: Seq<Speaki>,
    walled: Seq<Speaki>,
    exploded: Seq<Speaki>,
    blinked: Seq<Speaki>,
    bounced: Seq<Speaki>,
    post: Seq<Speaki>,
    voices_mid: Seq<PlayVoiceEvent>,
    bounces_pre: Seq<WallBounceEvent>,
    bounces_post: Seq<WallBounceEvent>,
    merges_pre: Seq<MergeSpeakiEvent>,
    merges_post: Seq<MergeSpeakiEvent>,
    shocks_pre: Seq<Shockwave>,
    shocks_post: Seq<Shockwave>,
    voices_pre: Seq<PlayVoiceEvent>,
    voices_post: Seq<PlayVoiceEvent>,
    physics: PhysicsConfig,
    border: BorderConfig,
    merge_config: MergeConfig,
    shiny_config: ShinyConfig,
    sprites: SpriteAssets,
    game: GameConfig,
    images: ImageGroups,
    voices: VoiceGroups,
    audio: AudioConfig,
    half_width: i64,
    half_height: i64,
    now: u64,
    dt: u64,
    window: Option<Vec2>,
    tracker_pre: WindowPositionTracker,
    tracker_post: WindowPositionTracker,
) -> bool {
    let b = bounds_of(half_width, half_height, border);
    let integrated = movement_stepped(gravity_stepped(pre, physics.gravity));
    let collided = collide_stepped(walled, physics);
    let merged = merge_stepped(collided, merge_config);
    let inert = inertia_stepped(
        rotation_stepped(exploded, physics.rotation_speed),
        tracker_pre,
        window,
    );
    &&& walled.len() == integrated.len()
    &&& forall|i: int|
        0 <= i < integrated.len() ==> wall_resolved_somehow(
            integrated[i],
            #[trigger] walled[i],
            b,
            physics,
        )
    &&& bounces_post == bounces_pre + wall_events_upto(
        integrated,
        b,
        physics,
        integrated.len() as int,
    )
    &&& merges_post == merges_pre + merge_emitted(collided, merge_config)
    &&& (if shiny_config.explosion_enabled {
        shiny_passed_somehow(merged, exploded, dt, shiny_config) && shocks_post == shocks_pre
            + shockwaves_of(merged, dt, shiny_config)
    } else {
        exploded == merged && shocks_post == shocks_pre
    })
    &&& tracker_post == tracker_after(tracker_pre, window)
    &&& (if game.eye_blink_enabled && sprites.loaded {
        blinked.len() == inert.len() && forall|i: int|
            0 <= i < inert.len() ==> blink_stepped_somehow(inert[i], #[trigger] blinked[i], sprites, now)
    } else {
        blinked == inert
    })
    &&& exists|bd: Seq<u32>|
        bd.len() == 2 * bounces_post.len() && bounced == #[trigger] bounce_fold(
            blinked,
            bounces_post,
            images,
            now,
            bd,
            bounces_post.len() as int,
        ) && voices_mid == voices_pre + bounce_voices(
            bounces_post,
            voices,
            audio,
            bd,
            bounces_post.len() as int,
        )
    &&& (if audio.idle_frequency >= 1 {
        idle_passed_somehow(bounced, post, voices_mid, voices_post, now, voices, images, audio)
    } else {
        post == bounced && voices_post == voices_mid
    })
}

/// Advance the whole simulation by one frame of `dt` milliseconds ending
/// at time `now`, within a window of the given half-extents; `window` is
/// the window manager's position observation for this frame, if any.
pub fn simulation_tick(
    world: &mut World,
    physics: &PhysicsConfig,
    border: &BorderConfig,
    merge_config: &MergeConfig,
    shiny_config: &ShinyConfig,
    sprites: &SpriteAssets,
    game: &GameConfig,
    image_groups: &ImageGroups,
    voice_groups: &VoiceGroups,
    audio_config: &AudioConfig,
    half_width: i64,
    half_height: i64,
    now: u64,
    dt: u64,
    window: Option<Vec2>,
    tracker: &mut WindowPositionTracker,
    bus: &mut RequestBus,
)
    requires
        old(world).wf(),
        physics.wf(),
        border.wf(),
        merge_config.wf(),
        shiny_config.wf(),
        sprites.wf(),
        sprites.len_spec() == old(world).graph_len,
        image_groups.wf(old(world).graph_len as nat),
        audio_config.wf(),
        old(tracker).wf(),
        match window {
            Some(c) => c.wf(),
            None => true,
        },
        0 <= half_width <= crate::fx::COORD_LIMIT,
        0 <= half_height <= crate::fx::COORD_LIMIT,
        now <= 1_000_000_000_000_000,
        dt <= 1_000_000_000_000_000,
    ensures
        final(world).wf(),
        final(tracker).wf(),
        final(world).next_id == old(world).next_id,
        final(world).graph_len == old(world).graph_len,
        final(bus).spawns@ == old(bus).spawns@,
        final(bus).despawns@ == old(bus).despawns@,
        exists|
            walled: Seq<Speaki>,
            exploded: Seq<Speaki>,
            blinked: Seq<Speaki>,
            bounced: Seq<Speaki>,
            voices_mid: Seq<PlayVoiceEvent>,
        |
            #[trigger] tick_rel(
                old(world).speakis@,
                walled,
                exploded,
                blinked,
                bounced,
                final(world).speakis@,
                voices_mid,
                old(bus).bounces@,
                final(bus).bounces@,
                old(bus).merges@,
                final(bus).merges@,
                old(bus).shockwaves@,
                final(bus).shockwaves@,
                old(bus).voices@,
                final(bus).voices@,
                *physics,
                *border,
                *merge_config,
                *shiny_config,
                *sprites,
                *game,
                *image_groups,
                *voice_groups,
                *audio_config,
                half_width,
                half_height,
                now,
                dt,
                window,
                *old(tracker),
                *final(tracker),
            ),
{
    let ghost pre = old(world).speakis@;
    crate::physics::gravity_system(world, physics);
    proof {
        assert(world.speakis@ =~= gravity_stepped(pre, physics.gravity));
    }
    crate::physics::movement_system(world);
    let ghost integrated = world.speakis@;
    proof {
        assert(integrated =~= movement_stepped(gravity_stepped(pre, physics.gravity)));
    }
    crate::physics::wall_collision_system(world, half_width, half_height, physics, border, bus);
    let ghost walled = world.speakis@;
    crate::collision::speaki_collision_system(world, physics);
    let ghost collided = world.speakis@;
    proof {
        assert(collided =~= collide_stepped(walled, *physics));
    }
    crate::merge::speaki_merge_system(world, merge_config, bus);
    let ghost merged = world.speakis@;
    proof {
        assert(merged == merge_stepped(collided, *merge_config));
        assert(bus.merges@ == old(bus).merges@ + merge_emitted(collided, *merge_config)) by {
            if !merge_config.enabled {
                assert(bus.merges@ =~= old(bus).merges@ + Seq::<MergeSpeakiEvent>::empty());
            }
        }
    }
    crate::physics::shiny_explosion_system(world, shiny_config, dt, bus);
    let ghost exploded = world.speakis@;
    crate::physics::rotation_system(world, physics);
    let ghost rotated = world.speakis@;
    proof {
        assert(rotated =~= rotation_stepped(exploded, physics.rotation_speed));
    }
    match window {
        Some(c) => {
            crate::physics::window_inertia_system(world, tracker, c);
            proof {
                assert(world.speakis@ =~= inertia_stepped(rotated, *old(tracker), window));
                assert(*tracker =~= tracker_after(*old(tracker), window));
            }
        },
        None => {},
    }
    let ghost inert = world.speakis@;
    proof {
        assert(inert =~= inertia_stepped(rotated, *old(tracker), window));
    }
    crate::animation::blink_system(world, sprites, game, now);
    let ghost blinked = world.speakis@;
    crate::voice::bounce_voice_system(
        world,
        voice_groups,
        image_groups,
        audio_config,
        bus,
        now,
    );
    let ghost bounced = world.speakis@;
    let ghost voices_mid = bus.voices@;
    crate::voice::idle_voice_system(
        world,
        voice_groups,
        image_groups,
        audio_config,
        now,
        bus,
    );
    proof {
        assert(tick_rel(
            pre,
            walled,
            exploded,
            blinked,
            bounced,
            world.speakis@,
            voices_mid,
            old(bus).bounces@,
            bus.bounces@,
            old(bus).merges@,
            bus.merges@,
            old(bus).shockwaves@,
            bus.shockwaves@,
            old(bus).voices@,
            bus.voices@,
            *physics,
            *border,
            *merge_config,
            *shiny_config,
            *sprites,
            *game,
            *image_groups,
            *voice_groups,
            *audio_config,
            half_width,
            half_height,
            now,
            dt,
            window,
            *old(tracker),
            *tracker,
        ));
    }
}

} // verus!
