//! The interaction controller: pointer presses grab the topmost entity
//! under the cursor or spawn a new one on empty space, pointer motion
//! carries the grabbed entity, release throws it, and a secondary click
//! asks for a removal. Pointer positions arrive already converted to the
//! simulation's coordinate space by the rendering collaborator.

use vstd::prelude::*;
use vstd::pervasive::VecAdditionalExecFns;

use crate::components::{IdleVoiceTimer, Speaki, Vec2, Velocity};
use crate::events::{DespawnSpeakiEvent, PlayVoiceEvent, RequestBus, SpawnSpeakiEvent};
use crate::fx::{in_range, sat, sat_sub, scale_milli, tdiv, COORD_LIMIT};
use crate::resources::{AudioConfig, DragState, GameConfig, PhysicsConfig};
use crate::sprites::VoiceGroups;
use crate::world::{new_speaki_spec, remove_id, World};

verus! {

/// The cursor falls on the entity: its distance to the center is less
/// than half the diameter (compared exactly on squares).
pub open spec fn cursor_hits(s: Speaki, c: Vec2) -> bool {
    let dx = sat(c.x - s.pos.x);
    let dy = sat(c.y - s.pos.y);
    let h = tdiv(s.size.0 as int, 2);
    dx * dx + dy * dy < h * h
}

/// The topmost hit entity at or below index `i`: entities are stored in
/// spawn order, so the scan runs from the most recently spawned down.
pub open spec fn topmost_hit_from(ws: Seq<Speaki>, c: Vec2, i: int) -> Option<int>
    decreases i + 1,
{
    if i < 0 || i >= ws.len() {
        None
    } else if cursor_hits(ws[i], c) {
        Some(i)
    } else {
        topmost_hit_from(ws, c, i - 1)
    }
}

/// The topmost entity under the cursor, if any.
pub open spec fn topmost_hit(ws: Seq<Speaki>, c: Vec2) -> Option<int> {
    topmost_hit_from(ws, c, ws.len() - 1)
}

/// The drag voice request for entity `id`, under draw `d`.
pub open spec fn drag_voice_event(
    voice_groups: VoiceGroups,
    audio: AudioConfig,
    id: u64,
    d: u32,
) -> PlayVoiceEvent {
    PlayVoiceEvent {
        entity: Some(id),
        voice_index: voice_groups.drag@[d as int % voice_groups.drag@.len() as int],
        volume: audio.grab_volume,
    }
}

proof fn lemma_topmost_hit_skip(ws: Seq<Speaki>, c: Vec2, i: int)
    requires
        -1 <= i < ws.len(),
        forall|k: int| i < k < ws.len() ==> !cursor_hits(#[trigger] ws[k], c),
    ensures
        topmost_hit(ws, c) == topmost_hit_from(ws, c, i),
    decreases ws.len() - i,
{
    if i < ws.len() - 1 {
        lemma_topmost_hit_skip(ws, c, i + 1);
    }
}

/// Decide whether the cursor falls on one entity.
fn cursor_hits_exec(s: &Speaki, c: Vec2) -> (r: bool)
    requires
        s.pos.wf(),
        c.wf(),
        0 < s.size.0 <= COORD_LIMIT,
    ensures
        r == cursor_hits(*s, c),
{
    let dx = sat_sub(c.x, s.pos.x);
    let dy = sat_sub(c.y, s.pos.y);
    proof {
        assert(dx * dx + dy * dy < 0x7fff_ffff_ffff_ffff_ffff_ffff_ffff_ffff && dx * dx >= 0 && dy
            * dy >= 0) by (nonlinear_arith)
            requires
                in_range(dx as int) && in_range(dy as int),
        ;
    }
    let dsq: i128 = (dx as i128) * (dx as i128) + (dy as i128) * (dy as i128);
    let h = s.size.0 / 2;
    proof {
        assert(h * h < 0x7fff_ffff_ffff_ffff_ffff_ffff_ffff_ffff && h * h >= 0)
            by (nonlinear_arith)
            requires
                0 <= h <= COORD_LIMIT,
        ;
    }
    dsq < (h as i128) * (h as i128)
}

/// Find the topmost entity under the cursor.
fn topmost_hit_exec(world: &World, c: Vec2) -> (r: Option<usize>)
    requires
        world.wf(),
        c.wf(),
    ensures
        match r {
            Some(i) => topmost_hit(world.speakis@, c) == Some(i as int) && i
                < world.speakis@.len(),
            None => topmost_hit(world.speakis@, c) == None::<int>,
        },
{
    let n = world.speakis.len();
    let mut i: usize = n;
    while i > 0
        invariant
            i <= n,
            n == world.speakis@.len(),
            world.wf(),
            c.wf(),
            forall|k: int|
                i <= k < n ==> !cursor_hits(#[trigger] world.speakis@[k], c),
        decreases i,
    {
        i = i - 1;
        let s = world.speakis[i];
        proof {
            assert(world.speakis@[i as int].wf(world.graph_len as nat));
        }
        if cursor_hits_exec(&s, c) {
            proof {
                lemma_topmost_hit_skip(world.speakis@, c, i as int);
            }
            return Some(i);
        }
    }
    proof {
        lemma_topmost_hit_skip(world.speakis@, c, -1);
    }
    None
}

/// A primary press at `cursor`. On the topmost hit entity: mark it
/// dragged, remember the drag reference, and ask for a drag voice (chosen
/// by the draw) at the grab volume. On empty space with click-to-add: ask
/// for a spawn at the cursor with zero velocity, plus the create voice,
/// and remember the press for the entity about to appear.
pub fn mouse_input_pressed(
    world: &mut World,
    drag_state: &mut DragState,
    config: &GameConfig,
    voice_groups: &VoiceGroups,
    audio_config: &AudioConfig,
    cursor: Vec2,
    now: u64,
    bus: &mut RequestBus,
    draw: u32,
)
    requires
        old(world).wf(),
        cursor.wf(),
    ensures
        final(world).wf(),
        final(world).next_id == old(world).next_id,
        final(world).graph_len == old(world).graph_len,
        final(world).speakis@.len() == old(world).speakis@.len(),
        final(bus).despawns@ == old(bus).despawns@,
        final(bus).bounces@ == old(bus).bounces@,
        final(bus).merges@ == old(bus).merges@,
        final(bus).shockwaves@ == old(bus).shockwaves@,
        match topmost_hit(old(world).speakis@, cursor) {
            Some(h) => {
                &&& forall|i: int|
                    0 <= i < old(world).speakis@.len() ==> #[trigger] final(world).speakis@[i] == (
                    if i == h {
                        Speaki { dragged: true, ..old(world).speakis@[i] }
                    } else {
                        old(world).speakis@[i]
                    })
                &&& *final(drag_state) == (DragState {
                    is_dragging: true,
                    dragged_entity: Some(old(world).speakis@[h].id),
                    last_start_pos: cursor,
                    last_start_time: now,
                    last_click_time: old(drag_state).last_click_time,
                })
                &&& final(bus).spawns@ == old(bus).spawns@
                &&& final(bus).voices@ == old(bus).voices@ + (if voice_groups.drag@.len() > 0 {
                    seq![
                        PlayVoiceEvent {
                            entity: Some(old(world).speakis@[h].id),
                            voice_index: voice_groups.drag@[draw as int % voice_groups.drag@.len() as int],
                            volume: audio_config.grab_volume,
                        },
                    ]
                } else {
                    Seq::empty()
                })
            },
            None => {
                &&& final(world).speakis@ == old(world).speakis@
                &&& (if config.click_to_add {
                    &&& *final(drag_state) == (DragState {
                        is_dragging: true,
                        dragged_entity: old(drag_state).dragged_entity,
                        last_start_pos: cursor,
                        last_start_time: now,
                        last_click_time: now,
                    })
                    &&& final(bus).spawns@ == old(bus).spawns@.push(
                        SpawnSpeakiEvent {
                            position: cursor,
                            velocity: Velocity { x: 0i64, y: 0i64 },
                        },
                    )
                    &&& final(bus).voices@ == old(bus).voices@ + (if voice_groups.create@.len()
                        > 0 {
                        seq![
                            PlayVoiceEvent {
                                entity: None::<u64>,
                                voice_index: voice_groups.create@[0],
                                volume: audio_config.create_volume,
                            },
                        ]
                    } else {
                        Seq::empty()
                    })
                } else {
                    &&& *final(drag_state) == *old(drag_state)
                    &&& final(bus).spawns@ == old(bus).spawns@
                    &&& final(bus).voices@ == old(bus).voices@
                })
            },
        },
{
    let hit = topmost_hit_exec(world, cursor);
    match hit {
        Some(i) => {
            let s = world.speakis[i];
            world.speakis.set(i, Speaki { dragged: true, ..s });
            drag_state.is_dragging = true;
            drag_state.dragged_entity = Some(s.id);
            drag_state.last_start_pos = cursor;
            drag_state.last_start_time = now;
            if voice_groups.drag.len() > 0 {
                let vi = voice_groups.drag[draw as usize % voice_groups.drag.len()];
                bus.voices.push(
                    PlayVoiceEvent {
                        entity: Some(s.id),
                        voice_index: vi,
                        volume: audio_config.grab_volume,
                    },
                );
                proof {
                    assert(bus.voices@ =~= old(bus).voices@ + seq![
                        PlayVoiceEvent {
                            entity: Some(old(world).speakis@[i as int].id),
                            voice_index: voice_groups.drag@[draw as int % voice_groups.drag@.len() as int],
                            volume: audio_config.grab_volume,
                        },
                    ]);
                }
            }
        },
        None => {
            if config.click_to_add {
                drag_state.is_dragging = true;
                drag_state.last_start_pos = cursor;
                drag_state.last_start_time = now;
                drag_state.last_click_time = now;
                bus.spawns.push(
                    SpawnSpeakiEvent { position: cursor, velocity: Velocity { x: 0, y: 0 } },
                );
                if voice_groups.create.len() > 0 {
                    let vi = voice_groups.create[0];
                    bus.voices.push(
                        PlayVoiceEvent {
                            entity: None,
                            voice_index: vi,
                            volume: audio_config.create_volume,
                        },
                    );
                    proof {
                        assert(bus.voices@ =~= old(bus).voices@ + seq![
                            PlayVoiceEvent {
                                entity: None::<u64>,
                                voice_index: voice_groups.create@[0],
                                volume: audio_config.create_volume,
                            },
                        ]);
                    }
                }
            }
        },
    }
}

/// Primary press with a fresh random draw for the drag voice.
pub fn mouse_input_system(
    world: &mut World,
    drag_state: &mut DragState,
    config: &GameConfig,
    voice_groups: &VoiceGroups,
    audio_config: &AudioConfig,
    cursor: Vec2,
    now: u64,
    bus: &mut RequestBus,
)
    requires
        old(world).wf(),
        cursor.wf(),
    ensures
        final(world).wf(),
        final(world).next_id == old(world).next_id,
        final(world).graph_len == old(world).graph_len,
        final(world).speakis@.len() == old(world).speakis@.len(),
        final(bus).despawns@ == old(bus).despawns@,
        final(bus).bounces@ == old(bus).bounces@,
        final(bus).merges@ == old(bus).merges@,
        final(bus).shockwaves@ == old(bus).shockwaves@,
        match topmost_hit(old(world).speakis@, cursor) {
            Some(h) => {
                &&& forall|i: int|
                    0 <= i < old(world).speakis@.len() ==> #[trigger] final(world).speakis@[i] == (
                    if i == h {
                        Speaki { dragged: true, ..old(world).speakis@[i] }
                    } else {
                        old(world).speakis@[i]
                    })
                &&& *final(drag_state) == (DragState {
                    is_dragging: true,
                    dragged_entity: Some(old(world).speakis@[h].id),
                    last_start_pos: cursor,
                    last_start_time: now,
                    last_click_time: old(drag_state).last_click_time,
                })
                &&& final(bus).spawns@ == old(bus).spawns@
                &&& (voice_groups.drag@.len() == 0 ==> final(bus).voices@ == old(bus).voices@)
                &&& (voice_groups.drag@.len() > 0 ==> final(bus).voices@.len() == old(
                    bus,
                ).voices@.len() + 1 && (exists|d: u32|
                    d < 1000 && final(bus).voices@.last() == #[trigger] drag_voice_event(
                        *voice_groups,
                        *audio_config,
                        old(world).speakis@[h].id,
                        d,
                    )) && final(bus).voices@.take(old(bus).voices@.len() as int) == old(
                    bus,
                ).voices@)
            },
            None => {
                &&& final(world).speakis@ == old(world).speakis@
                &&& (if config.click_to_add {
                    &&& *final(drag_state) == (DragState {
                        is_dragging: true,
                        dragged_entity: old(drag_state).dragged_entity,
                        last_start_pos: cursor,
                        last_start_time: now,
                        last_click_time: now,
                    })
                    &&& final(bus).spawns@ == old(bus).spawns@.push(
                        SpawnSpeakiEvent {
                            position: cursor,
                            velocity: Velocity { x: 0i64, y: 0i64 },
                        },
                    )
                    &&& final(bus).voices@ == old(bus).voices@ + (
                    if voice_groups.create@.len() > 0 {
                        seq![
                            PlayVoiceEvent {
                                entity: None::<u64>,
                                voice_index: voice_groups.create@[0],
                                volume: audio_config.create_volume,
                            },
                        ]
                    } else {
                        Seq::empty()
                    })
                } else {
                    &&& *final(drag_state) == *old(drag_state)
                    &&& final(bus).spawns@ == old(bus).spawns@
                    &&& final(bus).voices@ == old(bus).voices@
                })
            },
        },
{
    let draw = crate::rng::random_milli();
    mouse_input_pressed(
        world,
        drag_state,
        config,
        voice_groups,
        audio_config,
        cursor,
        now,
        bus,
        draw,
    );
    proof {
        match topmost_hit(old(world).speakis@, cursor) {
            Some(h) => {
                if voice_groups.drag@.len() > 0 {
                    assert(bus.voices@.last() == drag_voice_event(
                        *voice_groups,
                        *audio_config,
                        old(world).speakis@[h].id,
                        draw,
                    ));
                    assert(bus.voices@.take(old(bus).voices@.len() as int) =~= old(bus).voices@);
                }
            },
            None => {},
        }
    }
}


/// A dragged entity carried to the cursor: position clamped to it, no
/// physical velocity while held.
pub open spec fn carried(s: Speaki, cursor: Vec2) -> Speaki {
    if s.dragged {
        Speaki { pos: cursor, vel: Velocity { x: 0i64, y: 0i64 }, ..s }
    } else {
        s
    }
}

/// Carry the dragged entity with the pointer: its position follows the
/// cursor with zero velocity, and every tenth of a second the drag
/// reference point is refreshed for the throw computation.
pub fn drag_update_system(world: &mut World, drag_state: &mut DragState, cursor: Vec2, now: u64)
    requires
        old(world).wf(),
        cursor.wf(),
    ensures
        final(world).wf(),
        final(world).next_id == old(world).next_id,
        final(world).graph_len == old(world).graph_len,
        final(world).speakis@.len() == old(world).speakis@.len(),
        !old(drag_state).is_dragging ==> *final(world) == *old(world) && *final(drag_state) == *old(
            drag_state,
        ),
        old(drag_state).is_dragging ==> {
            &&& (now > old(drag_state).last_start_time + 100 ==> *final(drag_state) == (DragState {
                last_start_pos: cursor,
                last_start_time: now,
                ..*old(drag_state)
            }))
            &&& (!(now > old(drag_state).last_start_time + 100) ==> *final(drag_state) == *old(
                drag_state,
            ))
            &&& forall|i: int|
                0 <= i < old(world).speakis@.len() ==> #[trigger] final(world).speakis@[i]
                    == carried(old(world).speakis@[i], cursor)
        },
{
    if !drag_state.is_dragging {
        return ;
    }
    if now > drag_state.last_start_time && now - drag_state.last_start_time > 100 {
        drag_state.last_start_time = now;
        drag_state.last_start_pos = cursor;
    }
    let n = world.speakis.len();
    let mut i: usize = 0;
    while i < n
        invariant
            i <= n,
            n == world.speakis@.len(),
            n == old(world).speakis@.len(),
            world.next_id == old(world).next_id,
            world.graph_len == old(world).graph_len,
            old(world).wf(),
            cursor.wf(),
            forall|k: int|
                0 <= k < i ==> #[trigger] world.speakis@[k] == carried(
                    old(world).speakis@[k],
                    cursor,
                ),
            forall|k: int| i <= k < n ==> #[trigger] world.speakis@[k] == old(world).speakis@[k],
        decreases n - i,
    {
        let s = world.speakis[i];
        if s.dragged {
            world.speakis.set(i, Speaki { pos: cursor, vel: Velocity { x: 0, y: 0 }, ..s });
        }
        i = i + 1;
    }
}

/// The throw velocity of a release: the drag displacement divided by the
/// elapsed time as a multiple of 50 ms (floored at one thousandth of a
/// second, so an instantaneous release throws a thousandfold), scaled by
/// the per-mille throw power.
pub open spec fn throw_component(delta: int, elapsed_ms: int, power: i64) -> int {
    let v = if elapsed_ms <= 0 {
        sat(delta * 1000)
    } else {
        sat(tdiv(delta * 50, elapsed_ms))
    };
    sat(tdiv(v * power, 1000))
}

/// A released entity: thrown with the computed velocity, idle timer
/// restarted, no longer dragged.
pub open spec fn released(s: Speaki, vx: int, vy: int, now: u64) -> Speaki {
    if s.dragged {
        Speaki {
            vel: Velocity { x: vx as i64, y: vy as i64 },
            idle: IdleVoiceTimer { last_idle_time: now, ..s.idle },
            dragged: false,
            ..s
        }
    } else {
        s
    }
}

/// Release the drag: compute the throw velocity from the pointer's motion
/// since the drag reference, give it to the held entity, restart its idle
/// timer, and clear the drag.
pub fn drag_release_system(
    world: &mut World,
    drag_state: &mut DragState,
    physics: &PhysicsConfig,
    cursor: Vec2,
    now: u64,
)
    requires
        old(world).wf(),
        old(drag_state).wf(),
        physics.wf(),
        cursor.wf(),
        now <= 1_000_000_000_000_000,
    ensures
        final(world).wf(),
        final(world).next_id == old(world).next_id,
        final(world).graph_len == old(world).graph_len,
        final(world).speakis@.len() == old(world).speakis@.len(),
        final(drag_state).wf(),
        !old(drag_state).is_dragging ==> *final(world) == *old(world) && *final(drag_state) == *old(
            drag_state,
        ),
        old(drag_state).is_dragging ==> {
            let elapsed: int = if now > old(drag_state).last_start_time {
                now - old(drag_state).last_start_time
            } else {
                0
            };
            let vx = throw_component(
                sat(cursor.x - old(drag_state).last_start_pos.x),
                elapsed,
                physics.cursor_throwing_power,
            );
            let vy = throw_component(
                sat(cursor.y - old(drag_state).last_start_pos.y),
                elapsed,
                physics.cursor_throwing_power,
            );
            &&& *final(drag_state) == (DragState {
                is_dragging: false,
                dragged_entity: None::<u64>,
                ..*old(drag_state)
            })
            &&& forall|i: int|
                0 <= i < old(world).speakis@.len() ==> #[trigger] final(world).speakis@[i]
                    == released(old(world).speakis@[i], vx, vy, now)
        },
{
    if !drag_state.is_dragging {
        return ;
    }
    let elapsed: u64 = if now > drag_state.last_start_time {
        now - drag_state.last_start_time
    } else {
        0
    };
    let dx = sat_sub(cursor.x, drag_state.last_start_pos.x);
    let dy = sat_sub(cursor.y, drag_state.last_start_pos.y);
    let vx0 = if elapsed == 0 {
        crate::fx::muldiv(dx, 1000, 1)
    } else {
        crate::fx::muldiv(dx, 50, elapsed as i64)
    };
    let vy0 = if elapsed == 0 {
        crate::fx::muldiv(dy, 1000, 1)
    } else {
        crate::fx::muldiv(dy, 50, elapsed as i64)
    };
    let vx = scale_milli(vx0, physics.cursor_throwing_power);
    let vy = scale_milli(vy0, physics.cursor_throwing_power);
    drag_state.is_dragging = false;
    drag_state.dragged_entity = None;
    let n = world.speakis.len();
    let mut i: usize = 0;
    while i < n
        invariant
            i <= n,
            n == world.speakis@.len(),
            n == old(world).speakis@.len(),
            world.next_id == old(world).next_id,
            world.graph_len == old(world).graph_len,
            old(world).wf(),
            in_range(vx as int),
            in_range(vy as int),
            forall|k: int|
                0 <= k < i ==> #[trigger] world.speakis@[k] == released(
                    old(world).speakis@[k],
                    vx as int,
                    vy as int,
                    now,
                ),
            forall|k: int| i <= k < n ==> #[trigger] world.speakis@[k] == old(world).speakis@[k],
        decreases n - i,
    {
        let s = world.speakis[i];
        if s.dragged {
            world.speakis.set(
                i,
                Speaki {
                    vel: Velocity { x: vx, y: vy },
                    idle: IdleVoiceTimer { last_idle_time: now, ..s.idle },
                    dragged: false,
                    ..s
                },
            );
        }
        i = i + 1;
    }
}

/// The remove voice request for entity `id`, under draw `d`.
pub open spec fn remove_voice_event(
    voice_groups: VoiceGroups,
    audio: AudioConfig,
    id: u64,
    d: u32,
) -> PlayVoiceEvent {
    PlayVoiceEvent {
        entity: Some(id),
        voice_index: voice_groups.remove@[d as int % voice_groups.remove@.len() as int],
        volume: audio.remove_volume,
    }
}

/// A secondary press at `cursor`: on the topmost hit entity, ask for its
/// removal and a remove voice (chosen by the draw).
pub fn right_click_delete(
    world: &World,
    voice_groups: &VoiceGroups,
    audio_config: &AudioConfig,
    bus: &mut RequestBus,
    cursor: Vec2,
    draw: u32,
)
    requires
        world.wf(),
        cursor.wf(),
    ensures
        final(bus).spawns@ == old(bus).spawns@,
        final(bus).bounces@ == old(bus).bounces@,
        final(bus).merges@ == old(bus).merges@,
        final(bus).shockwaves@ == old(bus).shockwaves@,
        match topmost_hit(world.speakis@, cursor) {
            Some(h) => {
                &&& final(bus).despawns@ == old(bus).despawns@.push(
                    DespawnSpeakiEvent { entity: world.speakis@[h].id },
                )
                &&& final(bus).voices@ == old(bus).voices@ + (if voice_groups.remove@.len() > 0 {
                    seq![remove_voice_event(*voice_groups, *audio_config, world.speakis@[h].id, draw)]
                } else {
                    Seq::empty()
                })
            },
            None => final(bus).despawns@ == old(bus).despawns@ && final(bus).voices@ == old(
                bus,
            ).voices@,
        },
{
    let hit = topmost_hit_exec(world, cursor);
    match hit {
        Some(i) => {
            let id = world.speakis[i].id;
            bus.despawns.push(DespawnSpeakiEvent { entity: id });
            if voice_groups.remove.len() > 0 {
                let vi = voice_groups.remove[draw as usize % voice_groups.remove.len()];
                bus.voices.push(
                    PlayVoiceEvent {
                        entity: Some(id),
                        voice_index: vi,
                        volume: audio_config.remove_volume,
                    },
                );
                proof {
                    assert(bus.voices@ =~= old(bus).voices@ + seq![
                        remove_voice_event(
                            *voice_groups,
                            *audio_config,
                            world.speakis@[i as int].id,
                            draw,
                        ),
                    ]);
                }
            }
        },
        None => {},
    }
}

/// Secondary press with a fresh random draw for the remove voice.
pub fn right_click_delete_system(
    world: &World,
    voice_groups: &VoiceGroups,
    audio_config: &AudioConfig,
    bus: &mut RequestBus,
    cursor: Vec2,
)
    requires
        world.wf(),
        cursor.wf(),
    ensures
        final(bus).spawns@ == old(bus).spawns@,
        final(bus).bounces@ == old(bus).bounces@,
        final(bus).merges@ == old(bus).merges@,
        final(bus).shockwaves@ == old(bus).shockwaves@,
        match topmost_hit(world.speakis@, cursor) {
            Some(h) => {
                &&& final(bus).despawns@ == old(bus).despawns@.push(
                    DespawnSpeakiEvent { entity: world.speakis@[h].id },
                )
                &&& (voice_groups.remove@.len() == 0 ==> final(bus).voices@ == old(bus).voices@)
                &&& (voice_groups.remove@.len() > 0 ==> final(bus).voices@.len() == old(
                    bus,
                ).voices@.len() + 1 && (exists|d: u32|
                    d < 1000 && final(bus).voices@.last() == #[trigger] remove_voice_event(
                        *voice_groups,
                        *audio_config,
                        world.speakis@[h].id,
                        d,
                    )) && final(bus).voices@.take(old(bus).voices@.len() as int) == old(
                    bus,
                ).voices@)
            },
            None => final(bus).despawns@ == old(bus).despawns@ && final(bus).voices@ == old(
                bus,
            ).voices@,
        },
{
    let draw = crate::rng::random_milli();
    right_click_delete(world, voice_groups, audio_config, bus, cursor, draw);
    proof {
        match topmost_hit(world.speakis@, cursor) {
            Some(h) => {
                if voice_groups.remove@.len() > 0 {
                    assert(bus.voices@.last() == remove_voice_event(
                        *voice_groups,
                        *audio_config,
                        world.speakis@[h].id,
                        draw,
                    ));
                    assert(bus.voices@.take(old(bus).voices@.len() as int) =~= old(bus).voices@);
                }
            },
            None => {},
        }
    }
}

/// A spawned entity looks like a fresh one under some timer draws, with
/// the given drag flag.
pub open spec fn spawned_like(
    s: Speaki,
    id: u64,
    position: Vec2,
    velocity: Velocity,
    size: i64,
    dragged: bool,
) -> bool {
    exists|r: u32, b: u32, d: u32|
        r < 1000 && b < 1000 && d < 1000 && s == (Speaki {
            dragged,
            ..#[trigger] new_speaki_spec(id, position, velocity, size, r, b, d)
        })
}

/// Realize the pending spawn requests: each becomes a fresh entity of the
/// configured size at the requested position and velocity. If a drag is
/// waiting for its entity (a click on empty space), the first spawned
/// entity is attached to it.
pub fn spawn_speaki_system(
    world: &mut World,
    drag_state: &mut DragState,
    config: &GameConfig,
    requests: &Vec<SpawnSpeakiEvent>,
)
    requires
        old(world).wf(),
        config.wf(),
        old(world).next_id + requests@.len() < 0xffff_ffff_ffff_ffff,
        forall|k: int|
            0 <= k < requests@.len() ==> (#[trigger] requests@[k]).position.wf()
                && requests@[k].velocity.wf(),
    ensures
        final(world).wf(),
        final(world).graph_len == old(world).graph_len,
        final(world).next_id == old(world).next_id + requests@.len(),
        final(world).speakis@.len() == old(world).speakis@.len() + requests@.len(),
        forall|i: int|
            0 <= i < old(world).speakis@.len() ==> #[trigger] final(world).speakis@[i] == old(
                world,
            ).speakis@[i],
        forall|k: int|
            0 <= k < requests@.len() ==> spawned_like(
                #[trigger] final(world).speakis@[old(world).speakis@.len() + k],
                (old(world).next_id + k) as u64,
                requests@[k].position,
                requests@[k].velocity,
                config.speaki_size,
                k == 0 && old(drag_state).is_dragging && old(drag_state).dragged_entity is None,
            ),
        final(drag_state).is_dragging == old(drag_state).is_dragging,
        final(drag_state).last_start_pos == old(drag_state).last_start_pos,
        final(drag_state).last_start_time == old(drag_state).last_start_time,
        final(drag_state).last_click_time == old(drag_state).last_click_time,
        final(drag_state).dragged_entity == (if old(drag_state).is_dragging && old(
            drag_state,
        ).dragged_entity is None && requests@.len() > 0 {
            Some(old(world).next_id)
        } else {
            old(drag_state).dragged_entity
        }),
{
    let m = requests.len();
    let mut k: usize = 0;
    while k < m
        invariant
            k <= m,
            m == requests@.len(),
            world.wf(),
            config.wf(),
            old(world).wf(),
            world.graph_len == old(world).graph_len,
            old(world).next_id + requests@.len() < 0xffff_ffff_ffff_ffff,
            world.next_id == old(world).next_id + k,
            world.speakis@.len() == old(world).speakis@.len() + k,
            forall|q: int|
                0 <= q < requests@.len() ==> (#[trigger] requests@[q]).position.wf()
                    && requests@[q].velocity.wf(),
            forall|i: int|
                0 <= i < old(world).speakis@.len() ==> #[trigger] world.speakis@[i] == old(
                    world,
                ).speakis@[i],
            forall|q: int|
                0 <= q < k ==> spawned_like(
                    #[trigger] world.speakis@[old(world).speakis@.len() + q],
                    (old(world).next_id + q) as u64,
                    requests@[q].position,
                    requests@[q].velocity,
                    config.speaki_size,
                    q == 0 && old(drag_state).is_dragging && old(drag_state).dragged_entity
                        is None,
                ),
            drag_state.is_dragging == old(drag_state).is_dragging,
            drag_state.last_start_pos == old(drag_state).last_start_pos,
            drag_state.last_start_time == old(drag_state).last_start_time,
            drag_state.last_click_time == old(drag_state).last_click_time,
            drag_state.dragged_entity == (if old(drag_state).is_dragging && old(
                drag_state,
            ).dragged_entity is None && k > 0 {
                Some(old(world).next_id)
            } else {
                old(drag_state).dragged_entity
            }),
        decreases m - k,
    {
        let ev = requests[k];
        let attach = drag_state.is_dragging && drag_state.dragged_entity.is_none();
        let id = world.spawn_speaki(ev.position, ev.velocity, config.speaki_size);
        if attach {
            drag_state.dragged_entity = Some(id);
            let idx = world.speakis.len() - 1;
            let s = world.speakis[idx];
            world.speakis.set(idx, Speaki { dragged: true, ..s });
        }
        proof {
            let q = k as int;
            let ws = world.speakis@;
            let at = old(world).speakis@.len() + q;
            assert(spawned_like(
                ws[at],
                (old(world).next_id + q) as u64,
                requests@[q].position,
                requests@[q].velocity,
                config.speaki_size,
                q == 0 && old(drag_state).is_dragging && old(drag_state).dragged_entity is None,
            ));
        }
        k = k + 1;
    }
}

/// Realize the pending despawn requests, in order.
pub fn despawn_speaki_system(world: &mut World, requests: &Vec<DespawnSpeakiEvent>)
    requires
        old(world).wf(),
    ensures
        final(world).wf(),
        final(world).next_id == old(world).next_id,
        final(world).graph_len == old(world).graph_len,
        final(world).speakis@ == despawn_fold(old(world).speakis@, requests@, requests@.len() as int),
{
    let m = requests.len();
    let mut k: usize = 0;
    while k < m
        invariant
            k <= m,
            m == requests@.len(),
            world.wf(),
            world.next_id == old(world).next_id,
            world.graph_len == old(world).graph_len,
            old(world).wf(),
            world.speakis@ == despawn_fold(old(world).speakis@, requests@, k as int),
        decreases m - k,
    {
        let ev = requests[k];
        world.despawn_speaki(ev.entity);
        k = k + 1;
    }
}

/// The store after the first `k` despawn requests, in order.
pub open spec fn despawn_fold(
    ws: Seq<Speaki>,
    reqs: Seq<DespawnSpeakiEvent>,
    k: int,
) -> Seq<Speaki>
    decreases k,
{
    if k <= 0 {
        ws
    } else {
        remove_id(despawn_fold(ws, reqs, k - 1), reqs[k - 1].entity)
    }
}

} // verus!
