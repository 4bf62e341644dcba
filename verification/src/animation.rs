//! The animation automaton: the per-entity eye-blink state machine and the
//! expression overrides (sad while dragged or after a hard bounce, default
//! on release). Transitions follow the sprite-state graph's edges; a
//! missing edge silently skips the transition.

use vstd::prelude::*;
use vstd::pervasive::VecAdditionalExecFns;

use crate::components::{BlinkTimer, Speaki, SpriteState};
use crate::resources::GameConfig;
use crate::sprites::{ImageGroups, SpriteAssets};
use crate::world::World;

verus! {

/// One blink tick for one entity, under two per-mille draws: `cd` seeds
/// the next long cooldown, `dd` decides the double-blink chance.
///
/// While the eyes are closed: once the open-duration has elapsed, reopen
/// along the eye-open edge; a flagged double-blink makes the next cooldown
/// exactly 70 ms, otherwise it is `5000 + 5·cd` ms — between 5 and 10
/// seconds. While open: once the cooldown has elapsed, close along the
/// eye-close edge for 100 ms, and — only after a long cooldown — flag a
/// double-blink with probability one fifth (`dd >= 800`).
pub open spec fn blink_step(
    idx: int,
    b: BlinkTimer,
    g: SpriteAssets,
    now: u64,
    cd: u32,
    dd: u32,
) -> (int, BlinkTimer) {
    if b.is_blinking {
        if now > b.last_blink_time + b.blink_open_time {
            let idx2 = g.eye_open_target(idx);
            if b.double_blink {
                (
                    idx2,
                    BlinkTimer {
                        last_blink_time: now,
                        blink_cooldown: 70u64,
                        blink_open_time: b.blink_open_time,
                        is_blinking: false,
                        double_blink: false,
                    },
                )
            } else {
                (
                    idx2,
                    BlinkTimer {
                        last_blink_time: now,
                        blink_cooldown: (5000 + 5 * cd) as u64,
                        blink_open_time: b.blink_open_time,
                        is_blinking: false,
                        double_blink: b.double_blink,
                    },
                )
            }
        } else {
            (idx, b)
        }
    } else {
        if now > b.last_blink_time + b.blink_cooldown {
            let idx2 = g.eye_close_target(idx);
            (
                idx2,
                BlinkTimer {
                    last_blink_time: now,
                    blink_cooldown: b.blink_cooldown,
                    blink_open_time: 100u64,
                    is_blinking: true,
                    double_blink: if b.blink_cooldown > 100 && dd >= 800 {
                        true
                    } else {
                        b.double_blink
                    },
                },
            )
        } else {
            (idx, b)
        }
    }
}

/// Length of a draw vector.
fn draws_len(v: &Vec<u32>) -> (n: usize)
    ensures
        n == v@.len(),
{
    v.len()
}

/// One blink tick for one entity.
pub fn blink_step_exec(s: Speaki, g: &SpriteAssets, now: u64, cd: u32, dd: u32) -> (r: Speaki)
    requires
        g.wf(),
        s.sprite.current_index < g.len_spec(),
        cd < 1000,
        now <= 0x7fff_ffff_ffff_ffff,
        s.blink.last_blink_time <= 0x7fff_ffff_ffff_ffff,
        s.blink.blink_cooldown <= 0x7fff_ffff_ffff_ffff,
        s.blink.blink_open_time <= 0x7fff_ffff_ffff_ffff,
    ensures
        ({
            let (idx2, b2) = blink_step(s.sprite.current_index as int, s.blink, *g, now, cd, dd);
            r == (Speaki { sprite: SpriteState { current_index: idx2 as usize }, blink: b2, ..s })
        }),
        r.sprite.current_index < g.len_spec(),
{
    let b = s.blink;
    if b.is_blinking {
        if now > b.last_blink_time && now - b.last_blink_time > b.blink_open_time {
            let idx2 = g.step_eye_open(s.sprite.current_index);
            let cooldown: u64 = if b.double_blink {
                70
            } else {
                5000 + 5 * (cd as u64)
            };
            Speaki {
                sprite: SpriteState { current_index: idx2 },
                blink: BlinkTimer {
                    last_blink_time: now,
                    blink_cooldown: cooldown,
                    blink_open_time: b.blink_open_time,
                    is_blinking: false,
                    double_blink: false,
                },
                ..s
            }
        } else {
            s
        }
    } else {
        if now > b.last_blink_time && now - b.last_blink_time > b.blink_cooldown {
            let idx2 = g.step_eye_close(s.sprite.current_index);
            let dbl = if b.blink_cooldown > 100 && dd >= 800 {
                true
            } else {
                b.double_blink
            };
            Speaki {
                sprite: SpriteState { current_index: idx2 },
                blink: BlinkTimer {
                    last_blink_time: now,
                    blink_cooldown: b.blink_cooldown,
                    blink_open_time: 100,
                    is_blinking: true,
                    double_blink: dbl,
                },
                ..s
            }
        } else {
            s
        }
    }
}

/// The entity after one blink tick under some pair of per-mille draws.
pub open spec fn blink_stepped_somehow(pre: Speaki, post: Speaki, g: SpriteAssets, now: u64) -> bool {
    exists|cd: u32, dd: u32|
        cd < 1000 && dd < 1000 && {
            let (idx2, b2) = #[trigger] blink_step(
                pre.sprite.current_index as int,
                pre.blink,
                g,
                now,
                cd,
                dd,
            );
            post == (Speaki {
                sprite: SpriteState { current_index: idx2 as usize },
                blink: b2,
                ..pre
            })
        }
}

/// Deterministic blink pass: one blink tick per entity, consuming two
/// draws per entity. Skipped entirely when blinking is disabled or the
/// sprite set is not loaded.
pub fn blink_pass(
    world: &mut World,
    sprites: &SpriteAssets,
    config: &GameConfig,
    now: u64,
    draws: &Vec<u32>,
)
    requires
        old(world).wf(),
        sprites.wf(),
        sprites.len_spec() == old(world).graph_len,
        now <= 0x7fff_ffff_ffff_ffff,
        draws@.len() == 2 * old(world).speakis@.len(),
        forall|i: int| 0 <= i < draws@.len() ==> #[trigger] draws@[i] < 1000,
    ensures
        final(world).wf(),
        final(world).next_id == old(world).next_id,
        final(world).graph_len == old(world).graph_len,
        final(world).speakis@.len() == old(world).speakis@.len(),
        !(config.eye_blink_enabled && sprites.loaded) ==> final(world).speakis@ == old(
            world,
        ).speakis@,
        config.eye_blink_enabled && sprites.loaded ==> forall|i: int|
            0 <= i < old(world).speakis@.len() ==> ({
                let (idx2, b2) = blink_step(
                    old(world).speakis@[i].sprite.current_index as int,
                    old(world).speakis@[i].blink,
                    *sprites,
                    now,
                    draws@[2 * i],
                    draws@[2 * i + 1],
                );
                #[trigger] final(world).speakis@[i] == (Speaki {
                    sprite: SpriteState { current_index: idx2 as usize },
                    blink: b2,
                    ..old(world).speakis@[i]
                })
            }),
{
    if !(config.eye_blink_enabled && sprites.loaded) {
        return ;
    }
    let n = world.speakis.len();
    let dn = draws_len(draws);
    let mut i: usize = 0;
    while i < n
        invariant
            i <= n,
            n == world.speakis@.len(),
            n == old(world).speakis@.len(),
            2 * n == draws@.len(),
            dn == draws@.len(),
            world.next_id == old(world).next_id,
            world.graph_len == old(world).graph_len,
            old(world).wf(),
            sprites.wf(),
            sprites.len_spec() == old(world).graph_len,
            now <= 0x7fff_ffff_ffff_ffff,
            forall|k: int| 0 <= k < draws@.len() ==> #[trigger] draws@[k] < 1000,
            forall|k: int|
                0 <= k < i ==> ({
                    let (idx2, b2) = blink_step(
                        old(world).speakis@[k].sprite.current_index as int,
                        old(world).speakis@[k].blink,
                        *sprites,
                        now,
                        draws@[2 * k],
                        draws@[2 * k + 1],
                    );
                    #[trigger] world.speakis@[k] == (Speaki {
                        sprite: SpriteState { current_index: idx2 as usize },
                        blink: b2,
                        ..old(world).speakis@[k]
                    })
                }),
            forall|k: int| i <= k < n ==> #[trigger] world.speakis@[k] == old(world).speakis@[k],
        decreases n - i,
    {
        let s = world.speakis[i];
        proof {
            assert(old(world).speakis@[i as int].wf(old(world).graph_len as nat));
            assert(2 * i + 1 < draws@.len());
        }
        let s2 = blink_step_exec(s, sprites, now, draws[2 * i], draws[2 * i + 1]);
        world.speakis.set(i, s2);
        i = i + 1;
    }
}

/// Blink pass with fresh random draws.
pub fn blink_system(world: &mut World, sprites: &SpriteAssets, config: &GameConfig, now: u64)
    requires
        old(world).wf(),
        sprites.wf(),
        sprites.len_spec() == old(world).graph_len,
        now <= 0x7fff_ffff_ffff_ffff,
    ensures
        final(world).wf(),
        final(world).next_id == old(world).next_id,
        final(world).graph_len == old(world).graph_len,
        final(world).speakis@.len() == old(world).speakis@.len(),
        !(config.eye_blink_enabled && sprites.loaded) ==> final(world).speakis@ == old(
            world,
        ).speakis@,
        config.eye_blink_enabled && sprites.loaded ==> forall|i: int|
            0 <= i < old(world).speakis@.len() ==> blink_stepped_somehow(
                old(world).speakis@[i],
                #[trigger] final(world).speakis@[i],
                *sprites,
                now,
            ),
{
    let n = world.speakis.len();
    let mut draws: Vec<u32> = Vec::new();
    let mut i: usize = 0;
    while i < n
        invariant
            i <= n,
            draws@.len() == 2 * i,
            forall|k: int| 0 <= k < draws@.len() ==> #[trigger] draws@[k] < 1000,
        decreases n - i,
    {
        draws.push(crate::rng::random_milli());
        draws.push(crate::rng::random_milli());
        i = i + 1;
    }
    blink_pass(world, sprites, config, now, &draws);
    proof {
        if config.eye_blink_enabled && sprites.loaded {
            assert forall|k: int| 0 <= k < old(world).speakis@.len() implies blink_stepped_somehow(
                old(world).speakis@[k],
                #[trigger] world.speakis@[k],
                *sprites,
                now,
            ) by {
                let cd0 = draws@[2 * k];
                let dd0 = draws@[2 * k + 1];
                let (idx2, b2) = blink_step(
                    old(world).speakis@[k].sprite.current_index as int,
                    old(world).speakis@[k].blink,
                    *sprites,
                    now,
                    cd0,
                    dd0,
                );
                assert(world.speakis@[k] == (Speaki {
                    sprite: SpriteState { current_index: idx2 as usize },
                    blink: b2,
                    ..old(world).speakis@[k]
                }));
            }
        }
    }
}

/// Force a random sad expression on one entity — used when it is grabbed
/// and when it bounces hard. With an empty sad group nothing changes.
pub fn change_to_sad_system(world: &mut World, image_groups: &ImageGroups, id: u64, draw: u32) -> (changed: bool)
    requires
        old(world).wf(),
        image_groups.wf(old(world).graph_len as nat),
    ensures
        final(world).wf(),
        final(world).next_id == old(world).next_id,
        final(world).graph_len == old(world).graph_len,
        final(world).speakis@.len() == old(world).speakis@.len(),
        image_groups.sad@.len() == 0 ==> final(world).speakis@ == old(world).speakis@,
        image_groups.sad@.len() > 0 ==> forall|i: int|
            0 <= i < old(world).speakis@.len() ==> #[trigger] final(world).speakis@[i] == (
            if old(world).speakis@[i].id == id {
                Speaki {
                    sprite: SpriteState {
                        current_index: image_groups.sad@[draw as int % image_groups.sad@.len() as int],
                    },
                    ..old(world).speakis@[i]
                }
            } else {
                old(world).speakis@[i]
            }),
        changed <==> image_groups.sad@.len() > 0 && exists|i: int|
            0 <= i < old(world).speakis@.len() && (#[trigger] old(world).speakis@[i]).id == id,
{
    if image_groups.sad.len() == 0 {
        return false;
    }
    let pick = image_groups.sad[draw as usize % image_groups.sad.len()];
    let n = world.speakis.len();
    let mut i: usize = 0;
    let mut changed = false;
    while i < n
        invariant
            i <= n,
            n == world.speakis@.len(),
            n == old(world).speakis@.len(),
            world.next_id == old(world).next_id,
            world.graph_len == old(world).graph_len,
            old(world).wf(),
            image_groups.wf(old(world).graph_len as nat),
            image_groups.sad@.len() > 0,
            pick == image_groups.sad@[draw as int % image_groups.sad@.len() as int],
            pick < old(world).graph_len,
            forall|k: int|
                0 <= k < i ==> #[trigger] world.speakis@[k] == (
                if old(world).speakis@[k].id == id {
                    Speaki {
                        sprite: SpriteState { current_index: pick },
                        ..old(world).speakis@[k]
                    }
                } else {
                    old(world).speakis@[k]
                }),
            forall|k: int| i <= k < n ==> #[trigger] world.speakis@[k] == old(world).speakis@[k],
            changed <==> exists|k: int|
                0 <= k < i && (#[trigger] old(world).speakis@[k]).id == id,
        decreases n - i,
    {
        let s = world.speakis[i];
        if s.id == id {
            world.speakis.set(i, Speaki { sprite: SpriteState { current_index: pick }, ..s });
            changed = true;
        }
        i = i + 1;
    }
    changed
}

/// Reset one entity's expression to the default index — used when a drag
/// ends.
pub fn change_to_normal_system(world: &mut World, id: u64)
    requires
        old(world).wf(),
    ensures
        final(world).wf(),
        final(world).next_id == old(world).next_id,
        final(world).graph_len == old(world).graph_len,
        final(world).speakis@.len() == old(world).speakis@.len(),
        forall|i: int|
            0 <= i < old(world).speakis@.len() ==> #[trigger] final(world).speakis@[i] == (
            if old(world).speakis@[i].id == id {
                Speaki { sprite: SpriteState { current_index: 0 }, ..old(world).speakis@[i] }
            } else {
                old(world).speakis@[i]
            }),
{
    let n = world.speakis.len();
    let mut i: usize = 0;
    while i < n
        invariant
            i <= n,
            n == world.speakis@.len(),
            n == old(world).speakis@.len(),
            world.next_id == old(world).next_id,
            world.graph_len == old(world).graph_len,
            old(world).wf(),
            forall|k: int|
                0 <= k < i ==> #[trigger] world.speakis@[k] == (
                if old(world).speakis@[k].id == id {
                    Speaki {
                        sprite: SpriteState { current_index: 0 },
                        ..old(world).speakis@[k]
                    }
                } else {
                    old(world).speakis@[k]
                }),
            forall|k: int| i <= k < n ==> #[trigger] world.speakis@[k] == old(world).speakis@[k],
        decreases n - i,
    {
        let s = world.speakis[i];
        if s.id == id {
            world.speakis.set(i, Speaki { sprite: SpriteState { current_index: 0 }, ..s });
        }
        i = i + 1;
    }
}

/// Blink cycle timing: closing sets the closed duration to exactly 100 ms
/// and reopening happens at the first tick strictly past it; the cooldown
/// after reopening is exactly 70 ms when a double-blink was flagged, and
/// otherwise lies in [5000, 10000) ms, whatever the draws were.
pub proof fn lemma_blink_cycle(idx: int, b: BlinkTimer, g: SpriteAssets, now1: u64, now2: u64, cd1: u32, dd1: u32, cd2: u32, dd2: u32)
    requires
        !b.is_blinking,
        now1 > b.last_blink_time + b.blink_cooldown,
        cd2 < 1000,
    ensures
        ({
            let (idx_c, b_c) = blink_step(idx, b, g, now1, cd1, dd1);
            &&& b_c.is_blinking
            &&& b_c.blink_open_time == 100
            &&& b_c.last_blink_time == now1
            &&& (now2 <= now1 + 100 ==> blink_step(idx_c, b_c, g, now2, cd2, dd2) == (idx_c, b_c))
            &&& (now2 > now1 + 100 ==> {
                let (idx_o, b_o) = blink_step(idx_c, b_c, g, now2, cd2, dd2);
                &&& !b_o.is_blinking
                &&& (b_c.double_blink ==> b_o.blink_cooldown == 70)
                &&& (!b_c.double_blink ==> 5000 <= b_o.blink_cooldown < 10000)
            })
        }),
{
}


/// One drag-edge tick for one entity, against the set of ids that were
/// dragged last tick: becoming dragged forces a random sad expression,
/// ceasing to be dragged resets to the default index, and a steady flag
/// changes nothing.
pub open spec fn drag_edge_step(s: Speaki, was: bool, images: ImageGroups, draw: u32) -> Speaki {
    if s.dragged && !was {
        match crate::voice::bounce_sad_pick(images, draw) {
            Some(p) => Speaki { sprite: SpriteState { current_index: p }, ..s },
            None => s,
        }
    } else if !s.dragged && was {
        Speaki { sprite: SpriteState { current_index: 0 }, ..s }
    } else {
        s
    }
}

/// The ids of the dragged entities among the first `i`, in store order.
pub open spec fn dragged_ids_upto(ws: Seq<Speaki>, i: int) -> Seq<u64>
    decreases i,
{
    if i <= 0 {
        Seq::empty()
    } else {
        dragged_ids_upto(ws, i - 1) + (if ws[i - 1].dragged {
            seq![ws[i - 1].id]
        } else {
            Seq::empty()
        })
    }
}

/// Collect the ids of the currently dragged entities, for the next tick's
/// edge detection.
pub fn dragged_ids(world: &World) -> (r: Vec<u64>)
    ensures
        r@ == dragged_ids_upto(world.speakis@, world.speakis@.len() as int),
{
    let n = world.speakis.len();
    let mut out: Vec<u64> = Vec::new();
    let mut i: usize = 0;
    while i < n
        invariant
            i <= n,
            n == world.speakis@.len(),
            out@ == dragged_ids_upto(world.speakis@, i as int),
        decreases n - i,
    {
        let s = world.speakis[i];
        if s.dragged {
            out.push(s.id);
        }
        proof {
            assert(out@ =~= dragged_ids_upto(world.speakis@, i + 1));
        }
        i = i + 1;
    }
    out
}

/// Whether `id` stands in the previous tick's dragged list.
fn id_in(prev: &Vec<u64>, id: u64) -> (r: bool)
    ensures
        r == prev@.contains(id),
{
    let n = prev.len();
    let mut i: usize = 0;
    while i < n
        invariant
            i <= n,
            n == prev@.len(),
            forall|k: int| 0 <= k < i ==> prev@[k] != id,
        decreases n - i,
    {
        if prev[i] == id {
            return true;
        }
        i = i + 1;
    }
    false
}

/// Deterministic drag-edge pass: compare each entity's drag flag against
/// the previous tick's dragged ids and apply the expression overrides,
/// one draw per entity for the sad pick.
pub fn drag_expression_pass(
    world: &mut World,
    image_groups: &ImageGroups,
    prev: &Vec<u64>,
    draws: &Vec<u32>,
)
    requires
        old(world).wf(),
        image_groups.wf(old(world).graph_len as nat),
        draws@.len() == old(world).speakis@.len(),
    ensures
        final(world).wf(),
        final(world).next_id == old(world).next_id,
        final(world).graph_len == old(world).graph_len,
        final(world).speakis@.len() == old(world).speakis@.len(),
        forall|i: int|
            0 <= i < old(world).speakis@.len() ==> #[trigger] final(world).speakis@[i]
                == drag_edge_step(
                old(world).speakis@[i],
                prev@.contains(old(world).speakis@[i].id),
                *image_groups,
                draws@[i],
            ),
{
    let n = world.speakis.len();
    let mut i: usize = 0;
    while i < n
        invariant
            i <= n,
            n == world.speakis@.len(),
            n == old(world).speakis@.len(),
            n == draws@.len(),
            world.next_id == old(world).next_id,
            world.graph_len == old(world).graph_len,
            old(world).wf(),
            image_groups.wf(old(world).graph_len as nat),
            forall|k: int|
                0 <= k < i ==> #[trigger] world.speakis@[k] == drag_edge_step(
                    old(world).speakis@[k],
                    prev@.contains(old(world).speakis@[k].id),
                    *image_groups,
                    draws@[k],
                ),
            forall|k: int| i <= k < n ==> #[trigger] world.speakis@[k] == old(world).speakis@[k],
        decreases n - i,
    {
        let s = world.speakis[i];
        proof {
            assert(old(world).speakis@[i as int].wf(old(world).graph_len as nat));
        }
        let was = id_in(prev, s.id);
        if s.dragged && !was {
            if image_groups.sad.len() > 0 {
                let p = image_groups.sad[draws[i] as usize % image_groups.sad.len()];
                world.speakis.set(i, Speaki { sprite: SpriteState { current_index: p }, ..s });
            }
        } else if !s.dragged && was {
            world.speakis.set(i, Speaki { sprite: SpriteState { current_index: 0 }, ..s });
        }
        i = i + 1;
    }
}

/// The entity after one drag-edge tick under some sad-pick draw.
pub open spec fn drag_edge_somehow(pre: Speaki, post: Speaki, was: bool, images: ImageGroups) -> bool {
    exists|d: u32| post == #[trigger] drag_edge_step(pre, was, images, d)
}

/// Drag-edge pass with fresh random draws.
pub fn drag_expression_system(world: &mut World, image_groups: &ImageGroups, prev: &Vec<u64>)
    requires
        old(world).wf(),
        image_groups.wf(old(world).graph_len as nat),
    ensures
        final(world).wf(),
        final(world).next_id == old(world).next_id,
        final(world).graph_len == old(world).graph_len,
        final(world).speakis@.len() == old(world).speakis@.len(),
        forall|i: int|
            0 <= i < old(world).speakis@.len() ==> drag_edge_somehow(
                old(world).speakis@[i],
                #[trigger] final(world).speakis@[i],
                prev@.contains(old(world).speakis@[i].id),
                *image_groups,
            ),
{
    let n = world.speakis.len();
    let mut draws: Vec<u32> = Vec::new();
    let mut i: usize = 0;
    while i < n
        invariant
            i <= n,
            draws@.len() == i,
        decreases n - i,
    {
        draws.push(crate::rng::random_milli());
        i = i + 1;
    }
    drag_expression_pass(world, image_groups, prev, &draws);
    proof {
        assert forall|k: int| 0 <= k < old(world).speakis@.len() implies drag_edge_somehow(
            old(world).speakis@[k],
            #[trigger] world.speakis@[k],
            prev@.contains(old(world).speakis@[k].id),
            *image_groups,
        ) by {
            let d0 = draws@[k];
            assert(world.speakis@[k] == drag_edge_step(
                old(world).speakis@[k],
                prev@.contains(old(world).speakis@[k].id),
                *image_groups,
                d0,
            ));
        }
    }
}

} // verus!
