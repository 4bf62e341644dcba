//! The entity store: the set of live speakis, with spawn and despawn.
//! Entities carry stable identities; the store keeps spawn order, so the
//! topmost entity for hit-testing is the last one.

use vstd::prelude::*;

use crate::components::{
    BlinkTimer, CurrentAudio, IdleVoiceTimer, RotationState, Shiny, Speaki, SpeakiSize, SpriteState,
    Vec2, Velocity,
};
use crate::fx::{sat, scale_milli, tdiv, COORD_LIMIT};
use crate::rng::random_milli;

verus! {

/// The store of live entities.
pub struct World {
    pub speakis: Vec<Speaki>,
    /// Identity for the next spawned entity; larger than every live id.
    pub next_id: u64,
    /// Number of nodes of the sprite-state graph the entities animate over.
    pub graph_len: usize,
}

impl World {
    /// Every entity is well-formed against the graph, ids are unique, and
    /// every id is below `next_id`.
    pub open spec fn wf(self) -> bool {
        &&& self.graph_len >= 1
        &&& forall|i: int| 0 <= i < self.speakis@.len() ==> (#[trigger] self.speakis@[i]).wf(
            self.graph_len as nat,
        )
        &&& forall|i: int| 0 <= i < self.speakis@.len() ==> (#[trigger] self.speakis@[i]).id
            < self.next_id
        &&& forall|i: int, j: int|
            0 <= i < self.speakis@.len() && 0 <= j < self.speakis@.len() && i != j ==> (
            #[trigger] self.speakis@[i]).id != (#[trigger] self.speakis@[j]).id
    }

    /// An empty store for a graph of `graph_len` nodes.
    pub fn new(graph_len: usize) -> (w: World)
        requires
            graph_len >= 1,
        ensures
            w.wf(),
            w.speakis@.len() == 0,
            w.next_id == 0,
            w.graph_len == graph_len,
    {
        World { speakis: Vec::new(), next_id: 0, graph_len }
    }

    pub fn len(&self) -> (n: usize)
        ensures
            n == self.speakis@.len(),
    {
        self.speakis.len()
    }

    /// Read one entity.
    pub fn get(&self, i: usize) -> (s: Speaki)
        requires
            i < self.speakis@.len(),
        ensures
            s == self.speakis@[i as int],
    {
        self.speakis[i]
    }

    /// The index holding `id`, if the entity is alive.
    pub fn index_of(&self, id: u64) -> (r: Option<usize>)
        ensures
            match r {
                Some(i) => find_id(self.speakis@, id) == Some(i as int) && i
                    < self.speakis@.len() && self.speakis@[i as int].id == id,
                None => find_id(self.speakis@, id) == None::<int> && forall|i: int|
                    0 <= i < self.speakis@.len() ==> (#[trigger] self.speakis@[i]).id != id,
            },
    {
        let n = self.speakis.len();
        let mut i: usize = 0;
        while i < n
            invariant
                i <= n,
                n == self.speakis@.len(),
                forall|k: int| 0 <= k < i ==> (#[trigger] self.speakis@[k]).id != id,
            decreases n - i,
        {
            if self.speakis[i].id == id {
                proof {
                    lemma_find_id_skip(self.speakis@, id, i as int);
                }
                return Some(i);
            }
            i = i + 1;
        }
        proof {
            lemma_find_id_skip(self.speakis@, id, n as int);
        }
        None
    }
}

/// The first index holding `id`, at or after `i`.
pub open spec fn find_id_from(ws: Seq<Speaki>, id: u64, i: int) -> Option<int>
    decreases ws.len() - i,
{
    if i < 0 || i >= ws.len() {
        None
    } else if ws[i].id == id {
        Some(i)
    } else {
        find_id_from(ws, id, i + 1)
    }
}

/// The first index holding `id`, if any.
pub open spec fn find_id(ws: Seq<Speaki>, id: u64) -> Option<int> {
    find_id_from(ws, id, 0)
}

/// The store with the entity holding `id` removed, order kept; unchanged
/// if no entity holds it.
pub open spec fn remove_id(ws: Seq<Speaki>, id: u64) -> Seq<Speaki> {
    match find_id(ws, id) {
        Some(i) => ws.remove(i),
        None => ws,
    }
}

proof fn lemma_find_id_skip(ws: Seq<Speaki>, id: u64, i: int)
    requires
        0 <= i <= ws.len(),
        forall|k: int| 0 <= k < i ==> (#[trigger] ws[k]).id != id,
    ensures
        find_id(ws, id) == find_id_from(ws, id, i),
    decreases i,
{
    if i > 0 {
        lemma_find_id_skip(ws, id, i - 1);
    }
}

/// A freshly spawned entity: default sprite state, timers seeded from the
/// three given per-mille draws, not dragged, not shiny, no sound playing.
pub open spec fn new_speaki_spec(
    id: u64,
    position: Vec2,
    velocity: Velocity,
    size: i64,
    rot_draw: u32,
    blink_draw: u32,
    idle_draw: u32,
) -> Speaki {
    Speaki {
        id,
        pos: position,
        vel: velocity,
        size: SpeakiSize(size),
        rot: RotationState { speed: (rot_draw - 500) as i64 },
        angle: 0,
        sprite: SpriteState { current_index: 0 },
        blink: BlinkTimer {
            last_blink_time: 0,
            blink_cooldown: (5000 + 5 * blink_draw) as u64,
            blink_open_time: 0,
            is_blinking: false,
            double_blink: false,
        },
        idle: IdleVoiceTimer { last_idle_time: 0, idle_cooldown: idle_draw },
        audio: CurrentAudio { handle: None },
        dragged: false,
        shiny: None::<Shiny>,
    }
}

impl World {
    /// Deterministic spawn: push a new entity built from the given draws.
    /// The rotation draw seeds an angular speed in `[-0.5, 0.5)`, the blink
    /// draw a cooldown in `[5, 10)` seconds, the idle draw the idle factor.
    pub fn spawn_speaki_with(
        &mut self,
        position: Vec2,
        velocity: Velocity,
        size: i64,
        rot_draw: u32,
        blink_draw: u32,
        idle_draw: u32,
    ) -> (id: u64)
        requires
            old(self).wf(),
            old(self).next_id < 0xffff_ffff_ffff_ffff,
            position.wf(),
            velocity.wf(),
            0 < size <= COORD_LIMIT,
            rot_draw < 1000,
            blink_draw < 1000,
            idle_draw < 1000,
        ensures
            final(self).wf(),
            id == old(self).next_id,
            final(self).next_id == old(self).next_id + 1,
            final(self).graph_len == old(self).graph_len,
            final(self).speakis@ == old(self).speakis@.push(
                new_speaki_spec(id, position, velocity, size, rot_draw, blink_draw, idle_draw),
            ),
    {
        let id = self.next_id;
        let s = Speaki {
            id,
            pos: position,
            vel: velocity,
            size: SpeakiSize(size),
            rot: RotationState { speed: rot_draw as i64 - 500 },
            angle: 0,
            sprite: SpriteState { current_index: 0 },
            blink: BlinkTimer {
                last_blink_time: 0,
                blink_cooldown: (5000 + 5 * blink_draw) as u64,
                blink_open_time: 0,
                is_blinking: false,
                double_blink: false,
            },
            idle: IdleVoiceTimer { last_idle_time: 0, idle_cooldown: idle_draw },
            audio: CurrentAudio { handle: None },
            dragged: false,
            shiny: None,
        };
        self.speakis.push(s);
        self.next_id = self.next_id + 1;
        id
    }

    /// Spawn with fresh random draws for the rotation speed, the blink
    /// cooldown and the idle factor.
    pub fn spawn_speaki(&mut self, position: Vec2, velocity: Velocity, size: i64) -> (id: u64)
        requires
            old(self).wf(),
            old(self).next_id < 0xffff_ffff_ffff_ffff,
            position.wf(),
            velocity.wf(),
            0 < size <= COORD_LIMIT,
        ensures
            final(self).wf(),
            id == old(self).next_id,
            final(self).next_id == old(self).next_id + 1,
            final(self).graph_len == old(self).graph_len,
            exists|r: u32, b: u32, d: u32|
                r < 1000 && b < 1000 && d < 1000 && final(self).speakis@ == old(
                    self,
                ).speakis@.push(new_speaki_spec(id, position, velocity, size, r, b, d)),
    {
        let rot_draw = random_milli();
        let blink_draw = random_milli();
        let idle_draw = random_milli();
        let id = self.spawn_speaki_with(position, velocity, size, rot_draw, blink_draw, idle_draw);
        proof {
            assert(self.speakis@ == old(self).speakis@.push(
                new_speaki_spec(id, position, velocity, size, rot_draw, blink_draw, idle_draw),
            ));
        }
        id
    }

    /// Remove the entity holding `id`, keeping the order of the others.
    pub fn despawn_speaki(&mut self, id: u64) -> (removed: bool)
        requires
            old(self).wf(),
        ensures
            final(self).wf(),
            final(self).next_id == old(self).next_id,
            final(self).graph_len == old(self).graph_len,
            final(self).speakis@ == remove_id(old(self).speakis@, id),
            removed <==> find_id(old(self).speakis@, id) is Some,
    {
        let idx = self.index_of(id);
        match idx {
            Some(i) => {
                self.speakis.remove(i);
                proof {
                    assert(old(self).speakis@[i as int].id == id);
                    assert(self.speakis@ == old(self).speakis@.remove(i as int));
                }
                true
            },
            None => false,
        }
    }
}


/// One seeded entity: a random position in the upper stretch of the window
/// (any horizontal spot, vertically in the top three fifths above forty
/// percent of the half-height), a small random velocity, and fresh timers.
pub open spec fn seeded_speaki(
    id: u64,
    hw: i64,
    hh: i64,
    size: i64,
    dx: u32,
    dy: u32,
    dvx: u32,
    dvy: u32,
    r: u32,
    b: u32,
    c: u32,
) -> Speaki {
    new_speaki_spec(
        id,
        Vec2 {
            x: sat(tdiv(hw * ((dx - 500) * 2), 1000)) as i64,
            y: sat(tdiv(hh * (400 + tdiv(600 * dy, 1000)), 1000)) as i64,
        },
        Velocity { x: ((dvx - 500) * 5) as i64, y: (dvy * 2) as i64 },
        size,
        r,
        b,
        c,
    )
}

/// The entity is a seeded one under some draws.
pub open spec fn seeded_somehow(s: Speaki, id: u64, hw: i64, hh: i64, size: i64) -> bool {
    exists|dx: u32, dy: u32, dvx: u32, dvy: u32, r: u32, b: u32, c: u32|
        dx < 1000 && dy < 1000 && dvx < 1000 && dvy < 1000 && r < 1000 && b < 1000 && c < 1000
            && s == #[trigger] seeded_speaki(id, hw, hh, size, dx, dy, dvx, dvy, r, b, c)
}

/// Seed the configured number of entities with random positions in the top
/// of the window and small random initial velocities.
pub fn spawn_initial_speakis(
    world: &mut World,
    config: &crate::resources::GameConfig,
    half_width: i64,
    half_height: i64,
)
    requires
        old(world).wf(),
        config.wf(),
        0 <= half_width <= COORD_LIMIT,
        0 <= half_height <= COORD_LIMIT,
        old(world).next_id + config.speaki_count < 0xffff_ffff_ffff_ffff,
    ensures
        final(world).wf(),
        final(world).graph_len == old(world).graph_len,
        final(world).next_id == old(world).next_id + config.speaki_count,
        final(world).speakis@.len() == old(world).speakis@.len() + config.speaki_count,
        forall|i: int|
            0 <= i < old(world).speakis@.len() ==> #[trigger] final(world).speakis@[i] == old(
                world,
            ).speakis@[i],
        forall|k: int|
            0 <= k < config.speaki_count ==> seeded_somehow(
                #[trigger] final(world).speakis@[old(world).speakis@.len() + k],
                (old(world).next_id + k) as u64,
                half_width,
                half_height,
                config.speaki_size,
            ),
{
    let count = config.speaki_count;
    let mut k: u32 = 0;
    while k < count
        invariant
            k <= count,
            world.wf(),
            old(world).wf(),
            config.wf(),
            0 <= half_width <= COORD_LIMIT,
            0 <= half_height <= COORD_LIMIT,
            old(world).next_id + count < 0xffff_ffff_ffff_ffff,
            world.graph_len == old(world).graph_len,
            world.next_id == old(world).next_id + k,
            world.speakis@.len() == old(world).speakis@.len() + k,
            forall|i: int|
                0 <= i < old(world).speakis@.len() ==> #[trigger] world.speakis@[i] == old(
                    world,
                ).speakis@[i],
            forall|q: int|
                0 <= q < k ==> seeded_somehow(
                    #[trigger] world.speakis@[old(world).speakis@.len() + q],
                    (old(world).next_id + q) as u64,
                    half_width,
                    half_height,
                    config.speaki_size,
                ),
        decreases count - k,
    {
        let dx = random_milli();
        let dy = random_milli();
        let dvx = random_milli();
        let dvy = random_milli();
        let r = random_milli();
        let b = random_milli();
        let c = random_milli();
        let px = crate::fx::muldiv(half_width, (dx as i64 - 500) * 2, 1000);
        let coef = 400 + (600 * (dy as i64)) / 1000;
        let py = scale_milli(half_height, coef);
        let vx = (dvx as i64 - 500) * 5;
        let vy = (dvy as i64) * 2;
        world.spawn_speaki_with(
            Vec2 { x: px, y: py },
            Velocity { x: vx, y: vy },
            config.speaki_size,
            r,
            b,
            c,
        );
        proof {
            let q = k as int;
            let at = old(world).speakis@.len() + q;
            assert(world.speakis@[at] == seeded_speaki(
                (old(world).next_id + q) as u64,
                half_width,
                half_height,
                config.speaki_size,
                dx,
                dy,
                dvx,
                dvy,
                r,
                b,
                c,
            ));
        }
        k = k + 1;
    }
}

} // verus!
