//! The physics stepper: gravity, Euler integration, wall collision, pairwise
//! collision resolution, size-based merging, explosion forces, rotation, and
//! window-motion inertia. One tick advances every entity once, in that fixed
//! order; each pass is exact over the fixed-point model in `crate::fx`.

use vstd::prelude::*;
use vstd::pervasive::VecAdditionalExecFns;

use crate::components::{RotationState, Shiny, Speaki, Vec2, Velocity};
use crate::events::{RequestBus, Shockwave, WallBounceEvent};
use crate::fx::{abs64, in_range, isqrt, isqrt_spec, muldiv, sat, sat_add, sat_sub, scale_milli, tdiv, COORD_LIMIT};
use crate::resources::ShinyConfig;
use crate::resources::PhysicsConfig;
use crate::world::World;

verus! {

/// One tick of gravity: a non-dragged entity loses `g` of upward velocity.
pub open spec fn gravity_step(s: Speaki, g: i64) -> Speaki {
    if s.dragged {
        s
    } else {
        Speaki { vel: Velocity { x: s.vel.x, y: sat(s.vel.y - g) as i64 }, ..s }
    }
}

/// Apply gravity to all non-dragged entities.
pub fn gravity_system(world: &mut World, physics: &PhysicsConfig)
    requires
        old(world).wf(),
        physics.wf(),
    ensures
        final(world).wf(),
        final(world).next_id == old(world).next_id,
        final(world).graph_len == old(world).graph_len,
        final(world).speakis@.len() == old(world).speakis@.len(),
        forall|i: int|
            0 <= i < old(world).speakis@.len() ==> final(world).speakis@[i] == gravity_step(
                #[trigger] old(world).speakis@[i],
                physics.gravity,
            ),
{
    let n = world.speakis.len();
    let mut i: usize = 0;
    while i < n
        invariant
            i <= n,
            n == world.speakis@.len(),
            n == old(world).speakis@.len(),
            world.next_id == old(world).next_id,
            world.graph_len == old(world).graph_len,
            physics.wf(),
            old(world).wf(),
            forall|k: int|
                0 <= k < i ==> #[trigger] world.speakis@[k] == gravity_step(
                    old(world).speakis@[k],
                    physics.gravity,
                ),
            forall|k: int| i <= k < n ==> #[trigger] world.speakis@[k] == old(world).speakis@[k],
        decreases n - i,
    {
        let s = world.speakis[i];
        if !s.dragged {
            let vy = sat_sub(s.vel.y, physics.gravity);
            world.speakis.set(i, Speaki { vel: Velocity { x: s.vel.x, y: vy }, ..s });
        }
        i = i + 1;
    }
}

/// One tick of explicit Euler integration: `position += velocity`.
pub open spec fn movement_step(s: Speaki) -> Speaki {
    Speaki {
        pos: Vec2 { x: sat(s.pos.x + s.vel.x) as i64, y: sat(s.pos.y + s.vel.y) as i64 },
        ..s
    }
}

/// Update all positions from velocities.
pub fn movement_system(world: &mut World)
    requires
        old(world).wf(),
    ensures
        final(world).wf(),
        final(world).next_id == old(world).next_id,
        final(world).graph_len == old(world).graph_len,
        final(world).speakis@.len() == old(world).speakis@.len(),
        forall|i: int|
            0 <= i < old(world).speakis@.len() ==> final(world).speakis@[i] == movement_step(
                #[trigger] old(world).speakis@[i],
            ),
{
    let n = world.speakis.len();
    let mut i: usize = 0;
    while i < n
        invariant
            i <= n,
            n == world.speakis@.len(),
            n == old(world).speakis@.len(),
            world.next_id == old(world).next_id,
            world.graph_len == old(world).graph_len,
            old(world).wf(),
            forall|k: int|
                0 <= k < i ==> #[trigger] world.speakis@[k] == movement_step(
                    old(world).speakis@[k],
                ),
            forall|k: int| i <= k < n ==> #[trigger] world.speakis@[k] == old(world).speakis@[k],
        decreases n - i,
    {
        let s = world.speakis[i];
        let x = sat_add(s.pos.x, s.vel.x);
        let y = sat_add(s.pos.y, s.vel.y);
        world.speakis.set(i, Speaki { pos: Vec2 { x, y }, ..s });
        i = i + 1;
    }
}

/// One tick of rotation: the orientation advances by the angular speed
/// scaled by the configured per-mille factor.
pub open spec fn rotation_step(s: Speaki, rotation_speed: i64) -> Speaki {
    Speaki { angle: sat(s.angle + sat(tdiv(s.rot.speed * rotation_speed, 1000))) as i64, ..s }
}

/// Advance every entity's orientation.
pub fn rotation_system(world: &mut World, physics: &PhysicsConfig)
    requires
        old(world).wf(),
        physics.wf(),
    ensures
        final(world).wf(),
        final(world).next_id == old(world).next_id,
        final(world).graph_len == old(world).graph_len,
        final(world).speakis@.len() == old(world).speakis@.len(),
        forall|i: int|
            0 <= i < old(world).speakis@.len() ==> final(world).speakis@[i] == rotation_step(
                #[trigger] old(world).speakis@[i],
                physics.rotation_speed,
            ),
{
    let n = world.speakis.len();
    let mut i: usize = 0;
    while i < n
        invariant
            i <= n,
            n == world.speakis@.len(),
            n == old(world).speakis@.len(),
            world.next_id == old(world).next_id,
            world.graph_len == old(world).graph_len,
            physics.wf(),
            old(world).wf(),
            forall|k: int|
                0 <= k < i ==> #[trigger] world.speakis@[k] == rotation_step(
                    old(world).speakis@[k],
                    physics.rotation_speed,
                ),
            forall|k: int| i <= k < n ==> #[trigger] world.speakis@[k] == old(world).speakis@[k],
        decreases n - i,
    {
        let s = world.speakis[i];
        let step = scale_milli(s.rot.speed, physics.rotation_speed);
        let angle = sat_add(s.angle, step);
        world.speakis.set(i, Speaki { angle, ..s });
        i = i + 1;
    }
}

/// One tick of window-motion inertia: a non-dragged entity gets an impulse
/// against the horizontal window delta and along the (screen-inverted)
/// vertical one, scaled by the per-mille strength.
pub open spec fn inertia_step(s: Speaki, dx: i64, dy: i64, strength: i64) -> Speaki {
    if s.dragged {
        s
    } else {
        Speaki {
            vel: Velocity {
                x: sat(s.vel.x - sat(tdiv(dx * strength, 1000))) as i64,
                y: sat(s.vel.y + sat(tdiv(dy * strength, 1000))) as i64,
            },
            ..s
        }
    }
}

/// The window moved to `current` (milli-units). If tracking is enabled and
/// the delta from the last observed position exceeds the half-unit noise
/// threshold, every non-dragged entity receives the inertia impulse; the
/// tracker then remembers `current`.
pub fn window_inertia_system(
    world: &mut World,
    tracker: &mut crate::resources::WindowPositionTracker,
    current: Vec2,
)
    requires
        old(world).wf(),
        old(tracker).wf(),
        current.wf(),
    ensures
        final(world).wf(),
        final(tracker).wf(),
        final(world).next_id == old(world).next_id,
        final(world).graph_len == old(world).graph_len,
        final(world).speakis@.len() == old(world).speakis@.len(),
        !old(tracker).enabled ==> *final(world) == *old(world) && *final(tracker) == *old(tracker),
        old(tracker).enabled ==> final(tracker).enabled == old(tracker).enabled
            && final(tracker).strength == old(tracker).strength
            && final(tracker).last_position == Some(current),
        old(tracker).enabled ==> match old(tracker).last_position {
            None => *final(world) == *old(world),
            Some(last) => {
                let dx = sat(current.x - last.x);
                let dy = sat(current.y - last.y);
                if dx > 500 || dx < -500 || dy > 500 || dy < -500 {
                    forall|i: int|
                        0 <= i < old(world).speakis@.len() ==> final(world).speakis@[i]
                            == inertia_step(
                            #[trigger] old(world).speakis@[i],
                            dx as i64,
                            dy as i64,
                            old(tracker).strength,
                        )
                } else {
                    *final(world) == *old(world)
                }
            },
        },
{
    if !tracker.enabled {
        return ;
    }
    let last = tracker.last_position;
    tracker.last_position = Some(current);
    let last = match last {
        None => {
            return ;
        },
        Some(l) => l,
    };
    let dx = sat_sub(current.x, last.x);
    let dy = sat_sub(current.y, last.y);
    if !(dx > 500 || dx < -500 || dy > 500 || dy < -500) {
        return ;
    }
    let strength = tracker.strength;
    let n = world.speakis.len();
    let mut i: usize = 0;
    while i < n
        invariant
            i <= n,
            n == world.speakis@.len(),
            n == old(world).speakis@.len(),
            world.next_id == old(world).next_id,
            world.graph_len == old(world).graph_len,
            old(world).wf(),
            in_range(dx as int),
            in_range(dy as int),
            0 <= strength <= crate::fx::COEFF_LIMIT,
            forall|k: int|
                0 <= k < i ==> #[trigger] world.speakis@[k] == inertia_step(
                    old(world).speakis@[k],
                    dx,
                    dy,
                    strength,
                ),
            forall|k: int| i <= k < n ==> #[trigger] world.speakis@[k] == old(world).speakis@[k],
        decreases n - i,
    {
        let s = world.speakis[i];
        if !s.dragged {
            let ix = scale_milli(dx, strength);
            let iy = scale_milli(dy, strength);
            let vx = sat_sub(s.vel.x, ix);
            let vy = sat_add(s.vel.y, iy);
            world.speakis.set(i, Speaki { vel: Velocity { x: vx, y: vy }, ..s });
        }
        i = i + 1;
    }
}


/// The wall positions the entities bounce off, milli-units.
#[derive(Clone, Copy, PartialEq, Eq, Structural, Debug)]
pub struct WallBounds {
    pub left: i64,
    pub right: i64,
    pub bottom: i64,
    pub top: i64,
}

impl WallBounds {
    pub open spec fn wf(self) -> bool {
        &&& in_range(self.left as int)
        &&& in_range(self.right as int)
        &&& in_range(self.bottom as int)
        &&& in_range(self.top as int)
    }
}

/// The bounds of a window of the given half-extents, with per-side border
/// fractions (per-mille of the half-extent) cut off.
pub open spec fn bounds_of(half_width: i64, half_height: i64, border: crate::resources::BorderConfig) -> WallBounds {
    WallBounds {
        left: sat(-half_width + sat(tdiv(half_width * border.left, 1000))) as i64,
        right: sat(half_width - sat(tdiv(half_width * border.right, 1000))) as i64,
        bottom: sat(-half_height + sat(tdiv(half_height * border.down, 1000))) as i64,
        top: sat(half_height - sat(tdiv(half_height * border.up, 1000))) as i64,
    }
}

/// Compute the wall bounds from the window half-extents and the border
/// configuration.
pub fn compute_bounds(half_width: i64, half_height: i64, border: &crate::resources::BorderConfig) -> (b: WallBounds)
    requires
        0 <= half_width <= crate::fx::COORD_LIMIT,
        0 <= half_height <= crate::fx::COORD_LIMIT,
        border.wf(),
    ensures
        b == bounds_of(half_width, half_height, *border),
        b.wf(),
{
    let l = scale_milli(half_width, border.left);
    let r = scale_milli(half_width, border.right);
    let d = scale_milli(half_height, border.down);
    let u = scale_milli(half_height, border.up);
    WallBounds {
        left: sat_add(-half_width, l),
        right: sat_sub(half_width, r),
        bottom: sat_add(-half_height, d),
        top: sat_sub(half_height, u),
    }
}

/// Half the entity's diameter.
pub open spec fn half_of(size: i64) -> int {
    tdiv(size as int, 2)
}

/// Squared speed, milli-units squared.
pub open spec fn speed_sq(s: Speaki) -> int {
    s.vel.x * s.vel.x + s.vel.y * s.vel.y
}

/// The rotation speed has decayed below 0.01 while the entity still moves
/// fast (squared speed over 100 square units): a wall hit reseeds it.
pub open spec fn wall_should_reseed(s: Speaki) -> bool {
    -10 < s.rot.speed < 10 && speed_sq(s) > 100_000_000
}

/// A wall hit is loud enough to emit a bounce request: the squared speed
/// before the pass exceeds 1000 square units scaled by the per-mille
/// responsiveness.
pub open spec fn wall_bounce_loud(s: Speaki, p: PhysicsConfig) -> bool {
    speed_sq(s) > p.bounce_responsiveness * 1_000_000
}

/// The entity's bottom edge crosses the bottom bound.
pub open spec fn wall_bottom_crossed(s: Speaki, b: WallBounds) -> bool {
    s.pos.y - half_of(s.size.0) < b.bottom
}

/// The entity's top edge crosses the top bound.
pub open spec fn wall_top_crossed(s: Speaki, b: WallBounds) -> bool {
    s.pos.y + half_of(s.size.0) > b.top
}

/// The entity's left edge crosses the left bound.
pub open spec fn wall_left_crossed(s: Speaki, b: WallBounds) -> bool {
    s.pos.x - half_of(s.size.0) < b.left
}

/// The entity's right edge crosses the right bound.
pub open spec fn wall_right_crossed(s: Speaki, b: WallBounds) -> bool {
    s.pos.x + half_of(s.size.0) > b.right
}

/// The reseeded or friction-damped rotation speed after a wall hit.
pub open spec fn wall_new_rot(s: Speaki, p: PhysicsConfig, reseed: bool, draw: u32) -> int {
    if reseed {
        draw - 500
    } else {
        sat(tdiv(s.rot.speed * p.friction, 1000))
    }
}

/// Bottom-wall resolution: clamp above the bound, reflect the vertical
/// velocity by the bounce coefficient and zero it below the half-unit
/// jitter threshold, damp the horizontal velocity and rotation by
/// friction, and reseed rotation if asked. All four sides behave alike,
/// each on its own perpendicular component.
pub open spec fn wall_bottom_step(s: Speaki, b: WallBounds, p: PhysicsConfig, reseed: bool, draw: u32) -> Speaki {
    if !wall_bottom_crossed(s, b) {
        s
    } else {
        let vy0 = sat(tdiv(s.vel.y * -p.bounce, 1000));
        Speaki {
            pos: Vec2 { x: s.pos.x, y: sat(b.bottom + half_of(s.size.0)) as i64 },
            vel: Velocity {
                x: sat(tdiv(s.vel.x * p.friction, 1000)) as i64,
                y: if -500 < vy0 < 500 { 0 } else { vy0 as i64 },
            },
            rot: crate::components::RotationState { speed: wall_new_rot(s, p, reseed, draw) as i64 },
            ..s
        }
    }
}

/// Top-wall resolution: as the bottom — clamp, reflect, apply friction,
/// and zero the reflected vertical velocity below the jitter threshold.
pub open spec fn wall_top_step(s: Speaki, b: WallBounds, p: PhysicsConfig, reseed: bool, draw: u32) -> Speaki {
    if !wall_top_crossed(s, b) {
        s
    } else {
        let vy0 = sat(tdiv(s.vel.y * -p.bounce, 1000));
        Speaki {
            pos: Vec2 { x: s.pos.x, y: sat(b.top - half_of(s.size.0)) as i64 },
            vel: Velocity {
                x: sat(tdiv(s.vel.x * p.friction, 1000)) as i64,
                y: if -500 < vy0 < 500 {
                    0
                } else {
                    vy0 as i64
                },
            },
            rot: crate::components::RotationState { speed: wall_new_rot(s, p, reseed, draw) as i64 },
            ..s
        }
    }
}

/// Left-wall resolution: clamp right of the bound, reflect the horizontal
/// velocity and zero it below the jitter threshold, damp the vertical
/// velocity and rotation by friction.
pub open spec fn wall_left_step(s: Speaki, b: WallBounds, p: PhysicsConfig, reseed: bool, draw: u32) -> Speaki {
    if !wall_left_crossed(s, b) {
        s
    } else {
        let vx0 = sat(tdiv(s.vel.x * -p.bounce, 1000));
        Speaki {
            pos: Vec2 { x: sat(b.left + half_of(s.size.0)) as i64, y: s.pos.y },
            vel: Velocity {
                x: if -500 < vx0 < 500 { 0 } else { vx0 as i64 },
                y: sat(tdiv(s.vel.y * p.friction, 1000)) as i64,
            },
            rot: crate::components::RotationState { speed: wall_new_rot(s, p, reseed, draw) as i64 },
            ..s
        }
    }
}

/// Right-wall resolution: as the left — clamp, reflect, apply friction,
/// and zero the reflected horizontal velocity below the jitter threshold.
pub open spec fn wall_right_step(s: Speaki, b: WallBounds, p: PhysicsConfig, reseed: bool, draw: u32) -> Speaki {
    if !wall_right_crossed(s, b) {
        s
    } else {
        let vx0 = sat(tdiv(s.vel.x * -p.bounce, 1000));
        Speaki {
            pos: Vec2 { x: sat(b.right - half_of(s.size.0)) as i64, y: s.pos.y },
            vel: Velocity {
                x: if -500 < vx0 < 500 {
                    0
                } else {
                    vx0 as i64
                },
                y: sat(tdiv(s.vel.y * p.friction, 1000)) as i64,
            },
            rot: crate::components::RotationState { speed: wall_new_rot(s, p, reseed, draw) as i64 },
            ..s
        }
    }
}

/// All four sides checked in order (bottom, top, left, right) in the same
/// tick, each against the state the previous side left; the squared speed
/// and the reseed decision are frozen at entry.
pub open spec fn wall_resolve(s: Speaki, b: WallBounds, p: PhysicsConfig, draw: u32) -> Speaki {
    let reseed = wall_should_reseed(s);
    let s1 = wall_bottom_step(s, b, p, reseed, draw);
    let s2 = wall_top_step(s1, b, p, reseed, draw);
    let s3 = wall_left_step(s2, b, p, reseed, draw);
    wall_right_step(s3, b, p, reseed, draw)
}

/// How many bounce requests the entity emits this tick: one per crossed
/// side, if it moves fast enough; corner hits may emit two.
pub open spec fn wall_bounce_count(s: Speaki, b: WallBounds, p: PhysicsConfig) -> int {
    if !wall_bounce_loud(s, p) {
        0
    } else {
        let reseed = wall_should_reseed(s);
        let s1 = wall_bottom_step(s, b, p, reseed, 0);
        let s2 = wall_top_step(s1, b, p, reseed, 0);
        let s3 = wall_left_step(s2, b, p, reseed, 0);
        (if wall_bottom_crossed(s, b) { 1int } else { 0int })
            + (if wall_top_crossed(s1, b) { 1int } else { 0int })
            + (if wall_left_crossed(s2, b) { 1int } else { 0int })
            + (if wall_right_crossed(s3, b) { 1int } else { 0int })
    }
}


/// The bounce requests one entity emits during the wall pass.
pub open spec fn wall_events_of(s: Speaki, b: WallBounds, p: PhysicsConfig) -> Seq<WallBounceEvent> {
    Seq::new(wall_bounce_count(s, b, p) as nat, |k: int| WallBounceEvent { entity: s.id })
}

/// The bounce requests of the first `i` entities, in store order.
pub open spec fn wall_events_upto(ws: Seq<Speaki>, b: WallBounds, p: PhysicsConfig, i: int) -> Seq<WallBounceEvent>
    decreases i,
{
    if i <= 0 {
        Seq::empty()
    } else {
        wall_events_upto(ws, b, p, i - 1) + wall_events_of(ws[i - 1], b, p)
    }
}

/// Resolve one entity against all four walls; returns the new state and how
/// many bounce requests to emit.
pub fn wall_resolve_entity(s: Speaki, b: &WallBounds, p: &PhysicsConfig, draw: u32) -> (r: (Speaki, usize))
    requires
        s.pos.wf(),
        s.vel.wf(),
        in_range(s.rot.speed as int),
        0 < s.size.0 <= COORD_LIMIT,
        b.wf(),
        p.wf(),
        draw < 1000,
    ensures
        r.0 == wall_resolve(s, *b, *p, draw),
        r.1 as int == wall_bounce_count(s, *b, *p),
{
    let ghost reseed_g = wall_should_reseed(s);
    let half = s.size.0 / 2;
    assert(half == half_of(s.size.0));
    assert(0 <= half <= s.size.0);
    let vsq = s.vel.speed_squared();
    let rabs = abs64(s.rot.speed);
    let reseed = rabs < 10 && vsq > 100_000_000;
    assert(reseed == reseed_g);
    let loud = vsq > (p.bounce_responsiveness as i128) * 1_000_000;
    assert(loud == wall_bounce_loud(s, *p));
    let mut cur = s;
    let mut count: usize = 0;

    // bottom
    if cur.pos.y - half < b.bottom {
        let y = sat_add(b.bottom, half);
        let vx = scale_milli(cur.vel.x, p.friction);
        let vy0 = scale_milli(cur.vel.y, -p.bounce);
        let vy = if -500 < vy0 && vy0 < 500 { 0 } else { vy0 };
        let rsp = if reseed { draw as i64 - 500 } else { scale_milli(cur.rot.speed, p.friction) };
        cur = Speaki {
            pos: Vec2 { x: cur.pos.x, y },
            vel: Velocity { x: vx, y: vy },
            rot: RotationState { speed: rsp },
            ..cur
        };
        if loud {
            count = count + 1;
        }
    }
    let ghost s1 = wall_bottom_step(s, *b, *p, reseed_g, draw);
    assert(cur == s1);

    // top
    if cur.pos.y + half > b.top {
        let y = sat_sub(b.top, half);
        let vx = scale_milli(cur.vel.x, p.friction);
        let vy0 = scale_milli(cur.vel.y, -p.bounce);
        let vy = if -500 < vy0 && vy0 < 500 { 0 } else { vy0 };
        let rsp = if reseed { draw as i64 - 500 } else { scale_milli(cur.rot.speed, p.friction) };
        cur = Speaki {
            pos: Vec2 { x: cur.pos.x, y },
            vel: Velocity { x: vx, y: vy },
            rot: RotationState { speed: rsp },
            ..cur
        };
        if loud {
            count = count + 1;
        }
    }
    let ghost s2 = wall_top_step(s1, *b, *p, reseed_g, draw);
    assert(cur == s2);

    // left
    if cur.pos.x - half < b.left {
        let x = sat_add(b.left, half);
        let vx0 = scale_milli(cur.vel.x, -p.bounce);
        let vx = if -500 < vx0 && vx0 < 500 { 0 } else { vx0 };
        let vy = scale_milli(cur.vel.y, p.friction);
        let rsp = if reseed { draw as i64 - 500 } else { scale_milli(cur.rot.speed, p.friction) };
        cur = Speaki {
            pos: Vec2 { x, y: cur.pos.y },
            vel: Velocity { x: vx, y: vy },
            rot: RotationState { speed: rsp },
            ..cur
        };
        if loud {
            count = count + 1;
        }
    }
    let ghost s3 = wall_left_step(s2, *b, *p, reseed_g, draw);
    assert(cur == s3);

    // right
    if cur.pos.x + half > b.right {
        let x = sat_sub(b.right, half);
        let vx0 = scale_milli(cur.vel.x, -p.bounce);
        let vx = if -500 < vx0 && vx0 < 500 { 0 } else { vx0 };
        let vy = scale_milli(cur.vel.y, p.friction);
        let rsp = if reseed { draw as i64 - 500 } else { scale_milli(cur.rot.speed, p.friction) };
        cur = Speaki {
            pos: Vec2 { x, y: cur.pos.y },
            vel: Velocity { x: vx, y: vy },
            rot: RotationState { speed: rsp },
            ..cur
        };
        if loud {
            count = count + 1;
        }
    }
    assert(cur == wall_right_step(s3, *b, *p, reseed_g, draw));

    (cur, count)
}

/// The entity was resolved by `wall_resolve` under some per-mille draw.
pub open spec fn wall_resolved_somehow(pre: Speaki, post: Speaki, b: WallBounds, p: PhysicsConfig) -> bool {
    exists|d: u32| d < 1000 && post == #[trigger] wall_resolve(pre, b, p, d)
}

/// Wall resolution keeps an entity well-formed and leaves its identity,
/// size and everything but position, velocity and rotation unchanged.
#[verifier::rlimit(50)]
pub proof fn lemma_wall_resolve_wf(s: Speaki, b: WallBounds, p: PhysicsConfig, draw: u32, gl: nat)
    requires
        s.wf(gl),
        b.wf(),
        p.wf(),
        draw < 1000,
    ensures
        wall_resolve(s, b, p, draw).wf(gl),
        wall_resolve(s, b, p, draw).id == s.id,
        wall_resolve(s, b, p, draw).size == s.size,
        wall_resolve(s, b, p, draw).sprite == s.sprite,
        wall_resolve(s, b, p, draw).blink == s.blink,
        wall_resolve(s, b, p, draw).idle == s.idle,
        wall_resolve(s, b, p, draw).audio == s.audio,
        wall_resolve(s, b, p, draw).dragged == s.dragged,
        wall_resolve(s, b, p, draw).shiny == s.shiny,
{
}

/// Deterministic wall pass: resolve every entity against the bounds, with
/// the given per-entity reseed draws, and append one bounce request per
/// crossed side of every entity fast enough to react.
#[verifier::rlimit(50)]
pub fn wall_collision_pass(
    world: &mut World,
    b: &WallBounds,
    physics: &PhysicsConfig,
    bus: &mut RequestBus,
    draws: &Vec<u32>,
)
    requires
        old(world).wf(),
        b.wf(),
        physics.wf(),
        draws@.len() == old(world).speakis@.len(),
        forall|i: int| 0 <= i < draws@.len() ==> #[trigger] draws@[i] < 1000,
    ensures
        final(world).wf(),
        final(world).next_id == old(world).next_id,
        final(world).graph_len == old(world).graph_len,
        final(world).speakis@.len() == old(world).speakis@.len(),
        forall|i: int|
            0 <= i < old(world).speakis@.len() ==> #[trigger] final(world).speakis@[i]
                == wall_resolve(old(world).speakis@[i], *b, *physics, draws@[i]),
        final(bus).bounces@ == old(bus).bounces@ + wall_events_upto(
            old(world).speakis@,
            *b,
            *physics,
            old(world).speakis@.len() as int,
        ),
        final(bus).spawns@ == old(bus).spawns@,
        final(bus).despawns@ == old(bus).despawns@,
        final(bus).voices@ == old(bus).voices@,
        final(bus).merges@ == old(bus).merges@,
        final(bus).shockwaves@ == old(bus).shockwaves@,
{
    let n = world.speakis.len();
    let mut i: usize = 0;
    while i < n
        invariant
            i <= n,
            n == world.speakis@.len(),
            n == old(world).speakis@.len(),
            n == draws@.len(),
            world.next_id == old(world).next_id,
            world.graph_len == old(world).graph_len,
            physics.wf(),
            b.wf(),
            old(world).wf(),
            forall|k: int| 0 <= k < draws@.len() ==> #[trigger] draws@[k] < 1000,
            forall|k: int|
                0 <= k < i ==> #[trigger] world.speakis@[k] == wall_resolve(
                    old(world).speakis@[k],
                    *b,
                    *physics,
                    draws@[k],
                ),
            forall|k: int| i <= k < n ==> #[trigger] world.speakis@[k] == old(world).speakis@[k],
            bus.bounces@ == old(bus).bounces@ + wall_events_upto(
                old(world).speakis@,
                *b,
                *physics,
                i as int,
            ),
            bus.spawns@ == old(bus).spawns@,
            bus.despawns@ == old(bus).despawns@,
            bus.voices@ == old(bus).voices@,
            bus.merges@ == old(bus).merges@,
            bus.shockwaves@ == old(bus).shockwaves@,
        decreases n - i,
    {
        let s = world.speakis[i];
        let (s2, count) = wall_resolve_entity(s, b, physics, draws[i]);
        world.speakis.set(i, s2);
        let ghost pre_bounces = bus.bounces@;
        let mut c: usize = 0;
        while c < count
            invariant
                c <= count,
                count as int == wall_bounce_count(old(world).speakis@[i as int], *b, *physics),
                s.id == old(world).speakis@[i as int].id,
                bus.bounces@ == pre_bounces + Seq::new(c as nat, |k: int| WallBounceEvent { entity: s.id }),
                bus.spawns@ == old(bus).spawns@,
                bus.despawns@ == old(bus).despawns@,
                bus.voices@ == old(bus).voices@,
                bus.merges@ == old(bus).merges@,
                bus.shockwaves@ == old(bus).shockwaves@,
            decreases count - c,
        {
            bus.bounces.push(WallBounceEvent { entity: s.id });
            c = c + 1;
            proof {
                assert(bus.bounces@ =~= pre_bounces + Seq::new(c as nat, |k: int| WallBounceEvent { entity: s.id }));
            }
        }
        proof {
            assert(wall_events_of(old(world).speakis@[i as int], *b, *physics) =~= Seq::new(
                count as nat,
                |k: int| WallBounceEvent { entity: s.id },
            ));
            assert(bus.bounces@ =~= old(bus).bounces@ + wall_events_upto(
                old(world).speakis@,
                *b,
                *physics,
                i + 1,
            ));
        }
        i = i + 1;
    }
    proof {
        assert forall|k: int| 0 <= k < world.speakis@.len() implies (
        #[trigger] world.speakis@[k]).wf(world.graph_len as nat) && world.speakis@[k].id == old(
            world,
        ).speakis@[k].id by {
            lemma_wall_resolve_wf(
                old(world).speakis@[k],
                *b,
                *physics,
                draws@[k],
                world.graph_len as nat,
            );
        }
    }
}

/// Wall pass with fresh random reseed draws: every entity ends resolved by
/// `wall_resolve` under some per-mille draw, and the bounce requests are
/// exactly those of `wall_events_upto`.
pub fn wall_collision_system(
    world: &mut World,
    half_width: i64,
    half_height: i64,
    physics: &PhysicsConfig,
    border: &crate::resources::BorderConfig,
    bus: &mut RequestBus,
)
    requires
        old(world).wf(),
        0 <= half_width <= COORD_LIMIT,
        0 <= half_height <= COORD_LIMIT,
        physics.wf(),
        border.wf(),
    ensures
        final(world).wf(),
        final(world).next_id == old(world).next_id,
        final(world).graph_len == old(world).graph_len,
        final(world).speakis@.len() == old(world).speakis@.len(),
        forall|i: int|
            0 <= i < old(world).speakis@.len() ==> wall_resolved_somehow(
                old(world).speakis@[i],
                #[trigger] final(world).speakis@[i],
                bounds_of(half_width, half_height, *border),
                *physics,
            ),
        final(bus).bounces@ == old(bus).bounces@ + wall_events_upto(
            old(world).speakis@,
            bounds_of(half_width, half_height, *border),
            *physics,
            old(world).speakis@.len() as int,
        ),
        final(bus).spawns@ == old(bus).spawns@,
        final(bus).despawns@ == old(bus).despawns@,
        final(bus).voices@ == old(bus).voices@,
        final(bus).merges@ == old(bus).merges@,
        final(bus).shockwaves@ == old(bus).shockwaves@,
{
    let b = compute_bounds(half_width, half_height, border);
    let n = world.speakis.len();
    let mut draws: Vec<u32> = Vec::new();
    let mut i: usize = 0;
    while i < n
        invariant
            i <= n,
            draws@.len() == i,
            forall|k: int| 0 <= k < i ==> #[trigger] draws@[k] < 1000,
        decreases n - i,
    {
        draws.push(crate::rng::random_milli());
        i = i + 1;
    }
    wall_collision_pass(world, &b, physics, bus, &draws);
    proof {
        assert forall|i: int| 0 <= i < old(world).speakis@.len() implies wall_resolved_somehow(
            old(world).speakis@[i],
            #[trigger] world.speakis@[i],
            bounds_of(half_width, half_height, *border),
            *physics,
        ) by {
            let d0 = draws@[i];
            assert(d0 < 1000 && world.speakis@[i] == wall_resolve(
                old(world).speakis@[i],
                bounds_of(half_width, half_height, *border),
                *physics,
                d0,
            ));
        }
    }
}


/// Wall containment: whenever the bounds leave room for the entity on both
/// axes, the wall pass puts `position ± size/2` inside the bounds — an
/// entity that crossed is clamped back, and one that did not was inside
/// already. Holds for every entity, every tick, and every reseed draw.
pub proof fn lemma_wall_containment(s: Speaki, b: WallBounds, p: PhysicsConfig, draw: u32)
    requires
        s.pos.wf(),
        0 < s.size.0 <= COORD_LIMIT,
        b.wf(),
        b.bottom + s.size.0 <= b.top,
        b.left + s.size.0 <= b.right,
    ensures
        ({
            let r = wall_resolve(s, b, p, draw);
            &&& b.bottom <= r.pos.y - half_of(s.size.0)
            &&& r.pos.y + half_of(s.size.0) <= b.top
            &&& b.left <= r.pos.x - half_of(s.size.0)
            &&& r.pos.x + half_of(s.size.0) <= b.right
        }),
{
    let half = half_of(s.size.0);
    assert(0 <= half && 2 * half <= s.size.0);
    let reseed = wall_should_reseed(s);
    let s1 = wall_bottom_step(s, b, p, reseed, draw);
    let s2 = wall_top_step(s1, b, p, reseed, draw);
    let s3 = wall_left_step(s2, b, p, reseed, draw);
    let s4 = wall_right_step(s3, b, p, reseed, draw);
    assert(b.bottom <= s2.pos.y - half && s2.pos.y + half <= b.top);
    assert(s4.pos.y == s2.pos.y);
    assert(b.left <= s4.pos.x - half && s4.pos.x + half <= b.right);
}


/// One tick of a shiny entity's countdown: subtract the elapsed time; on
/// expiry (an explosion), draw a fresh pause uniformly between the
/// configured bounds from the given per-mille draw.
pub open spec fn shiny_step(s: Speaki, dt: u64, cfg: ShinyConfig, draw: u32) -> Speaki {
    match s.shiny {
        None => s,
        Some(sh) => {
            let c = sat(sh.next_explosion - dt);
            if c <= 0 {
                Speaki {
                    shiny: Some(
                        Shiny {
                            next_explosion: (cfg.explosion_interval_min as int + tdiv(
                                (cfg.explosion_interval_max - cfg.explosion_interval_min) * draw,
                                1000,
                            )) as i64,
                            ..sh
                        },
                    ),
                    ..s
                }
            } else {
                Speaki { shiny: Some(Shiny { next_explosion: c as i64, ..sh }), ..s }
            }
        },
    }
}

/// The entity's countdown expires this tick.
pub open spec fn shiny_explodes(s: Speaki, dt: u64) -> bool {
    match s.shiny {
        None => false,
        Some(sh) => sat(sh.next_explosion - dt) <= 0,
    }
}

/// The explosions of this tick, in store order: source id and position.
pub open spec fn explosions_upto(ws: Seq<Speaki>, dt: u64, i: int) -> Seq<(u64, i64, i64)>
    decreases i,
{
    if i <= 0 {
        Seq::empty()
    } else {
        explosions_upto(ws, dt, i - 1) + (if shiny_explodes(ws[i - 1], dt) {
            seq![(ws[i - 1].id, ws[i - 1].pos.x, ws[i - 1].pos.y)]
        } else {
            Seq::empty()
        })
    }
}

/// The radial impulse one explosion gives one entity: within the radius
/// (and excluding the source itself and coincident centers) the velocity
/// gains `force · (1 − distance/radius)` away from the explosion's center.
pub open spec fn explosion_push(s: Speaki, src: u64, px: i64, py: i64, cfg: ShinyConfig) -> Speaki {
    if s.id == src {
        s
    } else {
        let dx = sat(s.pos.x - px);
        let dy = sat(s.pos.y - py);
        let dsq = dx * dx + dy * dy;
        if 0 < dsq < cfg.explosion_radius * cfg.explosion_radius {
            let dist = isqrt_spec(dsq as nat) as int;
            let ff = 1000 - sat(tdiv(1000 * dist, cfg.explosion_radius as int));
            let force = sat(tdiv(cfg.explosion_force * ff, 1000));
            Speaki {
                vel: Velocity {
                    x: sat(s.vel.x + sat(tdiv(dx * force, dist))) as i64,
                    y: sat(s.vel.y + sat(tdiv(dy * force, dist))) as i64,
                },
                ..s
            }
        } else {
            s
        }
    }
}

/// One explosion applied to the whole store.
pub open spec fn apply_explosion(ws: Seq<Speaki>, ex: (u64, i64, i64), cfg: ShinyConfig) -> Seq<
    Speaki,
> {
    Seq::new(ws.len(), |i: int| explosion_push(ws[i], ex.0, ex.1, ex.2, cfg))
}

/// All explosions applied in order.
pub open spec fn apply_explosions(ws: Seq<Speaki>, exps: Seq<(u64, i64, i64)>, cfg: ShinyConfig) -> Seq<Speaki>
    decreases exps.len(),
{
    if exps.len() == 0 {
        ws
    } else {
        apply_explosions(apply_explosion(ws, exps[0], cfg), exps.skip(1), cfg)
    }
}

/// The whole pass: countdowns stepped with the given draws, then every
/// explosion pushed onto every other entity, in store order.
pub open spec fn shiny_pass_spec(
    ws: Seq<Speaki>,
    dt: u64,
    cfg: ShinyConfig,
    draws: Seq<u32>,
) -> Seq<Speaki> {
    let stepped = Seq::new(ws.len(), |i: int| shiny_step(ws[i], dt, cfg, draws[i]));
    apply_explosions(stepped, explosions_upto(ws, dt, ws.len() as int), cfg)
}

/// The shockwave requests of the tick, one per explosion, if enabled.
pub open spec fn shockwaves_of(ws: Seq<Speaki>, dt: u64, cfg: ShinyConfig) -> Seq<Shockwave> {
    if cfg.shockwave_enabled {
        explosions_upto(ws, dt, ws.len() as int).map_values(
            |ex: (u64, i64, i64)| Shockwave {
                position: Vec2 { x: ex.1, y: ex.2 },
                max_radius: cfg.explosion_radius,
                duration: cfg.shockwave_duration,
            },
        )
    } else {
        Seq::empty()
    }
}

/// Step one entity's countdown and report whether it explodes.
fn shiny_step_exec(s: Speaki, dt: u64, cfg: &ShinyConfig, draw: u32) -> (r: (Speaki, bool))
    requires
        s.pos.wf(),
        s.vel.wf(),
        match s.shiny {
            Some(sh) => in_range(sh.next_explosion as int),
            None => true,
        },
        dt <= 1_000_000_000_000_000,
        cfg.wf(),
        draw < 1000,
    ensures
        r.0 == shiny_step(s, dt, *cfg, draw),
        r.1 == shiny_explodes(s, dt),
{
    match s.shiny {
        None => (s, false),
        Some(sh) => {
            let c = sat_sub(sh.next_explosion, dt as i64);
            if c <= 0 {
                let range = cfg.explosion_interval_max - cfg.explosion_interval_min;
                proof {
                    assert((range as int) * (draw as int) < (range as int) * 1000 + 1000)
                        by (nonlinear_arith)
                        requires
                            draw < 1000 && range >= 0,
                    ;
                    assert((range as int) * 1000 + 1000 <= 0xffff_ffff_ffff_ffff)
                        by (nonlinear_arith)
                        requires
                            range <= 1_000_000_000_000_000,
                    ;
                    assert((range as int) * (draw as int) >= 0) by (nonlinear_arith)
                        requires
                            range >= 0 && draw >= 0,
                    ;
                }
                let bump = ((range as u64) * (draw as u64)) / 1000;
                proof {
                    assert((range as int) * (draw as int) <= (range as int) * 1000)
                        by (nonlinear_arith)
                        requires
                            draw < 1000 && range >= 0,
                    ;
                    vstd::arithmetic::div_mod::lemma_div_is_ordered(
                        range * draw,
                        range * 1000,
                        1000,
                    );
                    vstd::arithmetic::div_mod::lemma_div_by_multiple(range as int, 1000);
                    assert(bump <= range);
                }
                let fresh = cfg.explosion_interval_min + bump;
                (
                    Speaki { shiny: Some(Shiny { next_explosion: fresh as i64, ..sh }), ..s },
                    true,
                )
            } else {
                (Speaki { shiny: Some(Shiny { next_explosion: c, ..sh }), ..s }, false)
            }
        },
    }
}

/// Apply one explosion's push to one entity.
fn explosion_push_exec(s: Speaki, src: u64, px: i64, py: i64, cfg: &ShinyConfig) -> (r: Speaki)
    requires
        s.pos.wf(),
        s.vel.wf(),
        in_range(px as int),
        in_range(py as int),
        cfg.wf(),
    ensures
        r == explosion_push(s, src, px, py, *cfg),
{
    if s.id == src {
        return s;
    }
    let dx = sat_sub(s.pos.x, px);
    let dy = sat_sub(s.pos.y, py);
    proof {
        assert(dx * dx + dy * dy < 0x7fff_ffff_ffff_ffff_ffff_ffff_ffff_ffff && dx * dx >= 0 && dy
            * dy >= 0 && dx * dx + dy * dy <= 2_000_000_000_000_000_000_000_000_000_000)
            by (nonlinear_arith)
            requires
                in_range(dx as int) && in_range(dy as int),
        ;
        assert(cfg.explosion_radius * cfg.explosion_radius
            < 0x7fff_ffff_ffff_ffff_ffff_ffff_ffff_ffff && cfg.explosion_radius
            * cfg.explosion_radius >= 0) by (nonlinear_arith)
            requires
                0 <= cfg.explosion_radius <= COORD_LIMIT,
        ;
    }
    let dsq: i128 = (dx as i128) * (dx as i128) + (dy as i128) * (dy as i128);
    let rsq: i128 = (cfg.explosion_radius as i128) * (cfg.explosion_radius as i128);
    if !(0 < dsq && dsq < rsq) {
        return s;
    }
    proof {
        assert(dsq as u128 as int == dsq as int);
    }
    let d64 = isqrt(dsq as u128);
    proof {
        if d64 == 0 {
            assert((d64 as int + 1) * (d64 as int + 1) == 1) by (nonlinear_arith)
                requires
                    d64 as int == 0,
            ;
            assert(false);
        }
    }
    let dist = d64 as i64;
    proof {
        assert(dist * dist <= dsq < cfg.explosion_radius * cfg.explosion_radius ==> dist
            < cfg.explosion_radius) by (nonlinear_arith)
            requires
                dist >= 0 && cfg.explosion_radius >= 0,
        ;
        assert(dist < cfg.explosion_radius);
    }
    let t = muldiv(1000, dist, cfg.explosion_radius);
    proof {
        assert(1000 * dist < (cfg.explosion_radius as int) * 1000) by (nonlinear_arith)
            requires
                dist < cfg.explosion_radius,
        ;
        vstd::arithmetic::div_mod::lemma_multiply_divide_lt(
            1000 * dist,
            cfg.explosion_radius as int,
            1000,
        );
        assert(tdiv(1000 * dist, cfg.explosion_radius as int) < 1000);
        assert(0 <= tdiv(1000 * dist, cfg.explosion_radius as int));
    }
    let ff = 1000 - t;
    let force = scale_milli(cfg.explosion_force, ff);
    let ix = muldiv(dx, force, dist);
    let iy = muldiv(dy, force, dist);
    let vx = sat_add(s.vel.x, ix);
    let vy = sat_add(s.vel.y, iy);
    Speaki { vel: Velocity { x: vx, y: vy }, ..s }
}


/// The countdown step keeps the entity well-formed and touches nothing but
/// the shiny countdown.
pub proof fn lemma_shiny_step_frame(s: Speaki, dt: u64, cfg: ShinyConfig, draw: u32, gl: nat)
    requires
        s.wf(gl),
        cfg.wf(),
        draw < 1000,
    ensures
        shiny_step(s, dt, cfg, draw).wf(gl),
        shiny_step(s, dt, cfg, draw) == (Speaki { shiny: shiny_step(s, dt, cfg, draw).shiny, ..s }),
{
    match s.shiny {
        None => {},
        Some(sh) => {
            let c = sat(sh.next_explosion - dt);
            if c <= 0 {
                let range = cfg.explosion_interval_max - cfg.explosion_interval_min;
                assert(range * draw <= range * 1000) by (nonlinear_arith)
                    requires
                        draw < 1000 && range >= 0,
                ;
                assert(range * draw >= 0) by (nonlinear_arith)
                    requires
                        range >= 0 && draw >= 0,
                ;
                vstd::arithmetic::div_mod::lemma_div_is_ordered(
                    range * draw,
                    range * 1000,
                    1000,
                );
                vstd::arithmetic::div_mod::lemma_div_by_multiple(range as int, 1000);
                assert(tdiv(range * draw, 1000) <= range);
            }
        },
    }
}

/// An explosion push keeps the entity well-formed and touches only the
/// velocity.
pub proof fn lemma_explosion_push_frame(s: Speaki, src: u64, px: i64, py: i64, cfg: ShinyConfig, gl: nat)
    requires
        s.wf(gl),
    ensures
        explosion_push(s, src, px, py, cfg).wf(gl),
        explosion_push(s, src, px, py, cfg) == (Speaki {
            vel: explosion_push(s, src, px, py, cfg).vel,
            ..s
        }),
{
}

/// Deterministic explosion pass: step every shiny countdown with the given
/// draws, emit one shockwave request per explosion (if enabled), and push
/// every other entity within reach of each explosion radially away.
#[verifier::rlimit(100)]
pub fn shiny_explosion_pass(
    world: &mut World,
    cfg: &ShinyConfig,
    dt: u64,
    bus: &mut RequestBus,
    draws: &Vec<u32>,
)
    requires
        old(world).wf(),
        cfg.wf(),
        dt <= 1_000_000_000_000_000,
        draws@.len() == old(world).speakis@.len(),
        forall|i: int| 0 <= i < draws@.len() ==> #[trigger] draws@[i] < 1000,
    ensures
        final(world).wf(),
        final(world).next_id == old(world).next_id,
        final(world).graph_len == old(world).graph_len,
        final(world).speakis@.len() == old(world).speakis@.len(),
        final(world).speakis@ == shiny_pass_spec(old(world).speakis@, dt, *cfg, draws@),
        final(bus).shockwaves@ == old(bus).shockwaves@ + shockwaves_of(
            old(world).speakis@,
            dt,
            *cfg,
        ),
        final(bus).spawns@ == old(bus).spawns@,
        final(bus).despawns@ == old(bus).despawns@,
        final(bus).voices@ == old(bus).voices@,
        final(bus).bounces@ == old(bus).bounces@,
        final(bus).merges@ == old(bus).merges@,
{
    let n = world.speakis.len();
    let ghost ws0 = old(world).speakis@;
    let mut exps: Vec<(u64, i64, i64)> = Vec::new();
    let mut i: usize = 0;
    while i < n
        invariant
            i <= n,
            n == world.speakis@.len(),
            n == ws0.len(),
            ws0 == old(world).speakis@,
            world.next_id == old(world).next_id,
            world.graph_len == old(world).graph_len,
            old(world).wf(),
            cfg.wf(),
            dt <= 1_000_000_000_000_000,
            n == draws@.len(),
            forall|k: int| 0 <= k < draws@.len() ==> #[trigger] draws@[k] < 1000,
            forall|k: int|
                0 <= k < i ==> #[trigger] world.speakis@[k] == shiny_step(
                    ws0[k],
                    dt,
                    *cfg,
                    draws@[k],
                ),
            forall|k: int| i <= k < n ==> #[trigger] world.speakis@[k] == ws0[k],
            exps@ == explosions_upto(ws0, dt, i as int),
            forall|k: int|
                0 <= k < exps@.len() ==> in_range((#[trigger] exps@[k]).1 as int) && in_range(
                    exps@[k].2 as int,
                ),
            cfg.shockwave_enabled ==> bus.shockwaves@ == old(bus).shockwaves@ + exps@.map_values(
                |ex: (u64, i64, i64)| Shockwave {
                    position: Vec2 { x: ex.1, y: ex.2 },
                    max_radius: cfg.explosion_radius,
                    duration: cfg.shockwave_duration,
                },
            ),
            !cfg.shockwave_enabled ==> bus.shockwaves@ == old(bus).shockwaves@,
            bus.spawns@ == old(bus).spawns@,
            bus.despawns@ == old(bus).despawns@,
            bus.voices@ == old(bus).voices@,
            bus.bounces@ == old(bus).bounces@,
            bus.merges@ == old(bus).merges@,
        decreases n - i,
    {
        let s = world.speakis[i];
        proof {
            assert(old(world).speakis@[i as int].wf(old(world).graph_len as nat));
        }
        let (s2, explodes) = shiny_step_exec(s, dt, cfg, draws[i]);
        world.speakis.set(i, s2);
        if explodes {
            let ghost old_exps = exps@;
            exps.push((s.id, s.pos.x, s.pos.y));
            proof {
                assert(exps@ =~= explosions_upto(ws0, dt, i + 1));
            }
            if cfg.shockwave_enabled {
                bus.shockwaves.push(
                    Shockwave {
                        position: Vec2 { x: s.pos.x, y: s.pos.y },
                        max_radius: cfg.explosion_radius,
                        duration: cfg.shockwave_duration,
                    },
                );
                proof {
                    assert(bus.shockwaves@ =~= old(bus).shockwaves@ + exps@.map_values(
                        |ex: (u64, i64, i64)| Shockwave {
                            position: Vec2 { x: ex.1, y: ex.2 },
                            max_radius: cfg.explosion_radius,
                            duration: cfg.shockwave_duration,
                        },
                    ));
                }
            }
        } else {
            proof {
                assert(exps@ =~= explosions_upto(ws0, dt, i + 1));
            }
        }
        i = i + 1;
    }
    let ghost stepped = Seq::new(ws0.len(), |k: int| shiny_step(ws0[k], dt, *cfg, draws@[k]));
    let ghost exps_full = explosions_upto(ws0, dt, ws0.len() as int);
    proof {
        assert(world.speakis@ =~= stepped);
        assert(exps@ == exps_full);
        if cfg.shockwave_enabled {
            assert(shockwaves_of(ws0, dt, *cfg) =~= exps@.map_values(
                |ex: (u64, i64, i64)| Shockwave {
                    position: Vec2 { x: ex.1, y: ex.2 },
                    max_radius: cfg.explosion_radius,
                    duration: cfg.shockwave_duration,
                },
            ));
        } else {
            assert(shockwaves_of(ws0, dt, *cfg) =~= Seq::<Shockwave>::empty());
            assert(bus.shockwaves@ =~= old(bus).shockwaves@ + shockwaves_of(ws0, dt, *cfg));
        }
    }
    proof {
        assert(exps_full.skip(0) =~= exps_full);
        assert(world.speakis@ == stepped);
    }
    let m = exps.len();
    let mut q: usize = 0;
    while q < m
        invariant
            q <= m,
            m == exps@.len(),
            exps@ == exps_full,
            forall|k: int|
                0 <= k < exps@.len() ==> in_range((#[trigger] exps@[k]).1 as int) && in_range(
                    exps@[k].2 as int,
                ),
            n == world.speakis@.len(),
            n == ws0.len(),
            ws0 == old(world).speakis@,
            world.next_id == old(world).next_id,
            world.graph_len == old(world).graph_len,
            old(world).wf(),
            cfg.wf(),
            forall|k: int|
                0 <= k < n ==> (#[trigger] world.speakis@[k]).pos.wf() && world.speakis@[k].vel.wf(),
            apply_explosions(stepped, exps_full, *cfg) == apply_explosions(
                world.speakis@,
                exps_full.skip(q as int),
                *cfg,
            ),
            bus.spawns@ == old(bus).spawns@,
            bus.despawns@ == old(bus).despawns@,
            bus.voices@ == old(bus).voices@,
            bus.bounces@ == old(bus).bounces@,
            bus.merges@ == old(bus).merges@,
            bus.shockwaves@ == old(bus).shockwaves@ + shockwaves_of(ws0, dt, *cfg),
        decreases m - q,
    {
        let ex = exps[q];
        let ghost mid = world.speakis@;
        let mut r: usize = 0;
        while r < n
            invariant
                r <= n,
                n == world.speakis@.len(),
                n == mid.len(),
                cfg.wf(),
                in_range(ex.1 as int),
                in_range(ex.2 as int),
                forall|k: int|
                    0 <= k < mid.len() ==> (#[trigger] mid[k]).pos.wf() && mid[k].vel.wf(),
                forall|k: int|
                    0 <= k < r ==> #[trigger] world.speakis@[k] == explosion_push(
                        mid[k],
                        ex.0,
                        ex.1,
                        ex.2,
                        *cfg,
                    ),
                forall|k: int| r <= k < n ==> #[trigger] world.speakis@[k] == mid[k],
                world.next_id == old(world).next_id,
                world.graph_len == old(world).graph_len,
            decreases n - r,
        {
            let s = world.speakis[r];
            let s2 = explosion_push_exec(s, ex.0, ex.1, ex.2, cfg);
            world.speakis.set(r, s2);
            r = r + 1;
        }
        proof {
            assert(world.speakis@ =~= apply_explosion(mid, (ex.0, ex.1, ex.2), *cfg));
            assert((ex.0, ex.1, ex.2) == exps_full[q as int]);
            assert(exps_full.skip(q as int)[0] == exps_full[q as int]);
            assert(exps_full.skip(q as int).skip(1) =~= exps_full.skip(q + 1));
            assert(apply_explosions(mid, exps_full.skip(q as int), *cfg) == apply_explosions(
                apply_explosion(mid, exps_full[q as int], *cfg),
                exps_full.skip(q as int).skip(1),
                *cfg,
            ));
            assert forall|k: int| 0 <= k < n implies (#[trigger] world.speakis@[k]).pos.wf()
                && world.speakis@[k].vel.wf() by {
                assert(world.speakis@[k] == explosion_push(mid[k], ex.0, ex.1, ex.2, *cfg));
            }
        }
        q = q + 1;
    }
    proof {
        assert(exps_full.skip(m as int) =~= Seq::<(u64, i64, i64)>::empty());
        assert(apply_explosions(world.speakis@, exps_full.skip(m as int), *cfg) == world.speakis@);
        assert(world.speakis@ == shiny_pass_spec(ws0, dt, *cfg, draws@));
        assert forall|e2: int| 0 <= e2 < stepped.len() implies (#[trigger] stepped[e2]).wf(
            world.graph_len as nat,
        ) by {
            assert(old(world).speakis@[e2].wf(old(world).graph_len as nat));
            lemma_shiny_step_frame(ws0[e2], dt, *cfg, draws@[e2], world.graph_len as nat);
        }
        assert forall|k: int| 0 <= k < world.speakis@.len() implies (
        #[trigger] world.speakis@[k]).wf(world.graph_len as nat) && world.speakis@[k].id
            == old(world).speakis@[k].id by {
            assert(old(world).speakis@[k].wf(old(world).graph_len as nat));
            lemma_shiny_step_frame(ws0[k], dt, *cfg, draws@[k], world.graph_len as nat);
            lemma_explosions_wf(stepped, exps_full, *cfg, k, world.graph_len as nat);
        }
    }
}

/// Accumulated explosion pushes keep an entity well-formed and leave
/// everything but its velocity as it was.
pub proof fn lemma_explosions_wf(
    ws: Seq<Speaki>,
    exps: Seq<(u64, i64, i64)>,
    cfg: ShinyConfig,
    k: int,
    gl: nat,
)
    requires
        0 <= k < ws.len(),
        forall|e: int| 0 <= e < ws.len() ==> (#[trigger] ws[e]).wf(gl),
    ensures
        apply_explosions(ws, exps, cfg).len() == ws.len(),
        apply_explosions(ws, exps, cfg)[k].wf(gl),
        apply_explosions(ws, exps, cfg)[k] == (Speaki {
            vel: apply_explosions(ws, exps, cfg)[k].vel,
            ..ws[k]
        }),
    decreases exps.len(),
{
    if exps.len() == 0 {
    } else {
        let mid = apply_explosion(ws, exps[0], cfg);
        assert forall|e: int| 0 <= e < mid.len() implies (#[trigger] mid[e]).wf(gl) by {
            lemma_explosion_push_frame(ws[e], exps[0].0, exps[0].1, exps[0].2, cfg, gl);
        }
        lemma_explosion_push_frame(ws[k], exps[0].0, exps[0].1, exps[0].2, cfg, gl);
        lemma_explosions_wf(mid, exps.skip(1), cfg, k, gl);
    }
}

/// The whole store came through the explosion pass under some sequence of
/// per-mille interval draws.
pub open spec fn shiny_passed_somehow(pre: Seq<Speaki>, post: Seq<Speaki>, dt: u64, cfg: ShinyConfig) -> bool {
    exists|ds: Seq<u32>|
        ds.len() == pre.len() && (forall|i: int| 0 <= i < ds.len() ==> #[trigger] ds[i] < 1000)
            && post == #[trigger] shiny_pass_spec(pre, dt, cfg, ds)
}

/// Explosion pass with fresh random interval draws. Does nothing when
/// explosions are disabled.
pub fn shiny_explosion_system(world: &mut World, shiny_config: &ShinyConfig, dt: u64, bus: &mut RequestBus)
    requires
        old(world).wf(),
        shiny_config.wf(),
        dt <= 1_000_000_000_000_000,
    ensures
        final(world).wf(),
        final(world).next_id == old(world).next_id,
        final(world).graph_len == old(world).graph_len,
        final(world).speakis@.len() == old(world).speakis@.len(),
        !shiny_config.explosion_enabled ==> final(world).speakis@ == old(world).speakis@
            && final(bus).shockwaves@ == old(bus).shockwaves@,
        shiny_config.explosion_enabled ==> shiny_passed_somehow(
            old(world).speakis@,
            final(world).speakis@,
            dt,
            *shiny_config,
        ),
        shiny_config.explosion_enabled ==> final(bus).shockwaves@ == old(bus).shockwaves@
            + shockwaves_of(old(world).speakis@, dt, *shiny_config),
        final(bus).spawns@ == old(bus).spawns@,
        final(bus).despawns@ == old(bus).despawns@,
        final(bus).voices@ == old(bus).voices@,
        final(bus).bounces@ == old(bus).bounces@,
        final(bus).merges@ == old(bus).merges@,
{
    if !shiny_config.explosion_enabled {
        return ;
    }
    let n = world.speakis.len();
    let mut draws: Vec<u32> = Vec::new();
    let mut i: usize = 0;
    while i < n
        invariant
            i <= n,
            draws@.len() == i,
            forall|k: int| 0 <= k < i ==> #[trigger] draws@[k] < 1000,
        decreases n - i,
    {
        draws.push(crate::rng::random_milli());
        i = i + 1;
    }
    shiny_explosion_pass(world, shiny_config, dt, bus, &draws);
    proof {
        assert(world.speakis@ == shiny_pass_spec(old(world).speakis@, dt, *shiny_config, draws@));
        assert(shiny_passed_somehow(old(world).speakis@, world.speakis@, dt, *shiny_config));
    }
}


/// Wall containment, applied to a wall pass outcome: whatever draw the
/// pass used, the entity ends inside bounds that leave room for it.
pub proof fn lemma_wall_containment_somehow(pre: Speaki, post: Speaki, b: WallBounds, p: PhysicsConfig)
    requires
        pre.pos.wf(),
        0 < pre.size.0 <= COORD_LIMIT,
        b.wf(),
        b.bottom + pre.size.0 <= b.top,
        b.left + pre.size.0 <= b.right,
        wall_resolved_somehow(pre, post, b, p),
    ensures
        b.bottom <= post.pos.y - half_of(pre.size.0),
        post.pos.y + half_of(pre.size.0) <= b.top,
        b.left <= post.pos.x - half_of(pre.size.0),
        post.pos.x + half_of(pre.size.0) <= b.right,
{
    let d = choose|d: u32| d < 1000 && post == #[trigger] wall_resolve(pre, b, p, d);
    lemma_wall_containment(pre, b, p, d);
}


/// The rest state on the floor is a fixed point of the physics chain:
/// an entity sitting at `bottom + size/2` with zero velocity and zero
/// angular speed comes back to exactly that state through one round of
/// gravity, integration and wall collision, whenever the reflected
/// gravity impulse stays below the half-unit jitter threshold (so the
/// bounce is zeroed) and gravity is too weak to trigger a rotation
/// reseed. Together with the settling runs checked in the test suite,
/// this is why a dropped entity comes to permanent rest on the floor.
pub proof fn lemma_rest_state_fixed_point(s: Speaki, b: WallBounds, p: PhysicsConfig, draw: u32)
    requires
        s.pos.wf(),
        0 < s.size.0 <= COORD_LIMIT,
        !s.dragged,
        s.vel.x == 0,
        s.vel.y == 0,
        s.rot.speed == 0,
        s.pos.y == b.bottom + half_of(s.size.0),
        b.wf(),
        p.wf(),
        b.bottom + s.size.0 <= b.top,
        b.left + half_of(s.size.0) <= s.pos.x,
        s.pos.x + half_of(s.size.0) <= b.right,
        in_range(s.pos.y - p.gravity),
        0 < p.gravity,
        p.gravity <= 10_000,
        tdiv(p.gravity * p.bounce, 1000) < 500,
    ensures
        wall_resolve(movement_step(gravity_step(s, p.gravity)), b, p, draw) == s,
{
    let g = p.gravity;
    let s1 = gravity_step(s, g);
    assert(s1.vel.y == -g);
    let s2 = movement_step(s1);
    assert(s2.pos.y == s.pos.y - g);
    assert(wall_bottom_crossed(s2, b));
    assert(s2.vel.x == 0 && s2.vel.y == -g);
    assert(speed_sq(s2) == g * g) by {
        assert(0 * 0 + (-g) * (-g) == g * g) by (nonlinear_arith);
    }
    assert(g * g <= 100_000_000) by (nonlinear_arith)
        requires
            0 < g <= 10_000,
    ;
    assert(!wall_should_reseed(s2));
    let s3 = wall_bottom_step(s2, b, p, false, draw);
    assert(s3.pos.y == s.pos.y);
    assert(tdiv((-g) * -p.bounce, 1000) == tdiv(g * p.bounce, 1000)) by {
        assert((-g) * -p.bounce == g * p.bounce) by (nonlinear_arith);
    }
    assert(0 <= tdiv(g * p.bounce, 1000)) by {
        assert(g * p.bounce >= 0) by (nonlinear_arith)
            requires
                g >= 0 && p.bounce >= 0,
        ;
    }
    assert(s3.vel.y == 0);
    assert(tdiv(0 * p.friction, 1000) == 0) by {
        assert(0 * p.friction == 0) by (nonlinear_arith);
        vstd::arithmetic::div_mod::lemma_div_of0(1000);
    }
    assert(s3.vel.x == 0);
    assert(s3.rot.speed == 0);
    assert(s3 == s);
    assert(!wall_top_crossed(s3, b));
    assert(!wall_left_crossed(s3, b));
    assert(!wall_right_crossed(s3, b));
}

} // verus!
