//! Pairwise collision resolution. Every unordered pair of circular entities
//! is evaluated once per tick against a snapshot of pre-pass positions and
//! velocities (so the result does not depend on store order cascades):
//! overlapping pairs are separated symmetrically by half the overlap each,
//! and approaching pairs exchange an equal and opposite damped impulse. A
//! pair involving the dragged entity is treated as approaching at the fixed
//! cursor-impulse speed, and the dragged entity's own velocity is never
//! touched. After the pass every entity's rotation is damped.

use vstd::prelude::*;
use vstd::pervasive::VecAdditionalExecFns;

use crate::components::{RotationState, Speaki, Vec2, Velocity};
use crate::fx::{
    clamp_i128, in_range, isqrt, isqrt_spec, muldiv, sat, sat_add, sat_sub, scale_milli, tdiv,
    COORD_LIMIT,
};
use crate::resources::PhysicsConfig;
use crate::world::World;

verus! {

/// Center offset from the lower-index entity to the higher-index one.
pub open spec fn pair_dx(a: Speaki, b: Speaki) -> int {
    sat(b.pos.x - a.pos.x)
}

pub open spec fn pair_dy(a: Speaki, b: Speaki) -> int {
    sat(b.pos.y - a.pos.y)
}

/// Squared center distance.
pub open spec fn pair_dist_sq(a: Speaki, b: Speaki) -> int {
    pair_dx(a, b) * pair_dx(a, b) + pair_dy(a, b) * pair_dy(a, b)
}

/// Sum of the two radii: the distance under which the circles overlap.
pub open spec fn pair_min_dist(a: Speaki, b: Speaki) -> int {
    tdiv(a.size.0 + b.size.0, 2)
}

/// The circles overlap and the centers do not coincide (coincident centers
/// give no line to separate along and are skipped).
pub open spec fn pair_overlapping(a: Speaki, b: Speaki) -> bool {
    0 < pair_dist_sq(a, b) < pair_min_dist(a, b) * pair_min_dist(a, b)
}

/// Center distance (integer square root).
pub open spec fn pair_dist(a: Speaki, b: Speaki) -> int {
    isqrt_spec(pair_dist_sq(a, b) as nat) as int
}

/// Half the overlap: how far each entity moves apart.
pub open spec fn pair_sep(a: Speaki, b: Speaki) -> int {
    tdiv(pair_min_dist(a, b) - pair_dist(a, b), 2)
}

/// The separation displacement along the line of centers, x component.
pub open spec fn pair_sep_x(a: Speaki, b: Speaki) -> int {
    sat(tdiv(pair_dx(a, b) * pair_sep(a, b), pair_dist(a, b)))
}

pub open spec fn pair_sep_y(a: Speaki, b: Speaki) -> int {
    sat(tdiv(pair_dy(a, b) * pair_sep(a, b), pair_dist(a, b)))
}

/// Relative velocity projected on the line of centers — or the fixed
/// negative cursor impulse if the pair involves the dragged entity, which
/// always pushes the other away regardless of actual relative motion.
pub open spec fn pair_dvn(a: Speaki, b: Speaki, drag_involved: bool, p: PhysicsConfig) -> int {
    if drag_involved {
        -p.cursor_impulse
    } else {
        sat(
            tdiv(
                sat(b.vel.x - a.vel.x) * pair_dx(a, b) + sat(b.vel.y - a.vel.y) * pair_dy(a, b),
                pair_dist(a, b),
            ),
        )
    }
}

/// The damped impulse along the normal, x component; equal and opposite on
/// the two entities of the pair.
pub open spec fn pair_imp_x(a: Speaki, b: Speaki, drag_involved: bool, p: PhysicsConfig) -> int {
    sat(
        tdiv(
            sat(tdiv(pair_dvn(a, b, drag_involved, p) * pair_dx(a, b), pair_dist(a, b)))
                * p.collision_damping,
            1000,
        ),
    )
}

pub open spec fn pair_imp_y(a: Speaki, b: Speaki, drag_involved: bool, p: PhysicsConfig) -> int {
    sat(
        tdiv(
            sat(tdiv(pair_dvn(a, b, drag_involved, p) * pair_dy(a, b), pair_dist(a, b)))
                * p.collision_damping,
            1000,
        ),
    )
}

/// Apply to `cur` — the running state of one endpoint of the pair — the
/// effect of the pair between snapshot entities `lo` (the lower store
/// index) and `hi`: the endpoint is `lo` iff `e_is_lo`. Overlapping pairs
/// are separated; approaching pairs also exchange the impulse, except that
/// a dragged endpoint keeps its velocity.
pub open spec fn apply_pair_to(
    cur: Speaki,
    lo: Speaki,
    hi: Speaki,
    e_is_lo: bool,
    dragged: Option<u64>,
    p: PhysicsConfig,
) -> Speaki {
    if !pair_overlapping(lo, hi) {
        cur
    } else {
        let drag_involved = dragged == Some(lo.id) || dragged == Some(hi.id);
        let sx = pair_sep_x(lo, hi);
        let sy = pair_sep_y(lo, hi);
        let pos = if e_is_lo {
            Vec2 { x: sat(cur.pos.x - sx) as i64, y: sat(cur.pos.y - sy) as i64 }
        } else {
            Vec2 { x: sat(cur.pos.x + sx) as i64, y: sat(cur.pos.y + sy) as i64 }
        };
        let dvn = pair_dvn(lo, hi, drag_involved, p);
        let self_dragged = if e_is_lo {
            dragged == Some(lo.id)
        } else {
            dragged == Some(hi.id)
        };
        if dvn > 0 || self_dragged {
            Speaki { pos, ..cur }
        } else {
            let ix = pair_imp_x(lo, hi, drag_involved, p);
            let iy = pair_imp_y(lo, hi, drag_involved, p);
            let vel = if e_is_lo {
                Velocity { x: sat(cur.vel.x + ix) as i64, y: sat(cur.vel.y + iy) as i64 }
            } else {
                Velocity { x: sat(cur.vel.x - ix) as i64, y: sat(cur.vel.y - iy) as i64 }
            };
            Speaki { pos, vel, ..cur }
        }
    }
}

/// State of entity `e` after its pair effects with all partners of index
/// below `k` (in ascending partner order, which is the order the pass
/// walks the pairs for `e`), starting from the snapshot.
pub open spec fn collide_upto(
    snap: Seq<Speaki>,
    e: int,
    k: int,
    dragged: Option<u64>,
    p: PhysicsConfig,
) -> Speaki
    decreases k,
{
    if k <= 0 {
        snap[e]
    } else if k - 1 == e {
        collide_upto(snap, e, k - 1, dragged, p)
    } else {
        let prev = collide_upto(snap, e, k - 1, dragged, p);
        let o = k - 1;
        if o < e {
            apply_pair_to(prev, snap[o], snap[e], false, dragged, p)
        } else {
            apply_pair_to(prev, snap[e], snap[o], true, dragged, p)
        }
    }
}

/// Final state of entity `e` after the pairwise pass: all pair effects,
/// then the rotation damping every entity receives.
pub open spec fn collide_entity(
    snap: Seq<Speaki>,
    e: int,
    dragged: Option<u64>,
    p: PhysicsConfig,
) -> Speaki {
    let c = collide_upto(snap, e, snap.len() as int, dragged, p);
    Speaki {
        rot: RotationState { speed: sat(tdiv(c.rot.speed * p.collision_damping, 1000)) as i64 },
        ..c
    }
}

/// The id of the first dragged entity at or after index `i`, if any.
pub open spec fn first_dragged_from(ws: Seq<Speaki>, i: int) -> Option<u64>
    decreases ws.len() - i,
{
    if i < 0 || i >= ws.len() {
        None
    } else if ws[i].dragged {
        Some(ws[i].id)
    } else {
        first_dragged_from(ws, i + 1)
    }
}

/// The id of the first dragged entity in store order, if any.
pub open spec fn first_dragged(ws: Seq<Speaki>) -> Option<u64> {
    first_dragged_from(ws, 0)
}

proof fn lemma_first_dragged_skip(ws: Seq<Speaki>, i: int)
    requires
        0 <= i <= ws.len(),
        forall|k: int| 0 <= k < i ==> !(#[trigger] ws[k]).dragged,
    ensures
        first_dragged(ws) == first_dragged_from(ws, i),
    decreases i,
{
    if i > 0 {
        lemma_first_dragged_skip(ws, i - 1);
    }
}

/// Find the first dragged entity.
pub fn find_first_dragged(speakis: &Vec<Speaki>) -> (r: Option<u64>)
    ensures
        r == first_dragged(speakis@),
{
    let n = speakis.len();
    let mut i: usize = 0;
    while i < n
        invariant
            i <= n,
            n == speakis@.len(),
            forall|k: int| 0 <= k < i ==> !(#[trigger] speakis@[k]).dragged,
        decreases n - i,
    {
        if speakis[i].dragged {
            proof {
                lemma_first_dragged_skip(speakis@, i as int);
            }
            return Some(speakis[i].id);
        }
        i = i + 1;
    }
    proof {
        lemma_first_dragged_skip(speakis@, n as int);
    }
    None
}

/// Compute one endpoint's new state for one pair, exactly as
/// `apply_pair_to` describes.
fn apply_pair_exec(
    cur: Speaki,
    lo: &Speaki,
    hi: &Speaki,
    e_is_lo: bool,
    dragged: Option<u64>,
    p: &PhysicsConfig,
) -> (r: Speaki)
    requires
        cur.pos.wf(),
        cur.vel.wf(),
        lo.pos.wf(),
        lo.vel.wf(),
        hi.pos.wf(),
        hi.vel.wf(),
        0 < lo.size.0 <= COORD_LIMIT,
        0 < hi.size.0 <= COORD_LIMIT,
        p.wf(),
    ensures
        r == apply_pair_to(cur, *lo, *hi, e_is_lo, dragged, *p),
{
    let dx = sat_sub(hi.pos.x, lo.pos.x);
    let dy = sat_sub(hi.pos.y, lo.pos.y);
    proof {
        assert(dx * dx + dy * dy < 0x7fff_ffff_ffff_ffff_ffff_ffff_ffff_ffff && dx * dx + dy * dy
            <= 2_000_000_000_000_000_000_000_000_000_000 && dx * dx >= 0 && dy * dy >= 0)
            by (nonlinear_arith)
            requires
                in_range(dx as int) && in_range(dy as int),
        ;
    }
    let dist_sq: i128 = (dx as i128) * (dx as i128) + (dy as i128) * (dy as i128);
    let md = (lo.size.0 + hi.size.0) / 2;
    proof {
        assert(md * md < 0x7fff_ffff_ffff_ffff_ffff_ffff_ffff_ffff && md * md >= 0)
            by (nonlinear_arith)
            requires
                0 <= md <= COORD_LIMIT,
        ;
    }
    let md_sq: i128 = (md as i128) * (md as i128);
    if !(dist_sq > 0 && dist_sq < md_sq) {
        return cur;
    }
    proof {
        assert(dist_sq as u128 as int == dist_sq as int);
    }
    let d64 = isqrt(dist_sq as u128);
    proof {
        if d64 == 0 {
            assert((d64 as int + 1) * (d64 as int + 1) == 1) by (nonlinear_arith)
                requires
                    d64 as int == 0,
            ;
            assert(false);
        }
    }
    let dist = d64 as i64;
    assert(dist >= 1);
    let sep = (md - dist) / 2;
    assert(pair_dist(*lo, *hi) < pair_min_dist(*lo, *hi)) by {
        assert(dist * dist <= dist_sq < md * md ==> dist < md) by (nonlinear_arith)
            requires
                dist >= 0 && md >= 0,
        ;
    }
    assert(0 <= sep <= md);
    let sx = muldiv(dx, sep, dist);
    let sy = muldiv(dy, sep, dist);
    let pos = if e_is_lo {
        Vec2 { x: sat_sub(cur.pos.x, sx), y: sat_sub(cur.pos.y, sy) }
    } else {
        Vec2 { x: sat_add(cur.pos.x, sx), y: sat_add(cur.pos.y, sy) }
    };
    let drag_involved = match dragged {
        Some(d) => d == lo.id || d == hi.id,
        None => false,
    };
    let dvn: i64;
    if drag_involved {
        dvn = -p.cursor_impulse;
    } else {
        let dvx = sat_sub(hi.vel.x, lo.vel.x);
        let dvy = sat_sub(hi.vel.y, lo.vel.y);
        proof {
            assert(-0x6fff_ffff_ffff_ffff_ffff_ffff_ffff_ffff < dvx * dx
                < 0x6fff_ffff_ffff_ffff_ffff_ffff_ffff_ffff && -0x6fff_ffff_ffff_ffff_ffff_ffff_ffff_ffff
                < dvy * dy < 0x6fff_ffff_ffff_ffff_ffff_ffff_ffff_ffff
                && -0x7fff_ffff_ffff_ffff_ffff_ffff_ffff_ffff < dvx * dx + dvy * dy
                < 0x7fff_ffff_ffff_ffff_ffff_ffff_ffff_ffff) by (nonlinear_arith)
                requires
                    in_range(dvx as int) && in_range(dvy as int) && in_range(dx as int) && in_range(
                        dy as int,
                    ),
            ;
        }
        let dot: i128 = (dvx as i128) * (dx as i128) + (dvy as i128) * (dy as i128);
        dvn = clamp_i128(dot / (dist as i128));
    }
    let self_dragged = match dragged {
        Some(d) => if e_is_lo {
            d == lo.id
        } else {
            d == hi.id
        },
        None => false,
    };
    if dvn > 0 || self_dragged {
        return Speaki { pos, ..cur };
    }
    let tx = muldiv(dvn, dx, dist);
    let ty = muldiv(dvn, dy, dist);
    let ix = scale_milli(tx, p.collision_damping);
    let iy = scale_milli(ty, p.collision_damping);
    let vel = if e_is_lo {
        Velocity { x: sat_add(cur.vel.x, ix), y: sat_add(cur.vel.y, iy) }
    } else {
        Velocity { x: sat_sub(cur.vel.x, ix), y: sat_sub(cur.vel.y, iy) }
    };
    Speaki { pos, vel, ..cur }
}


/// A pair effect changes only the endpoint's position and velocity, keeps
/// them in range, and leaves every other field unchanged.
pub proof fn lemma_apply_pair_frame(
    cur: Speaki,
    lo: Speaki,
    hi: Speaki,
    e_is_lo: bool,
    dragged: Option<u64>,
    p: PhysicsConfig,
)
    requires
        cur.pos.wf(),
        cur.vel.wf(),
    ensures
        ({
            let r = apply_pair_to(cur, lo, hi, e_is_lo, dragged, p);
            &&& r.pos.wf()
            &&& r.vel.wf()
            &&& r.id == cur.id
            &&& r.size == cur.size
            &&& r.rot == cur.rot
            &&& r.angle == cur.angle
            &&& r.sprite == cur.sprite
            &&& r.blink == cur.blink
            &&& r.idle == cur.idle
            &&& r.audio == cur.audio
            &&& r.dragged == cur.dragged
            &&& r.shiny == cur.shiny
        }),
{
}

/// The accumulated pair effects keep position and velocity in range and
/// leave every other field as in the snapshot.
pub proof fn lemma_collide_upto_frame(
    snap: Seq<Speaki>,
    e: int,
    k: int,
    dragged: Option<u64>,
    p: PhysicsConfig,
)
    requires
        0 <= e < snap.len(),
        snap[e].pos.wf(),
        snap[e].vel.wf(),
    ensures
        ({
            let r = collide_upto(snap, e, k, dragged, p);
            &&& r.pos.wf()
            &&& r.vel.wf()
            &&& r.id == snap[e].id
            &&& r.size == snap[e].size
            &&& r.rot == snap[e].rot
            &&& r.angle == snap[e].angle
            &&& r.sprite == snap[e].sprite
            &&& r.blink == snap[e].blink
            &&& r.idle == snap[e].idle
            &&& r.audio == snap[e].audio
            &&& r.dragged == snap[e].dragged
            &&& r.shiny == snap[e].shiny
        }),
    decreases k,
{
    if k <= 0 {
    } else if k - 1 == e {
        lemma_collide_upto_frame(snap, e, k - 1, dragged, p);
    } else {
        lemma_collide_upto_frame(snap, e, k - 1, dragged, p);
        let prev = collide_upto(snap, e, k - 1, dragged, p);
        let o = k - 1;
        if o < e {
            lemma_apply_pair_frame(prev, snap[o], snap[e], false, dragged, p);
        } else {
            lemma_apply_pair_frame(prev, snap[e], snap[o], true, dragged, p);
        }
    }
}

/// Which partners of entity `e` are already applied while the outer index
/// stands at `i`: all of them for finished rows, none past `i` otherwise.
spec fn outer_prog(e: int, i: int, n: int) -> int {
    if e < i {
        n
    } else {
        i
    }
}

/// As `outer_prog`, refined for the inner index `j` of the current row.
spec fn inner_prog(e: int, i: int, j: int, n: int) -> int {
    if e < i {
        n
    } else if e == i {
        j
    } else if e < j {
        i + 1
    } else {
        i
    }
}

/// Resolve all pairwise collisions in one pass over a snapshot of the
/// pre-pass state, then damp every entity's rotation. Does nothing when
/// collisions are disabled.
#[verifier::rlimit(100)]
pub fn speaki_collision_system(world: &mut World, physics: &PhysicsConfig)
    requires
        old(world).wf(),
        physics.wf(),
    ensures
        final(world).wf(),
        final(world).next_id == old(world).next_id,
        final(world).graph_len == old(world).graph_len,
        final(world).speakis@.len() == old(world).speakis@.len(),
        !physics.collision_enabled ==> final(world).speakis@ == old(world).speakis@,
        physics.collision_enabled ==> forall|e: int|
            0 <= e < old(world).speakis@.len() ==> #[trigger] final(world).speakis@[e]
                == collide_entity(
                old(world).speakis@,
                e,
                first_dragged(old(world).speakis@),
                *physics,
            ),
{
    if !physics.collision_enabled {
        return ;
    }
    let dragged = find_first_dragged(&world.speakis);
    let n = world.speakis.len();
    let mut snap: Vec<Speaki> = Vec::new();
    let mut t: usize = 0;
    while t < n
        invariant
            t <= n,
            n == world.speakis@.len(),
            snap@.len() == t,
            forall|k: int| 0 <= k < t ==> #[trigger] snap@[k] == world.speakis@[k],
        decreases n - t,
    {
        snap.push(world.speakis[t]);
        t = t + 1;
    }
    proof {
        assert(snap@ =~= world.speakis@);
    }
    let ghost snap_s = snap@;
    let mut i: usize = 0;
    while i < n
        invariant
            i <= n,
            n == world.speakis@.len(),
            n == snap_s.len(),
            snap_s == snap@,
            snap_s == old(world).speakis@,
            world.next_id == old(world).next_id,
            world.graph_len == old(world).graph_len,
            old(world).wf(),
            physics.wf(),
            dragged == first_dragged(snap_s),
            forall|e: int|
                0 <= e < n ==> #[trigger] world.speakis@[e] == collide_upto(
                    snap_s,
                    e,
                    outer_prog(e, i as int, n as int),
                    dragged,
                    *physics,
                ),
        decreases n - i,
    {
        let mut j: usize = i + 1;
        proof {
            assert(collide_upto(snap_s, i as int, i + 1, dragged, *physics) == collide_upto(
                snap_s,
                i as int,
                i as int,
                dragged,
                *physics,
            ));
            assert forall|e: int| 0 <= e < n implies #[trigger] world.speakis@[e] == collide_upto(
                snap_s,
                e,
                inner_prog(e, i as int, i + 1, n as int),
                dragged,
                *physics,
            ) by {
                assert(world.speakis@[e] == collide_upto(
                    snap_s,
                    e,
                    outer_prog(e, i as int, n as int),
                    dragged,
                    *physics,
                ));
            }
        }
        while j < n
            invariant
                i < n,
                i + 1 <= j <= n,
                n == world.speakis@.len(),
                n == snap_s.len(),
                snap_s == snap@,
                snap_s == old(world).speakis@,
                world.next_id == old(world).next_id,
                world.graph_len == old(world).graph_len,
                old(world).wf(),
                physics.wf(),
                dragged == first_dragged(snap_s),
                forall|e: int|
                    0 <= e < n ==> #[trigger] world.speakis@[e] == collide_upto(
                        snap_s,
                        e,
                        inner_prog(e, i as int, j as int, n as int),
                        dragged,
                        *physics,
                    ),
            decreases n - j,
        {
            let a = snap[i];
            let b = snap[j];
            proof {
                assert(old(world).speakis@[i as int].wf(old(world).graph_len as nat));
                assert(old(world).speakis@[j as int].wf(old(world).graph_len as nat));
                lemma_collide_upto_frame(
                    snap_s,
                    i as int,
                    inner_prog(i as int, i as int, j as int, n as int),
                    dragged,
                    *physics,
                );
                lemma_collide_upto_frame(
                    snap_s,
                    j as int,
                    inner_prog(j as int, i as int, j as int, n as int),
                    dragged,
                    *physics,
                );
            }
            let cur_i = world.speakis[i];
            let new_i = apply_pair_exec(cur_i, &a, &b, true, dragged, physics);
            world.speakis.set(i, new_i);
            let cur_j = world.speakis[j];
            let new_j = apply_pair_exec(cur_j, &a, &b, false, dragged, physics);
            world.speakis.set(j, new_j);
            proof {
                assert(collide_upto(snap_s, i as int, j + 1, dragged, *physics) == apply_pair_to(
                    collide_upto(snap_s, i as int, j as int, dragged, *physics),
                    snap_s[i as int],
                    snap_s[j as int],
                    true,
                    dragged,
                    *physics,
                ));
                assert(collide_upto(snap_s, j as int, i + 1, dragged, *physics) == apply_pair_to(
                    collide_upto(snap_s, j as int, i as int, dragged, *physics),
                    snap_s[i as int],
                    snap_s[j as int],
                    false,
                    dragged,
                    *physics,
                ));
                assert forall|e: int| 0 <= e < n implies #[trigger] world.speakis@[e]
                    == collide_upto(
                    snap_s,
                    e,
                    inner_prog(e, i as int, j + 1, n as int),
                    dragged,
                    *physics,
                ) by {
                }
            }
            j = j + 1;
        }
        proof {
            assert forall|e: int| 0 <= e < n implies #[trigger] world.speakis@[e] == collide_upto(
                snap_s,
                e,
                outer_prog(e, i + 1, n as int),
                dragged,
                *physics,
            ) by {
                assert(world.speakis@[e] == collide_upto(
                    snap_s,
                    e,
                    inner_prog(e, i as int, n as int, n as int),
                    dragged,
                    *physics,
                ));
                if e == i + 1 {
                    assert(collide_upto(snap_s, e, i + 2, dragged, *physics) == collide_upto(
                        snap_s,
                        e,
                        i + 1,
                        dragged,
                        *physics,
                    ));
                }
            }
        }
        i = i + 1;
    }
    let mut m: usize = 0;
    while m < n
        invariant
            m <= n,
            n == world.speakis@.len(),
            n == snap_s.len(),
            snap_s == old(world).speakis@,
            world.next_id == old(world).next_id,
            world.graph_len == old(world).graph_len,
            old(world).wf(),
            physics.wf(),
            dragged == first_dragged(snap_s),
            forall|e: int|
                0 <= e < m ==> #[trigger] world.speakis@[e] == collide_entity(
                    snap_s,
                    e,
                    dragged,
                    *physics,
                ),
            forall|e: int|
                m <= e < n ==> #[trigger] world.speakis@[e] == collide_upto(
                    snap_s,
                    e,
                    n as int,
                    dragged,
                    *physics,
                ),
        decreases n - m,
    {
        let s = world.speakis[m];
        proof {
            assert(old(world).speakis@[m as int].wf(old(world).graph_len as nat));
            lemma_collide_upto_frame(snap_s, m as int, n as int, dragged, *physics);
        }
        let rs = scale_milli(s.rot.speed, physics.collision_damping);
        world.speakis.set(m, Speaki { rot: RotationState { speed: rs }, ..s });
        m = m + 1;
    }
    proof {
        assert forall|e: int| 0 <= e < world.speakis@.len() implies (
        #[trigger] world.speakis@[e]).wf(world.graph_len as nat) && world.speakis@[e].id == old(
            world,
        ).speakis@[e].id by {
            assert(old(world).speakis@[e].wf(old(world).graph_len as nat));
            lemma_collide_upto_frame(snap_s, e, n as int, dragged, *physics);
            let c = collide_upto(snap_s, e, n as int, dragged, *physics);
            assert(world.speakis@[e] == collide_entity(snap_s, e, dragged, *physics));
            assert(collide_entity(snap_s, e, dragged, *physics) == Speaki {
                rot: RotationState {
                    speed: sat(tdiv(c.rot.speed * physics.collision_damping, 1000)) as i64,
                },
                ..c
            });
            assert(in_range(sat(tdiv(c.rot.speed * physics.collision_damping, 1000))));
        }
    }
}


/// Non-increasing approach: a pair of entities already separating (their
/// relative velocity projected on the line of centers is at least zero),
/// neither of them dragged, receives no impulse from the pairwise pass —
/// only the positional separation applies, and the velocities stay.
pub proof fn lemma_no_impulse_when_separating(
    cur: Speaki,
    lo: Speaki,
    hi: Speaki,
    e_is_lo: bool,
    dragged: Option<u64>,
    p: PhysicsConfig,
)
    requires
        cur.vel.wf(),
        dragged != Some(lo.id),
        dragged != Some(hi.id),
        pair_dvn(lo, hi, false, p) >= 0,
    ensures
        apply_pair_to(cur, lo, hi, e_is_lo, dragged, p).vel == cur.vel,
{
    if pair_overlapping(lo, hi) {
        let dvn = pair_dvn(lo, hi, false, p);
        if dvn == 0 {
            let d = pair_dist(lo, hi);
            crate::fx::lemma_isqrt_bracket(pair_dist_sq(lo, hi) as nat);
            if d == 0 {
                assert(pair_dist_sq(lo, hi) < (0 + 1) * (0 + 1)) by (nonlinear_arith)
                    requires
                        pair_dist_sq(lo, hi) < (d + 1) * (d + 1) && d == 0,
                ;
                assert(false);
            }
            assert(0 * pair_dx(lo, hi) == 0) by (nonlinear_arith);
            assert(0 * pair_dy(lo, hi) == 0) by (nonlinear_arith);
            assert(0 * p.collision_damping == 0) by (nonlinear_arith);
            vstd::arithmetic::div_mod::lemma_div_of0(d);
            vstd::arithmetic::div_mod::lemma_div_of0(1000);
            assert(tdiv(0, d) == 0);
            assert(sat(0) == 0);
            assert(tdiv(0, 1000) == 0);
            assert(pair_imp_x(lo, hi, false, p) == 0);
            assert(pair_imp_y(lo, hi, false, p) == 0);
            assert(sat(cur.vel.x + 0) == cur.vel.x);
            assert(sat(cur.vel.y + 0) == cur.vel.y);
        }
    }
}

/// Collision separation: for two overlapping entities alone in the store,
/// the pairwise pass moves each by exactly half the overlap along the line
/// of centers — the first against it, the second along it — and nothing
/// else moves them.
pub proof fn lemma_pair_separation(snap: Seq<Speaki>, dragged: Option<u64>, p: PhysicsConfig)
    requires
        snap.len() == 2,
        snap[0].pos.wf(),
        snap[0].vel.wf(),
        snap[1].pos.wf(),
        snap[1].vel.wf(),
        pair_overlapping(snap[0], snap[1]),
    ensures
        collide_entity(snap, 0, dragged, p).pos.x == sat(
            snap[0].pos.x - pair_sep_x(snap[0], snap[1]),
        ),
        collide_entity(snap, 0, dragged, p).pos.y == sat(
            snap[0].pos.y - pair_sep_y(snap[0], snap[1]),
        ),
        collide_entity(snap, 1, dragged, p).pos.x == sat(
            snap[1].pos.x + pair_sep_x(snap[0], snap[1]),
        ),
        collide_entity(snap, 1, dragged, p).pos.y == sat(
            snap[1].pos.y + pair_sep_y(snap[0], snap[1]),
        ),
{
    reveal_with_fuel(collide_upto, 4);
    assert(collide_upto(snap, 0, 1, dragged, p) == snap[0]);
    assert(collide_upto(snap, 0, 2, dragged, p) == apply_pair_to(
        snap[0],
        snap[0],
        snap[1],
        true,
        dragged,
        p,
    ));
    assert(collide_upto(snap, 1, 1, dragged, p) == apply_pair_to(
        snap[1],
        snap[0],
        snap[1],
        false,
        dragged,
        p,
    ));
    assert(collide_upto(snap, 1, 2, dragged, p) == collide_upto(snap, 1, 1, dragged, p));
}


/// Non-increasing approach at pass level: two entities alone in the store,
/// already separating and not dragged, keep their velocities through the
/// whole pairwise pass — only the rotation damping touches them.
pub proof fn lemma_separating_pair_keeps_velocities(
    snap: Seq<Speaki>,
    dragged: Option<u64>,
    p: PhysicsConfig,
)
    requires
        snap.len() == 2,
        snap[0].vel.wf(),
        snap[1].vel.wf(),
        dragged != Some(snap[0].id),
        dragged != Some(snap[1].id),
        pair_dvn(snap[0], snap[1], false, p) >= 0,
    ensures
        collide_entity(snap, 0, dragged, p).vel == snap[0].vel,
        collide_entity(snap, 1, dragged, p).vel == snap[1].vel,
{
    reveal_with_fuel(collide_upto, 4);
    assert(collide_upto(snap, 0, 1, dragged, p) == snap[0]);
    assert(collide_upto(snap, 0, 2, dragged, p) == apply_pair_to(
        snap[0],
        snap[0],
        snap[1],
        true,
        dragged,
        p,
    ));
    lemma_no_impulse_when_separating(snap[0], snap[0], snap[1], true, dragged, p);
    assert(collide_upto(snap, 1, 1, dragged, p) == apply_pair_to(
        snap[1],
        snap[0],
        snap[1],
        false,
        dragged,
        p,
    ));
    assert(collide_upto(snap, 1, 2, dragged, p) == collide_upto(snap, 1, 1, dragged, p));
    lemma_no_impulse_when_separating(snap[1], snap[0], snap[1], false, dragged, p);
}


/// Entity `e` and bystander `q` do not overlap (the pair taken in store
/// orientation, lower index first).
pub open spec fn no_overlap_with(snap: Seq<Speaki>, e: int, q: int) -> bool {
    if q < e {
        !pair_overlapping(snap[q], snap[e])
    } else {
        !pair_overlapping(snap[e], snap[q])
    }
}

/// When entity `e` overlaps no store member but (possibly) `o`, its pass
/// result reduces to the one pair effect with `o` — applied once `o` has
/// been walked, untouched before.
proof fn lemma_collide_upto_single_partner(
    snap: Seq<Speaki>,
    e: int,
    o: int,
    k: int,
    dragged: Option<u64>,
    p: PhysicsConfig,
)
    requires
        0 <= e < snap.len(),
        0 <= o < snap.len(),
        e != o,
        k <= snap.len(),
        forall|q: int|
            0 <= q < snap.len() && q != e && q != o ==> #[trigger] no_overlap_with(snap, e, q),
    ensures
        collide_upto(snap, e, k, dragged, p) == (if o < k {
            if o < e {
                apply_pair_to(snap[e], snap[o], snap[e], false, dragged, p)
            } else {
                apply_pair_to(snap[e], snap[e], snap[o], true, dragged, p)
            }
        } else {
            snap[e]
        }),
    decreases k,
{
    if k <= 0 {
    } else if k - 1 == e {
        lemma_collide_upto_single_partner(snap, e, o, k - 1, dragged, p);
    } else {
        lemma_collide_upto_single_partner(snap, e, o, k - 1, dragged, p);
        let q = k - 1;
        let prev = collide_upto(snap, e, k - 1, dragged, p);
        if q != o {
            assert(no_overlap_with(snap, e, q));
            if q < e {
                assert(apply_pair_to(prev, snap[q], snap[e], false, dragged, p) == prev);
            } else {
                assert(apply_pair_to(prev, snap[e], snap[q], true, dragged, p) == prev);
            }
        } else {
            assert(prev == snap[e]);
        }
    }
}

/// Collision separation in a general store: an overlapping pair whose
/// members overlap no bystander moves apart by exactly half the overlap
/// each along the line of centers, wherever the pair stands and whatever
/// else the store holds.
pub proof fn lemma_collision_separation_general(
    snap: Seq<Speaki>,
    x: int,
    y: int,
    dragged: Option<u64>,
    p: PhysicsConfig,
)
    requires
        0 <= x < y < snap.len(),
        snap[x].pos.wf(),
        snap[x].vel.wf(),
        snap[y].pos.wf(),
        snap[y].vel.wf(),
        pair_overlapping(snap[x], snap[y]),
        forall|q: int|
            0 <= q < snap.len() && q != x && q != y ==> #[trigger] no_overlap_with(snap, x, q)
                && no_overlap_with(snap, y, q),
    ensures
        collide_entity(snap, x, dragged, p).pos.x == sat(
            snap[x].pos.x - pair_sep_x(snap[x], snap[y]),
        ),
        collide_entity(snap, x, dragged, p).pos.y == sat(
            snap[x].pos.y - pair_sep_y(snap[x], snap[y]),
        ),
        collide_entity(snap, y, dragged, p).pos.x == sat(
            snap[y].pos.x + pair_sep_x(snap[x], snap[y]),
        ),
        collide_entity(snap, y, dragged, p).pos.y == sat(
            snap[y].pos.y + pair_sep_y(snap[x], snap[y]),
        ),
{
    lemma_collide_upto_single_partner(snap, x, y, snap.len() as int, dragged, p);
    assert forall|q: int| 0 <= q < snap.len() && q != y && q != x implies #[trigger] no_overlap_with(
        snap,
        y,
        q,
    ) by {
        assert(no_overlap_with(snap, x, q) && no_overlap_with(snap, y, q));
    }
    lemma_collide_upto_single_partner(snap, y, x, snap.len() as int, dragged, p);
}

/// Non-increasing approach in a general store: a pair already separating,
/// neither member dragged and neither overlapping any bystander, keeps
/// both velocities through the pairwise pass.
pub proof fn lemma_no_impulse_general(
    snap: Seq<Speaki>,
    x: int,
    y: int,
    dragged: Option<u64>,
    p: PhysicsConfig,
)
    requires
        0 <= x < y < snap.len(),
        snap[x].vel.wf(),
        snap[y].vel.wf(),
        dragged != Some(snap[x].id),
        dragged != Some(snap[y].id),
        pair_dvn(snap[x], snap[y], false, p) >= 0,
        forall|q: int|
            0 <= q < snap.len() && q != x && q != y ==> #[trigger] no_overlap_with(snap, x, q)
                && no_overlap_with(snap, y, q),
    ensures
        collide_entity(snap, x, dragged, p).vel == snap[x].vel,
        collide_entity(snap, y, dragged, p).vel == snap[y].vel,
{
    lemma_collide_upto_single_partner(snap, x, y, snap.len() as int, dragged, p);
    assert forall|q: int| 0 <= q < snap.len() && q != y && q != x implies #[trigger] no_overlap_with(
        snap,
        y,
        q,
    ) by {
        assert(no_overlap_with(snap, x, q) && no_overlap_with(snap, y, q));
    }
    lemma_collide_upto_single_partner(snap, y, x, snap.len() as int, dragged, p);
    lemma_no_impulse_when_separating(snap[x], snap[x], snap[y], true, dragged, p);
    lemma_no_impulse_when_separating(snap[y], snap[x], snap[y], false, dragged, p);
}

} // verus!
