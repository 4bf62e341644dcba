//! Size-based merging, in an independent pass over a snapshot of the store.
//! Two entities merge when neither is dragged, their sizes differ by less
//! than the configured relative tolerance, neither has reached the maximum
//! size, and their circles overlap. Pairs are scanned in store order and
//! each entity takes part in at most one merge per tick: the first match
//! wins, a deliberate (if not necessarily fair) order-dependent tie-break.
//! The lower-index entity of a pair survives, mutated in place
//! (new size, averaged velocity plus a small upward pop); the other is
//! destroyed; a merge request carries both identities and the resulting
//! midpoint, velocity and size.

use vstd::prelude::*;
use vstd::pervasive::VecAdditionalExecFns;

use crate::collision::{first_dragged, pair_dist_sq, pair_min_dist};
use crate::components::{Speaki, SpeakiSize, Vec2, Velocity};
use crate::events::{MergeSpeakiEvent, RequestBus};
use crate::fx::{abs_i, in_range, sat, sat_add, sat_sub, scale_milli, tdiv, COORD_LIMIT};
use crate::resources::MergeConfig;
use crate::world::World;

verus! {

/// The pair may merge: neither is dragged, the relative size difference is
/// within tolerance (`|s1-s2| / ((s1+s2)/2) <= tolerance/1000`, compared
/// exactly as `2000·|s1-s2| <= tolerance·(s1+s2)`), neither is at the
/// maximum size, and the circles overlap.
pub open spec fn merge_eligible(a: Speaki, b: Speaki, cfg: MergeConfig, dragged: Option<u64>) -> bool {
    &&& dragged != Some(a.id)
    &&& dragged != Some(b.id)
    &&& 2000 * abs_i(a.size.0 - b.size.0) <= cfg.size_tolerance * (a.size.0 + b.size.0)
    &&& a.size.0 < cfg.max_size
    &&& b.size.0 < cfg.max_size
    &&& pair_dist_sq(a, b) < pair_min_dist(a, b) * pair_min_dist(a, b)
}

/// The merged size: the average of the two sizes scaled by the growth
/// factor, capped at the maximum size.
pub open spec fn merge_new_size(a: Speaki, b: Speaki, cfg: MergeConfig) -> int {
    let t = sat(tdiv(tdiv(a.size.0 + b.size.0, 2) * cfg.growth_factor, 1000));
    if t > cfg.max_size {
        cfg.max_size as int
    } else {
        t
    }
}

/// The surviving entity: the lower-index one, with the averaged velocity
/// plus the upward pop, and the merged size. Its position stays.
pub open spec fn merged_winner(a: Speaki, b: Speaki, cfg: MergeConfig) -> Speaki {
    Speaki {
        vel: Velocity {
            x: tdiv(a.vel.x + b.vel.x, 2) as i64,
            y: sat(tdiv(a.vel.y + b.vel.y, 2) + cfg.merge_impulse) as i64,
        },
        size: SpeakiSize(merge_new_size(a, b, cfg) as i64),
        ..a
    }
}

/// The request a merge emits: both identities, the midpoint, the averaged
/// velocity (without the pop) and the merged size.
pub open spec fn merge_event_of(a: Speaki, b: Speaki, cfg: MergeConfig) -> MergeSpeakiEvent {
    MergeSpeakiEvent {
        entity1: a.id,
        entity2: b.id,
        position: Vec2 {
            x: tdiv(a.pos.x + b.pos.x, 2) as i64,
            y: tdiv(a.pos.y + b.pos.y, 2) as i64,
        },
        combined_velocity: Velocity {
            x: tdiv(a.vel.x + b.vel.x, 2) as i64,
            y: tdiv(a.vel.y + b.vel.y, 2) as i64,
        },
        new_size: merge_new_size(a, b, cfg) as i64,
    }
}

/// The first unconsumed partner at or after `j` that entity `i` may merge
/// with, scanning in store order.
pub open spec fn first_merge_candidate(
    snap: Seq<Speaki>,
    cfg: MergeConfig,
    dragged: Option<u64>,
    consumed: Set<int>,
    i: int,
    j: int,
) -> Option<int>
    decreases snap.len() - j,
{
    if j < 0 || j >= snap.len() {
        None
    } else if !consumed.contains(j) && merge_eligible(snap[i], snap[j], cfg, dragged) {
        Some(j)
    } else {
        first_merge_candidate(snap, cfg, dragged, consumed, i, j + 1)
    }
}

/// The greedy merge scan from index `i` on: each unconsumed entity takes
/// its first eligible unconsumed partner, both leave the pool, and the
/// scan continues. Yields the matched pairs in order of the winner index.
pub open spec fn merge_scan_from(
    snap: Seq<Speaki>,
    cfg: MergeConfig,
    dragged: Option<u64>,
    consumed: Set<int>,
    i: int,
) -> Seq<(int, int)>
    decreases snap.len() - i,
{
    if i < 0 || i >= snap.len() {
        Seq::empty()
    } else if consumed.contains(i) {
        merge_scan_from(snap, cfg, dragged, consumed, i + 1)
    } else {
        match first_merge_candidate(snap, cfg, dragged, consumed, i, i + 1) {
            Some(j) => seq![(i, j)] + merge_scan_from(
                snap,
                cfg,
                dragged,
                consumed.insert(i).insert(j),
                i + 1,
            ),
            None => merge_scan_from(snap, cfg, dragged, consumed, i + 1),
        }
    }
}

/// All pairs merged this tick, in scan order.
pub open spec fn merge_pairs(snap: Seq<Speaki>, cfg: MergeConfig, dragged: Option<u64>) -> Seq<
    (int, int),
> {
    merge_scan_from(snap, cfg, dragged, Set::empty(), 0)
}

/// Entity `e` is destroyed by one of the merges.
pub open spec fn merge_is_loser(ms: Seq<(int, int)>, e: int) -> bool {
    exists|k: int| 0 <= k < ms.len() && (#[trigger] ms[k]).1 == e
}

/// The store after the merges, from entity `e` on, with `mi` pairs already
/// passed: winners are replaced by their merged state, losers dropped, the
/// rest kept, in store order.
pub open spec fn merge_result_rec(
    snap: Seq<Speaki>,
    ms: Seq<(int, int)>,
    cfg: MergeConfig,
    e: int,
    mi: int,
) -> Seq<Speaki>
    decreases snap.len() - e,
{
    if e < 0 || e >= snap.len() {
        Seq::empty()
    } else if 0 <= mi < ms.len() && ms[mi].0 == e {
        seq![merged_winner(snap[e], snap[ms[mi].1], cfg)] + merge_result_rec(
            snap,
            ms,
            cfg,
            e + 1,
            mi + 1,
        )
    } else if merge_is_loser(ms, e) {
        merge_result_rec(snap, ms, cfg, e + 1, mi)
    } else {
        seq![snap[e]] + merge_result_rec(snap, ms, cfg, e + 1, mi)
    }
}

/// The store after the merges.
pub open spec fn merge_result(snap: Seq<Speaki>, cfg: MergeConfig, dragged: Option<u64>) -> Seq<
    Speaki,
> {
    merge_result_rec(snap, merge_pairs(snap, cfg, dragged), cfg, 0, 0)
}

/// The merge requests emitted, one per pair in scan order.
pub open spec fn merge_events(snap: Seq<Speaki>, cfg: MergeConfig, dragged: Option<u64>) -> Seq<
    MergeSpeakiEvent,
> {
    merge_pairs(snap, cfg, dragged).map_values(
        |pr: (int, int)| merge_event_of(snap[pr.0], snap[pr.1], cfg),
    )
}

/// Decide eligibility of one pair.
fn merge_eligible_exec(a: &Speaki, b: &Speaki, cfg: &MergeConfig, dragged: Option<u64>) -> (r:
    bool)
    requires
        a.pos.wf(),
        b.pos.wf(),
        0 < a.size.0 <= COORD_LIMIT,
        0 < b.size.0 <= COORD_LIMIT,
        cfg.wf(),
    ensures
        r == merge_eligible(*a, *b, *cfg, dragged),
{
    match dragged {
        Some(d) => {
            if d == a.id || d == b.id {
                return false;
            }
        },
        None => {},
    }
    let diff = if a.size.0 >= b.size.0 {
        a.size.0 - b.size.0
    } else {
        b.size.0 - a.size.0
    };
    let sum = a.size.0 + b.size.0;
    proof {
        assert(2000 * (diff as int) <= 0x7fff_ffff_ffff_ffff_ffff_ffff_ffff_ffff
            && cfg.size_tolerance * (sum as int) < 0x7fff_ffff_ffff_ffff_ffff_ffff_ffff_ffff
            && cfg.size_tolerance * (sum as int) >= 0 && 2000 * (diff as int) >= 0)
            by (nonlinear_arith)
            requires
                0 <= diff <= COORD_LIMIT && 0 <= sum <= 2 * COORD_LIMIT && 0 <= cfg.size_tolerance
                    <= crate::fx::COEFF_LIMIT,
        ;
    }
    if 2000i128 * (diff as i128) > (cfg.size_tolerance as i128) * (sum as i128) {
        return false;
    }
    if a.size.0 >= cfg.max_size || b.size.0 >= cfg.max_size {
        return false;
    }
    let dx = sat_sub(b.pos.x, a.pos.x);
    let dy = sat_sub(b.pos.y, a.pos.y);
    proof {
        assert(dx * dx + dy * dy < 0x7fff_ffff_ffff_ffff_ffff_ffff_ffff_ffff && dx * dx >= 0 && dy
            * dy >= 0) by (nonlinear_arith)
            requires
                in_range(dx as int) && in_range(dy as int),
        ;
    }
    let dist_sq: i128 = (dx as i128) * (dx as i128) + (dy as i128) * (dy as i128);
    let md = (a.size.0 + b.size.0) / 2;
    proof {
        assert(md * md < 0x7fff_ffff_ffff_ffff_ffff_ffff_ffff_ffff && md * md >= 0)
            by (nonlinear_arith)
            requires
                0 <= md <= COORD_LIMIT,
        ;
    }
    let md_sq: i128 = (md as i128) * (md as i128);
    dist_sq < md_sq
}

/// The winner's new state, exactly as `merged_winner` describes.
fn merged_winner_exec(a: &Speaki, b: &Speaki, cfg: &MergeConfig) -> (r: Speaki)
    requires
        a.vel.wf(),
        b.vel.wf(),
        0 < a.size.0 <= COORD_LIMIT,
        0 < b.size.0 <= COORD_LIMIT,
        cfg.wf(),
    ensures
        r == merged_winner(*a, *b, *cfg),
{
    let vx = (a.vel.x + b.vel.x) / 2;
    let vy0 = (a.vel.y + b.vel.y) / 2;
    let vy = sat_add(vy0, cfg.merge_impulse);
    let avg = (a.size.0 + b.size.0) / 2;
    let t = scale_milli(avg, cfg.growth_factor);
    let size = if t > cfg.max_size {
        cfg.max_size
    } else {
        t
    };
    Speaki { vel: Velocity { x: vx, y: vy }, size: SpeakiSize(size), ..*a }
}

/// The pair's merge request, exactly as `merge_event_of` describes.
fn merge_event_exec(a: &Speaki, b: &Speaki, cfg: &MergeConfig) -> (r: MergeSpeakiEvent)
    requires
        a.pos.wf(),
        b.pos.wf(),
        a.vel.wf(),
        b.vel.wf(),
        0 < a.size.0 <= COORD_LIMIT,
        0 < b.size.0 <= COORD_LIMIT,
        cfg.wf(),
    ensures
        r == merge_event_of(*a, *b, *cfg),
{
    let px = (a.pos.x + b.pos.x) / 2;
    let py = (a.pos.y + b.pos.y) / 2;
    let vx = (a.vel.x + b.vel.x) / 2;
    let vy = (a.vel.y + b.vel.y) / 2;
    let avg = (a.size.0 + b.size.0) / 2;
    let t = scale_milli(avg, cfg.growth_factor);
    let size = if t > cfg.max_size {
        cfg.max_size
    } else {
        t
    };
    MergeSpeakiEvent {
        entity1: a.id,
        entity2: b.id,
        position: Vec2 { x: px, y: py },
        combined_velocity: Velocity { x: vx, y: vy },
        new_size: size,
    }
}


/// The indices marked true in a flag vector, as a set.
pub open spec fn set_of(c: Seq<bool>) -> Set<int> {
    Set::new(|k: int| 0 <= k < c.len() && c[k])
}

/// Exec index pairs widened to the specification's integer pairs.
pub open spec fn pairs_int(s: Seq<(usize, usize)>) -> Seq<(int, int)> {
    s.map_values(|p: (usize, usize)| (p.0 as int, p.1 as int))
}

/// A merged entity is well-formed: the averaged velocity is in range and
/// the merged size is positive (growth is at least 1.0) and capped.
pub proof fn lemma_merged_winner_wf(a: Speaki, b: Speaki, cfg: MergeConfig, gl: nat)
    requires
        a.wf(gl),
        b.wf(gl),
        cfg.wf(),
    ensures
        merged_winner(a, b, cfg).wf(gl),
        merged_winner(a, b, cfg).id == a.id,
{
    let sum = a.size.0 + b.size.0;
    let avg = tdiv(sum, 2);
    assert(1 <= avg <= COORD_LIMIT);
    assert(avg * cfg.growth_factor >= 1000) by (nonlinear_arith)
        requires
            avg >= 1 && cfg.growth_factor >= 1000,
    ;
    vstd::arithmetic::div_mod::lemma_div_is_ordered(1000, avg * cfg.growth_factor, 1000);
    assert(1000int / 1000 == 1);
    assert(tdiv(avg * cfg.growth_factor, 1000) >= 1);
    let vsum_x = a.vel.x + b.vel.x;
    let vsum_y = a.vel.y + b.vel.y;
    assert(in_range(tdiv(vsum_x, 2)));
    assert(in_range(tdiv(vsum_y, 2)));
}

/// Detect and execute all merges of the tick. Pairs are scanned greedily
/// in store order over a snapshot: the surviving lower-index entity gets
/// the merged size and velocity, the other entity is removed, and one
/// merge request per pair is appended, in scan order.
#[verifier::rlimit(100)]
pub fn speaki_merge_system(world: &mut World, merge_config: &MergeConfig, bus: &mut RequestBus)
    requires
        old(world).wf(),
        merge_config.wf(),
    ensures
        final(world).wf(),
        final(world).next_id == old(world).next_id,
        final(world).graph_len == old(world).graph_len,
        !merge_config.enabled ==> final(world).speakis@ == old(world).speakis@ && final(bus).merges@
            == old(bus).merges@,
        final(world).speakis@.len() <= old(world).speakis@.len(),
        merge_config.enabled ==> final(world).speakis@ == merge_result(
            old(world).speakis@,
            *merge_config,
            first_dragged(old(world).speakis@),
        ),
        merge_config.enabled ==> final(bus).merges@ == old(bus).merges@ + merge_events(
            old(world).speakis@,
            *merge_config,
            first_dragged(old(world).speakis@),
        ),
        final(bus).spawns@ == old(bus).spawns@,
        final(bus).despawns@ == old(bus).despawns@,
        final(bus).voices@ == old(bus).voices@,
        final(bus).bounces@ == old(bus).bounces@,
        final(bus).shockwaves@ == old(bus).shockwaves@,
{
    if !merge_config.enabled {
        return ;
    }
    let dragged = crate::collision::find_first_dragged(&world.speakis);
    let n = world.speakis.len();
    let mut snap: Vec<Speaki> = Vec::new();
    let mut t: usize = 0;
    while t < n
        invariant
            t <= n,
            n == world.speakis@.len(),
            snap@.len() == t,
            forall|k: int| 0 <= k < t ==> #[trigger] snap@[k] == world.speakis@[k],
        decreases n - t,
    {
        snap.push(world.speakis[t]);
        t = t + 1;
    }
    proof {
        assert(snap@ =~= world.speakis@);
    }
    let ghost snap_s = snap@;

    // Scan phase: greedy first-match pairing over the snapshot.
    let mut consumed: Vec<bool> = Vec::new();
    let mut loser: Vec<bool> = Vec::new();
    let mut t2: usize = 0;
    while t2 < n
        invariant
            t2 <= n,
            consumed@.len() == t2,
            loser@.len() == t2,
            forall|k: int| 0 <= k < t2 ==> !(#[trigger] consumed@[k]),
            forall|k: int| 0 <= k < t2 ==> !(#[trigger] loser@[k]),
        decreases n - t2,
    {
        consumed.push(false);
        loser.push(false);
        t2 = t2 + 1;
    }
    let mut to_merge: Vec<(usize, usize)> = Vec::new();
    proof {
        assert(set_of(consumed@) =~= Set::<int>::empty());
        assert(pairs_int(to_merge@) =~= Seq::<(int, int)>::empty());
    }
    let mut i: usize = 0;
    while i < n
        invariant
            i <= n,
            n == snap_s.len(),
            snap_s == snap@,
            consumed@.len() == n,
            loser@.len() == n,
            merge_config.wf(),
            forall|k: int|
                0 <= k < snap_s.len() ==> (#[trigger] snap_s[k]).pos.wf() && snap_s[k].vel.wf() && 0
                    < snap_s[k].size.0 <= COORD_LIMIT,
            merge_pairs(snap_s, *merge_config, dragged) == pairs_int(to_merge@) + merge_scan_from(
                snap_s,
                *merge_config,
                dragged,
                set_of(consumed@),
                i as int,
            ),
            forall|k: int|
                0 <= k < to_merge@.len() ==> (#[trigger] to_merge@[k]).0 < i && to_merge@[k].0
                    < to_merge@[k].1 < n,
            forall|k1: int, k2: int|
                0 <= k1 < k2 < to_merge@.len() ==> (#[trigger] to_merge@[k1]).0 < (
                #[trigger] to_merge@[k2]).0,
            forall|x: int|
                0 <= x < n ==> (#[trigger] loser@[x] == merge_is_loser(pairs_int(to_merge@), x)),
        decreases n - i,
    {
        if !consumed[i] {
            let a = snap[i];
            let mut j: usize = i + 1;
            let mut found: Option<usize> = None;
            while j < n
                invariant
                    i < n,
                    i + 1 <= j <= n,
                    n == snap_s.len(),
                    snap_s == snap@,
                    a == snap_s[i as int],
                    consumed@.len() == n,
                    merge_config.wf(),
                    forall|k: int|
                        0 <= k < snap_s.len() ==> (#[trigger] snap_s[k]).pos.wf()
                            && snap_s[k].vel.wf() && 0 < snap_s[k].size.0 <= COORD_LIMIT,
                    found is None ==> first_merge_candidate(
                        snap_s,
                        *merge_config,
                        dragged,
                        set_of(consumed@),
                        i as int,
                        i + 1,
                    ) == first_merge_candidate(
                        snap_s,
                        *merge_config,
                        dragged,
                        set_of(consumed@),
                        i as int,
                        j as int,
                    ),
                    match found {
                        Some(jj) => j == n && i < jj < n && first_merge_candidate(
                            snap_s,
                            *merge_config,
                            dragged,
                            set_of(consumed@),
                            i as int,
                            i + 1,
                        ) == Some(jj as int),
                        None => true,
                    },
                decreases n - j,
            {
                if !consumed[j] && merge_eligible_exec(&a, &snap[j], merge_config, dragged) {
                    found = Some(j);
                    proof {
                        assert(!set_of(consumed@).contains(j as int));
                        assert(first_merge_candidate(
                            snap_s,
                            *merge_config,
                            dragged,
                            set_of(consumed@),
                            i as int,
                            j as int,
                        ) == Some(j as int));
                        assert(first_merge_candidate(
                            snap_s,
                            *merge_config,
                            dragged,
                            set_of(consumed@),
                            i as int,
                            i + 1,
                        ) == Some(j as int));
                    }
                    j = n;
                } else {
                    proof {
                        assert(first_merge_candidate(
                            snap_s,
                            *merge_config,
                            dragged,
                            set_of(consumed@),
                            i as int,
                            j as int,
                        ) == first_merge_candidate(
                            snap_s,
                            *merge_config,
                            dragged,
                            set_of(consumed@),
                            i as int,
                            j + 1,
                        ));
                    }
                    j = j + 1;
                }
            }
            match found {
                Some(jj) => {
                    let ghost old_consumed = consumed@;
                    let ghost old_pairs = to_merge@;
                    to_merge.push((i, jj));
                    consumed.set(i, true);
                    consumed.set(jj, true);
                    loser.set(jj, true);
                    proof {
                        assert(set_of(consumed@) =~= set_of(old_consumed).insert(i as int).insert(
                            jj as int,
                        ));
                        assert(pairs_int(to_merge@) =~= pairs_int(old_pairs).push(
                            (i as int, jj as int),
                        ));
                        assert(merge_scan_from(snap_s, *merge_config, dragged, set_of(old_consumed), i as int)
                            == seq![(i as int, jj as int)] + merge_scan_from(
                            snap_s,
                            *merge_config,
                            dragged,
                            set_of(old_consumed).insert(i as int).insert(jj as int),
                            i + 1,
                        ));
                        assert(merge_pairs(snap_s, *merge_config, dragged) =~= pairs_int(to_merge@)
                            + merge_scan_from(
                            snap_s,
                            *merge_config,
                            dragged,
                            set_of(consumed@),
                            i + 1,
                        ));
                        assert forall|x: int| 0 <= x < n implies (#[trigger] loser@[x]
                            == merge_is_loser(pairs_int(to_merge@), x)) by {
                            let ms = pairs_int(to_merge@);
                            let mso = pairs_int(old_pairs);
                            assert(ms == mso.push((i as int, jj as int)));
                            if x == jj {
                                assert(ms[ms.len() - 1].1 == x);
                                assert(merge_is_loser(ms, x));
                            } else {
                                if merge_is_loser(mso, x) {
                                    let k = choose|k: int|
                                        0 <= k < mso.len() && (#[trigger] mso[k]).1 == x;
                                    assert(ms[k].1 == x);
                                    assert(merge_is_loser(ms, x));
                                }
                                if merge_is_loser(ms, x) {
                                    let k = choose|k: int|
                                        0 <= k < ms.len() && (#[trigger] ms[k]).1 == x;
                                    if k < mso.len() {
                                        assert(mso[k].1 == x);
                                        assert(merge_is_loser(mso, x));
                                    }
                                }
                            }
                        }
                    }
                },
                None => {
                    proof {
                        assert(merge_scan_from(
                            snap_s,
                            *merge_config,
                            dragged,
                            set_of(consumed@),
                            i as int,
                        ) == merge_scan_from(snap_s, *merge_config, dragged, set_of(consumed@), i + 1));
                    }
                },
            }
        } else {
            proof {
                assert(set_of(consumed@).contains(i as int));
                assert(merge_scan_from(snap_s, *merge_config, dragged, set_of(consumed@), i as int)
                    == merge_scan_from(snap_s, *merge_config, dragged, set_of(consumed@), i + 1));
            }
        }
        i = i + 1;
    }
    let ghost ms = pairs_int(to_merge@);
    proof {
        assert(merge_scan_from(snap_s, *merge_config, dragged, set_of(consumed@), n as int)
            =~= Seq::<(int, int)>::empty());
        assert(merge_pairs(snap_s, *merge_config, dragged) =~= ms);
    }

    // Apply phase: build the new store and the merge requests.
    let mut out: Vec<Speaki> = Vec::new();
    let mut e: usize = 0;
    let mut mi: usize = 0;
    while e < n
        invariant
            e <= n,
            mi <= to_merge@.len(),
            n == snap_s.len(),
            snap_s == snap@,
            snap_s == old(world).speakis@,
            loser@.len() == n,
            old(world).wf(),
            merge_config.wf(),
            ms == pairs_int(to_merge@),
            ms == merge_pairs(snap_s, *merge_config, dragged),
            forall|k: int|
                0 <= k < ms.len() ==> 0 <= (#[trigger] ms[k]).0 < n && ms[k].0 < ms[k].1 < n,
            forall|k1: int, k2: int|
                0 <= k1 < k2 < ms.len() ==> (#[trigger] ms[k1]).0 < (#[trigger] ms[k2]).0,
            forall|x: int| 0 <= x < n ==> (#[trigger] loser@[x] == merge_is_loser(ms, x)),
            forall|k: int| 0 <= k < mi ==> (#[trigger] ms[k]).0 < e,
            forall|k: int| mi <= k < ms.len() ==> (#[trigger] ms[k]).0 >= e,
            out@.len() <= e,
            merge_result_rec(snap_s, ms, *merge_config, 0, 0) == out@ + merge_result_rec(
                snap_s,
                ms,
                *merge_config,
                e as int,
                mi as int,
            ),
            forall|k: int|
                0 <= k < out@.len() ==> (#[trigger] out@[k]).wf(old(world).graph_len as nat),
            forall|k: int|
                0 <= k < out@.len() ==> exists|o: int|
                    0 <= o < e && (#[trigger] out@[k]).id == snap_s[o].id,
            forall|k1: int, k2: int|
                0 <= k1 < k2 < out@.len() ==> (#[trigger] out@[k1]).id != (#[trigger] out@[k2]).id,
            bus.merges@.len() == old(bus).merges@.len() + mi,
            forall|k: int|
                0 <= k < old(bus).merges@.len() ==> #[trigger] bus.merges@[k] == old(
                    bus,
                ).merges@[k],
            forall|k: int|
                0 <= k < mi ==> #[trigger] bus.merges@[old(bus).merges@.len() + k]
                    == merge_event_of(snap_s[ms[k].0], snap_s[ms[k].1], *merge_config),
            bus.spawns@ == old(bus).spawns@,
            bus.despawns@ == old(bus).despawns@,
            bus.voices@ == old(bus).voices@,
            bus.bounces@ == old(bus).bounces@,
            bus.shockwaves@ == old(bus).shockwaves@,
        decreases n - e,
    {
        proof {
            assert(old(world).speakis@[e as int].wf(old(world).graph_len as nat));
        }
        let is_winner = mi < to_merge.len() && to_merge[mi].0 == e;
        if is_winner {
            let jj = to_merge[mi].1;
            proof {
                assert(old(world).speakis@[jj as int].wf(old(world).graph_len as nat));
                lemma_merged_winner_wf(
                    snap_s[e as int],
                    snap_s[jj as int],
                    *merge_config,
                    old(world).graph_len as nat,
                );
            }
            let w = merged_winner_exec(&snap[e], &snap[jj], merge_config);
            let ev = merge_event_exec(&snap[e], &snap[jj], merge_config);
            proof {
                assert forall|k1: int| 0 <= k1 < out@.len() implies (#[trigger] out@[k1]).id
                    != w.id by {
                    let o = choose|o: int| 0 <= o < e && (#[trigger] out@[k1]).id == snap_s[o].id;
                    assert(old(world).speakis@[o].id != old(world).speakis@[e as int].id);
                }
            }
            out.push(w);
            bus.merges.push(ev);
            mi = mi + 1;
            proof {
                assert(merge_result_rec(snap_s, ms, *merge_config, e as int, mi - 1) == seq![
                    merged_winner(snap_s[e as int], snap_s[ms[mi - 1].1], *merge_config),
                ] + merge_result_rec(snap_s, ms, *merge_config, e + 1, mi as int));
                assert(merge_result_rec(snap_s, ms, *merge_config, 0, 0) =~= out@ + merge_result_rec(
                    snap_s,
                    ms,
                    *merge_config,
                    e + 1,
                    mi as int,
                ));
            }
        } else if loser[e] {
            proof {
                assert(merge_is_loser(ms, e as int));
                if mi < ms.len() && ms[mi as int].0 == e {
                    assert(false);
                }
                assert(merge_result_rec(snap_s, ms, *merge_config, e as int, mi as int)
                    == merge_result_rec(snap_s, ms, *merge_config, e + 1, mi as int));
            }
        } else {
            proof {
                assert(!merge_is_loser(ms, e as int));
                assert(merge_result_rec(snap_s, ms, *merge_config, e as int, mi as int) == seq![
                    snap_s[e as int],
                ] + merge_result_rec(snap_s, ms, *merge_config, e + 1, mi as int));
            }
            let plain = snap[e];
            proof {
                assert forall|k1: int| 0 <= k1 < out@.len() implies (#[trigger] out@[k1]).id
                    != plain.id by {
                    let o = choose|o: int| 0 <= o < e && (#[trigger] out@[k1]).id == snap_s[o].id;
                    assert(old(world).speakis@[o].id != old(world).speakis@[e as int].id);
                }
            }
            out.push(plain);
            proof {
                assert(merge_result_rec(snap_s, ms, *merge_config, 0, 0) =~= out@ + merge_result_rec(
                    snap_s,
                    ms,
                    *merge_config,
                    e + 1,
                    mi as int,
                ));
            }
        }
        e = e + 1;
    }
    proof {
        if mi < ms.len() {
            assert(ms[mi as int].0 >= n);
            assert(false);
        }
        assert(merge_result_rec(snap_s, ms, *merge_config, n as int, mi as int) =~= Seq::<Speaki>::empty());
        assert(merge_result_rec(snap_s, ms, *merge_config, 0, 0) =~= out@);
        let evs = merge_events(snap_s, *merge_config, dragged);
        assert(evs.len() == ms.len());
        assert forall|k: int| 0 <= k < ms.len() implies #[trigger] evs[k] == merge_event_of(
            snap_s[ms[k].0],
            snap_s[ms[k].1],
            *merge_config,
        ) by {
            assert(evs[k] == merge_event_of(snap_s[ms[k].0], snap_s[ms[k].1], *merge_config));
        }
        let base = old(bus).merges@.len() as int;
        assert forall|ii: int| base <= ii < bus.merges@.len() implies #[trigger] bus.merges@[ii]
            == evs[ii - base] by {
            let k = ii - base;
            assert(bus.merges@[base + k] == merge_event_of(
                snap_s[ms[k].0],
                snap_s[ms[k].1],
                *merge_config,
            ));
        }
        assert(bus.merges@ =~= old(bus).merges@ + evs);
    }
    world.speakis = out;
}


/// Merge conservation: for two entities alone in the store that are within
/// tolerance and overlapping, exactly one merge happens — the first entity
/// survives with size `min(max_size, ((s1+s2)/2)·growth/1000)` and the
/// second is destroyed; one merge request carries the resulting state.
pub proof fn lemma_merge_conservation(snap: Seq<Speaki>, cfg: MergeConfig, dragged: Option<u64>)
    requires
        snap.len() == 2,
        merge_eligible(snap[0], snap[1], cfg, dragged),
    ensures
        merge_pairs(snap, cfg, dragged) =~= seq![(0int, 1int)],
        merge_result(snap, cfg, dragged) =~= seq![merged_winner(snap[0], snap[1], cfg)],
        merge_result(snap, cfg, dragged)[0].size.0 == merge_new_size(snap[0], snap[1], cfg),
        merge_result(snap, cfg, dragged)[0].id == snap[0].id,
        merge_events(snap, cfg, dragged) =~= seq![merge_event_of(snap[0], snap[1], cfg)],
{
    let c0 = Set::<int>::empty();
    assert(!c0.contains(0) && !c0.contains(1));
    assert(first_merge_candidate(snap, cfg, dragged, c0, 0, 1) == Some(1int));
    let c1 = c0.insert(0).insert(1);
    assert(c1.contains(1));
    assert(merge_scan_from(snap, cfg, dragged, c1, 2) =~= Seq::<(int, int)>::empty());
    assert(merge_scan_from(snap, cfg, dragged, c1, 1) =~= Seq::<(int, int)>::empty());
    assert(merge_pairs(snap, cfg, dragged) =~= seq![(0int, 1int)] + Seq::<(int, int)>::empty());
    let ms = merge_pairs(snap, cfg, dragged);
    assert(ms =~= seq![(0int, 1int)]);
    assert(ms[0].0 == 0 && ms[0].1 == 1);
    assert(merge_result_rec(snap, ms, cfg, 2, 1) =~= Seq::<Speaki>::empty());
    assert(merge_is_loser(ms, 1));
    assert(merge_result_rec(snap, ms, cfg, 1, 1) =~= Seq::<Speaki>::empty());
    assert(merge_result_rec(snap, ms, cfg, 0, 0) =~= seq![merged_winner(snap[0], snap[1], cfg)]
        + Seq::<Speaki>::empty());
    assert(merge_result(snap, cfg, dragged) =~= seq![merged_winner(snap[0], snap[1], cfg)]);
    assert(merge_events(snap, cfg, dragged)[0] == merge_event_of(snap[0], snap[1], cfg));
}


proof fn lemma_candidate_none(
    snap: Seq<Speaki>,
    cfg: MergeConfig,
    dragged: Option<u64>,
    consumed: Set<int>,
    i: int,
    j0: int,
)
    requires
        0 <= j0,
        forall|j: int|
            j0 <= j < snap.len() ==> consumed.contains(j) || !merge_eligible(
                snap[i],
                #[trigger] snap[j],
                cfg,
                dragged,
            ),
    ensures
        first_merge_candidate(snap, cfg, dragged, consumed, i, j0) == None::<int>,
    decreases snap.len() - j0,
{
    if j0 < snap.len() {
        lemma_candidate_none(snap, cfg, dragged, consumed, i, j0 + 1);
    }
}

proof fn lemma_candidate_hits(
    snap: Seq<Speaki>,
    cfg: MergeConfig,
    dragged: Option<u64>,
    consumed: Set<int>,
    i: int,
    j0: int,
    y: int,
)
    requires
        0 <= j0 <= y < snap.len(),
        !consumed.contains(y),
        merge_eligible(snap[i], snap[y], cfg, dragged),
        forall|j: int|
            j0 <= j < y ==> consumed.contains(j) || !merge_eligible(
                snap[i],
                #[trigger] snap[j],
                cfg,
                dragged,
            ),
    ensures
        first_merge_candidate(snap, cfg, dragged, consumed, i, j0) == Some(y),
    decreases y - j0,
{
    if j0 < y {
        lemma_candidate_hits(snap, cfg, dragged, consumed, i, j0 + 1, y);
    }
}

proof fn lemma_scan_empty(
    snap: Seq<Speaki>,
    cfg: MergeConfig,
    dragged: Option<u64>,
    consumed: Set<int>,
    i0: int,
)
    requires
        0 <= i0,
        forall|i: int, j: int|
            i0 <= i < j < snap.len() && !consumed.contains(i) && !consumed.contains(j)
                ==> !merge_eligible(#[trigger] snap[i], #[trigger] snap[j], cfg, dragged),
    ensures
        merge_scan_from(snap, cfg, dragged, consumed, i0) =~= Seq::<(int, int)>::empty(),
    decreases snap.len() - i0,
{
    if i0 < snap.len() {
        lemma_scan_empty(snap, cfg, dragged, consumed, i0 + 1);
        if !consumed.contains(i0) {
            lemma_candidate_none(snap, cfg, dragged, consumed, i0, i0 + 1);
        }
    }
}

proof fn lemma_scan_skip_to(
    snap: Seq<Speaki>,
    cfg: MergeConfig,
    dragged: Option<u64>,
    consumed: Set<int>,
    i0: int,
    x: int,
)
    requires
        0 <= i0 <= x <= snap.len(),
        forall|i: int, j: int|
            i0 <= i < x && i < j < snap.len() && !consumed.contains(i) && !consumed.contains(j)
                ==> !merge_eligible(#[trigger] snap[i], #[trigger] snap[j], cfg, dragged),
    ensures
        merge_scan_from(snap, cfg, dragged, consumed, i0) == merge_scan_from(
            snap,
            cfg,
            dragged,
            consumed,
            x,
        ),
    decreases x - i0,
{
    if i0 < x {
        if !consumed.contains(i0) {
            lemma_candidate_none(snap, cfg, dragged, consumed, i0, i0 + 1);
        }
        lemma_scan_skip_to(snap, cfg, dragged, consumed, i0 + 1, x);
    }
}

proof fn lemma_result_tail(snap: Seq<Speaki>, ms: Seq<(int, int)>, cfg: MergeConfig, y: int, e: int)
    requires
        ms.len() == 1,
        ms[0].1 == y,
        0 <= y < e <= snap.len(),
    ensures
        merge_result_rec(snap, ms, cfg, e, 1) =~= snap.skip(e),
    decreases snap.len() - e,
{
    if e < snap.len() {
        lemma_result_tail(snap, ms, cfg, y, e + 1);
        assert(!merge_is_loser(ms, e)) by {
            assert(forall|k: int| 0 <= k < ms.len() ==> (#[trigger] ms[k]).1 == y);
        }
        assert(merge_result_rec(snap, ms, cfg, e, 1) == seq![snap[e]] + merge_result_rec(
            snap,
            ms,
            cfg,
            e + 1,
            1,
        ));
        assert(merge_result_rec(snap, ms, cfg, e, 1) =~= seq![snap[e]] + snap.skip(e + 1));
    }
}

proof fn lemma_result_mid(snap: Seq<Speaki>, ms: Seq<(int, int)>, cfg: MergeConfig, y: int, e: int)
    requires
        ms.len() == 1,
        ms[0].1 == y,
        0 <= e <= y < snap.len(),
    ensures
        merge_result_rec(snap, ms, cfg, e, 1) =~= snap.subrange(e, y) + snap.skip(y + 1),
    decreases y - e,
{
    if e == y {
        assert(merge_is_loser(ms, y));
        lemma_result_tail(snap, ms, cfg, y, y + 1);
        assert(merge_result_rec(snap, ms, cfg, y, 1) =~= snap.subrange(y, y) + snap.skip(y + 1));
    } else {
        lemma_result_mid(snap, ms, cfg, y, e + 1);
        assert(!merge_is_loser(ms, e));
        assert(merge_result_rec(snap, ms, cfg, e, 1) =~= seq![snap[e]] + (snap.subrange(e + 1, y)
            + snap.skip(y + 1)));
        assert(seq![snap[e]] + (snap.subrange(e + 1, y) + snap.skip(y + 1)) =~= snap.subrange(e, y)
            + snap.skip(y + 1));
    }
}

proof fn lemma_result_head(
    snap: Seq<Speaki>,
    ms: Seq<(int, int)>,
    cfg: MergeConfig,
    x: int,
    y: int,
    e: int,
)
    requires
        ms.len() == 1,
        ms[0].0 == x,
        ms[0].1 == y,
        0 <= e <= x < y < snap.len(),
    ensures
        merge_result_rec(snap, ms, cfg, e, 0) =~= snap.subrange(e, x) + seq![
            merged_winner(snap[x], snap[y], cfg),
        ] + snap.subrange(x + 1, y) + snap.skip(y + 1),
    decreases x - e,
{
    let w = merged_winner(snap[x], snap[y], cfg);
    if e == x {
        lemma_result_mid(snap, ms, cfg, y, x + 1);
        assert(merge_result_rec(snap, ms, cfg, x, 0) =~= seq![w] + (snap.subrange(x + 1, y)
            + snap.skip(y + 1)));
        assert(seq![w] + (snap.subrange(x + 1, y) + snap.skip(y + 1)) =~= snap.subrange(x, x)
            + seq![w] + snap.subrange(x + 1, y) + snap.skip(y + 1));
    } else {
        lemma_result_head(snap, ms, cfg, x, y, e + 1);
        assert(!merge_is_loser(ms, e));
        assert(merge_result_rec(snap, ms, cfg, e, 0) =~= seq![snap[e]] + (snap.subrange(e + 1, x)
            + seq![w] + snap.subrange(x + 1, y) + snap.skip(y + 1)));
        assert(seq![snap[e]] + (snap.subrange(e + 1, x) + seq![w] + snap.subrange(x + 1, y)
            + snap.skip(y + 1)) =~= snap.subrange(e, x) + seq![w] + snap.subrange(x + 1, y)
            + snap.skip(y + 1));
    }
}

/// Merge conservation in a general store: when exactly the pair `(x, y)`
/// is eligible this tick, exactly that pair merges — the lower-index
/// entity survives with the merged size `min(max_size, avg·growth)`, the
/// higher-index one is destroyed, every bystander is untouched, the live
/// count drops by exactly one, and one merge request reports the pair.
pub proof fn lemma_merge_conservation_general(
    snap: Seq<Speaki>,
    cfg: MergeConfig,
    dragged: Option<u64>,
    x: int,
    y: int,
)
    requires
        0 <= x < y < snap.len(),
        merge_eligible(snap[x], snap[y], cfg, dragged),
        forall|i: int, j: int|
            0 <= i < j < snap.len() && !(i == x && j == y) ==> !merge_eligible(
                #[trigger] snap[i],
                #[trigger] snap[j],
                cfg,
                dragged,
            ),
    ensures
        merge_pairs(snap, cfg, dragged) =~= seq![(x, y)],
        merge_result(snap, cfg, dragged) =~= snap.update(
            x,
            merged_winner(snap[x], snap[y], cfg),
        ).remove(y),
        merge_result(snap, cfg, dragged).len() == snap.len() - 1,
        merge_result(snap, cfg, dragged)[x].size.0 == merge_new_size(snap[x], snap[y], cfg),
        merge_result(snap, cfg, dragged)[x].id == snap[x].id,
        merge_events(snap, cfg, dragged) =~= seq![merge_event_of(snap[x], snap[y], cfg)],
{
    let c0 = Set::<int>::empty();
    lemma_scan_skip_to(snap, cfg, dragged, c0, 0, x);
    lemma_candidate_hits(snap, cfg, dragged, c0, x, x + 1, y);
    let c1 = c0.insert(x).insert(y);
    assert(merge_scan_from(snap, cfg, dragged, c0, x) == seq![(x, y)] + merge_scan_from(
        snap,
        cfg,
        dragged,
        c1,
        x + 1,
    ));
    lemma_scan_empty(snap, cfg, dragged, c1, x + 1);
    let ms = merge_pairs(snap, cfg, dragged);
    assert(ms =~= seq![(x, y)]);
    lemma_result_head(snap, ms, cfg, x, y, 0);
    let w = merged_winner(snap[x], snap[y], cfg);
    assert(merge_result(snap, cfg, dragged) =~= snap.subrange(0, x) + seq![w] + snap.subrange(
        x + 1,
        y,
    ) + snap.skip(y + 1));
    assert(snap.update(x, w).remove(y) =~= snap.subrange(0, x) + seq![w] + snap.subrange(x + 1, y)
        + snap.skip(y + 1));
    assert(merge_result(snap, cfg, dragged)[x] == w);
    assert(merge_events(snap, cfg, dragged).len() == 1);
    assert(merge_events(snap, cfg, dragged)[0] == merge_event_of(snap[ms[0].0], snap[ms[0].1], cfg));
}

} // verus!
