//! The global laws of the simulation, proved once over the tick's
//! functional specification.

use vstd::prelude::*;

use crate::body::{body_wf, BodyModel};
use crate::geom::{clip, dist2, in_range, Vec2, SCALE};
use crate::sim::{accel_of, all_wf, collides_with_primary, integrate, integrate_from, prune,
    prune_from, step_body, swap_remove_seq, trail_push, update_spec, vel_accum};

verus! {

/// No two bodies in `s` share an identifier.
pub open spec fn distinct_ids(s: Seq<BodyModel>) -> bool {
    forall|k1: int, k2: int| 0 <= k1 < k2 < s.len() ==> s[k1].id != s[k2].id
}

/// Some body in `s` carries the identifier `id`.
pub open spec fn has_id(s: Seq<BodyModel>, id: u128) -> bool {
    exists|k: int| 0 <= k < s.len() && s[k].id == id
}

// ---------- Structure kept by the integration pass ----------

/// The integration pass keeps the number of bodies, and each body's
/// identifier, mass, radius, color and dynamic flag.
proof fn lemma_integrate_keeps(s: Seq<BodyModel>, i: int)
    ensures
        integrate_from(s, i).len() == s.len(),
        forall|k: int| 0 <= k < s.len() ==> {
            let r = #[trigger] integrate_from(s, i)[k];
            &&& r.id == s[k].id
            &&& r.mass == s[k].mass
            &&& r.radius == s[k].radius
            &&& r.color == s[k].color
            &&& r.is_dynamic == s[k].is_dynamic
        },
    decreases s.len() - i,
{
    if 0 <= i < s.len() {
        lemma_integrate_keeps(s.update(i, step_body(s, i)), i + 1);
    }
}

// ---------- The static system (no dynamic bodies) ----------

/// The integration pass moves nothing in a system without dynamic bodies:
/// from index `i` on, positions and velocities are kept and each trail
/// gains exactly the entry of the body's current position; bodies below
/// `i` are untouched.
proof fn lemma_integrate_static(s: Seq<BodyModel>, i: int)
    requires
        0 <= i,
        forall|k: int| 0 <= k < s.len() ==> !(#[trigger] s[k]).is_dynamic,
    ensures
        integrate_from(s, i).len() == s.len(),
        forall|k: int| 0 <= k < i && k < s.len() ==> #[trigger] integrate_from(s, i)[k] == s[k],
        forall|k: int| i <= k < s.len() ==> {
            let r = #[trigger] integrate_from(s, i)[k];
            &&& r.pos == s[k].pos
            &&& r.vel == s[k].vel
            &&& r.trail == trail_push(s[k].trail, s[k].pos)
        },
    decreases s.len() - i,
{
    if 0 <= i < s.len() {
        let stepped = step_body(s, i);
        let s2 = s.update(i, stepped);
        assert(!s[i].is_dynamic);
        assert(stepped.pos == s[i].pos && stepped.vel == s[i].vel && stepped.trail == trail_push(
            s[i].trail,
            s[i].pos,
        ));
        assert(forall|k: int| 0 <= k < s2.len() ==> !(#[trigger] s2[k]).is_dynamic);
        lemma_integrate_static(s2, i + 1);
        assert(integrate_from(s, i) == integrate_from(s2, i + 1));
        assert(integrate_from(s2, i + 1)[i] == s2[i]);
    }
}

/// The pruning pass does nothing when no scanned body collides with the
/// primary.
proof fn lemma_prune_from_noop(s: Seq<BodyModel>, i: int)
    requires
        forall|m: int| 1 <= m <= i && m < s.len() ==> !collides_with_primary(s, m),
    ensures
        prune_from(s, i) == s,
    decreases i,
{
    if 1 <= i < s.len() {
        lemma_prune_from_noop(s, i - 1);
    }
}

/// The pruning pass does nothing when no body collides with the primary.
pub proof fn lemma_prune_noop(s: Seq<BodyModel>)
    requires
        forall|m: int| 1 <= m < s.len() ==> !collides_with_primary(s, m),
    ensures
        prune(s) == s,
{
    if s.len() > 0 {
        lemma_prune_from_noop(s, s.len() - 1);
    }
}

/// A tick of a system with no dynamic body and no body inside the primary
/// leaves every position and velocity unchanged and appends exactly one
/// trail entry — the body's own current position — to every body.
pub proof fn lemma_static_tick(s: Seq<BodyModel>)
    requires
        forall|k: int| 0 <= k < s.len() ==> !(#[trigger] s[k]).is_dynamic,
        forall|m: int| 1 <= m < s.len() ==> !collides_with_primary(s, m),
    ensures
        update_spec(s).len() == s.len(),
        forall|k: int| 0 <= k < s.len() ==> {
            let r = #[trigger] update_spec(s)[k];
            &&& r.pos == s[k].pos
            &&& r.vel == s[k].vel
            &&& r.trail == trail_push(s[k].trail, s[k].pos)
        },
{
    lemma_prune_noop(s);
    lemma_integrate_static(s, 0);
}

// ---------- Well-formedness and the trail bound ----------

/// Every element of the pruned sequence is an element of the original.
proof fn lemma_prune_from_elems(s: Seq<BodyModel>, i: int)
    ensures
        forall|k: int| 0 <= k < prune_from(s, i).len() ==> s.contains(
            #[trigger] prune_from(s, i)[k],
        ),
    decreases i,
{
    if 1 <= i < s.len() {
        let s2 = if collides_with_primary(s, i) {
            swap_remove_seq(s, i)
        } else {
            s
        };
        lemma_prune_from_elems(s2, i - 1);
        assert forall|k: int| 0 <= k < prune_from(s, i).len() implies s.contains(
            #[trigger] prune_from(s, i)[k],
        ) by {
            assert(prune_from(s, i) == prune_from(s2, i - 1));
            assert(s2.contains(prune_from(s2, i - 1)[k]));
            let m2 = choose|m2: int| 0 <= m2 < s2.len() && s2[m2] == prune_from(s2, i - 1)[k];
            if collides_with_primary(s, i) && m2 == i {
                assert(s[s.len() - 1] == prune_from(s, i)[k]);
            } else {
                assert(s[m2] == prune_from(s, i)[k]);
            }
        }
    } else {
        assert(prune_from(s, i) == s);
        assert forall|k: int| 0 <= k < prune_from(s, i).len() implies s.contains(
            #[trigger] prune_from(s, i)[k],
        ) by {
            assert(s[k] == prune_from(s, i)[k]);
        }
    }
}

/// The accumulated velocity stays within the coordinate range.
proof fn lemma_vel_accum_in_range(s: Seq<BodyModel>, i: int, n: int)
    requires
        0 <= i < s.len(),
        in_range(s[i].vel),
    ensures
        in_range(vel_accum(s, i, n)),
    decreases n,
{
    if n > 0 {
        lemma_vel_accum_in_range(s, i, n - 1);
    }
}

/// The integration pass keeps every body well-formed.
proof fn lemma_integrate_wf(s: Seq<BodyModel>, i: int)
    requires
        all_wf(s),
    ensures
        all_wf(integrate_from(s, i)),
    decreases s.len() - i,
{
    if 0 <= i < s.len() {
        lemma_vel_accum_in_range(s, i, s.len() as int);
        assert(body_wf(step_body(s, i)));
        assert(all_wf(s.update(i, step_body(s, i))));
        lemma_integrate_wf(s.update(i, step_body(s, i)), i + 1);
    }
}

/// A tick keeps every body well-formed; in particular no trail ever
/// exceeds its capacity, however many ticks elapse.
pub proof fn lemma_tick_wf(s: Seq<BodyModel>)
    requires
        all_wf(s),
    ensures
        all_wf(update_spec(s)),
{
    lemma_prune_from_elems(s, s.len() - 1);
    assert forall|k: int| 0 <= k < prune(s).len() implies body_wf(#[trigger] prune(s)[k]) by {
        assert(s.contains(prune(s)[k]));
        let m = choose|m: int| 0 <= m < s.len() && s[m] == prune(s)[k];
        assert(body_wf(s[m]));
    }
    lemma_integrate_wf(prune(s), 0);
}

// ---------- Exact pruning: which bodies a tick removes ----------

/// `x` is an element of `s` that the scan down to `i` may keep: the
/// primary, an unscanned element, or a scanned non-collider.
spec fn kept_from(s: Seq<BodyModel>, i: int, x: BodyModel) -> bool {
    exists|m: int|
        {
            &&& 0 <= m < s.len()
            &&& x == #[trigger] s[m]
            &&& (m == 0 || m > i || !collides_with_primary(s, m))
        }
}

/// Over the downward scan from `i`: the primary stays in place, every
/// element of the result is an original the scan may keep, every scanned
/// collider's identifier is gone, and every other identifier is kept.
proof fn lemma_prune_from_exact(s: Seq<BodyModel>, i: int)
    requires
        0 <= i < s.len(),
        distinct_ids(s),
    ensures
        prune_from(s, i).len() >= 1,
        prune_from(s, i)[0] == s[0],
        forall|k: int| 0 <= k < prune_from(s, i).len() ==> kept_from(
            s,
            i,
            #[trigger] prune_from(s, i)[k],
        ),
        forall|m: int| 1 <= m <= i && #[trigger] collides_with_primary(s, m) ==> !has_id(
            prune_from(s, i),
            s[m].id,
        ),
        forall|m: int|
            0 <= m < s.len() && (m == 0 || m > i || !collides_with_primary(s, m)) ==> has_id(
                prune_from(s, i),
                (#[trigger] s[m]).id,
            ),
    decreases i,
{
    let r = prune_from(s, i);
    if i == 0 {
        assert(r == s);
        assert forall|k: int| 0 <= k < r.len() implies kept_from(s, i, #[trigger] r[k]) by {
            assert(r[k] == s[k] && (k == 0 || k > 0));
        }
        assert forall|m: int|
            0 <= m < s.len() && (m == 0 || m > i || !collides_with_primary(
                s,
                m,
            )) implies has_id(r, (#[trigger] s[m]).id) by {
            assert(0 <= m < r.len() && r[m].id == s[m].id);
        }
    } else if collides_with_primary(s, i) {
        let s2 = swap_remove_seq(s, i);
        let last = s.len() - 1;
        // Where each element of `s2` came from in `s`.
        let src = |a: int| if a == i { last } else { a };
        assert forall|a: int| 0 <= a < s2.len() implies #[trigger] s2[a] == s[src(a)] by {}
        assert forall|k1: int, k2: int| 0 <= k1 < k2 < s2.len() implies s2[k1].id != s2[k2].id by {
            assert(s2[k1] == s[src(k1)] && s2[k2] == s[src(k2)]);
            assert(src(k1) != src(k2));
        }
        lemma_prune_from_exact(s2, i - 1);
        assert(r == prune_from(s2, i - 1));
        assert(r[0] == s2[0] && s2[0] == s[0]);
        assert forall|m: int| 1 <= m <= i - 1 implies collides_with_primary(s2, m)
            == collides_with_primary(s, m) by {
            assert(s2[m] == s[m] && s2[0] == s[0]);
        }
        // Every element of the result is an original the scan may keep.
        assert forall|k: int| 0 <= k < r.len() implies kept_from(s, i, #[trigger] r[k]) by {
            assert(kept_from(s2, i - 1, r[k]));
            let m2 = choose|m2: int|
                {
                    &&& 0 <= m2 < s2.len()
                    &&& r[k] == #[trigger] s2[m2]
                    &&& (m2 == 0 || m2 > i - 1 || !collides_with_primary(s2, m2))
                };
            let m = src(m2);
            assert(r[k] == s[m]);
            if m2 == 0 {
                assert(m == 0);
            } else if m2 == i {
                assert(m == last && m > i);
            } else if m2 > i - 1 {
                assert(m == m2 && m > i);
            } else {
                assert(m == m2 && !collides_with_primary(s, m));
            }
            assert(kept_from(s, i, r[k]));
        }
        // Every scanned collider's identifier is gone.
        assert forall|m: int| 1 <= m <= i && #[trigger] collides_with_primary(s, m) implies !has_id(
            r,
            s[m].id,
        ) by {
            if m < i {
                assert(collides_with_primary(s2, m));
                assert(!has_id(r, s2[m].id) && s2[m] == s[m]);
            } else {
                // The removed body `s[i]`: nothing in `r` carries its id.
                if has_id(r, s[i].id) {
                    let k = choose|k: int| 0 <= k < r.len() && r[k].id == s[i].id;
                    assert(kept_from(s2, i - 1, r[k]));
                    let m2 = choose|m2: int|
                        {
                            &&& 0 <= m2 < s2.len()
                            &&& r[k] == #[trigger] s2[m2]
                            &&& (m2 == 0 || m2 > i - 1 || !collides_with_primary(s2, m2))
                        };
                    assert(s2[m2] == s[src(m2)]);
                    assert(src(m2) != i);
                    assert(s[src(m2)].id != s[i].id);
                    assert(false);
                }
            }
        }
        // Every other identifier is kept.
        assert forall|m: int|
            0 <= m < s.len() && (m == 0 || m > i || !collides_with_primary(
                s,
                m,
            )) implies has_id(r, (#[trigger] s[m]).id) by {
            if m == 0 {
                assert(has_id(r, s2[0].id) && s2[0] == s[0]);
            } else if m == last && m > i {
                assert(s2[i] == s[last]);
                assert(has_id(r, s2[i].id));
            } else if m > i {
                assert(s2[m] == s[m] && m > i - 1);
                assert(has_id(r, s2[m].id));
            } else {
                assert(m <= i && !collides_with_primary(s, m) && m != i);
                assert(s2[m] == s[m] && !collides_with_primary(s2, m));
                assert(has_id(r, s2[m].id));
            }
        }
    } else {
        lemma_prune_from_exact(s, i - 1);
        assert(r == prune_from(s, i - 1));
        assert forall|k: int| 0 <= k < r.len() implies kept_from(s, i, #[trigger] r[k]) by {
            assert(kept_from(s, i - 1, r[k]));
            let m = choose|m: int|
                {
                    &&& 0 <= m < s.len()
                    &&& r[k] == #[trigger] s[m]
                    &&& (m == 0 || m > i - 1 || !collides_with_primary(s, m))
                };
            assert(m == 0 || m > i || m == i || !collides_with_primary(s, m));
            assert(kept_from(s, i, r[k]));
        }
    }
}

/// The integration pass neither adds nor removes an identifier.
proof fn lemma_integrate_has_id(s: Seq<BodyModel>, id: u128)
    ensures
        has_id(integrate(s), id) <==> has_id(s, id),
{
    lemma_integrate_keeps(s, 0);
    if has_id(s, id) {
        let m = choose|m: int| 0 <= m < s.len() && s[m].id == id;
        assert(integrate(s)[m].id == id);
    }
    if has_id(integrate(s), id) {
        let m = choose|m: int| 0 <= m < integrate(s).len() && integrate(s)[m].id == id;
        assert(s[m].id == id);
    }
}

/// A tick removes exactly the bodies that lie strictly within the primary
/// body's radius — never the primary itself — and keeps every other body,
/// whatever their indices; bodies are tracked by their stable identifier,
/// since storage order is not preserved.
pub proof fn lemma_prune_exact(s: Seq<BodyModel>)
    requires
        s.len() >= 1,
        distinct_ids(s),
    ensures
        update_spec(s).len() >= 1,
        update_spec(s)[0].id == s[0].id,
        forall|m: int| 1 <= m < s.len() && #[trigger] collides_with_primary(s, m) ==> !has_id(
            update_spec(s),
            s[m].id,
        ),
        forall|m: int| 1 <= m < s.len() && !(#[trigger] collides_with_primary(s, m)) ==> has_id(
            update_spec(s),
            s[m].id,
        ),
        has_id(update_spec(s), s[0].id),
{
    let p = prune(s);
    if s.len() == 1 {
        assert(p == s);
    } else {
        lemma_prune_from_exact(s, s.len() - 1);
    }
    lemma_integrate_keeps(p, 0);
    assert(update_spec(s)[0].id == p[0].id);
    assert forall|m: int|
        1 <= m < s.len() && #[trigger] collides_with_primary(s, m) implies !has_id(
        update_spec(s),
        s[m].id,
    ) by {
        lemma_integrate_has_id(p, s[m].id);
    }
    assert forall|m: int|
        1 <= m < s.len() && !(#[trigger] collides_with_primary(s, m)) implies has_id(
        update_spec(s),
        s[m].id,
    ) by {
        lemma_integrate_has_id(p, s[m].id);
    }
    lemma_integrate_has_id(p, s[0].id);
    assert(p[0].id == s[0].id && 0 < p.len());
}

/// The collision rule is a strict threshold: a body strictly inside the
/// primary's radius is removed by the next tick, a body at or beyond it
/// is retained — equality retains.
pub proof fn lemma_collision_threshold(s: Seq<BodyModel>, m: int)
    requires
        s.len() >= 1,
        distinct_ids(s),
        1 <= m < s.len(),
    ensures
        dist2(s[m].pos, s[0].pos) < (s[0].radius * SCALE) * (s[0].radius * SCALE) ==> !has_id(
            update_spec(s),
            s[m].id,
        ),
        dist2(s[m].pos, s[0].pos) >= (s[0].radius * SCALE) * (s[0].radius * SCALE) ==> has_id(
            update_spec(s),
            s[m].id,
        ),
{
    lemma_prune_exact(s);
    assert(collides_with_primary(s, m) <==> dist2(s[m].pos, s[0].pos) < (s[0].radius * SCALE) * (
    s[0].radius * SCALE));
}

// ---------- The two-body closed form ----------

/// In a two-body system — a non-dynamic primary and a dynamic second body
/// at a nonzero distance, outside the primary's radius — one tick changes
/// the second body's velocity by exactly the gravitational acceleration
/// of the primary, `G * mass * delta / dist^3` in its exact fixed-point
/// form `accel_of`, and then moves it by the new velocity; the primary
/// does not move.
pub proof fn lemma_two_body_kick(s: Seq<BodyModel>)
    requires
        s.len() == 2,
        !s[0].is_dynamic,
        s[1].is_dynamic,
        !collides_with_primary(s, 1),
        dist2(s[1].pos, s[0].pos) != 0,
    ensures
        update_spec(s).len() == 2,
        update_spec(s)[1].vel == ({
            let a = accel_of(s[1].pos, s[0].pos, s[0].mass as int);
            Vec2 { x: clip(s[1].vel.x + a.0), y: clip(s[1].vel.y + a.1) }
        }),
        update_spec(s)[1].pos == (Vec2 {
            x: clip(s[1].pos.x + update_spec(s)[1].vel.x),
            y: clip(s[1].pos.y + update_spec(s)[1].vel.y),
        }),
        update_spec(s)[0].pos == s[0].pos,
        update_spec(s)[0].vel == s[0].vel,
{
    lemma_prune_noop(s);
    let b0 = step_body(s, 0);
    let s1 = s.update(0, b0);
    assert(b0.pos == s[0].pos && b0.vel == s[0].vel && b0.mass == s[0].mass);
    assert(integrate(s) == integrate_from(s1, 1));
    let b1 = step_body(s1, 1);
    let s2 = s1.update(1, b1);
    assert(integrate_from(s1, 1) == integrate_from(s2, 2));
    assert(integrate_from(s2, 2) == s2);
    assert(s1[1] == s[1]);
    // Unfold the accumulated velocity of body 1 over both indices.
    let v0 = vel_accum(s1, 1, 0);
    assert(v0 == s[1].vel);
    let v1 = vel_accum(s1, 1, 1);
    assert(dist2(s1[1].pos, s1[0].pos) == dist2(s[1].pos, s[0].pos));
    let a = accel_of(s1[1].pos, s1[0].pos, s1[0].mass as int);
    assert(v1 == (Vec2 { x: clip(v0.x + a.0), y: clip(v0.y + a.1) }));
    let v2 = vel_accum(s1, 1, 2);
    assert(v2 == v1);
    assert(b1.vel == v2);
    assert(a == accel_of(s[1].pos, s[0].pos, s[0].mass as int));
}

} // verus!
