//! One tick of the simulation: collision pruning against the primary body,
//! then pairwise gravitational acceleration and integration, with a full
//! functional specification.

use vstd::prelude::*;

use crate::body::{body_wf, BodyModel, GravityObject};
use crate::geom::{clip, clip_i128, dist2, in_range, Vec2, COORD_LIMIT, MASS_LIMIT, SCALE,
    SCALE_SQ, TRAIL_CAP};
use crate::math::{isqrt, lemma_mul_bounds, lemma_square_bounds, sqrt_floor};

verus! {

/// The models of a sequence of bodies.
pub open spec fn views(s: Seq<GravityObject>) -> Seq<BodyModel> {
    s.map_values(|b: GravityObject| b@)
}

/// Every body in `s` is well-formed.
pub open spec fn all_wf(s: Seq<BodyModel>) -> bool {
    forall|i: int| 0 <= i < s.len() ==> body_wf(#[trigger] s[i])
}

/// The magnitude of `n`.
pub open spec fn mag(n: int) -> int {
    if n < 0 {
        -n
    } else {
        n
    }
}

// ---------- Phase A: collision pruning ----------

/// Body `i` lies strictly within the primary body's radius: the pruning
/// test of one tick.  `radius` is in world units, positions in fixed-point
/// units, so the comparison squares `radius * SCALE`; it is exact, and
/// equality retains the body.
pub open spec fn collides_with_primary(s: Seq<BodyModel>, i: int) -> bool {
    dist2(s[i].pos, s[0].pos) < (s[0].radius * SCALE) * (s[0].radius * SCALE)
}

/// Removal by swap-with-last-and-truncate, as a sequence.
pub open spec fn swap_remove_seq(s: Seq<BodyModel>, i: int) -> Seq<BodyModel> {
    s.update(i, s.last()).drop_last()
}

/// The pruning pass, scanning indices `i, i-1, ..., 1` and swap-removing
/// each body that collides with the primary.  Scanning downward means a
/// swapped-in element always comes from an index already scanned, so each
/// colliding body is removed exactly once and no other is touched.
pub open spec fn prune_from(s: Seq<BodyModel>, i: int) -> Seq<BodyModel>
    decreases i,
{
    if i < 1 || i >= s.len() {
        s
    } else {
        let s2 = if collides_with_primary(s, i) {
            swap_remove_seq(s, i)
        } else {
            s
        };
        prune_from(s2, i - 1)
    }
}

/// Phase A of a tick: remove every body, other than the primary itself,
/// that lies strictly within the primary body's radius.
pub open spec fn prune(s: Seq<BodyModel>) -> Seq<BodyModel> {
    if s.len() == 0 {
        s
    } else {
        prune_from(s, s.len() - 1)
    }
}

// ---------- Phase B: acceleration and integration ----------

/// One component of the gravitational acceleration that a mass at signed
/// fixed-point offset `d` and scalar distance `dist` exerts: the exact
/// integer form of `G * mass * d / dist^3` with `G = 1/10`, on fixed-point
/// values (hence the `SCALE^2` factor), rounded toward zero.
pub open spec fn accel_component(mass: int, d: int, dist: int) -> int {
    let q = (mass * mag(d) * SCALE_SQ) / (10 * dist * dist * dist);
    if d < 0 {
        -q
    } else {
        q
    }
}

/// The acceleration vector that a body of mass `mass` at `q` exerts at
/// `p`, with the inter-body distance taken as the integer square root of
/// the exact squared distance.
pub open spec fn accel_of(p: Vec2, q: Vec2, mass: int) -> (int, int) {
    let dist = sqrt_floor(dist2(p, q));
    (accel_component(mass, q.x - p.x, dist), accel_component(mass, q.y - p.y, dist))
}

/// The velocity of body `i` after absorbing, in index order, the
/// acceleration from every body of index below `n` — skipping body `i`
/// itself and any body at the exact same position (a zero distance leaves
/// the force undefined; such a pair contributes nothing).  Each addition
/// clamps to the coordinate range.
pub open spec fn vel_accum(s: Seq<BodyModel>, i: int, n: int) -> Vec2
    decreases n,
{
    if n <= 0 {
        s[i].vel
    } else {
        let prev = vel_accum(s, i, n - 1);
        let j = n - 1;
        if j == i || dist2(s[i].pos, s[j].pos) == 0 {
            prev
        } else {
            let a = accel_of(s[i].pos, s[j].pos, s[j].mass as int);
            Vec2 { x: clip(prev.x + a.0), y: clip(prev.y + a.1) }
        }
    }
}

/// `t` with `p` appended, evicting the oldest entry when the trail would
/// exceed its capacity.
pub open spec fn trail_push(t: Seq<Vec2>, p: Vec2) -> Seq<Vec2> {
    let t2 = t.push(p);
    if t2.len() > TRAIL_CAP {
        t2.drop_first()
    } else {
        t2
    }
}

/// Body `i` after its slice of the integration pass: a dynamic body
/// absorbs every pairwise acceleration into its velocity and then moves by
/// that velocity (clamped to the coordinate range); a non-dynamic body
/// keeps its position and velocity; either way the position the body had
/// at the start of the tick is appended to its trail.
pub open spec fn step_body(s: Seq<BodyModel>, i: int) -> BodyModel {
    let b = s[i];
    let v = if b.is_dynamic {
        vel_accum(s, i, s.len() as int)
    } else {
        b.vel
    };
    let p = if b.is_dynamic {
        Vec2 { x: clip(b.pos.x + v.x), y: clip(b.pos.y + v.y) }
    } else {
        b.pos
    };
    BodyModel { pos: p, vel: v, trail: trail_push(b.trail, b.pos), ..b }
}

/// The integration pass from index `i` on: bodies are stepped in index
/// order, and a later body reads the positions the earlier bodies have
/// already been moved to within this same tick (sequential update, exactly
/// one body at a time).
pub open spec fn integrate_from(s: Seq<BodyModel>, i: int) -> Seq<BodyModel>
    decreases s.len() - i,
{
    if i < 0 || i >= s.len() {
        s
    } else {
        integrate_from(s.update(i, step_body(s, i)), i + 1)
    }
}

/// Phase B of a tick.
pub open spec fn integrate(s: Seq<BodyModel>) -> Seq<BodyModel> {
    integrate_from(s, 0)
}

/// One whole tick: pruning, then integration.  A function of the input
/// state alone, so the simulation is deterministic.
pub open spec fn update_spec(s: Seq<BodyModel>) -> Seq<BodyModel> {
    integrate(prune(s))
}

// ---------- Exec: phase A ----------

/// The pruning pass on the live vector; scans downward so that each
/// swap-removed slot receives an element that was already scanned.
fn prune_exec(objs: &mut Vec<GravityObject>)
    requires
        all_wf(views(old(objs)@)),
    ensures
        views(final(objs)@) == prune(views(old(objs)@)),
        all_wf(views(final(objs)@)),
{
    let ghost orig = views(objs@);
    if objs.len() == 0 {
        return ;
    }
    let mut i: usize = objs.len() - 1;
    while i >= 1
        invariant
            i < views(objs@).len() == objs@.len(),
            all_wf(views(objs@)),
            prune_from(views(objs@), i as int) == prune(orig),
        decreases i,
    {
        let ghost pre = views(objs@);
        assert(body_wf(pre[i as int]) && body_wf(pre[0]));
        let dx: i128 = objs[0].pos.x as i128 - objs[i].pos.x as i128;
        let dy: i128 = objs[0].pos.y as i128 - objs[i].pos.y as i128;
        let r: i128 = objs[0].radius as i128 * SCALE as i128;
        proof {
            lemma_square_bounds(dx as int, 2 * COORD_LIMIT);
            lemma_square_bounds(dy as int, 2 * COORD_LIMIT);
            lemma_square_bounds(r as int, 255 * SCALE);
        }
        if dx * dx + dy * dy < r * r {
            assert(collides_with_primary(pre, i as int));
            objs.swap_remove(i);
            proof {
                assert(views(objs@) =~= swap_remove_seq(pre, i as int));
            }
        } else {
            assert(!collides_with_primary(pre, i as int));
        }
        i = i - 1;
    }
    assert(views(objs@) == prune_from(views(objs@), 0));
}

// ---------- Exec: phase B ----------

/// The acceleration that a body of mass `mass_j` at `q` exerts at `p`,
/// exactly as `accel_of`.
fn accel_contrib(p: Vec2, q: Vec2, mass_j: i64) -> (a: (i128, i128))
    requires
        in_range(p),
        in_range(q),
        0 < mass_j <= MASS_LIMIT,
        dist2(p, q) != 0,
    ensures
        (a.0 as int, a.1 as int) == accel_of(p, q, mass_j as int),
        -4_000_000_000_000_000_000_000_000_000_000 <= a.0 <= 4_000_000_000_000_000_000_000_000_000_000,
        -4_000_000_000_000_000_000_000_000_000_000 <= a.1 <= 4_000_000_000_000_000_000_000_000_000_000,
{
    let dx: i128 = q.x as i128 - p.x as i128;
    let dy: i128 = q.y as i128 - p.y as i128;
    proof {
        lemma_square_bounds(dx as int, 2 * COORD_LIMIT);
        lemma_square_bounds(dy as int, 2 * COORD_LIMIT);
    }
    let d2u: u128 = (dx * dx + dy * dy) as u128;
    assert(d2u as int == dist2(p, q));
    let dist: u128 = isqrt(d2u);
    proof {
        assert(dist >= 1) by {
            if dist == 0 {
                assert((d2u as int) < (0 + 1) * (0 + 1));
            }
        }
        assert(dist <= 2_900_000_000_000) by (nonlinear_arith)
            requires
                (dist as int) * (dist as int) <= d2u as int,
                d2u as int <= 8_000_000_000_000_000_000_000_000,
                dist >= 0;
        lemma_mul_bounds(10 * dist as int, dist as int, 29_000_000_000_000, 2_900_000_000_000);
        lemma_mul_bounds(
            10 * dist as int * dist as int,
            dist as int,
            84_100_000_000_000_000_000_000_000,
            2_900_000_000_000,
        );
    }
    let den: u128 = 10 * dist * dist * dist;
    proof {
        assert(den >= 10) by (nonlinear_arith)
            requires
                den as int == 10 * (dist as int) * (dist as int) * (dist as int),
                dist >= 1;
    }
    let adx: u128 = if dx < 0 {
        (-dx) as u128
    } else {
        dx as u128
    };
    let ady: u128 = if dy < 0 {
        (-dy) as u128
    } else {
        dy as u128
    };
    proof {
        lemma_mul_bounds(mass_j as int, adx as int, MASS_LIMIT as int, 2 * COORD_LIMIT);
        lemma_mul_bounds(mass_j as int, ady as int, MASS_LIMIT as int, 2 * COORD_LIMIT);
        lemma_mul_bounds(
            mass_j as int * adx as int,
            SCALE_SQ as int,
            4_000_000_000_000_000_000_000_000,
            SCALE_SQ as int,
        );
        lemma_mul_bounds(
            mass_j as int * ady as int,
            SCALE_SQ as int,
            4_000_000_000_000_000_000_000_000,
            SCALE_SQ as int,
        );
    }
    let numx: u128 = mass_j as u128 * adx * SCALE_SQ;
    let numy: u128 = mass_j as u128 * ady * SCALE_SQ;
    let qx: u128 = numx / den;
    let qy: u128 = numy / den;
    proof {
        vstd::arithmetic::div_mod::lemma_div_nonincreasing(numx as int, den as int);
        vstd::arithmetic::div_mod::lemma_div_nonincreasing(numy as int, den as int);
    }
    let ax: i128 = if dx < 0 {
        -(qx as i128)
    } else {
        qx as i128
    };
    let ay: i128 = if dy < 0 {
        -(qy as i128)
    } else {
        qy as i128
    };
    (ax, ay)
}

/// Both components of the offset from `p` to `q` are zero exactly when the
/// squared distance is zero.
proof fn lemma_zero_dist(p: Vec2, q: Vec2)
    ensures
        dist2(p, q) == 0 <==> (q.x - p.x == 0 && q.y - p.y == 0),
{
    assert((q.x - p.x) * (q.x - p.x) + (q.y - p.y) * (q.y - p.y) == 0 <==> (q.x - p.x == 0 && q.y
        - p.y == 0)) by (nonlinear_arith);
}

/// One tick of the simulation, in place: prune the bodies that have
/// fallen into the primary body, then step every body in index order —
/// accumulate the pairwise gravitational accelerations into the velocity
/// of each dynamic body, move it by that velocity, and append the position
/// each body had at the start of the tick to its trail.
///
/// The result is exactly `update_spec` of the input models: a function of
/// the input state alone.
pub fn update(objs: &mut Vec<GravityObject>)
    requires
        all_wf(views(old(objs)@)),
    ensures
        views(final(objs)@) == update_spec(views(old(objs)@)),
        all_wf(views(final(objs)@)),
{
    prune_exec(objs);
    let ghost s0 = views(objs@);
    let n = objs.len();
    let mut i: usize = 0;
    while i < n
        invariant
            n == objs@.len(),
            i <= n,
            all_wf(views(objs@)),
            integrate_from(views(objs@), i as int) == integrate(s0),
        decreases n - i,
    {
        let ghost s_cur = views(objs@);
        let b_pos = objs[i].pos;
        let b_dyn = objs[i].is_dynamic;
        let mut v = objs[i].vel;
        assert(s_cur[i as int] == objs@[i as int]@);
        if b_dyn {
            let mut j: usize = 0;
            while j < n
                invariant
                    views(objs@) == s_cur,
                    n == objs@.len(),
                    i < n,
                    j <= n,
                    all_wf(s_cur),
                    b_pos == s_cur[i as int].pos,
                    v == vel_accum(s_cur, i as int, j as int),
                    in_range(v),
                decreases n - j,
            {
                if j != i {
                    let qpos = objs[j].pos;
                    assert(s_cur[j as int] == objs@[j as int]@);
                    proof {
                        lemma_zero_dist(b_pos, qpos);
                    }
                    if !(qpos.x == b_pos.x && qpos.y == b_pos.y) {
                        let a = accel_contrib(b_pos, qpos, objs[j].mass);
                        v = Vec2 {
                            x: clip_i128(v.x as i128 + a.0),
                            y: clip_i128(v.y as i128 + a.1),
                        };
                    }
                }
                j += 1;
            }
        }
        let ghost stepped = step_body(s_cur, i as int);
        assert(b_dyn ==> v == vel_accum(s_cur, i as int, n as int));
        if b_dyn {
            objs[i].vel = v;
            let nx = clip_i128(b_pos.x as i128 + v.x as i128);
            let ny = clip_i128(b_pos.y as i128 + v.y as i128);
            objs[i].pos = Vec2 { x: nx, y: ny };
        }
        objs[i].old_positions.push_back(b_pos);
        if objs[i].old_positions.len() > TRAIL_CAP {
            objs[i].old_positions.pop_front();
        }
        proof {
            assert(views(objs@) =~~= s_cur.update(i as int, stepped));
            assert(integrate_from(s_cur, i as int) == integrate_from(
                s_cur.update(i as int, stepped),
                i as int + 1,
            ));
            assert(body_wf(stepped));
            assert forall|k: int| 0 <= k < views(objs@).len() implies body_wf(
                #[trigger] views(objs@)[k],
            ) by {
                if k != i as int {
                    assert(views(objs@)[k] == s_cur[k]);
                }
            }
        }
        i += 1;
    }
    assert(views(objs@) == integrate_from(views(objs@), n as int));
}

// ---------- Queries for external collaborators ----------

/// The point `p` lies on body `k`: within its radius, inclusively.
pub open spec fn hits(s: Seq<BodyModel>, p: Vec2, k: int) -> bool {
    dist2(p, s[k].pos) <= (s[k].radius * SCALE) * (s[k].radius * SCALE)
}

/// The first body at index `start` or later whose disc contains `p`
/// (distance at most the body's radius): how a pointer position is
/// resolved to a body, with `start == 1` to spare the primary body and
/// `start == 0` to include it.
pub fn find_body_at(objs: &Vec<GravityObject>, p: Vec2, start: usize) -> (r: Option<usize>)
    requires
        all_wf(views(objs@)),
        in_range(p),
    ensures
        match r {
            Some(k) => start <= k < objs@.len() && hits(views(objs@), p, k as int) && forall|m: int|
                start <= m < k ==> !hits(views(objs@), p, m),
            None => forall|m: int| start <= m < objs@.len() ==> !hits(views(objs@), p, m),
        },
{
    let mut k: usize = start;
    while k < objs.len()
        invariant
            all_wf(views(objs@)),
            in_range(p),
            start <= k,
            forall|m: int| start <= m < k ==> !hits(views(objs@), p, m),
        decreases objs@.len() - k,
    {
        assert(views(objs@)[k as int] == objs@[k as int]@);
        let dx: i128 = objs[k].pos.x as i128 - p.x as i128;
        let dy: i128 = objs[k].pos.y as i128 - p.y as i128;
        let rad: i128 = objs[k].radius as i128 * SCALE as i128;
        proof {
            lemma_square_bounds(dx as int, 2 * COORD_LIMIT);
            lemma_square_bounds(dy as int, 2 * COORD_LIMIT);
            lemma_square_bounds(rad as int, 255 * SCALE);
        }
        if dx * dx + dy * dy <= rad * rad {
            return Some(k);
        }
        k = k + 1;
    }
    None
}

/// The index of the body carrying the stable identifier `id`, scanning
/// from the front: how a follow or delete request is resolved, since
/// storage order is not stable across removals.
pub fn find_by_id(objs: &Vec<GravityObject>, id: u128) -> (r: Option<usize>)
    ensures
        match r {
            Some(k) => k < objs@.len() && views(objs@)[k as int].id == id && forall|m: int|
                0 <= m < k ==> views(objs@)[m].id != id,
            None => forall|m: int| 0 <= m < objs@.len() ==> views(objs@)[m].id != id,
        },
{
    let mut k: usize = 0;
    while k < objs.len()
        invariant
            forall|m: int| 0 <= m < k ==> views(objs@)[m].id != id,
        decreases objs@.len() - k,
    {
        assert(views(objs@)[k as int] == objs@[k as int]@);
        if objs[k].id == id {
            return Some(k);
        }
        k = k + 1;
    }
    None
}

} // verus!
