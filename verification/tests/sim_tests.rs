use gravity_sim::{update, GravityObject, Rgba, Vec2, SCALE};

fn grey() -> Rgba {
    Rgba::new(80, 80, 80, 255)
}

fn body(pos: Vec2, vel: Vec2, radius: u8, mass: i64, dynamic: bool) -> GravityObject {
    GravityObject::new(pos, vel, radius, mass, grey(), dynamic).unwrap()
}

/// A static system: nothing moves, each body gains one trail entry.
#[test]
fn static_system_is_left_unchanged() {
    let mut objs = vec![
        body(Vec2::new(0, 0), Vec2::new(0, 0), 25, 100_000_000, false),
        body(Vec2::new(100_000, 0), Vec2::new(3_000, 0), 6, 1_000, false),
        body(Vec2::new(0, -200_000), Vec2::new(0, 0), 9, 1_000, false),
    ];
    update(&mut objs);
    assert_eq!(objs.len(), 3);
    assert_eq!(objs[0].pos, Vec2::new(0, 0));
    assert_eq!(objs[1].pos, Vec2::new(100_000, 0));
    assert_eq!(objs[2].pos, Vec2::new(0, -200_000));
    assert_eq!(objs[1].vel, Vec2::new(3_000, 0));
    for o in &objs {
        assert_eq!(o.old_positions.len(), 1);
        assert_eq!(*o.old_positions.front().unwrap(), o.pos);
    }
}

/// The two-body closed form: a primary of world mass 100000 at the origin
/// and a body 100 world units below it.  The acceleration is
/// G * mass / d^2 = 0.1 * 100000 / 10000 = 1 world unit per tick, which is
/// 1000 fixed-point units, pulling toward the primary.
#[test]
fn two_body_kick_has_exact_value() {
    let mut objs = vec![
        body(Vec2::new(0, 0), Vec2::new(0, 0), 25, 100_000 * SCALE, false),
        body(Vec2::new(0, -100 * SCALE), Vec2::new(0, 0), 6, SCALE, true),
    ];
    update(&mut objs);
    assert_eq!(objs.len(), 2);
    // The primary has not moved.
    assert_eq!(objs[0].pos, Vec2::new(0, 0));
    assert_eq!(objs[0].vel, Vec2::new(0, 0));
    // The satellite was kicked straight up by exactly 1000 fixed units.
    assert_eq!(objs[1].vel, Vec2::new(0, 1000));
    // And moved by its new velocity.
    assert_eq!(objs[1].pos, Vec2::new(0, -100 * SCALE + 1000));
    // Both trails recorded the position before the move.
    assert_eq!(*objs[1].old_positions.back().unwrap(), Vec2::new(0, -100 * SCALE));
}

/// A diagonal offset exercises the square-root floor: at (100, 100) world
/// units from a primary of world mass 100000, the pull is 0.5 world units
/// per tick split evenly over both axes, 353.55.. fixed units each, and
/// the integer form floors it to 353.
#[test]
fn diagonal_kick_floors_the_square_root() {
    let mut objs = vec![
        body(Vec2::new(0, 0), Vec2::new(0, 0), 25, 100_000 * SCALE, false),
        body(Vec2::new(100 * SCALE, 100 * SCALE), Vec2::new(0, 0), 6, SCALE, true),
    ];
    update(&mut objs);
    assert_eq!(objs[1].vel, Vec2::new(-353, -353));
}

/// A lone drifting body advances by its velocity every tick; the trail is
/// capped at 2000 entries and evicts oldest-first.
#[test]
fn trail_is_capped_and_evicts_oldest() {
    let mut objs = vec![body(Vec2::new(0, 0), Vec2::new(10, 0), 5, 1_000, true)];
    for _ in 0..2005 {
        update(&mut objs);
    }
    assert_eq!(objs[0].pos, Vec2::new(10 * 2005, 0));
    assert_eq!(objs[0].old_positions.len(), 2000);
    // The first five recorded positions (ticks 1..=5 started at 0..=40)
    // have been evicted; the oldest kept is the start of tick 6.
    assert_eq!(*objs[0].old_positions.front().unwrap(), Vec2::new(50, 0));
    assert_eq!(*objs[0].old_positions.back().unwrap(), Vec2::new(10 * 2004, 0));
}

/// Five thousand ticks never push a trail past the cap.
#[test]
fn trail_never_exceeds_cap() {
    let mut objs = vec![
        body(Vec2::new(0, 0), Vec2::new(0, 0), 25, 100_000 * SCALE, false),
        body(Vec2::new(0, -100 * SCALE), Vec2::new(10 * SCALE, 0), 6, SCALE, true),
    ];
    for _ in 0..5000 {
        update(&mut objs);
    }
    for o in &objs {
        assert_eq!(o.old_positions.len(), 2000);
    }
}

/// A body strictly inside the primary's radius is removed by the next
/// tick; one exactly at the radius is retained.
#[test]
fn collision_boundary_is_strict() {
    let inside = body(Vec2::new(24_999, 0), Vec2::new(0, 0), 2, 1_000, true);
    let at_edge = body(Vec2::new(25_000, 0), Vec2::new(0, 0), 2, 1_000, true);
    let inside_id = inside.id;
    let edge_id = at_edge.id;
    let mut objs = vec![
        body(Vec2::new(0, 0), Vec2::new(0, 0), 25, 100_000 * SCALE, false),
        inside,
        at_edge,
    ];
    update(&mut objs);
    assert_eq!(objs.len(), 2);
    assert!(!objs.iter().any(|o| o.id == inside_id));
    assert!(objs.iter().any(|o| o.id == edge_id));
}

/// Several simultaneous collisions remove exactly the colliding bodies,
/// whatever their indices.
#[test]
fn multiple_collisions_remove_exactly_the_colliders() {
    let primary = body(Vec2::new(0, 0), Vec2::new(0, 0), 25, 100_000 * SCALE, false);
    let a = body(Vec2::new(1_000, 0), Vec2::new(0, 0), 2, 1_000, true);
    let b = body(Vec2::new(0, 2_000), Vec2::new(0, 0), 2, 1_000, true);
    let c = body(Vec2::new(-3_000, 0), Vec2::new(0, 0), 2, 1_000, true);
    let far = body(Vec2::new(500_000, 0), Vec2::new(0, 0), 2, 1_000, true);
    let primary_id = primary.id;
    let gone = [a.id, b.id, c.id];
    let far_id = far.id;
    let mut objs = vec![primary, a, b, c, far];
    update(&mut objs);
    assert_eq!(objs.len(), 2);
    assert!(objs.iter().any(|o| o.id == primary_id));
    assert!(objs.iter().any(|o| o.id == far_id));
    for id in gone {
        assert!(!objs.iter().any(|o| o.id == id));
    }
}

/// Colliders interleaved with survivors: the swapped-in last element is
/// never removed by mistake.
#[test]
fn interleaved_collisions_keep_the_survivors() {
    let primary = body(Vec2::new(0, 0), Vec2::new(0, 0), 25, 100_000 * SCALE, false);
    let gone1 = body(Vec2::new(1_000, 0), Vec2::new(0, 0), 2, 1_000, true);
    let kept1 = body(Vec2::new(400_000, 0), Vec2::new(0, 0), 2, 1_000, true);
    let gone2 = body(Vec2::new(0, -2_000), Vec2::new(0, 0), 2, 1_000, true);
    let kept2 = body(Vec2::new(-300_000, 0), Vec2::new(0, 0), 2, 1_000, true);
    let gone_ids = [gone1.id, gone2.id];
    let kept_ids = [primary.id, kept1.id, kept2.id];
    let mut objs = vec![primary, gone1, kept1, gone2, kept2];
    update(&mut objs);
    assert_eq!(objs.len(), 3);
    for id in kept_ids {
        assert!(objs.iter().any(|o| o.id == id));
    }
    for id in gone_ids {
        assert!(!objs.iter().any(|o| o.id == id));
    }
}

/// Identical initial state and tick count give a bit-identical resulting
/// state: no randomness enters the tick.
#[test]
fn trajectories_are_reproducible() {
    let make = || {
        vec![
            body(Vec2::new(0, 0), Vec2::new(0, 0), 25, 100_000 * SCALE, false),
            body(Vec2::new(0, -100 * SCALE), Vec2::new(10 * SCALE, 0), 6, SCALE, true),
            body(Vec2::new(0, -200 * SCALE), Vec2::new(7 * SCALE, 0), 9, SCALE, true),
            body(Vec2::new(0, -700 * SCALE), Vec2::new(3_700, 0), 11, 200 * SCALE, true),
        ]
    };
    let mut first = make();
    let mut second = make();
    for _ in 0..100 {
        update(&mut first);
        update(&mut second);
    }
    assert_eq!(first.len(), second.len());
    for (x, y) in first.iter().zip(second.iter()) {
        assert_eq!(x.pos, y.pos);
        assert_eq!(x.vel, y.vel);
        assert_eq!(x.old_positions, y.old_positions);
    }
}

/// Two dynamic bodies attract each other symmetrically on the axis
/// between them.
#[test]
fn mutual_attraction_pulls_both_inward() {
    let mut objs = vec![
        body(Vec2::new(0, 0), Vec2::new(0, 0), 5, 1_000 * SCALE, true),
        body(Vec2::new(100 * SCALE, 0), Vec2::new(0, 0), 5, 1_000 * SCALE, true),
    ];
    update(&mut objs);
    // Each gains G * m / d^2 = 0.1 * 1000 / 10000 = 0.01 world units of
    // velocity, 10 fixed units, toward the other.
    assert_eq!(objs[0].vel, Vec2::new(10, 0));
    assert_eq!(objs[1].vel, Vec2::new(-10, 0));
}

/// Bodies at the exact same position exert no force on each other: the
/// singular pair is skipped instead of dividing by zero.
#[test]
fn coincident_bodies_exert_no_force() {
    // The primary is light and far enough that its pull rounds to zero,
    // so the only candidate force on each satellite is the singular one.
    let mut objs = vec![
        body(Vec2::new(0, 0), Vec2::new(0, 0), 25, 500 * SCALE, false),
        body(Vec2::new(300_000, 0), Vec2::new(0, 0), 5, 1_000, true),
        body(Vec2::new(300_000, 0), Vec2::new(0, 0), 5, 1_000, true),
    ];
    update(&mut objs);
    assert_eq!(objs.len(), 3);
    assert_eq!(objs[1].vel, Vec2::new(0, 0));
    assert_eq!(objs[2].vel, Vec2::new(0, 0));
    assert_eq!(objs[1].pos, Vec2::new(300_000, 0));
    assert_eq!(objs[2].pos, Vec2::new(300_000, 0));
}

/// A tick on an empty or single-body collection is a well-defined no-op
/// baseline.
#[test]
fn degenerate_collections_are_fine() {
    let mut empty: Vec<GravityObject> = vec![];
    update(&mut empty);
    assert!(empty.is_empty());

    let mut single = vec![body(Vec2::new(5, 7), Vec2::new(0, 0), 3, 1_000, false)];
    update(&mut single);
    assert_eq!(single.len(), 1);
    assert_eq!(single[0].pos, Vec2::new(5, 7));
    assert_eq!(single[0].old_positions.len(), 1);
}
