use gravity_sim::{find_body_at, find_by_id, GravityObject, Rgba, Vec2};

fn body(pos: Vec2, radius: u8) -> GravityObject {
    GravityObject::new(pos, Vec2::new(0, 0), radius, 1_000, Rgba::new(1, 2, 3, 255), true)
        .unwrap()
}

#[test]
fn find_body_at_resolves_a_hit() {
    let objs = vec![
        body(Vec2::new(0, 0), 25),
        body(Vec2::new(100_000, 0), 5),
        body(Vec2::new(-50_000, 20_000), 8),
    ];
    // A point 3 world units from the second body, within its radius 5.
    let r = find_body_at(&objs, Vec2::new(100_000 + 3_000, 0), 0);
    assert_eq!(r, Some(1));
}

#[test]
fn find_body_at_hit_is_inclusive_at_the_radius() {
    let objs = vec![body(Vec2::new(0, 0), 5)];
    assert_eq!(find_body_at(&objs, Vec2::new(5_000, 0), 0), Some(0));
    assert_eq!(find_body_at(&objs, Vec2::new(5_001, 0), 0), None);
}

#[test]
fn find_body_at_can_spare_the_primary() {
    let objs = vec![body(Vec2::new(0, 0), 25), body(Vec2::new(100_000, 0), 5)];
    // The origin lies on the primary only; a scan from 1 must miss.
    assert_eq!(find_body_at(&objs, Vec2::new(0, 0), 0), Some(0));
    assert_eq!(find_body_at(&objs, Vec2::new(0, 0), 1), None);
}

#[test]
fn find_by_id_scans_for_the_identifier() {
    let objs = vec![
        body(Vec2::new(0, 0), 25),
        body(Vec2::new(100_000, 0), 5),
        body(Vec2::new(200_000, 0), 5),
    ];
    let wanted = objs[2].id;
    assert_eq!(find_by_id(&objs, wanted), Some(2));
}

#[test]
fn find_by_id_misses_an_absent_identifier() {
    let objs = vec![body(Vec2::new(0, 0), 25), body(Vec2::new(100_000, 0), 5)];
    let absent = objs[0].id ^ objs[1].id ^ 0x5a5a_5a5a;
    if absent != objs[0].id && absent != objs[1].id {
        assert_eq!(find_by_id(&objs, absent), None);
    }
}
