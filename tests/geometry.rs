use half_shapes::geometry::{
    floor_div, int_sqrt, points_collide_with_wall, transform_point, Arena, CollisionFlags, LocalPoint,
    Orientation, Transform, FINE, HALF_ARENA, ROT_ONE, SPAWN_SCALE, SUBUNITS_PER_UNIT,
};

fn units(u: i64) -> i64 {
    u * SUBUNITS_PER_UNIT
}

fn at(x: i64, y: i64) -> Transform {
    Transform { x: units(x), y: units(y), rotation: Orientation::identity(), scale: SPAWN_SCALE }
}

fn quarter_turn() -> Orientation {
    Orientation { cos: 0, sin: ROT_ONE as i32 }
}

#[test]
fn transform_point_scales_and_translates() {
    let w = transform_point(LocalPoint { x: 0, y: 1000 }, &at(0, 0));
    assert_eq!(w.x, 0);
    assert_eq!(w.y, units(80) as i128 * FINE);
    let w = transform_point(LocalPoint { x: -300, y: 600 }, &at(10, -20));
    assert_eq!(w.x, units(10 - 24) as i128 * FINE);
    assert_eq!(w.y, units(-20 + 48) as i128 * FINE);
}

#[test]
fn transform_point_rotates_before_translating() {
    let t = Transform { x: units(5), y: units(7), rotation: quarter_turn(), scale: SPAWN_SCALE };
    let w = transform_point(LocalPoint { x: 1000, y: 0 }, &t);
    assert_eq!(w.x, units(5) as i128 * FINE);
    assert_eq!(w.y, units(7 + 80) as i128 * FINE);
}

#[test]
fn no_collision_inside_arena() {
    let tri = vec![
        LocalPoint { x: 0, y: 1000 },
        LocalPoint { x: -1000, y: 0 },
        LocalPoint { x: 1000, y: 0 },
    ];
    let flags = points_collide_with_wall(&tri, &at(0, 0), &Arena::standard());
    assert_eq!(flags, CollisionFlags { horizontal: false, vertical: false });
}

#[test]
fn collision_at_exact_wall_counts() {
    let tri = vec![LocalPoint { x: 1000, y: 0 }];
    let flags = points_collide_with_wall(&tri, &at(120, 0), &Arena::standard());
    assert_eq!(flags, CollisionFlags { horizontal: true, vertical: false });
    let flags = points_collide_with_wall(&tri, &at(119, 0), &Arena::standard());
    assert_eq!(flags, CollisionFlags { horizontal: false, vertical: false });
}

#[test]
fn collision_vertical_wall() {
    let pts = vec![LocalPoint { x: 0, y: 1000 }];
    let flags = points_collide_with_wall(&pts, &at(0, 130), &Arena::standard());
    assert_eq!(flags, CollisionFlags { horizontal: false, vertical: true });
    let flags = points_collide_with_wall(&pts, &at(0, -280), &Arena::standard());
    assert_eq!(flags, CollisionFlags { horizontal: false, vertical: true });
}

#[test]
fn corner_point_reports_side_wall_only() {
    let pts = vec![LocalPoint { x: 1000, y: 1000 }];
    let flags = points_collide_with_wall(&pts, &at(150, 150), &Arena::standard());
    assert_eq!(flags, CollisionFlags { horizontal: true, vertical: false });
    let pts = vec![LocalPoint { x: 1000, y: 1000 }, LocalPoint { x: 0, y: 1000 }];
    let flags = points_collide_with_wall(&pts, &at(150, 150), &Arena::standard());
    assert_eq!(flags, CollisionFlags { horizontal: true, vertical: true });
}

#[test]
fn empty_polygon_never_collides() {
    let flags = points_collide_with_wall(&[], &at(1000, 1000), &Arena::standard());
    assert_eq!(flags, CollisionFlags { horizontal: false, vertical: false });
}

#[test]
fn standard_arena_is_two_hundred_units() {
    let a = Arena::standard();
    assert_eq!(a.half_width, units(200));
    assert_eq!(a.half_height, units(200));
    assert_eq!(HALF_ARENA, 12_000_000);
}

#[test]
fn floor_div_rounds_down() {
    assert_eq!(floor_div(7, 2), 3);
    assert_eq!(floor_div(-7, 2), -4);
    assert_eq!(floor_div(-8, 2), -4);
    assert_eq!(floor_div(-1, 1000), -1);
    assert_eq!(floor_div(0, 5), 0);
}

#[test]
fn compose_quarter_turns() {
    let half = quarter_turn().compose(&quarter_turn());
    assert_eq!(half, Orientation { cos: -(ROT_ONE as i32), sin: 0 });
    let same = quarter_turn().compose(&Orientation::identity());
    assert_eq!(same, quarter_turn());
    let back = quarter_turn().compose(&quarter_turn().reverse());
    assert_eq!(back, Orientation::identity());
}

#[test]
fn compose_rescales_to_unit_length() {
    let big = Orientation { cos: i32::MAX, sin: i32::MAX };
    let r = big.compose(&big);
    assert_eq!(r.cos, 0);
    assert_eq!(r.sin, ROT_ONE as i32);
}

#[test]
fn orientation_length_does_not_drift() {
    let one = ROT_ONE as i128;
    let step = Orientation { cos: 1073740333, sin: 1789569 };
    let mut o = Orientation::identity();
    for _ in 0..216_000 {
        o = o.compose(&step);
        let len = o.cos as i128 * o.cos as i128 + o.sin as i128 * o.sin as i128;
        assert!((len - one * one).abs() <= 8 * one);
    }
    assert_eq!(o, Orientation { cos: -304635973, sin: 1029620526 });
}

#[test]
fn int_sqrt_values() {
    assert_eq!(int_sqrt(0), 0);
    assert_eq!(int_sqrt(15), 3);
    assert_eq!(int_sqrt(16), 4);
    assert_eq!(int_sqrt(u128::MAX), u64::MAX);
}
