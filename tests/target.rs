use half_shapes::geometry::{
    points_collide_with_wall, transform_point, Arena, LocalPoint, Orientation, Transform, FINE,
    ROT_ONE, SPAWN_SCALE, SUBUNITS_PER_UNIT,
};
use half_shapes::levels::generate_level;
use half_shapes::target::{
    accelerate_target, advance_target, handle_target_velocity_overflow, move_target,
    perturb_velocity, spawn_target, Rotation, Target, Velocity, INITIAL_TARGET_SPEED,
    MAX_TARGET_SPEED, MIN_TARGET_SPEED,
};
use rand::rngs::StdRng;
use rand::SeedableRng;

fn units(u: i64) -> i64 {
    u * SUBUNITS_PER_UNIT
}

fn target() -> Target {
    spawn_target(&generate_level(0).unwrap()).0
}

fn at(x: i64, y: i64) -> Transform {
    Transform { x, y, rotation: Orientation::identity(), scale: SPAWN_SCALE }
}

fn in_band(s: i64) -> bool {
    (MIN_TARGET_SPEED..=MAX_TARGET_SPEED).contains(&s.abs())
}

fn inside(points: &[LocalPoint], t: &Transform, arena: &Arena) -> bool {
    points.iter().all(|p| {
        let w = transform_point(*p, t);
        let wx = arena.half_width as i128 * FINE;
        let wy = arena.half_height as i128 * FINE;
        -wx < w.x && w.x < wx && -wy < w.y && w.y < wy
    })
}

#[test]
fn spawn_values() {
    let (tg, t, v, r) = spawn_target(&generate_level(0).unwrap());
    assert_eq!(tg.points, generate_level(0).unwrap().target);
    assert_eq!(t, at(0, units(100)));
    assert_eq!(v, Velocity { x: 20_000, y: 20_000 });
    assert_eq!(r, Rotation { step: Orientation { cos: 1073740333, sin: 1789569 } });
}

#[test]
fn free_tick_moves_and_turns() {
    let tg = target();
    let mut t = at(0, 0);
    let mut v = Velocity { x: 20_000, y: -30_000 };
    let mut r = Rotation::initial();
    advance_target(&mut t, &tg, &mut v, &mut r, &Arena::standard());
    assert_eq!((t.x, t.y), (20_000, -30_000));
    assert_eq!(t.rotation, Orientation { cos: 1073740332, sin: 1789568 });
    assert_eq!(v, Velocity { x: 20_000, y: -30_000 });
    assert_eq!(r, Rotation::initial());
}

#[test]
fn bounce_reverses_horizontal_speed() {
    let tg = target();
    let arena = Arena::standard();
    // Rightmost point (1, 0) sits at 199.9; the next step would reach 200.
    let start = units(120) - 6_000;
    let mut t = at(start, 0);
    let mut v = Velocity { x: 20_000, y: 20_000 };
    let mut r = Rotation::initial();
    advance_target(&mut t, &tg, &mut v, &mut r, &arena);
    assert_eq!(v.x, -20_000);
    assert_eq!(v.y, 20_000);
    assert_eq!(t.x, start);
    assert_eq!(t.y, 20_000);
    assert!(inside(&tg.points, &t, &arena));
}

#[test]
fn bounce_reverses_vertical_speed() {
    let tg = target();
    let arena = Arena::standard();
    let start = units(120) - 6_000;
    let mut t = at(0, start);
    let mut v = Velocity { x: -20_000, y: 20_000 };
    let mut r = Rotation::initial();
    advance_target(&mut t, &tg, &mut v, &mut r, &arena);
    assert_eq!(v, Velocity { x: -20_000, y: -20_000 });
    assert_eq!(t.y, start);
    assert_eq!(t.x, -20_000);
}

#[test]
fn turn_reverses_at_wall() {
    let tg = target();
    let arena = Arena::standard();
    // A quarter turn clockwise would bring the corner (1, 0) down to the
    // bottom wall.
    let mut t = at(0, -units(120));
    let mut v = Velocity { x: 0, y: 0 };
    let mut r = Rotation { step: Orientation { cos: 0, sin: -(ROT_ONE as i32) } };
    advance_target(&mut t, &tg, &mut v, &mut r, &arena);
    assert_eq!(t, at(0, -units(120)));
    assert_eq!(r.step, Orientation { cos: 0, sin: ROT_ONE as i32 });
}

#[test]
fn overflow_resets_to_initial_speed() {
    assert_eq!(handle_target_velocity_overflow(1_000_000), INITIAL_TARGET_SPEED);
    assert_eq!(handle_target_velocity_overflow(-1_000_000), -INITIAL_TARGET_SPEED);
    assert_eq!(handle_target_velocity_overflow(40_000), 40_000);
    assert_eq!(handle_target_velocity_overflow(-40_000), -40_000);
    assert_eq!(handle_target_velocity_overflow(40_001), INITIAL_TARGET_SPEED);
    assert_eq!(handle_target_velocity_overflow(-40_001), -INITIAL_TARGET_SPEED);
    assert_eq!(handle_target_velocity_overflow(39_999), 39_999);
    assert_eq!(handle_target_velocity_overflow(10_000), 10_000);
    assert_eq!(handle_target_velocity_overflow(9_999), INITIAL_TARGET_SPEED);
    assert_eq!(handle_target_velocity_overflow(-9_999), -INITIAL_TARGET_SPEED);
    assert_eq!(handle_target_velocity_overflow(0), INITIAL_TARGET_SPEED);
}

#[test]
fn synthetic_fast_velocity_is_reset() {
    // 1000 world units per second, perturbed by any factor.
    let v = Velocity { x: 1_000_000, y: -1_000_000 };
    for f in [500, 1000, 1999] {
        let r = perturb_velocity(v, true, f, f);
        assert_eq!(r, Velocity { x: INITIAL_TARGET_SPEED, y: -INITIAL_TARGET_SPEED });
    }
}

#[test]
fn perturbation_multiplies_in_thousandths() {
    let v = Velocity { x: 20_000, y: -20_000 };
    assert_eq!(perturb_velocity(v, true, 1500, 500), Velocity { x: 30_000, y: -10_000 });
    assert_eq!(perturb_velocity(v, true, 1999, 600), Velocity { x: 39_980, y: -12_000 });
    assert_eq!(perturb_velocity(v, true, 499, 1000), Velocity { x: 20_000, y: -20_000 });
    assert_eq!(perturb_velocity(v, false, 1999, 500), v);
    // Exactly the top of the band is kept.
    assert_eq!(perturb_velocity(v, true, 2000, 2000), Velocity { x: 40_000, y: -40_000 });
    // Rounding down keeps a negative speed negative.
    assert_eq!(perturb_velocity(Velocity { x: 20_001, y: -20_001 }, true, 1999, 1999), Velocity { x: 39_981, y: -39_982 });
}

#[test]
fn random_perturbation_keeps_speeds_in_band() {
    let mut rng = StdRng::seed_from_u64(7);
    let mut v = Velocity { x: INITIAL_TARGET_SPEED, y: -INITIAL_TARGET_SPEED };
    let mut changed = 0;
    for _ in 0..2000 {
        let next = accelerate_target(v, &mut rng);
        if next != v {
            changed += 1;
        }
        v = next;
        assert!(in_band(v.x) && in_band(v.y));
        assert!(v.x > 0 && v.y < 0);
    }
    assert!(changed > 50);
}

#[test]
fn random_perturbation_resets_fast_velocity() {
    let mut rng = StdRng::seed_from_u64(3);
    let fast = Velocity { x: 1_000_000, y: -1_000_000 };
    let mut seen = false;
    for _ in 0..500 {
        let r = accelerate_target(fast, &mut rng);
        if r != fast {
            assert_eq!(r, Velocity { x: INITIAL_TARGET_SPEED, y: -INITIAL_TARGET_SPEED });
            seen = true;
        }
    }
    assert!(seen);
}

#[test]
fn target_stays_inside_over_many_ticks() {
    let (tg, mut t, mut v, mut r) = spawn_target(&generate_level(0).unwrap());
    let arena = Arena::standard();
    let mut rng = StdRng::seed_from_u64(11);
    for _ in 0..20_000 {
        move_target(&mut t, &tg, &mut v, &mut r, &arena, &mut rng);
        assert!(inside(&tg.points, &t, &arena));
        assert!(in_band(v.x) && in_band(v.y));
    }
}

#[test]
fn scenario_from_origin_until_first_bounce() {
    let tg = target();
    let arena = Arena { half_width: units(200), half_height: units(200) };
    let mut t = at(0, 0);
    let top = transform_point(LocalPoint { x: 0, y: 1000 }, &t);
    assert_eq!((top.x, top.y), (0, units(80) as i128 * FINE));
    let mut v = Velocity { x: 20_000, y: 20_000 };
    let mut r = Rotation::initial();
    let mut ticks = 0;
    loop {
        let cand = Transform { x: t.x + v.x, y: t.y + v.y, ..t };
        let flags = points_collide_with_wall(&tg.points, &cand, &arena);
        let before = v;
        advance_target(&mut t, &tg, &mut v, &mut r, &arena);
        ticks += 1;
        assert!(inside(&tg.points, &t, &arena));
        if flags.horizontal || flags.vertical {
            assert_eq!(v.x == -before.x, flags.horizontal);
            assert_eq!(v.y == -before.y, flags.vertical);
            assert!(v.x < 0 || v.y < 0);
            break;
        }
        assert_eq!(v, before);
        assert!(ticks < 10_000);
    }
    assert!(ticks > 300);
}
