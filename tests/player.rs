use half_shapes::geometry::{
    points_collide_with_wall, Arena, LocalPoint, Orientation, Transform, SPAWN_SCALE,
    SUBUNITS_PER_UNIT,
};
use half_shapes::levels::generate_level;
use half_shapes::player::{move_player, move_players, spawn_players, Player, PlayerInput};

fn units(u: i64) -> i64 {
    u * SUBUNITS_PER_UNIT
}

fn players() -> (Vec<Player>, Vec<Transform>) {
    spawn_players(&generate_level(0).unwrap())
}

fn input() -> PlayerInput {
    PlayerInput::idle()
}

#[test]
fn spawn_positions() {
    let (ps, ts) = players();
    assert_eq!(ps.len(), 2);
    assert_eq!(ps[0].idx, 0);
    assert_eq!(ps[1].idx, 1);
    assert_eq!(ts[0], Transform { x: units(-50), y: units(-100), rotation: Orientation::identity(), scale: SPAWN_SCALE });
    assert_eq!(ts[1], Transform { x: units(50), y: units(-100), rotation: Orientation::identity(), scale: SPAWN_SCALE });
    assert_eq!(ps[0].points, generate_level(0).unwrap().player1);
}

#[test]
fn idle_input_leaves_players_unchanged() {
    let (ps, mut ts) = players();
    let before = ts.clone();
    let inputs = vec![input(), input()];
    for _ in 0..100 {
        move_players(&ps, &mut ts, &inputs, &Arena::standard());
    }
    assert_eq!(ts, before);
}

#[test]
fn right_moves_by_player_speed() {
    let (ps, mut ts) = players();
    let right = PlayerInput { right: true, ..input() };
    move_players(&ps, &mut ts, &[right, right], &Arena::standard());
    // 200 and 240 world units per second over 1/60 s.
    assert_eq!(ts[0].x, units(-50) + 200_000);
    assert_eq!(ts[1].x, units(50) + 240_000);
    assert_eq!(ts[0].y, units(-100));
}

#[test]
fn up_and_down_move_vertically() {
    let (ps, mut ts) = players();
    let up = PlayerInput { up: true, ..input() };
    let down = PlayerInput { down: true, ..input() };
    move_players(&ps, &mut ts, &[up, down], &Arena::standard());
    assert_eq!(ts[0].y, units(-100) + 200_000);
    assert_eq!(ts[1].y, units(-100) - 240_000);
}

#[test]
fn opposite_keys_cancel() {
    let (ps, mut ts) = players();
    let before = ts.clone();
    let both = PlayerInput { up: true, down: true, left: true, right: true, rot_cw: true, rot_ccw: true };
    move_players(&ps, &mut ts, &[both, both], &Arena::standard());
    assert_eq!(ts, before);
}

#[test]
fn turn_keys_rotate() {
    let (ps, mut ts) = players();
    let cw = PlayerInput { rot_cw: true, ..input() };
    let ccw = PlayerInput { rot_ccw: true, ..input() };
    move_players(&ps, &mut ts, &[cw, ccw], &Arena::standard());
    // 1 radian per second for the first player, 0.6 for the second, each
    // rescaled to unit length.
    assert_eq!(ts[0].rotation, Orientation { cos: 1073592696, sin: 17894868 });
    assert_eq!(ts[1].rotation, Orientation { cos: 1073688137, sin: -10737240 });
}

#[test]
fn wall_blocks_move() {
    let (ps, mut ts) = players();
    let left = PlayerInput { left: true, ..input() };
    let arena = Arena::standard();
    for _ in 0..1000 {
        move_player(&mut ts[0], &ps[0], &left, &arena);
    }
    // The leftmost point (-1, 0) stops short of the wall at -200.
    let x = ts[0].x;
    assert!(x - units(80) > -units(200));
    assert!(x - units(80) - 200_000 <= -units(200));
    let flags = points_collide_with_wall(&ps[0].points, &ts[0], &arena);
    assert!(!flags.horizontal && !flags.vertical);
}

#[test]
fn blocked_axis_does_not_stop_other_axis() {
    let (ps, mut ts) = players();
    let arena = Arena::standard();
    ts[0].x = units(-120) + 100_000;
    let up_left = PlayerInput { up: true, left: true, ..input() };
    move_player(&mut ts[0], &ps[0], &up_left, &arena);
    assert_eq!(ts[0].x, units(-120) + 100_000);
    assert_eq!(ts[0].y, units(-100) + 200_000);
}

#[test]
fn players_stay_inside_under_all_inputs() {
    let (ps, mut ts) = players();
    let arena = Arena::standard();
    let held = [
        PlayerInput { right: true, up: true, rot_cw: true, ..input() },
        PlayerInput { left: true, down: true, rot_ccw: true, ..input() },
    ];
    for _ in 0..600 {
        move_players(&ps, &mut ts, &held, &arena);
        for i in 0..2 {
            let flags = points_collide_with_wall(&ps[i].points, &ts[i], &arena);
            assert!(!flags.horizontal && !flags.vertical);
        }
    }
}

#[test]
fn unrepresentable_move_is_blocked() {
    let p = Player { idx: 0, points: vec![LocalPoint { x: 0, y: 0 }] };
    let arena = Arena { half_width: i64::MAX, half_height: i64::MAX };
    let mut t = Transform { x: i64::MAX - 10, y: 0, rotation: Orientation::identity(), scale: 1 };
    move_player(&mut t, &p, &PlayerInput { right: true, ..input() }, &arena);
    assert_eq!(t.x, i64::MAX - 10);
}
