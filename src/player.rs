//! Player movement: each held direction or turn is tried on its own and kept
//! only if the moved shape stays clear of the walls.
use vstd::prelude::*;
use crate::geometry::{
    collides, composed, contained, fits_i64, lemma_composed_wf, lemma_no_collision_iff_contained,
    lemma_reversed_wf, points_collide_with_wall, reversed, Arena, LocalPoint, Orientation,
    Transform, ROT_ONE, SPAWN_SCALE,
};
use crate::levels::LevelData;

verus! {

/// Number of players.
pub const PLAYER_COUNT: usize = 2;

/// A player's shape and its index, which selects its keys and speeds.
pub struct Player {
    pub idx: usize,
    pub points: Vec<LocalPoint>,
}

/// Which of a player's six actions are held during a tick.
#[derive(Clone, Copy, Debug, PartialEq, Eq, Structural)]
pub struct PlayerInput {
    pub up: bool,
    pub left: bool,
    pub down: bool,
    pub right: bool,
    pub rot_cw: bool,
    pub rot_ccw: bool,
}

impl PlayerInput {
    /// No action held.
    pub fn idle() -> (r: PlayerInput)
        ensures
            r.is_idle(),
    {
        PlayerInput { up: false, left: false, down: false, right: false, rot_cw: false, rot_ccw: false }
    }

    pub open spec fn is_idle(self) -> bool {
        !self.up && !self.left && !self.down && !self.right && !self.rot_cw && !self.rot_ccw
    }
}

/// Distance a player moves per tick, in sub-units: 200 and 240 world units
/// per second.
pub open spec fn player_speed(idx: int) -> int {
    if idx == 0 {
        200000
    } else {
        240000
    }
}

/// Rotation a player turns by per tick: 1 and 0.6 radians per second.
pub open spec fn player_turn(idx: int) -> Orientation {
    if idx == 0 {
        Orientation { cos: 1073592697, sin: 17894869 }
    } else {
        Orientation { cos: 1073688137, sin: 10737239 }
    }
}

/// The direction of an axis from its two keys: -1, 0 or 1; both or neither
/// held gives 0.
pub open spec fn axis(neg: bool, pos: bool) -> int {
    if neg == pos {
        0
    } else if neg {
        -1
    } else {
        1
    }
}

/// `t` moved by `(dx, dy)` when the moved position is representable and the
/// moved shape touches no wall; `t` otherwise.
pub open spec fn try_translate(t: Transform, dx: int, dy: int, pts: Seq<LocalPoint>, a: Arena) -> Transform {
    let cand = Transform { x: (t.x + dx) as i64, y: (t.y + dy) as i64, rotation: t.rotation, scale: t.scale };
    if fits_i64(t.x + dx) && fits_i64(t.y + dy) && !collides(pts, cand, a) {
        cand
    } else {
        t
    }
}

/// `t` turned by `by` when the turned shape touches no wall; `t` otherwise.
pub open spec fn try_turn(t: Transform, by: Orientation, pts: Seq<LocalPoint>, a: Arena) -> Transform {
    let cand = Transform { x: t.x, y: t.y, rotation: composed(t.rotation, by), scale: t.scale };
    if !collides(pts, cand, a) {
        cand
    } else {
        t
    }
}

/// One tick of a player: horizontal move, then vertical move, then turn,
/// each tried from the result of the previous one.
pub open spec fn player_step(t: Transform, idx: int, pts: Seq<LocalPoint>, input: PlayerInput, a: Arena) -> Transform {
    let sp = player_speed(idx);
    let h = axis(input.left, input.right);
    let t1 = if h == 0 { t } else { try_translate(t, h * sp, 0, pts, a) };
    let v = axis(input.down, input.up);
    let t2 = if v == 0 { t1 } else { try_translate(t1, 0, v * sp, pts, a) };
    let r = axis(input.rot_ccw, input.rot_cw);
    if r == 0 {
        t2
    } else if r < 0 {
        try_turn(t2, reversed(player_turn(idx)), pts, a)
    } else {
        try_turn(t2, player_turn(idx), pts, a)
    }
}

fn speed_of(idx: usize) -> (r: i64)
    ensures
        r == player_speed(idx as int),
{
    if idx == 0 {
        200000
    } else {
        240000
    }
}

fn turn_of(idx: usize) -> (r: Orientation)
    ensures
        r == player_turn(idx as int),
        r.wf(),
{
    if idx == 0 {
        Orientation { cos: 1073592697, sin: 17894869 }
    } else {
        Orientation { cos: 1073688137, sin: 10737239 }
    }
}

fn axis_of(neg: bool, pos: bool) -> (r: i64)
    ensures
        r == axis(neg, pos),
{
    if neg == pos {
        0
    } else if neg {
        -1
    } else {
        1
    }
}

fn translate_if_clear(t: Transform, dx: i64, dy: i64, pts: &[LocalPoint], a: &Arena) -> (r: Transform)
    ensures
        r == try_translate(t, dx as int, dy as int, pts@, *a),
{
    let x = t.x as i128 + dx as i128;
    let y = t.y as i128 + dy as i128;
    if x < i64::MIN as i128 || x > i64::MAX as i128 || y < i64::MIN as i128 || y > i64::MAX as i128 {
        return t;
    }
    let cand = Transform { x: x as i64, y: y as i64, rotation: t.rotation, scale: t.scale };
    let flags = points_collide_with_wall(pts, &cand, a);
    if flags.horizontal || flags.vertical {
        t
    } else {
        cand
    }
}

fn turn_if_clear(t: Transform, by: &Orientation, pts: &[LocalPoint], a: &Arena) -> (r: Transform)
    ensures
        r == try_turn(t, *by, pts@, *a),
{
    let cand = Transform { x: t.x, y: t.y, rotation: t.rotation.compose(by), scale: t.scale };
    let flags = points_collide_with_wall(pts, &cand, a);
    if flags.horizontal || flags.vertical {
        t
    } else {
        cand
    }
}

/// Advances one player by one tick from the actions held.
pub fn move_player(transform: &mut Transform, player: &Player, input: &PlayerInput, arena: &Arena)
    requires
        player.idx < PLAYER_COUNT,
    ensures
        *final(transform) == player_step(*old(transform), player.idx as int, player.points@, *input, *arena),
{
    let pts = player.points.as_slice();
    let sp = speed_of(player.idx);
    let h = axis_of(input.left, input.right);
    let mut t = *transform;
    if h != 0 {
        t = translate_if_clear(t, h * sp, 0, pts, arena);
    }
    let v = axis_of(input.down, input.up);
    if v != 0 {
        t = translate_if_clear(t, 0, v * sp, pts, arena);
    }
    let r = axis_of(input.rot_ccw, input.rot_cw);
    if r != 0 {
        let turn = turn_of(player.idx);
        if r < 0 {
            t = turn_if_clear(t, &turn.reverse(), pts, arena);
        } else {
            t = turn_if_clear(t, &turn, pts, arena);
        }
    }
    *transform = t;
}

/// Advances every player by one tick: player `i` owns `transforms[i]` and
/// reads `inputs[i]`.
pub fn move_players(players: &[Player], transforms: &mut Vec<Transform>, inputs: &[PlayerInput], arena: &Arena)
    requires
        players@.len() == old(transforms)@.len(),
        inputs@.len() == old(transforms)@.len(),
        forall|i: int| 0 <= i < players@.len() ==> #[trigger] players@[i].idx < PLAYER_COUNT,
    ensures
        final(transforms)@.len() == old(transforms)@.len(),
        forall|i: int| 0 <= i < old(transforms)@.len() ==> #[trigger] final(transforms)@[i] == player_step(
            old(transforms)@[i], players@[i].idx as int, players@[i].points@, inputs@[i], *arena),
{
    let ghost before = transforms@;
    let mut i: usize = 0;
    while i < transforms.len()
        invariant
            i <= transforms@.len(),
            transforms@.len() == before.len(),
            players@.len() == before.len(),
            inputs@.len() == before.len(),
            forall|j: int| 0 <= j < players@.len() ==> #[trigger] players@[j].idx < PLAYER_COUNT,
            forall|j: int| 0 <= j < i ==> #[trigger] transforms@[j] == player_step(
                before[j], players@[j].idx as int, players@[j].points@, inputs@[j], *arena),
            forall|j: int| i <= j < before.len() ==> #[trigger] transforms@[j] == before[j],
        decreases before.len() - i,
    {
        let mut t = transforms[i];
        move_player(&mut t, &players[i], &inputs[i], arena);
        transforms.set(i, t);
        i = i + 1;
    }
}

/// Where player `idx` starts a level: 50 world units left or right of
/// centre, 100 below it, unrotated, at the spawn scale.
pub open spec fn player_spawn(idx: int) -> Transform {
    Transform {
        x: if idx == 0 { -3000000i64 } else { 3000000i64 },
        y: -6000000i64,
        rotation: Orientation { cos: ROT_ONE as i32, sin: 0 },
        scale: SPAWN_SCALE,
    }
}

/// The two players of a level, with the shapes of `level`, and where they
/// start.
pub fn spawn_players(level: &LevelData) -> (r: (Vec<Player>, Vec<Transform>))
    ensures
        r.0@.len() == PLAYER_COUNT,
        r.1@.len() == PLAYER_COUNT,
        r.0@[0].idx == 0,
        r.0@[0].points@ == level.player1@,
        r.0@[1].idx == 1,
        r.0@[1].points@ == level.player2@,
        r.1@[0] == player_spawn(0),
        r.1@[1] == player_spawn(1),
{
    let mut players: Vec<Player> = Vec::new();
    players.push(Player { idx: 0, points: level.player1.clone() });
    players.push(Player { idx: 1, points: level.player2.clone() });
    let mut transforms: Vec<Transform> = Vec::new();
    transforms.push(Transform { x: -3000000, y: -6000000, rotation: Orientation::identity(), scale: SPAWN_SCALE });
    transforms.push(Transform { x: 3000000, y: -6000000, rotation: Orientation::identity(), scale: SPAWN_SCALE });
    (players, transforms)
}

/// With no action held, a tick leaves a player where it was.
pub proof fn lemma_idle_player_stays(t: Transform, idx: int, pts: Seq<LocalPoint>, input: PlayerInput, a: Arena)
    requires
        input.is_idle(),
    ensures
        player_step(t, idx, pts, input, a) == t,
{
}

/// A player whose shape lies inside the arena still does after a tick.
pub proof fn lemma_player_stays_inside(t: Transform, idx: int, pts: Seq<LocalPoint>, input: PlayerInput, a: Arena)
    requires
        contained(pts, t, a),
    ensures
        contained(pts, player_step(t, idx, pts, input, a), a),
{
    let sp = player_speed(idx);
    let h = axis(input.left, input.right);
    let v = axis(input.down, input.up);
    let t1 = if h == 0 { t } else { try_translate(t, h * sp, 0, pts, a) };
    let t2 = if v == 0 { t1 } else { try_translate(t1, 0, v * sp, pts, a) };
    lemma_no_collision_iff_contained(pts, try_translate(t, h * sp, 0, pts, a), a);
    assert(contained(pts, t1, a));
    lemma_no_collision_iff_contained(pts, try_translate(t1, 0, v * sp, pts, a), a);
    assert(contained(pts, t2, a));
    lemma_no_collision_iff_contained(pts, try_turn(t2, reversed(player_turn(idx)), pts, a), a);
    lemma_no_collision_iff_contained(pts, try_turn(t2, player_turn(idx), pts, a), a);
}


/// The transform after one tick per entry of `inputs`, in order.
pub open spec fn player_run(t: Transform, idx: int, pts: Seq<LocalPoint>, inputs: Seq<PlayerInput>, a: Arena) -> Transform
    decreases inputs.len(),
{
    if inputs.len() == 0 {
        t
    } else {
        player_run(player_step(t, idx, pts, inputs[0], a), idx, pts, inputs.drop_first(), a)
    }
}

/// Every transform a player can reach from inside the arena, under any
/// sequence of held actions, keeps its shape inside the arena.
pub proof fn lemma_player_run_stays_inside(t: Transform, idx: int, pts: Seq<LocalPoint>, inputs: Seq<PlayerInput>, a: Arena)
    requires
        contained(pts, t, a),
    ensures
        contained(pts, player_run(t, idx, pts, inputs, a), a),
    decreases inputs.len(),
{
    if inputs.len() > 0 {
        lemma_player_stays_inside(t, idx, pts, inputs[0], a);
        lemma_player_run_stays_inside(player_step(t, idx, pts, inputs[0], a), idx, pts, inputs.drop_first(), a);
    }
}


/// A player's orientation stays a unit rotation, up to rounding that does
/// not accumulate, through every tick.
pub proof fn lemma_player_orientation_stays_unit(t: Transform, idx: int, pts: Seq<LocalPoint>, input: PlayerInput, a: Arena)
    requires
        t.rotation.wf(),
    ensures
        player_step(t, idx, pts, input, a).rotation.wf(),
{
    let turn = player_turn(idx);
    if idx == 0 {
        assert(player_turn(0).wf());
    } else {
        assert(player_turn(1).wf());
    }
    lemma_reversed_wf(turn);
    let sp = player_speed(idx);
    let h = axis(input.left, input.right);
    let v = axis(input.down, input.up);
    let t1 = if h == 0 { t } else { try_translate(t, h * sp, 0, pts, a) };
    let t2 = if v == 0 { t1 } else { try_translate(t1, 0, v * sp, pts, a) };
    assert(t2.rotation == t.rotation);
    lemma_composed_wf(t2.rotation, turn);
    lemma_composed_wf(t2.rotation, reversed(turn));
}

} // verus!
