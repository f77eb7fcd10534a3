//! Target movement: straight-line motion that bounces off the walls, a
//! steady turn that reverses at the walls, and occasional random changes of
//! speed kept within a band.
use vstd::prelude::*;
use rand::rngs::StdRng;
use rand::Rng;
use crate::geometry::{
    beyond_x, beyond_y, collides, composed, contained, fits_i64, floor_div, hits_horizontal,
    hits_vertical, lemma_composed_wf, lemma_no_collision_iff_contained, lemma_reversed_wf,
    points_collide_with_wall, reversed, world_x, world_y, Arena, LocalPoint, Orientation, Transform, ROT_ONE, SPAWN_SCALE,
};
use crate::levels::LevelData;

verus! {

/// Speed of each axis at spawn and after a reset: 20 world units per second.
pub const INITIAL_TARGET_SPEED: i64 = 20000;
/// Lowest kept speed of an axis: 10 world units per second.
pub const MIN_TARGET_SPEED: i64 = 10000;
/// Speeds of an axis above this (40 world units per second) are reset.
pub const MAX_TARGET_SPEED: i64 = 40000;

/// The target's shape.
pub struct Target {
    pub points: Vec<LocalPoint>,
}

/// The target's velocity, in sub-units per tick.
#[derive(Clone, Copy, Debug, PartialEq, Eq, Structural)]
pub struct Velocity {
    pub x: i64,
    pub y: i64,
}

/// The target's rate of turn, as the rotation it turns by each tick.
#[derive(Clone, Copy, Debug, PartialEq, Eq, Structural)]
pub struct Rotation {
    pub step: Orientation,
}

/// rand's `StdRng`, the seedable generator behind the perturbation draws;
/// opaque here and only handed on to the draws.
#[verifier::external_type_specification]
#[verifier::external_body]
pub struct ExStdRng(StdRng);

/// Per-tick turn of the target at spawn: 0.1 radians per second.
pub open spec fn target_turn() -> Orientation {
    Orientation { cos: 1073740333, sin: 1789569 }
}

/// `t` moved by one tick of `v`.
pub open spec fn translated(t: Transform, v: Velocity) -> Transform {
    Transform { x: (t.x + v.x) as i64, y: (t.y + v.y) as i64, rotation: t.rotation, scale: t.scale }
}

/// The translation half of a target tick. The candidate position is
/// `t + v`. For each axis whose wall the candidate reaches, the position
/// stays where it was this tick and that velocity component is reversed for
/// the next one; the other axis takes the candidate's value.
pub open spec fn bounced_translation(t: Transform, v: Velocity, pts: Seq<LocalPoint>, a: Arena) -> (Transform, Velocity) {
    let cand = translated(t, v);
    let h = hits_horizontal(pts, cand, a);
    let w = hits_vertical(pts, cand, a);
    (
        Transform {
            x: if h { t.x } else { cand.x },
            y: if w { t.y } else { cand.y },
            rotation: t.rotation,
            scale: t.scale,
        },
        Velocity { x: if h { (-v.x) as i64 } else { v.x }, y: if w { (-v.y) as i64 } else { v.y } },
    )
}

/// The turning half of a target tick: the turn is kept when the turned shape
/// touches no wall; otherwise the orientation stays and the turn reverses.
pub open spec fn bounced_turn(t: Transform, r: Rotation, pts: Seq<LocalPoint>, a: Arena) -> (Transform, Rotation) {
    let cand = Transform { x: t.x, y: t.y, rotation: composed(t.rotation, r.step), scale: t.scale };
    if collides(pts, cand, a) {
        (t, Rotation { step: reversed(r.step) })
    } else {
        (cand, r)
    }
}

/// The deterministic part of a target tick: translation, then turn.
pub open spec fn target_step(t: Transform, v: Velocity, r: Rotation, pts: Seq<LocalPoint>, a: Arena) -> (Transform, Velocity, Rotation) {
    let (t1, v1) = bounced_translation(t, v, pts, a);
    let (t2, r2) = bounced_turn(t1, r, pts, a);
    (t2, v1, r2)
}

/// The moves a tick can make without leaving the integers that hold them.
pub open spec fn step_representable(t: Transform, v: Velocity, r: Rotation) -> bool {
    fits_i64(t.x + v.x) && fits_i64(t.y + v.y) && v.x != i64::MIN && v.y != i64::MIN && r.step.wf()
}

/// The magnitude of an axis speed lies in `[MIN_TARGET_SPEED, MAX_TARGET_SPEED]`.
pub open spec fn in_band(s: int) -> bool {
    let m = if s < 0 { -s } else { s };
    MIN_TARGET_SPEED <= m <= MAX_TARGET_SPEED
}

/// -1 for a negative speed, 1 otherwise.
pub open spec fn sign_of(s: int) -> int {
    if s < 0 {
        -1
    } else {
        1
    }
}

/// A speed in the band is kept; any other becomes the initial speed with
/// its sign.
pub open spec fn settled_speed(s: int) -> int {
    if in_band(s) {
        s
    } else {
        INITIAL_TARGET_SPEED * sign_of(s)
    }
}

/// An axis speed multiplied by `factor` thousandths (rounded down), then settled.
pub open spec fn perturbed_speed(s: int, factor: int) -> int {
    settled_speed((s * factor) / 1000)
}

/// The velocity after a perturbation step that fires (`fire`) with factors
/// `fx` and `fy` thousandths; one that does not fire keeps it.
pub open spec fn perturbed(v: Velocity, fire: bool, fx: int, fy: int) -> Velocity {
    if fire {
        Velocity { x: perturbed_speed(v.x as int, fx) as i64, y: perturbed_speed(v.y as int, fy) as i64 }
    } else {
        v
    }
}

/// A drawn speed factor: uniform thousandths in `[0.5, 2.0)`.
pub open spec fn valid_factor(f: int) -> bool {
    500 <= f < 2000
}

impl Rotation {
    /// The target's turn at spawn.
    pub fn initial() -> (r: Rotation)
        ensures
            r.step == target_turn(),
            r.step.wf(),
    {
        Rotation { step: Orientation { cos: 1073740333, sin: 1789569 } }
    }
}

impl Velocity {
    /// The target's velocity at spawn.
    pub fn initial() -> (r: Velocity)
        ensures
            r == (Velocity { x: INITIAL_TARGET_SPEED, y: INITIAL_TARGET_SPEED }),
    {
        Velocity { x: 20000, y: 20000 }
    }
}

/// Where the target starts a level: 100 world units above centre,
/// unrotated, at the spawn scale.
pub open spec fn target_spawn() -> Transform {
    Transform { x: 0i64, y: 6000000i64, rotation: Orientation { cos: ROT_ONE as i32, sin: 0 }, scale: SPAWN_SCALE }
}

/// The target of a level, with the target shape of `level`, where it starts,
/// and its initial velocity and turn.
pub fn spawn_target(level: &LevelData) -> (r: (Target, Transform, Velocity, Rotation))
    ensures
        r.0.points@ == level.target@,
        r.1 == target_spawn(),
        r.2 == (Velocity { x: INITIAL_TARGET_SPEED, y: INITIAL_TARGET_SPEED }),
        r.3.step == target_turn(),
{
    let target = Target { points: level.target.clone() };
    let transform = Transform { x: 0, y: 6000000, rotation: Orientation::identity(), scale: SPAWN_SCALE };
    (target, transform, Velocity::initial(), Rotation::initial())
}

/// Moves and turns the target by one tick, bouncing off the walls.
pub fn advance_target(transform: &mut Transform, target: &Target, velocity: &mut Velocity, rotation: &mut Rotation, arena: &Arena)
    requires
        step_representable(*old(transform), *old(velocity), *old(rotation)),
    ensures
        (*final(transform), *final(velocity), *final(rotation)) == target_step(
            *old(transform), *old(velocity), *old(rotation), target.points@, *arena),
        final(rotation).step.wf(),
{
    let pts = target.points.as_slice();
    let t = *transform;
    let cand = Transform { x: t.x + velocity.x, y: t.y + velocity.y, rotation: t.rotation, scale: t.scale };
    let flags = points_collide_with_wall(pts, &cand, arena);
    let mut moved = cand;
    if flags.horizontal {
        moved.x = t.x;
        velocity.x = -velocity.x;
    }
    if flags.vertical {
        moved.y = t.y;
        velocity.y = -velocity.y;
    }
    let turned = Transform { x: moved.x, y: moved.y, rotation: moved.rotation.compose(&rotation.step), scale: moved.scale };
    let flags = points_collide_with_wall(pts, &turned, arena);
    if flags.horizontal || flags.vertical {
        rotation.step = rotation.step.reverse();
        *transform = moved;
    } else {
        *transform = turned;
    }
}

/// If the target is going too slowly or too quickly, sets the speed back to
/// the initial speed with the same sign (zero counts as positive).
pub fn handle_target_velocity_overflow(speed: i128) -> (r: i64)
    ensures
        r == settled_speed(speed as int),
        in_band(r as int),
{
    let min = MIN_TARGET_SPEED as i128;
    let max = MAX_TARGET_SPEED as i128;
    if (speed >= min && speed <= max) || (speed <= -min && speed >= -max) {
        speed as i64
    } else if speed < 0 {
        -INITIAL_TARGET_SPEED
    } else {
        INITIAL_TARGET_SPEED
    }
}

/// One perturbation step with its outcome given: when `fire` holds, each
/// axis is multiplied by its factor in thousandths, rounded down, then
/// settled into the band; otherwise the velocity is kept.
pub fn perturb_velocity(velocity: Velocity, fire: bool, fx: u32, fy: u32) -> (r: Velocity)
    ensures
        r == perturbed(velocity, fire, fx as int, fy as int),
{
    if fire {
        proof {
            assert(-0x1_0000_0000_0000_0000_0000_0000 <= velocity.x * fx <= 0x1_0000_0000_0000_0000_0000_0000) by (nonlinear_arith)
                requires i64::MIN <= velocity.x <= i64::MAX, 0 <= fx <= u32::MAX;
            assert(-0x1_0000_0000_0000_0000_0000_0000 <= velocity.y * fy <= 0x1_0000_0000_0000_0000_0000_0000) by (nonlinear_arith)
                requires i64::MIN <= velocity.y <= i64::MAX, 0 <= fy <= u32::MAX;
        }
        let x = handle_target_velocity_overflow(floor_div(velocity.x as i128 * fx as i128, 1000));
        let y = handle_target_velocity_overflow(floor_div(velocity.y as i128 * fy as i128, 1000));
        Velocity { x, y }
    } else {
        velocity
    }
}

/// Relies on rand's `Rng::gen_ratio(1, 10)`: a draw that is true with
/// probability one in ten.
#[verifier::external_body]
fn roll_perturbation(rng: &mut StdRng) -> (r: bool) {
    rng.gen_ratio(1, 10)
}

/// Relies on rand's `Rng::gen_range` over the half-open range `500..2000`:
/// a draw that lies in that range.
#[verifier::external_body]
fn draw_factor(rng: &mut StdRng) -> (r: u32)
    ensures
        valid_factor(r as int),
{
    rng.gen_range(500u32..2000u32)
}

/// The random perturbation step: one tick in ten, each axis speed is
/// multiplied by its own factor drawn from `[0.5, 2.0)` and settled.
pub fn accelerate_target(velocity: Velocity, rng: &mut StdRng) -> (r: Velocity)
    ensures
        exists|fire: bool, fx: int, fy: int| valid_factor(fx) && valid_factor(fy)
            && r == perturbed(velocity, fire, fx, fy),
{
    let fire = roll_perturbation(rng);
    if fire {
        let fx = draw_factor(rng);
        let fy = draw_factor(rng);
        let r = perturb_velocity(velocity, true, fx, fy);
        assert(valid_factor(fx as int) && valid_factor(fy as int) && r == perturbed(velocity, true, fx as int, fy as int));
        r
    } else {
        assert(valid_factor(1000) && velocity == perturbed(velocity, false, 1000, 1000));
        velocity
    }
}

/// One whole target tick: translation and turn with bounces, then the random
/// perturbation of the velocity.
pub fn move_target(transform: &mut Transform, target: &Target, velocity: &mut Velocity, rotation: &mut Rotation, arena: &Arena, rng: &mut StdRng)
    requires
        step_representable(*old(transform), *old(velocity), *old(rotation)),
    ensures
        ({
            let (t, v, r) = target_step(*old(transform), *old(velocity), *old(rotation), target.points@, *arena);
            &&& *final(transform) == t
            &&& *final(rotation) == r
            &&& exists|fire: bool, fx: int, fy: int| valid_factor(fx) && valid_factor(fy)
                && *final(velocity) == perturbed(v, fire, fx, fy)
        }),
{
    let ghost step = target_step(*transform, *velocity, *rotation, target.points@, *arena);
    advance_target(transform, target, velocity, rotation, arena);
    let v = accelerate_target(*velocity, rng);
    assert(*velocity == step.1);
    *velocity = v;
    assert(exists|fire: bool, fx: int, fy: int| valid_factor(fx) && valid_factor(fy)
        && v == perturbed(step.1, fire, fx, fy));
}


/// Some point placed by `t` reaches a side wall and the top or bottom wall
/// at once.
pub open spec fn corner_hit(pts: Seq<LocalPoint>, t: Transform, a: Arena) -> bool {
    exists|i: int| 0 <= i < pts.len() && #[trigger] beyond_x(pts[i], t, a) && beyond_y(pts[i], t, a)
}

/// A target inside the arena stays inside after a tick, unless the
/// translation candidate puts some point past two walls at once: such a
/// point reports the side wall only, so the vertical move is kept.
pub proof fn lemma_target_stays_inside(t: Transform, v: Velocity, r: Rotation, pts: Seq<LocalPoint>, a: Arena)
    requires
        contained(pts, t, a),
        !corner_hit(pts, translated(t, v), a),
    ensures
        contained(pts, target_step(t, v, r, pts, a).0, a),
{
    let cand = translated(t, v);
    assert(forall|i: int| 0 <= i < pts.len() ==> !beyond_x(pts[i], t, a));
    let t1 = bounced_translation(t, v, pts, a).0;
    let h = hits_horizontal(pts, cand, a);
    let w = hits_vertical(pts, cand, a);
    assert forall|i: int| 0 <= i < pts.len() implies !#[trigger] beyond_x(pts[i], t1, a) && !beyond_y(pts[i], t1, a) by {
        let p = pts[i];
        assert(!beyond_x(pts[i], t, a) && !beyond_y(pts[i], t, a));
        if h {
            assert(world_x(p, t1) == world_x(p, t));
        } else {
            assert(world_x(p, t1) == world_x(p, cand));
            if beyond_x(p, cand, a) {
                assert(hits_horizontal(pts, cand, a));
            }
        }
        if w {
            assert(world_y(p, t1) == world_y(p, t));
        } else {
            assert(world_y(p, t1) == world_y(p, cand));
            if beyond_y(p, cand, a) {
                if beyond_x(p, cand, a) {
                    assert(corner_hit(pts, cand, a));
                } else {
                    assert(hits_vertical(pts, cand, a));
                }
            }
        }
    }
    let turned = Transform { x: t1.x, y: t1.y, rotation: composed(t1.rotation, r.step), scale: t1.scale };
    lemma_no_collision_iff_contained(pts, turned, a);
}

/// A target whose next position would reach a side wall reverses its
/// horizontal speed and keeps its horizontal position for the tick; the same
/// holds of the top and bottom walls and the vertical axis.
pub proof fn lemma_bounce_reverses(t: Transform, v: Velocity, r: Rotation, pts: Seq<LocalPoint>, a: Arena)
    requires
        v.x != i64::MIN,
        v.y != i64::MIN,
    ensures
        hits_horizontal(pts, translated(t, v), a) ==> target_step(t, v, r, pts, a).1.x == -v.x
            && target_step(t, v, r, pts, a).0.x == t.x,
        hits_vertical(pts, translated(t, v), a) ==> target_step(t, v, r, pts, a).1.y == -v.y
            && target_step(t, v, r, pts, a).0.y == t.y,
{
}

/// Whatever it is given, a perturbation that fires leaves both speeds in the
/// band, and one that does not fire keeps them.
pub proof fn lemma_perturbation_in_band(v: Velocity, fire: bool, fx: int, fy: int)
    ensures
        fire ==> in_band(perturbed(v, fire, fx, fy).x as int) && in_band(perturbed(v, fire, fx, fy).y as int),
        !fire ==> perturbed(v, fire, fx, fy) == v,
{
}

/// Speeds in the band stay in it through a whole target tick: bounces only
/// reverse them and perturbations settle them.
pub proof fn lemma_speed_stays_in_band(
    t: Transform,
    v: Velocity,
    r: Rotation,
    pts: Seq<LocalPoint>,
    a: Arena,
    fire: bool,
    fx: int,
    fy: int,
)
    requires
        in_band(v.x as int),
        in_band(v.y as int),
    ensures
        in_band(perturbed(target_step(t, v, r, pts, a).1, fire, fx, fy).x as int),
        in_band(perturbed(target_step(t, v, r, pts, a).1, fire, fx, fy).y as int),
{
}


/// The velocity after one perturbation step per entry of `outcomes`, each
/// entry saying whether the step fired and its two factors.
pub open spec fn perturbed_run(v: Velocity, outcomes: Seq<(bool, int, int)>) -> Velocity
    decreases outcomes.len(),
{
    if outcomes.len() == 0 {
        v
    } else {
        perturbed_run(perturbed(v, outcomes[0].0, outcomes[0].1, outcomes[0].2), outcomes.drop_first())
    }
}

/// Speeds in the band stay in it after any number of perturbation steps,
/// whatever their outcomes.
pub proof fn lemma_perturbed_run_in_band(v: Velocity, outcomes: Seq<(bool, int, int)>)
    requires
        in_band(v.x as int),
        in_band(v.y as int),
    ensures
        in_band(perturbed_run(v, outcomes).x as int),
        in_band(perturbed_run(v, outcomes).y as int),
    decreases outcomes.len(),
{
    if outcomes.len() > 0 {
        lemma_perturbation_in_band(v, outcomes[0].0, outcomes[0].1, outcomes[0].2);
        lemma_perturbed_run_in_band(perturbed(v, outcomes[0].0, outcomes[0].1, outcomes[0].2), outcomes.drop_first());
    }
}


/// The target's orientation and its turn stay unit rotations, up to
/// rounding that does not accumulate, through every tick.
pub proof fn lemma_target_orientation_stays_unit(t: Transform, v: Velocity, r: Rotation, pts: Seq<LocalPoint>, a: Arena)
    requires
        t.rotation.wf(),
        r.step.wf(),
    ensures
        target_step(t, v, r, pts, a).0.rotation.wf(),
        target_step(t, v, r, pts, a).2.step.wf(),
{
    let t1 = bounced_translation(t, v, pts, a).0;
    assert(t1.rotation == t.rotation);
    lemma_composed_wf(t1.rotation, r.step);
    lemma_reversed_wf(r.step);
}


/// A perturbation keeps the sign of a negative speed.
proof fn lemma_perturbed_negative(s: int, f: int)
    requires
        s < 0,
        valid_factor(f),
    ensures
        perturbed_speed(s, f) < 0,
{
    assert(s * f <= -500) by (nonlinear_arith)
        requires s <= -1, f >= 500;
    vstd::arithmetic::div_mod::lemma_fundamental_div_mod(s * f, 1000);
}

/// A target moving right whose next position would reach a side wall moves
/// left after the whole tick, perturbation included, and no point of it
/// reaches a side wall when it started inside the arena.
pub proof fn lemma_bounce_survives_tick(
    t: Transform,
    v: Velocity,
    r: Rotation,
    pts: Seq<LocalPoint>,
    a: Arena,
    fire: bool,
    fx: int,
    fy: int,
)
    requires
        v.x > 0,
        hits_horizontal(pts, translated(t, v), a),
        valid_factor(fx),
        contained(pts, t, a),
    ensures
        perturbed(target_step(t, v, r, pts, a).1, fire, fx, fy).x < 0,
        forall|i: int| 0 <= i < pts.len() ==> !#[trigger] beyond_x(pts[i], target_step(t, v, r, pts, a).0, a),
{
    let (t1, v1) = bounced_translation(t, v, pts, a);
    assert(v1.x == -v.x);
    if fire {
        lemma_perturbed_negative(v1.x as int, fx);
    }
    let t2 = target_step(t, v, r, pts, a).0;
    let turned = Transform { x: t1.x, y: t1.y, rotation: composed(t1.rotation, r.step), scale: t1.scale };
    lemma_no_collision_iff_contained(pts, turned, a);
    assert(forall|i: int| 0 <= i < pts.len() ==> !beyond_x(pts[i], t, a));
    if !collides(pts, turned, a) {
        assert(forall|i: int| 0 <= i < pts.len() ==> !beyond_x(pts[i], turned, a));
    }
    assert forall|i: int| 0 <= i < pts.len() implies !#[trigger] beyond_x(pts[i], t2, a) by {
        assert(world_x(pts[i], t1) == world_x(pts[i], t));
    }
}

} // verus!
