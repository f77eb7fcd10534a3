//! The win test: every player within tolerance of the target's position and
//! orientation.
use vstd::prelude::*;
use crate::geometry::{Orientation, Transform, ROT_ONE};

verus! {

/// Largest position difference on each axis that still counts, exclusive:
/// 5 world units, in sub-units.
pub const TOLERANCE: i64 = 300000;

/// `tan(0.15) * ROT_ONE`: the angle tolerance of 0.15 radians as the ratio
/// of cross to dot product of two orientations.
pub const TAN_ANGLE_TOLERANCE: i64 = 162280205;

pub open spec fn dot(a: Orientation, b: Orientation) -> int {
    a.cos * b.cos + a.sin * b.sin
}

pub open spec fn cross(a: Orientation, b: Orientation) -> int {
    a.cos * b.sin - a.sin * b.cos
}

pub open spec fn abs(v: int) -> int {
    if v < 0 {
        -v
    } else {
        v
    }
}

/// The angle between `a` and `b`, in `[0, pi]`, is below the angle
/// tolerance: it is acute and its tangent, `|cross| / dot`, is below
/// `TAN_ANGLE_TOLERANCE / ROT_ONE`. This does not depend on the lengths of
/// `a` and `b`.
pub open spec fn angle_close(a: Orientation, b: Orientation) -> bool {
    dot(a, b) > 0 && abs(cross(a, b)) * ROT_ONE < TAN_ANGLE_TOLERANCE * dot(a, b)
}

/// A player placed at `p` matches a target placed at `t`.
pub open spec fn near_target(p: Transform, t: Transform) -> bool {
    abs(p.x - t.x) < TOLERANCE && abs(p.y - t.y) < TOLERANCE && angle_close(p.rotation, t.rotation)
}

/// The level is solved: every player matches the target.
pub open spec fn solved(players: Seq<Transform>, t: Transform) -> bool {
    forall|i: int| 0 <= i < players.len() ==> #[trigger] near_target(players[i], t)
}

fn abs_exec(v: i128) -> (r: i128)
    requires
        v > i128::MIN,
    ensures
        r == abs(v as int),
{
    if v < 0 {
        -v
    } else {
        v
    }
}

/// Whether the orientations `a` and `b` are within the angle tolerance.
pub fn orientations_close(a: &Orientation, b: &Orientation) -> (r: bool)
    ensures
        r == angle_close(*a, *b),
{
    let ac = a.cos as i128;
    let as_ = a.sin as i128;
    let bc = b.cos as i128;
    let bs = b.sin as i128;
    proof {
        assert(-0x4000_0000_0000_0000 <= ac * bc <= 0x4000_0000_0000_0000) by (nonlinear_arith)
            requires i32::MIN <= ac <= i32::MAX, i32::MIN <= bc <= i32::MAX;
        assert(-0x4000_0000_0000_0000 <= as_ * bs <= 0x4000_0000_0000_0000) by (nonlinear_arith)
            requires i32::MIN <= as_ <= i32::MAX, i32::MIN <= bs <= i32::MAX;
        assert(-0x4000_0000_0000_0000 <= as_ * bc <= 0x4000_0000_0000_0000) by (nonlinear_arith)
            requires i32::MIN <= as_ <= i32::MAX, i32::MIN <= bc <= i32::MAX;
        assert(-0x4000_0000_0000_0000 <= ac * bs <= 0x4000_0000_0000_0000) by (nonlinear_arith)
            requires i32::MIN <= ac <= i32::MAX, i32::MIN <= bs <= i32::MAX;
    }
    let d = ac * bc + as_ * bs;
    let c = abs_exec(ac * bs - as_ * bc);
    proof {
        assert(0 <= c * ROT_ONE <= 0x8000_0000_0000_0000_0000_0000) by (nonlinear_arith)
            requires 0 <= c <= 0x8000_0000_0000_0000;
        assert(-0x8000_0000_0000_0000_0000_0000 <= TAN_ANGLE_TOLERANCE * d <= 0x8000_0000_0000_0000_0000_0000) by (nonlinear_arith)
            requires -0x8000_0000_0000_0000 <= d <= 0x8000_0000_0000_0000;
    }
    d > 0 && c * (ROT_ONE as i128) < (TAN_ANGLE_TOLERANCE as i128) * d
}

/// Whether the player placed at `player` matches the target placed at `target`.
pub fn player_at_target(player: &Transform, target: &Transform) -> (r: bool)
    ensures
        r == near_target(*player, *target),
{
    let dx = abs_exec(player.x as i128 - target.x as i128);
    let dy = abs_exec(player.y as i128 - target.y as i128);
    dx < TOLERANCE as i128 && dy < TOLERANCE as i128 && orientations_close(&player.rotation, &target.rotation)
}

/// Whether every player matches the target; true when there are no players.
pub fn check_positions(players: &[Transform], target: &Transform) -> (r: bool)
    ensures
        r == solved(players@, *target),
{
    let mut i: usize = 0;
    while i < players.len()
        invariant
            i <= players@.len(),
            forall|j: int| 0 <= j < i ==> #[trigger] near_target(players@[j], *target),
        decreases players@.len() - i,
    {
        if !player_at_target(&players[i], target) {
            return false;
        }
        i = i + 1;
    }
    true
}

} // verus!
