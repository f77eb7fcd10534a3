//! Fixed-point plane geometry: local shape points, transforms, orientations,
//! and the classification of a placed polygon against the arena walls.
use vstd::prelude::*;

verus! {

/// Position sub-units in one world unit. A tick lasts 1/60 s, so a speed of
/// `v` thousandths of a world unit per second moves `v` sub-units per tick.
pub const SUBUNITS_PER_UNIT: i64 = 60000;

/// Local shape coordinates are stored in thousandths of a local unit.
pub const LOCAL_ONE: i64 = 1000;

/// The fixed-point one of orientation components (2^30).
pub const ROT_ONE: i64 = 1073741824;

/// World coordinates of a placed point are exact multiples of
/// `1 / FINE` sub-units (`FINE == ROT_ONE * LOCAL_ONE`).
pub const FINE: i128 = 1073741824000;

/// A point of a shape in its own local space, in thousandths of a local unit.
#[derive(Clone, Copy, Debug, PartialEq, Eq, Structural)]
pub struct LocalPoint {
    pub x: i32,
    pub y: i32,
}

/// A planar rotation as a fixed-point unit complex number
/// (`cos / ROT_ONE`, `sin / ROT_ONE`).
#[derive(Clone, Copy, Debug, PartialEq, Eq, Structural)]
pub struct Orientation {
    pub cos: i32,
    pub sin: i32,
}

/// Position (sub-units), orientation and uniform scale (sub-units per local unit).
#[derive(Clone, Copy, Debug, PartialEq, Eq, Structural)]
pub struct Transform {
    pub x: i64,
    pub y: i64,
    pub rotation: Orientation,
    pub scale: u32,
}

/// An axis-aligned arena centred on the origin, half extents in sub-units.
#[derive(Clone, Copy, Debug, PartialEq, Eq, Structural)]
pub struct Arena {
    pub half_width: i64,
    pub half_height: i64,
}

/// A placed point, each coordinate in `1 / FINE` sub-units.
#[derive(Clone, Copy, Debug, PartialEq, Eq, Structural)]
pub struct WorldPoint {
    pub x: i128,
    pub y: i128,
}

/// Which walls a placed polygon reaches.
#[derive(Clone, Copy, Debug, PartialEq, Eq, Structural)]
pub struct CollisionFlags {
    pub horizontal: bool,
    pub vertical: bool,
}

/// Scale of every spawned shape: 80 world units per local unit.
pub const SPAWN_SCALE: u32 = 4800000;

/// Half width and half height of the playing arena: 200 world units.
pub const HALF_ARENA: i64 = 12000000;

impl Arena {
    /// The playing arena.
    pub fn standard() -> (r: Arena)
        ensures
            r.half_width == HALF_ARENA,
            r.half_height == HALF_ARENA,
    {
        Arena { half_width: HALF_ARENA, half_height: HALF_ARENA }
    }
}

pub open spec fn fits_i64(v: int) -> bool {
    i64::MIN <= v <= i64::MAX
}

impl Orientation {
    /// The squared length is within `8 * ROT_ONE` of `ROT_ONE * ROT_ONE`:
    /// a unit rotation up to rounding.
    pub open spec fn wf(self) -> bool {
        let len = self.cos * self.cos + self.sin * self.sin;
        ROT_ONE * ROT_ONE - 8 * ROT_ONE <= len <= ROT_ONE * ROT_ONE + 8 * ROT_ONE
    }

    /// The rotation by angle zero.
    pub fn identity() -> (r: Orientation)
        ensures
            r == (Orientation { cos: ROT_ONE as i32, sin: 0 }),
            r.wf(),
    {
        Orientation { cos: 1073741824, sin: 0 }
    }
}

/// Exact x coordinate of `p` scaled by `scale`, rotated by `rotation`, then
/// moved to `x`.
#[verifier::opaque]
pub open spec fn placed_x(p: LocalPoint, x: i64, rotation: Orientation, scale: u32) -> int {
    x * FINE + scale * (rotation.cos * p.x - rotation.sin * p.y)
}

/// Exact y coordinate of `p` scaled by `scale`, rotated by `rotation`, then
/// moved to `y`.
#[verifier::opaque]
pub open spec fn placed_y(p: LocalPoint, y: i64, rotation: Orientation, scale: u32) -> int {
    y * FINE + scale * (rotation.sin * p.x + rotation.cos * p.y)
}

/// Exact x coordinate of `p` placed by `t`: scale, then rotate, then translate.
pub open spec fn world_x(p: LocalPoint, t: Transform) -> int {
    placed_x(p, t.x, t.rotation, t.scale)
}

/// Exact y coordinate of `p` placed by `t`.
pub open spec fn world_y(p: LocalPoint, t: Transform) -> int {
    placed_y(p, t.y, t.rotation, t.scale)
}

/// The placed point is at or beyond the left or right wall.
pub open spec fn beyond_x(p: LocalPoint, t: Transform, a: Arena) -> bool {
    world_x(p, t) <= -(a.half_width * FINE) || world_x(p, t) >= a.half_width * FINE
}

/// The placed point is at or beyond the bottom or top wall.
pub open spec fn beyond_y(p: LocalPoint, t: Transform, a: Arena) -> bool {
    world_y(p, t) <= -(a.half_height * FINE) || world_y(p, t) >= a.half_height * FINE
}

/// Some point reaches a side wall.
pub open spec fn hits_horizontal(pts: Seq<LocalPoint>, t: Transform, a: Arena) -> bool {
    exists|i: int| 0 <= i < pts.len() && #[trigger] beyond_x(pts[i], t, a)
}

/// Some point reaches the top or bottom wall while lying between the side
/// walls: a point beyond both counts for the side walls only.
pub open spec fn hits_vertical(pts: Seq<LocalPoint>, t: Transform, a: Arena) -> bool {
    exists|i: int| 0 <= i < pts.len() && !beyond_x(pts[i], t, a) && #[trigger] beyond_y(pts[i], t, a)
}

pub open spec fn collides(pts: Seq<LocalPoint>, t: Transform, a: Arena) -> bool {
    hits_horizontal(pts, t, a) || hits_vertical(pts, t, a)
}

/// Every placed point lies strictly inside the arena.
pub open spec fn contained(pts: Seq<LocalPoint>, t: Transform, a: Arena) -> bool {
    forall|i: int| 0 <= i < pts.len() ==> !#[trigger] beyond_x(pts[i], t, a) && !beyond_y(pts[i], t, a)
}

/// The flags of `points_collide_with_wall`.
pub open spec fn collision_flags(pts: Seq<LocalPoint>, t: Transform, a: Arena) -> CollisionFlags {
    CollisionFlags { horizontal: hits_horizontal(pts, t, a), vertical: hits_vertical(pts, t, a) }
}

/// A polygon reports no collision exactly when it lies inside the arena.
pub proof fn lemma_no_collision_iff_contained(pts: Seq<LocalPoint>, t: Transform, a: Arena)
    ensures
        !collides(pts, t, a) <==> contained(pts, t, a),
{
    if contained(pts, t, a) {
        assert(!hits_horizontal(pts, t, a));
        assert(!hits_vertical(pts, t, a));
    }
    if !collides(pts, t, a) {
        assert forall|i: int| 0 <= i < pts.len() implies !#[trigger] beyond_x(pts[i], t, a)
            && !beyond_y(pts[i], t, a) by {
            if beyond_x(pts[i], t, a) {
                assert(hits_horizontal(pts, t, a));
            } else if beyond_y(pts[i], t, a) {
                assert(hits_vertical(pts, t, a));
            }
        }
    }
}

proof fn lemma_product_bound(s: int, c: int, p: int)
    requires
        0 <= s <= u32::MAX,
        i32::MIN <= c <= i32::MAX,
        i32::MIN <= p <= i32::MAX,
    ensures
        -0x4000_0000_0000_0000 <= c * p <= 0x4000_0000_0000_0000,
        -0x4000_0000_0000_0000_0000_0000 <= s * (c * p) <= 0x4000_0000_0000_0000_0000_0000,
{
    assert(-0x4000_0000_0000_0000 <= c * p <= 0x4000_0000_0000_0000) by (nonlinear_arith)
        requires
            i32::MIN <= c <= i32::MAX,
            i32::MIN <= p <= i32::MAX,
    ;
    let cp = c * p;
    assert(-0x4000_0000_0000_0000_0000_0000 <= s * cp <= 0x4000_0000_0000_0000_0000_0000)
        by (nonlinear_arith)
        requires
            0 <= s <= u32::MAX,
            -0x4000_0000_0000_0000 <= cp <= 0x4000_0000_0000_0000,
    ;
}

/// Places a local point in the world: scale, rotate, then translate.
pub fn transform_point(p: LocalPoint, t: &Transform) -> (r: WorldPoint)
    ensures
        r.x == world_x(p, *t),
        r.y == world_y(p, *t),
{
    let s = t.scale as i128;
    let c = t.rotation.cos as i128;
    let n = t.rotation.sin as i128;
    let px = p.x as i128;
    let py = p.y as i128;
    proof {
        reveal(placed_x);
        reveal(placed_y);
        lemma_product_bound(s as int, c as int, px as int);
        lemma_product_bound(s as int, n as int, py as int);
        lemma_product_bound(s as int, n as int, px as int);
        lemma_product_bound(s as int, c as int, py as int);
        assert(s * (c * px - n * py) == s * (c * px) - s * (n * py)) by (nonlinear_arith);
        assert(s * (n * px + c * py) == s * (n * px) + s * (c * py)) by (nonlinear_arith);
        assert(-0x8000_0000_0000_0000_0000_0000_0000 <= t.x * FINE <= 0x8000_0000_0000_0000_0000_0000_0000) by (nonlinear_arith)
            requires i64::MIN <= t.x <= i64::MAX;
        assert(-0x8000_0000_0000_0000_0000_0000_0000 <= t.y * FINE <= 0x8000_0000_0000_0000_0000_0000_0000) by (nonlinear_arith)
            requires i64::MIN <= t.y <= i64::MAX;
    }
    let rx = s * (c * px) - s * (n * py);
    let ry = s * (n * px) + s * (c * py);
    WorldPoint { x: (t.x as i128) * FINE + rx, y: (t.y as i128) * FINE + ry }
}


/// Side-wall test of one placed point.
fn beyond_x_exec(w: WorldPoint, a: &Arena) -> (r: bool)
    ensures
        r == (w.x <= -(a.half_width * FINE) || w.x >= a.half_width * FINE),
{
    let bound = (a.half_width as i128) * FINE;
    w.x <= -bound || w.x >= bound
}

/// Top/bottom-wall test of one placed point.
fn beyond_y_exec(w: WorldPoint, a: &Arena) -> (r: bool)
    ensures
        r == (w.y <= -(a.half_height * FINE) || w.y >= a.half_height * FINE),
{
    let bound = (a.half_height as i128) * FINE;
    w.y <= -bound || w.y >= bound
}

/// Places every point of `points` by `transform` and reports which walls they
/// reach. Each point is tested against the side walls first; only a point
/// between the side walls is tested against the top and bottom walls.
pub fn points_collide_with_wall(points: &[LocalPoint], transform: &Transform, arena: &Arena) -> (r: CollisionFlags)
    ensures
        r == collision_flags(points@, *transform, *arena),
{
    let ghost pts = points@;
    let ghost t = *transform;
    let ghost a = *arena;
    let mut horizontal = false;
    let mut vertical = false;
    let mut i: usize = 0;
    while i < points.len()
        invariant
            i <= points.len(),
            pts == points@,
            t == *transform,
            a == *arena,
            horizontal == hits_horizontal(pts.take(i as int), t, a),
            vertical == hits_vertical(pts.take(i as int), t, a),
        decreases points.len() - i,
    {
        let w = transform_point(points[i], transform);
        let bx = beyond_x_exec(w, arena);
        let by = beyond_y_exec(w, arena);
        proof {
            let prev = pts.take(i as int);
            let next = pts.take(i + 1);
            assert(next.len() == i + 1);
            assert(forall|j: int| 0 <= j < i ==> next[j] == prev[j]);
            assert(next[i as int] == pts[i as int]);
            if hits_horizontal(prev, t, a) {
                let j = choose|j: int| 0 <= j < prev.len() && #[trigger] beyond_x(prev[j], t, a);
                assert(beyond_x(next[j], t, a));
            }
            if hits_horizontal(next, t, a) {
                let j = choose|j: int| 0 <= j < next.len() && #[trigger] beyond_x(next[j], t, a);
                if j < i {
                    assert(beyond_x(prev[j], t, a));
                }
            }
            if bx {
                assert(beyond_x(next[i as int], t, a));
            }
            if hits_vertical(prev, t, a) {
                let j = choose|j: int| 0 <= j < prev.len() && !beyond_x(prev[j], t, a) && #[trigger] beyond_y(prev[j], t, a);
                assert(beyond_y(next[j], t, a));
            }
            if hits_vertical(next, t, a) {
                let j = choose|j: int| 0 <= j < next.len() && !beyond_x(next[j], t, a) && #[trigger] beyond_y(next[j], t, a);
                if j < i {
                    assert(beyond_y(prev[j], t, a));
                }
            }
            if !bx && by {
                assert(beyond_y(next[i as int], t, a));
            }
        }
        if bx {
            horizontal = true;
        } else if by {
            vertical = true;
        }
        i = i + 1;
    }
    proof {
        assert(pts.take(pts.len() as int) == pts);
    }
    CollisionFlags { horizontal, vertical }
}

/// `n / d` rounded toward negative infinity.
pub fn floor_div(n: i128, d: i128) -> (r: i128)
    requires
        d > 0,
    ensures
        r == n / d,
{
    if n >= 0 {
        n / d
    } else {
        let m = -(n + 1);
        let q = m / d;
        proof {
            vstd::arithmetic::div_mod::lemma_fundamental_div_mod(m as int, d as int);
            let r0 = m % d;
            assert(n == d * (-q - 1) + (d - 1 - r0)) by (nonlinear_arith)
                requires m == d * q + r0, n == -(m + 1);
            vstd::arithmetic::div_mod::lemma_fundamental_div_mod_converse(n as int, d as int, -q - 1, d - 1 - r0);
        }
        -q - 1
    }
}

/// `r` is the integer square root of `n`.
pub open spec fn is_isqrt(n: int, r: int) -> bool {
    0 <= r && r * r <= n < (r + 1) * (r + 1)
}

/// The integer square root of `n`, for `n >= 0`.
pub open spec fn isqrt(n: int) -> int {
    choose|r: int| is_isqrt(n, r)
}

pub open spec fn product_cos(a: Orientation, b: Orientation) -> int {
    a.cos * b.cos - a.sin * b.sin
}

pub open spec fn product_sin(a: Orientation, b: Orientation) -> int {
    a.sin * b.cos + a.cos * b.sin
}

/// The rotation by `a` followed by `b`: the complex product of the two,
/// rescaled to length `ROT_ONE` by the integer square root of its squared
/// length, each component rounded down. A zero product has no direction
/// and gives the identity.
#[verifier::opaque]
pub open spec fn composed(a: Orientation, b: Orientation) -> Orientation {
    let pc = product_cos(a, b);
    let ps = product_sin(a, b);
    let r = isqrt(pc * pc + ps * ps);
    if r == 0 {
        Orientation { cos: ROT_ONE as i32, sin: 0 }
    } else {
        Orientation { cos: ((pc * ROT_ONE) / r) as i32, sin: ((ps * ROT_ONE) / r) as i32 }
    }
}

/// The rotation by the opposite angle.
pub open spec fn reversed(a: Orientation) -> Orientation {
    Orientation { cos: a.cos, sin: (-a.sin) as i32 }
}

proof fn lemma_isqrt_unique(n: int, r1: int, r2: int)
    requires
        is_isqrt(n, r1),
        is_isqrt(n, r2),
    ensures
        r1 == r2,
{
    if r1 < r2 {
        assert((r1 + 1) * (r1 + 1) <= r2 * r2) by (nonlinear_arith)
            requires 0 <= r1, r1 + 1 <= r2;
    } else if r2 < r1 {
        assert((r2 + 1) * (r2 + 1) <= r1 * r1) by (nonlinear_arith)
            requires 0 <= r2, r2 + 1 <= r1;
    }
}

/// A value whose square is at most `n` lies within the integer root of `n`.
proof fn lemma_within_root(v: int, n: int, r: int)
    requires
        v * v <= n,
        is_isqrt(n, r),
    ensures
        -r <= v <= r,
{
    if v > r {
        assert((r + 1) * (r + 1) <= v * v) by (nonlinear_arith)
            requires 0 <= r, r + 1 <= v;
    } else if v < -r {
        assert((r + 1) * (r + 1) <= v * v) by (nonlinear_arith)
            requires 0 <= r, v <= -(r + 1);
    }
}

/// Rescaling by a root at least `one` gives a squared length within
/// `8 * one` of `one * one`.
proof fn lemma_rescaled_length(pc: int, ps: int, r: int, one: int, c: int, s: int, e: int, f: int)
    requires
        is_isqrt(pc * pc + ps * ps, r),
        1 <= one <= r,
        -r <= pc <= r,
        -r <= ps <= r,
        r * c == pc * one - e,
        0 <= e < r,
        r * s == ps * one - f,
        0 <= f < r,
    ensures
        one * one - 8 * one <= c * c + s * s <= one * one + 8 * one,
{
    let n = pc * pc + ps * ps;
    let x = c * c + s * s - one * one;
    let ca = r * c;
    let sb = r * s;
    assert(r * r * (c * c + s * s) == ca * ca + sb * sb) by (nonlinear_arith)
        requires ca == r * c, sb == r * s;
    assert(ca * ca == (pc * pc) * (one * one) - 2 * one * (pc * e) + e * e) by (nonlinear_arith)
        requires ca == pc * one - e;
    assert(sb * sb == (ps * ps) * (one * one) - 2 * one * (ps * f) + f * f) by (nonlinear_arith)
        requires sb == ps * one - f;
    assert(r * r * x == r * r * (c * c + s * s) - (r * r) * (one * one)) by (nonlinear_arith)
        requires x == c * c + s * s - one * one;
    assert((pc * pc) * (one * one) + (ps * ps) * (one * one) == n * (one * one)) by (nonlinear_arith)
        requires n == pc * pc + ps * ps;
    assert(n * (one * one) - (r * r) * (one * one) == (n - r * r) * (one * one)) by (nonlinear_arith);
    assert(2 * one * (pc * e) + 2 * one * (ps * f) == 2 * one * (pc * e + ps * f)) by (nonlinear_arith);
    assert(r * r * x == (n - r * r) * (one * one) - 2 * one * (pc * e + ps * f) + e * e + f * f);
    assert(0 <= n - r * r <= 2 * r) by (nonlinear_arith)
        requires r * r <= n < (r + 1) * (r + 1);
    assert(-(r * r) <= pc * e <= r * r) by (nonlinear_arith)
        requires -r <= pc <= r, 0 <= e < r;
    assert(-(r * r) <= ps * f <= r * r) by (nonlinear_arith)
        requires -r <= ps <= r, 0 <= f < r;
    assert(0 <= e * e <= r * r) by (nonlinear_arith)
        requires 0 <= e < r;
    assert(0 <= f * f <= r * r) by (nonlinear_arith)
        requires 0 <= f < r;
    let d = n - r * r;
    let g = pc * e + ps * f;
    let rr = r * r;
    let pe = pc * e;
    let pf = ps * f;
    assert(g >= -2 * rr && g <= 2 * rr) by (nonlinear_arith)
        requires g == pe + pf, -rr <= pe <= rr, -rr <= pf <= rr;
    assert(r * r * x >= -4 * one * (r * r)) by (nonlinear_arith)
        requires
            r * r * x == d * (one * one) - 2 * one * g + e * e + f * f,
            0 <= d, g <= 2 * (r * r), one >= 1, e * e >= 0, f * f >= 0;
    assert(r * r * x <= (6 * one + 2) * (r * r)) by (nonlinear_arith)
        requires
            r * r * x == d * (one * one) - 2 * one * g + e * e + f * f,
            d <= 2 * r, g >= -2 * (r * r), one >= 1, one <= r,
            e * e <= r * r, f * f <= r * r;
    assert(x >= -4 * one) by (nonlinear_arith)
        requires r * r * x >= -4 * one * (r * r), r >= 1;
    assert(x <= 6 * one + 2) by (nonlinear_arith)
        requires r * r * x <= (6 * one + 2) * (r * r), r >= 1;
}

/// Composing two well-formed orientations gives a well-formed one, so the
/// length of an orientation never drifts, however many turns it takes.
pub proof fn lemma_composed_wf(a: Orientation, b: Orientation)
    requires
        a.wf(),
        b.wf(),
    ensures
        composed(a, b).wf(),
{
    reveal(composed);
    let one = ROT_ONE as int;
    let pc = product_cos(a, b);
    let ps = product_sin(a, b);
    let n = pc * pc + ps * ps;
    let la = a.cos * a.cos + a.sin * a.sin;
    let lb = b.cos * b.cos + b.sin * b.sin;
    lemma_product_length(a.cos as int, a.sin as int, b.cos as int, b.sin as int);
    let low = one * one - 8 * one;
    assert(n >= low * low) by (nonlinear_arith)
        requires n == la * lb, la >= low, lb >= low, low >= 0;
    lemma_isqrt_exists(n);
    let r = isqrt(n);
    assert(r >= low) by (nonlinear_arith)
        requires (r + 1) * (r + 1) > n, n >= low * low, low >= 0, r >= 0;
    assert(pc * pc <= n && ps * ps <= n) by (nonlinear_arith)
        requires n == pc * pc + ps * ps;
    lemma_within_root(pc, n, r);
    lemma_within_root(ps, n, r);
    let c = (pc * one) / r;
    let s = (ps * one) / r;
    vstd::arithmetic::div_mod::lemma_fundamental_div_mod(pc * one, r);
    vstd::arithmetic::div_mod::lemma_fundamental_div_mod(ps * one, r);
    let e = (pc * one) % r;
    let f = (ps * one) % r;
    assert(r * c == pc * one - e);
    assert(r * s == ps * one - f);
    lemma_rescaled_length(pc, ps, r, one, c, s, e, f);
    lemma_rescaled_bounds(pc, r, one);
    lemma_rescaled_bounds(ps, r, one);
}

/// The squared length of a complex product is the product of the squared
/// lengths.
proof fn lemma_product_length(ac: int, as_: int, bc: int, bs: int)
    ensures
        (ac * bc - as_ * bs) * (ac * bc - as_ * bs) + (as_ * bc + ac * bs) * (as_ * bc + ac * bs)
            == (ac * ac + as_ * as_) * (bc * bc + bs * bs),
{
    let p = ac * bc;
    let q = as_ * bs;
    let u = as_ * bc;
    let v = ac * bs;
    assert((p - q) * (p - q) == p * p - 2 * (p * q) + q * q) by (nonlinear_arith);
    assert((u + v) * (u + v) == u * u + 2 * (u * v) + v * v) by (nonlinear_arith);
    assert(p * q == u * v) by (nonlinear_arith)
        requires p == ac * bc, q == as_ * bs, u == as_ * bc, v == ac * bs;
    let a1 = ac * ac;
    let a2 = as_ * as_;
    let b1 = bc * bc;
    let b2 = bs * bs;
    assert(p * p == a1 * b1) by (nonlinear_arith)
        requires p == ac * bc, a1 == ac * ac, b1 == bc * bc;
    assert(q * q == a2 * b2) by (nonlinear_arith)
        requires q == as_ * bs, a2 == as_ * as_, b2 == bs * bs;
    assert(u * u == a2 * b1) by (nonlinear_arith)
        requires u == as_ * bc, a2 == as_ * as_, b1 == bc * bc;
    assert(v * v == a1 * b2) by (nonlinear_arith)
        requires v == ac * bs, a1 == ac * ac, b2 == bs * bs;
    assert((a1 + a2) * (b1 + b2) == a1 * b1 + a1 * b2 + a2 * b1 + a2 * b2) by (nonlinear_arith);
}

proof fn lemma_isqrt_exists(n: int)
    requires
        n >= 0,
    ensures
        is_isqrt(n, isqrt(n)),
    decreases n,
{
    if n == 0 {
        assert(is_isqrt(0, 0));
    } else {
        lemma_isqrt_exists(n - 1);
        let r = isqrt(n - 1);
        if (r + 1) * (r + 1) <= n {
            assert((r + 1) * (r + 1) == n) by (nonlinear_arith)
                requires (r + 1) * (r + 1) <= n, n - 1 < (r + 1) * (r + 1);
            assert((r + 2) * (r + 2) > n) by (nonlinear_arith)
                requires (r + 1) * (r + 1) == n, r >= 0;
            assert(is_isqrt(n, r + 1));
        } else {
            assert(is_isqrt(n, r));
        }
    }
}

/// A component within the root, rescaled and rounded down, lies in
/// `[-one, one]`.
proof fn lemma_rescaled_bounds(p: int, r: int, one: int)
    requires
        r >= 1,
        one >= 0,
        -r <= p <= r,
    ensures
        -one <= (p * one) / r <= one,
{
    assert(-(r * one) <= p * one <= r * one) by (nonlinear_arith)
        requires -r <= p <= r, one >= 0;
    vstd::arithmetic::div_mod::lemma_div_is_ordered(-(r * one), p * one, r);
    vstd::arithmetic::div_mod::lemma_div_is_ordered(p * one, r * one, r);
    assert(-(r * one) == (-one) * r + 0) by (nonlinear_arith);
    assert(r * one == one * r + 0) by (nonlinear_arith);
    vstd::arithmetic::div_mod::lemma_fundamental_div_mod_converse(-(r * one), r, -one, 0);
    vstd::arithmetic::div_mod::lemma_fundamental_div_mod_converse(r * one, r, one, 0);
}

/// Reversing keeps an orientation well formed.
pub proof fn lemma_reversed_wf(a: Orientation)
    requires
        a.wf(),
    ensures
        reversed(a).wf(),
{
    let one = ROT_ONE as int;
    let c = a.cos as int;
    let s = a.sin as int;
    assert(c * c >= 0) by (nonlinear_arith);
    assert(s > i32::MIN) by (nonlinear_arith)
        requires
            c * c + s * s <= one * one + 8 * one,
            one == 0x4000_0000,
            c * c >= 0;
    assert((-s) * (-s) == s * s) by (nonlinear_arith);
}

/// Integer square root by bisection.
pub fn int_sqrt(n: u128) -> (r: u64)
    ensures
        is_isqrt(n as int, r as int),
        r == isqrt(n as int),
{
    let mut lo: u128 = 0;
    let mut hi: u128 = 0x1_0000_0000_0000_0000;
    proof {
        assert(n < hi * hi) by (nonlinear_arith)
            requires n <= u128::MAX, hi == 0x1_0000_0000_0000_0000u128;
    }
    while hi - lo > 1
        invariant
            lo < hi <= 0x1_0000_0000_0000_0000,
            lo * lo <= n,
            n < hi * hi,
        decreases hi - lo,
    {
        let mid = lo + (hi - lo) / 2;
        proof {
            assert(mid * mid < 0x1_0000_0000_0000_0000_0000_0000_0000_0000) by (nonlinear_arith)
                requires mid < 0x1_0000_0000_0000_0000;
        }
        if mid * mid <= n {
            lo = mid;
        } else {
            hi = mid;
        }
    }
    proof {
        assert(hi == lo + 1);
        assert(is_isqrt(n as int, lo as int));
        lemma_isqrt_exists(n as int);
        lemma_isqrt_unique(n as int, lo as int, isqrt(n as int));
    }
    lo as u64
}

impl Orientation {
    /// Rotates by `by` after `self`, keeping the length at `ROT_ONE`.
    pub fn compose(&self, by: &Orientation) -> (r: Orientation)
        ensures
            r == composed(*self, *by),
            self.wf() && by.wf() ==> r.wf(),
    {
        let ac = self.cos as i128;
        let as_ = self.sin as i128;
        let bc = by.cos as i128;
        let bs = by.sin as i128;
        proof {
            assert(-0x4000_0000_0000_0000 <= ac * bc <= 0x4000_0000_0000_0000) by (nonlinear_arith)
                requires i32::MIN <= ac <= i32::MAX, i32::MIN <= bc <= i32::MAX;
            assert(-0x4000_0000_0000_0000 <= as_ * bs <= 0x4000_0000_0000_0000) by (nonlinear_arith)
                requires i32::MIN <= as_ <= i32::MAX, i32::MIN <= bs <= i32::MAX;
            assert(-0x4000_0000_0000_0000 <= as_ * bc <= 0x4000_0000_0000_0000) by (nonlinear_arith)
                requires i32::MIN <= as_ <= i32::MAX, i32::MIN <= bc <= i32::MAX;
            assert(-0x4000_0000_0000_0000 <= ac * bs <= 0x4000_0000_0000_0000) by (nonlinear_arith)
                requires i32::MIN <= ac <= i32::MAX, i32::MIN <= bs <= i32::MAX;
        }
        let pc = ac * bc - as_ * bs;
        let ps = as_ * bc + ac * bs;
        proof {
            assert(0 <= pc * pc <= 0x4000_0000_0000_0000_0000_0000_0000_0000) by (nonlinear_arith)
                requires -0x8000_0000_0000_0000 <= pc <= 0x8000_0000_0000_0000;
            assert(0 <= ps * ps <= 0x4000_0000_0000_0000_0000_0000_0000_0000) by (nonlinear_arith)
                requires -0x8000_0000_0000_0000 <= ps <= 0x8000_0000_0000_0000;
        }
        let n = (pc * pc) as u128 + (ps * ps) as u128;
        let r = int_sqrt(n);
        proof {
            reveal(composed);
            if self.wf() && by.wf() {
                lemma_composed_wf(*self, *by);
            }
        }
        if r == 0 {
            return Orientation { cos: 1073741824, sin: 0 };
        }
        proof {
            assert(pc * pc <= n && ps * ps <= n);
            lemma_within_root(pc as int, n as int, r as int);
            lemma_within_root(ps as int, n as int, r as int);
            lemma_rescaled_bounds(pc as int, r as int, ROT_ONE as int);
            lemma_rescaled_bounds(ps as int, r as int, ROT_ONE as int);
            assert(-0x8000_0000_0000_0000_0000_0000 <= pc * ROT_ONE <= 0x8000_0000_0000_0000_0000_0000) by (nonlinear_arith)
                requires -0x8000_0000_0000_0000 <= pc <= 0x8000_0000_0000_0000;
            assert(-0x8000_0000_0000_0000_0000_0000 <= ps * ROT_ONE <= 0x8000_0000_0000_0000_0000_0000) by (nonlinear_arith)
                requires -0x8000_0000_0000_0000 <= ps <= 0x8000_0000_0000_0000;
        }
        let c = floor_div(pc * (ROT_ONE as i128), r as i128);
        let s = floor_div(ps * (ROT_ONE as i128), r as i128);
        Orientation { cos: c as i32, sin: s as i32 }
    }

    /// The rotation by the opposite angle.
    pub fn reverse(&self) -> (r: Orientation)
        requires
            self.wf(),
        ensures
            r == reversed(*self),
            r.wf(),
    {
        proof {
            let one = ROT_ONE as int;
            let c = self.cos as int;
            let s = self.sin as int;
            assert(c * c >= 0) by (nonlinear_arith);
            assert(s > i32::MIN) by (nonlinear_arith)
                requires
                    c * c + s * s <= one * one + 8 * one,
                    one == 0x4000_0000,
                    c * c >= 0;
            assert((-s) * (-s) == s * s) by (nonlinear_arith);
        }
        Orientation { cos: self.cos, sin: -self.sin }
    }
}

} // verus!
