//! The raycasting projector's arithmetic: view-space transform of wall
//! endpoints, ray/segment intersection, perspective-corrected distance,
//! projected strip heights, and distance-based shading.
//!
//! Distances are exact rationals ([`Frac`]): the intersection solves the
//! 2D line equations over integers and keeps numerator and denominator
//! apart, so the cutoff test, the projection and the shading divide only
//! once, at the final integer result.

use vstd::prelude::*;

use crate::geometry::{lemma_mul_bound, Rgb, Vec2Fx, COORD_MAX, FP_ONE};

verus! {

/// Projection constant: world-unit wall height at distance one spans this
/// many pixel rows.
pub const SCALE: i64 = 100;

/// Render-distance cutoff in world units: hits farther than this are
/// discarded.
pub const RENDER_DISTANCE: i64 = 2;

/// Depth numerator: the depth byte is `DEPTH_SCALE / distance`, saturated
/// at 255.
pub const DEPTH_SCALE: i64 = 1000;

/// Bound on the numerator and denominator of a raw intersection distance
/// (`2^43`): two coordinate differences multiplied and added.
pub const ISECT_MAX: i64 = 8796093022208;

/// Bound on the numerator and denominator of every distance fraction the
/// pipeline produces (`2^53`): a raw intersection distance scaled by
/// [`FP_ONE`] at most once.
pub const FRAC_MAX: i64 = 9007199254740992;

/// Cap on a projected strip height in pixels, applied before screen-space
/// clamping so the arithmetic stays in `i64`.
pub const PERCEIVED_MAX: i64 = 1000000000;

/// A non-negative rational distance `num / den`, `den > 0`.
#[derive(Clone, Copy, PartialEq, Eq, Structural, Debug)]
pub struct Frac {
    pub num: i64,
    pub den: i64,
}

impl Frac {
    /// Non-negative value, positive denominator, both within `m`.
    pub open spec fn bounded_by(self, m: int) -> bool {
        0 <= self.num <= m && 0 < self.den <= m
    }

    /// Non-negative value, positive denominator, both within [`FRAC_MAX`].
    pub open spec fn wf(self) -> bool {
        self.bounded_by(FRAC_MAX as int)
    }
}

/// One screen column's ray in view space: its direction and the cosine of
/// its angle against the forward axis (fixed-point), used to undo the
/// fisheye distortion.
#[derive(Clone, Copy, PartialEq, Eq, Structural, Debug)]
pub struct ColumnRay {
    pub dir: Vec2Fx,
    pub cos_fx: i64,
}

impl ColumnRay {
    pub open spec fn wf(self) -> bool {
        self.dir.bounded() && 0 <= self.cos_fx <= FP_ONE
    }
}

/// Truncating (toward zero) division of `n` by [`FP_ONE`].
pub open spec fn div_fp(n: int) -> int {
    if n >= 0 {
        n / (FP_ONE as int)
    } else {
        -((-n) / (FP_ONE as int))
    }
}

/// The denominator of the ray/segment solution: the dot product of the
/// segment vector with the perpendicular of the ray direction.  Zero
/// exactly when the segment is parallel to the ray.
pub open spec fn isect_denom(dir: Vec2Fx, start: Vec2Fx, end: Vec2Fx) -> int {
    (end.y - start.y) * dir.x - (end.x - start.x) * dir.y
}

/// Numerator of the ray parameter `t1` (distance along the ray).
pub open spec fn isect_t1_num(origin: Vec2Fx, start: Vec2Fx, end: Vec2Fx) -> int {
    (end.x - start.x) * (origin.y - start.y) - (end.y - start.y) * (origin.x - start.x)
}

/// Numerator of the segment parameter `t2` (fraction along the segment).
pub open spec fn isect_t2_num(origin: Vec2Fx, dir: Vec2Fx, start: Vec2Fx) -> int {
    (origin.y - start.y) * dir.x - (origin.x - start.x) * dir.y
}

/// A hit is valid when the pair is not parallel, `t1 >= 0`, and
/// `0 <= t2 <= 1` — stated over the integer numerators with the
/// denominator's sign taken into account.
pub open spec fn hit_valid(origin: Vec2Fx, dir: Vec2Fx, start: Vec2Fx, end: Vec2Fx) -> bool {
    let d = isect_denom(dir, start, end);
    let t1n = isect_t1_num(origin, start, end);
    let t2n = isect_t2_num(origin, dir, start);
    &&& d != 0
    &&& if d > 0 {
        t1n >= 0 && 0 <= t2n <= d
    } else {
        t1n <= 0 && d <= t2n <= 0
    }
}

/// The distance of a valid hit, as a normalized fraction with a positive
/// denominator.
pub open spec fn hit_distance(origin: Vec2Fx, dir: Vec2Fx, start: Vec2Fx, end: Vec2Fx) -> Frac {
    let d = isect_denom(dir, start, end);
    let t1n = isect_t1_num(origin, start, end);
    if d > 0 {
        Frac { num: t1n as i64, den: d as i64 }
    } else {
        Frac { num: (-t1n) as i64, den: (-d) as i64 }
    }
}

/// The sign conditions of [`hit_valid`] say exactly that the rational
/// solutions satisfy `t1 >= 0` and `0 <= t2 <= 1`: multiplied through by
/// the (squared) denominator they read `t1n*d >= 0`, `t2n*d >= 0` and
/// `t2n*d <= d*d`.
pub proof fn lemma_hit_valid_meaning(origin: Vec2Fx, dir: Vec2Fx, start: Vec2Fx, end: Vec2Fx)
    ensures
        hit_valid(origin, dir, start, end) <==> {
            let d = isect_denom(dir, start, end);
            let t1n = isect_t1_num(origin, start, end);
            let t2n = isect_t2_num(origin, dir, start);
            d != 0 && t1n * d >= 0 && t2n * d >= 0 && t2n * d <= d * d
        },
{
    let d = isect_denom(dir, start, end);
    let t1n = isect_t1_num(origin, start, end);
    let t2n = isect_t2_num(origin, dir, start);
    if d != 0 {
        assert((if d > 0 {
            t1n >= 0 && 0 <= t2n <= d
        } else {
            t1n <= 0 && d <= t2n <= 0
        }) <==> (t1n * d >= 0 && t2n * d >= 0 && t2n * d <= d * d)) by (nonlinear_arith)
            requires
                d != 0;
    }
}

/// Solve the ray/segment intersection: the ray leaves `origin` along
/// `direction`; the segment runs from `start` to `end`.  Returns the
/// distance along the ray as an exact fraction for a valid hit
/// (`t1 >= 0`, `0 <= t2 <= 1`), and nothing for a parallel pair or a
/// miss.  The near-parallel epsilon test of the floating-point
/// formulation degenerates to an exact zero test on the integer
/// denominator.
pub fn intersection_distance(origin: Vec2Fx, direction: Vec2Fx, start: Vec2Fx, end: Vec2Fx) -> (r:
    Option<Frac>)
    requires
        origin.bounded(),
        direction.bounded(),
        start.bounded(),
        end.bounded(),
    ensures
        r is Some <==> hit_valid(origin, direction, start, end),
        r matches Some(f) ==> f == hit_distance(origin, direction, start, end) && f.bounded_by(
            ISECT_MAX as int,
        ),
{
    let sx: i128 = end.x as i128 - start.x as i128;
    let sy: i128 = end.y as i128 - start.y as i128;
    let ox: i128 = origin.x as i128 - start.x as i128;
    let oy: i128 = origin.y as i128 - start.y as i128;
    proof {
        lemma_mul_bound(sx as int, direction.y as int, 2 * COORD_MAX, COORD_MAX as int);
        lemma_mul_bound(sy as int, direction.x as int, 2 * COORD_MAX, COORD_MAX as int);
        lemma_mul_bound(sx as int, oy as int, 2 * COORD_MAX, 2 * COORD_MAX);
        lemma_mul_bound(sy as int, ox as int, 2 * COORD_MAX, 2 * COORD_MAX);
        lemma_mul_bound(ox as int, direction.y as int, 2 * COORD_MAX, COORD_MAX as int);
        lemma_mul_bound(oy as int, direction.x as int, 2 * COORD_MAX, COORD_MAX as int);
    }
    let d: i128 = sy * (direction.x as i128) - sx * (direction.y as i128);
    let t1n: i128 = sx * oy - sy * ox;
    let t2n: i128 = oy * (direction.x as i128) - ox * (direction.y as i128);

    if d == 0 {
        return None;
    }
    if d > 0 {
        if t1n >= 0 && 0 <= t2n && t2n <= d {
            Some(Frac { num: t1n as i64, den: d as i64 })
        } else {
            None
        }
    } else {
        if t1n <= 0 && d <= t2n && t2n <= 0 {
            Some(Frac { num: (-t1n) as i64, den: (-d) as i64 })
        } else {
            None
        }
    }
}

/// Scale a raw ray distance by the column's angle cosine, removing the
/// fisheye distortion: the result is the straight-ahead distance.
pub fn corrected_distance(t: Frac, cos_fx: i64) -> (r: Frac)
    requires
        t.bounded_by(ISECT_MAX as int),
        0 <= cos_fx <= FP_ONE,
    ensures
        r.num == t.num * cos_fx,
        r.den == t.den * FP_ONE,
        r.wf(),
{
    proof {
        assert(0 <= t.num * cos_fx <= FRAC_MAX) by (nonlinear_arith)
            requires
                0 <= t.num <= ISECT_MAX,
                0 <= cos_fx <= FP_ONE,
                ISECT_MAX == 8796093022208,
                FRAC_MAX == 9007199254740992,
                FP_ONE == 1024;
        assert(0 < t.den * FP_ONE <= FRAC_MAX) by (nonlinear_arith)
            requires
                0 < t.den <= ISECT_MAX,
                ISECT_MAX == 8796093022208,
                FRAC_MAX == 9007199254740992,
                FP_ONE == 1024;
    }
    Frac { num: t.num * cos_fx, den: t.den * FP_ONE }
}

/// Numerator of the projected pixel size of a world-unit extent `size_fx`
/// seen at distance `dist_num / dist_den`.
pub open spec fn perceived_num(size_fx: int, dist_den: int) -> int {
    size_fx * SCALE * dist_den
}

/// Denominator of the projected pixel size.
pub open spec fn perceived_den(dist_num: int) -> int {
    dist_num * FP_ONE
}

/// The projected pixel size, rounded down and capped at
/// [`PERCEIVED_MAX`].
pub open spec fn perceived_size_spec(size_fx: int, dist: Frac) -> int {
    let q = perceived_num(size_fx, dist.den as int) / perceived_den(dist.num as int);
    if q > PERCEIVED_MAX {
        PERCEIVED_MAX as int
    } else {
        q
    }
}

/// Projected size is exactly inversely proportional to distance: at twice
/// the distance (`2 * dist_num` over the same `dist_den`) the projected
/// size, as an exact rational, is exactly half — cross-multiplied,
/// `p(size, d) * den(2d) == 2 * p(size, d) * den(d)`.
pub proof fn lemma_perspective_inverse(size_fx: int, dist_num: int, dist_den: int)
    by (nonlinear_arith)
    requires
        dist_num > 0,
        dist_den > 0,
    ensures
        perceived_num(size_fx, dist_den) * perceived_den(2 * dist_num) == 2 * perceived_num(
            size_fx,
            dist_den,
        ) * perceived_den(dist_num),
{
}

/// Project a world-space extent (a wall height or floor offset, fixed
/// point, non-negative) to the pixel rows it spans at the given corrected
/// distance.
pub fn perceived_size(size_fx: i64, dist: Frac) -> (r: i64)
    requires
        0 <= size_fx <= COORD_MAX,
        dist.wf(),
        dist.num >= 1,
    ensures
        r == perceived_size_spec(size_fx as int, dist),
        0 <= r <= PERCEIVED_MAX,
{
    proof {
        lemma_mul_bound(
            size_fx * SCALE,
            dist.den as int,
            COORD_MAX * SCALE,
            FRAC_MAX as int,
        );
        vstd::arithmetic::div_mod::lemma_div_is_ordered(
            0,
            perceived_num(size_fx as int, dist.den as int),
            perceived_den(dist.num as int),
        );
    }
    let n: u128 = (size_fx as u128) * (SCALE as u128) * (dist.den as u128);
    let d: u128 = (dist.num as u128) * (FP_ONE as u128);
    let q: u128 = n / d;
    if q > PERCEIVED_MAX as u128 {
        PERCEIVED_MAX
    } else {
        q as i64
    }
}

/// A colour channel faded linearly with distance:
/// `c * max(0, 1 - dist / RENDER_DISTANCE)`, rounded down.
pub open spec fn shade_channel_spec(c: u8, dist: Frac) -> int {
    let f = RENDER_DISTANCE * dist.den - dist.num;
    if f <= 0 {
        0
    } else {
        c * f / (RENDER_DISTANCE * dist.den)
    }
}

/// Fade one colour channel with distance: full strength at distance zero,
/// black at the render-distance cutoff and beyond.
pub fn shade_channel(c: u8, dist: Frac) -> (r: u8)
    requires
        dist.wf(),
    ensures
        r == shade_channel_spec(c, dist),
{
    let rd: i128 = 2i128 * (dist.den as i128);
    proof {
        assert(rd == RENDER_DISTANCE * dist.den);
    }
    let f: i128 = rd - (dist.num as i128);
    if f <= 0 {
        0u8
    } else {
        proof {
            assert(0 <= c * f && c * f <= 255 * rd) by (nonlinear_arith)
                requires
                    0 <= c <= 255,
                    0 < f <= rd;
            assert(rd <= 2 * FRAC_MAX);
            assert(c * f <= 510 * FRAC_MAX);
            vstd::arithmetic::div_mod::lemma_div_is_ordered(c * f, 255 * rd, rd as int);
            vstd::arithmetic::div_mod::lemma_div_by_multiple(255, rd as int);
            vstd::arithmetic::div_mod::lemma_div_pos_is_pos(c * f, rd as int);
        }
        (((c as u128) * (f as u128)) / (rd as u128)) as u8
    }
}

/// The depth byte for the compositor: `255 * DEPTH_SCALE / dist`, rounded
/// down and saturated at 255.  Nearer hits get strictly larger values
/// once past the saturation range.
pub open spec fn depth_value_spec(dist: Frac) -> int {
    let q = 255 * DEPTH_SCALE * dist.den / (dist.num as int);
    if q > 255 {
        255
    } else {
        q
    }
}

pub fn depth_value(dist: Frac) -> (r: u8)
    requires
        dist.wf(),
        dist.num >= 1,
    ensures
        r == depth_value_spec(dist),
{
    proof {
        lemma_mul_bound(255 * DEPTH_SCALE, dist.den as int, 255000, FRAC_MAX as int);
        vstd::arithmetic::div_mod::lemma_div_pos_is_pos(
            255 * DEPTH_SCALE * dist.den,
            dist.num as int,
        );
    }
    let n: u128 = 255u128 * (DEPTH_SCALE as u128) * (dist.den as u128);
    let q: u128 = n / (dist.num as u128);
    if q > 255 {
        255u8
    } else {
        q as u8
    }
}

/// Truncating division by [`FP_ONE`] of a doubly wide intermediate.
fn div_fp_exec(n: i128) -> (r: i128)
    requires
        -0x40000000000000000000000000000000 < n < 0x40000000000000000000000000000000,
    ensures
        r == div_fp(n as int),
{
    if n >= 0 {
        (((n as u128) / (FP_ONE as u128)) as i128)
    } else {
        -((((-n) as u128) / (FP_ONE as u128)) as i128)
    }
}

/// The point `p` carried into view space: translated by `-pos`, then
/// rotated by the view angle whose cosine and sine are given in fixed
/// point.  Each component is `(dx * cos - dy * sin) / FP_ONE` resp.
/// `(dx * sin + dy * cos) / FP_ONE`, truncated toward zero.
pub open spec fn view_point_spec(p: Vec2Fx, pos: Vec2Fx, view_cos: int, view_sin: int) -> Vec2Fx {
    let dx = p.x - pos.x;
    let dy = p.y - pos.y;
    Vec2Fx {
        x: div_fp(dx * view_cos - dy * view_sin) as i64,
        y: div_fp(dx * view_sin + dy * view_cos) as i64,
    }
}

/// Transform a world point into view space with a fixed-point rotation.
pub fn view_point(p: Vec2Fx, pos: Vec2Fx, view_cos: i64, view_sin: i64) -> (r: Vec2Fx)
    requires
        p.tight(),
        pos.tight(),
        -FP_ONE <= view_cos <= FP_ONE,
        -FP_ONE <= view_sin <= FP_ONE,
    ensures
        r == view_point_spec(p, pos, view_cos as int, view_sin as int),
        r.bounded(),
{
    let dx: i128 = p.x as i128 - pos.x as i128;
    let dy: i128 = p.y as i128 - pos.y as i128;
    proof {
        lemma_mul_bound(dx as int, view_cos as int, COORD_MAX / 2, FP_ONE as int);
        lemma_mul_bound(dy as int, view_sin as int, COORD_MAX / 2, FP_ONE as int);
        lemma_mul_bound(dx as int, view_sin as int, COORD_MAX / 2, FP_ONE as int);
        lemma_mul_bound(dy as int, view_cos as int, COORD_MAX / 2, FP_ONE as int);
    }
    let xn: i128 = dx * (view_cos as i128) - dy * (view_sin as i128);
    let yn: i128 = dx * (view_sin as i128) + dy * (view_cos as i128);
    let x = div_fp_exec(xn);
    let y = div_fp_exec(yn);
    Vec2Fx { x: x as i64, y: y as i64 }
}

} // verus!
