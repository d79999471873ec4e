//! Exact integer geometry over milli-pixel coordinates.
//!
//! Points live on a grid of thousandths of a pixel. Distances are
//! irrational in general, so comparisons against a radius are carried out
//! exactly on squared quantities, and the scalar distance functions return
//! the floor of the true Euclidean distance, pinned down by a two-sided
//! bound in their contracts.

use vstd::prelude::*;
use vstd::arithmetic::div_mod::lemma_fundamental_div_mod;
use vstd::arithmetic::div_mod::lemma_fundamental_div_mod_converse;
use vstd::arithmetic::div_mod::lemma_div_is_ordered;
use vstd::arithmetic::div_mod::lemma_div_multiples_vanish;

verus! {

/// Largest coordinate magnitude (in milli-pixels) the geometry accepts.
pub const COORD_LIMIT: i64 = 100_000_000;

/// Largest coordinate magnitude for canvas objects, chosen so that every
/// derived quantity (bounding boxes with margins, anchor positions) stays
/// within `COORD_LIMIT`.
pub const OBJ_LIMIT: i64 = 40_000_000;

/// A point (or vector) on the milli-pixel grid.
#[derive(Clone, Copy, PartialEq, Eq, Structural, Debug)]
pub struct Point {
    pub x: i64,
    pub y: i64,
}

/// An axis-aligned rectangle, `min` at the top-left, `max` at the
/// bottom-right.
#[derive(Clone, Copy, PartialEq, Eq, Structural, Debug)]
pub struct Rect {
    pub min: Point,
    pub max: Point,
}

pub open spec fn coord_ok(c: int) -> bool {
    -(COORD_LIMIT as int) <= c <= COORD_LIMIT as int
}

pub open spec fn point_ok(p: Point) -> bool {
    coord_ok(p.x as int) && coord_ok(p.y as int)
}

pub open spec fn rect_ok(r: Rect) -> bool {
    point_ok(r.min) && point_ok(r.max)
}

pub open spec fn sq(x: int) -> int {
    x * x
}

/// Squared Euclidean distance between two points.
pub open spec fn dist_sq_spec(p: Point, q: Point) -> int {
    sq(p.x - q.x) + sq(p.y - q.y)
}

/// The integer square root: the unique `r >= 0` with
/// `r * r <= n < (r + 1) * (r + 1)`.
pub open spec fn sqrt_floor(n: int) -> int {
    choose|r: int| 0 <= r && #[trigger] sq(r) <= n && n < sq(r + 1)
}

/// The floor of the Euclidean distance between two points.
pub open spec fn dist_spec(p: Point, q: Point) -> int {
    sqrt_floor(dist_sq_spec(p, q))
}

proof fn lemma_sqrt_floor_is(n: int, r: int)
    requires
        0 <= r,
        sq(r) <= n,
        n < sq(r + 1),
    ensures
        sqrt_floor(n) == r,
{
    let w = choose|w: int| 0 <= w && #[trigger] sq(w) <= n && n < sq(w + 1);
    assert(0 <= w && sq(w) <= n < sq(w + 1));
    assert(w == r) by (nonlinear_arith)
        requires
            0 <= w,
            0 <= r,
            sq(w) <= n,
            n < sq(w + 1),
            sq(r) <= n,
            n < sq(r + 1),
    ;
}

/// Every nonnegative integer has an integer square root, so `sqrt_floor`
/// is pinned to the unique root.
pub proof fn lemma_sqrt_floor_bounds(n: int)
    requires
        n >= 0,
    ensures
        0 <= sqrt_floor(n),
        sq(sqrt_floor(n)) <= n,
        n < sq(sqrt_floor(n) + 1),
    decreases n,
{
    if n == 0 {
        assert(sq(0) <= 0 && 0 < sq(1));
    } else {
        lemma_sqrt_floor_bounds(n - 1);
        let r = sqrt_floor(n - 1);
        if n < sq(r + 1) {
            assert(sq(r) <= n && n < sq(r + 1));
        } else {
            assert(sq(r + 1) <= n);
            assert(n <= sq(r + 1)) by (nonlinear_arith)
                requires
                    n - 1 < sq(r + 1),
            ;
            assert(n < sq(r + 2)) by (nonlinear_arith)
                requires
                    n == sq(r + 1),
                    r >= 0,
            ;
            assert(0 <= r + 1 && sq(r + 1) <= n && n < sq(r + 1 + 1));
        }
    }
}

/// Binary search for the integer square root of a 128-bit value.
pub fn isqrt(n: u128) -> (r: u64)
    requires
        n < 0x4_0000_0000_0000_0000_0000_0000_0000,
    ensures
        0 <= r,
        sq(r as int) <= n as int,
        (n as int) < sq(r as int + 1),
        r as int == sqrt_floor(n as int),
{
    let mut lo: u64 = 0;
    let mut hi: u64 = 0x200_0000_0000_0000;
    assert(0x200_0000_0000_0000u128 * 0x200_0000_0000_0000u128
        == 0x4_0000_0000_0000_0000_0000_0000_0000u128) by (bit_vector);
    while lo + 1 < hi
        invariant
            lo < hi,
            hi <= 0x200_0000_0000_0000,
            (lo as u128) * (lo as u128) <= n,
            n < (hi as u128) * (hi as u128),
        decreases hi - lo,
    {
        let mid: u64 = lo + (hi - lo) / 2;
        assert((mid as u128) * (mid as u128) <= 0x4_0000_0000_0000_0000_0000_0000_0000)
            by (nonlinear_arith)
            requires
                mid <= 0x200_0000_0000_0000u64,
        ;
        if (mid as u128) * (mid as u128) <= n {
            lo = mid;
        } else {
            hi = mid;
        }
    }
    assert(sq(lo as int) <= n as int && (n as int) < sq(lo as int + 1));
    proof {
        lemma_sqrt_floor_is(n as int, lo as int);
    }
    lo
}

/// Floor of `d * j / m`: exact linear interpolation steps for signed
/// values, carried out in unsigned arithmetic.
pub fn mul_div_floor(d: i64, j: i64, m: i64) -> (r: i64)
    requires
        0 < m <= 2_000_000_000,
        0 <= j <= m,
        -400_000_000 <= d <= 400_000_000,
    ensures
        r as int == (d as int * j as int) / (m as int),
        d >= 0 ==> 0 <= r <= d,
        d < 0 ==> d <= r <= 0,
{
    if d >= 0 {
        proof {
            assert(d * j <= 800_000_000_000_000_000 && 0 <= d * j && d * j <= d * m)
                by (nonlinear_arith)
                requires
                    0 <= d <= 400_000_000,
                    0 <= j <= m,
                    m <= 2_000_000_000,
            ;
            lemma_div_is_ordered(d as int * j as int, d as int * m as int, m as int);
            lemma_div_multiples_vanish(d as int, m as int);
            assert(m as int * d as int == d as int * m as int) by (nonlinear_arith);
            assert((d as int * j as int) / (m as int) <= d as int);
            lemma_fundamental_div_mod(d as int * j as int, m as int);
            assert((d as int * j as int) / (m as int) >= 0) by (nonlinear_arith)
                requires
                    d as int * j as int == m as int * ((d as int * j as int) / (m as int))
                        + (d as int * j as int) % (m as int),
                    0 <= (d as int * j as int) % (m as int) < m as int,
                    0 <= d as int * j as int,
                    0 < m,
            ;
        }
        let num: u64 = (d as u64) * (j as u64);
        let q: u64 = num / (m as u64);
        q as i64
    } else {
        let nd: i64 = -d;
        proof {
            assert(nd * j <= 800_000_000_000_000_000 && 0 <= nd * j && nd * j <= nd * m)
                by (nonlinear_arith)
                requires
                    0 <= nd <= 400_000_000,
                    0 <= j <= m,
                    m <= 2_000_000_000,
            ;
        }
        let num: u64 = (nd as u64) * (j as u64);
        let q: u64 = (num + (m as u64) - 1) / (m as u64);
        proof {
            let k = num as int;
            let mi = m as int;
            let qq = (k + mi - 1) / mi;
            let rr = (k + mi - 1) % mi;
            lemma_fundamental_div_mod(k + mi - 1, mi);
            assert(k + mi - 1 == mi * qq + rr);
            assert(-k == mi * (-qq) + (mi - 1 - rr)) by (nonlinear_arith)
                requires
                    k + mi - 1 == mi * qq + rr,
            ;
            lemma_fundamental_div_mod_converse(-k, mi, -qq, mi - 1 - rr);
            assert((-k) / mi == -qq);
            assert(d as int * j as int == -k) by (nonlinear_arith)
                requires
                    k == nd as int * j as int,
                    nd == -d,
            ;
            // the quotient is at most nd, so the result is at least d
            assert(k + mi - 1 <= nd as int * mi + mi - 1) by (nonlinear_arith)
                requires
                    k <= nd as int * mi,
            ;
            lemma_div_is_ordered(k + mi - 1, nd as int * mi + mi - 1, mi);
            lemma_fundamental_div_mod_converse(
                nd as int * mi + mi - 1,
                mi,
                nd as int,
                mi - 1,
            );
            assert(qq <= nd as int);
            assert(qq >= 0) by (nonlinear_arith)
                requires
                    mi * qq + rr == k + mi - 1,
                    0 <= rr < mi,
                    0 <= k,
                    0 < mi,
            ;
            assert(q == qq);
        }
        -(q as i64)
    }
}

/// Squared distance between two in-range points, exactly.
pub fn dist_sq(p: Point, q: Point) -> (d: i64)
    requires
        point_ok(p),
        point_ok(q),
    ensures
        d as int == dist_sq_spec(p, q),
        0 <= d <= 80_000_000_000_000_000,
{
    let dx: i64 = p.x - q.x;
    let dy: i64 = p.y - q.y;
    assert(dx * dx + dy * dy <= 80_000_000_000_000_000 && dx * dx >= 0 && dy * dy >= 0)
        by (nonlinear_arith)
        requires
            -200_000_000 <= dx <= 200_000_000,
            -200_000_000 <= dy <= 200_000_000,
    ;
    dx * dx + dy * dy
}

/// Floor of the Euclidean distance between two in-range points.
pub fn dist(p: Point, q: Point) -> (d: i64)
    requires
        point_ok(p),
        point_ok(q),
    ensures
        d as int == dist_spec(p, q),
        sq(d as int) <= dist_sq_spec(p, q),
        dist_sq_spec(p, q) < sq(d as int + 1),
        0 <= d <= 300_000_000,
{
    let d2: i64 = dist_sq(p, q);
    let r: u64 = isqrt(d2 as u128);
    assert(r <= 300_000_000) by (nonlinear_arith)
        requires
            sq(r as int) <= 80_000_000_000_000_000,
            r >= 0,
    ;
    r as i64
}

/// Whether the distance between `p` and `q` is at most `rad`, exactly.
pub fn within_radius(p: Point, q: Point, rad: i64) -> (hit: bool)
    requires
        point_ok(p),
        point_ok(q),
        0 <= rad <= COORD_LIMIT,
    ensures
        hit == (dist_sq_spec(p, q) <= sq(rad as int)),
{
    let d2: i64 = dist_sq(p, q);
    assert((rad as int) * (rad as int) <= 10_000_000_000_000_000) by (nonlinear_arith)
        requires
            0 <= rad <= 100_000_000,
    ;
    let r2: i128 = (rad as i128) * (rad as i128);
    (d2 as i128) <= r2
}

// ---------------------------------------------------------------------------
// Point-to-segment distance.
//
// The squared distance from `p` to the segment `(a, b)` is the rational
// `seg_dist_num / seg_dist_den`: an endpoint distance when the projection of
// `p` falls outside the segment (or the segment is degenerate), and
// `cross^2 / |b - a|^2` when it falls inside. A segment whose squared
// length is below a ten-thousandth of a pixel degrades to the
// point-to-point distance from its first endpoint, the guard the original
// rule uses against division instability.
// ---------------------------------------------------------------------------

/// Squared-length threshold (in squared milli-pixels) below which a
/// segment counts as degenerate: 1e-4 square pixels.
pub const DEGENERATE_SEG_SQ: i64 = 100;

/// Dot product of `p - a` with `b - a`.
pub open spec fn seg_dot(p: Point, a: Point, b: Point) -> int {
    (p.x - a.x) * (b.x - a.x) + (p.y - a.y) * (b.y - a.y)
}

/// Cross product of `p - a` with `b - a`.
pub open spec fn seg_cross(p: Point, a: Point, b: Point) -> int {
    (p.x - a.x) * (b.y - a.y) - (p.y - a.y) * (b.x - a.x)
}

/// Numerator of the squared distance from `p` to the segment `(a, b)`.
pub open spec fn seg_dist_num(p: Point, a: Point, b: Point) -> int {
    let d = dist_sq_spec(a, b);
    if d < DEGENERATE_SEG_SQ as int {
        dist_sq_spec(p, a)
    } else if seg_dot(p, a, b) <= 0 {
        dist_sq_spec(p, a)
    } else if seg_dot(p, a, b) >= d {
        dist_sq_spec(p, b)
    } else {
        sq(seg_cross(p, a, b))
    }
}

/// Denominator of the squared distance from `p` to the segment `(a, b)`.
pub open spec fn seg_dist_den(p: Point, a: Point, b: Point) -> int {
    let d = dist_sq_spec(a, b);
    if d < DEGENERATE_SEG_SQ as int || seg_dot(p, a, b) <= 0 || seg_dot(p, a, b) >= d {
        1
    } else {
        d
    }
}

/// The real distance from `p` to the segment `(a, b)` is at most `t / 2`.
pub open spec fn seg_within_half_spec(p: Point, a: Point, b: Point, t: int) -> bool {
    4 * seg_dist_num(p, a, b) <= sq(t) * seg_dist_den(p, a, b)
}

proof fn lemma_seg_parts_bounded(p: Point, a: Point, b: Point)
    requires
        point_ok(p),
        point_ok(a),
        point_ok(b),
    ensures
        -80_000_000_000_000_000 <= seg_dot(p, a, b) <= 80_000_000_000_000_000,
        -80_000_000_000_000_000 <= seg_cross(p, a, b) <= 80_000_000_000_000_000,
        0 <= seg_dist_num(p, a, b),
        1 <= seg_dist_den(p, a, b),
{
    let ux = p.x - a.x;
    let uy = p.y - a.y;
    let vx = b.x - a.x;
    let vy = b.y - a.y;
    assert(-80_000_000_000_000_000 <= ux * vx + uy * vy <= 80_000_000_000_000_000
        && -80_000_000_000_000_000 <= ux * vy - uy * vx <= 80_000_000_000_000_000
        && sq(ux * vy - uy * vx) >= 0
        && sq(ux) + sq(uy) >= 0
        && sq(p.x - b.x) + sq(p.y - b.y) >= 0
        && sq(vx) + sq(vy) >= 0) by (nonlinear_arith)
        requires
            -200_000_000 <= ux <= 200_000_000,
            -200_000_000 <= uy <= 200_000_000,
            -200_000_000 <= vx <= 200_000_000,
            -200_000_000 <= vy <= 200_000_000,
    ;
}

/// Whether the real distance from `p` to the segment `(a, b)` is at most
/// `t / 2`, decided exactly on squared quantities.
pub fn segment_within_half(p: Point, a: Point, b: Point, t: i64) -> (hit: bool)
    requires
        point_ok(p),
        point_ok(a),
        point_ok(b),
        0 <= t <= 200_000_000,
    ensures
        hit == seg_within_half_spec(p, a, b, t as int),
{
    proof {
        lemma_seg_parts_bounded(p, a, b);
        assert((t as int) * (t as int) <= 40_000_000_000_000_000 && 0 <= (t as int) * (t as int))
            by (nonlinear_arith)
            requires
                0 <= t <= 200_000_000,
        ;
    }
    let dd: i64 = dist_sq(a, b);
    let t2: i128 = (t as i128) * (t as i128);
    if dd < DEGENERATE_SEG_SQ {
        let pa: i64 = dist_sq(p, a);
        4 * (pa as i128) <= t2
    } else {
        let ux: i64 = p.x - a.x;
        let uy: i64 = p.y - a.y;
        let vx: i64 = b.x - a.x;
        let vy: i64 = b.y - a.y;
        proof {
            assert(-80_000_000_000_000_000 <= ux * vx + uy * vy <= 80_000_000_000_000_000
                && -80_000_000_000_000_000 <= ux * vy - uy * vx <= 80_000_000_000_000_000
                && -80_000_000_000_000_000 <= ux * vx <= 80_000_000_000_000_000
                && -80_000_000_000_000_000 <= uy * vy <= 80_000_000_000_000_000
                && -80_000_000_000_000_000 <= ux * vy <= 80_000_000_000_000_000
                && -80_000_000_000_000_000 <= uy * vx <= 80_000_000_000_000_000)
                by (nonlinear_arith)
                requires
                    -200_000_000 <= ux <= 200_000_000,
                    -200_000_000 <= uy <= 200_000_000,
                    -200_000_000 <= vx <= 200_000_000,
                    -200_000_000 <= vy <= 200_000_000,
            ;
        }
        let dot: i64 = ux * vx + uy * vy;
        assert(dot == seg_dot(p, a, b));
        if dot <= 0 {
            let pa: i64 = dist_sq(p, a);
            4 * (pa as i128) <= t2
        } else if dot >= dd {
            let pb: i64 = dist_sq(p, b);
            4 * (pb as i128) <= t2
        } else {
            let cross: i64 = ux * vy - uy * vx;
            assert(cross == seg_cross(p, a, b));
            proof {
                assert((cross as int) * (cross as int)
                    <= 6_400_000_000_000_000_000_000_000_000_000_000
                    && 0 <= (cross as int) * (cross as int)) by (nonlinear_arith)
                    requires
                        -80_000_000_000_000_000 <= cross <= 80_000_000_000_000_000,
                ;
            }
            let c2: i128 = (cross as i128) * (cross as i128);
            proof {
                assert(t2 * (dd as int) <= 3_200_000_000_000_000_000_000_000_000_000_000
                    && 0 <= t2 * (dd as int)) by (nonlinear_arith)
                    requires
                        0 <= t2 <= 40_000_000_000_000_000,
                        0 <= dd <= 80_000_000_000_000_000,
                ;
            }
            let rhs: i128 = t2 * (dd as i128);
            4 * c2 <= rhs
        }
    }
}

/// The squared distance from `p` to the sample point `a + (t/d)(b - a)`
/// on the segment, everything scaled by `d*d` to stay integral.
pub open spec fn sample_dist_sq_scaled(p: Point, a: Point, b: Point, t: int, d: int) -> int {
    sq(d * (p.x - a.x) - t * (b.x - a.x)) + sq(d * (p.y - a.y) - t * (b.y - a.y))
}

/// Ring identity: expanding one squared component of `|d*u - t*v|^2`.
proof fn lemma_sq_expand_component(d: int, u: int, t: int, v: int)
    ensures
        (d * u - t * v) * (d * u - t * v)
            == d * d * (u * u) - 2 * (d * t * (u * v)) + t * t * (v * v),
{
    let a = d * u;
    let b = t * v;
    assert((a - b) * (a - b) == a * a - 2 * (a * b) + b * b) by (nonlinear_arith);
    assert(a * a == d * d * (u * u)) by (nonlinear_arith)
        requires
            a == d * u,
    ;
    assert(a * b == d * t * (u * v)) by (nonlinear_arith)
        requires
            a == d * u,
            b == t * v,
    ;
    assert(b * b == t * t * (v * v)) by (nonlinear_arith)
        requires
            b == t * v,
    ;
}

/// Ring identity: expanding `|d*u - t*v|^2` over both components.
proof fn lemma_expand_quadratic(ux: int, uy: int, vx: int, vy: int, t: int, d: int)
    ensures
        sq(d * ux - t * vx) + sq(d * uy - t * vy)
            == d * d * (ux * ux + uy * uy) - 2 * (d * t * (ux * vx + uy * vy))
                + t * t * (vx * vx + vy * vy),
{
    lemma_sq_expand_component(d, ux, t, vx);
    lemma_sq_expand_component(d, uy, t, vy);
    assert(d * d * (ux * ux + uy * uy) == d * d * (ux * ux) + d * d * (uy * uy))
        by (nonlinear_arith);
    assert(d * t * (ux * vx + uy * vy) == d * t * (ux * vx) + d * t * (uy * vy))
        by (nonlinear_arith);
    assert(t * t * (vx * vx + vy * vy) == t * t * (vx * vx) + t * t * (vy * vy))
        by (nonlinear_arith);
}

/// Lagrange identity for two dimensions.
pub(crate) proof fn lemma_lagrange(ux: int, uy: int, vx: int, vy: int)
    ensures
        (ux * ux + uy * uy) * (vx * vx + vy * vy)
            == (ux * vx + uy * vy) * (ux * vx + uy * vy)
                + (ux * vy - uy * vx) * (ux * vy - uy * vx),
{
    let p1 = ux * vx;
    let p2 = uy * vy;
    let q1 = ux * vy;
    let q2 = uy * vx;
    assert((p1 + p2) * (p1 + p2) == p1 * p1 + 2 * (p1 * p2) + p2 * p2) by (nonlinear_arith);
    assert((q1 - q2) * (q1 - q2) == q1 * q1 - 2 * (q1 * q2) + q2 * q2) by (nonlinear_arith);
    assert(p1 * p2 == q1 * q2) by (nonlinear_arith)
        requires
            p1 == ux * vx,
            p2 == uy * vy,
            q1 == ux * vy,
            q2 == uy * vx,
    ;
    assert(p1 * p1 == (ux * ux) * (vx * vx)) by (nonlinear_arith)
        requires
            p1 == ux * vx,
    ;
    assert(p2 * p2 == (uy * uy) * (vy * vy)) by (nonlinear_arith)
        requires
            p2 == uy * vy,
    ;
    assert(q1 * q1 == (ux * ux) * (vy * vy)) by (nonlinear_arith)
        requires
            q1 == ux * vy,
    ;
    assert(q2 * q2 == (uy * uy) * (vx * vx)) by (nonlinear_arith)
        requires
            q2 == uy * vx,
    ;
    assert((ux * ux + uy * uy) * (vx * vx + vy * vy)
        == (ux * ux) * (vx * vx) + (ux * ux) * (vy * vy) + (uy * uy) * (vx * vx)
            + (uy * uy) * (vy * vy)) by (nonlinear_arith);
}

/// When the projection falls on or before the near endpoint, the sample is
/// no closer than that endpoint.
proof fn lemma_endpoint_case(m: int, dot: int, dd: int, t: int, d: int)
    requires
        0 <= t,
        0 <= d,
        dot <= 0,
        dd >= 0,
    ensures
        m * (d * d) <= d * d * m - 2 * (d * t * dot) + t * t * dd,
{
    assert(m * (d * d) <= d * d * m - 2 * (d * t * dot) + t * t * dd) by (nonlinear_arith)
        requires
            0 <= t,
            0 <= d,
            dot <= 0,
            dd >= 0,
    ;
}

/// Combining the expansion with the Lagrange identity in the interior case.
proof fn lemma_interior_case(xv: int, m: int, dot: int, dd: int, cross: int, t: int, d: int)
    requires
        xv == d * d * m - 2 * (d * t * dot) + t * t * dd,
        m * dd == dot * dot + cross * cross,
    ensures
        cross * cross * (d * d) <= xv * dd,
{
    let e1 = d * d * m;
    let e2 = 2 * (d * t * dot);
    let e3 = t * t * dd;
    let s = d * dot - t * dd;
    assert((e1 - e2 + e3) * dd == e1 * dd - e2 * dd + e3 * dd) by (nonlinear_arith);
    assert(xv * dd == e1 * dd - e2 * dd + e3 * dd);
    assert(e1 * dd == (d * d) * (m * dd)) by (nonlinear_arith)
        requires
            e1 == d * d * m,
    ;
    assert((d * d) * (dot * dot + cross * cross) == (d * d) * (dot * dot)
        + (d * d) * (cross * cross)) by (nonlinear_arith);
    assert(e2 * dd == 2 * ((d * dot) * (t * dd))) by (nonlinear_arith)
        requires
            e2 == 2 * (d * t * dot),
    ;
    assert(e3 * dd == (t * dd) * (t * dd)) by (nonlinear_arith)
        requires
            e3 == t * t * dd,
    ;
    assert(s * s == (d * dot) * (d * dot) - 2 * ((d * dot) * (t * dd)) + (t * dd) * (t * dd))
        by (nonlinear_arith)
        requires
            s == d * dot - t * dd,
    ;
    assert((d * dot) * (d * dot) == (d * d) * (dot * dot)) by (nonlinear_arith);
    assert(xv * dd == (d * d) * (cross * cross) + s * s);
    assert(s * s >= 0) by (nonlinear_arith);
    assert(cross * cross * (d * d) == (d * d) * (cross * cross)) by (nonlinear_arith);
}

/// The point-to-segment distance is a true minimum: no sample point on the
/// segment is closer to `p` than the distance returned for the segment.
///
/// Samples are the rational points `a + (t/d)(b - a)` for `0 <= t <= d`;
/// both sides of the inequality are scaled by `d*d` (and by the distance
/// denominator) so the statement is purely integral. Segments inside the
/// degenerate band (squared length strictly between zero and the
/// threshold) are excluded: there the documented policy returns the
/// distance to the first endpoint, which can exceed the distance to a
/// sample by up to the segment's sub-hundredth-of-a-pixel length.
pub proof fn lemma_segment_distance_is_min(p: Point, a: Point, b: Point, t: int, d: int)
    requires
        0 <= t <= d,
        0 < d,
        dist_sq_spec(a, b) == 0 || dist_sq_spec(a, b) >= DEGENERATE_SEG_SQ as int,
    ensures
        seg_dist_num(p, a, b) * sq(d)
            <= sample_dist_sq_scaled(p, a, b, t, d) * seg_dist_den(p, a, b),
{
    let ux = (p.x - a.x) as int;
    let uy = (p.y - a.y) as int;
    let vx = (b.x - a.x) as int;
    let vy = (b.y - a.y) as int;
    let dd = dist_sq_spec(a, b);
    let dot = seg_dot(p, a, b);
    let cross = seg_cross(p, a, b);
    let xv = sample_dist_sq_scaled(p, a, b, t, d);
    assert(dd == vx * vx + vy * vy) by (nonlinear_arith)
        requires
            dd == sq((a.x - b.x) as int) + sq((a.y - b.y) as int),
            vx == (b.x - a.x) as int,
            vy == (b.y - a.y) as int,
    ;
    assert(dd >= 0) by (nonlinear_arith)
        requires
            dd == vx * vx + vy * vy,
    ;
    lemma_expand_quadratic(ux, uy, vx, vy, t, d);
    assert(xv == d * d * (ux * ux + uy * uy) - 2 * (d * t * dot) + t * t * dd);
    if dd < DEGENERATE_SEG_SQ as int {
        assert(dd == 0);
        assert(vx == 0 && vy == 0) by (nonlinear_arith)
            requires
                vx * vx + vy * vy == 0,
        ;
        assert(dot == 0);
        lemma_endpoint_case(ux * ux + uy * uy, dot, dd, t, d);
        assert(seg_dist_num(p, a, b) * sq(d) == (ux * ux + uy * uy) * (d * d));
        assert(seg_dist_num(p, a, b) * sq(d) <= xv * 1);
    } else if dot <= 0 {
        lemma_endpoint_case(ux * ux + uy * uy, dot, dd, t, d);
        assert(seg_dist_num(p, a, b) * sq(d) == (ux * ux + uy * uy) * (d * d));
        assert(seg_dist_num(p, a, b) * sq(d) <= xv * 1);
    } else if dot >= dd {
        let wx = (p.x - b.x) as int;
        let wy = (p.y - b.y) as int;
        assert(wx == ux - vx && wy == uy - vy);
        lemma_expand_quadratic(wx, wy, vx, vy, t - d, d);
        assert(d * wx - (t - d) * vx == d * ux - t * vx && d * wy - (t - d) * vy
            == d * uy - t * vy) by (nonlinear_arith)
            requires
                wx == ux - vx,
                wy == uy - vy,
        ;
        assert(xv == d * d * (wx * wx + wy * wy) - 2 * (d * (t - d) * (wx * vx + wy * vy))
            + (t - d) * (t - d) * dd);
        assert(wx * vx + wy * vy == dot - dd) by (nonlinear_arith)
            requires
                wx == ux - vx,
                wy == uy - vy,
                dot == ux * vx + uy * vy,
                dd == vx * vx + vy * vy,
        ;
        assert(d * (t - d) * (dot - dd) == d * (d - t) * (dd - dot)) by (nonlinear_arith);
        assert((t - d) * (t - d) * dd == (d - t) * (d - t) * dd) by (nonlinear_arith);
        lemma_endpoint_case(wx * wx + wy * wy, dd - dot, dd, d - t, d);
        assert((wx * wx + wy * wy) * (d * d) <= xv);
        assert(seg_dist_num(p, a, b) * sq(d) == (wx * wx + wy * wy) * (d * d));
        assert(seg_dist_num(p, a, b) * sq(d) <= xv * 1);
    } else {
        lemma_lagrange(ux, uy, vx, vy);
        assert((ux * ux + uy * uy) * dd == dot * dot + cross * cross);
        lemma_interior_case(xv, ux * ux + uy * uy, dot, dd, cross, t, d);
        assert(seg_dist_num(p, a, b) * sq(d) == cross * cross * (d * d));
        assert(seg_dist_num(p, a, b) * sq(d) <= xv * dd);
    }
}

impl Point {
    /// Component-wise sum (point translated by a vector).
    pub fn add(self, other: Point) -> (r: Point)
        requires
            -(i64::MAX as int) <= self.x as int + other.x as int <= i64::MAX as int,
            -(i64::MAX as int) <= self.y as int + other.y as int <= i64::MAX as int,
        ensures
            r.x as int == self.x as int + other.x as int,
            r.y as int == self.y as int + other.y as int,
    {
        Point { x: self.x + other.x, y: self.y + other.y }
    }

    /// Component-wise difference (vector from `other` to `self`).
    pub fn sub(self, other: Point) -> (r: Point)
        requires
            -(i64::MAX as int) <= self.x as int - other.x as int <= i64::MAX as int,
            -(i64::MAX as int) <= self.y as int - other.y as int <= i64::MAX as int,
        ensures
            r.x as int == self.x as int - other.x as int,
            r.y as int == self.y as int - other.y as int,
    {
        Point { x: self.x - other.x, y: self.y - other.y }
    }
}

impl Rect {
    /// The rectangle with top-left corner `min` and the given extent.
    pub fn from_min_size(min: Point, size: Point) -> (r: Rect)
        requires
            -(i64::MAX as int) <= min.x as int + size.x as int <= i64::MAX as int,
            -(i64::MAX as int) <= min.y as int + size.y as int <= i64::MAX as int,
        ensures
            r.min == min,
            r.max.x as int == min.x as int + size.x as int,
            r.max.y as int == min.y as int + size.y as int,
    {
        Rect { min, max: Point { x: min.x + size.x, y: min.y + size.y } }
    }

    /// Whether `p` lies in the rectangle, boundary included.
    pub fn contains(self, p: Point) -> (hit: bool)
        ensures
            hit == self.contains_spec(p),
    {
        self.min.x <= p.x && p.x <= self.max.x && self.min.y <= p.y && p.y <= self.max.y
    }

    pub open spec fn contains_spec(self, p: Point) -> bool {
        self.min.x <= p.x <= self.max.x && self.min.y <= p.y <= self.max.y
    }

    pub open spec fn width_spec(self) -> int {
        self.max.x - self.min.x
    }

    pub open spec fn height_spec(self) -> int {
        self.max.y - self.min.y
    }
}

} // verus!
