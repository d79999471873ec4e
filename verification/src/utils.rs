//! Geometry and stroke-processing utilities.
//!
//! These are the pure functions of the core: point-to-segment distance,
//! stroke hit tests, shape bounding boxes, dynamic brush widths, stroke
//! interpolation and smoothing. Every function is total over its stated
//! domain and returns exactly what its spec-level mirror describes.

use vstd::prelude::*;
use vstd::arithmetic::div_mod::lemma_fundamental_div_mod;
use vstd::arithmetic::div_mod::lemma_div_pos_is_pos;
use vstd::arithmetic::div_mod::lemma_div_is_ordered;
use vstd::arithmetic::div_mod::lemma_div_multiples_vanish;
use crate::geometry::{
    Point, Rect, point_ok, sq, dist_sq_spec, dist_spec, sqrt_floor, seg_dot, seg_cross,
    seg_dist_num, seg_dist_den, seg_within_half_spec, dist_sq, isqrt, segment_within_half,
    mul_div_floor, OBJ_LIMIT, lemma_lagrange, lemma_sqrt_floor_bounds,
};
use crate::state::{
    CanvasStroke, CanvasShape, CanvasShapeType, DynamicBrushWidthMode, stroke_wf, shape_wf,
    point_obj_ok, width_ok, WIDTH_LIMIT,
};

verus! {

/// Margin (in milli-pixels) around a shape's bounding box.
pub const BBOX_MARGIN: i64 = 5_000;

/// Vertical margin around an arrow, covering the arrowhead spread.
pub const ARROW_MARGIN: i64 = 15_000;

/// The width used for hit-testing segment `i` of a stroke: the larger of
/// its two endpoint widths, with the same fallbacks the renderer uses when
/// the width sequence is shorter than the point sequence.
pub open spec fn stroke_seg_width(widths: Seq<i64>, i: int) -> int {
    if widths.len() == 0 {
        0
    } else if 0 <= i && i + 1 < widths.len() {
        if widths[i] >= widths[i + 1] {
            widths[i] as int
        } else {
            widths[i + 1] as int
        }
    } else if 0 <= i && i < widths.len() {
        widths[i] as int
    } else {
        widths[0] as int
    }
}

/// Whether `pos` lies within `tol/2 + width/2` of some segment of the
/// stroke, where `width` is the segment's hit-test width. False for
/// strokes with fewer than two points.
#[verifier::opaque]
pub open spec fn stroke_hit_spec(pos: Point, stroke: CanvasStroke, tol: int) -> bool {
    &&& stroke.points@.len() >= 2
    &&& exists|i: int|
        0 <= i < stroke.points@.len() - 1 && #[trigger] seg_within_half_spec(
            pos,
            stroke.points@[i],
            stroke.points@[i + 1],
            tol + stroke_seg_width(stroke.widths@, i),
        )
}

/// The bounding box of a shape in its unrotated local frame, with a
/// 5-pixel margin (15 vertically for arrows). Rotation is deliberately
/// not applied: selection and resize math work in unrotated space.
#[verifier::opaque]
pub open spec fn shape_bbox_spec(s: CanvasShape) -> Rect {
    match s.shape_type {
        CanvasShapeType::Line => Rect {
            min: Point {
                x: ((if s.pos.x + s.size < s.pos.x as int { s.pos.x + s.size } else {
                    s.pos.x as int
                }) - BBOX_MARGIN) as i64,
                y: (s.pos.y - BBOX_MARGIN) as i64,
            },
            max: Point {
                x: ((if s.pos.x + s.size > s.pos.x as int { s.pos.x + s.size } else {
                    s.pos.x as int
                }) + BBOX_MARGIN) as i64,
                y: (s.pos.y + BBOX_MARGIN) as i64,
            },
        },
        CanvasShapeType::Arrow => Rect {
            min: Point {
                x: ((if s.pos.x + s.size < s.pos.x as int { s.pos.x + s.size } else {
                    s.pos.x as int
                }) - BBOX_MARGIN) as i64,
                y: (s.pos.y - ARROW_MARGIN) as i64,
            },
            max: Point {
                x: ((if s.pos.x + s.size > s.pos.x as int { s.pos.x + s.size } else {
                    s.pos.x as int
                }) + BBOX_MARGIN) as i64,
                y: (s.pos.y + ARROW_MARGIN) as i64,
            },
        },
        CanvasShapeType::Rectangle => Rect {
            min: s.pos,
            max: Point { x: (s.pos.x + s.size) as i64, y: (s.pos.y + s.size) as i64 },
        },
        CanvasShapeType::Triangle => Rect {
            min: Point { x: (s.pos.x - BBOX_MARGIN) as i64, y: (s.pos.y - BBOX_MARGIN) as i64 },
            max: Point {
                x: (s.pos.x + s.size + BBOX_MARGIN) as i64,
                y: (s.pos.y + s.size / 2 + BBOX_MARGIN) as i64,
            },
        },
        CanvasShapeType::Circle => Rect {
            min: Point {
                x: (s.pos.x - s.size / 2 - BBOX_MARGIN) as i64,
                y: (s.pos.y - s.size / 2 - BBOX_MARGIN) as i64,
            },
            max: Point {
                x: (s.pos.x + s.size / 2 + BBOX_MARGIN) as i64,
                y: (s.pos.y + s.size / 2 + BBOX_MARGIN) as i64,
            },
        },
    }
}

/// The per-point width the brush produces for a sample.
pub open spec fn dynamic_width_spec(
    base: int,
    mode: DynamicBrushWidthMode,
    idx: int,
    total: int,
    speed: Option<int>,
) -> int {
    match mode {
        DynamicBrushWidthMode::Disabled => base,
        DynamicBrushWidthMode::BrushTip => {
            let tot = if total >= 1 { total } else { 1 };
            if 10 * idx > 7 * tot {
                base * (12 * tot - 10 * idx) / (5 * tot)
            } else {
                base
            }
        },
        DynamicBrushWidthMode::SpeedBased => match speed {
            Some(s) => {
                let c = if s >= 500 { 500 } else { s };
                base * (750 - c) / 500
            },
            None => base,
        },
    }
}

// ---------------------------------------------------------------------------
// Interpolation.
// ---------------------------------------------------------------------------

/// Width used at the start of segment `i` (first width as fallback when the
/// width sequence is shorter than the point sequence).
pub open spec fn interp_w1(widths: Seq<i64>, i: int) -> int {
    if 0 <= i < widths.len() {
        widths[i] as int
    } else {
        widths[0] as int
    }
}

/// Width used at the end of segment `i` (last width as fallback).
pub open spec fn interp_w2(widths: Seq<i64>, i: int) -> int {
    if 0 <= i + 1 < widths.len() {
        widths[i + 1] as int
    } else {
        widths[widths.len() - 1] as int
    }
}

/// `a` moved `j/m` of the way towards `b`, on the integer grid.
pub open spec fn lerp_val(a: int, b: int, j: int, m: int) -> int {
    a + ((b - a) * j) / m
}

pub open spec fn lerp_point(p1: Point, p2: Point, j: int, m: int) -> Point {
    Point {
        x: lerp_val(p1.x as int, p2.x as int, j, m) as i64,
        y: lerp_val(p1.y as int, p2.y as int, j, m) as i64,
    }
}

/// How many evenly spaced points are inserted into segment `i`: the floor
/// of the segment length (milli-pixels) times the frequency (thousandths
/// of insertions per pixel).
pub open spec fn insert_count(points: Seq<Point>, f: int, i: int) -> int {
    dist_spec(points[i], points[i + 1]) * f / 1_000_000
}

/// The points inserted into segment `i`, in order.
pub open spec fn seg_insert_points(points: Seq<Point>, f: int, i: int) -> Seq<Point> {
    let n = insert_count(points, f, i);
    Seq::new(n as nat, |j: int| lerp_point(points[i], points[i + 1], j + 1, n + 1))
}

/// The widths inserted into segment `i`, in order.
pub open spec fn seg_insert_widths(points: Seq<Point>, widths: Seq<i64>, f: int, i: int) -> Seq<
    i64,
> {
    let n = insert_count(points, f, i);
    Seq::new(
        n as nat,
        |j: int| lerp_val(interp_w1(widths, i), interp_w2(widths, i), j + 1, n + 1) as i64,
    )
}

/// Output points contributed by segments `0 .. i`: each segment emits its
/// start point followed by its inserted points.
pub open spec fn interp_points_prefix(points: Seq<Point>, f: int, i: int) -> Seq<Point>
    decreases i,
{
    if i <= 0 {
        Seq::empty()
    } else {
        interp_points_prefix(points, f, i - 1) + seq![points[i - 1]] + seg_insert_points(
            points,
            f,
            i - 1,
        )
    }
}

/// Output widths contributed by segments `0 .. i`.
pub open spec fn interp_widths_prefix(points: Seq<Point>, widths: Seq<i64>, f: int, i: int) -> Seq<
    i64,
>
    decreases i,
{
    if i <= 0 {
        Seq::empty()
    } else {
        interp_widths_prefix(points, widths, f, i - 1) + seq![
            interp_w1(widths, i - 1) as i64,
        ] + seg_insert_widths(points, widths, f, i - 1)
    }
}

/// The interpolated point sequence: unchanged when there is nothing to do,
/// otherwise every segment's contribution followed by the final point.
pub open spec fn interp_points_spec(points: Seq<Point>, f: int) -> Seq<Point> {
    if points.len() < 2 || f <= 0 {
        points
    } else {
        interp_points_prefix(points, f, points.len() - 1) + seq![points[points.len() - 1]]
    }
}

/// The interpolated width sequence, parallel to the interpolated points
/// (an empty width sequence passes through empty).
pub open spec fn interp_widths_spec(points: Seq<Point>, widths: Seq<i64>, f: int) -> Seq<i64> {
    if points.len() < 2 || f <= 0 || widths.len() == 0 {
        widths
    } else {
        interp_widths_prefix(points, widths, f, points.len() - 1) + seq![
            widths[widths.len() - 1],
        ]
    }
}

/// Where the `k`-th original point lands in the interpolated output: each
/// earlier segment contributes its start point plus its insertions.
pub open spec fn anchor_index(points: Seq<Point>, f: int, k: int) -> int
    decreases k,
{
    if k <= 0 {
        0
    } else {
        anchor_index(points, f, k - 1) + 1 + insert_count(points, f, k - 1)
    }
}

proof fn lemma_insert_count_nonneg(points: Seq<Point>, f: int, i: int)
    requires
        f >= 0,
    ensures
        insert_count(points, f, i) >= 0,
{
    let d2 = dist_sq_spec(points[i], points[i + 1]);
    assert(d2 >= 0) by (nonlinear_arith)
        requires
            d2 == sq((points[i].x - points[i + 1].x) as int) + sq(
                (points[i].y - points[i + 1].y) as int,
            ),
    ;
    lemma_sqrt_floor_bounds(d2);
    let d = dist_spec(points[i], points[i + 1]);
    assert(d * f >= 0) by (nonlinear_arith)
        requires
            d >= 0,
            f >= 0,
    ;
    lemma_div_pos_is_pos(d * f, 1_000_000);
}

proof fn lemma_prefix_lens(points: Seq<Point>, widths: Seq<i64>, f: int, i: int)
    requires
        f >= 0,
        0 <= i,
    ensures
        interp_points_prefix(points, f, i).len() == anchor_index(points, f, i),
        interp_widths_prefix(points, widths, f, i).len() == anchor_index(points, f, i),
        anchor_index(points, f, i) >= i,
    decreases i,
{
    if i > 0 {
        lemma_prefix_lens(points, widths, f, i - 1);
        lemma_insert_count_nonneg(points, f, i - 1);
    }
}

proof fn lemma_prefix_anchor(points: Seq<Point>, widths: Seq<i64>, f: int, k: int, i: int)
    requires
        f >= 0,
        0 <= k < i,
        widths.len() == points.len(),
        k < points.len(),
    ensures
        anchor_index(points, f, k) < interp_points_prefix(points, f, i).len(),
        interp_points_prefix(points, f, i)[anchor_index(points, f, k)] == points[k],
        interp_widths_prefix(points, widths, f, i)[anchor_index(points, f, k)] == widths[k],
    decreases i,
{
    lemma_prefix_lens(points, widths, f, k);
    lemma_insert_count_nonneg(points, f, k);
    let idx = anchor_index(points, f, k);
    if i == k + 1 {
        assert(interp_w1(widths, k) as i64 == widths[k]);
        let wa = interp_widths_prefix(points, widths, f, k);
        let wmid = wa + seq![interp_w1(widths, k) as i64];
        assert(wmid[idx] == widths[k]);
        assert(interp_widths_prefix(points, widths, f, i)
            == wmid + seg_insert_widths(points, widths, f, k));
        assert((wmid + seg_insert_widths(points, widths, f, k))[idx] == wmid[idx]);
        let pa = interp_points_prefix(points, f, k);
        let pmid = pa + seq![points[k]];
        assert(pmid[idx] == points[k]);
        assert(interp_points_prefix(points, f, i) == pmid + seg_insert_points(points, f, k));
        assert((pmid + seg_insert_points(points, f, k))[idx] == pmid[idx]);
    } else {
        lemma_prefix_anchor(points, widths, f, k, i - 1);
        lemma_insert_count_nonneg(points, f, i - 1);
        lemma_prefix_lens(points, widths, f, i - 1);
        let pa = interp_points_prefix(points, f, i - 1);
        let wa = interp_widths_prefix(points, widths, f, i - 1);
        assert((pa + seq![points[i - 1]] + seg_insert_points(points, f, i - 1))[idx] == pa[idx]);
        assert((wa + seq![interp_w1(widths, i - 1) as i64] + seg_insert_widths(
            points,
            widths,
            f,
            i - 1,
        ))[idx] == wa[idx]);
    }
}

/// Interpolation preserves the original anchor points and widths exactly:
/// reading the output at each anchor index recovers the input unchanged,
/// and the two outputs stay parallel.
pub proof fn lemma_interpolation_preserves_anchors(
    points: Seq<Point>,
    widths: Seq<i64>,
    f: int,
    k: int,
)
    requires
        points.len() >= 2,
        0 < f,
        widths.len() == points.len(),
        0 <= k < points.len(),
    ensures
        0 <= anchor_index(points, f, k) < interp_points_spec(points, f).len(),
        interp_points_spec(points, f)[anchor_index(points, f, k)] == points[k],
        interp_widths_spec(points, widths, f)[anchor_index(points, f, k)] == widths[k],
        interp_points_spec(points, f).len() == interp_widths_spec(points, widths, f).len(),
{
    lemma_prefix_lens(points, widths, f, points.len() - 1);
    lemma_prefix_lens(points, widths, f, k);
    if k == points.len() - 1 {
        assert(interp_points_spec(points, f)[anchor_index(points, f, k)] == points[k]);
    } else {
        lemma_prefix_anchor(points, widths, f, k, points.len() - 1);
    }
}

// ---------------------------------------------------------------------------
// Smoothing.
// ---------------------------------------------------------------------------

/// Arc-length spacing (milli-pixels) used when resampling a stroke.
pub const RESAMPLE_SPACING: i64 = 2_000;

/// State of the resampling walk after consuming points `1 ..= i`: the
/// points emitted so far and the distance accumulated since the last
/// emission.
pub open spec fn resample_state(points: Seq<Point>, i: int) -> (Seq<Point>, int)
    decreases i,
{
    if i <= 0 {
        (seq![points[0]], 0)
    } else {
        let (s, acc) = resample_state(points, i - 1);
        let a = acc + dist_spec(points[i - 1], points[i]);
        if a >= RESAMPLE_SPACING {
            (s.push(points[i]), 0)
        } else {
            (s, a)
        }
    }
}

/// The stroke resampled at fixed arc-length spacing.
pub open spec fn resample_spec(points: Seq<Point>) -> Seq<Point> {
    resample_state(points, points.len() - 1).0
}

/// The cut point at 25% of the segment.
pub open spec fn chaikin_q(p0: Point, p1: Point) -> Point {
    Point { x: ((3 * p0.x + p1.x) / 4) as i64, y: ((3 * p0.y + p1.y) / 4) as i64 }
}

/// The cut point at 75% of the segment.
pub open spec fn chaikin_r(p0: Point, p1: Point) -> Point {
    Point { x: ((p0.x + 3 * p1.x) / 4) as i64, y: ((p0.y + 3 * p1.y) / 4) as i64 }
}

/// One round of Chaikin corner cutting: each segment is replaced by its
/// 25% and 75% points; the endpoints are kept exactly.
pub open spec fn chaikin_once(pts: Seq<Point>) -> Seq<Point> {
    seq![pts[0]] + Seq::new(
        (2 * (pts.len() - 1)) as nat,
        |k: int|
            if k % 2 == 0 {
                chaikin_q(pts[k / 2], pts[k / 2 + 1])
            } else {
                chaikin_r(pts[k / 2], pts[k / 2 + 1])
            },
    ) + seq![pts[pts.len() - 1]]
}

/// A three-point moving average over the interior points.
pub open spec fn movavg_spec(pts: Seq<Point>) -> Seq<Point> {
    Seq::new(
        pts.len(),
        |i: int|
            if 1 <= i && i < pts.len() - 1 {
                Point {
                    x: ((pts[i - 1].x + pts[i].x + pts[i + 1].x) / 3) as i64,
                    y: ((pts[i - 1].y + pts[i].y + pts[i + 1].y) / 3) as i64,
                }
            } else {
                pts[i]
            },
    )
}

/// The full smoothing pipeline: resample, two rounds of corner cutting,
/// then a moving-average cleanup. A no-op below three points; if the
/// resampling leaves fewer than three points, it is returned as is.
pub open spec fn smooth_spec(points: Seq<Point>) -> Seq<Point> {
    if points.len() < 3 {
        points
    } else {
        let rs = resample_spec(points);
        if rs.len() < 3 {
            rs
        } else {
            movavg_spec(chaikin_once(chaikin_once(rs)))
        }
    }
}

/// Division by a positive constant keeps an enclosing range.
pub(crate) proof fn lemma_div_range(v: int, lo: int, hi: int, m: int)
    requires
        0 < m,
        m * lo <= v,
        v <= m * hi,
    ensures
        lo <= v / m <= hi,
{
    lemma_div_is_ordered(m * lo, v, m);
    lemma_div_is_ordered(v, m * hi, m);
    lemma_div_multiples_vanish(lo, m);
    lemma_div_multiples_vanish(hi, m);
}

/// The floored center of a bounded rectangle stays within bounds.
pub(crate) proof fn lemma_center_in_range(r: Rect)
    requires
        -85_000_000 <= r.min.x <= 85_000_000,
        -85_000_000 <= r.min.y <= 85_000_000,
        -85_000_000 <= r.max.x <= 85_000_000,
        -85_000_000 <= r.max.y <= 85_000_000,
    ensures
        -85_000_000 <= (r.min.x + r.max.x) / 2 <= 85_000_000,
        -85_000_000 <= (r.min.y + r.max.y) / 2 <= 85_000_000,
{
    lemma_div_range((r.min.x + r.max.x) as int, -85_000_000, 85_000_000, 2);
    lemma_div_range((r.min.y + r.max.y) as int, -85_000_000, 85_000_000, 2);
}

/// Resampling emits the first point first and only points of the input.
proof fn lemma_resample_state_wf(points: Seq<Point>, i: int)
    requires
        0 <= i < points.len(),
        forall|k: int| 0 <= k < points.len() ==> point_obj_ok(#[trigger] points[k]),
    ensures
        resample_state(points, i).0.len() >= 1,
        resample_state(points, i).0[0] == points[0],
        resample_state(points, i).1 >= 0,
        forall|k: int|
            0 <= k < resample_state(points, i).0.len() ==> point_obj_ok(
                #[trigger] resample_state(points, i).0[k],
            ),
    decreases i,
{
    if i > 0 {
        lemma_resample_state_wf(points, i - 1);
        let d2 = dist_sq_spec(points[i - 1], points[i]);
        assert(d2 >= 0) by (nonlinear_arith)
            requires
                d2 == sq((points[i - 1].x - points[i].x) as int) + sq(
                    (points[i - 1].y - points[i].y) as int,
                ),
        ;
        lemma_sqrt_floor_bounds(d2);
    }
}

/// Namespace for the core's pure utility functions.
pub struct AppUtils;

impl AppUtils {
    /// Floor of the true point-to-segment distance, pinned by a two-sided
    /// bound against the exact rational squared distance. Segments shorter
    /// than a hundredth of a pixel degrade to the point-to-point distance
    /// from the first endpoint.
    pub fn point_to_line_segment_distance(p: Point, a: Point, b: Point) -> (d: i64)
        requires
            point_ok(p),
            point_ok(a),
            point_ok(b),
        ensures
            0 <= d <= 300_000_000,
            sq(d as int) * seg_dist_den(p, a, b) <= seg_dist_num(p, a, b),
            seg_dist_num(p, a, b) < sq(d as int + 1) * seg_dist_den(p, a, b),
    {
        let dd: i64 = dist_sq(a, b);
        if dd < crate::geometry::DEGENERATE_SEG_SQ {
            let pa: i64 = dist_sq(p, a);
            let r: u64 = isqrt(pa as u128);
            proof {
                assert(r <= 300_000_000) by (nonlinear_arith)
                    requires
                        sq(r as int) <= 80_000_000_000_000_000,
                        r >= 0,
                ;
            }
            r as i64
        } else {
            let ux: i64 = p.x - a.x;
            let uy: i64 = p.y - a.y;
            let vx: i64 = b.x - a.x;
            let vy: i64 = b.y - a.y;
            proof {
                assert(-80_000_000_000_000_000 <= ux * vx + uy * vy <= 80_000_000_000_000_000
                    && -80_000_000_000_000_000 <= ux * vy - uy * vx <= 80_000_000_000_000_000
                    && -40_000_000_000_000_000 <= ux * vx <= 40_000_000_000_000_000
                    && -40_000_000_000_000_000 <= uy * vy <= 40_000_000_000_000_000
                    && -40_000_000_000_000_000 <= ux * vy <= 40_000_000_000_000_000
                    && -40_000_000_000_000_000 <= uy * vx <= 40_000_000_000_000_000)
                    by (nonlinear_arith)
                    requires
                        -200_000_000 <= ux <= 200_000_000,
                        -200_000_000 <= uy <= 200_000_000,
                        -200_000_000 <= vx <= 200_000_000,
                        -200_000_000 <= vy <= 200_000_000,
                ;
            }
            let dot: i64 = ux * vx + uy * vy;
            assert(dot == seg_dot(p, a, b));
            if dot <= 0 {
                let pa: i64 = dist_sq(p, a);
                let r: u64 = isqrt(pa as u128);
                proof {
                    assert(r <= 300_000_000) by (nonlinear_arith)
                        requires
                            sq(r as int) <= 80_000_000_000_000_000,
                            r >= 0,
                    ;
                }
                r as i64
            } else if dot >= dd {
                let pb: i64 = dist_sq(p, b);
                let r: u64 = isqrt(pb as u128);
                proof {
                    assert(r <= 300_000_000) by (nonlinear_arith)
                        requires
                            sq(r as int) <= 80_000_000_000_000_000,
                            r >= 0,
                    ;
                }
                r as i64
            } else {
                let cross: i64 = ux * vy - uy * vx;
                assert(cross == seg_cross(p, a, b));
                proof {
                    assert((cross as int) * (cross as int)
                        <= 6_400_000_000_000_000_000_000_000_000_000_000
                        && 0 <= (cross as int) * (cross as int)) by (nonlinear_arith)
                        requires
                            -80_000_000_000_000_000 <= cross <= 80_000_000_000_000_000,
                    ;
                }
                let c2: u128 = ((cross as i128) * (cross as i128)) as u128;
                let q: u128 = c2 / (dd as u128);
                proof {
                    lemma_fundamental_div_mod(c2 as int, dd as int);
                    assert(q <= c2) by (nonlinear_arith)
                        requires
                            c2 as int == dd as int * (q as int) + (c2 as int) % (dd as int),
                            0 <= (c2 as int) % (dd as int),
                            1 <= dd,
                            0 <= q,
                    ;
                }
                let r: u64 = isqrt(q);
                proof {
                    // r^2 * dd <= q * dd <= cross^2 < (q + 1) * dd <= (r + 1)^2 * dd
                    assert(sq(r as int) * (dd as int) <= (q as int) * (dd as int)
                        && (q as int + 1) * (dd as int) <= sq(r as int + 1) * (dd as int))
                        by (nonlinear_arith)
                        requires
                            sq(r as int) <= q as int,
                            (q as int) < sq(r as int + 1),
                            0 < dd,
                    ;
                    assert((q as int) * (dd as int) <= c2 as int
                        && (c2 as int) < (q as int + 1) * (dd as int)) by (nonlinear_arith)
                        requires
                            c2 as int == dd as int * (q as int) + (c2 as int) % (dd as int),
                            0 <= (c2 as int) % (dd as int) < dd as int,
                    ;
                    // the point-to-line distance is at most the point-to-point
                    // distance, so the root stays within the coordinate range
                    lemma_lagrange(ux as int, uy as int, vx as int, vy as int);
                    assert(dd as int == vx * vx + vy * vy) by (nonlinear_arith)
                        requires
                            dd as int == sq((a.x - b.x) as int) + sq((a.y - b.y) as int),
                            vx == b.x - a.x,
                            vy == b.y - a.y,
                    ;
                    assert(dot * dot >= 0) by (nonlinear_arith);
                    assert(c2 as int <= (ux * ux + uy * uy) * (dd as int));
                    assert(ux * ux + uy * uy <= 80_000_000_000_000_000) by (nonlinear_arith)
                        requires
                            -200_000_000 <= ux <= 200_000_000,
                            -200_000_000 <= uy <= 200_000_000,
                    ;
                    assert((q as int) <= ux * ux + uy * uy) by (nonlinear_arith)
                        requires
                            (q as int) * (dd as int) <= c2 as int,
                            c2 as int <= (ux * ux + uy * uy) * (dd as int),
                            0 < dd,
                            0 <= q,
                    ;
                    assert(r <= 300_000_000) by (nonlinear_arith)
                        requires
                            sq(r as int) <= 80_000_000_000_000_000,
                            r >= 0,
                    ;
                }
                r as i64
            }
        }
    }

    /// Whether `pos` touches the stroke, for an eraser (or selection
    /// tolerance) of diameter `eraser_size`. False for strokes with fewer
    /// than two points.
    pub fn point_intersects_stroke(pos: Point, stroke: &CanvasStroke, eraser_size: i64) -> (hit:
        bool)
        requires
            point_obj_ok(pos),
            stroke_wf(*stroke),
            0 <= eraser_size <= 1_000_000,
        ensures
            hit == stroke_hit_spec(pos, *stroke, eraser_size as int),
    {
        proof {
            reveal(stroke_hit_spec);
        }
        if stroke.points.len() < 2 {
            return false;
        }
        let n: usize = stroke.points.len() - 1;
        let mut i: usize = 0;
        while i < n
            invariant
                n == stroke.points@.len() - 1,
                stroke.points@.len() >= 2,
                0 <= i <= n,
                point_obj_ok(pos),
                stroke_wf(*stroke),
                0 <= eraser_size <= 1_000_000,
                forall|j: int|
                    0 <= j < i ==> !seg_within_half_spec(
                        pos,
                        stroke.points@[j],
                        stroke.points@[j + 1],
                        eraser_size as int + stroke_seg_width(stroke.widths@, j),
                    ),
            decreases n - i,
        {
            let sw: i64 = if stroke.widths.len() == 0 {
                0
            } else if i + 1 < stroke.widths.len() {
                if stroke.widths[i] >= stroke.widths[i + 1] {
                    stroke.widths[i]
                } else {
                    stroke.widths[i + 1]
                }
            } else if i < stroke.widths.len() {
                stroke.widths[i]
            } else {
                stroke.widths[0]
            };
            assert(sw as int == stroke_seg_width(stroke.widths@, i as int));
            if segment_within_half(pos, stroke.points[i], stroke.points[i + 1], eraser_size + sw) {
                proof {
                    reveal(stroke_hit_spec);
                }
                return true;
            }
            i = i + 1;
        }
        proof {
            reveal(stroke_hit_spec);
        }
        false
    }

    /// The axis-aligned bounding box of a shape, in its unrotated frame.
    pub fn calculate_shape_bounding_box(shape: &CanvasShape) -> (bb: Rect)
        requires
            shape_wf(*shape),
        ensures
            bb == shape_bbox_spec(*shape),
            point_ok(bb.min),
            point_ok(bb.max),
            -85_000_000 <= bb.min.x <= 85_000_000,
            -85_000_000 <= bb.min.y <= 85_000_000,
            -85_000_000 <= bb.max.x <= 85_000_000,
            -85_000_000 <= bb.max.y <= 85_000_000,
    {
        proof {
            reveal(shape_bbox_spec);
        }
        match shape.shape_type {
            CanvasShapeType::Line => {
                let end_x: i64 = shape.pos.x + shape.size;
                let min_x: i64 = if end_x < shape.pos.x { end_x } else { shape.pos.x };
                let max_x: i64 = if end_x > shape.pos.x { end_x } else { shape.pos.x };
                Rect {
                    min: Point { x: min_x - BBOX_MARGIN, y: shape.pos.y - BBOX_MARGIN },
                    max: Point { x: max_x + BBOX_MARGIN, y: shape.pos.y + BBOX_MARGIN },
                }
            },
            CanvasShapeType::Arrow => {
                let end_x: i64 = shape.pos.x + shape.size;
                let min_x: i64 = if end_x < shape.pos.x { end_x } else { shape.pos.x };
                let max_x: i64 = if end_x > shape.pos.x { end_x } else { shape.pos.x };
                Rect {
                    min: Point { x: min_x - BBOX_MARGIN, y: shape.pos.y - ARROW_MARGIN },
                    max: Point { x: max_x + BBOX_MARGIN, y: shape.pos.y + ARROW_MARGIN },
                }
            },
            CanvasShapeType::Rectangle => Rect {
                min: shape.pos,
                max: Point { x: shape.pos.x + shape.size, y: shape.pos.y + shape.size },
            },
            CanvasShapeType::Triangle => {
                let half: i64 = mul_div_floor(shape.size, 1, 2);
                Rect {
                    min: Point { x: shape.pos.x - BBOX_MARGIN, y: shape.pos.y - BBOX_MARGIN },
                    max: Point {
                        x: shape.pos.x + shape.size + BBOX_MARGIN,
                        y: shape.pos.y + half + BBOX_MARGIN,
                    },
                }
            },
            CanvasShapeType::Circle => {
                let radius: i64 = mul_div_floor(shape.size, 1, 2);
                Rect {
                    min: Point {
                        x: shape.pos.x - radius - BBOX_MARGIN,
                        y: shape.pos.y - radius - BBOX_MARGIN,
                    },
                    max: Point {
                        x: shape.pos.x + radius + BBOX_MARGIN,
                        y: shape.pos.y + radius + BBOX_MARGIN,
                    },
                }
            },
        }
    }

    /// The width of one brush sample: the base width, tapered near the end
    /// of the stroke in brush-tip mode, or scaled from 150% down to 50% by
    /// drawing speed (in pixels per second) in speed-based mode.
    pub fn calculate_dynamic_width(
        base_width: i64,
        mode: DynamicBrushWidthMode,
        point_index: usize,
        total_points: usize,
        speed: Option<i64>,
    ) -> (w: i64)
        requires
            0 <= base_width <= 1_000_000,
            point_index as int <= total_points as int,
            total_points <= 1_000_000_000,
            speed is Some ==> speed->0 >= 0,
        ensures
            w as int == dynamic_width_spec(
                base_width as int,
                mode,
                point_index as int,
                total_points as int,
                match speed {
                    Some(s) => Some(s as int),
                    None => None,
                },
            ),
            width_ok(w as int),
            w as int <= 2 * base_width,
    {
        match mode {
            DynamicBrushWidthMode::Disabled => base_width,
            DynamicBrushWidthMode::BrushTip => {
                let tot: u64 = if total_points >= 1 {
                    total_points as u64
                } else {
                    1
                };
                let idx: u64 = point_index as u64;
                if 10 * idx > 7 * tot {
                    proof {
                        assert((base_width as int) * (12 * (tot as int) - 10 * (idx as int))
                            <= 24_000_000_000_000_000
                            && 0 <= (base_width as int) * (12 * (tot as int) - 10 * (idx as int)))
                            by (nonlinear_arith)
                            requires
                                0 <= base_width <= 1_000_000,
                                1 <= tot <= 1_000_000_000,
                                0 <= idx <= tot,
                        ;
                    }
                    let num: u64 = (base_width as u64) * (12 * tot - 10 * idx);
                    let den: u64 = 5 * tot;
                    let q: u64 = num / den;
                    proof {
                        lemma_fundamental_div_mod(num as int, den as int);
                        assert(q as int <= base_width as int) by (nonlinear_arith)
                            requires
                                num as int == den as int * (q as int) + (num as int) % (den as int),
                                0 <= (num as int) % (den as int),
                                num as int == (base_width as int) * (12 * (tot as int) - 10 * (
                                idx as int)),
                                den as int == 5 * (tot as int),
                                idx > 0,
                                10 * idx > 7 * tot,
                                idx <= tot,
                                0 <= base_width,
                                1 <= tot,
                                0 <= q,
                        ;
                    }
                    q as i64
                } else {
                    base_width
                }
            },
            DynamicBrushWidthMode::SpeedBased => {
                match speed {
                    Some(s) => {
                        let c: i64 = if s >= 500 {
                            500
                        } else {
                            s
                        };
                        proof {
                            assert((base_width as int) * (750 - c as int) <= 750_000_000
                                && 0 <= (base_width as int) * (750 - c as int)
                                && (base_width as int) * (750 - c as int)
                                    <= 1000 * (base_width as int)) by (nonlinear_arith)
                                requires
                                    0 <= base_width <= 1_000_000,
                                    0 <= c <= 500,
                            ;
                        }
                        let num: u64 = (base_width as u64) * ((750 - c) as u64);
                        let q: u64 = num / 500;
                        proof {
                            lemma_fundamental_div_mod(num as int, 500);
                            assert(q as int <= 2 * (base_width as int)) by (nonlinear_arith)
                                requires
                                    num as int == 500 * (q as int) + (num as int) % 500,
                                    0 <= (num as int) % 500,
                                    num as int <= 1000 * (base_width as int),
                                    0 <= q,
                            ;
                        }
                        q as i64
                    },
                    None => base_width,
                }
            },
        }
    }

    /// Insert `floor(segment length * frequency)` evenly spaced points into
    /// every segment, linearly interpolating widths; the original points and
    /// widths are kept in place. A no-op when there are fewer than two
    /// points or the frequency is zero.
    pub fn apply_point_interpolation(points: &Vec<Point>, widths: &Vec<i64>, frequency: i64) -> (r:
        (Vec<Point>, Vec<i64>))
        requires
            forall|k: int| 0 <= k < points@.len() ==> point_obj_ok(#[trigger] points@[k]),
            forall|k: int| 0 <= k < widths@.len() ==> width_ok(#[trigger] widths@[k] as int),
            0 <= frequency <= 1000,
        ensures
            r.0@ == interp_points_spec(points@, frequency as int),
            r.1@ == interp_widths_spec(points@, widths@, frequency as int),
            points@.len() < 2 || frequency <= 0 ==> r.0@ == points@ && r.1@ == widths@,
            forall|k: int| 0 <= k < r.0@.len() ==> point_obj_ok(#[trigger] r.0@[k]),
            forall|k: int| 0 <= k < r.1@.len() ==> width_ok(#[trigger] r.1@[k] as int),
    {
        if points.len() < 2 || frequency <= 0 {
            return (copy_points_pub(points), copy_widths_pub(widths));
        }
        if widths.len() == 0 {
            return (Self::interpolate_points_only(points, frequency), Vec::new());
        }
        let ghost f = frequency as int;
        let mut out_p: Vec<Point> = Vec::new();
        let mut out_w: Vec<i64> = Vec::new();
        let last: usize = points.len() - 1;
        let mut i: usize = 0;
        while i < last
            invariant
                last == points@.len() - 1,
                points@.len() >= 2,
                0 <= i <= last,
                f == frequency as int,
                0 < frequency <= 1000,
                widths@.len() >= 1,
                forall|k: int| 0 <= k < points@.len() ==> point_obj_ok(#[trigger] points@[k]),
                forall|k: int| 0 <= k < widths@.len() ==> width_ok(#[trigger] widths@[k] as int),
                out_p@ == interp_points_prefix(points@, f, i as int),
                out_w@ == interp_widths_prefix(points@, widths@, f, i as int),
                forall|k: int| 0 <= k < out_p@.len() ==> point_obj_ok(#[trigger] out_p@[k]),
                forall|k: int| 0 <= k < out_w@.len() ==> width_ok(#[trigger] out_w@[k] as int),
            decreases last - i,
        {
            let p1: Point = points[i];
            let p2: Point = points[i + 1];
            let w1: i64 = if i < widths.len() {
                widths[i]
            } else {
                widths[0]
            };
            let w2: i64 = if i + 1 < widths.len() {
                widths[i + 1]
            } else {
                widths[widths.len() - 1]
            };
            assert(w1 as int == interp_w1(widths@, i as int));
            assert(w2 as int == interp_w2(widths@, i as int));
            out_p.push(p1);
            out_w.push(w1);
            let d: i64 = crate::geometry::dist(p1, p2);
            proof {
                assert(d * frequency <= 300_000_000_000 && 0 <= d * frequency)
                    by (nonlinear_arith)
                    requires
                        0 <= d <= 300_000_000,
                        0 < frequency <= 1000,
                ;
            }
            let n: u64 = ((d as u64) * (frequency as u64)) / 1_000_000;
            let ghost nn = insert_count(points@, f, i as int);
            assert(n as int == nn);
            assert(n <= 300_000);
            let m: i64 = (n as i64) + 1;
            let mut j: i64 = 1;
            while j <= n as i64
                invariant
                    1 <= j <= n as i64 + 1,
                    n <= 300_000,
                    m == n as i64 + 1,
                    nn == n as int,
                    p1 == points@[i as int],
                    p2 == points@[i as int + 1],
                    0 <= i < points@.len() - 1,
                    point_obj_ok(p1),
                    point_obj_ok(p2),
                    w1 as int == interp_w1(widths@, i as int),
                    w2 as int == interp_w2(widths@, i as int),
                    width_ok(w1 as int),
                    width_ok(w2 as int),
                    nn == insert_count(points@, f, i as int),
                    out_p@ == interp_points_prefix(points@, f, i as int) + seq![p1] + Seq::new(
                        (j - 1) as nat,
                        |k: int| lerp_point(p1, p2, k + 1, nn + 1),
                    ),
                    out_w@ == interp_widths_prefix(points@, widths@, f, i as int) + seq![w1]
                        + Seq::new(
                        (j - 1) as nat,
                        |k: int| lerp_val(w1 as int, w2 as int, k + 1, nn + 1) as i64,
                    ),
                    forall|k: int| 0 <= k < out_p@.len() ==> point_obj_ok(#[trigger] out_p@[k]),
                    forall|k: int| 0 <= k < out_w@.len() ==> width_ok(#[trigger] out_w@[k] as int),
                decreases n as i64 + 1 - j,
            {
                let ip: Point = Point {
                    x: p1.x + mul_div_floor(p2.x - p1.x, j, m),
                    y: p1.y + mul_div_floor(p2.y - p1.y, j, m),
                };
                let iw: i64 = w1 + mul_div_floor(w2 - w1, j, m);
                assert(ip == lerp_point(p1, p2, j as int, nn + 1));
                assert(iw as int == lerp_val(w1 as int, w2 as int, j as int, nn + 1));
                out_p.push(ip);
                out_w.push(iw);
                proof {
                    assert(Seq::new((j - 1) as nat, |k: int| lerp_point(p1, p2, k + 1, nn + 1))
                        .push(lerp_point(p1, p2, j as int, nn + 1)) =~= Seq::new(
                        j as nat,
                        |k: int| lerp_point(p1, p2, k + 1, nn + 1),
                    ));
                    assert(Seq::new(
                        (j - 1) as nat,
                        |k: int| lerp_val(w1 as int, w2 as int, k + 1, nn + 1) as i64,
                    ).push((lerp_val(w1 as int, w2 as int, j as int, nn + 1)) as i64) =~= Seq::new(
                        j as nat,
                        |k: int| lerp_val(w1 as int, w2 as int, k + 1, nn + 1) as i64,
                    ));
                    assert(out_p@ =~= interp_points_prefix(points@, f, i as int) + seq![p1]
                        + Seq::new(j as nat, |k: int| lerp_point(p1, p2, k + 1, nn + 1)));
                    assert(out_w@ =~= interp_widths_prefix(points@, widths@, f, i as int) + seq![
                        w1,
                    ] + Seq::new(
                        j as nat,
                        |k: int| lerp_val(w1 as int, w2 as int, k + 1, nn + 1) as i64,
                    ));
                }
                j = j + 1;
            }
            proof {
                assert(Seq::new((j - 1) as nat, |k: int| lerp_point(p1, p2, k + 1, nn + 1))
                    =~= seg_insert_points(points@, f, i as int));
                assert(Seq::new(
                    (j - 1) as nat,
                    |k: int| lerp_val(w1 as int, w2 as int, k + 1, nn + 1) as i64,
                ) =~= seg_insert_widths(points@, widths@, f, i as int));
                assert(out_p@ =~= interp_points_prefix(points@, f, i as int + 1));
                assert(out_w@ =~= interp_widths_prefix(points@, widths@, f, i as int + 1));
            }
            i = i + 1;
        }
        out_p.push(points[last]);
        out_w.push(widths[widths.len() - 1]);
        proof {
            assert(out_p@ =~= interp_points_spec(points@, f));
            assert(out_w@ =~= interp_widths_spec(points@, widths@, f));
        }
        (out_p, out_w)
    }

    /// The point half of the interpolation, for strokes that carry no
    /// widths at all: samples are inserted as usual and the width
    /// sequence stays empty.
    fn interpolate_points_only(points: &Vec<Point>, frequency: i64) -> (r: Vec<Point>)
        requires
            forall|k: int| 0 <= k < points@.len() ==> point_obj_ok(#[trigger] points@[k]),
            0 < frequency <= 1000,
            points@.len() >= 2,
        ensures
            r@ == interp_points_spec(points@, frequency as int),
            forall|k: int| 0 <= k < r@.len() ==> point_obj_ok(#[trigger] r@[k]),
    {
        let ghost f = frequency as int;
        let mut out_p: Vec<Point> = Vec::new();
        let last: usize = points.len() - 1;
        let mut i: usize = 0;
        while i < last
            invariant
                last == points@.len() - 1,
                points@.len() >= 2,
                0 <= i <= last,
                f == frequency as int,
                0 < frequency <= 1000,
                forall|k: int| 0 <= k < points@.len() ==> point_obj_ok(#[trigger] points@[k]),
                out_p@ == interp_points_prefix(points@, f, i as int),
                forall|k: int| 0 <= k < out_p@.len() ==> point_obj_ok(#[trigger] out_p@[k]),
            decreases last - i,
        {
            let p1: Point = points[i];
            let p2: Point = points[i + 1];
            out_p.push(p1);
            let d: i64 = crate::geometry::dist(p1, p2);
            proof {
                assert(d * frequency <= 300_000_000_000 && 0 <= d * frequency)
                    by (nonlinear_arith)
                    requires
                        0 <= d <= 300_000_000,
                        0 < frequency <= 1000,
                ;
            }
            let n: u64 = ((d as u64) * (frequency as u64)) / 1_000_000;
            let ghost nn = insert_count(points@, f, i as int);
            assert(n as int == nn);
            assert(n <= 300_000);
            let m: i64 = (n as i64) + 1;
            let mut j: i64 = 1;
            while j <= n as i64
                invariant
                    1 <= j <= n as i64 + 1,
                    n <= 300_000,
                    m == n as i64 + 1,
                    nn == n as int,
                    p1 == points@[i as int],
                    p2 == points@[i as int + 1],
                    0 <= i < points@.len() - 1,
                    point_obj_ok(p1),
                    point_obj_ok(p2),
                    nn == insert_count(points@, f, i as int),
                    out_p@ == interp_points_prefix(points@, f, i as int) + seq![p1] + Seq::new(
                        (j - 1) as nat,
                        |k: int| lerp_point(p1, p2, k + 1, nn + 1),
                    ),
                    forall|k: int| 0 <= k < out_p@.len() ==> point_obj_ok(#[trigger] out_p@[k]),
                decreases n as i64 + 1 - j,
            {
                let ip: Point = Point {
                    x: p1.x + mul_div_floor(p2.x - p1.x, j, m),
                    y: p1.y + mul_div_floor(p2.y - p1.y, j, m),
                };
                assert(ip == lerp_point(p1, p2, j as int, nn + 1));
                out_p.push(ip);
                proof {
                    assert(Seq::new((j - 1) as nat, |k: int| lerp_point(p1, p2, k + 1, nn + 1))
                        .push(lerp_point(p1, p2, j as int, nn + 1)) =~= Seq::new(
                        j as nat,
                        |k: int| lerp_point(p1, p2, k + 1, nn + 1),
                    ));
                    assert(out_p@ =~= interp_points_prefix(points@, f, i as int) + seq![p1]
                        + Seq::new(j as nat, |k: int| lerp_point(p1, p2, k + 1, nn + 1)));
                }
                j = j + 1;
            }
            proof {
                assert(Seq::new((j - 1) as nat, |k: int| lerp_point(p1, p2, k + 1, nn + 1))
                    =~= seg_insert_points(points@, f, i as int));
                assert(out_p@ =~= interp_points_prefix(points@, f, i as int + 1));
            }
            i = i + 1;
        }
        out_p.push(points[last]);
        proof {
            assert(out_p@ =~= interp_points_spec(points@, f));
        }
        out_p
    }

    /// Smooth a freehand stroke: resample at fixed spacing, cut corners
    /// twice, then average away residual jitter. The first point is always
    /// kept exactly; strokes below three points pass through unchanged.
    pub fn apply_stroke_smoothing(points: &Vec<Point>) -> (r: Vec<Point>)
        requires
            forall|k: int| 0 <= k < points@.len() ==> point_obj_ok(#[trigger] points@[k]),
        ensures
            r@ == smooth_spec(points@),
            forall|k: int| 0 <= k < r@.len() ==> point_obj_ok(#[trigger] r@[k]),
            points@.len() >= 1 ==> r@.len() >= 1 && r@[0] == points@[0],
    {
        if points.len() < 3 {
            return copy_points_pub(points);
        }
        let mut rs: Vec<Point> = Vec::new();
        rs.push(points[0]);
        let mut acc: i64 = 0;
        let mut i: usize = 1;
        while i < points.len()
            invariant
                1 <= i <= points@.len(),
                points@.len() >= 3,
                forall|k: int| 0 <= k < points@.len() ==> point_obj_ok(#[trigger] points@[k]),
                (rs@, acc as int) == resample_state(points@, i as int - 1),
                0 <= acc < RESAMPLE_SPACING,
                forall|k: int| 0 <= k < rs@.len() ==> point_obj_ok(#[trigger] rs@[k]),
            decreases points@.len() - i,
        {
            let d: i64 = crate::geometry::dist(points[i - 1], points[i]);
            let a: i64 = acc + d;
            if a >= RESAMPLE_SPACING {
                rs.push(points[i]);
                acc = 0;
            } else {
                acc = a;
            }
            i = i + 1;
        }
        assert(rs@ == resample_spec(points@));
        proof {
            lemma_resample_state_wf(points@, points@.len() - 1);
        }
        if rs.len() < 3 {
            return rs;
        }
        let c1: Vec<Point> = chaikin_pass(&rs);
        let c2: Vec<Point> = chaikin_pass(&c1);
        let out: Vec<Point> = moving_average(&c2);
        proof {
            // the first point survives every stage
            assert(c1@[0] == rs@[0]);
            assert(c2@[0] == c1@[0]);
            assert(movavg_spec(c2@)[0] == c2@[0]);
        }
        out
    }
}

/// Element-wise copy of a point vector.
pub fn copy_points_pub(src: &Vec<Point>) -> (r: Vec<Point>)
    ensures
        r@ == src@,
{
    let mut r: Vec<Point> = Vec::new();
    let mut i: usize = 0;
    while i < src.len()
        invariant
            0 <= i <= src@.len(),
            r@ == src@.subrange(0, i as int),
        decreases src@.len() - i,
    {
        r.push(src[i]);
        proof {
            assert(r@ =~= src@.subrange(0, i as int + 1));
        }
        i = i + 1;
    }
    proof {
        assert(r@ =~= src@);
    }
    r
}

/// Element-wise copy of a width vector.
pub fn copy_widths_pub(src: &Vec<i64>) -> (r: Vec<i64>)
    ensures
        r@ == src@,
{
    let mut r: Vec<i64> = Vec::new();
    let mut i: usize = 0;
    while i < src.len()
        invariant
            0 <= i <= src@.len(),
            r@ == src@.subrange(0, i as int),
        decreases src@.len() - i,
    {
        r.push(src[i]);
        proof {
            assert(r@ =~= src@.subrange(0, i as int + 1));
        }
        i = i + 1;
    }
    proof {
        assert(r@ =~= src@);
    }
    r
}

/// One executable round of Chaikin corner cutting.
fn chaikin_pass(pts: &Vec<Point>) -> (r: Vec<Point>)
    requires
        pts@.len() >= 1,
        forall|k: int| 0 <= k < pts@.len() ==> point_obj_ok(#[trigger] pts@[k]),
    ensures
        r@ == chaikin_once(pts@),
        r@.len() == 2 * pts@.len(),
        forall|k: int| 0 <= k < r@.len() ==> point_obj_ok(#[trigger] r@[k]),
{
    let mut out: Vec<Point> = Vec::new();
    out.push(pts[0]);
    let mut i: usize = 0;
    let n: usize = pts.len() - 1;
    while i < n
        invariant
            n == pts@.len() - 1,
            pts@.len() >= 1,
            0 <= i <= n,
            forall|k: int| 0 <= k < pts@.len() ==> point_obj_ok(#[trigger] pts@[k]),
            out@ == seq![pts@[0]] + Seq::new(
                (2 * i) as nat,
                |k: int|
                    if k % 2 == 0 {
                        chaikin_q(pts@[k / 2], pts@[k / 2 + 1])
                    } else {
                        chaikin_r(pts@[k / 2], pts@[k / 2 + 1])
                    },
            ),
            forall|k: int| 0 <= k < out@.len() ==> point_obj_ok(#[trigger] out@[k]),
        decreases n - i,
    {
        let p0: Point = pts[i];
        let p1: Point = pts[i + 1];
        let qx: i64 = mul_div_floor(3 * p0.x + p1.x, 1, 4);
        let qy: i64 = mul_div_floor(3 * p0.y + p1.y, 1, 4);
        let rx: i64 = mul_div_floor(p0.x + 3 * p1.x, 1, 4);
        let ry: i64 = mul_div_floor(p0.y + 3 * p1.y, 1, 4);
        proof {
            lemma_div_range((3 * p0.x + p1.x) as int, -(OBJ_LIMIT as int), OBJ_LIMIT as int, 4);
            lemma_div_range((3 * p0.y + p1.y) as int, -(OBJ_LIMIT as int), OBJ_LIMIT as int, 4);
            lemma_div_range((p0.x + 3 * p1.x) as int, -(OBJ_LIMIT as int), OBJ_LIMIT as int, 4);
            lemma_div_range((p0.y + 3 * p1.y) as int, -(OBJ_LIMIT as int), OBJ_LIMIT as int, 4);
        }
        let q = Point { x: qx, y: qy };
        let rr = Point { x: rx, y: ry };
        assert(q == chaikin_q(pts@[i as int], pts@[i as int + 1]));
        assert(rr == chaikin_r(pts@[i as int], pts@[i as int + 1]));
        out.push(q);
        out.push(rr);
        proof {
            assert(out@ =~= seq![pts@[0]] + Seq::new(
                (2 * (i + 1)) as nat,
                |k: int|
                    if k % 2 == 0 {
                        chaikin_q(pts@[k / 2], pts@[k / 2 + 1])
                    } else {
                        chaikin_r(pts@[k / 2], pts@[k / 2 + 1])
                    },
            ));
        }
        i = i + 1;
    }
    out.push(pts[pts.len() - 1]);
    proof {
        assert(out@ =~= chaikin_once(pts@));
    }
    out
}

/// Executable three-point moving average over interior points.
fn moving_average(pts: &Vec<Point>) -> (r: Vec<Point>)
    requires
        forall|k: int| 0 <= k < pts@.len() ==> point_obj_ok(#[trigger] pts@[k]),
    ensures
        r@ == movavg_spec(pts@),
        forall|k: int| 0 <= k < r@.len() ==> point_obj_ok(#[trigger] r@[k]),
{
    let mut out: Vec<Point> = Vec::new();
    let mut i: usize = 0;
    while i < pts.len()
        invariant
            0 <= i <= pts@.len(),
            forall|k: int| 0 <= k < pts@.len() ==> point_obj_ok(#[trigger] pts@[k]),
            out@.len() == i,
            forall|k: int| 0 <= k < i ==> out@[k] == movavg_spec(pts@)[k],
            forall|k: int| 0 <= k < out@.len() ==> point_obj_ok(#[trigger] out@[k]),
        decreases pts@.len() - i,
    {
        if i >= 1 && i + 1 < pts.len() {
            let ax: i64 = mul_div_floor(pts[i - 1].x + pts[i].x + pts[i + 1].x, 1, 3);
            let ay: i64 = mul_div_floor(pts[i - 1].y + pts[i].y + pts[i + 1].y, 1, 3);
            proof {
                lemma_div_range(
                    (pts@[i as int - 1].x + pts@[i as int].x + pts@[i as int + 1].x) as int,
                    -(3 * OBJ_LIMIT as int),
                    3 * OBJ_LIMIT as int,
                    3,
                );
                lemma_div_range(
                    (pts@[i as int - 1].y + pts@[i as int].y + pts@[i as int + 1].y) as int,
                    -(3 * OBJ_LIMIT as int),
                    3 * OBJ_LIMIT as int,
                    3,
                );
                lemma_div_range(
                    (pts@[i as int - 1].x + pts@[i as int].x + pts@[i as int + 1].x) as int,
                    -(OBJ_LIMIT as int),
                    OBJ_LIMIT as int,
                    3,
                );
                lemma_div_range(
                    (pts@[i as int - 1].y + pts@[i as int].y + pts@[i as int + 1].y) as int,
                    -(OBJ_LIMIT as int),
                    OBJ_LIMIT as int,
                    3,
                );
            }
            out.push(Point { x: ax, y: ay });
        } else {
            out.push(pts[i]);
        }
        i = i + 1;
    }
    proof {
        assert(out@ =~= movavg_spec(pts@));
    }
    out
}

} // verus!
