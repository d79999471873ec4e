//! The pointer-driven interaction engine.
//!
//! One frame hands the engine pointer events; depending on the current
//! tool they select, move, resize or rotate objects, erase, or extend the
//! active ink stroke. Every transition is a total function of the state
//! and the event, with its effect stated exactly in its contract.

use vstd::prelude::*;
use crate::geometry::{
    Point, Rect, point_ok, sq, dist_sq_spec, dist_spec, dist_sq, dist, within_radius,
    mul_div_floor, OBJ_LIMIT, seg_within_half_spec, segment_within_half,
};
use crate::state::{
    AppState, ActiveStroke, CanvasObject, CanvasStroke, CanvasImage, CanvasText, CanvasShape,
    Color, ResizeAnchor, ResizeOperation, RotationOperation, CanvasTool, DynamicBrushWidthMode,
    state_wf, object_wf, stroke_wf, image_wf, text_wf, shape_wf, active_stroke_wf, point_obj_ok,
    coord_obj_ok, width_ok, WIDTH_LIMIT, ROT_LIMIT, resize_op_wf, rotation_op_wf,
};
use crate::utils::{AppUtils, stroke_hit_spec, shape_bbox_spec};

verus! {

/// Hit radius around a resize or rotation anchor, in milli-pixels.
pub const ANCHOR_RADIUS: i64 = 15_000;

/// How far above the box's top edge the rotation anchor sits.
pub const ROTATION_ANCHOR_DISTANCE: i64 = 30_000;

/// Tolerance used when selecting strokes with the pointer.
pub const SELECT_STROKE_TOLERANCE: i64 = 10_000;

/// A pointer event's phase within a gesture.
#[derive(Clone, Copy, PartialEq, Eq, Structural, Debug)]
pub enum PointerPhase {
    /// A drag gesture begins at this position.
    DragStart,
    /// The pointer moved while dragging.
    Drag,
    /// The drag gesture ended.
    DragStop,
    /// A press and release without movement.
    Click,
    /// The pointer is over the canvas without starting a gesture.
    Hover,
}

// ---------------------------------------------------------------------------
// Object hit boxes.
// ---------------------------------------------------------------------------

/// The hit/selection rectangle of an object, if it has one: images and
/// texts use their placement box, shapes their unrotated bounding box;
/// strokes have none and are hit by proximity instead.
pub open spec fn object_rect_spec(o: CanvasObject) -> Option<Rect> {
    match o {
        CanvasObject::Image(img) => Some(
            Rect {
                min: img.pos,
                max: Point {
                    x: (img.pos.x + img.size.x) as i64,
                    y: (img.pos.y + img.size.y) as i64,
                },
            },
        ),
        CanvasObject::Text(t) => Some(
            Rect {
                min: t.pos,
                max: Point { x: (t.pos.x + t.size.x) as i64, y: (t.pos.y + t.size.y) as i64 },
            },
        ),
        CanvasObject::Shape(s) => Some(shape_bbox_spec(s)),
        CanvasObject::Stroke(_) => None,
    }
}

/// Whether the pointer hits the object: inside its rectangle, or within
/// `stroke_tol/2 + width/2` of a stroke segment.
#[verifier::opaque]
pub open spec fn object_hit_spec(o: CanvasObject, pos: Point, stroke_tol: int) -> bool {
    match o {
        CanvasObject::Stroke(s) => stroke_hit_spec(pos, s, stroke_tol),
        _ => object_rect_spec(o)->Some_0.contains_spec(pos),
    }
}

/// The topmost (highest index below `i`) object hit by the pointer, with
/// stroke tolerance `stroke_tol`.
pub open spec fn topmost_hit_from(
    objs: Seq<CanvasObject>,
    pos: Point,
    stroke_tol: int,
    i: int,
) -> Option<int>
    decreases i,
{
    if i <= 0 {
        None
    } else if object_hit_spec(objs[i - 1], pos, stroke_tol) {
        Some(i - 1)
    } else {
        topmost_hit_from(objs, pos, stroke_tol, i - 1)
    }
}

/// Whether the press-time clearing test hits this object: inside an
/// image box, or near a stroke; texts and shapes do not count.
pub open spec fn sel_clear_hit(o: CanvasObject, pos: Point) -> bool {
    match o {
        CanvasObject::Image(img) => object_rect_spec(o)->Some_0.contains_spec(pos),
        CanvasObject::Stroke(s) => stroke_hit_spec(pos, s, SELECT_STROKE_TOLERANCE as int),
        _ => false,
    }
}

/// Whether the pointer is over some image box or within selection
/// tolerance of some stroke (the test that may clear the selection).
#[verifier::opaque]
pub open spec fn image_or_stroke_hit_spec(objs: Seq<CanvasObject>, pos: Point) -> bool {
    exists|i: int| 0 <= i < objs.len() && sel_clear_hit(#[trigger] objs[i], pos)
}

/// The hit/selection rectangle of an object, if it has one.
pub fn object_rect(o: &CanvasObject) -> (r: Option<Rect>)
    requires
        object_wf(*o),
    ensures
        r == object_rect_spec(*o),
        r is Some ==> point_ok(r->Some_0.min) && point_ok(r->Some_0.max),
        r is Some ==> -85_000_000 <= r->Some_0.min.x <= 85_000_000 && -85_000_000
            <= r->Some_0.min.y <= 85_000_000 && -85_000_000 <= r->Some_0.max.x <= 85_000_000
            && -85_000_000 <= r->Some_0.max.y <= 85_000_000,
{
    match o {
        CanvasObject::Image(img) => Some(
            Rect {
                min: img.pos,
                max: Point { x: img.pos.x + img.size.x, y: img.pos.y + img.size.y },
            },
        ),
        CanvasObject::Text(t) => Some(
            Rect { min: t.pos, max: Point { x: t.pos.x + t.size.x, y: t.pos.y + t.size.y } },
        ),
        CanvasObject::Shape(s) => Some(AppUtils::calculate_shape_bounding_box(s)),
        CanvasObject::Stroke(_) => None,
    }
}

/// Whether the pointer hits the object.
pub fn object_hit(o: &CanvasObject, pos: Point, stroke_tol: i64) -> (hit: bool)
    requires
        object_wf(*o),
        point_obj_ok(pos),
        0 <= stroke_tol <= 1_000_000,
    ensures
        hit == object_hit_spec(*o, pos, stroke_tol as int),
{
    proof {
        reveal(object_hit_spec);
    }
    match o {
        CanvasObject::Stroke(s) => AppUtils::point_intersects_stroke(pos, s, stroke_tol),
        _ => {
            let r = object_rect(o);
            match r {
                Some(rect) => rect.contains(pos),
                None => false,
            }
        },
    }
}

/// The topmost object hit by the pointer, scanning back to front.
pub fn topmost_hit(objs: &Vec<CanvasObject>, pos: Point, stroke_tol: i64) -> (r: Option<usize>)
    requires
        forall|i: int| 0 <= i < objs@.len() ==> object_wf(#[trigger] objs@[i]),
        point_obj_ok(pos),
        0 <= stroke_tol <= 1_000_000,
    ensures
        match r {
            Some(u) => topmost_hit_from(objs@, pos, stroke_tol as int, objs@.len() as int)
                == Some(u as int),
            None => topmost_hit_from(objs@, pos, stroke_tol as int, objs@.len() as int)
                is None,
        },
{
    let mut i: usize = objs.len();
    while i > 0
        invariant
            0 <= i <= objs@.len(),
            forall|k: int| 0 <= k < objs@.len() ==> object_wf(#[trigger] objs@[k]),
            point_obj_ok(pos),
            0 <= stroke_tol <= 1_000_000,
            topmost_hit_from(objs@, pos, stroke_tol as int, objs@.len() as int)
                == topmost_hit_from(objs@, pos, stroke_tol as int, i as int),
        decreases i,
    {
        if object_hit(&objs[i - 1], pos, stroke_tol) {
            return Some(i - 1);
        }
        i = i - 1;
    }
    None
}

/// Whether the pointer is over some image box or near some stroke.
pub fn image_or_stroke_hit(objs: &Vec<CanvasObject>, pos: Point) -> (hit: bool)
    requires
        forall|i: int| 0 <= i < objs@.len() ==> object_wf(#[trigger] objs@[i]),
        point_obj_ok(pos),
    ensures
        hit == image_or_stroke_hit_spec(objs@, pos),
{
    let mut i: usize = 0;
    while i < objs.len()
        invariant
            0 <= i <= objs@.len(),
            forall|k: int| 0 <= k < objs@.len() ==> object_wf(#[trigger] objs@[k]),
            point_obj_ok(pos),
            forall|k: int| 0 <= k < i ==> !sel_clear_hit(#[trigger] objs@[k], pos),
        decreases objs@.len() - i,
    {
        let hit_here: bool = match &objs[i] {
            CanvasObject::Image(_) => {
                let r = object_rect(&objs[i]);
                match r {
                    Some(rect) => rect.contains(pos),
                    None => false,
                }
            },
            CanvasObject::Stroke(s) => AppUtils::point_intersects_stroke(
                pos,
                s,
                SELECT_STROKE_TOLERANCE,
            ),
            _ => false,
        };
        assert(hit_here == sel_clear_hit(objs@[i as int], pos));
        if hit_here {
            proof {
                reveal(image_or_stroke_hit_spec);
            }
            return true;
        }
        i = i + 1;
    }
    proof {
        reveal(image_or_stroke_hit_spec);
    }
    false
}

// ---------------------------------------------------------------------------
// Anchors.
// ---------------------------------------------------------------------------

/// The horizontal center of a rectangle (floored).
pub open spec fn rect_center_x(r: Rect) -> int {
    (r.min.x + r.max.x) / 2
}

/// The vertical center of a rectangle (floored).
pub open spec fn rect_center_y(r: Rect) -> int {
    (r.min.y + r.max.y) / 2
}

/// Where a resize anchor sits on the rectangle.
pub open spec fn anchor_pos_spec(r: Rect, a: ResizeAnchor) -> Point {
    match a {
        ResizeAnchor::TopLeft => r.min,
        ResizeAnchor::TopRight => Point { x: r.max.x, y: r.min.y },
        ResizeAnchor::BottomLeft => Point { x: r.min.x, y: r.max.y },
        ResizeAnchor::BottomRight => r.max,
        ResizeAnchor::Top => Point { x: rect_center_x(r) as i64, y: r.min.y },
        ResizeAnchor::Bottom => Point { x: rect_center_x(r) as i64, y: r.max.y },
        ResizeAnchor::Left => Point { x: r.min.x, y: rect_center_y(r) as i64 },
        ResizeAnchor::Right => Point { x: r.max.x, y: rect_center_y(r) as i64 },
    }
}

/// Where the rotation anchor sits: above the box's top center.
pub open spec fn rotation_anchor_pos_spec(r: Rect) -> Point {
    Point { x: rect_center_x(r) as i64, y: (r.min.y - ROTATION_ANCHOR_DISTANCE) as i64 }
}

/// Whether the pointer is within the anchor hit radius of a point.
pub open spec fn near_spec(pos: Point, p: Point) -> bool {
    dist_sq_spec(pos, p) <= sq(ANCHOR_RADIUS as int)
}

/// The first resize anchor (corners first, then edge midpoints) whose
/// position is within the hit radius of the pointer.
#[verifier::opaque]
pub open spec fn hovered_anchor_spec(r: Rect, pos: Point) -> Option<ResizeAnchor> {
    if near_spec(pos, anchor_pos_spec(r, ResizeAnchor::TopLeft)) {
        Some(ResizeAnchor::TopLeft)
    } else if near_spec(pos, anchor_pos_spec(r, ResizeAnchor::TopRight)) {
        Some(ResizeAnchor::TopRight)
    } else if near_spec(pos, anchor_pos_spec(r, ResizeAnchor::BottomLeft)) {
        Some(ResizeAnchor::BottomLeft)
    } else if near_spec(pos, anchor_pos_spec(r, ResizeAnchor::BottomRight)) {
        Some(ResizeAnchor::BottomRight)
    } else if near_spec(pos, anchor_pos_spec(r, ResizeAnchor::Top)) {
        Some(ResizeAnchor::Top)
    } else if near_spec(pos, anchor_pos_spec(r, ResizeAnchor::Bottom)) {
        Some(ResizeAnchor::Bottom)
    } else if near_spec(pos, anchor_pos_spec(r, ResizeAnchor::Left)) {
        Some(ResizeAnchor::Left)
    } else if near_spec(pos, anchor_pos_spec(r, ResizeAnchor::Right)) {
        Some(ResizeAnchor::Right)
    } else {
        None
    }
}

/// Whether a rectangle is small enough for anchor arithmetic.
pub open spec fn rect_in_range(r: Rect) -> bool {
    &&& -85_000_000 <= r.min.x <= 85_000_000
    &&& -85_000_000 <= r.min.y <= 85_000_000
    &&& -85_000_000 <= r.max.x <= 85_000_000
    &&& -85_000_000 <= r.max.y <= 85_000_000
}

/// The position of a resize anchor on the rectangle.
pub fn anchor_pos(r: Rect, a: ResizeAnchor) -> (p: Point)
    requires
        rect_in_range(r),
    ensures
        p == anchor_pos_spec(r, a),
        point_ok(p),
{
    let cx: i64 = mul_div_floor(r.min.x + r.max.x, 1, 2);
    let cy: i64 = mul_div_floor(r.min.y + r.max.y, 1, 2);
    proof {
        crate::utils::lemma_center_in_range(r);
    }
    match a {
        ResizeAnchor::TopLeft => r.min,
        ResizeAnchor::TopRight => Point { x: r.max.x, y: r.min.y },
        ResizeAnchor::BottomLeft => Point { x: r.min.x, y: r.max.y },
        ResizeAnchor::BottomRight => r.max,
        ResizeAnchor::Top => Point { x: cx, y: r.min.y },
        ResizeAnchor::Bottom => Point { x: cx, y: r.max.y },
        ResizeAnchor::Left => Point { x: r.min.x, y: cy },
        ResizeAnchor::Right => Point { x: r.max.x, y: cy },
    }
}

/// The position of the rotation anchor above the rectangle.
pub fn rotation_anchor_pos(r: Rect) -> (p: Point)
    requires
        rect_in_range(r),
    ensures
        p == rotation_anchor_pos_spec(r),
        point_ok(p),
{
    let cx: i64 = mul_div_floor(r.min.x + r.max.x, 1, 2);
    proof {
        crate::utils::lemma_center_in_range(r);
    }
    Point { x: cx, y: r.min.y - ROTATION_ANCHOR_DISTANCE }
}

/// The resize anchor under the pointer, if any.
pub fn hovered_anchor(r: Rect, pos: Point) -> (a: Option<ResizeAnchor>)
    requires
        rect_in_range(r),
        point_obj_ok(pos),
    ensures
        a == hovered_anchor_spec(r, pos),
{
    proof {
        reveal(hovered_anchor_spec);
    }
    if within_radius(pos, anchor_pos(r, ResizeAnchor::TopLeft), ANCHOR_RADIUS) {
        Some(ResizeAnchor::TopLeft)
    } else if within_radius(pos, anchor_pos(r, ResizeAnchor::TopRight), ANCHOR_RADIUS) {
        Some(ResizeAnchor::TopRight)
    } else if within_radius(pos, anchor_pos(r, ResizeAnchor::BottomLeft), ANCHOR_RADIUS) {
        Some(ResizeAnchor::BottomLeft)
    } else if within_radius(pos, anchor_pos(r, ResizeAnchor::BottomRight), ANCHOR_RADIUS) {
        Some(ResizeAnchor::BottomRight)
    } else if within_radius(pos, anchor_pos(r, ResizeAnchor::Top), ANCHOR_RADIUS) {
        Some(ResizeAnchor::Top)
    } else if within_radius(pos, anchor_pos(r, ResizeAnchor::Bottom), ANCHOR_RADIUS) {
        Some(ResizeAnchor::Bottom)
    } else if within_radius(pos, anchor_pos(r, ResizeAnchor::Left), ANCHOR_RADIUS) {
        Some(ResizeAnchor::Left)
    } else if within_radius(pos, anchor_pos(r, ResizeAnchor::Right), ANCHOR_RADIUS) {
        Some(ResizeAnchor::Right)
    } else {
        None
    }
}

/// Whether the pointer is on the rotation anchor.
pub fn rotation_anchor_hit(r: Rect, pos: Point) -> (hit: bool)
    requires
        rect_in_range(r),
        point_obj_ok(pos),
    ensures
        hit == near_spec(pos, rotation_anchor_pos_spec(r)),
{
    within_radius(pos, rotation_anchor_pos(r), ANCHOR_RADIUS)
}

// ---------------------------------------------------------------------------
// Resize, rotate, translate.
// ---------------------------------------------------------------------------

/// Smallest box side a resize can reach, matching the drag floor.
pub const MIN_RESIZE_SIZE: i64 = 20_000;

/// Smallest scalar size a shape resize can reach.
pub const MIN_SHAPE_SIZE: i64 = 10_000;

/// Smallest font size a text resize can reach.
pub const MIN_FONT_SIZE: i64 = 8_000;

/// A scalar clamped into `[lo, hi]`.
pub open spec fn clamp_spec(v: int, lo: int, hi: int) -> int {
    if v < lo {
        lo
    } else if v > hi {
        hi
    } else {
        v
    }
}

/// A coordinate clamped into the canvas arena.
pub open spec fn clamp_coord_spec(v: int) -> int {
    clamp_spec(v, -(OBJ_LIMIT as int), OBJ_LIMIT as int)
}

/// A scalar clamped into `[lo, hi]`.
pub fn clamp(v: i64, lo: i64, hi: i64) -> (r: i64)
    requires
        lo <= hi,
    ensures
        r as int == clamp_spec(v as int, lo as int, hi as int),
{
    if v < lo {
        lo
    } else if v > hi {
        hi
    } else {
        v
    }
}

/// The box resize: per anchor, the drag's total delta grows or shrinks the
/// affected sides relative to the snapshot, corners move the origin, and
/// every result is clamped to the size floor and the canvas arena.
#[verifier::opaque]
pub open spec fn resize_box_spec(
    anchor: ResizeAnchor,
    start_pos: Point,
    start_size: Point,
    delta: Point,
) -> (Point, Point) {
    let lim = OBJ_LIMIT as int;
    let sx = start_size.x as int;
    let sy = start_size.y as int;
    let px = start_pos.x as int;
    let py = start_pos.y as int;
    let dx = delta.x as int;
    let dy = delta.y as int;
    let (npx, npy, nsx, nsy): (int, int, int, int) = match anchor {
        ResizeAnchor::TopLeft => (px + dx, py + dy, sx - dx, sy - dy),
        ResizeAnchor::TopRight => (px, py + dy, sx + dx, sy - dy),
        ResizeAnchor::BottomLeft => (px + dx, py, sx - dx, sy + dy),
        ResizeAnchor::BottomRight => (px, py, sx + dx, sy + dy),
        ResizeAnchor::Top => (px, py + dy, sx, sy - dy),
        ResizeAnchor::Bottom => (px, py, sx, sy + dy),
        ResizeAnchor::Left => (px + dx, py, sx - dx, sy),
        ResizeAnchor::Right => (px, py, sx + dx, sy),
    };
    (
        Point { x: clamp_coord_spec(npx) as i64, y: clamp_coord_spec(npy) as i64 },
        Point {
            x: clamp_spec(nsx, MIN_RESIZE_SIZE as int, lim) as i64,
            y: clamp_spec(nsy, MIN_RESIZE_SIZE as int, lim) as i64,
        },
    )
}

/// The aspect-ratio re-lock for images: when the box departs from the
/// ratio captured at load time, the wider axis is pulled back onto it.
/// Skipped for a degenerate ratio or a degenerate current box, as the
/// original guards do.
#[verifier::opaque]
pub open spec fn apply_aspect_spec(size: Point, aw: int, ah: int) -> Point {
    if aw > 0 && ah > 0 && 100 * size.x > size.y {
        if size.x * ah > size.y * aw {
            Point {
                x: clamp_spec(size.y * aw / ah, 0, OBJ_LIMIT as int) as i64,
                y: size.y,
            }
        } else {
            Point {
                x: size.x,
                y: clamp_spec(size.x * ah / aw, 0, OBJ_LIMIT as int) as i64,
            }
        }
    } else {
        size
    }
}

/// The box resize, exactly as `resize_box_spec` describes.
pub fn resize_box(anchor: ResizeAnchor, start_pos: Point, start_size: Point, delta: Point) -> (r:
    (Point, Point))
    requires
        -100_000_000 <= start_pos.x <= 100_000_000,
        -100_000_000 <= start_pos.y <= 100_000_000,
        -200_000_000 <= start_size.x <= 200_000_000,
        -200_000_000 <= start_size.y <= 200_000_000,
        -200_000_000 <= delta.x <= 200_000_000,
        -200_000_000 <= delta.y <= 200_000_000,
    ensures
        r == resize_box_spec(anchor, start_pos, start_size, delta),
        point_obj_ok(r.0),
        0 <= r.1.x <= OBJ_LIMIT,
        0 <= r.1.y <= OBJ_LIMIT,
{
    proof {
        reveal(resize_box_spec);
    }
    let mut npx: i64 = start_pos.x;
    let mut npy: i64 = start_pos.y;
    let mut nsx: i64 = start_size.x;
    let mut nsy: i64 = start_size.y;
    match anchor {
        ResizeAnchor::TopLeft => {
            npx = npx + delta.x;
            npy = npy + delta.y;
            nsx = nsx - delta.x;
            nsy = nsy - delta.y;
        },
        ResizeAnchor::TopRight => {
            npy = npy + delta.y;
            nsx = nsx + delta.x;
            nsy = nsy - delta.y;
        },
        ResizeAnchor::BottomLeft => {
            npx = npx + delta.x;
            nsx = nsx - delta.x;
            nsy = nsy + delta.y;
        },
        ResizeAnchor::BottomRight => {
            nsx = nsx + delta.x;
            nsy = nsy + delta.y;
        },
        ResizeAnchor::Top => {
            npy = npy + delta.y;
            nsy = nsy - delta.y;
        },
        ResizeAnchor::Bottom => {
            nsy = nsy + delta.y;
        },
        ResizeAnchor::Left => {
            npx = npx + delta.x;
            nsx = nsx - delta.x;
        },
        ResizeAnchor::Right => {
            nsx = nsx + delta.x;
        },
    }
    (
        Point { x: clamp(npx, -OBJ_LIMIT, OBJ_LIMIT), y: clamp(npy, -OBJ_LIMIT, OBJ_LIMIT) },
        Point {
            x: clamp(nsx, MIN_RESIZE_SIZE, OBJ_LIMIT),
            y: clamp(nsy, MIN_RESIZE_SIZE, OBJ_LIMIT),
        },
    )
}

/// The aspect-ratio re-lock, exactly as `apply_aspect_spec` describes.
pub fn apply_aspect(size: Point, aw: i64, ah: i64) -> (r: Point)
    requires
        0 <= size.x <= OBJ_LIMIT,
        0 <= size.y <= OBJ_LIMIT,
        0 <= aw <= 1_000_000,
        0 <= ah <= 1_000_000,
    ensures
        r == apply_aspect_spec(size, aw as int, ah as int),
        0 <= r.x <= OBJ_LIMIT,
        0 <= r.y <= OBJ_LIMIT,
{
    proof {
        reveal(apply_aspect_spec);
    }
    if aw > 0 && ah > 0 && 100 * size.x > size.y {
        proof {
            assert(0 <= size.x * ah && size.x * ah <= 40_000_000_000_000
                && 0 <= size.y * aw && size.y * aw <= 40_000_000_000_000)
                by (nonlinear_arith)
                requires
                    0 <= size.x <= 40_000_000,
                    0 <= size.y <= 40_000_000,
                    0 < aw <= 1_000_000,
                    0 < ah <= 1_000_000,
            ;
        }
        let cur: i64 = size.x * ah;
        let tgt: i64 = size.y * aw;
        if cur > tgt {
            let nx: u64 = (tgt as u64) / (ah as u64);
            let nxc: i64 = clamp(nx as i64, 0, OBJ_LIMIT);
            proof {
                vstd::arithmetic::div_mod::lemma_div_pos_is_pos(tgt as int, ah as int);
            }
            Point { x: nxc, y: size.y }
        } else {
            let ny: u64 = (cur as u64) / (aw as u64);
            let nyc: i64 = clamp(ny as i64, 0, OBJ_LIMIT);
            proof {
                vstd::arithmetic::div_mod::lemma_div_pos_is_pos(cur as int, aw as int);
            }
            Point { x: size.x, y: nyc }
        }
    } else {
        size
    }
}

/// Resizing from the top-left anchor leaves the bottom-right corner of
/// the snapshot box exactly fixed, whenever the drag keeps both sides
/// above the size floor and the box inside the arena.
pub proof fn lemma_resize_top_left_fixes_bottom_right(
    start_pos: Point,
    start_size: Point,
    delta: Point,
)
    requires
        MIN_RESIZE_SIZE as int <= start_size.x - delta.x <= OBJ_LIMIT as int,
        MIN_RESIZE_SIZE as int <= start_size.y - delta.y <= OBJ_LIMIT as int,
        -(OBJ_LIMIT as int) <= start_pos.x + delta.x <= OBJ_LIMIT as int,
        -(OBJ_LIMIT as int) <= start_pos.y + delta.y <= OBJ_LIMIT as int,
    ensures
        ({
            let (np, ns) = resize_box_spec(ResizeAnchor::TopLeft, start_pos, start_size, delta);
            np.x + ns.x == start_pos.x + start_size.x && np.y + ns.y == start_pos.y + start_size.y
        }),
{
    reveal(resize_box_spec);
}

/// The new scalar size of a shape under a resize drag: opposite-corner
/// anchors add the horizontal delta, the other corner pair subtracts it,
/// vertical edges use the vertical delta.
#[verifier::opaque]
pub open spec fn shape_resize_size_spec(
    anchor: ResizeAnchor,
    start_size: Point,
    delta: Point,
) -> int {
    let raw: int = match anchor {
        ResizeAnchor::TopLeft | ResizeAnchor::BottomRight => start_size.x + delta.x,
        ResizeAnchor::TopRight | ResizeAnchor::BottomLeft => start_size.x - delta.x,
        ResizeAnchor::Top | ResizeAnchor::Bottom => start_size.y + delta.y,
        ResizeAnchor::Left | ResizeAnchor::Right => start_size.x + delta.x,
    };
    clamp_spec(raw, MIN_SHAPE_SIZE as int, OBJ_LIMIT as int)
}

/// The new scalar size of a shape under a resize drag.
pub fn shape_resize_size(anchor: ResizeAnchor, start_size: Point, delta: Point) -> (r: i64)
    requires
        -200_000_000 <= start_size.x <= 200_000_000,
        -200_000_000 <= start_size.y <= 200_000_000,
        -200_000_000 <= delta.x <= 200_000_000,
        -200_000_000 <= delta.y <= 200_000_000,
    ensures
        r as int == shape_resize_size_spec(anchor, start_size, delta),
        MIN_SHAPE_SIZE <= r <= OBJ_LIMIT,
{
    proof {
        reveal(shape_resize_size_spec);
    }
    let raw: i64 = match anchor {
        ResizeAnchor::TopLeft | ResizeAnchor::BottomRight => start_size.x + delta.x,
        ResizeAnchor::TopRight | ResizeAnchor::BottomLeft => start_size.x - delta.x,
        ResizeAnchor::Top | ResizeAnchor::Bottom => start_size.y + delta.y,
        ResizeAnchor::Left | ResizeAnchor::Right => start_size.x + delta.x,
    };
    clamp(raw, MIN_SHAPE_SIZE, OBJ_LIMIT)
}

// ---------------------------------------------------------------------------
// Rotation angles.
// ---------------------------------------------------------------------------

/// Milli-radian arctangent of `n/d` for `0 <= n <= d`, by the standard
/// first-octant polynomial approximation.
#[verifier::opaque]
pub open spec fn atan_frac_spec(n: int, d: int) -> int {
    let z = 1000 * n / d;
    z * (785_000 + 273 * (1000 - z)) / 1_000_000
}

/// Milli-radian two-argument arctangent: the angle of the vector `(x, y)`
/// in `[-3142, 3142]`, zero for the zero vector.
#[verifier::opaque]
pub open spec fn atan2_milli_spec(y: int, x: int) -> int {
    let ax = if x >= 0 { x } else { -x };
    let ay = if y >= 0 { y } else { -y };
    if ax == 0 && ay == 0 {
        0
    } else {
        let q = if ay <= ax {
            atan_frac_spec(ay, ax)
        } else {
            1571 - atan_frac_spec(ax, ay)
        };
        if x >= 0 && y >= 0 {
            q
        } else if x < 0 && y >= 0 {
            3142 - q
        } else if x < 0 {
            -(3142 - q)
        } else {
            -q
        }
    }
}

/// First-octant arctangent in milli-radians.
fn atan_frac(n: i64, d: i64) -> (r: i64)
    requires
        0 <= n <= d,
        0 < d <= 400_000_000,
    ensures
        r as int == atan_frac_spec(n as int, d as int),
        0 <= r <= 1058,
{
    proof {
        reveal(atan_frac_spec);
    }
    proof {
        assert(1000 * (n as int) <= 1000 * (d as int) && 0 <= 1000 * (n as int))
            by (nonlinear_arith)
            requires
                0 <= n <= d,
        ;
        crate::utils::lemma_div_range(1000 * (n as int), 0, 1000, d as int);
    }
    let z: u64 = (1000 * (n as u64)) / (d as u64);
    let inner: u64 = 785_000 + 273 * (1000 - z);
    proof {
        assert((z as int) * (inner as int) <= 1_058_000_000 && 0 <= (z as int) * (inner as int))
            by (nonlinear_arith)
            requires
                0 <= z <= 1000,
                inner as int == 785_000 + 273 * (1000 - z as int),
        ;
        crate::utils::lemma_div_range((z as int) * (inner as int), 0, 1058, 1_000_000);
    }
    let r: u64 = (z * inner) / 1_000_000;
    r as i64
}

/// Milli-radian two-argument arctangent.
pub fn atan2_milli(y: i64, x: i64) -> (r: i64)
    requires
        -400_000_000 <= y <= 400_000_000,
        -400_000_000 <= x <= 400_000_000,
    ensures
        r as int == atan2_milli_spec(y as int, x as int),
        -3142 <= r <= 3142,
{
    proof {
        reveal(atan2_milli_spec);
    }
    let ax: i64 = if x >= 0 {
        x
    } else {
        -x
    };
    let ay: i64 = if y >= 0 {
        y
    } else {
        -y
    };
    if ax == 0 && ay == 0 {
        return 0;
    }
    let q: i64 = if ay <= ax {
        atan_frac(ay, ax)
    } else {
        1571 - atan_frac(ax, ay)
    };
    if x >= 0 && y >= 0 {
        q
    } else if x < 0 && y >= 0 {
        3142 - q
    } else if x < 0 {
        -(3142 - q)
    } else {
        -q
    }
}

/// The rotation a drag to `pos` produces: the snapshot angle plus the
/// angle swept between the drag start and the pointer around the center.
#[verifier::opaque]
pub open spec fn rotation_angle_spec(op: RotationOperation, pos: Point) -> int {
    let cur = atan2_milli_spec(pos.y - op.center.y, pos.x - op.center.x);
    let start = atan2_milli_spec(op.start_pos.y - op.center.y, op.start_pos.x - op.center.x);
    clamp_spec(op.start_angle + (cur - start), -(ROT_LIMIT as int), ROT_LIMIT as int)
}

/// The rotation a drag to `pos` produces.
pub fn rotation_angle(op: RotationOperation, pos: Point) -> (r: i64)
    requires
        point_obj_ok(pos),
        -100_000_000 <= op.center.x <= 100_000_000,
        -100_000_000 <= op.center.y <= 100_000_000,
        point_obj_ok(op.start_pos),
        -ROT_LIMIT <= op.start_angle <= ROT_LIMIT,
    ensures
        r as int == rotation_angle_spec(op, pos),
        -ROT_LIMIT <= r <= ROT_LIMIT,
{
    proof {
        reveal(rotation_angle_spec);
    }
    let cur: i64 = atan2_milli(pos.y - op.center.y, pos.x - op.center.x);
    let start: i64 = atan2_milli(op.start_pos.y - op.center.y, op.start_pos.x - op.center.x);
    clamp(op.start_angle + (cur - start), -ROT_LIMIT, ROT_LIMIT)
}

// ---------------------------------------------------------------------------
// Translation.
// ---------------------------------------------------------------------------

/// A point translated by a delta, clamped into the canvas arena.
pub open spec fn translate_point_spec(p: Point, d: Point) -> Point {
    Point { x: clamp_coord_spec(p.x + d.x) as i64, y: clamp_coord_spec(p.y + d.y) as i64 }
}

/// `r` is `o` translated by `d`: position fields move (clamped into the
/// arena), stroke points move point by point, everything else is kept.
pub open spec fn is_translated_object(o: CanvasObject, d: Point, r: CanvasObject) -> bool {
    match o {
        CanvasObject::Image(a) => r matches CanvasObject::Image(b) && b.pos
            == translate_point_spec(a.pos, d) && b.size == a.size && b.texture == a.texture
            && b.aspect_w == a.aspect_w && b.aspect_h == a.aspect_h && b.marked_for_deletion
            == a.marked_for_deletion,
        CanvasObject::Text(a) => r matches CanvasObject::Text(b) && b.pos
            == translate_point_spec(a.pos, d) && b.text == a.text && b.color == a.color
            && b.font_size == a.font_size && b.size == a.size,
        CanvasObject::Shape(a) => r matches CanvasObject::Shape(b) && b.pos
            == translate_point_spec(a.pos, d) && b.shape_type == a.shape_type && b.size == a.size
            && b.color == a.color && b.rotation == a.rotation,
        CanvasObject::Stroke(a) => r matches CanvasObject::Stroke(b) && b.points@
            == a.points@.map_values(|p: Point| translate_point_spec(p, d)) && b.widths@
            == a.widths@ && b.color == a.color && b.base_width == a.base_width,
    }
}

/// A point translated by a delta, clamped into the canvas arena.
pub fn translate_point(p: Point, d: Point) -> (r: Point)
    requires
        point_obj_ok(p),
        -200_000_000 <= d.x <= 200_000_000,
        -200_000_000 <= d.y <= 200_000_000,
    ensures
        r == translate_point_spec(p, d),
        point_obj_ok(r),
{
    Point {
        x: clamp(p.x + d.x, -OBJ_LIMIT, OBJ_LIMIT),
        y: clamp(p.y + d.y, -OBJ_LIMIT, OBJ_LIMIT),
    }
}

/// An object translated by a delta.
pub fn translate_object(o: CanvasObject, d: Point) -> (r: CanvasObject)
    requires
        object_wf(o),
        -200_000_000 <= d.x <= 200_000_000,
        -200_000_000 <= d.y <= 200_000_000,
    ensures
        is_translated_object(o, d, r),
        object_wf(r),
{
    match o {
        CanvasObject::Image(a) => CanvasObject::Image(
            CanvasImage { pos: translate_point(a.pos, d), ..a },
        ),
        CanvasObject::Text(a) => CanvasObject::Text(
            CanvasText { pos: translate_point(a.pos, d), ..a },
        ),
        CanvasObject::Shape(a) => CanvasObject::Shape(
            CanvasShape { pos: translate_point(a.pos, d), ..a },
        ),
        CanvasObject::Stroke(a) => {
            let mut pts: Vec<Point> = Vec::new();
            let mut i: usize = 0;
            while i < a.points.len()
                invariant
                    0 <= i <= a.points@.len(),
                    stroke_wf(a),
                    -200_000_000 <= d.x <= 200_000_000,
                    -200_000_000 <= d.y <= 200_000_000,
                    pts@ == a.points@.subrange(0, i as int).map_values(
                        |p: Point| translate_point_spec(p, d),
                    ),
                    forall|k: int| 0 <= k < pts@.len() ==> point_obj_ok(#[trigger] pts@[k]),
                decreases a.points@.len() - i,
            {
                pts.push(translate_point(a.points[i], d));
                proof {
                    assert(pts@ =~= a.points@.subrange(0, i as int + 1).map_values(
                        |p: Point| translate_point_spec(p, d),
                    ));
                }
                i = i + 1;
            }
            proof {
                assert(a.points@.subrange(0, a.points@.len() as int) =~= a.points@);
            }
            CanvasObject::Stroke(CanvasStroke { points: pts, ..a })
        },
    }
}

// ---------------------------------------------------------------------------
// State transitions: the Select tool.
// ---------------------------------------------------------------------------

/// The selection index as a mathematical option.
pub open spec fn opt_idx(o: Option<usize>) -> Option<int> {
    match o {
        Some(u) => Some(u as int),
        None => None,
    }
}

/// The rotation snapshot a press on the rotation anchor creates: the
/// object's current rotation for shapes, zero otherwise, around the box
/// center.
pub open spec fn rotation_op_for(obj: CanvasObject, r: Rect, pos: Point) -> RotationOperation {
    RotationOperation {
        start_pos: pos,
        start_angle: match obj {
            CanvasObject::Shape(s) => s.rotation,
            _ => 0,
        },
        center: Point { x: rect_center_x(r) as i64, y: rect_center_y(r) as i64 },
    }
}

/// Everything outside the canvas, the ink and the interaction fields is
/// unchanged between two states (tool and brush color are stated
/// separately by the few transitions that touch them).
pub open spec fn eq_config(a: AppState, b: AppState) -> bool {
    &&& a.brush_width == b.brush_width
    &&& a.dynamic_brush_width_mode == b.dynamic_brush_width_mode
    &&& a.stroke_smoothing == b.stroke_smoothing
    &&& a.interpolation_frequency == b.interpolation_frequency
    &&& a.eraser_size == b.eraser_size
    &&& a.background_color == b.background_color
    &&& a.show_size_preview == b.show_size_preview
    &&& a.show_text_dialog == b.show_text_dialog
    &&& a.new_text_content@ == b.new_text_content@
    &&& a.show_shape_dialog == b.show_shape_dialog
    &&& a.show_fps == b.show_fps
    &&& a.fps_counter == b.fps_counter
    &&& a.touch_points@ == b.touch_points@
    &&& a.window_mode == b.window_mode
    &&& a.keep_insertion_window_open == b.keep_insertion_window_open
    &&& a.quick_colors@ == b.quick_colors@
    &&& a.show_quick_color_editor == b.show_quick_color_editor
    &&& a.new_quick_color == b.new_quick_color
    &&& a.show_touch_points == b.show_touch_points
    &&& a.theme_mode == b.theme_mode
    &&& a.render_update_mode == b.render_update_mode
}

/// The selection, drag origin, hovered anchors and transform snapshots
/// are unchanged between two states.
pub open spec fn eq_interaction(a: AppState, b: AppState) -> bool {
    &&& a.selected_object == b.selected_object
    &&& a.drag_start_pos == b.drag_start_pos
    &&& a.resize_anchor_hovered == b.resize_anchor_hovered
    &&& a.rotation_anchor_hovered == b.rotation_anchor_hovered
    &&& a.resize_operation == b.resize_operation
    &&& a.rotation_operation == b.rotation_operation
}

/// The ink state (active strokes and the drawing flag) is unchanged.
pub open spec fn eq_ink(a: AppState, b: AppState) -> bool {
    &&& a.active_strokes@ == b.active_strokes@
    &&& a.is_drawing == b.is_drawing
}

/// The selection that survives the press-time hit test: kept only when
/// the pointer is over some image box or near some stroke.
#[verifier::opaque]
pub open spec fn press_selection_after_clear(s: AppState, pos: Point) -> Option<usize> {
    if image_or_stroke_hit_spec(s.canvas_objects@, pos) {
        s.selected_object
    } else {
        None
    }
}

/// The hit rectangle of the object a selection refers to, if the index is
/// live and the object has one.
#[verifier::opaque]
pub open spec fn sel_rect(objs: Seq<CanvasObject>, sel: Option<usize>) -> Option<Rect> {
    match sel {
        Some(i) => if (i as int) < objs.len() {
            object_rect_spec(objs[i as int])
        } else {
            None
        },
        None => None,
    }
}

/// The resize anchor the pointer hovers for the given selection.
#[verifier::opaque]
pub open spec fn hover_anchor_for(
    objs: Seq<CanvasObject>,
    sel: Option<usize>,
    pos: Point,
) -> Option<ResizeAnchor> {
    match sel_rect(objs, sel) {
        Some(r) => hovered_anchor_spec(r, pos),
        None => None,
    }
}

/// Whether the pointer hovers the rotation anchor for the given selection.
#[verifier::opaque]
pub open spec fn hover_rot_for(objs: Seq<CanvasObject>, sel: Option<usize>, pos: Point) -> bool {
    match sel_rect(objs, sel) {
        Some(r) => near_spec(pos, rotation_anchor_pos_spec(r)),
        None => false,
    }
}

/// Recompute the hovered anchors for the current selection (the Select
/// tool's hover feedback); nothing else changes.
pub fn select_hover(state: &mut AppState, pos: Point)
    requires
        state_wf(*old(state)),
        point_obj_ok(pos),
    ensures
        state_wf(*final(state)),
        eq_config(*old(state), *final(state)),
        eq_ink(*old(state), *final(state)),
        final(state).canvas_objects@ == old(state).canvas_objects@,
        final(state).current_tool == old(state).current_tool,
        final(state).brush_color == old(state).brush_color,
        final(state).selected_object == old(state).selected_object,
        final(state).drag_start_pos == old(state).drag_start_pos,
        final(state).resize_operation == old(state).resize_operation,
        final(state).rotation_operation == old(state).rotation_operation,
        final(state).resize_anchor_hovered == hover_anchor_for(
            old(state).canvas_objects@,
            old(state).selected_object,
            pos,
        ),
        final(state).rotation_anchor_hovered == hover_rot_for(
            old(state).canvas_objects@,
            old(state).selected_object,
            pos,
        ),
{
    let mut ha: Option<ResizeAnchor> = None;
    let mut hr: bool = false;
    match state.selected_object {
        Some(idx) => {
            if idx < state.canvas_objects.len() {
                let r = object_rect(&state.canvas_objects[idx]);
                match r {
                    Some(rect) => {
                        ha = hovered_anchor(rect, pos);
                        hr = rotation_anchor_hit(rect, pos);
                    },
                    None => {},
                }
            }
        },
        None => {},
    }
    assert(ha == hover_anchor_for(old(state).canvas_objects@, old(state).selected_object, pos))
        by {
        reveal(sel_rect);
        reveal(hover_anchor_for);
    };
    assert(hr == hover_rot_for(old(state).canvas_objects@, old(state).selected_object, pos)) by {
        reveal(sel_rect);
        reveal(hover_rot_for);
    };
    state.resize_anchor_hovered = ha;
    state.rotation_anchor_hovered = hr;
}

/// A press with the Select tool: record the drag origin, re-run the
/// image/stroke hit test (possibly clearing the selection), then either
/// start a resize or rotation from a hovered anchor, keep the selection
/// for an implicit move, drop it when the press lands outside the box, or
/// select the topmost object under the pointer when nothing was selected.
#[verifier::rlimit(100)]
#[verifier::spinoff_prover]
pub fn select_press(state: &mut AppState, pos: Point)
    requires
        state_wf(*old(state)),
        point_obj_ok(pos),
    ensures
        state_wf(*final(state)),
        eq_config(*old(state), *final(state)),
        eq_ink(*old(state), *final(state)),
        final(state).canvas_objects@ == old(state).canvas_objects@,
        final(state).current_tool == old(state).current_tool,
        final(state).brush_color == old(state).brush_color,
        final(state).drag_start_pos == Some(pos),
        final(state).resize_anchor_hovered == hover_anchor_for(
            old(state).canvas_objects@,
            press_selection_after_clear(*old(state), pos),
            pos,
        ),
        final(state).rotation_anchor_hovered == hover_rot_for(
            old(state).canvas_objects@,
            press_selection_after_clear(*old(state), pos),
            pos,
        ),
        ({
            let objs = old(state).canvas_objects@;
            let s1 = press_selection_after_clear(*old(state), pos);
            sel_rect(objs, s1) is Some && hover_anchor_for(objs, s1, pos) is Some
        }) ==> ({
            let objs = old(state).canvas_objects@;
            let s1 = press_selection_after_clear(*old(state), pos);
            let r = sel_rect(objs, s1)->Some_0;
            &&& final(state).selected_object == s1
            &&& final(state).resize_operation == Some(
                ResizeOperation {
                    anchor: hover_anchor_for(objs, s1, pos)->Some_0,
                    start_pos: pos,
                    start_size: Point {
                        x: (r.max.x - r.min.x) as i64,
                        y: (r.max.y - r.min.y) as i64,
                    },
                    start_object_pos: r.min,
                },
            )
            &&& final(state).rotation_operation == old(state).rotation_operation
        }),
        ({
            let objs = old(state).canvas_objects@;
            let s1 = press_selection_after_clear(*old(state), pos);
            sel_rect(objs, s1) is Some && hover_anchor_for(objs, s1, pos) is None
                && hover_rot_for(objs, s1, pos)
        }) ==> ({
            let objs = old(state).canvas_objects@;
            let s1 = press_selection_after_clear(*old(state), pos);
            &&& final(state).selected_object == s1
            &&& final(state).rotation_operation == Some(
                rotation_op_for(objs[s1->Some_0 as int], sel_rect(objs, s1)->Some_0, pos),
            )
            &&& final(state).resize_operation == old(state).resize_operation
        }),
        ({
            let objs = old(state).canvas_objects@;
            let s1 = press_selection_after_clear(*old(state), pos);
            sel_rect(objs, s1) is Some && hover_anchor_for(objs, s1, pos) is None
                && !hover_rot_for(objs, s1, pos)
        }) ==> ({
            let objs = old(state).canvas_objects@;
            let s1 = press_selection_after_clear(*old(state), pos);
            &&& final(state).resize_operation == old(state).resize_operation
            &&& final(state).rotation_operation == old(state).rotation_operation
            &&& (sel_rect(objs, s1)->Some_0.contains_spec(pos) ==> final(state).selected_object
                == s1)
            &&& (!sel_rect(objs, s1)->Some_0.contains_spec(pos) ==> final(state).selected_object is None)
        }),
        ({
            let objs = old(state).canvas_objects@;
            let s1 = press_selection_after_clear(*old(state), pos);
            sel_rect(objs, s1) is None
        }) ==> ({
            let objs = old(state).canvas_objects@;
            let s1 = press_selection_after_clear(*old(state), pos);
            &&& final(state).resize_operation == old(state).resize_operation
            &&& final(state).rotation_operation == old(state).rotation_operation
            &&& (s1 is Some ==> final(state).selected_object == s1)
            &&& (s1 is None ==> opt_idx(final(state).selected_object) == topmost_hit_from(
                objs,
                pos,
                SELECT_STROKE_TOLERANCE as int,
                objs.len() as int,
            ))
        }),
{
    let pre = press_prepare(state, pos);
    press_apply(state, pos, pre.0, pre.1, pre.2, pre.3);
}

/// The preparation phase of a Select press: record the drag origin,
/// re-run the image/stroke hit test (possibly clearing the selection) and
/// recompute the hovered anchors; returns the surviving selection, the
/// hovered anchors and the selection rectangle for the branch phase.
#[verifier::rlimit(100)]
#[verifier::spinoff_prover]
fn press_prepare(state: &mut AppState, pos: Point) -> (r: (
    Option<usize>,
    Option<ResizeAnchor>,
    bool,
    Option<Rect>,
))
    requires
        state_wf(*old(state)),
        point_obj_ok(pos),
    ensures
        state_wf(*final(state)),
        eq_config(*old(state), *final(state)),
        eq_ink(*old(state), *final(state)),
        final(state).canvas_objects@ == old(state).canvas_objects@,
        final(state).current_tool == old(state).current_tool,
        final(state).brush_color == old(state).brush_color,
        final(state).drag_start_pos == Some(pos),
        final(state).resize_operation == old(state).resize_operation,
        final(state).rotation_operation == old(state).rotation_operation,
        r.0 == press_selection_after_clear(*old(state), pos),
        final(state).selected_object == r.0,
        r.3 == sel_rect(old(state).canvas_objects@, r.0),
        r.1 == hover_anchor_for(old(state).canvas_objects@, r.0, pos),
        r.2 == hover_rot_for(old(state).canvas_objects@, r.0, pos),
        final(state).resize_anchor_hovered == r.1,
        final(state).rotation_anchor_hovered == r.2,
        r.3 is Some ==> r.0 is Some && (r.0->Some_0 as int) < old(state).canvas_objects@.len() && rect_in_range(r.3->Some_0),
{
    state.drag_start_pos = Some(pos);
    let keep: bool = image_or_stroke_hit(&state.canvas_objects, pos);
    if !keep {
        state.selected_object = None;
    }
    let sel1: Option<usize> = state.selected_object;
    assert(sel1 == press_selection_after_clear(*old(state), pos)) by {
        reveal(press_selection_after_clear);
    };
    let mut ha: Option<ResizeAnchor> = None;
    let mut hr: bool = false;
    let mut rect_opt: Option<Rect> = None;
    match sel1 {
        Some(idx) => {
            if idx < state.canvas_objects.len() {
                rect_opt = object_rect(&state.canvas_objects[idx]);
                match rect_opt {
                    Some(rect) => {
                        ha = hovered_anchor(rect, pos);
                        hr = rotation_anchor_hit(rect, pos);
                    },
                    None => {},
                }
            }
        },
        None => {},
    }
    assert(rect_opt == sel_rect(old(state).canvas_objects@, sel1)) by {
        reveal(sel_rect);
    };
    assert(ha == hover_anchor_for(old(state).canvas_objects@, sel1, pos)) by {
        reveal(sel_rect);
        reveal(hover_anchor_for);
    };
    assert(hr == hover_rot_for(old(state).canvas_objects@, sel1, pos)) by {
        reveal(sel_rect);
        reveal(hover_rot_for);
    };
    state.resize_anchor_hovered = ha;
    state.rotation_anchor_hovered = hr;
    (sel1, ha, hr, rect_opt)
}

/// The branch phase of a Select press, once the cleared selection, the
/// hovered anchors and the selection rectangle are known: start a resize
/// from a hovered anchor, start a rotation from the rotation anchor (with
/// the shape's current angle), keep the selection for an implicit move
/// inside the box, drop it outside, or select the topmost object under
/// the pointer when nothing was selected.
#[verifier::rlimit(100)]
#[verifier::spinoff_prover]
fn press_apply(
    state: &mut AppState,
    pos: Point,
    sel1: Option<usize>,
    ha: Option<ResizeAnchor>,
    hr: bool,
    rect_opt: Option<Rect>,
)
    requires
        state_wf(*old(state)),
        point_obj_ok(pos),
        old(state).selected_object == sel1,
        rect_opt is Some ==> sel1 is Some && (sel1->Some_0 as int) < old(state).canvas_objects@.len() && rect_in_range(rect_opt->Some_0),
    ensures
        state_wf(*final(state)),
        eq_config(*old(state), *final(state)),
        eq_ink(*old(state), *final(state)),
        final(state).canvas_objects@ == old(state).canvas_objects@,
        final(state).current_tool == old(state).current_tool,
        final(state).brush_color == old(state).brush_color,
        final(state).drag_start_pos == old(state).drag_start_pos,
        final(state).resize_anchor_hovered == old(state).resize_anchor_hovered,
        final(state).rotation_anchor_hovered == old(state).rotation_anchor_hovered,
        rect_opt is Some && ha is Some ==> final(state).selected_object == sel1 && final(state).resize_operation == Some(
            ResizeOperation {
                anchor: ha->Some_0,
                start_pos: pos,
                start_size: Point {
                    x: (rect_opt->Some_0.max.x - rect_opt->Some_0.min.x) as i64,
                    y: (rect_opt->Some_0.max.y - rect_opt->Some_0.min.y) as i64,
                },
                start_object_pos: rect_opt->Some_0.min,
            },
        ) && final(state).rotation_operation == old(state).rotation_operation,
        rect_opt is Some && ha is None && hr ==> final(state).selected_object == sel1 && final(state).rotation_operation == Some(
            rotation_op_for(
                old(state).canvas_objects@[sel1->Some_0 as int],
                rect_opt->Some_0,
                pos,
            ),
        ) && final(state).resize_operation == old(state).resize_operation,
        rect_opt is Some && ha is None && !hr ==> final(state).resize_operation == old(state).resize_operation && final(state).rotation_operation == old(state).rotation_operation
            && (rect_opt->Some_0.contains_spec(pos) ==> final(state).selected_object == sel1) && (
        !rect_opt->Some_0.contains_spec(pos) ==> final(state).selected_object is None),
        rect_opt is None ==> final(state).resize_operation == old(state).resize_operation
            && final(state).rotation_operation == old(state).rotation_operation && (sel1 is Some
            ==> final(state).selected_object == sel1) && (sel1 is None ==> opt_idx(
            final(state).selected_object,
        ) == topmost_hit_from(
            old(state).canvas_objects@,
            pos,
            SELECT_STROKE_TOLERANCE as int,
            old(state).canvas_objects@.len() as int,
        )),
{
    match rect_opt {
        Some(rect) => {
            let idx = sel1.unwrap();
            match ha {
                Some(anchor) => {
                    let op = ResizeOperation {
                        anchor,
                        start_pos: pos,
                        start_size: Point {
                            x: rect.max.x - rect.min.x,
                            y: rect.max.y - rect.min.y,
                        },
                        start_object_pos: rect.min,
                    };
                    proof {
                        assert(resize_op_wf(op));
                    }
                    state.resize_operation = Some(op);
                },
                None => {
                    if hr {
                        let cx: i64 = mul_div_floor(rect.min.x + rect.max.x, 1, 2);
                        let cy: i64 = mul_div_floor(rect.min.y + rect.max.y, 1, 2);
                        let start_angle: i64 = match &state.canvas_objects[idx] {
                            CanvasObject::Shape(sh) => sh.rotation,
                            _ => 0,
                        };
                        let rop = RotationOperation {
                            start_pos: pos,
                            start_angle,
                            center: Point { x: cx, y: cy },
                        };
                        proof {
                            crate::utils::lemma_center_in_range(rect);
                            assert((rect.min.x + rect.max.x) as int * 1 == (rect.min.x
                                + rect.max.x) as int);
                            assert((rect.min.y + rect.max.y) as int * 1 == (rect.min.y
                                + rect.max.y) as int);
                            assert(cx as int == rect_center_x(rect));
                            assert(cy as int == rect_center_y(rect));
                            assert(-ROT_LIMIT <= rop.start_angle <= ROT_LIMIT);
                            assert(rotation_op_wf(rop));
                            assert(rop == rotation_op_for(
                                old(state).canvas_objects@[sel1->Some_0 as int],
                                rect,
                                pos,
                            ));
                        }
                        state.rotation_operation = Some(rop);
                    } else if rect.contains(pos) {
                        // an implicit move begins; nothing more to record
                    } else {
                        state.selected_object = None;
                    }
                },
            }
        },
        None => {
            match sel1 {
                Some(_) => {},
                None => {
                    state.selected_object = topmost_hit(
                        &state.canvas_objects,
                        pos,
                        SELECT_STROKE_TOLERANCE,
                    );
                },
            }
        },
    }
}

/// Releasing the pointer ends any resize or rotation and forgets the
/// drag origin, whatever else was going on.
pub fn select_release(state: &mut AppState)
    requires
        state_wf(*old(state)),
    ensures
        state_wf(*final(state)),
        eq_config(*old(state), *final(state)),
        eq_ink(*old(state), *final(state)),
        final(state).canvas_objects@ == old(state).canvas_objects@,
        final(state).current_tool == old(state).current_tool,
        final(state).brush_color == old(state).brush_color,
        final(state).selected_object == old(state).selected_object,
        final(state).resize_anchor_hovered == old(state).resize_anchor_hovered,
        final(state).rotation_anchor_hovered == old(state).rotation_anchor_hovered,
        final(state).resize_operation is None,
        final(state).rotation_operation is None,
        final(state).drag_start_pos is None,
{
    state.resize_operation = None;
    state.rotation_operation = None;
    state.drag_start_pos = None;
}

/// A click with the Select tool: the selection is dropped unless the
/// pointer is over some image box or near some stroke. Nothing is
/// (re)selected.
pub fn select_click(state: &mut AppState, pos: Point)
    requires
        state_wf(*old(state)),
        point_obj_ok(pos),
    ensures
        state_wf(*final(state)),
        eq_config(*old(state), *final(state)),
        eq_ink(*old(state), *final(state)),
        final(state).canvas_objects@ == old(state).canvas_objects@,
        final(state).current_tool == old(state).current_tool,
        final(state).brush_color == old(state).brush_color,
        final(state).selected_object == press_selection_after_clear(*old(state), pos),
        final(state).drag_start_pos == old(state).drag_start_pos,
        final(state).resize_anchor_hovered == old(state).resize_anchor_hovered,
        final(state).rotation_anchor_hovered == old(state).rotation_anchor_hovered,
        final(state).resize_operation == old(state).resize_operation,
        final(state).rotation_operation == old(state).rotation_operation,
{
    let keep: bool = image_or_stroke_hit(&state.canvas_objects, pos);
    if !keep {
        state.selected_object = None;
    }
    assert(state.selected_object == press_selection_after_clear(*old(state), pos)) by {
        reveal(press_selection_after_clear);
    };
}

/// The object a resize drag to `pos` produces from the snapshot: images
/// get the box resize plus the aspect re-lock, texts scale their font
/// from the horizontal delta on the two diagonal anchors, shapes map the
/// anchor to a scalar size change; strokes are not resize targets.
#[verifier::opaque]
pub open spec fn resized_object_spec(o: CanvasObject, op: ResizeOperation, pos: Point) -> CanvasObject {
    let delta = Point { x: (pos.x - op.start_pos.x) as i64, y: (pos.y - op.start_pos.y) as i64 };
    match o {
        CanvasObject::Image(img) => {
            let (np, ns0) = resize_box_spec(op.anchor, op.start_object_pos, op.start_size, delta);
            let ns = apply_aspect_spec(ns0, img.aspect_w as int, img.aspect_h as int);
            CanvasObject::Image(
                CanvasImage {
                    texture: img.texture,
                    pos: np,
                    size: ns,
                    aspect_w: img.aspect_w,
                    aspect_h: img.aspect_h,
                    marked_for_deletion: img.marked_for_deletion,
                },
            )
        },
        CanvasObject::Text(t) => match op.anchor {
            ResizeAnchor::TopLeft | ResizeAnchor::BottomRight => CanvasObject::Text(
                CanvasText {
                    text: t.text,
                    pos: t.pos,
                    color: t.color,
                    font_size: clamp_spec(
                        op.start_size.x + delta.x,
                        MIN_FONT_SIZE as int,
                        WIDTH_LIMIT as int,
                    ) as i64,
                    size: t.size,
                },
            ),
            _ => o,
        },
        CanvasObject::Shape(sh) => CanvasObject::Shape(
            CanvasShape {
                shape_type: sh.shape_type,
                pos: sh.pos,
                size: shape_resize_size_spec(op.anchor, op.start_size, delta) as i64,
                color: sh.color,
                rotation: sh.rotation,
            },
        ),
        CanvasObject::Stroke(_) => o,
    }
}

/// The object a rotation drag to `pos` produces: only shapes rotate.
#[verifier::opaque]
pub open spec fn rotated_object_spec(o: CanvasObject, op: RotationOperation, pos: Point) -> CanvasObject {
    match o {
        CanvasObject::Shape(sh) => CanvasObject::Shape(
            CanvasShape {
                shape_type: sh.shape_type,
                pos: sh.pos,
                size: sh.size,
                color: sh.color,
                rotation: rotation_angle_spec(op, pos) as i64,
            },
        ),
        _ => o,
    }
}

/// Whether the drag live-targets the selection: the index points at an
/// existing object.
pub open spec fn sel_live(s: AppState) -> bool {
    s.selected_object is Some && (s.selected_object->Some_0 as int) < s.canvas_objects@.len()
}

/// A drag with the Select tool: an active resize recomputes the selected
/// object from the snapshot plus the total delta; an active rotation
/// recomputes its angle; otherwise a live selection is moved by the
/// incremental pointer delta and the drag origin advances to the pointer.
/// A stale selection index mutates nothing.
#[verifier::rlimit(100)]
#[verifier::spinoff_prover]
pub fn select_drag(state: &mut AppState, pos: Point)
    requires
        state_wf(*old(state)),
        point_obj_ok(pos),
    ensures
        state_wf(*final(state)),
        eq_config(*old(state), *final(state)),
        eq_ink(*old(state), *final(state)),
        final(state).current_tool == old(state).current_tool,
        final(state).brush_color == old(state).brush_color,
        final(state).selected_object == old(state).selected_object,
        final(state).resize_anchor_hovered == old(state).resize_anchor_hovered,
        final(state).rotation_anchor_hovered == old(state).rotation_anchor_hovered,
        final(state).resize_operation == old(state).resize_operation,
        final(state).rotation_operation == old(state).rotation_operation,
        old(state).resize_operation is Some || old(state).rotation_operation is Some ==> final(state).drag_start_pos == old(state).drag_start_pos,
        old(state).resize_operation is Some && sel_live(*old(state)) ==> final(state).canvas_objects@ == old(state).canvas_objects@.update(
            old(state).selected_object->Some_0 as int,
            resized_object_spec(
                old(state).canvas_objects@[old(state).selected_object->Some_0 as int],
                old(state).resize_operation->Some_0,
                pos,
            ),
        ),
        old(state).resize_operation is Some && !sel_live(*old(state)) ==> final(state).canvas_objects@ == old(state).canvas_objects@,
        old(state).resize_operation is None && old(state).rotation_operation is Some && sel_live(
            *old(state),
        ) ==> final(state).canvas_objects@ == old(state).canvas_objects@.update(
            old(state).selected_object->Some_0 as int,
            rotated_object_spec(
                old(state).canvas_objects@[old(state).selected_object->Some_0 as int],
                old(state).rotation_operation->Some_0,
                pos,
            ),
        ),
        old(state).resize_operation is None && old(state).rotation_operation is Some && !sel_live(
            *old(state),
        ) ==> final(state).canvas_objects@ == old(state).canvas_objects@,
        old(state).resize_operation is None && old(state).rotation_operation is None && old(state).drag_start_pos is Some && old(state).selected_object is Some ==> final(state).drag_start_pos == Some(pos) && final(state).canvas_objects@.len() == old(state).canvas_objects@.len(),
        old(state).resize_operation is None && old(state).rotation_operation is None && old(state).drag_start_pos is Some && old(state).selected_object is Some && sel_live(*old(state))
            ==> (forall|k: int|
            0 <= k < old(state).canvas_objects@.len() && k != old(state).selected_object->Some_0 as int ==> final(state).canvas_objects@[k] == old(state).canvas_objects@[k]) && is_translated_object(
            old(state).canvas_objects@[old(state).selected_object->Some_0 as int],
            Point {
                x: (pos.x - old(state).drag_start_pos->Some_0.x) as i64,
                y: (pos.y - old(state).drag_start_pos->Some_0.y) as i64,
            },
            final(state).canvas_objects@[old(state).selected_object->Some_0 as int],
        ),
        old(state).resize_operation is None && old(state).rotation_operation is None && old(state).drag_start_pos is Some && old(state).selected_object is Some && !sel_live(*old(state))
            ==> final(state).canvas_objects@ == old(state).canvas_objects@,
        old(state).resize_operation is None && old(state).rotation_operation is None && !(old(state).drag_start_pos is Some && old(state).selected_object is Some) ==> final(state).drag_start_pos == old(state).drag_start_pos && final(state).canvas_objects@ == old(state).canvas_objects@,
{
    match state.resize_operation {
        Some(op) => {
            drag_apply_resize(state, op, pos);
        },
        None => {
            match state.rotation_operation {
                Some(op) => {
                    drag_apply_rotate(state, op, pos);
                },
                None => {
                    drag_apply_move(state, pos);
                },
            }
        },
    }
}

/// One object recomputed from a resize snapshot and the pointer.
fn resize_one_object(obj: CanvasObject, op: ResizeOperation, pos: Point) -> (r: CanvasObject)
    requires
        object_wf(obj),
        point_obj_ok(pos),
        resize_op_wf(op),
    ensures
        r == resized_object_spec(obj, op, pos),
        object_wf(r),
{
    proof {
        reveal(resized_object_spec);
    }
    let delta = Point { x: pos.x - op.start_pos.x, y: pos.y - op.start_pos.y };
    match obj {
        CanvasObject::Image(img) => {
            let rb = resize_box(op.anchor, op.start_object_pos, op.start_size, delta);
            let ns = apply_aspect(rb.1, img.aspect_w, img.aspect_h);
            CanvasObject::Image(CanvasImage { pos: rb.0, size: ns, ..img })
        },
        CanvasObject::Text(t) => {
            match op.anchor {
                ResizeAnchor::TopLeft | ResizeAnchor::BottomRight => {
                    let fs: i64 = clamp(op.start_size.x + delta.x, MIN_FONT_SIZE, WIDTH_LIMIT);
                    CanvasObject::Text(CanvasText { font_size: fs, ..t })
                },
                _ => CanvasObject::Text(t),
            }
        },
        CanvasObject::Shape(sh) => {
            let nsize: i64 = shape_resize_size(op.anchor, op.start_size, delta);
            CanvasObject::Shape(CanvasShape { size: nsize, ..sh })
        },
        CanvasObject::Stroke(st) => CanvasObject::Stroke(st),
    }
}

/// Recompute the selected object from an active resize snapshot.
fn drag_apply_resize(state: &mut AppState, op: ResizeOperation, pos: Point)
    requires
        state_wf(*old(state)),
        point_obj_ok(pos),
        resize_op_wf(op),
    ensures
        state_wf(*final(state)),
        eq_config(*old(state), *final(state)),
        eq_ink(*old(state), *final(state)),
        eq_interaction(*old(state), *final(state)),
        final(state).current_tool == old(state).current_tool,
        final(state).brush_color == old(state).brush_color,
        sel_live(*old(state)) ==> final(state).canvas_objects@ == old(state).canvas_objects@.update(
            old(state).selected_object->Some_0 as int,
            resized_object_spec(
                old(state).canvas_objects@[old(state).selected_object->Some_0 as int],
                op,
                pos,
            ),
        ),
        !sel_live(*old(state)) ==> final(state).canvas_objects@ == old(state).canvas_objects@,
{
    match state.selected_object {
        Some(idx) => {
            if idx < state.canvas_objects.len() {
                let obj = state.canvas_objects.remove(idx);
                let new_obj = resize_one_object(obj, op, pos);
                state.canvas_objects.insert(idx, new_obj);
                proof {
                    assert(state.canvas_objects@ =~= old(state).canvas_objects@.update(
                        idx as int,
                        resized_object_spec(old(state).canvas_objects@[idx as int], op, pos),
                    ));
                }
            }
        },
        None => {},
    }
}

/// Recompute the selected shape's angle from an active rotation snapshot.
fn drag_apply_rotate(state: &mut AppState, op: RotationOperation, pos: Point)
    requires
        state_wf(*old(state)),
        point_obj_ok(pos),
        rotation_op_wf(op),
    ensures
        state_wf(*final(state)),
        eq_config(*old(state), *final(state)),
        eq_ink(*old(state), *final(state)),
        eq_interaction(*old(state), *final(state)),
        final(state).current_tool == old(state).current_tool,
        final(state).brush_color == old(state).brush_color,
        sel_live(*old(state)) ==> final(state).canvas_objects@ == old(state).canvas_objects@.update(
            old(state).selected_object->Some_0 as int,
            rotated_object_spec(
                old(state).canvas_objects@[old(state).selected_object->Some_0 as int],
                op,
                pos,
            ),
        ),
        !sel_live(*old(state)) ==> final(state).canvas_objects@ == old(state).canvas_objects@,
{
    match state.selected_object {
        Some(idx) => {
            if idx < state.canvas_objects.len() {
                let obj = state.canvas_objects.remove(idx);
                let new_obj: CanvasObject = match obj {
                    CanvasObject::Shape(sh) => {
                        let ang: i64 = rotation_angle(op, pos);
                        CanvasObject::Shape(CanvasShape { rotation: ang, ..sh })
                    },
                    other => other,
                };
                proof {
                    reveal(rotated_object_spec);
                    assert(object_wf(new_obj));
                    assert(new_obj == rotated_object_spec(
                        old(state).canvas_objects@[idx as int],
                        op,
                        pos,
                    ));
                }
                state.canvas_objects.insert(idx, new_obj);
                proof {
                    assert(state.canvas_objects@ =~= old(state).canvas_objects@.update(
                        idx as int,
                        rotated_object_spec(old(state).canvas_objects@[idx as int], op, pos),
                    ));
                }
            }
        },
        None => {},
    }
}

/// Translate the live selection by the incremental delta from the drag
/// origin, which then advances to the pointer.
fn drag_apply_move(state: &mut AppState, pos: Point)
    requires
        state_wf(*old(state)),
        point_obj_ok(pos),
    ensures
        state_wf(*final(state)),
        eq_config(*old(state), *final(state)),
        eq_ink(*old(state), *final(state)),
        final(state).current_tool == old(state).current_tool,
        final(state).brush_color == old(state).brush_color,
        final(state).selected_object == old(state).selected_object,
        final(state).resize_anchor_hovered == old(state).resize_anchor_hovered,
        final(state).rotation_anchor_hovered == old(state).rotation_anchor_hovered,
        final(state).resize_operation == old(state).resize_operation,
        final(state).rotation_operation == old(state).rotation_operation,
        old(state).drag_start_pos is None || old(state).selected_object is None ==> final(state).drag_start_pos == old(state).drag_start_pos && final(state).canvas_objects@ == old(state).canvas_objects@,
        old(state).drag_start_pos is Some && old(state).selected_object is Some ==> final(state).drag_start_pos == Some(pos) && (if sel_live(*old(state)) {
            let i = old(state).selected_object->Some_0 as int;
            let sp = old(state).drag_start_pos->Some_0;
            &&& final(state).canvas_objects@.len() == old(state).canvas_objects@.len()
            &&& (forall|k: int|
                0 <= k < old(state).canvas_objects@.len() && k != i ==> final(state).canvas_objects@[k] == old(state).canvas_objects@[k])
            &&& is_translated_object(
                old(state).canvas_objects@[i],
                Point { x: (pos.x - sp.x) as i64, y: (pos.y - sp.y) as i64 },
                final(state).canvas_objects@[i],
            )
        } else {
            final(state).canvas_objects@ == old(state).canvas_objects@
        }),
{
    let dsp = state.drag_start_pos;
    let selo = state.selected_object;
    match (dsp, selo) {
        (Some(sp), Some(idx)) => {
            let delta = Point { x: pos.x - sp.x, y: pos.y - sp.y };
            state.drag_start_pos = Some(pos);
            if idx < state.canvas_objects.len() {
                let obj = state.canvas_objects.remove(idx);
                let new_obj = translate_object(obj, delta);
                state.canvas_objects.insert(idx, new_obj);
            }
        },
        _ => {},
    }
}


// ---------------------------------------------------------------------------
// The object eraser.
// ---------------------------------------------------------------------------

/// The objects of the first `i` that survive an object-eraser event: all
/// that the pointer does not hit, in their original order.
pub open spec fn erase_keep_prefix(
    objs: Seq<CanvasObject>,
    pos: Point,
    es: int,
    i: int,
) -> Seq<CanvasObject>
    decreases i,
{
    if i <= 0 {
        Seq::empty()
    } else {
        let rest = erase_keep_prefix(objs, pos, es, i - 1);
        if object_hit_spec(objs[i - 1], pos, es) {
            rest
        } else {
            rest.push(objs[i - 1])
        }
    }
}

/// An object-eraser press, click or drag: every object the pointer hits
/// is removed, whatever its depth; the others keep their order. The
/// selection index is deliberately left alone, as the original behavior
/// has it (a stale index is ignored by the other handlers).
pub fn object_eraser_event(state: &mut AppState, pos: Point)
    requires
        state_wf(*old(state)),
        point_obj_ok(pos),
    ensures
        state_wf(*final(state)),
        eq_config(*old(state), *final(state)),
        eq_ink(*old(state), *final(state)),
        eq_interaction(*old(state), *final(state)),
        final(state).current_tool == old(state).current_tool,
        final(state).brush_color == old(state).brush_color,
        final(state).canvas_objects@ == erase_keep_prefix(
            old(state).canvas_objects@,
            pos,
            old(state).eraser_size as int,
            old(state).canvas_objects@.len() as int,
        ),
{
    let ghost orig = state.canvas_objects@;
    let es: i64 = state.eraser_size;
    let mut kept: Vec<CanvasObject> = Vec::new();
    let mut processed: usize = 0;
    let total: usize = state.canvas_objects.len();
    while state.canvas_objects.len() > 0
        invariant
            processed as int + state.canvas_objects@.len() == total as int,
            total as int == orig.len(),
            state.canvas_objects@ == orig.subrange(processed as int, total as int),
            kept@ == erase_keep_prefix(orig, pos, es as int, processed as int),
            point_obj_ok(pos),
            0 <= es <= 1_000_000,
            forall|k: int| 0 <= k < orig.len() ==> object_wf(#[trigger] orig[k]),
            forall|k: int| 0 <= k < kept@.len() ==> object_wf(#[trigger] kept@[k]),
            eq_config(*old(state), *state),
            eq_ink(*old(state), *state),
            eq_interaction(*old(state), *state),
            state.current_tool == old(state).current_tool,
            state.brush_color == old(state).brush_color,
            state_wf(*old(state)),
        decreases state.canvas_objects@.len(),
    {
        let o = state.canvas_objects.remove(0);
        assert(o == orig[processed as int]);
        if !object_hit(&o, pos, es) {
            kept.push(o);
        }
        processed = processed + 1;
        proof {
            assert(state.canvas_objects@ =~= orig.subrange(processed as int, total as int));
        }
    }
    proof {
        assert(orig.subrange(processed as int, total as int).len() == 0);
        assert(processed as int == total);
    }
    state.canvas_objects = kept;
}

// ---------------------------------------------------------------------------
// The brush.
// ---------------------------------------------------------------------------

/// The active-stroke entries whose contact id is not `id`, in order.
pub open spec fn remove_id(entries: Seq<(u64, ActiveStroke)>, id: u64, i: int) -> Seq<(u64, ActiveStroke)>
    decreases i,
{
    if i <= 0 {
        Seq::empty()
    } else {
        let rest = remove_id(entries, id, i - 1);
        if entries[i - 1].0 == id {
            rest
        } else {
            rest.push(entries[i - 1])
        }
    }
}

/// The first active stroke stored under `id`, if any.
pub open spec fn find_entry(entries: Seq<(u64, ActiveStroke)>, id: u64) -> Option<ActiveStroke>
    decreases entries.len(),
{
    if entries.len() == 0 {
        None
    } else if entries[0].0 == id {
        Some(entries[0].1)
    } else {
        find_entry(entries.drop_first(), id)
    }
}

/// The synthetic contact id the single-pointer host uses.
pub const PRIMARY_CONTACT: u64 = 0;

/// Remove every entry stored under `id`, returning the first removed
/// stroke, if any.
fn take_entry(entries: &mut Vec<(u64, ActiveStroke)>, id: u64) -> (r: Option<ActiveStroke>)
    ensures
        final(entries)@ == remove_id(old(entries)@, id, old(entries)@.len() as int),
        r == find_entry(old(entries)@, id),
{
    let ghost orig = old(entries)@;
    let mut out: Vec<(u64, ActiveStroke)> = Vec::new();
    let mut found: Option<ActiveStroke> = None;
    let mut processed: usize = 0;
    let total: usize = entries.len();
    while entries.len() > 0
        invariant
            processed as int + entries@.len() == total as int,
            total as int == orig.len(),
            entries@ == orig.subrange(processed as int, total as int),
            out@ == remove_id(orig, id, processed as int),
            found == find_entry(orig.take(processed as int), id),
        decreases entries@.len(),
    {
        let ghost before = orig.take(processed as int);
        let e = entries.remove(0);
        assert(e == orig[processed as int]);
        if e.0 == id {
            if found.is_none() {
                found = Some(e.1);
            }
        } else {
            out.push(e);
        }
        processed = processed + 1;
        proof {
            assert(entries@ =~= orig.subrange(processed as int, total as int));
            assert(orig.take(processed as int) =~= before.push(orig[processed as int - 1]));
            lemma_find_entry_push(before, orig[processed as int - 1], id);
        }
    }
    proof {
        assert(orig.take(total as int) =~= orig);
    }
    *entries = out;
    found
}

/// Appending an entry extends `find_entry` only where nothing was found.
proof fn lemma_find_entry_push(entries: Seq<(u64, ActiveStroke)>, e: (u64, ActiveStroke), id: u64)
    ensures
        find_entry(entries.push(e), id) == if find_entry(entries, id) is Some {
            find_entry(entries, id)
        } else if e.0 == id {
            Some(e.1)
        } else {
            None
        },
    decreases entries.len(),
{
    if entries.len() == 0 {
        assert(entries.push(e).drop_first() =~= entries);
    } else {
        assert(entries.push(e).drop_first() =~= entries.drop_first().push(e));
        lemma_find_entry_push(entries.drop_first(), e, id);
    }
}

/// The stroke a finished contact commits: smoothed when smoothing is on,
/// then interpolated at the configured frequency; committed only when the
/// raw stroke has at least two points and a matching width count.
pub open spec fn commit_points(st: ActiveStroke, smoothing: bool, freq: int) -> Seq<Point> {
    let base = if smoothing {
        crate::utils::smooth_spec(st.points@)
    } else {
        st.points@
    };
    crate::utils::interp_points_spec(base, freq)
}

/// The recorded widths fitted to `n` points: kept where they exist,
/// extended with the last width where smoothing added points, truncated
/// where it removed them. Already-parallel or empty widths pass through.
pub open spec fn fit_widths_spec(w: Seq<i64>, n: int) -> Seq<i64> {
    if w.len() == n || w.len() == 0 {
        w
    } else {
        Seq::new(
            n as nat,
            |i: int|
                if i < w.len() {
                    w[i]
                } else {
                    w[w.len() - 1]
                },
        )
    }
}

/// The widths of the committed stroke, parallel to `commit_points`: the
/// recorded widths are first fitted to the (possibly smoothed) points so
/// the committed stroke keeps the data model's parallel-widths invariant.
pub open spec fn commit_widths(st: ActiveStroke, smoothing: bool, freq: int) -> Seq<i64> {
    let base = if smoothing {
        crate::utils::smooth_spec(st.points@)
    } else {
        st.points@
    };
    crate::utils::interp_widths_spec(base, fit_widths_spec(st.widths@, base.len() as int), freq)
}

/// The recorded widths fitted to `n` points.
fn fit_widths(w: &Vec<i64>, n: usize) -> (r: Vec<i64>)
    requires
        forall|k: int| 0 <= k < w@.len() ==> width_ok(#[trigger] w@[k] as int),
    ensures
        r@ == fit_widths_spec(w@, n as int),
        forall|k: int| 0 <= k < r@.len() ==> width_ok(#[trigger] r@[k] as int),
        w@.len() > 0 ==> r@.len() == n || r@.len() == w@.len(),
{
    if w.len() == n || w.len() == 0 {
        return crate::utils::copy_widths_pub(w);
    }
    let mut r: Vec<i64> = Vec::new();
    let mut i: usize = 0;
    while i < n
        invariant
            0 <= i <= n,
            w@.len() > 0,
            w@.len() != n,
            forall|k: int| 0 <= k < w@.len() ==> width_ok(#[trigger] w@[k] as int),
            r@.len() == i,
            forall|k: int| 0 <= k < i ==> r@[k] == fit_widths_spec(w@, n as int)[k],
            forall|k: int| 0 <= k < r@.len() ==> width_ok(#[trigger] r@[k] as int),
        decreases n - i,
    {
        if i < w.len() {
            r.push(w[i]);
        } else {
            r.push(w[w.len() - 1]);
        }
        i = i + 1;
    }
    proof {
        assert(r@ =~= fit_widths_spec(w@, n as int));
    }
    r
}

/// A brush press: when it lands inside the canvas, drawing begins and a
/// fresh one-sample active stroke replaces any record under the primary
/// contact; its first width is the plain base width.
pub fn brush_press(state: &mut AppState, pos: Point, canvas: Rect, now_ms: u64)
    requires
        state_wf(*old(state)),
        point_obj_ok(pos),
    ensures
        state_wf(*final(state)),
        eq_config(*old(state), *final(state)),
        eq_interaction(*old(state), *final(state)),
        final(state).canvas_objects@ == old(state).canvas_objects@,
        final(state).current_tool == old(state).current_tool,
        final(state).brush_color == old(state).brush_color,
        !canvas.contains_spec(pos) ==> eq_ink(*old(state), *final(state)),
        canvas.contains_spec(pos) ==> final(state).is_drawing && final(state).active_strokes@
            == remove_id(
            old(state).active_strokes@,
            PRIMARY_CONTACT,
            old(state).active_strokes@.len() as int,
        ).push(
            (
                PRIMARY_CONTACT,
                ActiveStroke {
                    points: final(state).active_strokes@.last().1.points,
                    widths: final(state).active_strokes@.last().1.widths,
                    times: final(state).active_strokes@.last().1.times,
                    start_ms: now_ms,
                },
            ),
        ) && final(state).active_strokes@.last().1.points@ == seq![pos] && final(state).active_strokes@.last().1.widths@ == seq![old(state).brush_width] && final(state).active_strokes@.last().1.times@ == seq![0u64],
{
    if canvas.contains(pos) {
        state.is_drawing = true;
        let width: i64 = AppUtils::calculate_dynamic_width(
            state.brush_width,
            state.dynamic_brush_width_mode,
            0,
            1,
            None,
        );
        assert(width == state.brush_width);
        proof {
            lemma_remove_id_wf(
                state.active_strokes@,
                PRIMARY_CONTACT,
                state.active_strokes@.len() as int,
            );
        }
        let _ = take_entry(&mut state.active_strokes, PRIMARY_CONTACT);
        let mut pts: Vec<Point> = Vec::new();
        pts.push(pos);
        let mut ws: Vec<i64> = Vec::new();
        ws.push(width);
        let mut ts: Vec<u64> = Vec::new();
        ts.push(0);
        let st = ActiveStroke { points: pts, widths: ws, times: ts, start_ms: now_ms };
        state.active_strokes.push((PRIMARY_CONTACT, st));
    }
}

/// The elapsed offset (milliseconds since the stroke began) a sample
/// taken at `now_ms` records.
pub open spec fn sample_elapsed(st: ActiveStroke, now_ms: u64) -> int {
    if now_ms >= st.start_ms {
        now_ms - st.start_ms
    } else {
        0
    }
}

/// The speed (pixels per second) the appended sample is rated at: the
/// floored distance from the last sample over the time since it, the
/// time floored to one millisecond; none for a first sample.
pub open spec fn sample_speed(st: ActiveStroke, pos: Point, now_ms: u64) -> Option<int> {
    if st.points@.len() > 0 && st.times@.len() > 0 {
        let el = sample_elapsed(st, now_ms);
        let lt = st.times@.last() as int;
        let dt = if el > lt {
            el - lt
        } else {
            1
        };
        Some(dist_spec(st.points@.last(), pos) / dt)
    } else {
        None
    }
}

/// The width the appended sample gets from the dynamic-width rule.
pub open spec fn sample_width(
    st: ActiveStroke,
    pos: Point,
    now_ms: u64,
    base: int,
    mode: DynamicBrushWidthMode,
) -> int {
    crate::utils::dynamic_width_spec(
        base,
        mode,
        st.points@.len() as int,
        st.points@.len() as int + 1,
        sample_speed(st, pos, now_ms),
    )
}

/// A brush drag or hover while drawing: a sample further than one pixel
/// from the last one is appended with its elapsed time and a width from
/// the dynamic-width rule, the speed being the distance over the time
/// since the previous sample (floored to one millisecond).
pub fn brush_move(state: &mut AppState, pos: Point, now_ms: u64)
    requires
        state_wf(*old(state)),
        point_obj_ok(pos),
    ensures
        state_wf(*final(state)),
        eq_config(*old(state), *final(state)),
        eq_interaction(*old(state), *final(state)),
        final(state).canvas_objects@ == old(state).canvas_objects@,
        final(state).current_tool == old(state).current_tool,
        final(state).brush_color == old(state).brush_color,
        final(state).is_drawing == old(state).is_drawing,
        !old(state).is_drawing || find_entry(old(state).active_strokes@, PRIMARY_CONTACT)
            is None ==> final(state).active_strokes@ == old(state).active_strokes@,
        old(state).is_drawing && find_entry(old(state).active_strokes@, PRIMARY_CONTACT)
            is Some ==> ({
            let st = find_entry(old(state).active_strokes@, PRIMARY_CONTACT)->Some_0;
            let others = remove_id(
                old(state).active_strokes@,
                PRIMARY_CONTACT,
                old(state).active_strokes@.len() as int,
            );
            let gate = st.points@.len() == 0 || (st.points@.len() < 100_000_000
                && dist_sq_spec(st.points@.last(), pos) > 1_000_000);
            if gate {
                &&& final(state).active_strokes@.len() == others.len() + 1
                &&& final(state).active_strokes@.take(others.len() as int) == others
                &&& final(state).active_strokes@.last().0 == PRIMARY_CONTACT
                &&& final(state).active_strokes@.last().1.points@ == st.points@.push(pos)
                &&& final(state).active_strokes@.last().1.start_ms == st.start_ms
                &&& final(state).active_strokes@.last().1.times@ == st.times@.push(
                    sample_elapsed(st, now_ms) as u64,
                )
                &&& final(state).active_strokes@.last().1.widths@ == st.widths@.push(
                    sample_width(
                        st,
                        pos,
                        now_ms,
                        old(state).brush_width as int,
                        old(state).dynamic_brush_width_mode,
                    ) as i64,
                )
            } else {
                final(state).active_strokes@ == others.push((PRIMARY_CONTACT, st))
            }
        }),
{
    if !state.is_drawing {
        return ;
    }
    proof {
        lemma_remove_id_wf(
            state.active_strokes@,
            PRIMARY_CONTACT,
            state.active_strokes@.len() as int,
        );
        lemma_find_entry_wf(state.active_strokes@, PRIMARY_CONTACT);
    }
    let taken: Option<ActiveStroke> = take_entry(&mut state.active_strokes, PRIMARY_CONTACT);
    match taken {
        None => {
            proof {
                lemma_remove_id_no_entry(old(state).active_strokes@, PRIMARY_CONTACT);
            }
        },
        Some(st) => {
            let mut st = st;
            let ghost st0 = st;
            let elapsed: u64 = if now_ms >= st.start_ms {
                now_ms - st.start_ms
            } else {
                0
            };
            let gate: bool = if st.points.len() == 0 {
                true
            } else if st.points.len() < 100_000_000 {
                let last: Point = st.points[st.points.len() - 1];
                dist_sq(last, pos) > 1_000_000
            } else {
                false
            };
            if gate {
                let speed: Option<i64> = if st.points.len() > 0 && st.times.len() > 0 {
                    let last: Point = st.points[st.points.len() - 1];
                    let last_t: u64 = st.times[st.times.len() - 1];
                    let dt: u64 = if elapsed > last_t {
                        elapsed - last_t
                    } else {
                        1
                    };
                    let d: i64 = dist(last, pos);
                    Some(((d as u64) / dt) as i64)
                } else {
                    None
                };
                proof {
                    assert(elapsed as int == sample_elapsed(st0, now_ms));
                    assert(match speed {
                        Some(sv) => sample_speed(st0, pos, now_ms) == Some(sv as int),
                        None => sample_speed(st0, pos, now_ms) is None,
                    });
                }
                st.points.push(pos);
                st.times.push(elapsed);
                let width: i64 = AppUtils::calculate_dynamic_width(
                    state.brush_width,
                    state.dynamic_brush_width_mode,
                    st.points.len() - 1,
                    st.points.len(),
                    speed,
                );
                proof {
                    assert(width as int == sample_width(
                        st0,
                        pos,
                        now_ms,
                        state.brush_width as int,
                        state.dynamic_brush_width_mode,
                    ));
                }
                st.widths.push(width);
            }
            state.active_strokes.push((PRIMARY_CONTACT, st));
        },
    }
}

/// A missing entry means no stored id matches.
proof fn lemma_find_entry_none_all(entries: Seq<(u64, ActiveStroke)>, id: u64)
    requires
        find_entry(entries, id) is None,
    ensures
        forall|k: int| 0 <= k < entries.len() ==> (#[trigger] entries[k]).0 != id,
    decreases entries.len(),
{
    if entries.len() > 0 {
        lemma_find_entry_none_all(entries.drop_first(), id);
        assert(forall|k: int|
            1 <= k < entries.len() ==> (#[trigger] entries[k]) == entries.drop_first()[k - 1]);
    }
}

/// Removing an id that occurs nowhere keeps the prefix as it is.
proof fn lemma_remove_id_all_kept(entries: Seq<(u64, ActiveStroke)>, id: u64, i: int)
    requires
        0 <= i <= entries.len(),
        forall|k: int| 0 <= k < entries.len() ==> (#[trigger] entries[k]).0 != id,
    ensures
        remove_id(entries, id, i) == entries.take(i),
    decreases i,
{
    if i > 0 {
        lemma_remove_id_all_kept(entries, id, i - 1);
        assert(remove_id(entries, id, i) =~= entries.take(i));
    } else {
        assert(remove_id(entries, id, 0) =~= entries.take(0));
    }
}

/// When no entry is stored under the id, removing it changes nothing.
proof fn lemma_remove_id_no_entry(entries: Seq<(u64, ActiveStroke)>, id: u64)
    requires
        find_entry(entries, id) is None,
    ensures
        remove_id(entries, id, entries.len() as int) == entries,
{
    lemma_find_entry_none_all(entries, id);
    lemma_remove_id_all_kept(entries, id, entries.len() as int);
    assert(entries.take(entries.len() as int) =~= entries);
}

/// Every entry that survives a removal was wf before it.
proof fn lemma_remove_id_wf(entries: Seq<(u64, ActiveStroke)>, id: u64, i: int)
    requires
        0 <= i <= entries.len(),
        forall|k: int|
            0 <= k < entries.len() ==> active_stroke_wf((#[trigger] entries[k]).1),
    ensures
        forall|k: int|
            0 <= k < remove_id(entries, id, i).len() ==> active_stroke_wf(
                (#[trigger] remove_id(entries, id, i)[k]).1,
            ),
    decreases i,
{
    if i > 0 {
        lemma_remove_id_wf(entries, id, i - 1);
        if entries[i - 1].0 != id {
            assert(remove_id(entries, id, i) == remove_id(entries, id, i - 1).push(
                entries[i - 1],
            ));
            assert(active_stroke_wf(entries[i - 1].1));
        }
    }
}

/// The stroke found under an id was one of the stored entries, so it is
/// wf whenever they all are.
proof fn lemma_find_entry_wf(entries: Seq<(u64, ActiveStroke)>, id: u64)
    requires
        forall|k: int|
            0 <= k < entries.len() ==> active_stroke_wf((#[trigger] entries[k]).1),
    ensures
        find_entry(entries, id) matches Some(st) ==> active_stroke_wf(st),
    decreases entries.len(),
{
    if entries.len() > 0 {
        assert(forall|k: int|
            0 <= k < entries.drop_first().len() ==> (#[trigger] entries.drop_first()[k])
                == entries[k + 1]);
        lemma_find_entry_wf(entries.drop_first(), id);
    }
}

/// A brush release: the primary contact's stroke is removed and, when it
/// has at least two points with matching widths, smoothed (optionally)
/// and interpolated, then committed to the canvas with the current brush
/// color and base width. Drawing continues while other contacts remain.
#[verifier::rlimit(100)]
#[verifier::spinoff_prover]
pub fn brush_release(state: &mut AppState)
    requires
        state_wf(*old(state)),
    ensures
        state_wf(*final(state)),
        eq_config(*old(state), *final(state)),
        eq_interaction(*old(state), *final(state)),
        final(state).current_tool == old(state).current_tool,
        final(state).brush_color == old(state).brush_color,
        !old(state).is_drawing ==> eq_ink(*old(state), *final(state)) && final(state).canvas_objects@ == old(state).canvas_objects@,
        old(state).is_drawing ==> ({
            let found = find_entry(old(state).active_strokes@, PRIMARY_CONTACT);
            let others = remove_id(
                old(state).active_strokes@,
                PRIMARY_CONTACT,
                old(state).active_strokes@.len() as int,
            );
            &&& final(state).active_strokes@ == others
            &&& final(state).is_drawing == (others.len() > 0)
            &&& (match found {
                Some(st) => {
                    if st.points@.len() > 1 && st.widths@.len() == st.points@.len() {
                        &&& final(state).canvas_objects@.len() == old(state).canvas_objects@.len() + 1
                        &&& final(state).canvas_objects@.take(
                            old(state).canvas_objects@.len() as int,
                        ) == old(state).canvas_objects@
                        &&& (final(state).canvas_objects@.last() matches CanvasObject::Stroke(cs)
                            && cs.points@ == commit_points(
                            st,
                            old(state).stroke_smoothing,
                            old(state).interpolation_frequency as int,
                        ) && cs.widths@ == commit_widths(
                            st,
                            old(state).stroke_smoothing,
                            old(state).interpolation_frequency as int,
                        ) && cs.color == old(state).brush_color && cs.base_width == old(state).brush_width)
                    } else {
                        final(state).canvas_objects@ == old(state).canvas_objects@
                    }
                },
                None => final(state).canvas_objects@ == old(state).canvas_objects@,
            })
        }),
{
    if !state.is_drawing {
        return ;
    }
    proof {
        lemma_remove_id_wf(
            state.active_strokes@,
            PRIMARY_CONTACT,
            state.active_strokes@.len() as int,
        );
        lemma_find_entry_wf(state.active_strokes@, PRIMARY_CONTACT);
    }
    let taken: Option<ActiveStroke> = take_entry(&mut state.active_strokes, PRIMARY_CONTACT);
    match taken {
        None => {},
        Some(st) => {
            if st.points.len() > 1 && st.widths.len() == st.points.len() {
                let base: Vec<Point> = if state.stroke_smoothing {
                    AppUtils::apply_stroke_smoothing(&st.points)
                } else {
                    crate::utils::copy_points_pub(&st.points)
                };
                let used_w: Vec<i64> = fit_widths(&st.widths, base.len());
                let iw = AppUtils::apply_point_interpolation(
                    &base,
                    &used_w,
                    state.interpolation_frequency,
                );
                let cs = CanvasStroke {
                    points: iw.0,
                    widths: iw.1,
                    color: state.brush_color,
                    base_width: state.brush_width,
                };
                proof {
                    // the committed widths stay parallel to the points:
                    // the fitted widths match the base length, and the
                    // interpolation extends both sides in step
                    assert(used_w@.len() == base@.len());
                    if base@.len() >= 2 && state.interpolation_frequency > 0 {
                        crate::utils::lemma_interpolation_preserves_anchors(
                            base@,
                            used_w@,
                            state.interpolation_frequency as int,
                            0,
                        );
                    }
                    assert(cs.widths@.len() == cs.points@.len());
                    assert(stroke_wf(cs));
                }
                state.canvas_objects.push(CanvasObject::Stroke(cs));
                proof {
                    assert(state.canvas_objects@.take(old(state).canvas_objects@.len() as int)
                        =~= old(state).canvas_objects@);
                }
            }
        },
    }
    state.is_drawing = state.active_strokes.len() > 0;
}

// ---------------------------------------------------------------------------
// Tool changes and canvas-wide operations.
// ---------------------------------------------------------------------------

/// The strokes a drain commits: every active stroke with more than one
/// point becomes a canvas stroke as it stands, with the given color and
/// base width.
pub open spec fn drained_strokes(
    entries: Seq<(u64, ActiveStroke)>,
    color: Color,
    base: i64,
    i: int,
) -> Seq<CanvasObject>
    decreases i,
{
    if i <= 0 {
        Seq::empty()
    } else {
        let rest = drained_strokes(entries, color, base, i - 1);
        let st = entries[i - 1].1;
        if st.points@.len() > 1 {
            rest.push(
                CanvasObject::Stroke(
                    CanvasStroke { points: st.points, widths: st.widths, color, base_width: base },
                ),
            )
        } else {
            rest
        }
    }
}

/// Commit every active stroke with more than one point, as it stands,
/// and clear the in-progress ink.
fn drain_active_strokes(state: &mut AppState, color: Color)
    requires
        state_wf(*old(state)),
    ensures
        state_wf(*final(state)),
        eq_config(*old(state), *final(state)),
        eq_interaction(*old(state), *final(state)),
        final(state).current_tool == old(state).current_tool,
        final(state).brush_color == old(state).brush_color,
        final(state).active_strokes@.len() == 0,
        !final(state).is_drawing,
        final(state).canvas_objects@ == old(state).canvas_objects@ + drained_strokes(
            old(state).active_strokes@,
            color,
            old(state).brush_width,
            old(state).active_strokes@.len() as int,
        ),
{
    let ghost orig = state.active_strokes@;
    let base: i64 = state.brush_width;
    let mut processed: usize = 0;
    let total: usize = state.active_strokes.len();
    while state.active_strokes.len() > 0
        invariant
            processed as int + state.active_strokes@.len() == total as int,
            total as int == orig.len(),
            state.active_strokes@ == orig.subrange(processed as int, total as int),
            state.canvas_objects@ == old(state).canvas_objects@ + drained_strokes(
                orig,
                color,
                base,
                processed as int,
            ),
            base == old(state).brush_width,
            eq_config(*old(state), *state),
            eq_interaction(*old(state), *state),
            state.current_tool == old(state).current_tool,
            state.brush_color == old(state).brush_color,
            state.is_drawing == old(state).is_drawing,
            state_wf(*old(state)),
            orig == old(state).active_strokes@,
            forall|k: int|
                0 <= k < state.canvas_objects@.len() ==> object_wf(
                    #[trigger] state.canvas_objects@[k],
                ),
        decreases state.active_strokes@.len(),
    {
        let e = state.active_strokes.remove(0);
        assert(e == orig[processed as int]);
        let st = e.1;
        proof {
            assert(active_stroke_wf(orig[processed as int].1));
        }
        if st.points.len() > 1 {
            let cs = CanvasStroke {
                points: st.points,
                widths: st.widths,
                color,
                base_width: base,
            };
            proof {
                assert(stroke_wf(cs));
            }
            state.canvas_objects.push(CanvasObject::Stroke(cs));
        }
        processed = processed + 1;
        proof {
            assert(state.active_strokes@ =~= orig.subrange(processed as int, total as int));
        }
    }
    state.is_drawing = false;
    proof {
        assert(processed as int == total as int);
    }
}

/// Switch tools: a real change drains the in-progress ink into committed
/// strokes (with the current brush color and width) and clears the
/// selection; selecting the same tool again does nothing.
pub fn set_tool(state: &mut AppState, tool: CanvasTool)
    requires
        state_wf(*old(state)),
    ensures
        state_wf(*final(state)),
        eq_config(*old(state), *final(state)),
        final(state).brush_color == old(state).brush_color,
        final(state).current_tool == tool,
        tool == old(state).current_tool ==> eq_ink(*old(state), *final(state)) && final(state).canvas_objects@ == old(state).canvas_objects@ && final(state).selected_object == old(state).selected_object && final(state).drag_start_pos == old(state).drag_start_pos && final(state).resize_operation == old(state).resize_operation && final(state).rotation_operation
            == old(state).rotation_operation && final(state).resize_anchor_hovered == old(state).resize_anchor_hovered && final(state).rotation_anchor_hovered == old(state).rotation_anchor_hovered,
        tool != old(state).current_tool ==> final(state).selected_object is None && final(state).active_strokes@.len() == 0 && !final(state).is_drawing && final(state).canvas_objects@
            == old(state).canvas_objects@ + drained_strokes(
            old(state).active_strokes@,
            old(state).brush_color,
            old(state).brush_width,
            old(state).active_strokes@.len() as int,
        ) && final(state).drag_start_pos == old(state).drag_start_pos && final(state).resize_operation == old(state).resize_operation && final(state).rotation_operation
            == old(state).rotation_operation && final(state).resize_anchor_hovered == old(state).resize_anchor_hovered && final(state).rotation_anchor_hovered == old(state).rotation_anchor_hovered,
{
    if state.current_tool != tool {
        let color: Color = state.brush_color;
        drain_active_strokes(state, color);
        state.selected_object = None;
        state.current_tool = tool;
    }
}

/// Change the brush color: while drawing, the in-progress ink is first
/// committed under the old color, exactly as a live color edit behaves.
pub fn set_brush_color(state: &mut AppState, color: Color)
    requires
        state_wf(*old(state)),
    ensures
        state_wf(*final(state)),
        eq_config(*old(state), *final(state)),
        eq_interaction(*old(state), *final(state)),
        final(state).current_tool == old(state).current_tool,
        final(state).brush_color == color,
        color == old(state).brush_color || !old(state).is_drawing ==> eq_ink(
            *old(state),
            *final(state),
        ) && final(state).canvas_objects@ == old(state).canvas_objects@,
        color != old(state).brush_color && old(state).is_drawing ==> final(state).active_strokes@.len() == 0 && !final(state).is_drawing && final(state).canvas_objects@
            == old(state).canvas_objects@ + drained_strokes(
            old(state).active_strokes@,
            old(state).brush_color,
            old(state).brush_width,
            old(state).active_strokes@.len() as int,
        ),
{
    if state.brush_color != color && state.is_drawing {
        let old_color: Color = state.brush_color;
        drain_active_strokes(state, old_color);
    }
    state.brush_color = color;
}

/// Clear the whole canvas and the in-progress ink, drop the selection and
/// return to the brush.
pub fn clear_canvas(state: &mut AppState)
    requires
        state_wf(*old(state)),
    ensures
        state_wf(*final(state)),
        eq_config(*old(state), *final(state)),
        final(state).brush_color == old(state).brush_color,
        final(state).canvas_objects@.len() == 0,
        final(state).active_strokes@.len() == 0,
        !final(state).is_drawing,
        final(state).selected_object is None,
        final(state).current_tool == CanvasTool::Brush,
{
    state.canvas_objects = Vec::new();
    state.active_strokes = Vec::new();
    state.is_drawing = false;
    state.selected_object = None;
    state.current_tool = CanvasTool::Brush;
}

// ---------------------------------------------------------------------------
// The pixel eraser.
// ---------------------------------------------------------------------------

/// The width the pixel eraser uses for segment `i`: the segment's start
/// width, with the stroke's first width as fallback.
pub open spec fn pe_seg_width(widths: Seq<i64>, i: int) -> int {
    if widths.len() == 0 {
        0
    } else if 0 <= i && i < widths.len() {
        widths[i] as int
    } else {
        widths[0] as int
    }
}

/// Whether the eraser centered at `pos` cuts segment `i`: the segment is
/// within `eraser/2 + width/2` of the pointer.
pub open spec fn pe_cut(pos: Point, es: int, points: Seq<Point>, widths: Seq<i64>, i: int) -> bool {
    seg_within_half_spec(pos, points[i], points[i + 1], es + pe_seg_width(widths, i))
}

/// The cutting walk over segments `0 .. i`: the finished sub-stroke
/// contents so far, and the accumulator of contiguous surviving points
/// and widths. A cut emits the accumulator when it has at least two
/// points and restarts it empty past the cut.
pub open spec fn pe_state(
    points: Seq<Point>,
    widths: Seq<i64>,
    pos: Point,
    es: int,
    i: int,
) -> (Seq<(Seq<Point>, Seq<i64>)>, Seq<Point>, Seq<i64>)
    decreases i,
{
    if i <= 0 {
        (
            Seq::empty(),
            seq![points[0]],
            if widths.len() > 0 {
                seq![widths[0]]
            } else {
                Seq::empty()
            },
        )
    } else {
        let (done, cp, cw) = pe_state(points, widths, pos, es, i - 1);
        if !pe_cut(pos, es, points, widths, i - 1) {
            let cw2 = if i < widths.len() {
                cw.push(widths[i])
            } else if widths.len() > 0 {
                cw.push(widths[widths.len() - 1])
            } else {
                cw
            };
            (done, cp.push(points[i]), cw2)
        } else {
            let done2 = if cp.len() >= 2 {
                done.push((cp, cw))
            } else {
                done
            };
            (done2, Seq::empty(), Seq::empty())
        }
    }
}

/// The sub-stroke contents the eraser leaves of one stroke; strokes with
/// fewer than two points vanish.
pub open spec fn split_stroke_specs(st: CanvasStroke, pos: Point, es: int) -> Seq<
    (Seq<Point>, Seq<i64>),
> {
    if st.points@.len() < 2 {
        Seq::empty()
    } else {
        let (done, cp, cw) = pe_state(st.points@, st.widths@, pos, es, st.points@.len() - 1);
        if cp.len() >= 2 {
            done.push((cp, cw))
        } else {
            done
        }
    }
}

/// The non-stroke objects among the first `i`, in order.
pub open spec fn pe_keep_prefix(objs: Seq<CanvasObject>, i: int) -> Seq<CanvasObject>
    decreases i,
{
    if i <= 0 {
        Seq::empty()
    } else {
        let rest = pe_keep_prefix(objs, i - 1);
        match objs[i - 1] {
            CanvasObject::Stroke(_) => rest,
            _ => rest.push(objs[i - 1]),
        }
    }
}

/// The sub-stroke descriptions (contents, color, base width) of the
/// strokes among the first `i`, in order.
pub open spec fn pe_subs_prefix(
    objs: Seq<CanvasObject>,
    pos: Point,
    es: int,
    i: int,
) -> Seq<(Seq<Point>, Seq<i64>, Color, i64)>
    decreases i,
{
    if i <= 0 {
        Seq::empty()
    } else {
        let rest = pe_subs_prefix(objs, pos, es, i - 1);
        match objs[i - 1] {
            CanvasObject::Stroke(st) => rest + split_stroke_specs(st, pos, es).map_values(
                |p: (Seq<Point>, Seq<i64>)| (p.0, p.1, st.color, st.base_width),
            ),
            _ => rest,
        }
    }
}

/// `ss` holds exactly the strokes that the descriptions call for.
pub open spec fn subs_match(ss: Seq<CanvasObject>, specs: Seq<(Seq<Point>, Seq<i64>, Color, i64)>) -> bool {
    &&& ss.len() == specs.len()
    &&& forall|k: int|
        0 <= k < specs.len() ==> ((#[trigger] ss[k]) matches CanvasObject::Stroke(cs)
            && cs.points@ == specs[k].0 && cs.widths@ == specs[k].1 && cs.color == specs[k].2
            && cs.base_width == specs[k].3)
}

/// Cut one stroke into its surviving sub-strokes.
fn split_stroke_exec(st: &CanvasStroke, pos: Point, es: i64) -> (r: Vec<CanvasObject>)
    requires
        stroke_wf(*st),
        point_obj_ok(pos),
        0 <= es <= 1_000_000,
    ensures
        subs_match(
            r@,
            split_stroke_specs(*st, pos, es as int).map_values(
                |p: (Seq<Point>, Seq<i64>)| (p.0, p.1, st.color, st.base_width),
            ),
        ),
        forall|k: int| 0 <= k < r@.len() ==> object_wf(#[trigger] r@[k]),
{
    let mut out: Vec<CanvasObject> = Vec::new();
    if st.points.len() < 2 {
        return out;
    }
    let mut cur_p: Vec<Point> = Vec::new();
    let mut cur_w: Vec<i64> = Vec::new();
    cur_p.push(st.points[0]);
    if st.widths.len() > 0 {
        cur_w.push(st.widths[0]);
    }
    let n: usize = st.points.len() - 1;
    let mut i: usize = 0;
    while i < n
        invariant
            n == st.points@.len() - 1,
            st.points@.len() >= 2,
            0 <= i <= n,
            stroke_wf(*st),
            point_obj_ok(pos),
            0 <= es <= 1_000_000,
            ({
                let (done, cp, cw) = pe_state(st.points@, st.widths@, pos, es as int, i as int);
                &&& cur_p@ == cp
                &&& cur_w@ == cw
                &&& out@.len() == done.len()
                &&& forall|k: int|
                    0 <= k < done.len() ==> ((#[trigger] out@[k]) matches CanvasObject::Stroke(cs)
                        && cs.points@ == done[k].0 && cs.widths@ == done[k].1 && cs.color
                        == st.color && cs.base_width == st.base_width)
            }),
            forall|k: int| 0 <= k < out@.len() ==> object_wf(#[trigger] out@[k]),
            forall|k: int| 0 <= k < cur_p@.len() ==> point_obj_ok(#[trigger] cur_p@[k]),
            forall|k: int| 0 <= k < cur_w@.len() ==> width_ok(#[trigger] cur_w@[k] as int),
            st.widths@.len() == st.points@.len() ==> cur_w@.len() == cur_p@.len(),
            st.widths@.len() == 0 ==> cur_w@.len() == 0,
        decreases n - i,
    {
        let sw: i64 = if st.widths.len() == 0 {
            0
        } else if i < st.widths.len() {
            st.widths[i]
        } else {
            st.widths[0]
        };
        assert(sw as int == pe_seg_width(st.widths@, i as int));
        let cut: bool = segment_within_half(pos, st.points[i], st.points[i + 1], es + sw);
        if !cut {
            cur_p.push(st.points[i + 1]);
            if i + 1 < st.widths.len() {
                cur_w.push(st.widths[i + 1]);
            } else if st.widths.len() > 0 {
                cur_w.push(st.widths[st.widths.len() - 1]);
            }
        } else {
            if cur_p.len() >= 2 {
                let cs = CanvasStroke {
                    points: cur_p,
                    widths: cur_w,
                    color: st.color,
                    base_width: st.base_width,
                };
                proof {
                    assert(stroke_wf(cs));
                }
                out.push(CanvasObject::Stroke(cs));
                cur_p = Vec::new();
                cur_w = Vec::new();
            } else {
                cur_p = Vec::new();
                cur_w = Vec::new();
            }
        }
        i = i + 1;
    }
    if cur_p.len() >= 2 {
        let cs = CanvasStroke {
            points: cur_p,
            widths: cur_w,
            color: st.color,
            base_width: st.base_width,
        };
        proof {
            assert(stroke_wf(cs));
        }
        out.push(CanvasObject::Stroke(cs));
    }
    out
}

/// A pixel-eraser drag or click: every stroke is cut wherever a segment
/// comes within `eraser/2 + width/2` of the pointer; contiguous surviving
/// runs of at least two points become fresh strokes, appended after the
/// non-stroke objects, which pass through unchanged in their order.
pub fn pixel_eraser_event(state: &mut AppState, pos: Point)
    requires
        state_wf(*old(state)),
        point_obj_ok(pos),
    ensures
        state_wf(*final(state)),
        eq_config(*old(state), *final(state)),
        eq_ink(*old(state), *final(state)),
        eq_interaction(*old(state), *final(state)),
        final(state).current_tool == old(state).current_tool,
        final(state).brush_color == old(state).brush_color,
        ({
            let objs = old(state).canvas_objects@;
            let es = old(state).eraser_size as int;
            let keep = pe_keep_prefix(objs, objs.len() as int);
            let specs = pe_subs_prefix(objs, pos, es, objs.len() as int);
            &&& final(state).canvas_objects@.len() == keep.len() + specs.len()
            &&& final(state).canvas_objects@.take(keep.len() as int) == keep
            &&& subs_match(final(state).canvas_objects@.skip(keep.len() as int), specs)
        }),
{
    let es: i64 = state.eraser_size;
    let ghost orig = state.canvas_objects@;
    let total: usize = state.canvas_objects.len();
    let mut kept: Vec<CanvasObject> = Vec::new();
    let mut subs: Vec<CanvasObject> = Vec::new();
    let mut processed: usize = 0;
    while state.canvas_objects.len() > 0
        invariant
            processed as int + state.canvas_objects@.len() == total as int,
            total as int == orig.len(),
            state.canvas_objects@ == orig.subrange(processed as int, total as int),
            kept@ == pe_keep_prefix(orig, processed as int),
            subs_match(subs@, pe_subs_prefix(orig, pos, es as int, processed as int)),
            point_obj_ok(pos),
            0 <= es <= 1_000_000,
            forall|k: int| 0 <= k < orig.len() ==> object_wf(#[trigger] orig[k]),
            forall|k: int| 0 <= k < kept@.len() ==> object_wf(#[trigger] kept@[k]),
            forall|k: int| 0 <= k < subs@.len() ==> object_wf(#[trigger] subs@[k]),
            eq_config(*old(state), *state),
            eq_ink(*old(state), *state),
            eq_interaction(*old(state), *state),
            state.current_tool == old(state).current_tool,
            state.brush_color == old(state).brush_color,
            state_wf(*old(state)),
        decreases state.canvas_objects@.len(),
    {
        let o = state.canvas_objects.remove(0);
        assert(o == orig[processed as int]);
        match o {
            CanvasObject::Stroke(st) => {
                let mut pieces: Vec<CanvasObject> = split_stroke_exec(&st, pos, es);
                proof {
                    lemma_subs_match_concat(
                        subs@,
                        pe_subs_prefix(orig, pos, es as int, processed as int),
                        pieces@,
                        split_stroke_specs(st, pos, es as int).map_values(
                            |p: (Seq<Point>, Seq<i64>)| (p.0, p.1, st.color, st.base_width),
                        ),
                    );
                }
                subs.append(&mut pieces);
            },
            other => {
                kept.push(other);
            },
        }
        processed = processed + 1;
        proof {
            assert(state.canvas_objects@ =~= orig.subrange(processed as int, total as int));
        }
    }
    proof {
        assert(processed as int == total as int);
    }
    let ghost keep_seq = pe_keep_prefix(orig, total as int);
    let ghost specs = pe_subs_prefix(orig, pos, es as int, total as int);
    let ghost subs_seq = subs@;
    kept.append(&mut subs);
    proof {
        assert(kept@.take(keep_seq.len() as int) =~= keep_seq);
        assert(kept@.skip(keep_seq.len() as int) =~= subs_seq);
    }
    state.canvas_objects = kept;
}

/// Matching descriptions concatenate.
proof fn lemma_subs_match_concat(
    a: Seq<CanvasObject>,
    sa: Seq<(Seq<Point>, Seq<i64>, Color, i64)>,
    b: Seq<CanvasObject>,
    sb: Seq<(Seq<Point>, Seq<i64>, Color, i64)>,
)
    requires
        subs_match(a, sa),
        subs_match(b, sb),
    ensures
        subs_match(a + b, sa + sb),
{
    assert forall|k: int| 0 <= k < (sa + sb).len() implies ((#[trigger] (a + b)[k])
        matches CanvasObject::Stroke(cs) && cs.points@ == (sa + sb)[k].0 && cs.widths@ == (sa
        + sb)[k].1 && cs.color == (sa + sb)[k].2 && cs.base_width == (sa + sb)[k].3) by {
        if k < sa.len() {
            assert((a + b)[k] == a[k]);
        } else {
            assert((a + b)[k] == b[k - sa.len()]);
        }
    }
}

// ---------------------------------------------------------------------------
// Event dispatch.
// ---------------------------------------------------------------------------

/// Route one pointer event to the current tool: selection gestures,
/// object or pixel erasing, or the brush pipeline. The Insert and
/// Settings tools ignore canvas pointer events; `canvas` bounds the
/// drawable area for brush presses and `now_ms` stamps ink samples.
pub fn handle_pointer_event(
    state: &mut AppState,
    pos: Point,
    phase: PointerPhase,
    canvas: Rect,
    now_ms: u64,
)
    requires
        state_wf(*old(state)),
        point_obj_ok(pos),
    ensures
        state_wf(*final(state)),
        eq_config(*old(state), *final(state)),
        final(state).current_tool == old(state).current_tool,
        final(state).brush_color == old(state).brush_color,
        old(state).current_tool == CanvasTool::Insert || old(state).current_tool
            == CanvasTool::Settings ==> eq_ink(*old(state), *final(state)) && eq_interaction(
            *old(state),
            *final(state),
        ) && final(state).canvas_objects@ == old(state).canvas_objects@,
        old(state).current_tool == CanvasTool::Select ==> eq_ink(*old(state), *final(state)),
        old(state).current_tool == CanvasTool::Select && (phase == PointerPhase::DragStart
            || phase == PointerPhase::DragStop || phase == PointerPhase::Click || phase
            == PointerPhase::Hover) ==> final(state).canvas_objects@ == old(state).canvas_objects@,
        old(state).current_tool == CanvasTool::Select && phase == PointerPhase::DragStart ==> final(state).drag_start_pos == Some(pos) && final(state).resize_anchor_hovered == hover_anchor_for(
            old(state).canvas_objects@,
            press_selection_after_clear(*old(state), pos),
            pos,
        ) && final(state).rotation_anchor_hovered == hover_rot_for(
            old(state).canvas_objects@,
            press_selection_after_clear(*old(state), pos),
            pos,
        ),
        old(state).current_tool == CanvasTool::Select && phase == PointerPhase::DragStop ==> final(state).resize_operation is None && final(state).rotation_operation is None && final(state).drag_start_pos is None && final(state).selected_object == old(state).selected_object,
        old(state).current_tool == CanvasTool::Select && phase == PointerPhase::Click ==> final(state).selected_object == press_selection_after_clear(*old(state), pos) && final(state).drag_start_pos == old(state).drag_start_pos && final(state).resize_anchor_hovered == old(state).resize_anchor_hovered && final(state).rotation_anchor_hovered == old(state).rotation_anchor_hovered && final(state).resize_operation == old(state).resize_operation && final(state).rotation_operation == old(state).rotation_operation,
        old(state).current_tool == CanvasTool::Select && phase == PointerPhase::Hover ==> final(state).selected_object == old(state).selected_object && final(state).resize_anchor_hovered
            == hover_anchor_for(
            old(state).canvas_objects@,
            old(state).selected_object,
            pos,
        ) && final(state).rotation_anchor_hovered == hover_rot_for(
            old(state).canvas_objects@,
            old(state).selected_object,
            pos,
        ) && final(state).drag_start_pos == old(state).drag_start_pos && final(state).resize_operation == old(state).resize_operation && final(state).rotation_operation
            == old(state).rotation_operation,
        old(state).current_tool == CanvasTool::Select && phase == PointerPhase::Drag ==> final(state).selected_object == old(state).selected_object && final(state).resize_operation == old(state).resize_operation && final(state).rotation_operation == old(state).rotation_operation
            && (old(state).resize_operation is Some && sel_live(*old(state)) ==> final(state).canvas_objects@ == old(state).canvas_objects@.update(
            old(state).selected_object->Some_0 as int,
            resized_object_spec(
                old(state).canvas_objects@[old(state).selected_object->Some_0 as int],
                old(state).resize_operation->Some_0,
                pos,
            ),
        )) && (old(state).resize_operation is None && old(state).rotation_operation is Some
            && sel_live(*old(state)) ==> final(state).canvas_objects@ == old(state).canvas_objects@.update(
            old(state).selected_object->Some_0 as int,
            rotated_object_spec(
                old(state).canvas_objects@[old(state).selected_object->Some_0 as int],
                old(state).rotation_operation->Some_0,
                pos,
            ),
        )) && (!sel_live(*old(state)) ==> final(state).canvas_objects@ == old(state).canvas_objects@),
        old(state).current_tool == CanvasTool::ObjectEraser ==> eq_ink(
            *old(state),
            *final(state),
        ) && eq_interaction(*old(state), *final(state)),
        old(state).current_tool == CanvasTool::ObjectEraser && (phase == PointerPhase::DragStart
            || phase == PointerPhase::Drag || phase == PointerPhase::Click) ==> final(state).canvas_objects@ == erase_keep_prefix(
            old(state).canvas_objects@,
            pos,
            old(state).eraser_size as int,
            old(state).canvas_objects@.len() as int,
        ),
        old(state).current_tool == CanvasTool::ObjectEraser && (phase == PointerPhase::DragStop
            || phase == PointerPhase::Hover) ==> final(state).canvas_objects@ == old(state).canvas_objects@,
        old(state).current_tool == CanvasTool::PixelEraser ==> eq_ink(*old(state), *final(state))
            && eq_interaction(*old(state), *final(state)),
        old(state).current_tool == CanvasTool::PixelEraser && (phase == PointerPhase::Drag
            || phase == PointerPhase::Click) ==> ({
            let objs = old(state).canvas_objects@;
            let es = old(state).eraser_size as int;
            let keep = pe_keep_prefix(objs, objs.len() as int);
            let specs = pe_subs_prefix(objs, pos, es, objs.len() as int);
            &&& final(state).canvas_objects@.len() == keep.len() + specs.len()
            &&& final(state).canvas_objects@.take(keep.len() as int) == keep
            &&& subs_match(final(state).canvas_objects@.skip(keep.len() as int), specs)
        }),
        old(state).current_tool == CanvasTool::PixelEraser && (phase == PointerPhase::DragStart
            || phase == PointerPhase::DragStop || phase == PointerPhase::Hover) ==> final(state).canvas_objects@ == old(state).canvas_objects@,
        old(state).current_tool == CanvasTool::Brush ==> eq_interaction(
            *old(state),
            *final(state),
        ),
        old(state).current_tool == CanvasTool::Brush && phase == PointerPhase::DragStart ==> final(state).canvas_objects@ == old(state).canvas_objects@ && (canvas.contains_spec(pos) ==> final(state).is_drawing && final(state).active_strokes@.len() > 0 && final(state).active_strokes@.last().0 == PRIMARY_CONTACT && final(state).active_strokes@.last().1.points@ == seq![pos]) && (!canvas.contains_spec(pos)
            ==> eq_ink(*old(state), *final(state))),
        old(state).current_tool == CanvasTool::Brush && (phase == PointerPhase::Drag || phase
            == PointerPhase::Hover) ==> final(state).canvas_objects@ == old(state).canvas_objects@ && final(state).is_drawing == old(state).is_drawing && (!old(state).is_drawing ==> final(state).active_strokes@ == old(state).active_strokes@),
        old(state).current_tool == CanvasTool::Brush && phase == PointerPhase::DragStop && old(state).is_drawing ==> ({
            let found = find_entry(old(state).active_strokes@, PRIMARY_CONTACT);
            let others = remove_id(
                old(state).active_strokes@,
                PRIMARY_CONTACT,
                old(state).active_strokes@.len() as int,
            );
            &&& final(state).active_strokes@ == others
            &&& final(state).is_drawing == (others.len() > 0)
            &&& (match found {
                Some(st) => {
                    if st.points@.len() > 1 && st.widths@.len() == st.points@.len() {
                        &&& final(state).canvas_objects@.len() == old(state).canvas_objects@.len() + 1
                        &&& final(state).canvas_objects@.take(
                            old(state).canvas_objects@.len() as int,
                        ) == old(state).canvas_objects@
                        &&& (final(state).canvas_objects@.last() matches CanvasObject::Stroke(cs)
                            && cs.points@ == commit_points(
                            st,
                            old(state).stroke_smoothing,
                            old(state).interpolation_frequency as int,
                        ) && cs.widths@ == commit_widths(
                            st,
                            old(state).stroke_smoothing,
                            old(state).interpolation_frequency as int,
                        ) && cs.color == old(state).brush_color && cs.base_width == old(state).brush_width)
                    } else {
                        final(state).canvas_objects@ == old(state).canvas_objects@
                    }
                },
                None => final(state).canvas_objects@ == old(state).canvas_objects@,
            })
        }),
        old(state).current_tool == CanvasTool::Brush && (phase == PointerPhase::Click || (phase
            == PointerPhase::DragStop && !old(state).is_drawing)) ==> eq_ink(
            *old(state),
            *final(state),
        ) && final(state).canvas_objects@ == old(state).canvas_objects@,
{
    match state.current_tool {
        CanvasTool::Select => match phase {
            PointerPhase::DragStart => select_press(state, pos),
            PointerPhase::Drag => select_drag(state, pos),
            PointerPhase::DragStop => select_release(state),
            PointerPhase::Click => select_click(state, pos),
            PointerPhase::Hover => select_hover(state, pos),
        },
        CanvasTool::ObjectEraser => match phase {
            PointerPhase::DragStart | PointerPhase::Drag | PointerPhase::Click => {
                object_eraser_event(state, pos);
            },
            _ => {},
        },
        CanvasTool::PixelEraser => match phase {
            PointerPhase::Drag | PointerPhase::Click => {
                pixel_eraser_event(state, pos);
            },
            _ => {},
        },
        CanvasTool::Brush => match phase {
            PointerPhase::DragStart => brush_press(state, pos, canvas, now_ms),
            PointerPhase::Drag | PointerPhase::Hover => brush_move(state, pos, now_ms),
            PointerPhase::DragStop => brush_release(state),
            PointerPhase::Click => {},
        },
        CanvasTool::Insert | CanvasTool::Settings => {},
    }
}

} // verus!
