use smartboard::geometry::{dist, dist_sq, isqrt, segment_within_half, Point, Rect};
use smartboard::state::{
    AppState, CanvasObject, CanvasShape, CanvasShapeType, CanvasStroke, CanvasTool, Color,
    DynamicBrushWidthMode, FpsCounter,
};
use smartboard::utils::AppUtils;

fn pt(x: i64, y: i64) -> Point {
    Point { x, y }
}

#[test]
fn isqrt_exact_values() {
    assert_eq!(isqrt(0), 0);
    assert_eq!(isqrt(1), 1);
    assert_eq!(isqrt(24), 4);
    assert_eq!(isqrt(25), 5);
    assert_eq!(isqrt(10_000_000_000), 100_000);
}

#[test]
fn distance_three_four_five() {
    // a 3-4-5 triangle in whole pixels
    assert_eq!(dist(pt(0, 0), pt(3000, 4000)), 5000);
    assert_eq!(dist_sq(pt(0, 0), pt(3000, 4000)), 25_000_000);
}

#[test]
fn segment_distance_perpendicular() {
    // distance 5 px from the midpoint of a horizontal segment
    let d = AppUtils::point_to_line_segment_distance(pt(5000, 5000), pt(0, 0), pt(10_000, 0));
    assert_eq!(d, 5000);
    // degenerate segment degrades to the point distance
    let d2 = AppUtils::point_to_line_segment_distance(pt(3000, 4000), pt(0, 0), pt(0, 0));
    assert_eq!(d2, 5000);
    // beyond the endpoint the nearest point is the endpoint
    let d3 = AppUtils::point_to_line_segment_distance(pt(13_000, 4000), pt(0, 0), pt(10_000, 0));
    assert_eq!(d3, 5000);
}

#[test]
fn segment_within_half_boundary() {
    // true distance 5 px; within 10/2 = 5 exactly, not within 9.998/2
    assert!(segment_within_half(pt(5000, 5000), pt(0, 0), pt(10_000, 0), 10_000));
    assert!(!segment_within_half(pt(5000, 5000), pt(0, 0), pt(10_000, 0), 9_998));
}

#[test]
fn dynamic_width_disabled_and_none() {
    let w = AppUtils::calculate_dynamic_width(3000, DynamicBrushWidthMode::Disabled, 9, 10, None);
    assert_eq!(w, 3000);
    let w2 =
        AppUtils::calculate_dynamic_width(3000, DynamicBrushWidthMode::SpeedBased, 5, 10, None);
    assert_eq!(w2, 3000);
}

#[test]
fn dynamic_width_brush_tip_taper() {
    // before 70% progress the width is unchanged
    let w = AppUtils::calculate_dynamic_width(4000, DynamicBrushWidthMode::BrushTip, 7, 10, None);
    assert_eq!(w, 4000);
    // at the very end the width tapers to 40%
    let w2 =
        AppUtils::calculate_dynamic_width(4000, DynamicBrushWidthMode::BrushTip, 10, 10, None);
    assert_eq!(w2, 1600);
    // halfway into the taper: base * (12*10 - 10*9) / (5*10) = base * 3/5
    let w3 = AppUtils::calculate_dynamic_width(4000, DynamicBrushWidthMode::BrushTip, 9, 10, None);
    assert_eq!(w3, 2400);
}

#[test]
fn dynamic_width_speed_based() {
    // slow: 150% of base; fast (clamped): 50% of base
    let slow =
        AppUtils::calculate_dynamic_width(4000, DynamicBrushWidthMode::SpeedBased, 1, 2, Some(0));
    assert_eq!(slow, 6000);
    let fast = AppUtils::calculate_dynamic_width(
        4000,
        DynamicBrushWidthMode::SpeedBased,
        1,
        2,
        Some(9_999),
    );
    assert_eq!(fast, 2000);
    // at the 500 px/s reference: base * (750 - 500) / 500 = base / 2
    let mid = AppUtils::calculate_dynamic_width(
        4000,
        DynamicBrushWidthMode::SpeedBased,
        1,
        2,
        Some(500),
    );
    assert_eq!(mid, 2000);
}

#[test]
fn interpolation_zero_frequency_is_identity() {
    let points = vec![pt(0, 0), pt(10_000, 0), pt(20_000, 0)];
    let widths = vec![3000i64, 3000, 3000];
    let (rp, rw) = AppUtils::apply_point_interpolation(&points, &widths, 0);
    assert_eq!(rp, points);
    assert_eq!(rw, widths);
}

#[test]
fn interpolation_inserts_and_keeps_anchors() {
    // 10 px apart at frequency 1.0: 10 insertions per segment
    let points = vec![pt(0, 0), pt(10_000, 0)];
    let widths = vec![2000i64, 4000];
    let (rp, rw) = AppUtils::apply_point_interpolation(&points, &widths, 1000);
    assert_eq!(rp.len(), 12);
    assert_eq!(rw.len(), 12);
    assert_eq!(rp[0], pt(0, 0));
    assert_eq!(*rp.last().unwrap(), pt(10_000, 0));
    assert_eq!(rw[0], 2000);
    assert_eq!(*rw.last().unwrap(), 4000);
    // inserted points are evenly spaced; the first sits at 10/11 of a pixel
    assert_eq!(rp[1], pt(909, 0));
    // widths interpolate linearly alongside
    assert_eq!(rw[1], 2181);
}

#[test]
fn smoothing_short_strokes_pass_through() {
    let points = vec![pt(0, 0), pt(10_000, 0)];
    let out = AppUtils::apply_stroke_smoothing(&points);
    assert_eq!(out, points);
}

#[test]
fn smoothing_keeps_first_point_and_bounds() {
    let points = vec![pt(0, 0), pt(10_000, 2000), pt(20_000, 0), pt(30_000, 2000)];
    let out = AppUtils::apply_stroke_smoothing(&points);
    assert!(out.len() >= 3);
    assert_eq!(out[0], pt(0, 0));
    for p in &out {
        assert!(p.x >= 0 && p.x <= 30_000);
        assert!(p.y >= 0 && p.y <= 2000);
    }
}

#[test]
fn smoothing_twice_does_not_lengthen() {
    let points = vec![pt(0, 0), pt(10_000, 8000), pt(20_000, 0), pt(30_000, 8000), pt(40_000, 0)];
    let once = AppUtils::apply_stroke_smoothing(&points);
    let twice = AppUtils::apply_stroke_smoothing(&once);
    let len = |ps: &Vec<Point>| -> i64 {
        let mut total = 0i64;
        for i in 0..ps.len() - 1 {
            total += dist(ps[i], ps[i + 1]);
        }
        total
    };
    // corner cutting only shortens or preserves (up to rounding)
    assert!(len(&twice) <= len(&once) + (twice.len() as i64));
}

#[test]
fn shape_bounding_boxes() {
    let rect_shape = CanvasShape {
        shape_type: CanvasShapeType::Rectangle,
        pos: pt(0, 0),
        size: 20_000,
        color: Color::rgb(255, 255, 255),
        rotation: 0,
    };
    let bb = AppUtils::calculate_shape_bounding_box(&rect_shape);
    assert_eq!(bb, Rect { min: pt(0, 0), max: pt(20_000, 20_000) });
    let circle = CanvasShape {
        shape_type: CanvasShapeType::Circle,
        pos: pt(0, 0),
        size: 20_000,
        color: Color::rgb(255, 255, 255),
        rotation: 0,
    };
    let cb = AppUtils::calculate_shape_bounding_box(&circle);
    assert_eq!(cb, Rect { min: pt(-15_000, -15_000), max: pt(15_000, 15_000) });
}

#[test]
fn stroke_hit_and_miss() {
    let stroke = CanvasStroke {
        points: vec![pt(0, 0), pt(100_000, 0)],
        widths: vec![2000, 2000],
        color: Color::rgb(255, 255, 255),
        base_width: 2000,
    };
    // 5 px above the line with eraser 20: within 10 + 1 = 11 px
    assert!(AppUtils::point_intersects_stroke(pt(50_000, 5_000), &stroke, 20_000));
    // 12 px above: outside
    assert!(!AppUtils::point_intersects_stroke(pt(50_000, 12_000), &stroke, 20_000));
    // a one-point stroke is never hit
    let dot = CanvasStroke {
        points: vec![pt(0, 0)],
        widths: vec![2000],
        color: Color::rgb(255, 255, 255),
        base_width: 2000,
    };
    assert!(!AppUtils::point_intersects_stroke(pt(0, 0), &dot, 20_000));
}

#[test]
fn fps_counter_updates_every_window() {
    let mut c = FpsCounter::new();
    assert_eq!(c.update(10), 0);
    assert_eq!(c.update(20), 0);
    // at 50 ms: 3 frames in 50 ms -> 60 fps (in milli-fps)
    assert_eq!(c.update(50), 60_000);
    assert_eq!(c.frame_count, 0);
    assert_eq!(c.last_ms, 50);
}

#[test]
fn default_state() {
    let s = AppState::new();
    assert_eq!(s.brush_width, 3000);
    assert_eq!(s.current_tool, CanvasTool::Brush);
    assert_eq!(s.interpolation_frequency, 300);
    assert_eq!(s.eraser_size, 10_000);
    assert!(s.stroke_smoothing);
    assert!(s.canvas_objects.is_empty());
    assert_eq!(s.quick_colors.len(), 5);
}

#[test]
fn segment_distance_degenerate_band() {
    // a segment shorter than a hundredth of a pixel degrades to the
    // point-to-point distance from its first endpoint
    let d = AppUtils::point_to_line_segment_distance(pt(10_000, 0), pt(0, 0), pt(9, 0));
    assert_eq!(d, 10_000);
    // at a hundredth of a pixel the full segment rule applies again
    let d2 = AppUtils::point_to_line_segment_distance(pt(10_000, 0), pt(0, 0), pt(10, 0));
    assert_eq!(d2, 9_990);
}

#[test]
fn interpolation_accepts_empty_widths() {
    // a stroke without widths keeps them empty while its points are
    // still interpolated
    let points = vec![pt(0, 0), pt(10_000, 0)];
    let widths: Vec<i64> = Vec::new();
    let (rp, rw) = AppUtils::apply_point_interpolation(&points, &widths, 1000);
    assert_eq!(rp.len(), 12);
    assert!(rw.is_empty());
}
