use smartboard::engine::{
    atan2_milli, brush_move, brush_press, brush_release, clear_canvas, handle_pointer_event,
    object_eraser_event, pixel_eraser_event, rotation_angle, select_click, select_drag,
    select_hover, select_press, select_release, set_tool, shape_resize_size, resize_box,
    apply_aspect, translate_object, PointerPhase,
};
use smartboard::geometry::{Point, Rect};
use smartboard::state::{
    AppState, CanvasObject, CanvasShape, CanvasShapeType, CanvasStroke, CanvasTool, Color,
    DynamicBrushWidthMode, ResizeAnchor, RotationOperation,
};

fn pt(x: i64, y: i64) -> Point {
    Point { x, y }
}

fn canvas() -> Rect {
    Rect { min: pt(-40_000_000, -40_000_000), max: pt(40_000_000, 40_000_000) }
}

fn white() -> Color {
    Color::rgb(255, 255, 255)
}

#[test]
fn brush_stroke_disabled_mode_keeps_base_widths() {
    // three samples at (0,0), (10,0), (20,0) with base width 3.0 and
    // dynamic widths disabled commit widths [3.0, 3.0, 3.0]
    let mut s = AppState::new();
    s.dynamic_brush_width_mode = DynamicBrushWidthMode::Disabled;
    s.stroke_smoothing = false;
    s.interpolation_frequency = 0;
    s.brush_width = 3000;
    brush_press(&mut s, pt(0, 0), canvas(), 1000);
    brush_move(&mut s, pt(10_000, 0), 1010);
    brush_move(&mut s, pt(20_000, 0), 1020);
    brush_release(&mut s);
    assert_eq!(s.canvas_objects.len(), 1);
    match &s.canvas_objects[0] {
        CanvasObject::Stroke(st) => {
            assert_eq!(st.points, vec![pt(0, 0), pt(10_000, 0), pt(20_000, 0)]);
            assert_eq!(st.widths, vec![3000, 3000, 3000]);
            assert_eq!(st.base_width, 3000);
        }
        _ => panic!("expected a stroke"),
    }
    assert!(!s.is_drawing);
}

#[test]
fn brush_distance_gate_drops_close_samples() {
    let mut s = AppState::new();
    s.stroke_smoothing = false;
    s.interpolation_frequency = 0;
    brush_press(&mut s, pt(0, 0), canvas(), 0);
    // exactly one pixel away: not strictly further than 1 px, dropped
    brush_move(&mut s, pt(1000, 0), 5);
    brush_move(&mut s, pt(1001, 0), 10);
    brush_release(&mut s);
    match &s.canvas_objects[0] {
        CanvasObject::Stroke(st) => {
            assert_eq!(st.points, vec![pt(0, 0), pt(1001, 0)]);
        }
        _ => panic!("expected a stroke"),
    }
}

#[test]
fn object_eraser_removes_rectangle() {
    // a click at (5,5) removes the rectangle at (0,0) of size 20
    let mut s = AppState::new();
    s.current_tool = CanvasTool::ObjectEraser;
    s.canvas_objects.push(CanvasObject::Shape(CanvasShape {
        shape_type: CanvasShapeType::Rectangle,
        pos: pt(0, 0),
        size: 20_000,
        color: white(),
        rotation: 0,
    }));
    assert_eq!(s.canvas_objects.len(), 1);
    object_eraser_event(&mut s, pt(5_000, 5_000));
    assert_eq!(s.canvas_objects.len(), 0);
}

#[test]
fn object_eraser_keeps_missed_objects() {
    let mut s = AppState::new();
    s.current_tool = CanvasTool::ObjectEraser;
    s.canvas_objects.push(CanvasObject::Shape(CanvasShape {
        shape_type: CanvasShapeType::Rectangle,
        pos: pt(0, 0),
        size: 20_000,
        color: white(),
        rotation: 0,
    }));
    s.canvas_objects.push(CanvasObject::Stroke(CanvasStroke {
        points: vec![pt(1_000_000, 0), pt(2_000_000, 0)],
        widths: vec![3000, 3000],
        color: white(),
        base_width: 3000,
    }));
    object_eraser_event(&mut s, pt(5_000, 5_000));
    assert_eq!(s.canvas_objects.len(), 1);
    match &s.canvas_objects[0] {
        CanvasObject::Stroke(_) => {}
        _ => panic!("the far stroke should survive"),
    }
}

#[test]
fn select_press_picks_topmost_and_click_clears() {
    let mut s = AppState::new();
    s.current_tool = CanvasTool::Select;
    s.canvas_objects.push(CanvasObject::Shape(CanvasShape {
        shape_type: CanvasShapeType::Rectangle,
        pos: pt(0, 0),
        size: 20_000,
        color: white(),
        rotation: 0,
    }));
    select_press(&mut s, pt(5_000, 5_000));
    assert_eq!(s.selected_object, Some(0));
    assert_eq!(s.drag_start_pos, Some(pt(5_000, 5_000)));
    select_release(&mut s);
    assert_eq!(s.drag_start_pos, None);
    // a click far away clears the selection
    select_click(&mut s, pt(30_000_000, 30_000_000));
    assert_eq!(s.selected_object, None);
}

#[test]
fn select_drag_moves_selected_shape() {
    let mut s = AppState::new();
    s.current_tool = CanvasTool::Select;
    s.canvas_objects.push(CanvasObject::Shape(CanvasShape {
        shape_type: CanvasShapeType::Rectangle,
        pos: pt(0, 0),
        size: 20_000,
        color: white(),
        rotation: 0,
    }));
    s.selected_object = Some(0);
    s.drag_start_pos = Some(pt(5_000, 5_000));
    select_drag(&mut s, pt(8_000, 9_000));
    match &s.canvas_objects[0] {
        CanvasObject::Shape(sh) => assert_eq!(sh.pos, pt(3_000, 4_000)),
        _ => panic!("expected the shape"),
    }
    assert_eq!(s.drag_start_pos, Some(pt(8_000, 9_000)));
}

#[test]
fn shape_resize_bottom_right_adds_delta() {
    // dragging the bottom-right anchor by (+10, +10) from size 50 gives 60
    let r = shape_resize_size(
        ResizeAnchor::BottomRight,
        pt(50_000, 50_000),
        pt(10_000, 10_000),
    );
    assert_eq!(r, 60_000);
    // the opposite pairing subtracts
    let r2 =
        shape_resize_size(ResizeAnchor::TopRight, pt(50_000, 50_000), pt(10_000, 10_000));
    assert_eq!(r2, 40_000);
    // the floor holds
    let r3 =
        shape_resize_size(ResizeAnchor::BottomRight, pt(15_000, 15_000), pt(-10_000, 0));
    assert_eq!(r3, 10_000);
}

#[test]
fn resize_top_left_keeps_bottom_right_fixed() {
    // moving the top-left anchor leaves the opposite corner in place
    let (np, ns) = resize_box(
        ResizeAnchor::TopLeft,
        pt(100_000, 100_000),
        pt(50_000, 50_000),
        pt(7_000, -3_000),
    );
    assert_eq!(np, pt(107_000, 97_000));
    assert_eq!(ns, pt(43_000, 53_000));
    assert_eq!(np.x + ns.x, 150_000);
    assert_eq!(np.y + ns.y, 150_000);
}

#[test]
fn resize_clamps_to_floor() {
    let (_, ns) = resize_box(
        ResizeAnchor::BottomRight,
        pt(0, 0),
        pt(50_000, 50_000),
        pt(-45_000, -45_000),
    );
    assert_eq!(ns, pt(20_000, 20_000));
}

#[test]
fn aspect_ratio_relock() {
    // a 2:1 image pulled too wide gets its width recomputed from height
    let ns = apply_aspect(pt(50_000, 20_000), 200, 100);
    assert_eq!(ns, pt(40_000, 20_000));
    // pulled too tall: height recomputed from width
    let ns2 = apply_aspect(pt(30_000, 40_000), 200, 100);
    assert_eq!(ns2, pt(30_000, 15_000));
    // degenerate ratio leaves the size alone
    let ns3 = apply_aspect(pt(50_000, 20_000), 0, 100);
    assert_eq!(ns3, pt(50_000, 20_000));
}

#[test]
fn atan2_axes() {
    assert_eq!(atan2_milli(0, 1000), 0);
    assert_eq!(atan2_milli(1000, 0), 1571);
    assert_eq!(atan2_milli(0, -1000), 3142);
    assert_eq!(atan2_milli(-1000, 0), -1571);
    assert_eq!(atan2_milli(0, 0), 0);
}

#[test]
fn rotation_angle_quarter_turn() {
    let op = RotationOperation { start_pos: pt(10_000, 0), start_angle: 0, center: pt(0, 0) };
    // dragging from the positive x axis to the positive y axis sweeps ~pi/2
    let a = rotation_angle(op, pt(0, 10_000));
    assert_eq!(a, 1571);
}

#[test]
fn set_tool_change_clears_selection_and_drains() {
    let mut s = AppState::new();
    s.current_tool = CanvasTool::Brush;
    s.stroke_smoothing = false;
    s.interpolation_frequency = 0;
    brush_press(&mut s, pt(0, 0), canvas(), 0);
    brush_move(&mut s, pt(10_000, 0), 5);
    s.selected_object = Some(0);
    set_tool(&mut s, CanvasTool::Select);
    assert_eq!(s.current_tool, CanvasTool::Select);
    assert_eq!(s.selected_object, None);
    assert!(!s.is_drawing);
    assert!(s.active_strokes.is_empty());
    // the in-progress two-point stroke was committed as it stood
    assert_eq!(s.canvas_objects.len(), 1);
}

#[test]
fn clear_canvas_resets_to_brush() {
    let mut s = AppState::new();
    s.current_tool = CanvasTool::Select;
    s.canvas_objects.push(CanvasObject::Shape(CanvasShape {
        shape_type: CanvasShapeType::Circle,
        pos: pt(0, 0),
        size: 20_000,
        color: white(),
        rotation: 0,
    }));
    s.selected_object = Some(0);
    clear_canvas(&mut s);
    assert!(s.canvas_objects.is_empty());
    assert_eq!(s.selected_object, None);
    assert_eq!(s.current_tool, CanvasTool::Brush);
}

#[test]
fn translate_stroke_moves_every_point() {
    let o = CanvasObject::Stroke(CanvasStroke {
        points: vec![pt(0, 0), pt(1000, 1000)],
        widths: vec![3000, 3000],
        color: white(),
        base_width: 3000,
    });
    let t = translate_object(o, pt(500, -500));
    match t {
        CanvasObject::Stroke(st) => {
            assert_eq!(st.points, vec![pt(500, -500), pt(1500, 500)]);
        }
        _ => panic!("expected a stroke"),
    }
}

#[test]
fn pixel_eraser_midpoint_cut_removes_short_stroke() {
    // a 2-point stroke from (0,0) to (100,0) cut at its midpoint with
    // eraser 20 leaves two 1-point runs, both under the 2-point minimum,
    // so the stroke vanishes entirely
    let mut s = AppState::new();
    s.current_tool = CanvasTool::PixelEraser;
    s.eraser_size = 20_000;
    s.canvas_objects.push(CanvasObject::Stroke(CanvasStroke {
        points: vec![pt(0, 0), pt(100_000, 0)],
        widths: vec![2000, 2000],
        color: white(),
        base_width: 2000,
    }));
    pixel_eraser_event(&mut s, pt(50_000, 0));
    assert_eq!(s.canvas_objects.len(), 0);
}

#[test]
fn pixel_eraser_cuts_middle_of_long_stroke() {
    // a 5-point stroke loses its middle segments; the surviving front run
    // keeps its points, the back run restarts past the cut
    let mut s = AppState::new();
    s.current_tool = CanvasTool::PixelEraser;
    s.eraser_size = 10_000;
    s.canvas_objects.push(CanvasObject::Stroke(CanvasStroke {
        points: vec![
            pt(0, 0),
            pt(100_000, 0),
            pt(200_000, 0),
            pt(300_000, 0),
            pt(400_000, 0),
        ],
        widths: vec![2000, 2000, 2000, 2000, 2000],
        color: white(),
        base_width: 2000,
    }));
    // the eraser sits on the midpoint of the third segment only
    pixel_eraser_event(&mut s, pt(250_000, 20_000));
    // still hits nothing (20 px above, radius 5 + half-width 1)
    assert_eq!(s.canvas_objects.len(), 1);
    pixel_eraser_event(&mut s, pt(250_000, 0));
    // front run: points 0..=2 (3 points); back run restarts at point 4
    // with a single point and is dropped
    assert_eq!(s.canvas_objects.len(), 1);
    match &s.canvas_objects[0] {
        CanvasObject::Stroke(st) => {
            assert_eq!(st.points, vec![pt(0, 0), pt(100_000, 0), pt(200_000, 0)]);
            assert_eq!(st.widths, vec![2000, 2000, 2000]);
        }
        _ => panic!("expected a stroke"),
    }
}

#[test]
fn pixel_eraser_keeps_non_strokes() {
    let mut s = AppState::new();
    s.current_tool = CanvasTool::PixelEraser;
    s.canvas_objects.push(CanvasObject::Shape(CanvasShape {
        shape_type: CanvasShapeType::Rectangle,
        pos: pt(0, 0),
        size: 20_000,
        color: white(),
        rotation: 0,
    }));
    pixel_eraser_event(&mut s, pt(5_000, 5_000));
    assert_eq!(s.canvas_objects.len(), 1);
}

#[test]
fn dispatcher_routes_by_tool() {
    let mut s = AppState::new();
    s.stroke_smoothing = false;
    s.interpolation_frequency = 0;
    // the brush draws
    handle_pointer_event(&mut s, pt(0, 0), PointerPhase::DragStart, canvas(), 0);
    handle_pointer_event(&mut s, pt(10_000, 0), PointerPhase::Drag, canvas(), 5);
    handle_pointer_event(&mut s, pt(10_000, 0), PointerPhase::DragStop, canvas(), 9);
    assert_eq!(s.canvas_objects.len(), 1);
    // settings ignores pointer events entirely
    s.current_tool = CanvasTool::Settings;
    handle_pointer_event(&mut s, pt(0, 0), PointerPhase::Click, canvas(), 20);
    assert_eq!(s.canvas_objects.len(), 1);
}

#[test]
fn rotation_press_uses_shape_angle() {
    let mut s = AppState::new();
    s.current_tool = CanvasTool::Select;
    s.canvas_objects.push(CanvasObject::Shape(CanvasShape {
        shape_type: CanvasShapeType::Rectangle,
        pos: pt(0, 0),
        size: 40_000,
        color: white(),
        rotation: 700,
    }));
    s.selected_object = Some(0);
    // the rotation anchor sits 30 px above the box's top center; hover
    // marks it, and a press there starts the rotation at the shape angle.
    // (the press-time hit test would drop the selection, so give the shape
    // a stroke underneath to hold it, as a real canvas would)
    s.canvas_objects.push(CanvasObject::Stroke(CanvasStroke {
        points: vec![pt(0, -30_000), pt(40_000, -30_000)],
        widths: vec![2000, 2000],
        color: white(),
        base_width: 2000,
    }));
    let anchor_pos = pt(20_000, -30_000);
    select_hover(&mut s, anchor_pos);
    assert!(s.rotation_anchor_hovered);
    select_press(&mut s, anchor_pos);
    let op = s.rotation_operation.expect("rotation should have started");
    assert_eq!(op.start_angle, 700);
    assert_eq!(op.center, pt(20_000, 20_000));
}

#[test]
fn committed_stroke_widths_stay_parallel_under_smoothing() {
    // smoothing changes the point count; the committed widths are fitted
    // so the data-model invariant (parallel widths) holds even with
    // interpolation off
    let mut s = AppState::new();
    s.stroke_smoothing = true;
    s.interpolation_frequency = 0;
    brush_press(&mut s, pt(0, 0), canvas(), 0);
    brush_move(&mut s, pt(10_000, 2_000), 10);
    brush_move(&mut s, pt(20_000, 0), 20);
    brush_move(&mut s, pt(30_000, 2_000), 30);
    brush_release(&mut s);
    assert_eq!(s.canvas_objects.len(), 1);
    match &s.canvas_objects[0] {
        CanvasObject::Stroke(st) => {
            assert!(st.points.len() >= 2);
            assert_eq!(st.widths.len(), st.points.len());
        }
        _ => panic!("expected a stroke"),
    }
}
