//! The canvas object model and the application state it lives in.
//!
//! Objects form a closed set of variants; their position in the canvas
//! sequence is the z-order (later objects draw on top and are hit-tested
//! first). All scalars are milli-pixel fixed-point integers; every type
//! carries a well-formedness predicate that constructors establish and the
//! interaction engine preserves.

use vstd::prelude::*;
use crate::geometry::{Point, point_ok, OBJ_LIMIT};

verus! {

/// Largest stroke width (in milli-pixels) the model accepts.
pub const WIDTH_LIMIT: i64 = 10_000_000;

/// Largest rotation magnitude (in milli-radians) a shape may carry.
pub const ROT_LIMIT: i64 = 1_000_000_000;

/// Largest aspect-ratio component (pixel dimensions at load time).
pub const ASPECT_LIMIT: i64 = 1_000_000;

// ---------------------------------------------------------------------------
// Configuration enums.
// ---------------------------------------------------------------------------

/// How the host window is presented.
#[derive(Clone, Copy, PartialEq, Eq, Structural, Debug)]
pub enum WindowMode {
    Windowed,
    Fullscreen,
    BorderlessFullscreen,
}

/// How per-point stroke widths are derived while drawing.
#[derive(Clone, Copy, PartialEq, Eq, Structural, Debug)]
pub enum DynamicBrushWidthMode {
    Disabled,
    BrushTip,
    SpeedBased,
}

/// Light/dark theme selection.
#[derive(Clone, Copy, PartialEq, Eq, Structural, Debug)]
pub enum ThemeMode {
    System,
    Light,
    Dark,
}

/// The exclusive tool the pointer currently drives.
#[derive(Clone, Copy, PartialEq, Eq, Structural, Debug)]
pub enum CanvasTool {
    Select,
    Brush,
    ObjectEraser,
    PixelEraser,
    Insert,
    Settings,
}

/// When the host requests repaints.
#[derive(Clone, Copy, PartialEq, Eq, Structural, Debug)]
pub enum RenderUpdateMode {
    /// Repaint only when there is input or an animation.
    Reactive,
    /// Request a repaint after every frame.
    Continuous,
}

impl Default for RenderUpdateMode {
    /// Reactive mode is the default: it saves CPU and nothing outside the
    /// pointer stream can invalidate the canvas.
    fn default() -> (r: Self)
        ensures
            r == RenderUpdateMode::Reactive,
    {
        RenderUpdateMode::Reactive
    }
}

/// The eight resize handles on a selected object's bounding box.
#[derive(Clone, Copy, PartialEq, Eq, Structural, Debug)]
pub enum ResizeAnchor {
    Top,
    Bottom,
    Left,
    Right,
    TopLeft,
    TopRight,
    BottomLeft,
    BottomRight,
}

// ---------------------------------------------------------------------------
// Colors.
// ---------------------------------------------------------------------------

/// An sRGBA color.
#[derive(Clone, Copy, PartialEq, Eq, Structural, Debug)]
pub struct Color {
    pub r: u8,
    pub g: u8,
    pub b: u8,
    pub a: u8,
}

impl Color {
    /// An opaque color from its three channels.
    pub fn rgb(r: u8, g: u8, b: u8) -> (c: Color)
        ensures
            c == (Color { r, g, b, a: 255u8 }),
    {
        Color { r, g, b, a: 255 }
    }
}

pub open spec fn white() -> Color {
    Color { r: 255u8, g: 255u8, b: 255u8, a: 255u8 }
}

// ---------------------------------------------------------------------------
// Canvas objects.
// ---------------------------------------------------------------------------

/// A committed freehand stroke: a polyline with per-point widths.
#[derive(Clone, Debug)]
pub struct CanvasStroke {
    pub points: Vec<Point>,
    pub widths: Vec<i64>,
    pub color: Color,
    pub base_width: i64,
}

/// An inserted image: a handle the host resolves to pixel data, plus its
/// placement and the aspect ratio captured at load time (as the pixel
/// dimensions of the decoded image).
#[derive(Clone, Debug)]
pub struct CanvasImage {
    pub texture: u64,
    pub pos: Point,
    pub size: Point,
    pub aspect_w: i64,
    pub aspect_h: i64,
    pub marked_for_deletion: bool,
}

/// An inserted text label. `size` is the measured layout extent, supplied
/// and refreshed by the host's text layout each frame.
#[derive(Clone, Debug)]
pub struct CanvasText {
    pub text: String,
    pub pos: Point,
    pub color: Color,
    pub font_size: i64,
    pub size: Point,
}

/// The kinds of geometric shapes that can be inserted.
#[derive(Clone, Copy, PartialEq, Eq, Structural, Debug)]
pub enum CanvasShapeType {
    Line,
    Arrow,
    Rectangle,
    Triangle,
    Circle,
}

/// An inserted shape: one anchor position, one scalar size whose meaning
/// depends on the kind, and a rotation in milli-radians.
#[derive(Clone, Debug)]
pub struct CanvasShape {
    pub shape_type: CanvasShapeType,
    pub pos: Point,
    pub size: i64,
    pub color: Color,
    pub rotation: i64,
}

/// A canvas object; the sequence position in the canvas is its z-order.
#[derive(Clone, Debug)]
pub enum CanvasObject {
    Stroke(CanvasStroke),
    Image(CanvasImage),
    Text(CanvasText),
    Shape(CanvasShape),
}

// ---------------------------------------------------------------------------
// Well-formedness.
// ---------------------------------------------------------------------------

pub open spec fn coord_obj_ok(c: int) -> bool {
    -(OBJ_LIMIT as int) <= c <= OBJ_LIMIT as int
}

pub open spec fn point_obj_ok(p: Point) -> bool {
    coord_obj_ok(p.x as int) && coord_obj_ok(p.y as int)
}

pub open spec fn width_ok(w: int) -> bool {
    0 <= w <= WIDTH_LIMIT as int
}

pub open spec fn stroke_wf(s: CanvasStroke) -> bool {
    &&& forall|i: int| 0 <= i < s.points@.len() ==> point_obj_ok(#[trigger] s.points@[i])
    &&& forall|i: int| 0 <= i < s.widths@.len() ==> width_ok(#[trigger] s.widths@[i] as int)
    &&& width_ok(s.base_width as int)
    &&& s.widths@.len() == s.points@.len() || s.widths@.len() == 0
}

pub open spec fn image_wf(img: CanvasImage) -> bool {
    &&& point_obj_ok(img.pos)
    &&& 0 <= img.size.x <= OBJ_LIMIT
    &&& 0 <= img.size.y <= OBJ_LIMIT
    &&& 0 <= img.aspect_w <= ASPECT_LIMIT
    &&& 0 <= img.aspect_h <= ASPECT_LIMIT
}

pub open spec fn text_wf(t: CanvasText) -> bool {
    &&& point_obj_ok(t.pos)
    &&& 0 <= t.font_size <= WIDTH_LIMIT
    &&& 0 <= t.size.x <= OBJ_LIMIT
    &&& 0 <= t.size.y <= OBJ_LIMIT
}

pub open spec fn shape_wf(s: CanvasShape) -> bool {
    &&& point_obj_ok(s.pos)
    &&& 0 <= s.size <= OBJ_LIMIT
    &&& -ROT_LIMIT <= s.rotation <= ROT_LIMIT
}

pub open spec fn object_wf(o: CanvasObject) -> bool {
    match o {
        CanvasObject::Stroke(s) => stroke_wf(s),
        CanvasObject::Image(i) => image_wf(i),
        CanvasObject::Text(t) => text_wf(t),
        CanvasObject::Shape(s) => shape_wf(s),
    }
}

// ---------------------------------------------------------------------------
// Transient interaction state.
// ---------------------------------------------------------------------------

/// Snapshot taken when a resize drag starts; all resize math is relative to
/// it rather than to incremental deltas, to avoid drift.
#[derive(Clone, Copy, PartialEq, Eq, Structural, Debug)]
pub struct ResizeOperation {
    pub anchor: ResizeAnchor,
    pub start_pos: Point,
    pub start_size: Point,
    pub start_object_pos: Point,
}

/// Snapshot taken when a rotation drag starts.
#[derive(Clone, Copy, PartialEq, Eq, Structural, Debug)]
pub struct RotationOperation {
    pub start_pos: Point,
    pub start_angle: i64,
    pub center: Point,
}

/// One in-progress freehand stroke, keyed by its pointer contact.
/// `times` holds each sample's offset from `start_ms` in milliseconds.
#[derive(Clone, Debug)]
pub struct ActiveStroke {
    pub points: Vec<Point>,
    pub widths: Vec<i64>,
    pub times: Vec<u64>,
    pub start_ms: u64,
}

pub open spec fn active_stroke_wf(s: ActiveStroke) -> bool {
    &&& s.points@.len() == s.widths@.len()
    &&& s.points@.len() == s.times@.len()
    &&& forall|i: int| 0 <= i < s.points@.len() ==> point_obj_ok(#[trigger] s.points@[i])
    &&& forall|i: int| 0 <= i < s.widths@.len() ==> width_ok(#[trigger] s.widths@[i] as int)
}

/// Frame counter reporting frames per second in milli-fps.
#[derive(Clone, Copy, PartialEq, Eq, Structural, Debug)]
pub struct FpsCounter {
    pub frame_count: u32,
    pub last_ms: u64,
    pub current_fps: u64,
}

impl FpsCounter {
    /// A counter that has seen no frames.
    pub fn new() -> (c: FpsCounter)
        ensures
            c.frame_count == 0,
            c.last_ms == 0,
            c.current_fps == 0,
    {
        FpsCounter { frame_count: 0, last_ms: 0, current_fps: 0 }
    }

    /// Count one frame at time `now_ms`; every 50 ms the rate is re-derived
    /// from the frames seen since the last update and the window restarts.
    pub fn update(&mut self, now_ms: u64) -> (fps: u64)
        requires
            old(self).last_ms <= now_ms,
            old(self).frame_count < u32::MAX,
        ensures
            ({
                let counted = old(self).frame_count + 1;
                let elapsed = now_ms - old(self).last_ms;
                if elapsed >= 50 {
                    &&& final(self).frame_count == 0
                    &&& final(self).last_ms == now_ms
                    &&& final(self).current_fps == counted * 1_000_000 as int / (elapsed as int)
                } else {
                    &&& final(self).frame_count == counted
                    &&& final(self).last_ms == old(self).last_ms
                    &&& final(self).current_fps == old(self).current_fps
                }
            }),
            fps == final(self).current_fps,
    {
        self.frame_count = self.frame_count + 1;
        let elapsed: u64 = now_ms - self.last_ms;
        if elapsed >= 50 {
            self.current_fps = (self.frame_count as u64) * 1_000_000 / elapsed;
            self.frame_count = 0;
            self.last_ms = now_ms;
        }
        self.current_fps
    }
}

// ---------------------------------------------------------------------------
// Application state.
// ---------------------------------------------------------------------------

/// The whole mutable state the interaction engine owns.
#[derive(Debug)]
pub struct AppState {
    /// All committed canvas objects, in z-order.
    pub canvas_objects: Vec<CanvasObject>,
    /// In-progress strokes, keyed by pointer contact id.
    pub active_strokes: Vec<(u64, ActiveStroke)>,
    /// Whether a brush contact is currently down.
    pub is_drawing: bool,
    pub brush_color: Color,
    /// Brush base width in milli-pixels.
    pub brush_width: i64,
    pub dynamic_brush_width_mode: DynamicBrushWidthMode,
    pub stroke_smoothing: bool,
    /// Interpolation frequency in thousandths of insertions per pixel.
    pub interpolation_frequency: i64,
    pub current_tool: CanvasTool,
    /// Eraser diameter in milli-pixels.
    pub eraser_size: i64,
    pub background_color: Color,
    /// Index of the selected object in `canvas_objects`, if any.
    pub selected_object: Option<usize>,
    pub drag_start_pos: Option<Point>,
    pub show_size_preview: bool,
    pub show_text_dialog: bool,
    pub new_text_content: String,
    pub show_shape_dialog: bool,
    pub show_fps: bool,
    pub fps_counter: FpsCounter,
    pub touch_points: Vec<(u64, Point)>,
    pub window_mode: WindowMode,
    pub keep_insertion_window_open: bool,
    pub resize_anchor_hovered: Option<ResizeAnchor>,
    pub rotation_anchor_hovered: bool,
    pub resize_operation: Option<ResizeOperation>,
    pub rotation_operation: Option<RotationOperation>,
    pub quick_colors: Vec<Color>,
    pub show_quick_color_editor: bool,
    pub new_quick_color: Color,
    pub show_touch_points: bool,
    pub theme_mode: ThemeMode,
    pub render_update_mode: RenderUpdateMode,
}

/// Bounds on a stored resize snapshot (established at press time).
pub open spec fn resize_op_wf(op: ResizeOperation) -> bool {
    &&& point_obj_ok(op.start_pos)
    &&& -100_000_000 <= op.start_object_pos.x <= 100_000_000
    &&& -100_000_000 <= op.start_object_pos.y <= 100_000_000
    &&& -200_000_000 <= op.start_size.x <= 200_000_000
    &&& -200_000_000 <= op.start_size.y <= 200_000_000
}

/// Bounds on a stored rotation snapshot (established at press time).
pub open spec fn rotation_op_wf(op: RotationOperation) -> bool {
    &&& point_obj_ok(op.start_pos)
    &&& -100_000_000 <= op.center.x <= 100_000_000
    &&& -100_000_000 <= op.center.y <= 100_000_000
    &&& -ROT_LIMIT <= op.start_angle <= ROT_LIMIT
}

pub open spec fn state_wf(s: AppState) -> bool {
    &&& forall|i: int|
        0 <= i < s.canvas_objects@.len() ==> object_wf(#[trigger] s.canvas_objects@[i])
    &&& forall|i: int|
        0 <= i < s.active_strokes@.len() ==> active_stroke_wf(
            (#[trigger] s.active_strokes@[i]).1,
        )
    &&& match s.drag_start_pos {
        Some(p) => point_obj_ok(p),
        None => true,
    }
    &&& match s.resize_operation {
        Some(op) => resize_op_wf(op),
        None => true,
    }
    &&& match s.rotation_operation {
        Some(op) => rotation_op_wf(op),
        None => true,
    }
    &&& 0 <= s.brush_width <= 1_000_000
    &&& 0 <= s.eraser_size <= 1_000_000
    &&& 0 <= s.interpolation_frequency <= 1000
}

impl AppState {
    /// The initial state: an empty canvas with the brush selected.
    pub fn new() -> (s: AppState)
        ensures
            state_wf(s),
            s.canvas_objects@.len() == 0,
            s.active_strokes@.len() == 0,
            !s.is_drawing,
            s.brush_color == white(),
            s.brush_width == 3000,
            s.dynamic_brush_width_mode == DynamicBrushWidthMode::Disabled,
            s.stroke_smoothing,
            s.interpolation_frequency == 300,
            s.current_tool == CanvasTool::Brush,
            s.eraser_size == 10_000,
            s.background_color == (Color { r: 0u8, g: 50u8, b: 35u8, a: 255u8 }),
            s.selected_object is None,
            s.drag_start_pos is None,
            s.resize_anchor_hovered is None,
            !s.rotation_anchor_hovered,
            s.resize_operation is None,
            s.rotation_operation is None,
            s.window_mode == WindowMode::BorderlessFullscreen,
            s.theme_mode == ThemeMode::System,
            s.render_update_mode == RenderUpdateMode::Reactive,
            s.quick_colors@.len() == 5,
    {
        let mut quick: Vec<Color> = Vec::new();
        quick.push(Color::rgb(255, 0, 0));
        quick.push(Color::rgb(255, 255, 0));
        quick.push(Color::rgb(0, 255, 0));
        quick.push(Color::rgb(0, 0, 0));
        quick.push(Color::rgb(255, 255, 255));
        AppState {
            canvas_objects: Vec::new(),
            active_strokes: Vec::new(),
            is_drawing: false,
            brush_color: Color::rgb(255, 255, 255),
            brush_width: 3000,
            dynamic_brush_width_mode: DynamicBrushWidthMode::Disabled,
            stroke_smoothing: true,
            interpolation_frequency: 300,
            current_tool: CanvasTool::Brush,
            eraser_size: 10_000,
            background_color: Color::rgb(0, 50, 35),
            selected_object: None,
            drag_start_pos: None,
            show_size_preview: false,
            show_text_dialog: false,
            new_text_content: String::new(),
            show_shape_dialog: false,
            show_fps: true,
            fps_counter: FpsCounter::new(),
            touch_points: Vec::new(),
            window_mode: WindowMode::BorderlessFullscreen,
            keep_insertion_window_open: true,
            resize_anchor_hovered: None,
            rotation_anchor_hovered: false,
            resize_operation: None,
            rotation_operation: None,
            quick_colors: quick,
            show_quick_color_editor: false,
            new_quick_color: Color::rgb(255, 255, 255),
            show_touch_points: false,
            theme_mode: ThemeMode::System,
            render_update_mode: RenderUpdateMode::Reactive,
        }
    }
}

impl Default for AppState {
    /// Same state as `AppState::new`.
    fn default() -> (s: Self)
        ensures
            state_wf(s),
            s.canvas_objects@.len() == 0,
            s.active_strokes@.len() == 0,
            !s.is_drawing,
            s.brush_color == white(),
            s.brush_width == 3000,
            s.dynamic_brush_width_mode == DynamicBrushWidthMode::Disabled,
            s.stroke_smoothing,
            s.interpolation_frequency == 300,
            s.current_tool == CanvasTool::Brush,
            s.eraser_size == 10_000,
            s.background_color == (Color { r: 0u8, g: 50u8, b: 35u8, a: 255u8 }),
            s.selected_object is None,
            s.drag_start_pos is None,
            s.resize_anchor_hovered is None,
            !s.rotation_anchor_hovered,
            s.resize_operation is None,
            s.rotation_operation is None,
            s.window_mode == WindowMode::BorderlessFullscreen,
            s.theme_mode == ThemeMode::System,
            s.render_update_mode == RenderUpdateMode::Reactive,
            s.quick_colors@.len() == 5,
    {
        AppState::new()
    }
}

} // verus!
