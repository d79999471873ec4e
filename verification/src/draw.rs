//! Derivation of drawable geometry.
//!
//! The core never paints; each object turns into a sequence of drawing
//! primitives that the embedding layer hands to its paint surface. A
//! selected object additionally emits a highlight border.

use vstd::prelude::*;
use crate::geometry::{Point, Rect, mul_div_floor, OBJ_LIMIT};
use crate::state::{
    CanvasObject, CanvasStroke, CanvasImage, CanvasText, CanvasShape, CanvasShapeType, Color,
    stroke_wf, image_wf, text_wf, shape_wf, object_wf,
};
use crate::utils::{AppUtils, shape_bbox_spec};

verus! {

/// Width of outline strokes (selection borders, shape outlines).
pub const OUTLINE_WIDTH: i64 = 2_000;

/// The highlight color for selected objects.
pub open spec fn highlight() -> Color {
    Color { r: 0u8, g: 0u8, b: 255u8, a: 255u8 }
}

/// One drawing primitive for the paint surface.
#[derive(Clone, Debug)]
pub enum DrawCmd {
    /// A line segment of the given stroke width.
    Segment { a: Point, b: Point, width: i64, color: Color },
    /// A connected polyline of uniform width.
    Path { points: Vec<Point>, width: i64, color: Color },
    /// A filled convex polygon.
    Polygon { points: Vec<Point>, color: Color },
    /// An unfilled circle outline.
    CircleStroke { center: Point, radius: i64, width: i64, color: Color },
    /// An unfilled rectangle outline.
    RectStroke { rect: Rect, width: i64, color: Color },
    /// An image blit into a rectangle, by texture handle.
    Image { texture: u64, rect: Rect },
    /// A text layout request at a top-left position.
    Text { pos: Point, text: String, font_size: i64, color: Color },
}

/// Whether all widths of a stroke are equal up to a hundredth of a pixel,
/// in which case the stroke renders as one connected path.
pub open spec fn uniform_widths(widths: Seq<i64>) -> bool {
    forall|i: int|
        0 <= i < widths.len() - 1 ==> -10 < #[trigger] widths[i] - widths[i + 1] < 10
}

/// The width drawn for a stroke point: the recorded width when there is
/// one, the base width otherwise.
pub open spec fn stroke_width_at(s: CanvasStroke, i: int) -> int {
    if s.widths@.len() == 0 {
        s.base_width as int
    } else if i < s.widths@.len() {
        s.widths@[i] as int
    } else {
        s.widths@[s.widths@.len() - 1] as int
    }
}

impl CanvasImage {
    /// The image blit, plus a highlight border when selected.
    pub fn draw(&self, selected: bool) -> (r: Vec<DrawCmd>)
        requires
            image_wf(*self),
        ensures
            r@.len() == if selected {
                2int
            } else {
                1int
            },
            r@[0] == (DrawCmd::Image {
                texture: self.texture,
                rect: Rect {
                    min: self.pos,
                    max: Point {
                        x: (self.pos.x + self.size.x) as i64,
                        y: (self.pos.y + self.size.y) as i64,
                    },
                },
            }),
            selected ==> r@[1] == (DrawCmd::RectStroke {
                rect: Rect {
                    min: self.pos,
                    max: Point {
                        x: (self.pos.x + self.size.x) as i64,
                        y: (self.pos.y + self.size.y) as i64,
                    },
                },
                width: OUTLINE_WIDTH,
                color: highlight(),
            }),
    {
        let rect = Rect {
            min: self.pos,
            max: Point { x: self.pos.x + self.size.x, y: self.pos.y + self.size.y },
        };
        let mut r: Vec<DrawCmd> = Vec::new();
        r.push(DrawCmd::Image { texture: self.texture, rect });
        if selected {
            r.push(
                DrawCmd::RectStroke { rect, width: OUTLINE_WIDTH, color: Color::rgb(0, 0, 255) },
            );
        }
        r
    }
}

impl CanvasText {
    /// The text layout request, plus a highlight border around the
    /// measured extent when selected.
    pub fn draw(&self, selected: bool) -> (r: Vec<DrawCmd>)
        requires
            text_wf(*self),
        ensures
            r@.len() == if selected {
                2int
            } else {
                1int
            },
            (r@[0] matches DrawCmd::Text { pos, text, font_size, color } && pos == self.pos
                && text@ == self.text@ && font_size == self.font_size && color == self.color),
            selected ==> r@[1] == (DrawCmd::RectStroke {
                rect: Rect {
                    min: self.pos,
                    max: Point {
                        x: (self.pos.x + self.size.x) as i64,
                        y: (self.pos.y + self.size.y) as i64,
                    },
                },
                width: OUTLINE_WIDTH,
                color: highlight(),
            }),
    {
        let mut r: Vec<DrawCmd> = Vec::new();
        r.push(
            DrawCmd::Text {
                pos: self.pos,
                text: self.text.clone(),
                font_size: self.font_size,
                color: self.color,
            },
        );
        if selected {
            let rect = Rect {
                min: self.pos,
                max: Point { x: self.pos.x + self.size.x, y: self.pos.y + self.size.y },
            };
            r.push(
                DrawCmd::RectStroke { rect, width: OUTLINE_WIDTH, color: Color::rgb(0, 0, 255) },
            );
        }
        r
    }
}

impl CanvasShape {
    /// The shape's outline geometry, plus a highlight border around its
    /// bounding box when selected. Lines and arrows run horizontally from
    /// the anchor in the unrotated frame; the embedding layer applies the
    /// stored rotation when it paints.
    pub fn draw(&self, selected: bool) -> (r: Vec<DrawCmd>)
        requires
            shape_wf(*self),
        ensures
            r@.len() == shape_cmd_count(*self) + if selected {
                1int
            } else {
                0int
            },
            shape_cmds_ok(*self, r@),
            selected ==> r@[shape_cmd_count(*self)] == (DrawCmd::RectStroke {
                rect: shape_bbox_spec(*self),
                width: OUTLINE_WIDTH,
                color: highlight(),
            }),
    {
        let mut r: Vec<DrawCmd> = Vec::new();
        match self.shape_type {
            CanvasShapeType::Line => {
                let end = Point { x: self.pos.x + self.size, y: self.pos.y };
                r.push(
                    DrawCmd::Segment {
                        a: self.pos,
                        b: end,
                        width: OUTLINE_WIDTH,
                        color: self.color,
                    },
                );
            },
            CanvasShapeType::Arrow => {
                let end = Point { x: self.pos.x + self.size, y: self.pos.y };
                r.push(
                    DrawCmd::Segment {
                        a: self.pos,
                        b: end,
                        width: OUTLINE_WIDTH,
                        color: self.color,
                    },
                );
                let arrow_size: i64 = mul_div_floor(self.size, 1, 10);
                let off_x: i64 = mul_div_floor(arrow_size, 866, 1000);
                let off_y: i64 = mul_div_floor(arrow_size, 1, 2);
                r.push(
                    DrawCmd::Segment {
                        a: end,
                        b: Point { x: end.x - off_x, y: end.y - off_y },
                        width: OUTLINE_WIDTH,
                        color: self.color,
                    },
                );
                r.push(
                    DrawCmd::Segment {
                        a: end,
                        b: Point { x: end.x - off_x, y: end.y + off_y },
                        width: OUTLINE_WIDTH,
                        color: self.color,
                    },
                );
            },
            CanvasShapeType::Rectangle => {
                r.push(
                    DrawCmd::RectStroke {
                        rect: Rect {
                            min: self.pos,
                            max: Point {
                                x: self.pos.x + self.size,
                                y: self.pos.y + self.size,
                            },
                        },
                        width: OUTLINE_WIDTH,
                        color: self.color,
                    },
                );
            },
            CanvasShapeType::Triangle => {
                let half: i64 = mul_div_floor(self.size, 1, 2);
                let mut pts: Vec<Point> = Vec::new();
                pts.push(self.pos);
                pts.push(Point { x: self.pos.x + self.size, y: self.pos.y });
                pts.push(Point { x: self.pos.x + half, y: self.pos.y + half });
                proof {
                    assert(pts@ =~= seq![
                        self.pos,
                        Point { x: (self.pos.x + self.size) as i64, y: self.pos.y },
                        Point {
                            x: (self.pos.x as int + half) as i64,
                            y: (self.pos.y as int + half) as i64,
                        },
                    ]);
                }
                r.push(DrawCmd::Polygon { points: pts, color: self.color });
            },
            CanvasShapeType::Circle => {
                let radius: i64 = mul_div_floor(self.size, 1, 2);
                r.push(
                    DrawCmd::CircleStroke {
                        center: self.pos,
                        radius,
                        width: OUTLINE_WIDTH,
                        color: self.color,
                    },
                );
            },
        }
        if selected {
            let bb = AppUtils::calculate_shape_bounding_box(self);
            r.push(DrawCmd::RectStroke { rect: bb, width: OUTLINE_WIDTH, color: Color::rgb(0, 0, 255) });
        }
        r
    }
}

/// How many primitives a shape's own outline takes.
pub open spec fn shape_cmd_count(s: CanvasShape) -> int {
    match s.shape_type {
        CanvasShapeType::Arrow => 3,
        _ => 1,
    }
}

/// The outline primitives each shape kind emits.
pub open spec fn shape_cmds_ok(s: CanvasShape, r: Seq<DrawCmd>) -> bool {
    let end = Point { x: (s.pos.x + s.size) as i64, y: s.pos.y };
    match s.shape_type {
        CanvasShapeType::Line => r[0] == (DrawCmd::Segment {
            a: s.pos,
            b: end,
            width: OUTLINE_WIDTH,
            color: s.color,
        }),
        CanvasShapeType::Arrow => {
            let arrow_size = s.size as int * 1 / 10;
            let off_x = arrow_size * 866 / 1000;
            let off_y = arrow_size * 1 / 2;
            &&& r[0] == (DrawCmd::Segment {
                a: s.pos,
                b: end,
                width: OUTLINE_WIDTH,
                color: s.color,
            })
            &&& r[1] == (DrawCmd::Segment {
                a: end,
                b: Point { x: (end.x - off_x) as i64, y: (end.y - off_y) as i64 },
                width: OUTLINE_WIDTH,
                color: s.color,
            })
            &&& r[2] == (DrawCmd::Segment {
                a: end,
                b: Point { x: (end.x - off_x) as i64, y: (end.y + off_y) as i64 },
                width: OUTLINE_WIDTH,
                color: s.color,
            })
        },
        CanvasShapeType::Rectangle => r[0] == (DrawCmd::RectStroke {
            rect: Rect {
                min: s.pos,
                max: Point { x: (s.pos.x + s.size) as i64, y: (s.pos.y + s.size) as i64 },
            },
            width: OUTLINE_WIDTH,
            color: s.color,
        }),
        CanvasShapeType::Triangle => {
            let half = s.size as int * 1 / 2;
            r[0] matches DrawCmd::Polygon { points, color } && points@ == seq![
                s.pos,
                Point { x: (s.pos.x + s.size) as i64, y: s.pos.y },
                Point { x: (s.pos.x + half) as i64, y: (s.pos.y + half) as i64 },
            ] && color == s.color
        },
        CanvasShapeType::Circle => r[0] == (DrawCmd::CircleStroke {
            center: s.pos,
            radius: (s.size as int * 1 / 2) as i64,
            width: OUTLINE_WIDTH,
            color: s.color,
        }),
    }
}

impl CanvasStroke {
    /// The ink geometry: nothing below two points; one segment or one
    /// connected path when the widths are uniform; otherwise one segment
    /// per edge at the average of its endpoint widths. A selected stroke
    /// is drawn entirely in the highlight color.
    pub fn draw(&self, selected: bool) -> (r: Vec<DrawCmd>)
        requires
            stroke_wf(*self),
        ensures
            ({
                let color = if selected {
                    highlight()
                } else {
                    self.color
                };
                let n = self.points@.len();
                if n < 2 {
                    r@.len() == 0
                } else if uniform_widths(self.widths@) && n == 2 {
                    r@ == seq![
                        DrawCmd::Segment {
                            a: self.points@[0],
                            b: self.points@[1],
                            width: stroke_width_at(*self, 0) as i64,
                            color,
                        },
                    ]
                } else if uniform_widths(self.widths@) {
                    r@.len() == 1 && (r@[0] matches DrawCmd::Path { points, width, color: c }
                        && points@ == self.points@ && width == stroke_width_at(*self, 0)
                        && c == color)
                } else {
                    r@.len() == n - 1 && forall|k: int|
                        0 <= k < n - 1 ==> r@[k] == (DrawCmd::Segment {
                            a: self.points@[k],
                            b: self.points@[k + 1],
                            width: ((stroke_width_at(*self, k) + stroke_width_at(*self, k + 1))
                                / 2) as i64,
                            color,
                        })
                }
            }),
    {
        let mut r: Vec<DrawCmd> = Vec::new();
        if self.points.len() < 2 {
            return r;
        }
        let color: Color = if selected {
            Color::rgb(0, 0, 255)
        } else {
            self.color
        };
        let mut uniform: bool = true;
        let mut i: usize = 0;
        let wn: usize = self.widths.len();
        while i + 1 < wn
            invariant
                wn == self.widths@.len(),
                0 <= i,
                wn >= 1 ==> i <= wn - 1,
                wn == 0 ==> i == 0,
                stroke_wf(*self),
                uniform == (forall|k: int|
                    0 <= k < i ==> -10 < #[trigger] self.widths@[k] - self.widths@[k + 1] < 10),
            decreases self.widths@.len() - i,
        {
            let d: i64 = self.widths[i] - self.widths[i + 1];
            if !(-10 < d && d < 10) {
                uniform = false;
            }
            i = i + 1;
        }
        assert(uniform == uniform_widths(self.widths@));
        if uniform && self.points.len() == 2 {
            let w: i64 = self.width_at(0);
            r.push(
                DrawCmd::Segment { a: self.points[0], b: self.points[1], width: w, color },
            );
        } else if uniform {
            let w: i64 = self.width_at(0);
            r.push(DrawCmd::Path { points: crate::utils::copy_points_pub(&self.points), width: w, color });
        } else {
            let n: usize = self.points.len() - 1;
            let mut k: usize = 0;
            while k < n
                invariant
                    n == self.points@.len() - 1,
                    self.points@.len() >= 2,
                    0 <= k <= n,
                    stroke_wf(*self),
                    r@.len() == k,
                    forall|j: int|
                        0 <= j < k ==> r@[j] == (DrawCmd::Segment {
                            a: self.points@[j],
                            b: self.points@[j + 1],
                            width: ((stroke_width_at(*self, j) + stroke_width_at(*self, j + 1))
                                / 2) as i64,
                            color,
                        }),
                decreases n - k,
            {
                let w1: i64 = self.width_at(k);
                let w2: i64 = self.width_at(k + 1);
                let avg: i64 = mul_div_floor(w1 + w2, 1, 2);
                r.push(
                    DrawCmd::Segment {
                        a: self.points[k],
                        b: self.points[k + 1],
                        width: avg,
                        color,
                    },
                );
                k = k + 1;
            }
        }
        r
    }

    /// The width drawn at a point index, with the base width as fallback
    /// for strokes without recorded widths.
    pub fn width_at(&self, i: usize) -> (w: i64)
        requires
            stroke_wf(*self),
        ensures
            w as int == stroke_width_at(*self, i as int),
            crate::state::width_ok(w as int),
    {
        if self.widths.len() == 0 {
            self.base_width
        } else if i < self.widths.len() {
            self.widths[i]
        } else {
            self.widths[self.widths.len() - 1]
        }
    }
}

impl CanvasObject {
    /// The drawable geometry of any object.
    pub fn draw(&self, selected: bool) -> (r: Vec<DrawCmd>)
        requires
            object_wf(*self),
        ensures
            object_draw_ok(*self, selected, r@),
    {
        match self {
            CanvasObject::Stroke(s) => s.draw(selected),
            CanvasObject::Image(img) => img.draw(selected),
            CanvasObject::Text(t) => t.draw(selected),
            CanvasObject::Shape(sh) => sh.draw(selected),
        }
    }
}

/// What `CanvasObject::draw` emits, per variant: the image blit, the text
/// request, the shape outline (each with its highlight border when
/// selected), or the ink geometry.
pub open spec fn object_draw_ok(o: CanvasObject, selected: bool, r: Seq<DrawCmd>) -> bool {
    match o {
        CanvasObject::Image(img) => r.len() == (if selected {
            2int
        } else {
            1int
        }) && r[0] == (DrawCmd::Image {
            texture: img.texture,
            rect: Rect {
                min: img.pos,
                max: Point {
                    x: (img.pos.x + img.size.x) as i64,
                    y: (img.pos.y + img.size.y) as i64,
                },
            },
        }),
        CanvasObject::Text(t) => r.len() == (if selected {
            2int
        } else {
            1int
        }) && (r[0] matches DrawCmd::Text { pos, text, font_size, color } && pos == t.pos
            && text@ == t.text@ && font_size == t.font_size && color == t.color),
        CanvasObject::Shape(s) => r.len() == shape_cmd_count(s) + (if selected {
            1int
        } else {
            0int
        }) && shape_cmds_ok(s, r),
        CanvasObject::Stroke(st) => {
            let color = if selected {
                highlight()
            } else {
                st.color
            };
            let n = st.points@.len();
            if n < 2 {
                r.len() == 0
            } else if uniform_widths(st.widths@) && n == 2 {
                r == seq![
                    DrawCmd::Segment {
                        a: st.points@[0],
                        b: st.points@[1],
                        width: stroke_width_at(st, 0) as i64,
                        color,
                    },
                ]
            } else if uniform_widths(st.widths@) {
                r.len() == 1 && (r[0] matches DrawCmd::Path { points, width, color: c }
                    && points@ == st.points@ && width == stroke_width_at(st, 0) && c == color)
            } else {
                r.len() == n - 1 && forall|k: int|
                    0 <= k < n - 1 ==> r[k] == (DrawCmd::Segment {
                        a: st.points@[k],
                        b: st.points@[k + 1],
                        width: ((stroke_width_at(st, k) + stroke_width_at(st, k + 1)) / 2) as i64,
                        color,
                    })
            }
        },
    }
}

} // verus!
