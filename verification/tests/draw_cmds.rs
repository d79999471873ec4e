use smartboard::draw::{DrawCmd, OUTLINE_WIDTH};
use smartboard::geometry::{Point, Rect};
use smartboard::state::{
    CanvasImage, CanvasShape, CanvasShapeType, CanvasStroke, CanvasText, Color,
};

fn pt(x: i64, y: i64) -> Point {
    Point { x, y }
}

fn white() -> Color {
    Color::rgb(255, 255, 255)
}

#[test]
fn image_draw_emits_blit_and_selection_border() {
    let img = CanvasImage {
        texture: 7,
        pos: pt(1000, 2000),
        size: pt(3000, 4000),
        aspect_w: 3,
        aspect_h: 4,
        marked_for_deletion: false,
    };
    let plain = img.draw(false);
    assert_eq!(plain.len(), 1);
    match &plain[0] {
        DrawCmd::Image { texture, rect } => {
            assert_eq!(*texture, 7);
            assert_eq!(*rect, Rect { min: pt(1000, 2000), max: pt(4000, 6000) });
        }
        _ => panic!("expected an image blit"),
    }
    let selected = img.draw(true);
    assert_eq!(selected.len(), 2);
    match &selected[1] {
        DrawCmd::RectStroke { width, color, .. } => {
            assert_eq!(*width, OUTLINE_WIDTH);
            assert_eq!(*color, Color::rgb(0, 0, 255));
        }
        _ => panic!("expected a border"),
    }
}

#[test]
fn text_draw_carries_content() {
    let t = CanvasText {
        text: String::from("hello"),
        pos: pt(0, 0),
        color: white(),
        font_size: 16_000,
        size: pt(40_000, 16_000),
    };
    let cmds = t.draw(false);
    assert_eq!(cmds.len(), 1);
    match &cmds[0] {
        DrawCmd::Text { text, font_size, .. } => {
            assert_eq!(text, "hello");
            assert_eq!(*font_size, 16_000);
        }
        _ => panic!("expected a text request"),
    }
}

#[test]
fn arrow_draw_has_shaft_and_head() {
    let a = CanvasShape {
        shape_type: CanvasShapeType::Arrow,
        pos: pt(0, 0),
        size: 100_000,
        color: white(),
        rotation: 0,
    };
    let cmds = a.draw(false);
    assert_eq!(cmds.len(), 3);
    // arrow size 10 px: head offsets 8.66 px back, 5 px out
    match &cmds[1] {
        DrawCmd::Segment { a, b, .. } => {
            assert_eq!(*a, pt(100_000, 0));
            assert_eq!(*b, pt(100_000 - 8_660, -5_000));
        }
        _ => panic!("expected a head segment"),
    }
}

#[test]
fn stroke_draw_uniform_vs_varying() {
    let uniform = CanvasStroke {
        points: vec![pt(0, 0), pt(10_000, 0), pt(20_000, 0)],
        widths: vec![3000, 3000, 3000],
        color: white(),
        base_width: 3000,
    };
    let cmds = uniform.draw(false);
    assert_eq!(cmds.len(), 1);
    assert!(matches!(&cmds[0], DrawCmd::Path { .. }));
    let varying = CanvasStroke {
        points: vec![pt(0, 0), pt(10_000, 0), pt(20_000, 0)],
        widths: vec![2000, 4000, 6000],
        color: white(),
        base_width: 3000,
    };
    let cmds2 = varying.draw(false);
    assert_eq!(cmds2.len(), 2);
    match &cmds2[0] {
        DrawCmd::Segment { width, .. } => assert_eq!(*width, 3000),
        _ => panic!("expected per-segment drawing"),
    }
    // a one-point stroke draws nothing
    let dot = CanvasStroke {
        points: vec![pt(0, 0)],
        widths: vec![3000],
        color: white(),
        base_width: 3000,
    };
    assert_eq!(dot.draw(false).len(), 0);
}
