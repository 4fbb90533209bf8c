use frame::editor::{has_interior, render, Document, Op, Pass, Point, Rgba, Tool};
use frame::raster::RgbaImage;

fn from_pixel(w: u32, h: u32, px: [u8; 4]) -> RgbaImage {
    let data = px.iter().copied().cycle().take((w * h * 4) as usize).collect();
    RgbaImage::from_raw(w, h, data).expect("buffer matches its dimensions")
}

fn get_pixel(img: &RgbaImage, x: u32, y: u32) -> [u8; 4] {
    let i = ((y * img.width + x) * 4) as usize;
    [img.data[i], img.data[i + 1], img.data[i + 2], img.data[i + 3]]
}

fn doc() -> Document<f32> {
    Document::new(from_pixel(1, 1, [0, 0, 0, 0]))
}

fn op(width: f32) -> Op<f32> {
    Op::Line {
        a: Point::new(0.0, 0.0),
        b: Point::new(1.0, 1.0),
        color: [255, 0, 0, 255],
        width,
    }
}

/// Draw a step of a rectangle op; other ops draw nothing.
fn draw(img: RgbaImage, op: &Op<f32>, pass: Pass) -> RgbaImage {
    let Op::Rect { a, b, color, width, .. } = op else {
        return img;
    };
    let rect = tiny_skia::Rect::from_xywh(
        a.x.min(b.x),
        a.y.min(b.y),
        (a.x - b.x).abs(),
        (a.y - b.y).abs(),
    );
    let Some(rect) = rect else {
        return img;
    };
    let mut pm = tiny_skia::Pixmap::new(img.width, img.height).expect("pixmap alloc");
    pm.data_mut().copy_from_slice(&img.data);
    let path = tiny_skia::PathBuilder::from_rect(rect);
    let mut paint = tiny_skia::Paint::default();
    paint.set_color_rgba8(color[0], color[1], color[2], color[3]);
    let ident = tiny_skia::Transform::identity();
    match pass {
        Pass::Fill => pm.fill_path(&path, &paint, tiny_skia::FillRule::Winding, ident, None),
        Pass::Ink => {
            let stroke = tiny_skia::Stroke { width: *width, ..Default::default() };
            pm.stroke_path(&path, &paint, &stroke, ident, None)
        }
    }
    RgbaImage::from_raw(img.width, img.height, pm.data().to_vec()).expect("same size")
}

#[test]
fn push_advances_pointer() {
    let mut d = doc();
    assert!(!d.can_undo());
    d.push(op(1.0));
    assert_eq!(d.visible_ops().len(), 1);
    assert!(d.can_undo());
    assert!(!d.can_redo());
}

#[test]
fn undo_and_redo_move_without_dropping_ops() {
    let mut d = doc();
    d.push(op(1.0));
    d.push(op(2.0));
    d.undo();
    assert_eq!(d.visible_ops().len(), 1);
    assert!(d.can_redo());
    d.redo();
    assert_eq!(d.visible_ops().len(), 2);
    assert!(!d.can_redo());
}

#[test]
fn push_after_undo_truncates_the_tail() {
    let mut d = doc();
    d.push(op(1.0));
    d.push(op(2.0));
    d.undo();
    // The op with width 2.0 is now a redo tail; a new push must discard it.
    d.push(op(3.0));
    assert!(!d.can_redo());
    assert_eq!(d.visible_ops().len(), 2);
    assert_eq!(d.visible_ops()[1], op(3.0));
}

#[test]
fn undo_and_redo_saturate_at_the_bounds() {
    let mut d = doc();
    d.undo(); // no-op at the empty bound
    assert_eq!(d.visible_ops().len(), 0);
    d.push(op(1.0));
    d.redo(); // no-op at the full bound
    assert_eq!(d.visible_ops().len(), 1);
}

fn filled_rect(a: Point<f32>, b: Point<f32>, color: Rgba) -> Op<f32> {
    Op::Rect { a, b, color, width: 1.0, filled: true }
}

#[test]
fn later_ops_render_on_top() {
    // Black base; a red rect, then a smaller green rect inside it.
    let base = from_pixel(10, 10, [0, 0, 0, 255]);
    let mut d = Document::new(base);
    d.push(filled_rect(Point::new(0.0, 0.0), Point::new(9.0, 9.0), [255, 0, 0, 255]));
    d.push(filled_rect(Point::new(2.0, 2.0), Point::new(7.0, 7.0), [0, 255, 0, 255]));

    let out = render(&d, draw);
    // (4,4) is solidly inside the green rect: green won because it is later.
    let center = get_pixel(&out, 4, 4);
    assert!(center[1] > 200, "green channel dominant, got {center:?}");
    assert!(center[0] < 64, "red suppressed by the op on top, got {center:?}");

    // A pixel inside the red rect but outside the green one stays red.
    let ring = get_pixel(&out, 1, 1);
    assert!(ring[0] > 200 && ring[1] < 64, "outer ring still red, got {ring:?}");
}

#[test]
fn an_empty_document_renders_to_its_base() {
    let base = from_pixel(3, 2, [7, 8, 9, 255]);
    let d: Document<f32> = Document::new(base.clone());
    assert_eq!(render(&d, draw), base);
}

#[test]
fn an_undone_op_does_not_render() {
    let base = from_pixel(10, 10, [0, 0, 0, 255]);
    let mut d = Document::new(base.clone());
    d.push(filled_rect(Point::new(0.0, 0.0), Point::new(9.0, 9.0), [255, 0, 0, 255]));
    let shown = render(&d, draw);
    d.undo();
    assert_eq!(render(&d, draw), base);
    d.redo();
    assert_eq!(render(&d, draw), shown);
}

#[test]
fn an_opaque_base_renders_to_an_opaque_picture() {
    let mut d = Document::new(from_pixel(10, 10, [0, 0, 0, 255]));
    d.push(filled_rect(Point::new(0.0, 0.0), Point::new(9.0, 9.0), [255, 0, 0, 96]));
    d.push(filled_rect(Point::new(2.0, 2.0), Point::new(7.0, 7.0), [0, 255, 0, 255]));
    let out = render(&d, draw);
    assert_eq!((out.width, out.height), (10, 10));
    assert!(out.data.chunks(4).all(|px| px[3] == 255));
}

#[test]
fn a_cloned_op_holds_the_same() {
    let (a, b, color) = (Point::new(1, 2), Point::new(3, 4), [5, 6, 7, 8]);
    let ops = [
        Op::Arrow { a, b, color, width: 9 },
        Op::Line { a, b, color, width: 9 },
        Op::Rect { a, b, color, width: 9, filled: true },
        Op::Ellipse { a, b, color, width: 9, filled: false },
        Op::Pencil { path: vec![a, b, a], color, width: 9 },
        Op::Highlight { a, b, color },
        Op::Blur { a, b },
        Op::Text { pos: a, text: "label".to_string(), color, size: 9 },
    ];
    for op in &ops {
        assert_eq!(op.clone(), *op);
    }
}

#[test]
fn a_redo_tail_does_not_show() {
    let base = from_pixel(10, 10, [0, 0, 0, 255]);
    let red = || filled_rect(Point::new(0.0, 0.0), Point::new(9.0, 9.0), [255, 0, 0, 255]);
    let mut a = Document::new(base.clone());
    a.push(red());
    let mut b = Document::new(base.clone());
    b.push(red());
    b.push(filled_rect(Point::new(2.0, 2.0), Point::new(7.0, 7.0), [0, 255, 0, 255]));
    b.undo();
    assert_eq!(render(&a, draw), render(&b, draw));
    assert_eq!(*b.base(), base);
}

#[test]
fn a_filled_shape_is_filled_before_it_is_outlined() {
    let mut d: Document<i32> = Document::new(from_pixel(1, 1, [0, 0, 0, 255]));
    let at = Point::new(0, 0);
    d.push(Op::Rect { a: at, b: at, color: [1, 0, 0, 255], width: 1, filled: true });
    d.push(Op::Ellipse { a: at, b: at, color: [2, 0, 0, 255], width: 1, filled: false });
    d.push(Op::Ellipse { a: at, b: at, color: [3, 0, 0, 255], width: 1, filled: true });
    d.push(Op::Blur { a: at, b: at });
    let seen = std::cell::RefCell::new(Vec::new());
    render(&d, |img: RgbaImage, op: &Op<i32>, pass: Pass| {
        seen.borrow_mut().push((has_interior(op), pass));
        img
    });
    assert_eq!(
        seen.into_inner(),
        vec![
            (true, Pass::Fill),
            (true, Pass::Ink),
            (false, Pass::Ink),
            (true, Pass::Fill),
            (true, Pass::Ink),
            (false, Pass::Ink),
        ]
    );
}

#[test]
fn each_tool_makes_its_op() {
    let path = [Point::new(1, 2), Point::new(5, 6), Point::new(3, 4)];
    let (a, b) = (path[0], path[2]);
    let color = [1, 2, 3, 4];
    let made = |tool| Op::from_drag(tool, &path, color, 9, true);
    assert_eq!(made(Tool::Arrow), Some(Op::Arrow { a, b, color, width: 9 }));
    assert_eq!(made(Tool::Line), Some(Op::Line { a, b, color, width: 9 }));
    assert_eq!(made(Tool::Rect), Some(Op::Rect { a, b, color, width: 9, filled: true }));
    assert_eq!(made(Tool::Ellipse), Some(Op::Ellipse { a, b, color, width: 9, filled: true }));
    assert_eq!(made(Tool::Pencil), Some(Op::Pencil { path: path.to_vec(), color, width: 9 }));
    assert_eq!(made(Tool::Highlight), Some(Op::Highlight { a, b, color }));
    assert_eq!(made(Tool::Blur), Some(Op::Blur { a, b }));
    assert_eq!(made(Tool::Text), None);
}

#[test]
fn a_drag_without_samples_makes_no_op() {
    let path: [Point<i32>; 0] = [];
    assert_eq!(Op::from_drag(Tool::Pencil, &path, [0; 4], 1, false), None);
    assert_eq!(Op::from_drag(Tool::Arrow, &path, [0; 4], 1, false), None);
}
