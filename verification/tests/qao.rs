use frame::editor::{Document, Op, Pass, Point, Tool};
use frame::qao::{
    edit_buffer, fillable, label, preview_shape, EditorState, Keys, Qao, Shape, DEFAULT_COLOR,
    PALETTE,
};
use frame::raster::RgbaImage;

fn capture() -> RgbaImage {
    RgbaImage::from_raw(2, 1, vec![1, 2, 3, 255, 4, 5, 6, 255]).expect("two pixels")
}

fn editor() -> EditorState<i32> {
    EditorState::open(capture(), 4, 24)
}

fn keys(typed: &[&str]) -> Keys {
    Keys {
        typed: typed.iter().map(|s| s.to_string()).collect(),
        backspace: false,
        enter: false,
        escape: false,
    }
}

fn buffer(ed: &EditorState<i32>) -> Option<&str> {
    ed.typing.as_ref().map(|t| t.buffer.as_str())
}

fn keep(img: RgbaImage, _: &Op<i32>, _: Pass) -> RgbaImage {
    img
}

#[test]
fn the_palette_starts_with_the_default() {
    assert_eq!(PALETTE[0], DEFAULT_COLOR);
    assert_eq!(PALETTE[5], [0x19, 0x17, 0x24, 0xff]);
    assert_eq!(editor().color, DEFAULT_COLOR);
}

#[test]
fn a_label_is_ticked_once_done() {
    assert_eq!(label("Save", false), "Save");
    assert_eq!(label("Save", true), "Save ✓");
}

#[test]
fn a_click_opens_an_entry_only_with_the_text_tool() {
    let mut ed = editor();
    ed.click(Point::new(3, 4));
    assert!(ed.typing.is_none());
    ed.tool = Tool::Text;
    ed.click(Point::new(3, 4));
    assert_eq!(buffer(&ed), Some(""));
}

#[test]
fn typing_appends_and_backspace_deletes_a_character() {
    let mut ed = editor();
    ed.tool = Tool::Text;
    ed.click(Point::new(0, 0));
    ed.handle_typing(&keys(&["h", "é"]));
    assert_eq!(buffer(&ed), Some("hé"));
    ed.handle_typing(&Keys { backspace: true, ..keys(&[]) });
    assert_eq!(buffer(&ed), Some("h"));
    ed.handle_typing(&Keys { backspace: true, ..keys(&["x", "yz"]) });
    assert_eq!(buffer(&ed), Some("xyz"));
    assert_eq!(edit_buffer("", &Keys { backspace: true, ..keys(&["a"]) }), "a");
}

#[test]
fn enter_commits_the_entry_as_one_undo_step() {
    let mut ed = editor();
    ed.tool = Tool::Text;
    ed.click(Point::new(7, 8));
    ed.handle_typing(&keys(&["hi"]));
    assert!(!ed.dirty);
    ed.handle_typing(&Keys { enter: true, ..keys(&["ignored"]) });
    assert!(ed.typing.is_none());
    assert!(ed.take_dirty());
    assert!(!ed.take_dirty());
    assert_eq!(
        ed.doc.visible_ops(),
        [Op::Text { pos: Point::new(7, 8), text: "hi".to_string(), color: DEFAULT_COLOR, size: 24 }]
    );
    ed.undo();
    assert!(ed.doc.visible_ops().is_empty());
}

#[test]
fn escape_discards_the_entry() {
    let mut ed = editor();
    ed.tool = Tool::Text;
    ed.click(Point::new(0, 0));
    ed.handle_typing(&keys(&["oops"]));
    ed.handle_typing(&Keys { escape: true, enter: true, ..keys(&[]) });
    assert!(ed.typing.is_none());
    assert!(ed.doc.visible_ops().is_empty());
    assert!(!ed.dirty);
}

#[test]
fn an_empty_entry_takes_no_undo_step() {
    let mut ed = editor();
    ed.tool = Tool::Text;
    ed.click(Point::new(0, 0));
    ed.commit_text();
    assert!(ed.typing.is_none());
    assert!(!ed.doc.can_undo());
    assert!(!ed.dirty);
}

#[test]
fn clicking_around_places_a_series_of_labels() {
    let mut ed = editor();
    ed.tool = Tool::Text;
    ed.click(Point::new(0, 0));
    ed.handle_typing(&keys(&["one"]));
    ed.click(Point::new(9, 9));
    assert_eq!(ed.doc.visible_ops().len(), 1);
    assert_eq!(buffer(&ed), Some(""));
}

#[test]
fn switching_tools_commits_the_entry() {
    let mut ed = editor();
    ed.tool = Tool::Text;
    ed.click(Point::new(0, 0));
    ed.handle_typing(&keys(&["one"]));
    ed.tool_chosen(Tool::Text);
    assert!(ed.typing.is_some());
    ed.tool = Tool::Line;
    ed.tool_chosen(Tool::Text);
    assert!(ed.typing.is_none());
    assert_eq!(ed.doc.visible_ops().len(), 1);
}

#[test]
fn a_drag_commits_its_op_on_release() {
    let mut ed = editor();
    ed.tool = Tool::Line;
    ed.sample(true, Some(Point::new(1, 1)));
    ed.sample(false, None);
    ed.sample(false, Some(Point::new(5, 6)));
    ed.release();
    assert!(ed.drag.is_none());
    assert!(ed.dirty);
    assert_eq!(
        ed.doc.visible_ops(),
        [Op::Line { a: Point::new(1, 1), b: Point::new(5, 6), color: DEFAULT_COLOR, width: 4 }]
    );
    ed.release();
    assert_eq!(ed.doc.visible_ops().len(), 1);
}

#[test]
fn a_drag_without_samples_commits_nothing() {
    let mut ed = editor();
    ed.sample(true, None);
    assert!(ed.drag.is_some());
    ed.release();
    assert!(ed.drag.is_none());
    assert!(!ed.doc.can_undo());
    assert!(!ed.dirty);
}

#[test]
fn a_frame_of_input_is_taken_in_order() {
    let mut ed = editor();
    ed.tool = Tool::Text;
    // The click opens the entry, and what is typed in the same frame goes into it.
    ed.canvas_input(true, Some(Point::new(2, 2)), &keys(&["a"]), false);
    assert_eq!(buffer(&ed), Some("a"));
    ed.canvas_input(false, Some(Point::new(4, 4)), &keys(&["b"]), true);
    assert_eq!(buffer(&ed), Some("ab"));
    assert_eq!(ed.drag.as_deref(), Some(&[Point::new(4, 4)][..]));
}

#[test]
fn shortcuts_undo_and_redo_unless_typing() {
    let mut ed = editor();
    ed.tool = Tool::Line;
    ed.sample(true, Some(Point::new(1, 1)));
    ed.release();
    ed.take_dirty();
    ed.shortcut(true, false, false);
    assert!(ed.doc.can_undo());
    ed.shortcut(true, true, false);
    assert!(!ed.doc.can_undo() && ed.take_dirty());
    ed.shortcut(true, true, true);
    assert!(ed.doc.can_undo() && ed.take_dirty());
    ed.tool = Tool::Text;
    ed.click(Point::new(0, 0));
    ed.shortcut(true, true, false);
    assert!(ed.doc.can_undo() && !ed.dirty);
    ed.undo();
    assert!(!ed.doc.can_undo() && ed.dirty);
    ed.take_dirty();
    ed.undo();
    assert!(!ed.dirty);
    ed.redo();
    assert!(ed.doc.can_undo() && ed.dirty);
}

#[test]
fn only_shapes_with_an_interior_can_be_filled() {
    let fill = [Tool::Rect, Tool::Ellipse];
    let rest = [
        Tool::Arrow,
        Tool::Line,
        Tool::Pencil,
        Tool::Highlight,
        Tool::Blur,
        Tool::Text,
    ];
    assert!(fill.iter().all(|t| fillable(*t)));
    assert!(!rest.iter().any(|t| fillable(*t)));
}

#[test]
fn each_tool_previews_its_shape() {
    assert_eq!(preview_shape(Tool::Arrow, 0, true), Shape::Nothing);
    assert_eq!(preview_shape(Tool::Arrow, 1, true), Shape::Arrow);
    assert_eq!(preview_shape(Tool::Line, 2, true), Shape::Segment);
    assert_eq!(preview_shape(Tool::Rect, 2, true), Shape::Box { filled: true });
    assert_eq!(preview_shape(Tool::Ellipse, 2, false), Shape::Oval { filled: false });
    assert_eq!(preview_shape(Tool::Pencil, 2, false), Shape::Polyline);
    assert_eq!(preview_shape(Tool::Highlight, 2, false), Shape::Tint);
    assert_eq!(preview_shape(Tool::Blur, 2, false), Shape::Marquee);
    assert_eq!(preview_shape(Tool::Text, 2, false), Shape::Nothing);
}

#[test]
fn the_actions_report_their_outcome() {
    let mut q: Qao<i32> = Qao::new(capture());
    q.save_done(Ok("/tmp/frame-1.png".to_string()));
    assert!(q.saved && !q.copied);
    assert_eq!(q.status, Some(Ok("Saved /tmp/frame-1.png".to_string())));
    q.copy_done(Err("no".to_string()));
    assert!(q.saved && !q.copied);
    assert_eq!(q.status, Some(Err("no".to_string())));
    q.copy_done(Ok(()));
    assert!(q.copied);
    assert_eq!(q.status, Some(Ok("Copied to clipboard".to_string())));
    q.save_done(Err("full".to_string()));
    assert!(q.saved, "an earlier success stands");
    assert_eq!(q.status, Some(Err("full".to_string())));
}

#[test]
fn entering_the_editor_resets_the_actions() {
    let mut q: Qao<i32> = Qao::new(capture());
    q.copy_done(Ok(()));
    q.enter_editor(4, 24);
    assert!(!q.saved && !q.copied && q.status.is_none());
    let ed = q.editor.as_ref().expect("the editor is open");
    assert_eq!(*ed.doc.base(), capture());
    assert_eq!((ed.tool, ed.width, ed.size, ed.filled), (Tool::Arrow, 4, 24, false));
}

#[test]
fn the_actions_act_on_what_is_shown() {
    let mut q: Qao<i32> = Qao::new(capture());
    assert_eq!(q.flattened(keep), capture());
    q.enter_editor(4, 24);
    assert_eq!(q.flattened(keep), capture());
    let ed = q.editor.as_mut().expect("the editor is open");
    ed.tool = Tool::Blur;
    ed.sample(true, Some(Point::new(0, 0)));
    ed.release();
    let blank = |img: RgbaImage, _: &Op<i32>, _: Pass| RgbaImage {
        data: vec![0; img.data.len()],
        ..img
    };
    let shown = q.flattened(blank);
    assert_eq!(shown.data, vec![0; 8]);
    assert_eq!((shown.width, shown.height), (capture().width, capture().height));
}

#[test]
fn escape_closes_unless_typing() {
    let mut q: Qao<i32> = Qao::new(capture());
    assert!(q.escape_closes(true));
    assert!(!q.escape_closes(false));
    q.enter_editor(4, 24);
    assert!(q.escape_closes(true));
    let ed = q.editor.as_mut().expect("the editor is open");
    ed.tool = Tool::Text;
    ed.click(Point::new(0, 0));
    assert!(!q.escape_closes(true));
}

#[test]
fn a_fresh_document_has_nothing_to_undo() {
    let d: Document<i32> = Document::new(capture());
    assert!(!d.can_undo() && !d.can_redo());
}
