//! Quick access overlay: a floating preview of the capture just taken, with save, copy,
//! annotate and discard actions.
//!
//! One window, two modes. The preview is the landing screen, the capture plus the action
//! row. Annotating swaps the same window into the annotation editor.

use vstd::prelude::*;
use vstd::string::{StrSliceExecFns, StringExecFns};

use crate::editor::{
    dragged, draws, law_drag_makes_an_op, law_editing_moves_one_op_at_a_time,
    law_op_carries_the_settings, passes, render, rendered, Document, History, Op, OpView, Pass,
    Point, Rgba, Tool,
};
use crate::raster::RgbaImage;
use crate::text::joined;

verus! {

/// The colour of a fresh editor's ink.
pub const DEFAULT_COLOR: Rgba = [0xeb, 0x6f, 0x92, 0xff];

/// The fixed annotation palette. No free colour picker: this is the whole choice.
pub const PALETTE: [Rgba; 6] = [
    [0xeb, 0x6f, 0x92, 0xff],
    [0xf6, 0xc1, 0x77, 0xff],
    [0x9c, 0xcf, 0xd8, 0xff],
    [0xc4, 0xa7, 0xe7, 0xff],
    [0xe0, 0xde, 0xf4, 0xff],
    [0x19, 0x17, 0x24, 0xff],
];

/// A text entry in progress: where it will land, and what has been typed so far. Present
/// only between the click that opens it and the key that commits or cancels it.
pub struct TextEntry<S> {
    pub pos: Point<S>,
    pub buffer: String,
}

/// Live state of the annotation editor: the document plus the current tool settings.
pub struct EditorState<S> {
    pub doc: Document<S>,
    pub tool: Tool,
    pub color: Rgba,
    pub width: S,
    pub size: S,
    pub filled: bool,
    /// The open text entry, if any. While there is one, typing takes `Escape` and
    /// `Ctrl+Z` away from their usual jobs.
    pub typing: Option<TextEntry<S>>,
    /// The drag in progress, sampled in base-image pixels.
    pub drag: Option<Vec<Point<S>>>,
    /// The document changed since it was rendered last.
    pub dirty: bool,
}

/// What the editor's state holds.
pub struct EditorView<S> {
    pub doc: History<S>,
    pub tool: Tool,
    pub color: Rgba,
    pub width: S,
    pub size: S,
    pub filled: bool,
    pub typing: Option<(Point<S>, Seq<char>)>,
    pub drag: Option<Seq<Point<S>>>,
    pub dirty: bool,
}

impl<S> View for EditorState<S> {
    type V = EditorView<S>;

    open spec fn view(&self) -> EditorView<S> {
        EditorView {
            doc: self.doc@,
            tool: self.tool,
            color: self.color,
            width: self.width,
            size: self.size,
            filled: self.filled,
            typing: match self.typing {
                Some(entry) => Some((entry.pos, entry.buffer@)),
                None => None,
            },
            drag: match self.drag {
                Some(path) => Some(path@),
                None => None,
            },
            dirty: self.dirty,
        }
    }
}

impl<S> EditorView<S> {
    /// The state with `op` committed to the document.
    pub open spec fn with_op(self, op: Op<S>) -> EditorView<S> {
        EditorView { doc: self.doc.pushed(op), dirty: true, ..self }
    }

    /// The state after an undo, where there is anything to undo.
    pub open spec fn undone(self) -> EditorView<S> {
        if self.doc.can_undo() {
            EditorView { doc: self.doc.undone(), dirty: true, ..self }
        } else {
            self
        }
    }

    /// The state after a redo, where there is anything to redo.
    pub open spec fn redone(self) -> EditorView<S> {
        if self.doc.can_redo() {
            EditorView { doc: self.doc.redone(), dirty: true, ..self }
        } else {
            self
        }
    }

    /// The state after a key press of `Z` with or without its modifiers. The chord with
    /// `Shift` redoes. Neither reaches the document while a text entry is open.
    pub open spec fn chorded(self, z: bool, command: bool, shift: bool) -> EditorView<S> {
        if self.typing is Some || !z || !command {
            self
        } else if shift {
            self.redone()
        } else {
            self.undone()
        }
    }

    /// Committing the open text entry leads to `new`. An entry with nothing in it is
    /// dropped, and does not take an undo step.
    pub open spec fn commits_to(self, new: EditorView<S>) -> bool {
        match self.typing {
            None => new == self,
            Some((pos, text)) => {
                let closed = EditorView { typing: None, ..self };
                if text.len() == 0 {
                    new == closed
                } else {
                    exists|op: Op<S>|
                        op@ == (OpView::Text { pos, text, color: self.color, size: self.size })
                            && new == #[trigger] closed.with_op(op)
                }
            },
        }
    }

    /// A click at `at` leads to `new`. With the text tool it opens an entry there,
    /// having committed one that was open.
    pub open spec fn clicks_to(self, at: Point<S>, new: EditorView<S>) -> bool {
        if self.tool == Tool::Text {
            exists|mid: EditorView<S>| #[trigger]
                self.commits_to(mid) && new == (EditorView {
                    typing: Some((at, Seq::empty())),
                    ..mid
                })
        } else {
            new == self
        }
    }

    /// One frame's keystrokes lead to `new`. `Escape` cancels the open entry, `Enter`
    /// commits it, `Backspace` deletes, and what is typed appends.
    pub open spec fn types_to(self, keys: KeysView, new: EditorView<S>) -> bool {
        match self.typing {
            None => new == self,
            Some((pos, text)) => if keys.escape {
                new == (EditorView { typing: None, ..self })
            } else if keys.enter {
                self.commits_to(new)
            } else {
                new == (EditorView {
                    typing: Some((pos, edited(text, keys.backspace, keys.typed))),
                    ..self
                })
            },
        }
    }

    /// The state with a drag begun, if one was, and with the cursor sampled, if it is
    /// known and a drag is in progress.
    pub open spec fn sampled(self, started: bool, cursor: Option<Point<S>>) -> EditorView<S> {
        let drag = if started {
            Some(Seq::empty())
        } else {
            self.drag
        };
        match (drag, cursor) {
            (Some(path), Some(at)) => EditorView { drag: Some(path.push(at)), ..self },
            _ => EditorView { drag, ..self },
        }
    }

    /// Releasing a drag leads to `new`: the op that the drag describes is committed.
    pub open spec fn releases_to(self, new: EditorView<S>) -> bool {
        match self.drag {
            None => new == self,
            Some(path) => {
                let released = EditorView { drag: None, ..self };
                match dragged(self.tool, path, self.color, self.width, self.filled) {
                    None => new == released,
                    Some(v) => exists|op: Op<S>| op@ == v && new == #[trigger] released.with_op(op),
                }
            },
        }
    }
}

/// The keystrokes of one frame.
pub struct Keys {
    /// The text that arrived, in order.
    pub typed: Vec<String>,
    pub backspace: bool,
    pub enter: bool,
    pub escape: bool,
}

/// What the keystrokes hold.
pub struct KeysView {
    pub typed: Seq<Seq<char>>,
    pub backspace: bool,
    pub enter: bool,
    pub escape: bool,
}

impl View for Keys {
    type V = KeysView;

    open spec fn view(&self) -> KeysView {
        KeysView {
            typed: self.typed@.map_values(|s: String| s@),
            backspace: self.backspace,
            enter: self.enter,
            escape: self.escape,
        }
    }
}

/// `text` with its last character deleted, if that is asked for, and then all of `typed`
/// appended.
pub open spec fn edited(text: Seq<char>, backspace: bool, typed: Seq<Seq<char>>) -> Seq<char> {
    let kept = if backspace && text.len() > 0 {
        text.drop_last()
    } else {
        text
    };
    kept + typed.flatten()
}

/// Apply one frame's deletions and text to a buffer.
pub fn edit_buffer(buffer: &str, keys: &Keys) -> (r: String)
    ensures
        r@ == edited(buffer@, keys@.backspace, keys@.typed),
{
    let n: usize = buffer.unicode_len();
    let mut text: String = if keys.backspace && n > 0 {
        let s: String = buffer.substring_char(0, n - 1).to_owned();
        assert(s@ =~= buffer@.drop_last());
        s
    } else {
        buffer.to_owned()
    };
    let ghost kept = text@;
    let ghost all = keys@.typed;
    let m: usize = keys.typed.len();
    let mut i: usize = 0;
    assert(all.subrange(0, 0) =~= Seq::<Seq<char>>::empty());
    assert(kept + Seq::<char>::empty() =~= kept);
    while i < m
        invariant
            m == keys.typed@.len(),
            all == keys@.typed,
            i <= m,
            text@ =~= kept + all.subrange(0, i as int).flatten(),
        decreases m - i,
    {
        text.append(keys.typed[i].as_str());
        proof {
            assert(all.subrange(0, i + 1) =~= all.subrange(0, i as int).push(all[i as int]));
            all.subrange(0, i as int).lemma_flatten_push(all[i as int]);
        }
        i = i + 1;
    }
    assert(all.subrange(0, m as int) =~= all);
    text
}

impl<S: Copy> EditorState<S> {
    /// Open the editor: a fresh document over `img`.
    pub fn open(img: RgbaImage, width: S, size: S) -> (ed: EditorState<S>)
        ensures
            ed@ == (EditorView {
                doc: History { base: img, ops: Seq::empty(), pointer: 0 },
                tool: Tool::Arrow,
                color: DEFAULT_COLOR,
                width,
                size,
                filled: false,
                typing: None,
                drag: None,
                dirty: false,
            }),
            ed@.color@ == seq![0xebu8, 0x6fu8, 0x92u8, 0xffu8],
    {
        assert(DEFAULT_COLOR@ =~= seq![0xebu8, 0x6fu8, 0x92u8, 0xffu8]);
        EditorState {
            doc: Document::new(img),
            tool: Tool::Arrow,
            color: DEFAULT_COLOR,
            width,
            size,
            filled: false,
            typing: None,
            drag: None,
            dirty: false,
        }
    }

    /// Commit the open text entry to the document, if there is one worth keeping.
    pub fn commit_text(&mut self)
        requires
            old(self)@.doc.wf(),
        ensures
            final(self)@.doc.wf(),
            old(self)@.commits_to(final(self)@),
    {
        let entry: TextEntry<S> = match self.typing.take() {
            Some(entry) => entry,
            None => {
                return;
            },
        };
        if entry.buffer.as_str().is_empty() {
            return;
        }
        let ghost closed = self@;
        let op: Op<S> = Op::Text {
            pos: entry.pos,
            text: entry.buffer,
            color: self.color,
            size: self.size,
        };
        let ghost pushed = op;
        self.doc.push(op);
        self.dirty = true;
        assert(self@ == closed.with_op(pushed));
    }

    /// A click on the canvas.
    pub fn click(&mut self, at: Point<S>)
        requires
            old(self)@.doc.wf(),
        ensures
            final(self)@.doc.wf(),
            old(self)@.clicks_to(at, final(self)@),
    {
        if self.tool == Tool::Text {
            self.commit_text();
            let ghost mid = self@;
            let buffer: String = "".to_owned();
            proof {
                reveal_strlit("");
                assert(buffer@ =~= Seq::<char>::empty());
            }
            self.typing = Some(TextEntry { pos: at, buffer });
            assert(old(self)@.commits_to(mid));
        }
    }

    /// Consume a frame's keystrokes into the open text entry.
    pub fn handle_typing(&mut self, keys: &Keys)
        requires
            old(self)@.doc.wf(),
        ensures
            final(self)@.doc.wf(),
            old(self)@.types_to(keys@, final(self)@),
    {
        if self.typing.is_none() {
            return;
        }
        if keys.escape {
            self.typing = None;
            return;
        }
        if keys.enter {
            self.commit_text();
            return;
        }
        if let Some(entry) = self.typing.take() {
            let buffer: String = edit_buffer(entry.buffer.as_str(), keys);
            self.typing = Some(TextEntry { pos: entry.pos, buffer });
        }
    }

    /// Begin a drag, where one was begun, and sample the cursor while one is in progress.
    pub fn sample(&mut self, started: bool, cursor: Option<Point<S>>)
        ensures
            final(self)@ == old(self)@.sampled(started, cursor),
    {
        if started {
            self.drag = Some(Vec::new());
        }
        if let Some(at) = cursor {
            if let Some(path) = self.drag.take() {
                let mut path: Vec<Point<S>> = path;
                path.push(at);
                self.drag = Some(path);
            }
        }
    }

    /// What a frame's input does to the canvas, but for the end of a drag: a click, then
    /// the keystrokes, then the drag's beginning and its newest sample.
    pub fn canvas_input(
        &mut self,
        clicked: bool,
        cursor: Option<Point<S>>,
        keys: &Keys,
        drag_started: bool,
    )
        requires
            old(self)@.doc.wf(),
        ensures
            final(self)@.doc.wf(),
            exists|a: EditorView<S>, b: EditorView<S>|
                {
                    &&& match (clicked, cursor) {
                        (true, Some(at)) => old(self)@.clicks_to(at, a),
                        _ => a == old(self)@,
                    }
                    &&& #[trigger] a.types_to(keys@, b)
                    &&& final(self)@ == b.sampled(drag_started, cursor)
                },
    {
        if clicked {
            if let Some(at) = cursor {
                self.click(at);
            }
        }
        let ghost a = self@;
        self.handle_typing(keys);
        let ghost b = self@;
        self.sample(drag_started, cursor);
        assert(a.types_to(keys@, b));
    }

    /// The end of a drag: commit the op that it describes.
    pub fn release(&mut self)
        requires
            old(self)@.doc.wf(),
        ensures
            final(self)@.doc.wf(),
            old(self)@.releases_to(final(self)@),
    {
        let path: Vec<Point<S>> = match self.drag.take() {
            Some(path) => path,
            None => {
                return;
            },
        };
        let ghost released = self@;
        let op: Option<Op<S>> = Op::from_drag(
            self.tool,
            path.as_slice(),
            self.color,
            self.width,
            self.filled,
        );
        if let Some(op) = op {
            let ghost pushed = op;
            self.doc.push(op);
            self.dirty = true;
            assert(self@ == released.with_op(pushed));
        }
    }

    /// Whether to render anew, which is asked once for each change.
    pub fn take_dirty(&mut self) -> (r: bool)
        ensures
            r == old(self)@.dirty,
            final(self)@ == (EditorView { dirty: false, ..old(self)@ }),
    {
        let r: bool = self.dirty;
        self.dirty = false;
        r
    }

    /// Undo, where there is anything to undo.
    pub fn undo(&mut self)
        requires
            old(self)@.doc.wf(),
        ensures
            final(self)@.doc.wf(),
            final(self)@ == old(self)@.undone(),
    {
        if self.doc.can_undo() {
            self.doc.undo();
            self.dirty = true;
        }
    }

    /// Redo, where there is anything to redo.
    pub fn redo(&mut self)
        requires
            old(self)@.doc.wf(),
        ensures
            final(self)@.doc.wf(),
            final(self)@ == old(self)@.redone(),
    {
        if self.doc.can_redo() {
            self.doc.redo();
            self.dirty = true;
        }
    }

    /// The keyboard shortcuts: `Ctrl+Z` undoes and `Ctrl+Shift+Z` redoes. Both are
    /// suppressed while a text entry is open, since `Ctrl+Z` in mid-word should not reach
    /// back and undo an earlier op.
    pub fn shortcut(&mut self, z: bool, command: bool, shift: bool)
        requires
            old(self)@.doc.wf(),
        ensures
            final(self)@.doc.wf(),
            final(self)@ == old(self)@.chorded(z, command, shift),
    {
        if self.typing.is_none() && z && command {
            if shift {
                self.redo();
            } else {
                self.undo();
            }
        }
    }

    /// What follows a choice of tool, the tool before it having been `before`. Switching
    /// commits an open entry: a half-typed label should not vanish because the next tool
    /// was clicked.
    pub fn tool_chosen(&mut self, before: Tool)
        requires
            old(self)@.doc.wf(),
        ensures
            final(self)@.doc.wf(),
            if old(self)@.tool == before {
                final(self)@ == old(self)@
            } else {
                old(self)@.commits_to(final(self)@)
            },
    {
        if self.tool != before {
            self.commit_text();
        }
    }
}

/// Whether the fill setting means anything for a tool: whether it draws an outline around
/// an interior.
pub fn fillable(tool: Tool) -> (r: bool)
    ensures
        r == (tool == Tool::Rect || tool == Tool::Ellipse),
{
    tool == Tool::Rect || tool == Tool::Ellipse
}

/// What to paint while a drag is in progress.
#[derive(Clone, Copy, Debug, PartialEq, Eq, Structural)]
pub enum Shape {
    Nothing,
    Arrow,
    Segment,
    /// A rectangle's outline, over its interior where `filled` is set.
    Box { filled: bool },
    /// An ellipse's outline, over its interior where `filled` is set.
    Oval { filled: bool },
    /// The samples joined by straight lines.
    Polyline,
    /// A translucent rectangle.
    Tint,
    /// A thin outline in a fixed colour, for an op that adds no ink.
    Marquee,
}

/// What to paint for a drag of `samples` samples with `tool`. A drag without samples shows
/// nothing, and so does the text tool.
pub open spec fn preview_of(tool: Tool, samples: nat, filled: bool) -> Shape {
    if samples == 0 {
        Shape::Nothing
    } else {
        match tool {
            Tool::Arrow => Shape::Arrow,
            Tool::Line => Shape::Segment,
            Tool::Rect => Shape::Box { filled },
            Tool::Ellipse => Shape::Oval { filled },
            Tool::Pencil => Shape::Polyline,
            Tool::Highlight => Shape::Tint,
            Tool::Blur => Shape::Marquee,
            Tool::Text => Shape::Nothing,
        }
    }
}

/// What to paint while a drag is in progress.
pub fn preview_shape(tool: Tool, samples: usize, filled: bool) -> (r: Shape)
    ensures
        r == preview_of(tool, samples as nat, filled),
{
    if samples == 0 {
        return Shape::Nothing;
    }
    match tool {
        Tool::Arrow => Shape::Arrow,
        Tool::Line => Shape::Segment,
        Tool::Rect => Shape::Box { filled },
        Tool::Ellipse => Shape::Oval { filled },
        Tool::Pencil => Shape::Polyline,
        Tool::Highlight => Shape::Tint,
        Tool::Blur => Shape::Marquee,
        Tool::Text => Shape::Nothing,
    }
}

/// A drag shows something exactly where releasing it would commit an op.
pub proof fn law_preview_shows_what_will_be_committed<S>(
    tool: Tool,
    path: Seq<Point<S>>,
    color: Rgba,
    width: S,
    filled: bool,
)
    ensures
        preview_of(tool, path.len(), filled) == Shape::Nothing <==> dragged(
            tool,
            path,
            color,
            width,
            filled,
        ) is None,
{
}

/// What an action's button says, with a tick once the action succeeded.
pub fn label(action: &str, done: bool) -> (r: String)
    ensures
        r@ == (if done {
            action@ + " ✓"@
        } else {
            action@
        }),
{
    if done {
        joined(action, " ✓")
    } else {
        action.to_owned()
    }
}

/// The overlay: the capture, the outcome of the actions, and the editor once it is open.
pub struct Qao<S> {
    /// The capture as it was taken.
    pub img: RgbaImage,
    pub saved: bool,
    pub copied: bool,
    /// Outcome of the last action: `Ok` reports it, `Err` explains the failure.
    pub status: Option<Result<String, String>>,
    /// The editor, once annotating began.
    pub editor: Option<EditorState<S>>,
}

impl<S: Copy> Qao<S> {
    pub open spec fn wf(&self) -> bool {
        &&& self.img.wf()
        &&& self.editor matches Some(ed) ==> ed@.doc.wf() && ed@.doc.base.wf()
    }

    /// A text entry is open.
    pub open spec fn is_typing(&self) -> bool {
        self.editor matches Some(ed) && ed@.typing is Some
    }

    pub fn new(img: RgbaImage) -> (q: Qao<S>)
        ensures
            q.img == img,
            !q.saved,
            !q.copied,
            q.status is None,
            q.editor is None,
    {
        Qao { img, saved: false, copied: false, status: None, editor: None }
    }

    /// Enter the editor: a fresh document over a copy of the capture. What the actions
    /// reported carries no meaning across the switch.
    pub fn enter_editor(&mut self, width: S, size: S)
        requires
            old(self).wf(),
        ensures
            final(self).wf(),
            final(self).img == old(self).img,
            !final(self).saved,
            !final(self).copied,
            final(self).status is None,
            final(self).editor matches Some(ed) && ({
                &&& ed@ == (EditorView {
                    doc: History { base: ed@.doc.base, ops: Seq::empty(), pointer: 0 },
                    tool: Tool::Arrow,
                    color: DEFAULT_COLOR,
                    width,
                    size,
                    filled: false,
                    typing: None,
                    drag: None,
                    dirty: false,
                })
                &&& ed@.doc.base.same_pixels(old(self).img)
            }),
    {
        self.editor = Some(EditorState::open(self.img.clone(), width, size));
        self.saved = false;
        self.copied = false;
        self.status = None;
    }

    /// The image that the actions act on: the capture as it was taken, or the document
    /// flattened once there is one. `draw` draws one step of one op.
    pub fn flattened<F: Fn(RgbaImage, &Op<S>, Pass) -> RgbaImage>(&self, draw: F) -> (r: RgbaImage)
        requires
            self.wf(),
            self.editor matches Some(ed) ==> draws(
                draw,
                ed@.doc.base.width,
                ed@.doc.base.height,
            ),
        ensures
            r.wf(),
            match self.editor {
                None => r.same_pixels(self.img),
                Some(ed) => {
                    &&& r.width == ed@.doc.base.width
                    &&& r.height == ed@.doc.base.height
                    &&& rendered(draw, ed@.doc, r)
                },
            },
    {
        match &self.editor {
            None => self.img.clone(),
            Some(ed) => render(&ed.doc, draw),
        }
    }

    /// Note how saving went: the path written, or what went wrong.
    pub fn save_done(&mut self, outcome: Result<String, String>)
        ensures
            final(self).img == old(self).img,
            final(self).editor == old(self).editor,
            final(self).copied == old(self).copied,
            final(self).saved == (old(self).saved || outcome is Ok),
            match (final(self).status, outcome) {
                (Some(Ok(msg)), Ok(path)) => msg@ == "Saved "@ + path@,
                (Some(Err(e)), Err(why)) => e == why,
                _ => false,
            },
    {
        match outcome {
            Ok(path) => {
                self.saved = true;
                self.status = Some(Ok(joined("Saved ", path.as_str())));
            },
            Err(e) => {
                self.status = Some(Err(e));
            },
        }
    }

    /// Note how copying went.
    pub fn copy_done(&mut self, outcome: Result<(), String>)
        ensures
            final(self).img == old(self).img,
            final(self).editor == old(self).editor,
            final(self).saved == old(self).saved,
            final(self).copied == (old(self).copied || outcome is Ok),
            match (final(self).status, outcome) {
                (Some(Ok(msg)), Ok(_)) => msg@ == "Copied to clipboard"@,
                (Some(Err(e)), Err(why)) => e == why,
                _ => false,
            },
    {
        match outcome {
            Ok(_) => {
                self.copied = true;
                self.status = Some(Ok("Copied to clipboard".to_owned()));
            },
            Err(e) => {
                self.status = Some(Err(e));
            },
        }
    }

    /// Whether `Escape` closes the overlay. While a text entry is open it cancels that
    /// entry instead: a mistyped label should not close the window and lose the whole
    /// annotation.
    pub fn escape_closes(&self, pressed: bool) -> (r: bool)
        ensures
            r == (pressed && !self.is_typing()),
    {
        match &self.editor {
            Some(ed) => pressed && ed.typing.is_none(),
            None => pressed,
        }
    }
}

/// A text entry that is cancelled leaves the document as it was.
pub proof fn law_cancelled_text_leaves_no_trace<S>(
    ed: EditorView<S>,
    keys: KeysView,
    new: EditorView<S>,
)
    requires
        keys.escape,
        ed.types_to(keys, new),
    ensures
        new.typing is None,
        new.doc == ed.doc,
        new.dirty == ed.dirty,
{
}

/// Committing an entry with nothing typed takes no undo step, and committing one with
/// something typed takes exactly one, which brings the document back to what it showed.
pub proof fn law_committed_text_is_one_undo_step<S>(ed: EditorView<S>, new: EditorView<S>)
    requires
        ed.doc.wf(),
        ed.commits_to(new),
    ensures
        new.typing is None,
        match ed.typing {
            Some((_, text)) if text.len() > 0 => {
                &&& new.doc.visible().len() == ed.doc.visible().len() + 1
                &&& new.undone().doc.visible() == ed.doc.visible()
                &&& new.dirty
            },
            _ => new.doc == ed.doc && new.dirty == ed.dirty,
        },
{
    if let Some((pos, text)) = ed.typing {
        if text.len() > 0 {
            let closed = EditorView { typing: None, ..ed };
            let op = choose|op: Op<S>|
                op@ == (OpView::Text { pos, text, color: ed.color, size: ed.size }) && new
                    == #[trigger] closed.with_op(op);
            crate::editor::law_undo_takes_back_a_push(ed.doc, op);
        }
    }
}

/// While a text entry is open, `Ctrl+Z` and `Ctrl+Shift+Z` change nothing.
pub proof fn law_typing_shields_the_history<S>(
    ed: EditorView<S>,
    z: bool,
    command: bool,
    shift: bool,
)
    requires
        ed.typing is Some,
    ensures
        ed.chorded(z, command, shift) == ed,
{
}

/// Clicking around with the text tool loses no label: an entry with something typed is
/// committed before the next one opens.
pub proof fn law_click_keeps_the_open_label<S>(
    ed: EditorView<S>,
    pos: Point<S>,
    text: Seq<char>,
    at: Point<S>,
    new: EditorView<S>,
)
    requires
        ed.doc.wf(),
        ed.tool == Tool::Text,
        ed.typing == Some((pos, text)),
        text.len() > 0,
        ed.clicks_to(at, new),
    ensures
        new.typing == Some((at, Seq::<char>::empty())),
        new.doc.visible().len() == ed.doc.visible().len() + 1,
        new.doc.visible().last()@ == (OpView::Text {
            pos,
            text,
            color: ed.color,
            size: ed.size,
        }),
{
    let mid = choose|mid: EditorView<S>| #[trigger]
        ed.commits_to(mid) && new == (EditorView { typing: Some((at, Seq::empty())), ..mid });
    let closed = EditorView { typing: None, ..ed };
    let op = choose|op: Op<S>|
        op@ == (OpView::Text { pos, text, color: ed.color, size: ed.size }) && mid
            == #[trigger] closed.with_op(op);
    crate::editor::law_undo_takes_back_a_push(ed.doc, op);
}

/// A drag commits at most one op, and none where it had no samples.
pub proof fn law_drag_commits_one_op<S>(ed: EditorView<S>, new: EditorView<S>)
    requires
        ed.doc.wf(),
        ed.releases_to(new),
    ensures
        new.drag is None,
        new.doc == ed.doc || new.doc.visible().len() == ed.doc.visible().len() + 1,
        ed.drag matches Some(path) && path.len() > 0 && ed.tool != Tool::Text
            <==> new.doc != ed.doc,
{
    if let Some(path) = ed.drag {
        let released = EditorView { drag: None, ..ed };
        if let Some(v) = dragged(ed.tool, path, ed.color, ed.width, ed.filled) {
            let op = choose|op: Op<S>| op@ == v && new == #[trigger] released.with_op(op);
            assert(new.doc.pointer == ed.doc.pointer + 1);
        }
    }
}

/// What is previewed is what will be committed: for every tool, the shape shown while a drag
/// is in progress is the one that the op of the drag draws, with the same fill.
pub proof fn law_preview_has_the_shape_of_the_op<S>(
    tool: Tool,
    path: Seq<Point<S>>,
    color: Rgba,
    width: S,
    filled: bool,
    op: Op<S>,
)
    requires
        path.len() > 0,
        dragged(tool, path, color, width, filled) == Some(op@),
    ensures
        match op {
            Op::Arrow { .. } => preview_of(tool, path.len(), filled) == Shape::Arrow,
            Op::Line { .. } => preview_of(tool, path.len(), filled) == Shape::Segment,
            Op::Rect { filled: solid, .. } => preview_of(tool, path.len(), filled) == (Shape::Box {
                filled: solid,
            }),
            Op::Ellipse { filled: solid, .. } => preview_of(tool, path.len(), filled)
                == (Shape::Oval { filled: solid }),
            Op::Pencil { .. } => preview_of(tool, path.len(), filled) == Shape::Polyline,
            Op::Highlight { .. } => preview_of(tool, path.len(), filled) == Shape::Tint,
            Op::Blur { .. } => preview_of(tool, path.len(), filled) == Shape::Marquee,
            Op::Text { .. } => false,
        },
        passes(op).contains(Pass::Fill) <==> preview_of(tool, path.len(), filled) == (Shape::Box {
            filled: true,
        }) || preview_of(tool, path.len(), filled) == (Shape::Oval { filled: true }),
{
    law_op_carries_the_settings(tool, path, color, width, filled, op);
}

/// A drag without samples shows nothing, with any tool.
pub proof fn law_empty_drag_shows_nothing(tool: Tool, filled: bool)
    ensures
        preview_of(tool, 0, filled) == Shape::Nothing,
        forall|n: nat| #[trigger] preview_of(Tool::Text, n, filled) == Shape::Nothing,
{
}

/// Letting go of a drag commits its op on top of all that shows, with the settings as they
/// are, and changes nothing else. The picture is then to be rendered anew.
pub proof fn law_release_commits_the_drag<S>(ed: EditorView<S>, new: EditorView<S>, path: Seq<Point<S>>)
    requires
        ed.doc.wf(),
        ed.drag == Some(path),
        ed.releases_to(new),
    ensures
        new.drag is None,
        new.tool == ed.tool && new.color == ed.color && new.width == ed.width,
        new.size == ed.size && new.filled == ed.filled && new.typing == ed.typing,
        new.doc.base == ed.doc.base,
        path.len() == 0 || ed.tool == Tool::Text ==> new.doc == ed.doc && new.dirty == ed.dirty,
        path.len() > 0 && ed.tool != Tool::Text ==> ({
            let op = new.doc.visible().last();
            &&& new.dirty
            &&& new.doc.visible() == ed.doc.visible().push(op)
            &&& !new.doc.can_redo()
            &&& dragged(ed.tool, path, ed.color, ed.width, ed.filled) == Some(op@)
        }),
{
    let released = EditorView { drag: None, ..ed };
    law_drag_makes_an_op(ed.tool, path, ed.color, ed.width, ed.filled);
    if let Some(v) = dragged(ed.tool, path, ed.color, ed.width, ed.filled) {
        let op = choose|op: Op<S>| op@ == v && new == #[trigger] released.with_op(op);
        law_editing_moves_one_op_at_a_time(ed.doc, op);
        assert(new.doc.visible().last() == op);
    }
}

/// Without a drag there is nothing to let go of.
pub proof fn law_release_without_a_drag_does_nothing<S>(ed: EditorView<S>, new: EditorView<S>)
    requires
        ed.drag is None,
        ed.releases_to(new),
    ensures
        new == ed,
{
}

/// A drag is every sample of the cursor since it began, in order: it begins empty, a known
/// cursor is added to it, and without a drag the cursor leaves no mark.
pub proof fn law_drag_follows_the_cursor<S>(ed: EditorView<S>, started: bool, cursor: Option<Point<S>>)
    ensures
        ({
            let n = ed.sampled(started, cursor);
            &&& !started && ed.drag is None ==> n.drag is None
            &&& started && cursor is None ==> n.drag == Some(Seq::<Point<S>>::empty())
            &&& started ==> (cursor matches Some(at) ==> (n.drag matches Some(path) && path.len()
                == 1 && path[0] == at))
            &&& !started && cursor is None ==> n.drag == ed.drag
            &&& !started ==> (cursor matches Some(at) ==> (ed.drag matches Some(path) ==> (n.drag
                matches Some(more) && more.len() == path.len() + 1 && more.last() == at && more.take(
                path.len() as int,
            ) == path)))
            &&& n == (EditorView { drag: n.drag, ..ed })
        }),
{
    if let (Some(at), Some(path)) = (cursor, ed.drag) {
        assert(path.push(at).take(path.len() as int) =~= path);
    }
}

/// Typing edits the open entry and nothing else, and the document only once it is committed:
/// Escape closes the entry, Enter commits it, and anything else edits its text. Escape comes
/// before Enter. Where no entry is open the keys do nothing.
pub proof fn law_typing_edits_the_open_entry<S>(
    ed: EditorView<S>,
    keys: KeysView,
    new: EditorView<S>,
)
    requires
        ed.types_to(keys, new),
    ensures
        ed.typing is None ==> new == ed,
        ed.typing is Some && keys.escape ==> new == (EditorView { typing: None, ..ed }),
        ed.typing is Some && !keys.escape && keys.enter ==> ed.commits_to(new),
        ed.typing matches Some((pos, text)) ==> (!keys.escape && !keys.enter ==> new == (
        EditorView { typing: Some((pos, edited(text, keys.backspace, keys.typed))), ..ed })),
{
}

/// Backspace takes the last character, where there is one, and what is typed is added at the
/// end, in the order in which it came.
pub proof fn law_edits_happen_at_the_end(text: Seq<char>, back: bool, typed: Seq<Seq<char>>, s: Seq<char>)
    ensures
        edited(text, false, Seq::<Seq<char>>::empty()) == text,
        text.len() == 0 ==> edited(text, true, Seq::<Seq<char>>::empty()) == text,
        text.len() > 0 ==> edited(text, true, Seq::<Seq<char>>::empty()) == text.take(
            text.len() - 1,
        ),
        edited(text, back, typed.push(s)) == edited(text, back, typed) + s,
{
    typed.lemma_flatten_push(s);
    assert(text + Seq::<char>::empty() =~= text);
    if text.len() > 0 {
        assert(text.drop_last() + Seq::<char>::empty() =~= text.take(text.len() - 1));
    }
    assert(edited(text, back, typed.push(s)) =~= edited(text, back, typed) + s);
}

/// Committing puts the open entry on top of all that shows, where it was opened, as it was
/// typed, in the colour and size that are set. An entry with nothing typed is dropped. The
/// entry is closed either way, and nothing else changes.
pub proof fn law_commit_places_the_text<S>(ed: EditorView<S>, new: EditorView<S>)
    requires
        ed.doc.wf(),
        ed.commits_to(new),
    ensures
        new.typing is None,
        new.tool == ed.tool && new.color == ed.color && new.width == ed.width,
        new.size == ed.size && new.filled == ed.filled && new.drag == ed.drag,
        new.doc.base == ed.doc.base,
        match ed.typing {
            Some((pos, text)) => if text.len() > 0 {
                let op = new.doc.visible().last();
                &&& new.dirty
                &&& new.doc.visible() == ed.doc.visible().push(op)
                &&& op@ == (OpView::Text { pos, text, color: ed.color, size: ed.size })
            } else {
                new.doc == ed.doc && new.dirty == ed.dirty
            },
            None => new == ed,
        },
{
    if let Some((pos, text)) = ed.typing {
        if text.len() > 0 {
            let closed = EditorView { typing: None, ..ed };
            let op = choose|op: Op<S>|
                op@ == (OpView::Text { pos, text, color: ed.color, size: ed.size }) && new
                    == #[trigger] closed.with_op(op);
            law_editing_moves_one_op_at_a_time(ed.doc, op);
            assert(new.doc.visible().last() == op);
        }
    }
}

/// A click opens an empty entry where it lands, with the text tool, and does nothing with any
/// other. What it does to the document is to commit the entry that was open.
pub proof fn law_click_opens_an_entry<S>(ed: EditorView<S>, at: Point<S>, new: EditorView<S>)
    requires
        ed.clicks_to(at, new),
    ensures
        ed.tool != Tool::Text ==> new == ed,
        ed.tool == Tool::Text ==> {
            &&& new.typing == Some((at, Seq::<char>::empty()))
            &&& ed.commits_to(EditorView { typing: None, ..new })
        },
{
    if ed.tool == Tool::Text {
        let mid = choose|mid: EditorView<S>| #[trigger]
            ed.commits_to(mid) && new == (EditorView { typing: Some((at, Seq::empty())), ..mid });
        assert(mid == (EditorView { typing: None, ..new })) by {
            if let Some((pos, text)) = ed.typing {
                if text.len() > 0 {
                    let closed = EditorView { typing: None, ..ed };
                    let op = choose|op: Op<S>|
                        op@ == (OpView::Text { pos, text, color: ed.color, size: ed.size }) && mid
                            == #[trigger] closed.with_op(op);
                }
            }
        }
    }
}

/// The chord of `Ctrl` and `Z` undoes, with `Shift` it redoes, and without `Ctrl` or without
/// `Z` nothing happens. Where something was undone or redone the picture is to be rendered
/// anew, and nothing but the document has changed.
pub proof fn law_chord_moves_the_history<S>(ed: EditorView<S>, z: bool, command: bool, shift: bool)
    requires
        ed.doc.wf(),
        ed.typing is None,
    ensures
        ({
            let n = ed.chorded(z, command, shift);
            &&& !z || !command ==> n == ed
            &&& z && command && !shift ==> (if ed.doc.visible().len() > 0 {
                &&& n.doc.visible() == ed.doc.visible().take(ed.doc.visible().len() - 1)
                &&& n.doc.ops == ed.doc.ops
                &&& n.dirty
            } else {
                n == ed
            })
            &&& z && command && shift ==> (if ed.doc.visible().len() < ed.doc.ops.len() {
                &&& n.doc.visible() == ed.doc.visible().push(
                    ed.doc.ops[ed.doc.visible().len() as int],
                )
                &&& n.doc.ops == ed.doc.ops
                &&& n.dirty
            } else {
                n == ed
            })
            &&& n == (EditorView { doc: n.doc, dirty: n.dirty, ..ed })
            &&& n.doc.base == ed.doc.base
            &&& z && command ==> n == (if shift {
                ed.redone()
            } else {
                ed.undone()
            })
        }),
{
    if ed.doc.can_undo() {
        assert(ed.doc.undone().visible() =~= ed.doc.visible().take(ed.doc.visible().len() - 1));
    }
    if ed.doc.can_redo() {
        assert(ed.doc.redone().visible() =~= ed.doc.visible().push(
            ed.doc.ops[ed.doc.visible().len() as int],
        ));
    }
}

/// What is said of an editor and of keystrokes is what they hold.
pub proof fn law_views_show_the_editor<S>(ed: EditorState<S>, keys: Keys)
    ensures
        ed@.doc == ed.doc@ && ed@.tool == ed.tool && ed@.color == ed.color,
        ed@.width == ed.width && ed@.size == ed.size && ed@.filled == ed.filled,
        ed@.dirty == ed.dirty,
        ed.typing is None ==> ed@.typing is None,
        ed.typing matches Some(entry) ==> ed@.typing == Some((entry.pos, entry.buffer@)),
        ed.drag is None ==> ed@.drag is None,
        ed.drag matches Some(path) ==> ed@.drag == Some(path@),
        keys@.backspace == keys.backspace && keys@.enter == keys.enter && keys@.escape
            == keys.escape,
        keys@.typed.len() == keys.typed@.len(),
        forall|i: int|
            0 <= i < keys.typed@.len() ==> #[trigger] keys@.typed[i] == keys.typed@[i]@,
{
}

/// An entry is open exactly where the editor is and has one.
pub proof fn law_typing_means_an_open_entry<S: Copy>(q: Qao<S>)
    ensures
        q.is_typing() <==> (q.editor matches Some(ed) && ed.typing is Some),
{
}

/// Undo hides the last op that shows and redo shows the next, whatever else goes on in the
/// editor, and nothing but the document and the wish to render changes. Where there is
/// nothing to undo or redo, nothing happens.
pub proof fn law_undo_and_redo_touch_the_document_alone<S>(ed: EditorView<S>)
    requires
        ed.doc.wf(),
    ensures
        ({
            let n = ed.undone();
            let shown = ed.doc.visible();
            &&& n == (EditorView { doc: n.doc, dirty: n.dirty, ..ed })
            &&& n.doc.base == ed.doc.base && n.doc.ops == ed.doc.ops
            &&& shown.len() == 0 ==> n == ed
            &&& shown.len() > 0 ==> n.dirty && n.doc.visible() == shown.take(shown.len() - 1)
        }),
        ({
            let n = ed.redone();
            let shown = ed.doc.visible();
            &&& n == (EditorView { doc: n.doc, dirty: n.dirty, ..ed })
            &&& n.doc.base == ed.doc.base && n.doc.ops == ed.doc.ops
            &&& shown.len() == ed.doc.ops.len() ==> n == ed
            &&& shown.len() < ed.doc.ops.len() ==> n.dirty && n.doc.visible() == shown.push(
                ed.doc.ops[shown.len() as int],
            )
        }),
{
    if ed.doc.can_undo() {
        assert(ed.doc.undone().visible() =~= ed.doc.visible().take(ed.doc.visible().len() - 1));
    }
    if ed.doc.can_redo() {
        assert(ed.doc.redone().visible() =~= ed.doc.visible().push(
            ed.doc.ops[ed.doc.visible().len() as int],
        ));
    }
}

} // verus!
