//! Annotation editor: an ordered operation list with a pointer.
//!
//! The list is the whole model. Undo and redo move the pointer; a new op after an undo
//! truncates everything past it. Each op is self-contained, a type plus its parameters,
//! so rendering is a pure walk of the visible prefix from the base image.
//!
//! Coordinates, widths and sizes are of a type `S` that the caller chooses: the model
//! carries them, and what draws an op interprets them.

use vstd::prelude::*;

use crate::raster::RgbaImage;

verus! {

/// A point in base-image pixel space.
#[derive(Debug, PartialEq)]
pub struct Point<S> {
    pub x: S,
    pub y: S,
}

impl<S: Copy> Clone for Point<S> {
    fn clone(&self) -> (p: Point<S>)
        ensures
            p == *self,
    {
        *self
    }
}

impl<S: Copy> Copy for Point<S> {

}

impl<S> Point<S> {
    pub fn new(x: S, y: S) -> (p: Point<S>)
        ensures
            p == (Point { x, y }),
    {
        Point { x, y }
    }
}

/// Straight RGBA, one byte per channel.
pub type Rgba = [u8; 4];

/// One annotation.
#[derive(Debug, PartialEq)]
pub enum Op<S> {
    Arrow { a: Point<S>, b: Point<S>, color: Rgba, width: S },
    Line { a: Point<S>, b: Point<S>, color: Rgba, width: S },
    Rect { a: Point<S>, b: Point<S>, color: Rgba, width: S, filled: bool },
    Ellipse { a: Point<S>, b: Point<S>, color: Rgba, width: S, filled: bool },
    /// A freehand stroke through every sample of the drag.
    Pencil { path: Vec<Point<S>>, color: Rgba, width: S },
    /// A translucent mark over a rectangle.
    Highlight { a: Point<S>, b: Point<S>, color: Rgba },
    /// A rectangle made illegible.
    Blur { a: Point<S>, b: Point<S> },
    Text { pos: Point<S>, text: String, color: Rgba, size: S },
}

/// Which tool a drag produces. Kept separate from `Op` because the toolbar picks a tool
/// before there is any geometry to make an op from.
#[derive(Clone, Copy, Debug, PartialEq, Eq, Structural)]
pub enum Tool {
    Arrow,
    Line,
    Rect,
    Ellipse,
    Pencil,
    Highlight,
    Blur,
    Text,
}

/// What an op holds.
pub enum OpView<S> {
    Arrow { a: Point<S>, b: Point<S>, color: Rgba, width: S },
    Line { a: Point<S>, b: Point<S>, color: Rgba, width: S },
    Rect { a: Point<S>, b: Point<S>, color: Rgba, width: S, filled: bool },
    Ellipse { a: Point<S>, b: Point<S>, color: Rgba, width: S, filled: bool },
    Pencil { path: Seq<Point<S>>, color: Rgba, width: S },
    Highlight { a: Point<S>, b: Point<S>, color: Rgba },
    Blur { a: Point<S>, b: Point<S> },
    Text { pos: Point<S>, text: Seq<char>, color: Rgba, size: S },
}

impl<S> View for Op<S> {
    type V = OpView<S>;

    open spec fn view(&self) -> OpView<S> {
        match *self {
            Op::Arrow { a, b, color, width } => OpView::Arrow { a, b, color, width },
            Op::Line { a, b, color, width } => OpView::Line { a, b, color, width },
            Op::Rect { a, b, color, width, filled } => OpView::Rect { a, b, color, width, filled },
            Op::Ellipse { a, b, color, width, filled } => OpView::Ellipse {
                a,
                b,
                color,
                width,
                filled,
            },
            Op::Pencil { path, color, width } => OpView::Pencil { path: path@, color, width },
            Op::Highlight { a, b, color } => OpView::Highlight { a, b, color },
            Op::Blur { a, b } => OpView::Blur { a, b },
            Op::Text { pos, text, color, size } => OpView::Text { pos, text: text@, color, size },
        }
    }
}

/// The op that a completed drag along `path` produces. The two-point tools span the drag
/// and the pencil follows every sample. A drag without samples describes no geometry, and
/// text is not placed by dragging.
pub open spec fn dragged<S>(
    tool: Tool,
    path: Seq<Point<S>>,
    color: Rgba,
    width: S,
    filled: bool,
) -> Option<OpView<S>> {
    if path.len() == 0 {
        None
    } else {
        let a = path.first();
        let b = path.last();
        match tool {
            Tool::Arrow => Some(OpView::Arrow { a, b, color, width }),
            Tool::Line => Some(OpView::Line { a, b, color, width }),
            Tool::Rect => Some(OpView::Rect { a, b, color, width, filled }),
            Tool::Ellipse => Some(OpView::Ellipse { a, b, color, width, filled }),
            Tool::Pencil => Some(OpView::Pencil { path, color, width }),
            Tool::Highlight => Some(OpView::Highlight { a, b, color }),
            Tool::Blur => Some(OpView::Blur { a, b }),
            Tool::Text => None,
        }
    }
}

impl<S: Copy> Clone for Op<S> {
    fn clone(&self) -> (r: Op<S>)
        ensures
            r@ == self@,
    {
        match self {
            Op::Arrow { a, b, color, width } => Op::Arrow {
                a: *a,
                b: *b,
                color: *color,
                width: *width,
            },
            Op::Line { a, b, color, width } => Op::Line {
                a: *a,
                b: *b,
                color: *color,
                width: *width,
            },
            Op::Rect { a, b, color, width, filled } => Op::Rect {
                a: *a,
                b: *b,
                color: *color,
                width: *width,
                filled: *filled,
            },
            Op::Ellipse { a, b, color, width, filled } => Op::Ellipse {
                a: *a,
                b: *b,
                color: *color,
                width: *width,
                filled: *filled,
            },
            Op::Pencil { path, color, width } => Op::Pencil {
                path: copied(path.as_slice()),
                color: *color,
                width: *width,
            },
            Op::Highlight { a, b, color } => Op::Highlight { a: *a, b: *b, color: *color },
            Op::Blur { a, b } => Op::Blur { a: *a, b: *b },
            Op::Text { pos, text, color, size } => Op::Text {
                pos: *pos,
                text: text.as_str().to_owned(),
                color: *color,
                size: *size,
            },
        }
    }
}

fn copied<S: Copy>(path: &[Point<S>]) -> (r: Vec<Point<S>>)
    ensures
        r@ == path@,
{
    let n: usize = path.len();
    let mut r: Vec<Point<S>> = Vec::new();
    let mut i: usize = 0;
    while i < n
        invariant
            n == path@.len(),
            i <= n,
            r@ =~= path@.subrange(0, i as int),
        decreases n - i,
    {
        r.push(path[i]);
        i = i + 1;
    }
    r
}

impl<S: Copy> Op<S> {
    /// Build the op that a completed drag produces: the samples in image pixels, with the
    /// toolbar's current colour, width and fill. `filled` is ignored by the tools that
    /// have no interior.
    pub fn from_drag(tool: Tool, path: &[Point<S>], color: Rgba, width: S, filled: bool) -> (r:
        Option<Op<S>>)
        ensures
            match r {
                Some(op) => dragged(tool, path@, color, width, filled) == Some(op@),
                None => dragged(tool, path@, color, width, filled) is None,
            },
            r is None <==> path@.len() == 0 || tool == Tool::Text,
            r matches Some(op) ==> match op {
                Op::Rect { a, b, color: ink, width: thick, filled: solid } => {
                    &&& tool == Tool::Rect
                    &&& a == path@[0] && b == path@[path@.len() - 1]
                    &&& ink == color && thick == width && solid == filled
                },
                Op::Ellipse { a, b, color: ink, width: thick, filled: solid } => {
                    &&& tool == Tool::Ellipse
                    &&& a == path@[0] && b == path@[path@.len() - 1]
                    &&& ink == color && thick == width && solid == filled
                },
                Op::Arrow { a, b, color: ink, width: thick } => {
                    &&& tool == Tool::Arrow
                    &&& a == path@[0] && b == path@[path@.len() - 1]
                    &&& ink == color && thick == width
                },
                Op::Line { a, b, color: ink, width: thick } => {
                    &&& tool == Tool::Line
                    &&& a == path@[0] && b == path@[path@.len() - 1]
                    &&& ink == color && thick == width
                },
                Op::Pencil { path: samples, color: ink, width: thick } => {
                    &&& tool == Tool::Pencil
                    &&& samples@ == path@
                    &&& ink == color && thick == width
                },
                Op::Highlight { a, b, color: ink } => {
                    &&& tool == Tool::Highlight
                    &&& a == path@[0] && b == path@[path@.len() - 1]
                    &&& ink == color
                },
                Op::Blur { a, b } => {
                    &&& tool == Tool::Blur
                    &&& a == path@[0] && b == path@[path@.len() - 1]
                },
                Op::Text { .. } => false,
            },
    {
        let n: usize = path.len();
        if n == 0 {
            return None;
        }
        let a: Point<S> = path[0];
        let b: Point<S> = path[n - 1];
        match tool {
            Tool::Arrow => Some(Op::Arrow { a, b, color, width }),
            Tool::Line => Some(Op::Line { a, b, color, width }),
            Tool::Rect => Some(Op::Rect { a, b, color, width, filled }),
            Tool::Ellipse => Some(Op::Ellipse { a, b, color, width, filled }),
            Tool::Pencil => Some(Op::Pencil { path: copied(path), color, width }),
            Tool::Highlight => Some(Op::Highlight { a, b, color }),
            Tool::Blur => Some(Op::Blur { a, b }),
            Tool::Text => None,
        }
    }
}

/// The edit state: an immutable base image plus the op list and its pointer.
///
/// The pointer is the count of applied ops, those that render. Ops past it are the redo
/// tail, kept until the next `push` truncates them.
pub struct Document<S> {
    base: RgbaImage,
    ops: Vec<Op<S>>,
    pointer: usize,
}

/// An op list with its pointer, over a base image.
#[verifier::ext_equal]
pub struct History<S> {
    pub base: RgbaImage,
    pub ops: Seq<Op<S>>,
    pub pointer: int,
}

impl<S> History<S> {
    /// The pointer is within the list.
    pub open spec fn wf(self) -> bool {
        0 <= self.pointer <= self.ops.len()
    }

    /// The ops that render.
    pub open spec fn visible(self) -> Seq<Op<S>> {
        self.ops.subrange(0, self.pointer)
    }

    pub open spec fn can_undo(self) -> bool {
        self.pointer > 0
    }

    pub open spec fn can_redo(self) -> bool {
        self.pointer < self.ops.len()
    }

    /// Whatever is past the pointer goes, and `op` takes its place.
    pub open spec fn pushed(self, op: Op<S>) -> History<S> {
        History { ops: self.visible().push(op), pointer: self.pointer + 1, ..self }
    }

    pub open spec fn undone(self) -> History<S> {
        if self.can_undo() {
            History { pointer: self.pointer - 1, ..self }
        } else {
            self
        }
    }

    pub open spec fn redone(self) -> History<S> {
        if self.can_redo() {
            History { pointer: self.pointer + 1, ..self }
        } else {
            self
        }
    }
}

impl<S> View for Document<S> {
    type V = History<S>;

    closed spec fn view(&self) -> History<S> {
        History { base: self.base, ops: self.ops@, pointer: self.pointer as int }
    }
}

impl<S> Document<S> {
    pub fn new(base: RgbaImage) -> (d: Document<S>)
        ensures
            d@.wf(),
            d@ == (History::<S> { base, ops: Seq::empty(), pointer: 0 }),
    {
        Document { base, ops: Vec::new(), pointer: 0 }
    }

    /// The image that the ops are drawn on.
    pub fn base(&self) -> (r: &RgbaImage)
        ensures
            *r == self@.base,
    {
        &self.base
    }

    /// Commit a new op. Anything past the pointer is discarded first, so editing after
    /// an undo forks a new history.
    pub fn push(&mut self, op: Op<S>)
        requires
            old(self)@.wf(),
        ensures
            final(self)@.wf(),
            final(self)@ == old(self)@.pushed(op),
    {
        self.ops.truncate(self.pointer);
        self.ops.push(op);
        self.pointer = self.ops.len();
        assert(self@ =~= old(self)@.pushed(op));
    }

    /// Take back the last op that renders. It stays for `redo`.
    pub fn undo(&mut self)
        requires
            old(self)@.wf(),
        ensures
            final(self)@.wf(),
            final(self)@ == old(self)@.undone(),
    {
        if self.pointer > 0 {
            self.pointer = self.pointer - 1;
        }
    }

    /// Apply again the op that was taken back last.
    pub fn redo(&mut self)
        requires
            old(self)@.wf(),
        ensures
            final(self)@.wf(),
            final(self)@ == old(self)@.redone(),
    {
        if self.pointer < self.ops.len() {
            self.pointer = self.pointer + 1;
        }
    }

    pub fn can_undo(&self) -> (r: bool)
        ensures
            r == self@.can_undo(),
    {
        self.pointer > 0
    }

    pub fn can_redo(&self) -> (r: bool)
        ensures
            r == self@.can_redo(),
    {
        self.pointer < self.ops.len()
    }

    /// The prefix that renders: every op up to the pointer, in order.
    pub fn visible_ops(&self) -> (r: &[Op<S>])
        requires
            self@.wf(),
        ensures
            r@ == self@.visible(),
    {
        vstd::slice::slice_subrange(self.ops.as_slice(), 0, self.pointer)
    }
}

/// A step of drawing an op.
#[derive(Clone, Copy, Debug, PartialEq, Eq, Structural)]
pub enum Pass {
    /// The interior of a filled shape.
    Fill,
    /// Everything else.
    Ink,
}

/// The steps in which an op is drawn: the interior of a filled shape lies under its
/// outline.
pub open spec fn passes<S>(op: Op<S>) -> Seq<Pass> {
    match op {
        Op::Rect { filled: true, .. } => seq![Pass::Fill, Pass::Ink],
        Op::Ellipse { filled: true, .. } => seq![Pass::Fill, Pass::Ink],
        _ => seq![Pass::Ink],
    }
}

/// Whether the op has an interior to draw.
pub fn has_interior<S>(op: &Op<S>) -> (r: bool)
    ensures
        passes(*op) == (if r {
            seq![Pass::Fill, Pass::Ink]
        } else {
            seq![Pass::Ink]
        }),
{
    match op {
        Op::Rect { filled, .. } => *filled,
        Op::Ellipse { filled, .. } => *filled,
        _ => false,
    }
}

/// `to` is what `draw` makes of `from` in one step.
pub open spec fn stepped<S, F: Fn(RgbaImage, &Op<S>, Pass) -> RgbaImage>(
    draw: F,
    from: RgbaImage,
    op: Op<S>,
    pass: Pass,
    to: RgbaImage,
) -> bool {
    call_ensures(draw, (from, &op, pass), to)
}

/// `to` is what `draw` makes of `from` in the steps of `op`.
pub open spec fn op_drawn<S, F: Fn(RgbaImage, &Op<S>, Pass) -> RgbaImage>(
    draw: F,
    from: RgbaImage,
    op: Op<S>,
    to: RgbaImage,
) -> bool {
    if passes(op).len() == 2 {
        exists|mid: RgbaImage| #[trigger]
            stepped(draw, from, op, Pass::Fill, mid) && stepped(draw, mid, op, Pass::Ink, to)
    } else {
        stepped(draw, from, op, Pass::Ink, to)
    }
}

/// `to` is what drawing `ops` in order makes of `from`.
pub open spec fn drawn<S, F: Fn(RgbaImage, &Op<S>, Pass) -> RgbaImage>(
    draw: F,
    from: RgbaImage,
    ops: Seq<Op<S>>,
    to: RgbaImage,
) -> bool
    decreases ops.len(),
{
    if ops.len() == 0 {
        to == from
    } else {
        exists|mid: RgbaImage|
            drawn(draw, from, ops.drop_last(), mid) && #[trigger] op_drawn(
                draw,
                mid,
                ops.last(),
                to,
            )
    }
}

/// `draw` accepts every image of the given size and keeps its size.
pub open spec fn draws<S, F: Fn(RgbaImage, &Op<S>, Pass) -> RgbaImage>(
    draw: F,
    w: u32,
    h: u32,
) -> bool {
    &&& forall|img: RgbaImage, op: Op<S>, pass: Pass|
        img.wf() && img.width == w && img.height == h ==> #[trigger] call_requires(
            draw,
            (img, &op, pass),
        )
    &&& forall|img: RgbaImage, op: Op<S>, pass: Pass, out: RgbaImage|
        img.wf() && img.width == w && img.height == h && #[trigger] stepped(
            draw,
            img,
            op,
            pass,
            out,
        ) ==> out.wf() && out.width == w && out.height == h
}

/// `r` is what drawing the visible ops of `d` in order makes of its base image.
pub open spec fn rendered<S, F: Fn(RgbaImage, &Op<S>, Pass) -> RgbaImage>(
    draw: F,
    d: History<S>,
    r: RgbaImage,
) -> bool {
    exists|start: RgbaImage|
        start.same_pixels(d.base) && #[trigger] drawn(draw, start, d.visible(), r)
}

/// Flatten the visible prefix onto the base image. `draw` draws one step of one op. No
/// diffing, no caching: the caller decides when to call it, on edits and not every frame.
pub fn render<S, F: Fn(RgbaImage, &Op<S>, Pass) -> RgbaImage>(doc: &Document<S>, draw: F) -> (r:
    RgbaImage)
    requires
        doc@.wf(),
        doc@.base.wf(),
        draws(draw, doc@.base.width, doc@.base.height),
    ensures
        r.wf(),
        r.width == doc@.base.width,
        r.height == doc@.base.height,
        rendered(draw, doc@, r),
{
    let mut img: RgbaImage = doc.base.clone();
    let ghost start = img;
    let ops: &[Op<S>] = doc.visible_ops();
    let n: usize = ops.len();
    let mut i: usize = 0;
    assert(ops@.subrange(0, 0) =~= Seq::<Op<S>>::empty());
    while i < n
        invariant
            n == ops@.len(),
            i <= n,
            img.wf(),
            img.width == doc@.base.width,
            img.height == doc@.base.height,
            draws(draw, doc@.base.width, doc@.base.height),
            drawn(draw, start, ops@.subrange(0, i as int), img),
        decreases n - i,
    {
        let ghost before = img;
        let op: &Op<S> = &ops[i];
        if has_interior(op) {
            let ghost under = img;
            img = draw(img, op, Pass::Fill);
            assert(stepped(draw, under, *op, Pass::Fill, img));
        }
        let ghost mid = img;
        img = draw(img, op, Pass::Ink);
        proof {
            assert(stepped(draw, mid, *op, Pass::Ink, img));
            assert(op_drawn(draw, before, *op, img));
            let done = ops@.subrange(0, i + 1);
            assert(done.drop_last() =~= ops@.subrange(0, i as int));
            assert(done.last() == *op);
        }
        i = i + 1;
    }
    assert(ops@.subrange(0, n as int) =~= ops@);
    img
}

/// Undo and redo are inverse wherever they do anything.
pub proof fn law_undo_and_redo_are_inverse<S>(d: History<S>)
    requires
        d.wf(),
    ensures
        d.can_undo() ==> d.undone().redone() == d,
        d.can_redo() ==> d.redone().undone() == d,
{
}

/// Undo and redo drop no ops, and do nothing at the ends of the list.
pub proof fn law_undo_and_redo_keep_every_op<S>(d: History<S>)
    requires
        d.wf(),
    ensures
        d.undone().wf() && d.undone().ops == d.ops && d.undone().base == d.base,
        d.redone().wf() && d.redone().ops == d.ops && d.redone().base == d.base,
        d.visible().len() == 0 ==> d.undone() == d,
        d.visible().len() == d.ops.len() ==> d.redone() == d,
{
}

/// Undoing what was just pushed shows what showed before, and redoing it shows it again.
pub proof fn law_undo_takes_back_a_push<S>(d: History<S>, op: Op<S>)
    requires
        d.wf(),
    ensures
        d.pushed(op).visible() == d.visible().push(op),
        d.pushed(op).undone().visible() == d.visible(),
        d.pushed(op).undone().redone() == d.pushed(op),
{
    assert(d.pushed(op).visible() =~= d.visible().push(op));
    assert(d.pushed(op).undone().visible() =~= d.visible());
}

/// A push after an undo discards what was undone: nothing is left to redo.
pub proof fn law_push_after_undo_truncates_the_tail<S>(d: History<S>, op: Op<S>)
    requires
        d.wf(),
    ensures
        !d.pushed(op).can_redo(),
        d.pushed(op).can_undo(),
        d.pushed(op).visible().last() == op,
        d.can_undo() ==> d.undone().pushed(op).ops == d.visible().drop_last().push(op),
{
    assert(d.pushed(op).visible().last() == op);
    assert(d.can_undo() ==> d.undone().visible() =~= d.visible().drop_last());
}

/// Later ops render on top: drawing `first` and then `later` starts from what drawing
/// `first` alone made.
pub proof fn law_later_ops_render_on_top<S, F: Fn(RgbaImage, &Op<S>, Pass) -> RgbaImage>(
    draw: F,
    from: RgbaImage,
    first: Seq<Op<S>>,
    later: Seq<Op<S>>,
    to: RgbaImage,
)
    requires
        drawn(draw, from, first + later, to),
    ensures
        exists|mid: RgbaImage| #[trigger]
            drawn(draw, from, first, mid) && drawn(draw, mid, later, to),
    decreases later.len(),
{
    if later.len() == 0 {
        assert(first + later =~= first);
        assert(drawn(draw, to, later, to));
    } else {
        let all = first + later;
        assert(all.drop_last() =~= first + later.drop_last());
        assert(all.last() == later.last());
        let m = choose|m: RgbaImage|
            drawn(draw, from, all.drop_last(), m) && #[trigger] op_drawn(draw, m, all.last(), to);
        law_later_ops_render_on_top(draw, from, first, later.drop_last(), m);
        let mid = choose|mid: RgbaImage| #[trigger]
            drawn(draw, from, first, mid) && drawn(draw, mid, later.drop_last(), m);
        assert(drawn(draw, mid, later, to));
    }
}

/// `draw` gives equal pixels for equal pixels and equal ops.
pub open spec fn draws_purely<S, F: Fn(RgbaImage, &Op<S>, Pass) -> RgbaImage>(draw: F) -> bool {
    forall|
        a: RgbaImage,
        p: Op<S>,
        b: RgbaImage,
        q: Op<S>,
        pass: Pass,
        x: RgbaImage,
        y: RgbaImage,
    | #[trigger]
        stepped(draw, a, p, pass, x) && #[trigger] stepped(draw, b, q, pass, y) && a.same_pixels(b)
            && p@ == q@ ==> x.same_pixels(y)
}

/// The ops hold the same, one by one.
pub open spec fn same_ops<S>(a: Seq<Op<S>>, b: Seq<Op<S>>) -> bool {
    &&& a.len() == b.len()
    &&& forall|i: int| 0 <= i < a.len() ==> (#[trigger] a[i])@ == b[i]@
}

proof fn lemma_same_drawing<S, F: Fn(RgbaImage, &Op<S>, Pass) -> RgbaImage>(
    draw: F,
    from: RgbaImage,
    ops: Seq<Op<S>>,
    r: RgbaImage,
    from2: RgbaImage,
    ops2: Seq<Op<S>>,
    r2: RgbaImage,
)
    requires
        draws_purely(draw),
        from.same_pixels(from2),
        same_ops(ops, ops2),
        drawn(draw, from, ops, r),
        drawn(draw, from2, ops2, r2),
    ensures
        r.same_pixels(r2),
    decreases ops.len(),
{
    if ops.len() > 0 {
        let p = ops.last();
        let q = ops2.last();
        assert(ops[ops.len() - 1]@ == ops2[ops.len() - 1]@);
        let m = choose|m: RgbaImage|
            drawn(draw, from, ops.drop_last(), m) && #[trigger] op_drawn(draw, m, p, r);
        let m2 = choose|m2: RgbaImage|
            drawn(draw, from2, ops2.drop_last(), m2) && #[trigger] op_drawn(draw, m2, q, r2);
        assert forall|i: int| 0 <= i < ops.drop_last().len() implies (#[trigger] ops.drop_last()[i])@
            == ops2.drop_last()[i]@ by {
            assert(ops[i]@ == ops2[i]@);
        }
        lemma_same_drawing(draw, from, ops.drop_last(), m, from2, ops2.drop_last(), m2);
        assert(passes(p) == passes(q));
        if passes(p).len() == 2 {
            let f = choose|f: RgbaImage| #[trigger]
                stepped(draw, m, p, Pass::Fill, f) && stepped(draw, f, p, Pass::Ink, r);
            let f2 = choose|f2: RgbaImage| #[trigger]
                stepped(draw, m2, q, Pass::Fill, f2) && stepped(draw, f2, q, Pass::Ink, r2);
            assert(f.same_pixels(f2));
        }
    }
}

/// Same document in, same pixels out: two documents with equal base pixels and equal
/// visible ops render to equal pixels, whatever their redo tails, where `draw` gives equal
/// pixels for equal pixels and equal ops.
pub proof fn law_rendering_is_pure<S, F: Fn(RgbaImage, &Op<S>, Pass) -> RgbaImage>(
    draw: F,
    d1: History<S>,
    r1: RgbaImage,
    d2: History<S>,
    r2: RgbaImage,
)
    requires
        draws_purely(draw),
        d1.base.same_pixels(d2.base),
        same_ops(d1.visible(), d2.visible()),
        rendered(draw, d1, r1),
        rendered(draw, d2, r2),
    ensures
        r1.same_pixels(r2),
{
    let s1 = choose|s: RgbaImage|
        s.same_pixels(d1.base) && #[trigger] drawn(draw, s, d1.visible(), r1);
    let s2 = choose|s: RgbaImage|
        s.same_pixels(d2.base) && #[trigger] drawn(draw, s, d2.visible(), r2);
    lemma_same_drawing(draw, s1, d1.visible(), r1, s2, d2.visible(), r2);
}

/// Undoing what was just pushed brings the picture back.
pub proof fn law_undo_brings_the_picture_back<S, F: Fn(RgbaImage, &Op<S>, Pass) -> RgbaImage>(
    draw: F,
    d: History<S>,
    op: Op<S>,
    before: RgbaImage,
    after: RgbaImage,
)
    requires
        d.wf(),
        draws_purely(draw),
        rendered(draw, d, before),
        rendered(draw, d.pushed(op).undone(), after),
    ensures
        before.same_pixels(after),
{
    law_undo_takes_back_a_push(d, op);
    law_rendering_is_pure(draw, d, before, d.pushed(op).undone(), after);
}

/// `draw` leaves an opaque image opaque.
pub open spec fn draws_opaquely<S, F: Fn(RgbaImage, &Op<S>, Pass) -> RgbaImage>(draw: F) -> bool {
    forall|img: RgbaImage, op: Op<S>, pass: Pass, out: RgbaImage|
        img.wf() && img.opaque() && #[trigger] stepped(draw, img, op, pass, out) ==> out.wf()
            && out.opaque()
}

proof fn lemma_opaque_drawing<S, F: Fn(RgbaImage, &Op<S>, Pass) -> RgbaImage>(
    draw: F,
    from: RgbaImage,
    ops: Seq<Op<S>>,
    r: RgbaImage,
)
    requires
        draws_opaquely(draw),
        from.wf(),
        from.opaque(),
        drawn(draw, from, ops, r),
    ensures
        r.wf(),
        r.opaque(),
    decreases ops.len(),
{
    if ops.len() > 0 {
        let p = ops.last();
        let m = choose|m: RgbaImage|
            drawn(draw, from, ops.drop_last(), m) && #[trigger] op_drawn(draw, m, p, r);
        lemma_opaque_drawing(draw, from, ops.drop_last(), m);
        if passes(p).len() == 2 {
            let f = choose|f: RgbaImage| #[trigger]
                stepped(draw, m, p, Pass::Fill, f) && stepped(draw, f, p, Pass::Ink, r);
            assert(f.opaque());
        }
    }
}

/// A document over an opaque base renders to an opaque picture, where `draw` leaves an
/// opaque image opaque.
pub proof fn law_rendering_stays_opaque<S, F: Fn(RgbaImage, &Op<S>, Pass) -> RgbaImage>(
    draw: F,
    d: History<S>,
    r: RgbaImage,
)
    requires
        draws_opaquely(draw),
        d.base.wf(),
        d.base.opaque(),
        rendered(draw, d, r),
    ensures
        r.wf(),
        r.opaque(),
{
    let start = choose|s: RgbaImage|
        s.same_pixels(d.base) && #[trigger] drawn(draw, s, d.visible(), r);
    assert forall|x: int, y: int| 0 <= x < start.width && 0 <= y < start.height implies #[trigger]
    start.at(x, y, 3) == 255 by {
        assert(d.base.at(x, y, 3) == 255);
    }
    lemma_opaque_drawing(draw, start, d.visible(), r);
}

/// An empty document renders to its base image.
pub proof fn law_empty_document_renders_to_its_base<
    S,
    F: Fn(RgbaImage, &Op<S>, Pass) -> RgbaImage,
>(draw: F, d: History<S>, out: RgbaImage)
    requires
        d.visible().len() == 0,
        rendered(draw, d, out),
    ensures
        out.same_pixels(d.base),
{
}

/// An op is seen as it is: what its view shows is what it holds, all of it.
pub proof fn law_view_shows_the_op<S>(op: Op<S>)
    ensures
        match op {
            Op::Arrow { a, b, color, width } => op@ matches OpView::Arrow {
                a: a1,
                b: b1,
                color: c1,
                width: w1,
            } && a1 == a && b1 == b && c1 == color && w1 == width,
            Op::Line { a, b, color, width } => op@ matches OpView::Line {
                a: a1,
                b: b1,
                color: c1,
                width: w1,
            } && a1 == a && b1 == b && c1 == color && w1 == width,
            Op::Rect { a, b, color, width, filled } => op@ matches OpView::Rect {
                a: a1,
                b: b1,
                color: c1,
                width: w1,
                filled: f1,
            } && a1 == a && b1 == b && c1 == color && w1 == width && f1 == filled,
            Op::Ellipse { a, b, color, width, filled } => op@ matches OpView::Ellipse {
                a: a1,
                b: b1,
                color: c1,
                width: w1,
                filled: f1,
            } && a1 == a && b1 == b && c1 == color && w1 == width && f1 == filled,
            Op::Pencil { path, color, width } => op@ matches OpView::Pencil {
                path: p1,
                color: c1,
                width: w1,
            } && p1 == path@ && c1 == color && w1 == width,
            Op::Highlight { a, b, color } => op@ matches OpView::Highlight {
                a: a1,
                b: b1,
                color: c1,
            } && a1 == a && b1 == b && c1 == color,
            Op::Blur { a, b } => op@ matches OpView::Blur { a: a1, b: b1 } && a1 == a && b1 == b,
            Op::Text { pos, text, color, size } => op@ matches OpView::Text {
                pos: p1,
                text: t1,
                color: c1,
                size: s1,
            } && p1 == pos && t1 == text@ && c1 == color && s1 == size,
        },
{
}

/// The op of a drag carries the toolbar's settings, for every drag with a sample: it goes
/// from the first sample to the last, in the colour, the width and the fill that were set.
/// The interior of its shape is drawn exactly where the shape has one and the fill is on.
pub proof fn law_op_carries_the_settings<S>(
    tool: Tool,
    path: Seq<Point<S>>,
    color: Rgba,
    width: S,
    filled: bool,
    op: Op<S>,
)
    requires
        path.len() > 0,
        dragged(tool, path, color, width, filled) == Some(op@),
    ensures
        match op {
            Op::Rect { a, b, color: ink, width: thick, filled: solid } => {
                &&& tool == Tool::Rect
                &&& a == path[0] && b == path[path.len() - 1]
                &&& ink == color && thick == width && solid == filled
            },
            Op::Ellipse { a, b, color: ink, width: thick, filled: solid } => {
                &&& tool == Tool::Ellipse
                &&& a == path[0] && b == path[path.len() - 1]
                &&& ink == color && thick == width && solid == filled
            },
            Op::Arrow { a, b, color: ink, width: thick } => {
                &&& tool == Tool::Arrow
                &&& a == path[0] && b == path[path.len() - 1]
                &&& ink == color && thick == width
            },
            Op::Line { a, b, color: ink, width: thick } => {
                &&& tool == Tool::Line
                &&& a == path[0] && b == path[path.len() - 1]
                &&& ink == color && thick == width
            },
            Op::Pencil { path: samples, color: ink, width: thick } => {
                &&& tool == Tool::Pencil
                &&& samples@ == path
                &&& ink == color && thick == width
            },
            Op::Highlight { a, b, color: ink } => {
                &&& tool == Tool::Highlight
                &&& a == path[0] && b == path[path.len() - 1]
                &&& ink == color
            },
            Op::Blur { a, b } => {
                &&& tool == Tool::Blur
                &&& a == path[0] && b == path[path.len() - 1]
            },
            Op::Text { .. } => false,
        },
        passes(op).contains(Pass::Fill) <==> filled && (tool == Tool::Rect || tool
            == Tool::Ellipse),
        passes(op).last() == Pass::Ink,
{
    let steps = passes(op);
    if steps.len() == 2 {
        assert(steps[0] == Pass::Fill);
    }
}

/// A drag makes an op exactly where it has a sample and the tool is not the text tool.
pub proof fn law_drag_makes_an_op<S>(
    tool: Tool,
    path: Seq<Point<S>>,
    color: Rgba,
    width: S,
    filled: bool,
)
    ensures
        dragged(tool, path, color, width, filled) is Some <==> path.len() > 0 && tool != Tool::Text,
{
}

/// An op is drawn in one step, with ink, unless it is a filled rectangle or a filled ellipse:
/// then its interior is drawn first, and the ink over that.
pub proof fn law_interior_lies_under_the_ink<
    S,
    F: Fn(RgbaImage, &Op<S>, Pass) -> RgbaImage,
>(draw: F, from: RgbaImage, op: Op<S>, to: RgbaImage)
    ensures
        ({
            let solid = match op {
                Op::Rect { filled, .. } => filled,
                Op::Ellipse { filled, .. } => filled,
                _ => false,
            };
            drawn(draw, from, seq![op], to) <==> if solid {
                exists|mid: RgbaImage| #[trigger]
                    call_ensures(draw, (from, &op, Pass::Fill), mid) && call_ensures(
                        draw,
                        (mid, &op, Pass::Ink),
                        to,
                    )
            } else {
                call_ensures(draw, (from, &op, Pass::Ink), to)
            }
        }),
{
    let ops = seq![op];
    assert(ops.drop_last() =~= Seq::<Op<S>>::empty());
    assert(ops.last() == op);
    reveal_with_fuel(drawn, 2);
    assert(op_drawn(draw, from, op, to) ==> drawn(draw, from, ops, to)) by {
        assert(drawn(draw, from, ops.drop_last(), from));
    }
    if passes(op).len() == 2 {
        if op_drawn(draw, from, op, to) {
            let mid = choose|mid: RgbaImage| #[trigger]
                stepped(draw, from, op, Pass::Fill, mid) && stepped(draw, mid, op, Pass::Ink, to);
            assert(call_ensures(draw, (from, &op, Pass::Fill), mid));
        }
        if exists|mid: RgbaImage| #[trigger]
            call_ensures(draw, (from, &op, Pass::Fill), mid) && call_ensures(
                draw,
                (mid, &op, Pass::Ink),
                to,
            ) {
            let mid = choose|mid: RgbaImage| #[trigger]
                call_ensures(draw, (from, &op, Pass::Fill), mid) && call_ensures(
                    draw,
                    (mid, &op, Pass::Ink),
                    to,
                );
            assert(stepped(draw, from, op, Pass::Fill, mid));
        }
    }
}

/// Drawing goes through the ops in order, each on what those before it made: the last of
/// them is drawn on what the others made, and no op at all leaves the image.
pub proof fn law_ops_are_drawn_in_order<S, F: Fn(RgbaImage, &Op<S>, Pass) -> RgbaImage>(
    draw: F,
    from: RgbaImage,
    ops: Seq<Op<S>>,
    op: Op<S>,
    to: RgbaImage,
)
    ensures
        drawn(draw, from, Seq::<Op<S>>::empty(), to) <==> to == from,
        drawn(draw, from, ops.push(op), to) <==> exists|mid: RgbaImage| #[trigger]
            drawn(draw, from, ops, mid) && drawn(draw, mid, seq![op], to),
{
    let all = ops.push(op);
    assert(all.drop_last() =~= ops);
    assert(all.last() == op);
    let one = seq![op];
    assert(one.drop_last() =~= Seq::<Op<S>>::empty());
    assert(one.last() == op);
    assert forall|m: RgbaImage| #[trigger] op_drawn(draw, m, op, to) implies drawn(
        draw,
        m,
        one,
        to,
    ) by {
        assert(drawn(draw, m, one.drop_last(), m));
    }
    if drawn(draw, from, all, to) {
        let m = choose|m: RgbaImage|
            drawn(draw, from, all.drop_last(), m) && #[trigger] op_drawn(draw, m, all.last(), to);
        assert(drawn(draw, from, ops, m) && drawn(draw, m, one, to));
    }
    if exists|mid: RgbaImage| #[trigger]
        drawn(draw, from, ops, mid) && drawn(draw, mid, seq![op], to) {
        let mid = choose|mid: RgbaImage| #[trigger]
            drawn(draw, from, ops, mid) && drawn(draw, mid, seq![op], to);
        let m = choose|m: RgbaImage|
            drawn(draw, mid, one.drop_last(), m) && #[trigger] op_drawn(draw, m, one.last(), to);
        assert(m == mid);
        assert(drawn(draw, from, all.drop_last(), mid) && op_drawn(draw, mid, all.last(), to));
    }
}

/// A document is rendered from its base image with the ops that show, all of them and no
/// others.
pub proof fn law_rendering_draws_what_shows<S, F: Fn(RgbaImage, &Op<S>, Pass) -> RgbaImage>(
    draw: F,
    d: History<S>,
    r: RgbaImage,
)
    requires
        d.wf(),
    ensures
        rendered(draw, d, r) <==> exists|start: RgbaImage|
            {
                &&& start.width == d.base.width
                &&& start.height == d.base.height
                &&& start.data@ == d.base.data@
                &&& #[trigger] drawn(draw, start, d.ops.take(d.pointer), r)
            },
{
    assert(d.ops.take(d.pointer) =~= d.visible());
}

/// Editing moves along the list of ops one at a time: an op that is pushed shows after those
/// that showed, undo hides the last that shows, and redo shows the next. No editing touches
/// the base image.
pub proof fn law_editing_moves_one_op_at_a_time<S>(d: History<S>, op: Op<S>)
    requires
        d.wf(),
    ensures
        d.visible() == d.ops.take(d.pointer),
        d.pushed(op).wf(),
        d.pushed(op).visible() == d.visible().push(op),
        d.pushed(op).ops == d.visible().push(op),
        d.pushed(op).base == d.base,
        d.visible().len() > 0 ==> d.undone().visible() == d.visible().take(
            d.visible().len() - 1,
        ),
        d.visible().len() == 0 ==> d.undone() == d,
        d.pointer < d.ops.len() ==> d.redone().visible() == d.visible().push(d.ops[d.pointer]),
        d.pointer == d.ops.len() ==> d.redone() == d,
        d.undone().base == d.base && d.redone().base == d.base,
        d.undone().ops == d.ops && d.redone().ops == d.ops,
        d.can_undo() <==> d.visible().len() > 0,
        d.can_redo() <==> d.visible().len() < d.ops.len(),
{
    assert(d.visible() =~= d.ops.take(d.pointer));
    assert(d.pushed(op).visible() =~= d.visible().push(op));
    if d.pointer > 0 {
        assert(d.undone().visible() =~= d.visible().take(d.visible().len() - 1));
    }
    if d.pointer < d.ops.len() {
        assert(d.redone().visible() =~= d.visible().push(d.ops[d.pointer]));
    }
}

} // verus!
