//! Selecting a region with the pointer.

use vstd::prelude::*;

use super::rect::Rect;

verus! {

/// evdev keycode for Escape.
pub const KEY_ESC: u32 = 1;

/// evdev button code for the left mouse button.
pub const BTN_LEFT: u32 = 0x110;

/// A surface-local position in 256ths of a logical pixel, the unit in which the
/// Wayland protocol carries pointer coordinates.
#[derive(Clone, Copy, Debug, PartialEq, Eq, Structural)]
pub struct Pos {
    pub x: i32,
    pub y: i32,
}

/// What the compositor reports to the overlay.
#[derive(Clone, Copy, Debug, PartialEq, Eq, Structural)]
pub enum Event {
    /// The pointer entered the surface or moved over it.
    Pointer(Pos),
    /// A mouse button went down or up.
    Button { button: u32, pressed: bool },
    /// A key went down or up.
    Key { key: u32, pressed: bool },
    /// The last frame was presented.
    FrameDone,
    /// The surface has a size and may be drawn.
    Configured,
    /// The surface was closed.
    Closed,
}

/// The selection in progress.
#[derive(Clone, Copy, Debug, PartialEq, Eq, Structural)]
pub struct Overlay {
    /// Physical pixels per logical one.
    pub scale: i32,
    /// Size of the grab, in physical pixels.
    pub phys_w: u32,
    pub phys_h: u32,
    pub pointer_pos: Pos,
    /// Drag start while the left button is held.
    pub anchor: Option<Pos>,
    /// The result, set on release.
    pub selection: Option<Rect>,
    pub configured: bool,
    /// State changed; a redraw is wanted.
    pub dirty: bool,
    /// A frame is committed and was not presented yet.
    pub frame_pending: bool,
    pub running: bool,
}

/// The coordinate `k` in physical pixels: scaled, rounded to the nearest pixel with
/// halves away from zero, and clamped to a grab of `limit` pixels.
pub open spec fn edge(k: int, scale: int, limit: int) -> int {
    let p = k * scale;
    if p <= 0 {
        0
    } else if (p + 128) / 256 > limit {
        limit
    } else {
        (p + 128) / 256
    }
}

pub open spec fn smaller(a: int, b: int) -> int {
    if a <= b {
        a
    } else {
        b
    }
}

pub open spec fn larger(a: int, b: int) -> int {
    if a <= b {
        b
    } else {
        a
    }
}

/// First pixel and length of the span between `a` and `b` along one axis.
pub open spec fn span(a: int, b: int, scale: int, limit: int) -> (int, int) {
    let lo = edge(smaller(a, b), scale, limit);
    let hi = edge(larger(a, b), scale, limit);
    (
        lo,
        if hi < lo {
            0
        } else {
            hi - lo
        },
    )
}

/// The rectangle between two positions, in physical pixels.
pub open spec fn dragged(a: Pos, b: Pos, scale: i32, w: u32, h: u32) -> Rect {
    let x = span(a.x as int, b.x as int, scale as int, w as int);
    let y = span(a.y as int, b.y as int, scale as int, h as int);
    Rect { x: x.0 as u32, y: y.0 as u32, width: x.1 as u32, height: y.1 as u32 }
}

impl Overlay {
    /// Whatever was selected is a real selection within the grab.
    pub open spec fn wf(&self) -> bool {
        self.selection matches Some(r) ==> r.usable() && r.within(
            self.phys_w as int,
            self.phys_h as int,
        )
    }

    /// The rectangle of the current drag, if there is one.
    pub open spec fn drag(&self) -> Option<Rect> {
        match self.anchor {
            Some(a) => Some(dragged(a, self.pointer_pos, self.scale, self.phys_w, self.phys_h)),
            None => None,
        }
    }

    /// What releasing the button selects: nothing without a drag, and nothing where
    /// the drag is too small.
    pub open spec fn released(&self) -> Option<Rect> {
        match self.drag() {
            Some(r) => if r.usable() {
                Some(r)
            } else {
                None
            },
            None => None,
        }
    }

    /// The state after `event`.
    pub open spec fn after(self, event: Event) -> Overlay {
        match event {
            Event::Pointer(pos) => Overlay { pointer_pos: pos, dirty: true, ..self },
            Event::Button { button, pressed } => if button != BTN_LEFT {
                self
            } else if pressed {
                Overlay { anchor: Some(self.pointer_pos), dirty: true, ..self }
            } else {
                Overlay { selection: self.released(), anchor: None, running: false, ..self }
            },
            Event::Key { key, pressed } => if pressed && key == KEY_ESC {
                Overlay { running: false, ..self }
            } else {
                self
            },
            Event::FrameDone => Overlay { frame_pending: false, ..self },
            Event::Configured => Overlay { configured: true, dirty: true, ..self },
            Event::Closed => Overlay { running: false, ..self },
        }
    }

    /// The state before any event, over a grab of `phys_w` by `phys_h` pixels.
    pub open spec fn start(scale: i32, phys_w: u32, phys_h: u32) -> Overlay {
        Overlay {
            scale,
            phys_w,
            phys_h,
            pointer_pos: Pos { x: 0, y: 0 },
            anchor: None,
            selection: None,
            configured: false,
            dirty: false,
            frame_pending: false,
            running: true,
        }
    }

    /// Show the overlay over a grab of `phys_w` by `phys_h` pixels.
    pub fn new(scale: i32, phys_w: u32, phys_h: u32) -> (o: Overlay)
        ensures
            o.wf(),
            o == Overlay::start(scale, phys_w, phys_h),
    {
        Overlay {
            scale,
            phys_w,
            phys_h,
            pointer_pos: Pos { x: 0, y: 0 },
            anchor: None,
            selection: None,
            configured: false,
            dirty: false,
            frame_pending: false,
            running: true,
        }
    }

    /// The current drag rectangle in physical pixels, mapping logical coordinates
    /// through the output scale and clamping to the grab.
    pub fn drag_rect(&self) -> (r: Option<Rect>)
        ensures
            r == self.drag(),
            r matches Some(rect) ==> rect.within(self.phys_w as int, self.phys_h as int),
    {
        match self.anchor {
            None => None,
            Some(a) => {
                let (x, width): (u32, u32) = span_of(
                    a.x,
                    self.pointer_pos.x,
                    self.scale,
                    self.phys_w,
                );
                let (y, height): (u32, u32) = span_of(
                    a.y,
                    self.pointer_pos.y,
                    self.scale,
                    self.phys_h,
                );
                Some(Rect { x, y, width, height })
            },
        }
    }

    /// Take in one event.
    pub fn event(&mut self, event: Event)
        requires
            old(self).wf(),
        ensures
            final(self).wf(),
            *final(self) == old(self).after(event),
    {
        match event {
            Event::Pointer(pos) => {
                self.pointer_pos = pos;
                self.dirty = true;
            },
            Event::Button { button, pressed } => {
                if button == BTN_LEFT {
                    if pressed {
                        self.anchor = Some(self.pointer_pos);
                        self.dirty = true;
                    } else {
                        self.selection = match self.drag_rect() {
                            Some(r) => {
                                if r.is_usable() {
                                    Some(r)
                                } else {
                                    None
                                }
                            },
                            None => None,
                        };
                        self.anchor = None;
                        self.running = false;
                    }
                }
            },
            Event::Key { key, pressed } => {
                if pressed && key == KEY_ESC {
                    self.running = false;
                }
            },
            Event::FrameDone => {
                self.frame_pending = false;
            },
            Event::Configured => {
                self.configured = true;
                self.dirty = true;
            },
            Event::Closed => {
                self.running = false;
            },
        }
    }

    /// Whether to draw now: only when something changed and the last frame was
    /// presented, so that pointer events can never back up a queue of renders.
    /// `mapped` says that there is a surface and a buffer to draw to; without them
    /// the wish to redraw is dropped.
    pub fn begin_frame(&mut self, mapped: bool) -> (draw: bool)
        ensures
            draw == (old(self).dirty && !old(self).frame_pending && mapped),
            *final(self) == (Overlay {
                dirty: old(self).dirty && old(self).frame_pending,
                frame_pending: old(self).frame_pending || draw,
                ..*old(self)
            }),
    {
        if self.dirty && !self.frame_pending {
            self.dirty = false;
            self.frame_pending = mapped;
            mapped
        } else {
            false
        }
    }
}

fn edge_of(k: i32, scale: i32, limit: u32) -> (r: u32)
    ensures
        r == edge(k as int, scale as int, limit as int),
        r <= limit,
{
    proof {
        assert(-0x4000_0000_0000_0000 <= k * scale <= 0x4000_0000_0000_0000) by (nonlinear_arith)
            requires
                -0x8000_0000 <= k <= 0x7fff_ffff,
                -0x8000_0000 <= scale <= 0x7fff_ffff,
        ;
    }
    let p: i64 = k as i64 * scale as i64;
    if p <= 0 {
        0
    } else {
        let q: u64 = (p as u64 + 128) / 256;
        if q > limit as u64 {
            limit
        } else {
            q as u32
        }
    }
}

fn span_of(a: i32, b: i32, scale: i32, limit: u32) -> (r: (u32, u32))
    ensures
        (r.0 as int, r.1 as int) == span(a as int, b as int, scale as int, limit as int),
        r.0 + r.1 <= limit,
{
    let lo: u32 = edge_of(
        if a <= b {
            a
        } else {
            b
        },
        scale,
        limit,
    );
    let hi: u32 = edge_of(
        if a <= b {
            b
        } else {
            a
        },
        scale,
        limit,
    );
    if hi < lo {
        (lo, 0)
    } else {
        (lo, hi - lo)
    }
}

/// The state after all of `events`.
pub open spec fn after_all(o: Overlay, events: Seq<Event>) -> Overlay
    decreases events.len(),
{
    if events.len() == 0 {
        o
    } else {
        after_all(o.after(events[0]), events.drop_first())
    }
}

proof fn lemma_drag_within(o: Overlay)
    ensures
        o.drag() matches Some(r) ==> r.within(o.phys_w as int, o.phys_h as int),
{
}

/// Whatever the compositor reports, in whatever order, a selection is a real one
/// and can be cropped from the grab.
pub proof fn law_selection_can_be_cropped(o: Overlay, events: Seq<Event>)
    requires
        o.wf(),
    ensures
        after_all(o, events).wf(),
        after_all(o, events).phys_w == o.phys_w,
        after_all(o, events).phys_h == o.phys_h,
    decreases events.len(),
{
    if events.len() > 0 {
        lemma_drag_within(o);
        law_selection_can_be_cropped(o.after(events[0]), events.drop_first());
    }
}

/// It does not matter from which corner a drag starts.
pub proof fn law_drag_has_no_direction(a: Pos, b: Pos, scale: i32, w: u32, h: u32)
    ensures
        dragged(a, b, scale, w, h) == dragged(b, a, scale, w, h),
{
}

/// A bare click cancels: press and release without moving select nothing.
pub proof fn law_bare_click_cancels(o: Overlay)
    ensures
        ({
            let pressed = o.after(Event::Button { button: BTN_LEFT, pressed: true });
            let released = pressed.after(Event::Button { button: BTN_LEFT, pressed: false });
            released.selection is None && !released.running
        }),
{
}

/// Escape cancels a selection in progress: the overlay ends without a selection.
pub proof fn law_escape_cancels(o: Overlay)
    requires
        o.selection is None,
    ensures
        ({
            let cancelled = o.after(Event::Key { key: KEY_ESC, pressed: true });
            cancelled.selection is None && !cancelled.running
        }),
{
}

/// An overlay that has ended does not start again.
pub proof fn law_ended_overlay_stays_ended(o: Overlay, event: Event)
    requires
        !o.running,
    ensures
        !o.after(event).running,
{
}

/// `e` is the pixel boundary nearest to the place that lies `p` 256ths of a pixel into a
/// grab of `limit` pixels, the farther one where two are equally near, and none outside
/// the grab.
pub open spec fn nearest_boundary(e: int, p: int, limit: int) -> bool {
    &&& 0 <= e <= limit
    &&& e > 0 ==> 256 * e - 128 <= p
    &&& e < limit ==> p < 256 * e + 128
}

/// A drag selects from the pixel boundary nearest to its one corner to the one nearest to
/// the other, whichever came first. Positions are in 256ths of a logical pixel, and a
/// logical pixel has `scale` physical ones each way.
pub proof fn law_drag_spans_its_corners(a: Pos, b: Pos, scale: i32, w: u32, h: u32)
    ensures
        ({
            let r = dragged(a, b, scale, w, h);
            let (left, right) = if a.x <= b.x {
                (a.x * scale, b.x * scale)
            } else {
                (b.x * scale, a.x * scale)
            };
            let (top, bottom) = if a.y <= b.y {
                (a.y * scale, b.y * scale)
            } else {
                (b.y * scale, a.y * scale)
            };
            &&& nearest_boundary(r.x as int, left, w as int)
            &&& nearest_boundary(r.y as int, top, h as int)
            &&& scale >= 0 ==> nearest_boundary(r.x + r.width, right, w as int)
            &&& scale >= 0 ==> nearest_boundary(r.y + r.height, bottom, h as int)
            &&& scale < 0 ==> r.width == 0 && r.height == 0
        }),
{
    lemma_scaled_order(a.x as int, b.x as int, scale as int);
    lemma_scaled_order(a.y as int, b.y as int, scale as int);
    lemma_scaled_order(b.x as int, a.x as int, scale as int);
    lemma_scaled_order(b.y as int, a.y as int, scale as int);
}

proof fn lemma_scaled_order(a: int, b: int, s: int)
    ensures
        a <= b && s >= 0 ==> a * s <= b * s,
        a <= b && s < 0 ==> b * s <= a * s,
{
    if a <= b {
        assert((s >= 0 ==> a * s <= b * s) && (s < 0 ==> b * s <= a * s)) by (nonlinear_arith)
            requires
                a <= b,
        ;
    }
}

/// Every real drag selects, and selects all of itself: letting go of the left button after a
/// drag of at least eight pixels each way, of whatever shape and in whatever place, selects
/// the rectangle of the drag. A smaller one selects nothing. Either way the overlay ends.
pub proof fn law_every_real_drag_selects(o: Overlay, a: Pos)
    requires
        o.anchor == Some(a),
    ensures
        ({
            let r = dragged(a, o.pointer_pos, o.scale, o.phys_w, o.phys_h);
            let ended = o.after(Event::Button { button: 0x110, pressed: false });
            &&& r.width >= 8 && r.height >= 8 ==> ended.selection == Some(r)
            &&& r.width < 8 || r.height < 8 ==> ended.selection is None
            &&& !ended.running
            &&& ended.anchor is None
        }),
{
}

proof fn lemma_drag_goes_on(o: Overlay, events: Seq<Event>)
    requires
        forall|i: int|
            0 <= i < events.len() ==> !((#[trigger] events[i]) matches Event::Button {
                button,
                ..
            } && button == 0x110),
    ensures
        after_all(o, events).anchor == o.anchor,
        after_all(o, events).scale == o.scale,
        after_all(o, events).phys_w == o.phys_w,
        after_all(o, events).phys_h == o.phys_h,
        after_all(o, events).selection == o.selection,
    decreases events.len(),
{
    if events.len() > 0 {
        assert(!(events[0] matches Event::Button { button, .. } && button == 0x110));
        assert forall|i: int| 0 <= i < events.drop_first().len() implies !((
        #[trigger] events.drop_first()[i]) matches Event::Button { button, .. } && button
            == 0x110) by {
            assert(events.drop_first()[i] == events[i + 1]);
        }
        lemma_drag_goes_on(o.after(events[0]), events.drop_first());
    }
}

/// What is selected is where the button went down and where it came up. Whatever else is
/// reported in between, other buttons and keys among it, a drag from `a` to `b` of at least
/// eight pixels each way ends with their rectangle, and any other with nothing.
pub proof fn law_selection_is_from_press_to_release(
    o: Overlay,
    a: Pos,
    between: Seq<Event>,
    b: Pos,
)
    requires
        forall|i: int|
            0 <= i < between.len() ==> !((#[trigger] between[i]) matches Event::Button {
                button,
                ..
            } && button == 0x110),
    ensures
        ({
            let down = o.after(Event::Pointer(a)).after(
                Event::Button { button: 0x110, pressed: true },
            );
            let up = after_all(down, between).after(Event::Pointer(b)).after(
                Event::Button { button: 0x110, pressed: false },
            );
            let r = dragged(a, b, o.scale, o.phys_w, o.phys_h);
            &&& r.width >= 8 && r.height >= 8 ==> up.selection == Some(r)
            &&& r.width < 8 || r.height < 8 ==> up.selection is None
            &&& !up.running
        }),
{
    let down = o.after(Event::Pointer(a)).after(Event::Button { button: 0x110, pressed: true });
    lemma_drag_goes_on(down, between);
    law_every_real_drag_selects(after_all(down, between).after(Event::Pointer(b)), a);
}

/// Only three things end the overlay: the left button going up, Escape going down, and the
/// surface being closed. Only the first decides on a selection.
pub proof fn law_what_ends_the_overlay(o: Overlay, e: Event)
    ensures
        ({
            let ends = match e {
                Event::Button { button, pressed } => button == 272 && !pressed,
                Event::Key { key, pressed } => key == 1 && pressed,
                Event::Closed => true,
                _ => false,
            };
            &&& o.after(e).running == (o.running && !ends)
            &&& !(e matches Event::Button { button, pressed } && button == 272 && !pressed)
                ==> o.after(e).selection == o.selection
        }),
{
}

/// What each report leaves behind: the pointer is where it was last seen, a drag is anchored
/// where the left button went down, whatever changes the picture asks for a frame, and
/// nothing else moves.
pub proof fn law_reports_are_kept(o: Overlay, e: Event)
    ensures
        ({
            let n = o.after(e);
            let press = e matches Event::Button { button, pressed } && button == 272 && pressed;
            let release = e matches Event::Button { button, pressed } && button == 272 && !pressed;
            &&& n.scale == o.scale && n.phys_w == o.phys_w && n.phys_h == o.phys_h
            &&& n.pointer_pos == (match e {
                Event::Pointer(p) => p,
                _ => o.pointer_pos,
            })
            &&& n.anchor == (if press {
                Some(o.pointer_pos)
            } else if release {
                None
            } else {
                o.anchor
            })
            &&& n.configured == (o.configured || e == Event::Configured)
            &&& n.frame_pending == (o.frame_pending && e != Event::FrameDone)
            &&& n.dirty == (o.dirty || press || e == Event::Configured || e is Pointer)
        }),
{
}

/// A fresh overlay waits: nothing is selected or dragged, nothing is to be drawn before the
/// surface is there, and a drag is measured in the grab it was made for.
pub proof fn law_fresh_overlay_waits(scale: i32, w: u32, h: u32)
    ensures
        ({
            let o = Overlay::start(scale, w, h);
            &&& o.running
            &&& o.selection is None && o.anchor is None && o.drag() is None
            &&& !o.configured && !o.dirty && !o.frame_pending
            &&& o.scale == scale && o.phys_w == w && o.phys_h == h
            &&& o.pointer_pos.x == 0 && o.pointer_pos.y == 0
        }),
{
}

/// What is shown while dragging is what letting go would be judged by: the rectangle from
/// the anchor to the pointer.
pub proof fn law_drag_shown_is_the_drag_selected(o: Overlay)
    ensures
        o.anchor is None ==> o.drag() is None,
        o.anchor matches Some(a) ==> o.drag() == Some(
            dragged(a, o.pointer_pos, o.scale, o.phys_w, o.phys_h),
        ),
        o.after(Event::Button { button: 272, pressed: false }).selection matches Some(r)
            ==> o.drag() == Some(r),
{
}

} // verus!
