//! Picking a window with the pointer.

use vstd::prelude::*;

use super::compose::{cursor, cursor_of};
use super::rect::Rect;
use super::select::{Event, Overlay, BTN_LEFT, KEY_ESC};
use crate::window::{first_hit, under_cursor, window_at};

verus! {

/// A pick in progress: the overlay's state, and the windows to choose from, topmost first.
pub struct Picker {
    pub overlay: Overlay,
    pub windows: Vec<Rect>,
}

impl Picker {
    /// Whatever was picked is one of the windows.
    pub open spec fn wf(&self) -> bool {
        self.overlay.selection matches Some(r) ==> self.windows@.contains(r)
    }

    /// `r` is the window under the cursor.
    pub open spec fn hovers(&self, r: Option<Rect>) -> bool {
        let o = self.overlay;
        under_cursor(
            self.windows@,
            cursor(o.pointer_pos.x as int, o.scale as int),
            cursor(o.pointer_pos.y as int, o.scale as int),
            r,
        )
    }

    /// Offer `windows` over a grab of `phys_w` by `phys_h` pixels.
    pub fn new(scale: i32, phys_w: u32, phys_h: u32, windows: Vec<Rect>) -> (p: Picker)
        ensures
            p.wf(),
            p.windows == windows,
            p.overlay == Overlay::start(scale, phys_w, phys_h),
    {
        Picker { overlay: Overlay::new(scale, phys_w, phys_h), windows }
    }

    /// The window under the cursor, which is shown in its original brightness.
    pub fn hovered(&self) -> (r: Option<Rect>)
        ensures
            self.hovers(r),
    {
        let x: i64 = cursor_of(self.overlay.pointer_pos.x, self.overlay.scale);
        let y: i64 = cursor_of(self.overlay.pointer_pos.y, self.overlay.scale);
        window_at(&self.windows, x, y)
    }

    /// What `event` leads to. Releasing the left button ends the pick with the window
    /// under the cursor; pressing it does nothing yet. All else is as in selecting a
    /// region.
    pub open spec fn steps_to(&self, event: Event, new: Picker) -> bool {
        &&& new.windows == self.windows
        &&& match event {
            Event::Button { button, pressed } => if button != BTN_LEFT || pressed {
                new.overlay == self.overlay
            } else {
                exists|r: Option<Rect>| #[trigger]
                    self.hovers(r) && new.overlay == (Overlay {
                        selection: r,
                        running: false,
                        ..self.overlay
                    })
            },
            _ => new.overlay == self.overlay.after(event),
        }
    }

    /// Take in one event.
    pub fn event(&mut self, event: Event)
        requires
            old(self).wf(),
        ensures
            final(self).wf(),
            old(self).steps_to(event, *final(self)),
    {
        match event {
            Event::Button { button, pressed } => {
                if button == BTN_LEFT && !pressed {
                    let picked: Option<Rect> = self.hovered();
                    self.overlay.selection = picked;
                    self.overlay.running = false;
                    assert(old(self).hovers(picked));
                }
            },
            Event::Pointer(pos) => {
                self.overlay.pointer_pos = pos;
                self.overlay.dirty = true;
            },
            Event::Key { key, pressed } => {
                if pressed && key == KEY_ESC {
                    self.overlay.running = false;
                }
            },
            Event::FrameDone => {
                self.overlay.frame_pending = false;
            },
            Event::Configured => {
                self.overlay.configured = true;
                self.overlay.dirty = true;
            },
            Event::Closed => {
                self.overlay.running = false;
            },
        }
    }
}

/// What is picked is the window that was shown under the cursor: no window before it in
/// the list covers the cursor's pixel, and it does.
pub proof fn law_highlighted_window_is_picked(p: Picker, q: Picker, shown: Option<Rect>)
    requires
        p.hovers(shown),
        p.steps_to((Event::Button { button: BTN_LEFT, pressed: false }), q),
    ensures
        q.overlay.selection == shown,
        !q.overlay.running,
{
    let o = p.overlay;
    let x = cursor(o.pointer_pos.x as int, o.scale as int);
    let y = cursor(o.pointer_pos.y as int, o.scale as int);
    let r = choose|r: Option<Rect>| #[trigger]
        p.hovers(r) && q.overlay == (Overlay { selection: r, running: false, ..p.overlay });
    if let (Some(a), Some(b)) = (r, shown) {
        let i = choose|i: int| #[trigger] first_hit(p.windows@, x, y, i) && a == p.windows@[i];
        let j = choose|j: int| #[trigger] first_hit(p.windows@, x, y, j) && b == p.windows@[j];
        if i < j {
            assert(!p.windows@[i].covers(x, y));
        } else if j < i {
            assert(!p.windows@[j].covers(x, y));
        }
    }
}

/// A click picks the first window in the list that lies under the cursor, and nothing where
/// none does. The cursor's pixel is the one that its position, in 256ths of a logical pixel
/// of `scale` physical ones, falls in.
pub proof fn law_click_picks_the_first_window_there(p: Picker, q: Picker, x: int, y: int)
    requires
        p.overlay.pointer_pos.x * p.overlay.scale >= 0,
        p.overlay.pointer_pos.y * p.overlay.scale >= 0,
        256 * x <= p.overlay.pointer_pos.x * p.overlay.scale < 256 * x + 256,
        256 * y <= p.overlay.pointer_pos.y * p.overlay.scale < 256 * y + 256,
        p.steps_to((Event::Button { button: 272, pressed: false }), q),
    ensures
        !q.overlay.running,
        q.windows == p.windows,
        match q.overlay.selection {
            Some(r) => exists|i: int|
                {
                    &&& 0 <= i < p.windows@.len()
                    &&& #[trigger] p.windows@[i] == r
                    &&& r.x <= x < r.x + r.width && r.y <= y < r.y + r.height
                    &&& forall|j: int|
                        0 <= j < i ==> {
                            let o = #[trigger] p.windows@[j];
                            !(o.x <= x < o.x + o.width && o.y <= y < o.y + o.height)
                        }
                },
            None => forall|j: int|
                0 <= j < p.windows@.len() ==> {
                    let o = #[trigger] p.windows@[j];
                    !(o.x <= x < o.x + o.width && o.y <= y < o.y + o.height)
                },
        },
{
    let r = choose|r: Option<Rect>| #[trigger]
        p.hovers(r) && q.overlay == (Overlay { selection: r, running: false, ..p.overlay });
    assert(cursor(p.overlay.pointer_pos.x as int, p.overlay.scale as int) == x);
    assert(cursor(p.overlay.pointer_pos.y as int, p.overlay.scale as int) == y);
    if let Some(rect) = r {
        let hit = choose|hit: int| #[trigger] first_hit(p.windows@, x, y, hit) && rect
            == p.windows@[hit];
        assert(p.windows@[hit] == rect);
        assert forall|j: int| 0 <= j < hit implies ({
            let o = #[trigger] p.windows@[j];
            !(o.x <= x < o.x + o.width && o.y <= y < o.y + o.height)
        }) by {
            assert(!p.windows@[j].covers(x, y));
        }
    } else {
        assert forall|j: int| 0 <= j < p.windows@.len() implies ({
            let o = #[trigger] p.windows@[j];
            !(o.x <= x < o.x + o.width && o.y <= y < o.y + o.height)
        }) by {
            assert(!p.windows@[j].covers(x, y));
        }
    }
}

/// Until the click nothing is picked: no report but the left button going up changes what is
/// selected, pressing any button changes nothing at all, and the windows stay as offered.
pub proof fn law_only_the_click_picks(p: Picker, e: Event, q: Picker)
    requires
        p.steps_to(e, q),
        !(e matches Event::Button { button, pressed } && button == 272 && !pressed),
    ensures
        q.windows == p.windows,
        q.overlay.selection == p.overlay.selection,
        q.overlay.anchor == p.overlay.anchor,
        e is Button ==> q == p,
        q.overlay.running == (p.overlay.running && !(e == Event::Closed || (e matches Event::Key {
            key,
            pressed,
        } && key == 1 && pressed))),
        e matches Event::Pointer(pos) ==> q.overlay.pointer_pos == pos && q.overlay.dirty,
{
}

} // verus!
