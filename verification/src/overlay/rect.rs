//! Rectangles in the physical pixels of a grab.

use vstd::prelude::*;

verus! {

/// Smallest selection worth capturing, per side, in physical pixels. A bare
/// click yields an empty rectangle and a twitch during a click a few pixels of
/// noise; both lie well below any deliberate selection.
pub const MIN_SELECTION: u32 = 8;

/// A selected rectangle in physical pixels, ready to crop from the grab.
#[derive(Clone, Copy, Debug, PartialEq, Eq, Structural)]
pub struct Rect {
    pub x: u32,
    pub y: u32,
    pub width: u32,
    pub height: u32,
}

impl Rect {
    /// The rectangle lies within a grab of `w` by `h` pixels.
    pub open spec fn within(&self, w: int, h: int) -> bool {
        self.x + self.width <= w && self.y + self.height <= h
    }

    /// Both sides reach the smallest selection worth capturing.
    pub open spec fn usable(&self) -> bool {
        self.width >= MIN_SELECTION && self.height >= MIN_SELECTION
    }

    /// The pixel in column `px` of row `py` belongs to the rectangle.
    pub open spec fn covers(&self, px: int, py: int) -> bool {
        self.x <= px < self.x + self.width && self.y <= py < self.y + self.height
    }

    /// Whether this is a real selection rather than a stray click.
    pub fn is_usable(&self) -> (r: bool)
        ensures
            r == self.usable(),
    {
        self.width >= MIN_SELECTION && self.height >= MIN_SELECTION
    }
}

/// A rectangle is usable exactly where it is at least eight pixels wide and eight tall,
/// whatever its place and its shape.
pub proof fn law_usable_means_both_sides(r: Rect)
    ensures
        r.usable() <==> r.width > 7 && r.height > 7,
{
}

/// A rectangle with pixels lies within a grab exactly where each of its pixels is a pixel of
/// the grab.
pub proof fn law_within_means_every_pixel(r: Rect, w: u32, h: u32)
    requires
        r.width > 0,
        r.height > 0,
    ensures
        r.within(w as int, h as int) <==> (forall|px: int, py: int| #[trigger]
            r.covers(px, py) ==> 0 <= px < w && 0 <= py < h),
        forall|dx: int, dy: int|
            #![trigger r.covers(r.x + dx, r.y + dy)]
            r.covers(r.x + dx, r.y + dy) <==> 0 <= dx < r.width && 0 <= dy < r.height,
{
    assert(r.covers(r.x + (r.width - 1), r.y + (r.height - 1)));
}

} // verus!
