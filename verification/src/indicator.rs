//! The outline around the region that a scroll capture reads.
//!
//! The compositor's copy of an output holds whatever is drawn over it. So the outline is
//! four opaque bars outside the region rather than one surface with a transparent middle.

use vstd::prelude::*;

use crate::capture::{BufferSpec, ARGB8888};

verus! {

/// Outline thickness, in logical pixels.
pub const THICKNESS: i32 = 3;

/// The outline's colour: red, green, blue.
pub const RED: u8 = 0xeb;

pub const GREEN: u8 = 0x6f;

pub const BLUE: u8 = 0x92;

/// One bar of the outline, in logical pixels of its output.
#[derive(Clone, Copy, Debug, PartialEq, Eq, Structural)]
pub struct Bar {
    pub x: i32,
    pub y: i32,
    pub width: i32,
    pub height: i32,
}

impl Bar {
    /// The bar covers the pixel in column `px` of row `py`.
    pub open spec fn covers(self, px: int, py: int) -> bool {
        self.x <= px < self.x + self.width && self.y <= py < self.y + self.height
    }
}

/// Where a span that starts at `at` starts on the screen.
pub open spec fn on_screen(at: int) -> int {
    if at < 0 {
        0
    } else {
        at
    }
}

/// How much of a span of `len` that starts at `at` is left once it is cut at the edge of
/// the screen.
pub open spec fn left_over(at: int, len: int) -> int {
    at + len - on_screen(at)
}

/// The part on the screen of a bar of the given size; nothing where it has no extent.
pub open spec fn bar(x: int, y: int, width: int, height: int) -> Seq<Bar> {
    if left_over(x, width) <= 0 || left_over(y, height) <= 0 {
        Seq::empty()
    } else {
        seq![
            Bar {
                x: on_screen(x) as i32,
                y: on_screen(y) as i32,
                width: left_over(x, width) as i32,
                height: left_over(y, height) as i32,
            },
        ]
    }
}

/// The bars around the region: the top and the bottom run the full width plus both
/// corners, the sides fill the gap between them.
pub open spec fn outline(x: int, y: int, w: int, h: int) -> Seq<Bar> {
    let t = THICKNESS;
    bar(x - t, y - t, w + 2 * t, t as int) + bar(x - t, y + h, w + 2 * t, t as int) + bar(
        x - t,
        y,
        t as int,
        h,
    ) + bar(x + w, y, t as int, h)
}

/// The region's neighbourhood has coordinates.
pub open spec fn placeable(x: int, y: int, w: int, h: int) -> bool {
    let t = THICKNESS;
    &&& i32::MIN <= x - t
    &&& i32::MIN <= y - t
    &&& w + 2 * t <= i32::MAX
    &&& i32::MIN <= x + w <= i32::MAX
    &&& i32::MIN <= y + h <= i32::MAX
}

/// Where a span starts on the screen, and how much of it is left there.
fn cut(at: i32, len: i32) -> (r: (i32, i64))
    ensures
        r.0 == on_screen(at as int),
        r.1 == left_over(at as int, len as int),
{
    if at < 0 {
        (0, at as i64 + len as i64)
    } else {
        (at, len as i64)
    }
}

fn push_bar(bars: &mut Vec<Bar>, x: i32, y: i32, width: i32, height: i32)
    ensures
        final(bars)@ == old(bars)@ + bar(x as int, y as int, width as int, height as int),
{
    // A region against a screen edge pushes a bar off it. Cutting the bar there keeps the
    // rest visible without moving it over the region.
    let (bx, bw): (i32, i64) = cut(x, width);
    let (by, bh): (i32, i64) = cut(y, height);
    if bw <= 0 || bh <= 0 {
        assert(bars@ =~= bars@ + Seq::<Bar>::empty());
        return;
    }
    bars.push(Bar { x: bx, y: by, width: bw as i32, height: bh as i32 });
}

/// The bars that outline the region of `w` by `h` at column `x` of row `y`.
pub fn bars(x: i32, y: i32, w: i32, h: i32) -> (r: Vec<Bar>)
    requires
        placeable(x as int, y as int, w as int, h as int),
    ensures
        r@ == outline(x as int, y as int, w as int, h as int),
{
    let t: i32 = THICKNESS;
    let mut bars: Vec<Bar> = Vec::new();
    push_bar(&mut bars, x - t, y - t, w + 2 * t, t);
    push_bar(&mut bars, x - t, y + h, w + 2 * t, t);
    push_bar(&mut bars, x - t, y, t, h);
    push_bar(&mut bars, x + w, y, t, h);
    assert(bars@ =~= outline(x as int, y as int, w as int, h as int));
    bars
}

/// Some bar covers the pixel in column `px` of row `py`.
pub open spec fn covered(bars: Seq<Bar>, px: int, py: int) -> bool {
    exists|i: int| 0 <= i < bars.len() && (#[trigger] bars[i]).covers(px, py)
}

/// The pixel belongs to the rectangle of `w` by `h` at column `x` of row `y`.
pub open spec fn inside(x: int, y: int, w: int, h: int, px: int, py: int) -> bool {
    x <= px < x + w && y <= py < y + h
}

/// The outline does not touch the region, so it never shows in what is captured.
pub proof fn law_outline_stays_outside_the_region(
    x: i32,
    y: i32,
    w: i32,
    h: i32,
    px: int,
    py: int,
)
    requires
        placeable(x as int, y as int, w as int, h as int),
        inside(x as int, y as int, w as int, h as int, px, py),
    ensures
        !covered(outline(x as int, y as int, w as int, h as int), px, py),
{
}

/// The outline is whole: it covers exactly the pixels of the screen that lie within a bar's
/// thickness of the region and do not belong to it.
pub proof fn law_outline_surrounds_the_region(x: i32, y: i32, w: i32, h: i32, px: int, py: int)
    requires
        placeable(x as int, y as int, w as int, h as int),
        w > 0,
        h > 0,
        px >= 0,
        py >= 0,
    ensures
        covered(outline(x as int, y as int, w as int, h as int), px, py) <==> inside(
            x - THICKNESS,
            y - THICKNESS,
            w + 2 * THICKNESS,
            h + 2 * THICKNESS,
            px,
            py,
        ) && !inside(x as int, y as int, w as int, h as int, px, py),
{
    let t = THICKNESS as int;
    let top = bar(x - t, y - t, w + 2 * t, t);
    let bottom = bar(x - t, y + h, w + 2 * t, t);
    let left = bar(x - t, y as int, t, h as int);
    let right = bar(x + w, y as int, t, h as int);
    lemma_covered_part(x - t, y - t, w + 2 * t, t, px, py);
    lemma_covered_part(x - t, y + h, w + 2 * t, t, px, py);
    lemma_covered_part(x - t, y as int, t, h as int, px, py);
    lemma_covered_part(x + w, y as int, t, h as int, px, py);
    lemma_covered_sum(top, bottom, px, py);
    lemma_covered_sum(top + bottom, left, px, py);
    lemma_covered_sum(top + bottom + left, right, px, py);
}

proof fn lemma_covered_part(x: int, y: int, width: int, height: int, px: int, py: int)
    requires
        i32::MIN <= x <= i32::MAX,
        i32::MIN <= y <= i32::MAX,
        width <= i32::MAX,
        height <= i32::MAX,
        px >= 0,
        py >= 0,
    ensures
        covered(bar(x, y, width, height), px, py) <==> inside(x, y, width, height, px, py),
{
    let b = bar(x, y, width, height);
    if b.len() > 0 {
        assert(b[0].covers(px, py) <==> inside(x, y, width, height, px, py));
    }
}

proof fn lemma_covered_sum(a: Seq<Bar>, b: Seq<Bar>, px: int, py: int)
    ensures
        covered(a + b, px, py) <==> covered(a, px, py) || covered(b, px, py),
{
    if covered(a, px, py) {
        let i = choose|i: int| 0 <= i < a.len() && (#[trigger] a[i]).covers(px, py);
        assert((a + b)[i].covers(px, py));
    }
    if covered(b, px, py) {
        let i = choose|i: int| 0 <= i < b.len() && (#[trigger] b[i]).covers(px, py);
        assert((a + b)[a.len() + i].covers(px, py));
    }
}

/// Every bar is placed at coordinates that a surface can have.
pub proof fn law_bars_are_on_screen(x: i32, y: i32, w: i32, h: i32, i: int)
    requires
        placeable(x as int, y as int, w as int, h as int),
        0 <= i < outline(x as int, y as int, w as int, h as int).len(),
    ensures
        outline(x as int, y as int, w as int, h as int)[i].x >= 0,
        outline(x as int, y as int, w as int, h as int)[i].y >= 0,
        outline(x as int, y as int, w as int, h as int)[i].width > 0,
        outline(x as int, y as int, w as int, h as int)[i].height > 0,
{
}

/// Buffer pixels per logical pixel.
pub open spec fn factor(scale: i32) -> int {
    if scale < 1 {
        1
    } else {
        scale as int
    }
}

/// The buffer of a bar takes no more bytes than a pool can have.
pub open spec fn drawable(w: i32, h: i32, scale: i32) -> bool {
    w * factor(scale) * 4 * (h * factor(scale)) <= i32::MAX
}

/// What a bar of `w` by `h` logical pixels is drawn into.
pub fn bar_buffer(w: i32, h: i32, scale: i32) -> (spec: BufferSpec)
    requires
        w > 0,
        h > 0,
        drawable(w, h, scale),
    ensures
        spec.format == ARGB8888,
        spec.width == w * factor(scale),
        spec.height == h * factor(scale),
        spec.stride == spec.width * 4,
        spec.stride * spec.height <= i32::MAX,
{
    let s: i32 = if scale < 1 {
        1
    } else {
        scale
    };
    proof {
        lemma_drawable(w as int, h as int, s as int);
    }
    let pw: i32 = w * s;
    let ph: i32 = h * s;
    BufferSpec { format: ARGB8888, width: pw as u32, height: ph as u32, stride: (pw * 4) as u32 }
}

proof fn lemma_drawable(w: int, h: int, s: int)
    requires
        w > 0,
        h > 0,
        s > 0,
        w * s * 4 * (h * s) <= i32::MAX,
    ensures
        0 < w * s,
        w * s * 4 <= i32::MAX,
        0 < h * s <= i32::MAX,
{
    assert(0 < w * s) by (nonlinear_arith)
        requires
            w > 0,
            s > 0,
    ;
    assert(0 < h * s) by (nonlinear_arith)
        requires
            h > 0,
            s > 0,
    ;
    let a = w * s * 4;
    let b = h * s;
    assert(a <= a * b && b <= a * b) by (nonlinear_arith)
        requires
            a >= 1,
            b >= 1,
    ;
}

/// The bytes of a buffer that is filled with the outline's colour: blue, green, red and
/// full opacity, over and over.
pub open spec fn painted(size: int) -> Seq<u8> {
    Seq::new(
        size as nat,
        |i: int|
            if i % 4 == 0 {
                BLUE
            } else if i % 4 == 1 {
                GREEN
            } else if i % 4 == 2 {
                RED
            } else {
                255
            },
    )
}

/// The bytes of a bar's buffer.
pub fn bar_pixels(size: usize) -> (r: Vec<u8>)
    requires
        size % 4 == 0,
    ensures
        r@ == painted(size as int),
{
    let mut r: Vec<u8> = Vec::with_capacity(size);
    let mut i: usize = 0;
    while i < size
        invariant
            size % 4 == 0,
            i % 4 == 0,
            i <= size,
            r@ =~= painted(i as int),
        decreases size - i,
    {
        r.push(BLUE);
        r.push(GREEN);
        r.push(RED);
        r.push(255);
        i = i + 4;
    }
    r
}

/// A bar is one opaque colour all over.
pub proof fn law_bar_has_one_color(spec: BufferSpec, x: int, y: int)
    requires
        spec.format == ARGB8888,
        spec.stride == spec.width * 4,
        0 <= x < spec.width,
        0 <= y < spec.height,
    ensures
        ({
            let bytes = painted(spec.stride * spec.height);
            &&& spec.channel(bytes, false, x, y, 0) == RED
            &&& spec.channel(bytes, false, x, y, 1) == GREEN
            &&& spec.channel(bytes, false, x, y, 2) == BLUE
            &&& spec.channel(bytes, false, x, y, 3) == 255
        }),
{
    let w = spec.width as int;
    let n = y * w + x;
    assert(0 <= n && n + 1 <= w * spec.height) by (nonlinear_arith)
        requires
            n == y * w + x,
            0 <= x < w,
            0 <= y < spec.height,
    ;
    assert(y * spec.stride + x * 4 == n * 4) by (nonlinear_arith)
        requires
            spec.stride == w * 4,
            n == y * w + x,
    ;
    assert(spec.stride * spec.height == w * spec.height * 4) by (nonlinear_arith)
        requires
            spec.stride == w * 4,
    ;
}

/// The outline lies close around the region and is three pixels thick all around: it covers
/// exactly the pixels of the screen that are no more than three away from the region, in a
/// straight line or diagonally, and are not in it.
pub proof fn law_outline_is_three_pixels_thick(x: i32, y: i32, w: i32, h: i32, px: int, py: int)
    requires
        i32::MIN <= x - 3,
        i32::MIN <= y - 3,
        0 < w <= i32::MAX - 6,
        0 < h,
        x + w <= i32::MAX,
        y + h <= i32::MAX,
        px >= 0,
        py >= 0,
    ensures
        ({
            let bars = outline(x as int, y as int, w as int, h as int);
            let near = x - 3 <= px < x + w + 3 && y - 3 <= py < y + h + 3;
            let within = x <= px < x + w && y <= py < y + h;
            (exists|i: int|
                {
                    &&& 0 <= i < bars.len()
                    &&& (#[trigger] bars[i]).x <= px < bars[i].x + bars[i].width
                    &&& bars[i].y <= py < bars[i].y + bars[i].height
                }) <==> near && !within
        }),
{
    law_outline_surrounds_the_region(x, y, w, h, px, py);
    let bars = outline(x as int, y as int, w as int, h as int);
    if covered(bars, px, py) {
        let i = choose|i: int| 0 <= i < bars.len() && (#[trigger] bars[i]).covers(px, py);
        assert(bars[i].x <= px);
    }
    if exists|i: int|
        {
            &&& 0 <= i < bars.len()
            &&& (#[trigger] bars[i]).x <= px < bars[i].x + bars[i].width
            &&& bars[i].y <= py < bars[i].y + bars[i].height
        } {
        let i = choose|i: int|
            {
                &&& 0 <= i < bars.len()
                &&& (#[trigger] bars[i]).x <= px < bars[i].x + bars[i].width
                &&& bars[i].y <= py < bars[i].y + bars[i].height
            };
        assert(bars[i].covers(px, py));
    }
}

/// The bars do not overlap: no pixel is covered by two of them, and there are four at most.
pub proof fn law_bars_do_not_overlap(
    x: i32,
    y: i32,
    w: i32,
    h: i32,
    i: int,
    j: int,
    px: int,
    py: int,
)
    requires
        placeable(x as int, y as int, w as int, h as int),
        0 < w,
        0 < h,
        0 <= i < j < outline(x as int, y as int, w as int, h as int).len(),
    ensures
        outline(x as int, y as int, w as int, h as int).len() <= 4,
        !(outline(x as int, y as int, w as int, h as int)[i].covers(px, py) && outline(
            x as int,
            y as int,
            w as int,
            h as int,
        )[j].covers(px, py)),
{
    let t = THICKNESS as int;
    let top = bar(x - t, y - t, w + 2 * t, t);
    let bottom = bar(x - t, y + h, w + 2 * t, t);
    let left = bar(x - t, y as int, t, h as int);
    let right = bar(x + w, y as int, t, h as int);
    let all = top + bottom + left + right;
    assert(all == outline(x as int, y as int, w as int, h as int));
}

/// A bar's buffer has one pixel for each physical pixel: the scale, or one where that is less,
/// for each logical one.
pub proof fn law_bar_has_the_scale_of_its_output(scale: i32)
    ensures
        scale >= 1 ==> factor(scale) == scale,
        scale < 1 ==> factor(scale) == 1,
{
}

/// Every pixel of a bar's buffer is the same four bytes: 0x92 for blue, 0x6f for green, 0xeb
/// for red, and full opacity.
pub proof fn law_bar_is_painted_evenly(size: int, p: int)
    requires
        0 <= p,
        4 * p + 3 < size,
    ensures
        painted(size).len() == size,
        painted(size)[4 * p] == 0x92,
        painted(size)[4 * p + 1] == 0x6f,
        painted(size)[4 * p + 2] == 0xeb,
        painted(size)[4 * p + 3] == 255,
{
}

} // verus!
