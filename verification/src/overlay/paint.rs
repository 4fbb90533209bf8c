//! Painting the overlay: dim, selection, loupe.

use vstd::prelude::*;

use super::rect::Rect;
use crate::raster::{
    col_of, lemma_decode, lemma_encode, lemma_in_buffer, lemma_row_run, offset, row_of, RgbaImage,
};

verus! {

/// Source sample width and height of the loupe in pixels; odd, so that there is a
/// true centre.
pub const MAG_SRC: i64 = 17;

/// Magnification factor of the loupe.
pub const MAG_ZOOM: i64 = 8;

/// On-screen size of the loupe.
pub const MAG_SIDE: i64 = 136;

/// Gap between the cursor and the loupe.
pub const MAG_OFFSET: i64 = 32;

/// What dims the grab: black, this opaque.
pub const DIM_ALPHA: u8 = 120;

/// Thickness of every outline.
pub const OUTLINE: u32 = 2;

/// The largest side of an image of which every fill is stated pixel by pixel.
pub const EXACT_SIDE: u32 = 0x80_0000;

/// The colour of frames and borders.
pub open spec fn rose() -> Seq<u8> {
    seq![235u8, 188u8, 186u8, 255u8]
}

/// The colour that marks the target pixel.
pub open spec fn gold() -> Seq<u8> {
    seq![246u8, 193u8, 119u8, 255u8]
}

/// The pixel in column `px` of row `py` lies in the rectangle of `rw` by `rh` pixels
/// at `(x, y)`.
pub open spec fn inside(px: int, py: int, x: int, y: int, rw: int, rh: int) -> bool {
    x <= px < x + rw && y <= py < y + rh
}

/// What filling a rectangle of `rw` by `rh` pixels at `(x, y)` makes of the pixels of
/// a `w` by `h` image.
pub uninterp spec fn rect_filled(
    pixels: Seq<u8>,
    w: u32,
    h: u32,
    x: i32,
    y: i32,
    rw: u32,
    rh: u32,
    color: Seq<u8>,
) -> Seq<u8>;

/// The coordinates of the rectangle, and those of it as seen from any pixel of the
/// image, keep their exact values in single precision.
pub open spec fn plain_fill(w: u32, h: u32, x: int, y: int, rw: int, rh: int) -> bool {
    &&& w <= EXACT_SIDE
    &&& h <= EXACT_SIDE
    &&& -0x40_0000 <= x
    &&& -0x40_0000 <= y
    &&& x + rw <= 0xc0_0000
    &&& y + rh <= 0xc0_0000
}

/// Channel `c` of a pixel under a layer of black that is `alpha` opaque.
pub open spec fn shaded(value: u8, alpha: u8, c: int) -> int {
    let rest = (value * (255 - alpha) + 255) / 256;
    if c == 3 {
        alpha + rest
    } else {
        rest
    }
}

/// `tiny_skia::PixmapMut::fill_rect` with a solid colour, on pixel boundaries,
/// without a transform or a mask. Claimed of it: the image keeps its size; what it
/// then holds depends on the arguments alone; and, where the coordinates stay exact,
/// pixels outside the rectangle keep their value, those inside take the colour where it
/// is opaque, and black over the whole image shades every channel by its opacity. This
/// holds of an image filled in one piece and of a larger one, which is filled as a path
/// in tiles: on pixel boundaries every pixel of the path is covered in full. How other
/// translucent colours blend is left to `rect_filled`.
#[verifier::external_body]
fn fill_rect(img: &mut RgbaImage, x: i32, y: i32, rw: u32, rh: u32, color: [u8; 4])
    requires
        old(img).wf(),
        old(img).width >= 1,
        old(img).height >= 1,
    ensures
        final(img).wf(),
        final(img).width == old(img).width,
        final(img).height == old(img).height,
        final(img).data@ == rect_filled(
            old(img).data@,
            old(img).width,
            old(img).height,
            x,
            y,
            rw,
            rh,
            color@,
        ),
        plain_fill(old(img).width, old(img).height, x as int, y as int, rw as int, rh as int)
            ==> forall|px: int, py: int, c: int|
            0 <= px < old(img).width && 0 <= py < old(img).height && 0 <= c < 4 && !inside(
                px,
                py,
                x as int,
                y as int,
                rw as int,
                rh as int,
            ) ==> #[trigger] final(img).at(px, py, c) == old(img).at(px, py, c),
        plain_fill(old(img).width, old(img).height, x as int, y as int, rw as int, rh as int)
            && color@[3] == 255 ==> forall|px: int, py: int, c: int|
            0 <= px < old(img).width && 0 <= py < old(img).height && 0 <= c < 4 && inside(
                px,
                py,
                x as int,
                y as int,
                rw as int,
                rh as int,
            ) ==> #[trigger] final(img).at(px, py, c) == color@[c],
        plain_fill(old(img).width, old(img).height, x as int, y as int, rw as int, rh as int)
            && color@[0] == 0 && color@[1] == 0 && color@[2] == 0 && x == 0 && y == 0 && rw
            == old(img).width && rh == old(img).height ==> forall|px: int, py: int, c: int|
            0 <= px < rw && 0 <= py < rh && 0 <= c < 4 ==> #[trigger] final(img).at(px, py, c)
                == shaded(old(img).at(px, py, c), color@[3], c),
{
    let mut paint = tiny_skia::Paint::default();
    paint.set_color_rgba8(color[0], color[1], color[2], color[3]);
    let pixmap = tiny_skia::PixmapMut::from_bytes(&mut img.data, img.width, img.height);
    let rect = tiny_skia::IntRect::from_xywh(x, y, rw, rh);
    if let (Some(mut pixmap), Some(rect)) = (pixmap, rect) {
        pixmap.fill_rect(rect.to_rect(), &paint, tiny_skia::Transform::identity(), None);
    }
}

/// The four sides of the outline of a rectangle, filled one after the other.
pub open spec fn rect_stroked(
    pixels: Seq<u8>,
    w: u32,
    h: u32,
    x: int,
    y: int,
    rw: u32,
    rh: u32,
    color: Seq<u8>,
) -> Seq<u8> {
    let t = OUTLINE;
    let top = rect_filled(pixels, w, h, x as i32, y as i32, rw, t, color);
    let bottom = rect_filled(top, w, h, x as i32, (y + rh - t) as i32, rw, t, color);
    let left = rect_filled(bottom, w, h, x as i32, y as i32, t, rh, color);
    rect_filled(left, w, h, (x + rw - t) as i32, y as i32, t, rh, color)
}

/// The pixel lies on the outline of a rectangle.
pub open spec fn on_outline(px: int, py: int, x: int, y: int, rw: int, rh: int) -> bool {
    let t = OUTLINE as int;
    ||| inside(px, py, x, y, rw, t)
    ||| inside(px, py, x, y + rh - t, rw, t)
    ||| inside(px, py, x, y, t, rh)
    ||| inside(px, py, x + rw - t, y, t, rh)
}

/// Stroke a rectangle outline in `color`: four thin rectangles.
pub fn stroke_rect(canvas: &mut RgbaImage, x: i32, y: i32, rw: u32, rh: u32, color: [u8; 4])
    requires
        old(canvas).wf(),
        old(canvas).width >= 1,
        old(canvas).height >= 1,
        -0x4000_0000 <= x <= 0x4000_0000,
        -0x4000_0000 <= y <= 0x4000_0000,
        rw <= 0x3fff_ffff,
        rh <= 0x3fff_ffff,
    ensures
        final(canvas).wf(),
        final(canvas).width == old(canvas).width,
        final(canvas).height == old(canvas).height,
        final(canvas).data@ == rect_stroked(
            old(canvas).data@,
            old(canvas).width,
            old(canvas).height,
            x as int,
            y as int,
            rw,
            rh,
            color@,
        ),
        color@[3] == 255 && plain_fill(
            old(canvas).width,
            old(canvas).height,
            x - OUTLINE,
            y - OUTLINE,
            rw + 2 * OUTLINE,
            rh + 2 * OUTLINE,
        ) ==> forall|px: int, py: int, c: int|
            0 <= px < old(canvas).width && 0 <= py < old(canvas).height && 0 <= c < 4
                ==> #[trigger] final(canvas).at(px, py, c) == (if on_outline(
                px,
                py,
                x as int,
                y as int,
                rw as int,
                rh as int,
            ) {
                color@[c]
            } else {
                old(canvas).at(px, py, c)
            }),
{
    let t: u32 = OUTLINE;
    let bottom: i32 = (y as i64 + rh as i64 - t as i64) as i32;
    let right: i32 = (x as i64 + rw as i64 - t as i64) as i32;
    fill_rect(canvas, x, y, rw, t, color);
    fill_rect(canvas, x, bottom, rw, t, color);
    fill_rect(canvas, x, y, t, rh, color);
    fill_rect(canvas, right, y, t, rh, color);
}

/// The grab with a uniform dim applied once, up front.
pub fn dimmed(base: &RgbaImage) -> (r: RgbaImage)
    requires
        base.wf(),
        base.width >= 1,
        base.height >= 1,
    ensures
        r.wf(),
        r.width == base.width,
        r.height == base.height,
        r.data@ == rect_filled(
            base.data@,
            base.width,
            base.height,
            0,
            0,
            base.width,
            base.height,
            seq![0u8, 0u8, 0u8, DIM_ALPHA],
        ),
        base.width <= EXACT_SIDE && base.height <= EXACT_SIDE ==> forall|px: int, py: int, c: int|
            0 <= px < base.width && 0 <= py < base.height && 0 <= c < 4 ==> #[trigger] r.at(px, py, c)
                == shaded(base.at(px, py, c), DIM_ALPHA, c),
{
    let mut pm: RgbaImage = base.clone();
    let black: [u8; 4] = [0, 0, 0, DIM_ALPHA];
    assert(black@ =~= seq![0u8, 0u8, 0u8, DIM_ALPHA]);
    fill_rect(&mut pm, 0, 0, base.width, base.height, black);
    pm
}

/// `canvas` with the pixels of `base` within `sel`.
pub open spec fn restored(canvas: Seq<u8>, base: Seq<u8>, w: int, sel: Rect) -> Seq<u8> {
    Seq::new(
        canvas.len(),
        |i: int|
            if sel.covers(col_of(w, i), row_of(w, i)) {
                base[i]
            } else {
                canvas[i]
            },
    )
}

/// Copy the grab's original pixels into `canvas` within `sel`.
pub fn restore_rect(canvas: &mut RgbaImage, base: &RgbaImage, sel: Rect)
    requires
        old(canvas).wf(),
        base.wf(),
        base.width == old(canvas).width,
        base.height == old(canvas).height,
        sel.within(base.width as int, base.height as int),
    ensures
        final(canvas).wf(),
        final(canvas).width == old(canvas).width,
        final(canvas).height == old(canvas).height,
        final(canvas).data@ == restored(old(canvas).data@, base.data@, base.width as int, sel),
{
    let ghost start_px = canvas.data@;
    let ghost w = base.width as int;
    let ghost h = base.height as int;
    let size: usize = base.data.len();
    let len: u64 = sel.width as u64 * 4;
    let mut n: u32 = 0;
    while n < sel.height
        invariant
            canvas.wf(),
            base.wf(),
            canvas.width == base.width == old(canvas).width,
            canvas.height == base.height == old(canvas).height,
            w == base.width,
            h == base.height,
            size == base.data@.len() == start_px.len(),
            sel.within(w, h),
            len == sel.width * 4,
            n <= sel.height,
            canvas.data@ =~= restored(start_px, base.data@, w, Rect { height: n, ..sel }),
        decreases sel.height - n,
    {
        if len > 0 {
            let ghost row = sel.y + n;
            let ghost done = canvas.data@;
            proof {
                lemma_in_buffer(w, h, sel.x as int, row);
                lemma_in_buffer(w, h, sel.x + sel.width - 1, row);
            }
            let y: usize = sel.y as usize + n as usize;
            let start: usize = (y * base.width as usize + sel.x as usize) * 4;
            let mut j: usize = 0;
            while j < len as usize
                invariant
                    canvas.wf(),
                    base.wf(),
                    canvas.width == base.width == old(canvas).width,
                    canvas.height == base.height == old(canvas).height,
                    w == base.width,
                    h == base.height,
                    size == base.data@.len() == start_px.len(),
                    len == sel.width * 4,
                    j <= len <= usize::MAX,
                    start == offset(w, sel.x as int, row),
                    start + len <= size,
                    done.len() == size,
                    canvas.data@ =~= Seq::new(
                        size as nat,
                        |i: int|
                            if start <= i < start + j {
                                base.data@[i]
                            } else {
                                done[i]
                            },
                    ),
                decreases len - j,
            {
                let b: u8 = base.data[start + j];
                canvas.data[start + j] = b;
                j = j + 1;
            }
            assert forall|i: int| 0 <= i < size implies canvas.data@[i] == restored(
                start_px,
                base.data@,
                w,
                Rect { height: (n + 1) as u32, ..sel },
            )[i] by {
                lemma_row_run(w, h, sel.x as int, row, sel.width as int, i);
            }
        }
        n = n + 1;
        assert(canvas.data@ =~= restored(start_px, base.data@, w, Rect { height: n, ..sel }));
    }
}

/// The pixel lies on the border of a selection.
pub open spec fn sel_outline(sel: Rect, px: int, py: int) -> bool {
    on_outline(
        px,
        py,
        sel.x as int,
        sel.y as int,
        sel.width as int,
        sel.height as int,
    )
}

/// Outline `sel` with a rose border.
pub fn draw_border(canvas: &mut RgbaImage, sel: Rect)
    requires
        old(canvas).wf(),
        old(canvas).width >= 1,
        old(canvas).height >= 1,
        sel.within(old(canvas).width as int, old(canvas).height as int),
        old(canvas).width <= 0x3fff_ffff,
        old(canvas).height <= 0x3fff_ffff,
    ensures
        final(canvas).wf(),
        final(canvas).width == old(canvas).width,
        final(canvas).height == old(canvas).height,
        final(canvas).data@ == rect_stroked(
            old(canvas).data@,
            old(canvas).width,
            old(canvas).height,
            sel.x as int,
            sel.y as int,
            sel.width,
            sel.height,
            rose(),
        ),
        old(canvas).width <= EXACT_SIDE && old(canvas).height <= EXACT_SIDE ==> forall|
            px: int,
            py: int,
            c: int,
        |
            0 <= px < old(canvas).width && 0 <= py < old(canvas).height && 0 <= c < 4
                ==> #[trigger] final(canvas).at(px, py, c) == (if sel_outline(sel, px, py) {
                rose()[c]
            } else {
                old(canvas).at(px, py, c)
            }),
{
    let color: [u8; 4] = [235, 188, 186, 255];
    assert(color@ =~= rose());
    stroke_rect(canvas, sel.x as i32, sel.y as i32, sel.width, sel.height, color);
}

/// Where the loupe for a cursor at `c` starts along an axis of `p` pixels: beside the
/// cursor, on its other side where it would run off the far edge, and then moved fully
/// on-screen.
pub open spec fn loupe_start(c: int, p: int) -> int {
    let beside = if c + MAG_OFFSET + MAG_SIDE > p {
        c - MAG_OFFSET - MAG_SIDE
    } else {
        c + MAG_OFFSET
    };
    if beside < 0 {
        0
    } else if beside > p - MAG_SIDE {
        p - MAG_SIDE
    } else {
        beside
    }
}

/// The source pixel, of `n`, that the loupe's pixel `l` shows for a cursor at `c`.
pub open spec fn sample(c: int, l: int, n: int) -> int {
    let s = c - MAG_SRC / 2 + l / MAG_ZOOM as int;
    if s < 0 {
        0
    } else if s > n - 1 {
        n - 1
    } else {
        s
    }
}

/// `canvas` with the loupe's view of `base` around `(cx, cy)`, without its frame.
pub open spec fn zoomed(
    canvas: Seq<u8>,
    base: Seq<u8>,
    w: int,
    h: int,
    cx: int,
    cy: int,
) -> Seq<u8> {
    let ox = loupe_start(cx, w);
    let oy = loupe_start(cy, h);
    Seq::new(
        canvas.len(),
        |i: int|
            {
                let x = col_of(w, i);
                let y = row_of(w, i);
                if inside(x, y, ox, oy, MAG_SIDE as int, MAG_SIDE as int) {
                    base[offset(w, sample(cx, x - ox, w), sample(cy, y - oy, h)) + i % 4]
                } else {
                    canvas[i]
                }
            },
    )
}

/// `canvas` with the whole loupe: the zoomed view, a gold box around the target
/// pixel and a rose frame.
pub open spec fn magnified(
    canvas: Seq<u8>,
    base: Seq<u8>,
    w: u32,
    h: u32,
    cx: int,
    cy: int,
) -> Seq<u8> {
    let ox = loupe_start(cx, w as int);
    let oy = loupe_start(cy, h as int);
    let view = zoomed(canvas, base, w as int, h as int, cx, cy);
    let boxed = rect_stroked(view, w, h, ox + 64, oy + 64, 8, 8, gold());
    rect_stroked(boxed, w, h, ox, oy, 136, 136, rose())
}

fn loupe_origin(c: i64, p: u32) -> (o: u32)
    requires
        p >= MAG_SIDE,
        -0x4000_0000_0000_0000 <= c <= 0x4000_0000_0000_0000,
    ensures
        o == loupe_start(c as int, p as int),
        o + MAG_SIDE <= p,
{
    let p: i64 = p as i64;
    let beside: i64 = if c + MAG_OFFSET + MAG_SIDE > p {
        c - MAG_OFFSET - MAG_SIDE
    } else {
        c + MAG_OFFSET
    };
    if beside < 0 {
        0
    } else if beside > p - MAG_SIDE {
        (p - MAG_SIDE) as u32
    } else {
        beside as u32
    }
}

fn sample_of(c: i64, l: u32, n: u32) -> (s: u32)
    requires
        n >= 1,
        l < 136,
        -0x4000_0000_0000_0000 <= c <= 0x4000_0000_0000_0000,
    ensures
        s == sample(c as int, l as int, n as int),
        s < n,
{
    let step: u32 = l / 8;
    let s: i64 = c - 8 + step as i64;
    if s < 0 {
        0
    } else if s > n as i64 - 1 {
        n - 1
    } else {
        s as u32
    }
}

/// The part of the loupe's view that is drawn after `ly` whole rows and `lx` pixels
/// of the next.
spec fn zoomed_upto(
    canvas: Seq<u8>,
    base: Seq<u8>,
    w: int,
    h: int,
    cx: int,
    cy: int,
    ly: int,
    lx: int,
) -> Seq<u8> {
    let ox = loupe_start(cx, w);
    let oy = loupe_start(cy, h);
    Seq::new(
        canvas.len(),
        |i: int|
            {
                let x = col_of(w, i);
                let y = row_of(w, i);
                if inside(x, y, ox, oy, MAG_SIDE as int, MAG_SIDE as int) && (y - oy < ly || (y - oy
                    == ly && x - ox < lx)) {
                    base[offset(w, sample(cx, x - ox, w), sample(cy, y - oy, h)) + i % 4]
                } else {
                    canvas[i]
                }
            },
    )
}

/// Draw the nearest-neighbour zoom of the loupe, sampling the un-dimmed grab and
/// clamped at its edges.
fn draw_zoom(canvas: &mut RgbaImage, base: &RgbaImage, cx: i64, cy: i64, ox: u32, oy: u32)
    requires
        old(canvas).wf(),
        base.wf(),
        base.width == old(canvas).width,
        base.height == old(canvas).height,
        base.width >= MAG_SIDE,
        base.height >= MAG_SIDE,
        -0x4000_0000_0000_0000 <= cx <= 0x4000_0000_0000_0000,
        -0x4000_0000_0000_0000 <= cy <= 0x4000_0000_0000_0000,
        ox == loupe_start(cx as int, base.width as int),
        oy == loupe_start(cy as int, base.height as int),
    ensures
        final(canvas).wf(),
        final(canvas).width == old(canvas).width,
        final(canvas).height == old(canvas).height,
        final(canvas).data@ == zoomed(
            old(canvas).data@,
            base.data@,
            base.width as int,
            base.height as int,
            cx as int,
            cy as int,
        ),
{
    let ghost before = canvas.data@;
    let ghost w = base.width as int;
    let ghost h = base.height as int;
    let size: usize = base.data.len();
    let wide: usize = base.width as usize;
    let mut ly: u32 = 0;
    while ly < 136
        invariant
            canvas.wf(),
            base.wf(),
            canvas.width == base.width == old(canvas).width,
            canvas.height == base.height == old(canvas).height,
            w == base.width == wide,
            h == base.height,
            w >= MAG_SIDE,
            h >= MAG_SIDE,
            size == base.data@.len() == before.len(),
            -0x4000_0000_0000_0000 <= cx <= 0x4000_0000_0000_0000,
            -0x4000_0000_0000_0000 <= cy <= 0x4000_0000_0000_0000,
            ox == loupe_start(cx as int, w),
            oy == loupe_start(cy as int, h),
            ly <= 136,
            canvas.data@ =~= zoomed_upto(
                before,
                base.data@,
                w,
                h,
                cx as int,
                cy as int,
                ly as int,
                0,
            ),
        decreases 136 - ly,
    {
        let sy: u32 = sample_of(cy, ly, base.height);
        let mut lx: u32 = 0;
        while lx < 136
            invariant
                canvas.wf(),
                base.wf(),
                canvas.width == base.width == old(canvas).width,
                canvas.height == base.height == old(canvas).height,
                w == base.width == wide,
                h == base.height,
                w >= MAG_SIDE,
                h >= MAG_SIDE,
                size == base.data@.len() == before.len(),
                -0x4000_0000_0000_0000 <= cx <= 0x4000_0000_0000_0000,
                ox == loupe_start(cx as int, w),
                oy == loupe_start(cy as int, h),
                ly < 136,
                sy == sample(cy as int, ly as int, h),
                sy < h,
                lx <= 136,
                canvas.data@ =~= zoomed_upto(
                    before,
                    base.data@,
                    w,
                    h,
                    cx as int,
                    cy as int,
                    ly as int,
                    lx as int,
                ),
            decreases 136 - lx,
        {
            let ghost done = canvas.data@;
            let sx: u32 = sample_of(cx, lx, base.width);
            let dx: usize = ox as usize + lx as usize;
            let dy: usize = oy as usize + ly as usize;
            proof {
                lemma_in_buffer(w, h, sx as int, sy as int);
                lemma_in_buffer(w, h, dx as int, dy as int);
            }
            let si: usize = (sy as usize * wide + sx as usize) * 4;
            let di: usize = (dy * wide + dx) * 4;
            let r: u8 = base.data[si];
            let g: u8 = base.data[si + 1];
            let b: u8 = base.data[si + 2];
            let a: u8 = base.data[si + 3];
            canvas.data[di] = r;
            canvas.data[di + 1] = g;
            canvas.data[di + 2] = b;
            canvas.data[di + 3] = a;
            assert forall|i: int| 0 <= i < size implies canvas.data@[i] == zoomed_upto(
                before,
                base.data@,
                w,
                h,
                cx as int,
                cy as int,
                ly as int,
                lx + 1,
            )[i] by {
                lemma_row_run(w, h, dx as int, dy as int, 1, i);
                lemma_decode(w, h, i);
                if di <= i < di + 4 {
                    assert(i % 4 == i - di);
                }
            }
            lx = lx + 1;
        }
        ly = ly + 1;
        assert(canvas.data@ =~= zoomed_upto(
            before,
            base.data@,
            w,
            h,
            cx as int,
            cy as int,
            ly as int,
            0,
        ));
    }
}

/// Channel `c` of the pixel in column `px` of row `py` once the loupe is drawn over
/// `canvas`: the rose frame, the gold box around the target, the grab zoomed, and
/// `canvas` everywhere else.
pub open spec fn loupe_channel(
    canvas: RgbaImage,
    base: RgbaImage,
    cx: int,
    cy: int,
    px: int,
    py: int,
    c: int,
) -> u8 {
    let w = base.width as int;
    let h = base.height as int;
    let ox = loupe_start(cx, w);
    let oy = loupe_start(cy, h);
    if on_outline(px, py, ox, oy, MAG_SIDE as int, MAG_SIDE as int) {
        rose()[c]
    } else if on_outline(px, py, ox + 64, oy + 64, MAG_ZOOM as int, MAG_ZOOM as int) {
        gold()[c]
    } else if inside(px, py, ox, oy, MAG_SIDE as int, MAG_SIDE as int) {
        base.at(sample(cx, px - ox, w), sample(cy, py - oy, h), c)
    } else {
        canvas.at(px, py, c)
    }
}

/// Draw the magnifier loupe: a zoomed view of the grab around the cursor, placed
/// beside it, with a rose frame and a gold box marking the exact target pixel.
pub fn draw_magnifier(canvas: &mut RgbaImage, base: &RgbaImage, cx: i64, cy: i64)
    requires
        old(canvas).wf(),
        base.wf(),
        base.width == old(canvas).width,
        base.height == old(canvas).height,
        MAG_SIDE <= base.width <= 0x3fff_ffff,
        MAG_SIDE <= base.height <= 0x3fff_ffff,
        -0x4000_0000_0000_0000 <= cx <= 0x4000_0000_0000_0000,
        -0x4000_0000_0000_0000 <= cy <= 0x4000_0000_0000_0000,
    ensures
        final(canvas).wf(),
        final(canvas).width == old(canvas).width,
        final(canvas).height == old(canvas).height,
        final(canvas).data@ == magnified(
            old(canvas).data@,
            base.data@,
            base.width,
            base.height,
            cx as int,
            cy as int,
        ),
        base.width <= EXACT_SIDE && base.height <= EXACT_SIDE ==> forall|px: int, py: int, c: int|
            0 <= px < base.width && 0 <= py < base.height && 0 <= c < 4
                ==> #[trigger] final(canvas).at(px, py, c) == loupe_channel(
                *old(canvas),
                *base,
                cx as int,
                cy as int,
                px,
                py,
                c,
            ),
{
    let ox: u32 = loupe_origin(cx, base.width);
    let oy: u32 = loupe_origin(cy, base.height);
    draw_zoom(canvas, base, cx, cy, ox, oy);
    proof {
        let w = base.width as int;
        let h = base.height as int;
        assert forall|px: int, py: int, c: int|
            0 <= px < w && 0 <= py < h && 0 <= c < 4 implies #[trigger] canvas.at(px, py, c) == (
        if inside(px, py, ox as int, oy as int, MAG_SIDE as int, MAG_SIDE as int) {
            base.at(sample(cx as int, px - ox, w), sample(cy as int, py - oy, h), c)
        } else {
            old(canvas).at(px, py, c)
        }) by {
            lemma_encode(w, px, py, c);
            lemma_in_buffer(w, h, px, py);
        }
    }
    let box_color: [u8; 4] = [246, 193, 119, 255];
    let frame_color: [u8; 4] = [235, 188, 186, 255];
    assert(box_color@ =~= gold());
    assert(frame_color@ =~= rose());
    let cell: u32 = 64;
    stroke_rect(canvas, (ox + cell) as i32, (oy + cell) as i32, 8, 8, box_color);
    stroke_rect(canvas, ox as i32, oy as i32, 136, 136, frame_color);
}

/// Dimming leaves an opaque pixel opaque, and none of its channels brighter.
pub proof fn law_dim_keeps_pixels_opaque(value: u8, c: int)
    requires
        0 <= c < 4,
        c == 3 ==> value == 255,
    ensures
        c == 3 ==> shaded(value, DIM_ALPHA, c) == 255,
        c != 3 ==> 0 <= shaded(value, DIM_ALPHA, c) <= value,
{
}

/// The loupe is fully on-screen.
pub proof fn law_loupe_is_on_screen(c: int, p: int)
    requires
        p >= MAG_SIDE,
    ensures
        0 <= loupe_start(c, p),
        loupe_start(c, p) + MAG_SIDE <= p,
{
}

/// The loupe lies beside the cursor, not over it, on any axis that has room for it
/// on either side.
pub proof fn law_loupe_is_beside_the_cursor(c: int, p: int)
    requires
        p >= 2 * (MAG_OFFSET + MAG_SIDE),
    ensures
        c < loupe_start(c, p) || loupe_start(c, p) + MAG_SIDE <= c,
{
}

/// The gold box marks the exact target: what lies within it is the pixel under the
/// cursor, wherever the cursor is over the grab.
pub proof fn law_gold_box_marks_the_target(c: int, l: int, n: int)
    requires
        0 <= c < n,
        64 <= l < 64 + MAG_ZOOM,
    ensures
        sample(c, l, n) == c,
{
}

/// Within the selection the grab shows in its original brightness, and nothing
/// outside it changes.
pub proof fn law_selection_is_restored(
    canvas: Seq<u8>,
    base: RgbaImage,
    sel: Rect,
    x: int,
    y: int,
    c: int,
)
    requires
        base.wf(),
        canvas.len() == base.data@.len(),
        0 <= x < base.width,
        0 <= y < base.height,
        0 <= c < 4,
    ensures
        restored(canvas, base.data@, base.width as int, sel)[offset(base.width as int, x, y) + c]
            == (if sel.covers(x, y) {
            base.at(x, y, c)
        } else {
            canvas[offset(base.width as int, x, y) + c]
        }),
{
    lemma_encode(base.width as int, x, y, c);
    lemma_in_buffer(base.width as int, base.height as int, x, y);
}

/// An outline is the outermost two pixels of its rectangle on every side, corners and all, and
/// nothing else.
pub proof fn law_outline_is_the_outermost_two_pixels(
    px: int,
    py: int,
    x: int,
    y: int,
    rw: int,
    rh: int,
)
    requires
        rw >= 2,
        rh >= 2,
    ensures
        on_outline(px, py, x, y, rw, rh) <==> {
            &&& x <= px < x + rw && y <= py < y + rh
            &&& !(x + 2 <= px < x + rw - 2 && y + 2 <= py < y + rh - 2)
        },
{
}

/// Dimming leaves 135 parts of 255 of every colour, rounded to a whole byte, and lays its own
/// opacity on top of what is left of the pixel's.
pub proof fn law_dim_leaves_a_share_of_every_colour(value: u8, c: int)
    requires
        0 <= c < 4,
    ensures
        ({
            let rest = if c == 3 {
                shaded(value, DIM_ALPHA, c) - 120
            } else {
                shaded(value, DIM_ALPHA, c)
            };
            256 * rest <= 135 * value + 255 < 256 * rest + 256
        }),
{
}

/// The loupe starts 32 pixels beyond the cursor where its 136 fit there, else it ends 32
/// pixels before it, and where neither leaves it on the screen it is moved to the edge.
pub proof fn law_loupe_keeps_its_distance(c: int, p: int)
    requires
        p >= 136,
    ensures
        ({
            let start = loupe_start(c, p);
            &&& -32 <= c && c + 168 <= p ==> start == c + 32
            &&& c < -32 ==> start == 0
            &&& c + 168 > p && 168 <= c <= p + 32 ==> start == c - 168
            &&& c + 168 > p && -32 <= c < 168 ==> start == 0
            &&& c > p + 32 ==> start == p - 136
        }),
{
}

/// A pixel of the grab shows in the loupe as eight by eight, and the one under the cursor in
/// the middle of seventeen: the loupe's pixel `l` shows the grab's pixel that is `l / 8 - 8`
/// away from the cursor, or the last there is on that side.
pub proof fn law_loupe_magnifies_eight_times(c: int, l: int, n: int)
    requires
        0 <= l < 136,
        n >= 1,
    ensures
        ({
            let s = sample(c, l, n);
            &&& 0 <= s < n
            &&& 0 <= c - 8 + l / 8 < n ==> 8 * (s - c + 8) <= l < 8 * (s - c + 8) + 8
            &&& c - 8 + l / 8 < 0 ==> s == 0
            &&& c - 8 + l / 8 >= n ==> s == n - 1
        }),
{
}

/// What the loupe shows, pixel by pixel: a rose frame two pixels wide, a gold box of eight
/// pixels around the target, also two wide, the grab magnified within, and the canvas
/// unchanged without.
pub proof fn law_loupe_shows_the_grab_in_its_frame(
    canvas: RgbaImage,
    base: RgbaImage,
    cx: int,
    cy: int,
    lx: int,
    ly: int,
    c: int,
)
    requires
        0 <= c < 4,
    ensures
        ({
            let w = base.width as int;
            let h = base.height as int;
            let px = loupe_start(cx, w) + lx;
            let py = loupe_start(cy, h) + ly;
            let within = 0 <= lx < 136 && 0 <= ly < 136;
            let framed = within && !(2 <= lx < 134 && 2 <= ly < 134);
            let boxed = 64 <= lx < 72 && 64 <= ly < 72 && !(66 <= lx < 70 && 66 <= ly < 70);
            loupe_channel(canvas, base, cx, cy, px, py, c) == (if framed {
                seq![235u8, 188u8, 186u8, 255u8][c]
            } else if boxed {
                seq![246u8, 193u8, 119u8, 255u8][c]
            } else if within {
                base.at(sample(cx, lx, w), sample(cy, ly, h), c)
            } else {
                canvas.at(px, py, c)
            })
        }),
{
}

/// Restoring a selection gives back the grab's bytes of every pixel in it, all four of each,
/// and leaves all others.
pub proof fn law_selection_keeps_its_brightness(
    canvas: Seq<u8>,
    base: RgbaImage,
    sel: Rect,
    x: int,
    y: int,
    c: int,
)
    requires
        base.wf(),
        canvas.len() == base.data@.len(),
        0 <= x < base.width,
        0 <= y < base.height,
        0 <= c < 4,
    ensures
        ({
            let i = 4 * (y * base.width + x) + c;
            let within = sel.x <= x < sel.x + sel.width && sel.y <= y < sel.y + sel.height;
            restored(canvas, base.data@, base.width as int, sel)[i] == (if within {
                base.data@[i]
            } else {
                canvas[i]
            })
        }),
{
    law_selection_is_restored(canvas, base, sel, x, y, c);
}

/// The loupe is drawn in three steps: the magnified grab, then a gold outline of eight by eight
/// around its middle, then a rose outline around all of it.
pub proof fn law_loupe_is_drawn_in_three_steps(
    canvas: Seq<u8>,
    base: Seq<u8>,
    w: u32,
    h: u32,
    cx: int,
    cy: int,
)
    ensures
        ({
            let ox = loupe_start(cx, w as int);
            let oy = loupe_start(cy, h as int);
            let view = zoomed(canvas, base, w as int, h as int, cx, cy);
            let marked = rect_stroked(
                view,
                w,
                h,
                ox + 64,
                oy + 64,
                8,
                8,
                seq![246u8, 193u8, 119u8, 255u8],
            );
            magnified(canvas, base, w, h, cx, cy) == rect_stroked(
                marked,
                w,
                h,
                ox,
                oy,
                136,
                136,
                seq![235u8, 188u8, 186u8, 255u8],
            )
        }),
{
}

/// The magnified grab, pixel by pixel: within the loupe's 136 by 136 pixels each shows the
/// pixel of the grab that it stands for, and all others are the canvas.
pub proof fn law_view_is_the_grab_magnified(
    canvas: RgbaImage,
    base: RgbaImage,
    cx: int,
    cy: int,
    px: int,
    py: int,
    c: int,
)
    requires
        canvas.wf(),
        base.wf(),
        canvas.width == base.width,
        canvas.height == base.height,
        0 <= px < base.width,
        0 <= py < base.height,
        0 <= c < 4,
    ensures
        ({
            let w = base.width as int;
            let h = base.height as int;
            let lx = px - loupe_start(cx, w);
            let ly = py - loupe_start(cy, h);
            zoomed(canvas.data@, base.data@, w, h, cx, cy)[4 * (py * w + px) + c] == (if 0 <= lx
                < 136 && 0 <= ly < 136 {
                base.at(sample(cx, lx, w), sample(cy, ly, h), c)
            } else {
                canvas.at(px, py, c)
            })
        }),
{
    lemma_encode(base.width as int, px, py, c);
    lemma_in_buffer(base.width as int, base.height as int, px, py);
}

/// An outline is four filled bars, two pixels thick: along the top, the bottom, the left and
/// the right of its rectangle.
pub proof fn law_outline_is_four_bars(
    pixels: Seq<u8>,
    w: u32,
    h: u32,
    x: int,
    y: int,
    rw: u32,
    rh: u32,
    color: Seq<u8>,
)
    ensures
        ({
            let a = rect_filled(pixels, w, h, x as i32, y as i32, rw, 2, color);
            let b = rect_filled(a, w, h, x as i32, (y + rh - 2) as i32, rw, 2, color);
            let c = rect_filled(b, w, h, x as i32, y as i32, 2, rh, color);
            rect_stroked(pixels, w, h, x, y, rw, rh, color) == rect_filled(
                c,
                w,
                h,
                (x + rw - 2) as i32,
                y as i32,
                2,
                rh,
                color,
            )
        }),
{
}

/// Of a rectangle of any size, the outline is its first and last two rows and its first and
/// last two columns; where there are fewer they reach past its other side.
pub proof fn law_outline_is_rows_and_columns(
    px: int,
    py: int,
    x: int,
    y: int,
    rw: int,
    rh: int,
)
    ensures
        on_outline(px, py, x, y, rw, rh) <==> {
            ||| x <= px < x + rw && (y <= py < y + 2 || y + rh - 2 <= py < y + rh)
            ||| y <= py < y + rh && (x <= px < x + 2 || x + rw - 2 <= px < x + rw)
        },
{
}

} // verus!
