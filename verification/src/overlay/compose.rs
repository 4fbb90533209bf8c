//! Composing the frames that the overlay shows.

use vstd::prelude::*;

use super::paint::{
    dimmed, draw_border, draw_magnifier, law_selection_is_restored, loupe_channel, magnified,
    rect_filled, rect_stroked, restore_rect, restored, rose, sel_outline, shaded, DIM_ALPHA,
    EXACT_SIDE, MAG_SIDE,
};
use super::rect::Rect;
use super::select::{Overlay, Pos};
use crate::raster::{lemma_in_buffer, offset, RgbaImage};

verus! {

/// The frozen grab and its dimmed copy, which every frame starts from.
pub struct Scene {
    base: RgbaImage,
    dimmed: RgbaImage,
}

/// The grab with the dim applied.
pub open spec fn dim_of(base: Seq<u8>, w: u32, h: u32) -> Seq<u8> {
    rect_filled(base, w, h, 0, 0, w, h, seq![0u8, 0u8, 0u8, DIM_ALPHA])
}

/// The dimmed grab with the selection in its original brightness and outlined.
pub open spec fn backdrop(base: Seq<u8>, w: u32, h: u32, sel: Option<Rect>) -> Seq<u8> {
    let dark = dim_of(base, w, h);
    match sel {
        None => dark,
        Some(r) => rect_stroked(
            restored(dark, base, w as int, r),
            w,
            h,
            r.x as int,
            r.y as int,
            r.width,
            r.height,
            rose(),
        ),
    }
}

/// Channel `c` of the backdrop's pixel in column `px` of row `py`: the grab in its original
/// brightness within the selection, a rose border around it, and the grab dimmed
/// everywhere else.
pub open spec fn backdrop_channel(
    base: RgbaImage,
    sel: Option<Rect>,
    px: int,
    py: int,
    c: int,
) -> int {
    match sel {
        Some(r) if sel_outline(r, px, py) => rose()[c] as int,
        Some(r) if r.covers(px, py) => base.at(px, py, c) as int,
        _ => shaded(base.at(px, py, c), DIM_ALPHA, c),
    }
}

/// The physical pixel that a coordinate falls in, rounding toward zero.
pub open spec fn cursor(k: int, scale: int) -> int {
    if k * scale >= 0 {
        (k * scale) / 256
    } else {
        -((-(k * scale)) / 256)
    }
}

/// Pixels with red and blue exchanged: from the byte order R, G, B, A to B, G, R, A.
pub open spec fn red_blue_swapped(data: Seq<u8>) -> Seq<u8> {
    Seq::new(
        data.len(),
        |i: int|
            if i % 4 == 0 {
                data[i + 2]
            } else if i % 4 == 2 {
                data[i - 2]
            } else {
                data[i]
            },
    )
}

/// Channel `c` of the pixel in column `px` of row `py` of bytes that hold blue first.
pub open spec fn shown_channel(bytes: Seq<u8>, w: int, px: int, py: int, c: int) -> u8 {
    bytes[offset(w, px, py) + (if c < 3 {
        2 - c
    } else {
        c
    })]
}

/// Exchange red and blue of every pixel: shared memory in the compositor's format
/// holds blue first.
pub fn swap_red_blue(data: &Vec<u8>) -> (r: Vec<u8>)
    requires
        data@.len() % 4 == 0,
    ensures
        r@ == red_blue_swapped(data@),
{
    let n: usize = data.len();
    let mut out: Vec<u8> = Vec::with_capacity(n);
    let mut i: usize = 0;
    while i < n
        invariant
            n == data@.len(),
            n % 4 == 0,
            i % 4 == 0,
            i <= n,
            out@ =~= red_blue_swapped(data@).subrange(0, i as int),
        decreases n - i,
    {
        out.push(data[i + 2]);
        out.push(data[i + 1]);
        out.push(data[i]);
        out.push(data[i + 3]);
        i = i + 4;
    }
    assert(out@ =~= red_blue_swapped(data@));
    out
}

/// Exchanging red and blue twice changes nothing.
pub proof fn law_swapping_twice_is_identity(data: Seq<u8>)
    requires
        data.len() % 4 == 0,
    ensures
        red_blue_swapped(red_blue_swapped(data)) == data,
{
    assert(red_blue_swapped(red_blue_swapped(data)) =~= data);
}

/// The physical pixel under a coordinate in 256ths of a logical pixel.
pub(crate) fn cursor_of(k: i32, scale: i32) -> (c: i64)
    ensures
        c == cursor(k as int, scale as int),
        -0x4000_0000_0000_0000 <= c <= 0x4000_0000_0000_0000,
{
    proof {
        assert(-0x4000_0000_0000_0000 <= k * scale <= 0x4000_0000_0000_0000) by (nonlinear_arith)
            requires
                -0x8000_0000 <= k <= 0x7fff_ffff,
                -0x8000_0000 <= scale <= 0x7fff_ffff,
        ;
    }
    let p: i64 = k as i64 * scale as i64;
    if p >= 0 {
        let q: u64 = p as u64 / 256;
        q as i64
    } else {
        let q: u64 = ((0 - p) as u64) / 256;
        0 - q as i64
    }
}

impl Scene {
    pub closed spec fn base(&self) -> RgbaImage {
        self.base
    }

    pub closed spec fn wf(&self) -> bool {
        &&& self.base.wf()
        &&& self.dimmed.wf()
        &&& self.dimmed.width == self.base.width
        &&& self.dimmed.height == self.base.height
        &&& self.dimmed.data@ == dim_of(self.base.data@, self.base.width, self.base.height)
        &&& MAG_SIDE <= self.base.width <= 0x3fff_ffff
        &&& MAG_SIDE <= self.base.height <= 0x3fff_ffff
        &&& self.base.width <= EXACT_SIDE && self.base.height <= EXACT_SIDE ==> forall|
            px: int,
            py: int,
            c: int,
        |
            0 <= px < self.base.width && 0 <= py < self.base.height && 0 <= c < 4 ==> #[trigger]
            self.dimmed.at(px, py, c) == shaded(self.base.at(px, py, c), DIM_ALPHA, c)
    }

    /// Prepare a grab for the overlay. It must hold the loupe.
    pub fn new(grab: RgbaImage) -> (s: Scene)
        requires
            grab.wf(),
            MAG_SIDE <= grab.width <= 0x3fff_ffff,
            MAG_SIDE <= grab.height <= 0x3fff_ffff,
        ensures
            s.wf(),
            s.base() == grab,
    {
        let dark: RgbaImage = dimmed(&grab);
        Scene { base: grab, dimmed: dark }
    }

    /// The dimmed grab with `sel` in its original brightness and outlined.
    pub fn under(&self, sel: Option<Rect>) -> (r: RgbaImage)
        requires
            self.wf(),
            sel matches Some(rect) ==> rect.within(
                self.base().width as int,
                self.base().height as int,
            ),
        ensures
            r.wf(),
            r.width == self.base().width,
            r.height == self.base().height,
            r.data@ == backdrop(
                self.base().data@,
                self.base().width,
                self.base().height,
                sel,
            ),
            self.base().width <= EXACT_SIDE && self.base().height <= EXACT_SIDE ==> forall|
                px: int,
                py: int,
                c: int,
            |
                0 <= px < r.width && 0 <= py < r.height && 0 <= c < 4 ==> #[trigger] r.at(px, py, c)
                    == backdrop_channel(self.base(), sel, px, py, c),
    {
        let mut canvas: RgbaImage = self.dimmed.clone();
        let ghost dark = canvas;
        if let Some(rect) = sel {
            restore_rect(&mut canvas, &self.base, rect);
            proof {
                let w = self.base.width as int;
                assert forall|px: int, py: int, c: int|
                    0 <= px < w && 0 <= py < self.base.height && 0 <= c < 4 implies #[trigger]
                canvas.at(px, py, c) == (if rect.covers(px, py) {
                    self.base.at(px, py, c)
                } else {
                    self.dimmed.at(px, py, c)
                }) by {
                    law_selection_is_restored(dark.data@, self.base, rect, px, py, c);
                    assert(dark.at(px, py, c) == self.dimmed.at(px, py, c));
                }
            }
            draw_border(&mut canvas, rect);
            proof {
                if self.base.width <= EXACT_SIDE && self.base.height <= EXACT_SIDE {
                    assert forall|px: int, py: int, c: int|
                        0 <= px < canvas.width && 0 <= py < canvas.height && 0 <= c < 4 implies
                    #[trigger] canvas.at(px, py, c) == backdrop_channel(self.base, sel, px, py, c) by {
                        assert(self.dimmed.at(px, py, c) == shaded(
                            self.base.at(px, py, c),
                            DIM_ALPHA,
                            c,
                        ));
                    }
                }
            }
        } else {
            assert(forall|px: int, py: int, c: int| #[trigger]
                canvas.at(px, py, c) == self.dimmed.at(px, py, c));
        }
        canvas
    }

    /// `crossed` with the loupe for a cursor at `pos`, as bytes for the compositor.
    pub fn over(&self, crossed: RgbaImage, pos: Pos, scale: i32) -> (r: Vec<u8>)
        requires
            self.wf(),
            crossed.wf(),
            crossed.width == self.base().width,
            crossed.height == self.base().height,
        ensures
            r@ == red_blue_swapped(
                magnified(
                    crossed.data@,
                    self.base().data@,
                    self.base().width,
                    self.base().height,
                    cursor(pos.x as int, scale as int),
                    cursor(pos.y as int, scale as int),
                ),
            ),
            r@.len() == self.base().data@.len(),
            self.base().width <= EXACT_SIDE && self.base().height <= EXACT_SIDE ==> forall|
                px: int,
                py: int,
                c: int,
            |
                0 <= px < crossed.width && 0 <= py < crossed.height && 0 <= c < 4
                    ==> #[trigger] shown_channel(r@, crossed.width as int, px, py, c)
                    == loupe_channel(
                    crossed,
                    self.base(),
                    cursor(pos.x as int, scale as int),
                    cursor(pos.y as int, scale as int),
                    px,
                    py,
                    c,
                ),
    {
        let mut canvas: RgbaImage = crossed;
        draw_magnifier(
            &mut canvas,
            &self.base,
            cursor_of(pos.x, scale),
            cursor_of(pos.y, scale),
        );
        let r: Vec<u8> = swap_red_blue(&canvas.data);
        proof {
            let w = canvas.width as int;
            assert forall|px: int, py: int, c: int|
                0 <= px < w && 0 <= py < canvas.height && 0 <= c < 4 implies #[trigger]
            shown_channel(r@, w, px, py, c) == canvas.at(px, py, c) by {
                lemma_in_buffer(w, canvas.height as int, px, py);
            }
        }
        r
    }

    /// Compose a frame: the dimmed grab, the current drag in its original brightness
    /// with an outline, the cursor marker and the loupe. `cross` paints the marker,
    /// which lies between pixels, centred on a position in 256ths of a logical
    /// pixel at the given scale.
    pub fn render<F: Fn(RgbaImage, Pos, i32) -> RgbaImage>(&self, ov: &Overlay, cross: F) -> (r:
        Vec<u8>)
        requires
            self.wf(),
            ov.phys_w == self.base().width,
            ov.phys_h == self.base().height,
            forall|img: RgbaImage|
                img.wf() && img.width == ov.phys_w && img.height == ov.phys_h ==> #[trigger]
                call_requires(cross, (img, ov.pointer_pos, ov.scale)),
            forall|img: RgbaImage, out: RgbaImage|
                img.wf() && img.width == ov.phys_w && img.height == ov.phys_h && #[trigger]
                call_ensures(cross, (img, ov.pointer_pos, ov.scale), out) ==> out.wf() && out.width
                    == img.width && out.height == img.height,
        ensures
            exists|img: RgbaImage, crossed: RgbaImage|
                {
                    &&& img.width == ov.phys_w
                    &&& img.height == ov.phys_h
                    &&& img.data@ == backdrop(self.base().data@, ov.phys_w, ov.phys_h, ov.drag())
                    &&& #[trigger] call_ensures(cross, (img, ov.pointer_pos, ov.scale), crossed)
                    &&& r@ == red_blue_swapped(
                        magnified(
                            crossed.data@,
                            self.base().data@,
                            ov.phys_w,
                            ov.phys_h,
                            cursor(ov.pointer_pos.x as int, ov.scale as int),
                            cursor(ov.pointer_pos.y as int, ov.scale as int),
                        ),
                    )
                    &&& ov.phys_w <= EXACT_SIDE && ov.phys_h <= EXACT_SIDE ==> (forall|
                        px: int,
                        py: int,
                        c: int,
                    |
                        0 <= px < ov.phys_w && 0 <= py < ov.phys_h && 0 <= c < 4
                            ==> #[trigger] img.at(px, py, c) == backdrop_channel(
                            self.base(),
                            ov.drag(),
                            px,
                            py,
                            c,
                        ))
                    &&& ov.phys_w <= EXACT_SIDE && ov.phys_h <= EXACT_SIDE ==> (forall|
                        px: int,
                        py: int,
                        c: int,
                    |
                        0 <= px < ov.phys_w && 0 <= py < ov.phys_h && 0 <= c < 4
                            ==> #[trigger] shown_channel(r@, ov.phys_w as int, px, py, c)
                            == loupe_channel(
                            crossed,
                            self.base(),
                            cursor(ov.pointer_pos.x as int, ov.scale as int),
                            cursor(ov.pointer_pos.y as int, ov.scale as int),
                            px,
                            py,
                            c,
                        ))
                },
            r@.len() == self.base().data@.len(),
    {
        let img: RgbaImage = self.under(ov.drag_rect());
        let ghost under = img;
        let crossed: RgbaImage = cross(img, ov.pointer_pos, ov.scale);
        assert(call_ensures(cross, (under, ov.pointer_pos, ov.scale), crossed));
        self.over(crossed, ov.pointer_pos, ov.scale)
    }
}

/// The backdrop, pixel by pixel: the outermost two pixels of the selection are rose, what lies
/// within them is the grab as it is, and all else is the grab dimmed.
pub proof fn law_backdrop_shows_the_selection(
    base: RgbaImage,
    sel: Rect,
    px: int,
    py: int,
    c: int,
)
    requires
        0 <= c < 4,
        sel.width >= 2,
        sel.height >= 2,
    ensures
        ({
            let x = sel.x as int;
            let y = sel.y as int;
            let within = x <= px < x + sel.width && y <= py < y + sel.height;
            let hollow = x + 2 <= px < x + sel.width - 2 && y + 2 <= py < y + sel.height - 2;
            let dim = shaded(base.at(px, py, c), 120, c);
            &&& backdrop_channel(base, Some(sel), px, py, c) == (if within && !hollow {
                seq![235u8, 188u8, 186u8, 255u8][c] as int
            } else if within {
                base.at(px, py, c) as int
            } else {
                dim
            })
            &&& backdrop_channel(base, None, px, py, c) == dim
        }),
{
}

/// The backdrop of a frame is the grab dimmed, with the selection put back and outlined in
/// rose, in that order.
pub proof fn law_backdrop_is_dim_then_selection(
    base: Seq<u8>,
    w: u32,
    h: u32,
    sel: Rect,
)
    ensures
        backdrop(base, w, h, None) == rect_filled(
            base,
            w,
            h,
            0,
            0,
            w,
            h,
            seq![0u8, 0u8, 0u8, 120u8],
        ),
        backdrop(base, w, h, Some(sel)) == rect_stroked(
            restored(backdrop(base, w, h, None), base, w as int, sel),
            w,
            h,
            sel.x as int,
            sel.y as int,
            sel.width,
            sel.height,
            seq![235u8, 188u8, 186u8, 255u8],
        ),
{
}

/// The cursor's pixel is the one that its position falls in: the position in 256ths times the
/// scale, over 256, without the fraction, toward zero on either side of it.
pub proof fn law_cursor_is_on_its_pixel(k: int, scale: int)
    ensures
        k * scale >= 0 ==> 256 * cursor(k, scale) <= k * scale < 256 * cursor(k, scale) + 256,
        k * scale < 0 ==> 256 * cursor(k, scale) - 256 < k * scale <= 256 * cursor(k, scale),
        k * scale >= 0 ==> cursor(k, scale) >= 0,
        k * scale < 0 ==> cursor(k, scale) <= 0,
{
}

/// Exchanging red and blue moves the first byte of each pixel to the third place and the third
/// to the first, and leaves green and opacity where they are.
pub proof fn law_red_and_blue_change_places(data: Seq<u8>, p: int)
    requires
        data.len() % 4 == 0,
        0 <= p,
        4 * p < data.len(),
    ensures
        ({
            let out = red_blue_swapped(data);
            &&& out.len() == data.len()
            &&& out[4 * p] == data[4 * p + 2]
            &&& out[4 * p + 1] == data[4 * p + 1]
            &&& out[4 * p + 2] == data[4 * p]
            &&& out[4 * p + 3] == data[4 * p + 3]
        }),
{
}

/// What the compositor shows of bytes that hold blue first: byte two of a pixel as red, byte
/// one as green, byte nought as blue and byte three as opacity.
pub proof fn law_shown_bytes_hold_blue_first(bytes: Seq<u8>, w: int, px: int, py: int)
    ensures
        ({
            let i = 4 * (py * w + px);
            &&& shown_channel(bytes, w, px, py, 0) == bytes[i + 2]
            &&& shown_channel(bytes, w, px, py, 1) == bytes[i + 1]
            &&& shown_channel(bytes, w, px, py, 2) == bytes[i]
            &&& shown_channel(bytes, w, px, py, 3) == bytes[i + 3]
        }),
{
}

} // verus!
