//! Straight RGBA images: eight bits per channel, rows from the top, no padding.

use vstd::prelude::*;

verus! {

/// An RGBA image. `data` holds red, green, blue and alpha of each pixel, row
/// after row.
#[derive(Debug, PartialEq, Eq)]
pub struct RgbaImage {
    pub width: u32,
    pub height: u32,
    pub data: Vec<u8>,
}

/// Where the pixel in column `x` of row `y` starts in an image `w` pixels wide.
pub open spec fn offset(w: int, x: int, y: int) -> int {
    (y * w + x) * 4
}

/// The column of the pixel that byte `i` belongs to.
pub open spec fn col_of(w: int, i: int) -> int {
    (i / 4) % w
}

/// The row of the pixel that byte `i` belongs to.
pub open spec fn row_of(w: int, i: int) -> int {
    (i / 4) / w
}

/// The bytes that a `w` by `h` image takes.
pub open spec fn byte_len(w: int, h: int) -> int {
    w * h * 4
}

/// Channel `c` of the pixel in column `x` of row `y` of pixels in rows `w` wide.
pub open spec fn channel_at(data: Seq<u8>, w: int, x: int, y: int, c: int) -> u8 {
    data[offset(w, x, y) + c]
}

/// Rows `from` up to but not including `to` of pixels in rows `w` wide.
pub open spec fn rows(data: Seq<u8>, w: int, from: int, to: int) -> Seq<u8> {
    data.subrange(byte_len(w, from), byte_len(w, to))
}

impl RgbaImage {
    /// The buffer holds exactly the pixels that the dimensions promise.
    pub open spec fn wf(&self) -> bool {
        self.data@.len() == byte_len(self.width as int, self.height as int)
    }

    /// Channel `c` of the pixel in column `x` of row `y`.
    pub open spec fn at(&self, x: int, y: int, c: int) -> u8 {
        channel_at(self.data@, self.width as int, x, y, c)
    }

    /// The two images have the same size and the same pixels.
    pub open spec fn same_pixels(&self, other: RgbaImage) -> bool {
        self.width == other.width && self.height == other.height && self.data@ == other.data@
    }

    /// No pixel lets anything through.
    pub open spec fn opaque(&self) -> bool {
        forall|x: int, y: int|
            0 <= x < self.width && 0 <= y < self.height ==> #[trigger] self.at(x, y, 3) == 255
    }

    /// Wrap a pixel buffer; `None` when its length does not fit the dimensions.
    pub fn from_raw(width: u32, height: u32, data: Vec<u8>) -> (r: Option<RgbaImage>)
        ensures
            r is Some <==> data@.len() == byte_len(width as int, height as int),
            r matches Some(img) ==> {
                &&& img.wf()
                &&& img.width == width
                &&& img.height == height
                &&& img.data@ == data@
            },
    {
        proof {
            lemma_u32_product(width, height);
        }
        let size: u128 = width as u128 * height as u128;
        if data.len() as u128 == size * 4 {
            Some(RgbaImage { width, height, data })
        } else {
            None
        }
    }
}

impl Clone for RgbaImage {
    fn clone(&self) -> (r: RgbaImage)
        ensures
            r.same_pixels(*self),
    {
        RgbaImage {
            width: self.width,
            height: self.height,
            data: vstd::slice::slice_to_vec(self.data.as_slice()),
        }
    }
}

/// A channel of value `under` with one of value `over` laid on it, `alpha` opaque.
pub open spec fn blended(under: u8, over: u8, alpha: int) -> int {
    (over * alpha + under * (255 - alpha)) / 255
}

fn blended_of(under: u8, over: u8, alpha: u32) -> (r: u8)
    requires
        alpha <= 255,
    ensures
        r == blended(under, over, alpha as int),
{
    proof {
        assert(0 <= over * alpha <= 255 * alpha && 0 <= under * (255 - alpha) <= 255 * (255 - alpha))
            by (nonlinear_arith)
            requires
                0 <= over <= 255,
                0 <= under <= 255,
                0 <= alpha <= 255,
        ;
    }
    let mixed: u32 = over as u32 * alpha + under as u32 * (255 - alpha);
    (mixed / 255) as u8
}

/// Lay a colour over one pixel, if the pixel is in the image. `coverage` says how much of
/// the pixel the colour takes. What shows through the pixel stays as it is.
pub fn blend(img: &mut RgbaImage, x: i64, y: i64, color: [u8; 4], coverage: u8)
    requires
        old(img).wf(),
    ensures
        final(img).wf(),
        final(img).width == old(img).width,
        final(img).height == old(img).height,
        forall|px: int, py: int, c: int|
            0 <= px < old(img).width && 0 <= py < old(img).height && 0 <= c < 4
                ==> #[trigger] final(img).at(px, py, c) == (if px == x && py == y && c < 3 {
                blended(old(img).at(px, py, c), color@[c], coverage * color@[3] / 255)
            } else {
                old(img).at(px, py, c) as int
            }),
{
    let w: i64 = img.width as i64;
    let h: i64 = img.height as i64;
    if x < 0 || y < 0 || x >= w || y >= h {
        return;
    }
    proof {
        lemma_in_buffer(w as int, h as int, x as int, y as int);
        assert(img.data@.len() == img.data.len());
        assert(0 <= coverage * color@[3] <= 255 * 255) by (nonlinear_arith)
            requires
                0 <= coverage <= 255,
                0 <= color@[3] <= 255,
        ;
    }
    let i: usize = (y as usize * img.width as usize + x as usize) * 4;
    let alpha: u32 = coverage as u32 * color[3] as u32 / 255;
    let r: u8 = blended_of(img.data[i], color[0], alpha);
    let g: u8 = blended_of(img.data[i + 1], color[1], alpha);
    let b: u8 = blended_of(img.data[i + 2], color[2], alpha);
    img.data[i] = r;
    img.data[i + 1] = g;
    img.data[i + 2] = b;
    assert forall|px: int, py: int, c: int|
        0 <= px < w && 0 <= py < h && 0 <= c < 4 implies #[trigger] img.at(px, py, c) == (if px == x
        && py == y && c < 3 {
        blended(old(img).at(px, py, c), color@[c], coverage * color@[3] / 255)
    } else {
        old(img).at(px, py, c) as int
    }) by {
        lemma_in_buffer(w as int, h as int, px, py);
        lemma_encode(w as int, px, py, c);
        lemma_encode(w as int, x as int, y as int, 0);
        lemma_encode(w as int, x as int, y as int, 1);
        lemma_encode(w as int, x as int, y as int, 2);
    }
}

/// A byte's place follows from its column, its row and its channel.
pub proof fn lemma_encode(w: int, x: int, y: int, c: int)
    requires
        0 <= x < w,
        0 <= y,
        0 <= c < 4,
    ensures
        0 <= offset(w, x, y),
        col_of(w, offset(w, x, y) + c) == x,
        row_of(w, offset(w, x, y) + c) == y,
        (offset(w, x, y) + c) % 4 == c,
{
    let n = y * w + x;
    assert(0 <= y * w) by (nonlinear_arith)
        requires
            0 <= y,
            0 < w,
    ;
    assert((n * 4 + c) / 4 == n);
    vstd::arithmetic::div_mod::lemma_fundamental_div_mod_converse(n, w, y, x);
}

/// A byte's column, row and channel give back its place.
pub proof fn lemma_decode(w: int, h: int, i: int)
    requires
        0 < w,
        0 <= i < byte_len(w, h),
    ensures
        0 <= col_of(w, i) < w,
        0 <= row_of(w, i) < h,
        i == offset(w, col_of(w, i), row_of(w, i)) + i % 4,
{
    let n = i / 4;
    vstd::arithmetic::div_mod::lemma_fundamental_div_mod(n, w);
    vstd::arithmetic::div_mod::lemma_div_pos_is_pos(n, w);
    assert(n % w < w && 0 <= n % w);
    assert(w * (n / w) == (n / w) * w) by (nonlinear_arith);
    assert(n / w < h) by (nonlinear_arith)
        requires
            n < w * h,
            n == w * (n / w) + n % w,
            0 <= n % w,
            0 < w,
    ;
}

/// Pixels of the image lie within its buffer.
pub proof fn lemma_in_buffer(w: int, h: int, x: int, y: int)
    requires
        0 <= x < w,
        0 <= y < h,
    ensures
        0 <= y * w,
        0 <= offset(w, x, y),
        offset(w, x, y) + 4 <= byte_len(w, h),
{
    assert(0 <= y * w && y * w + w <= w * h) by (nonlinear_arith)
        requires
            0 < w,
            0 <= y < h,
    ;
}

/// The bytes of `n` pixels of one row are those whose row is that row and whose
/// column is among the pixels' columns.
pub proof fn lemma_row_run(w: int, h: int, x: int, y: int, n: int, i: int)
    requires
        0 <= x,
        0 <= n,
        x + n <= w,
        0 < w,
        0 <= y < h,
        0 <= i < byte_len(w, h),
    ensures
        offset(w, x, y) <= i < offset(w, x, y) + 4 * n <==> row_of(w, i) == y && x <= col_of(w, i)
            < x + n,
{
    lemma_decode(w, h, i);
    let r = row_of(w, i);
    let c = col_of(w, i);
    if r < y {
        assert(r * w + w <= y * w) by (nonlinear_arith)
            requires
                r + 1 <= y,
                0 < w,
        ;
    } else if r > y {
        assert(y * w + w <= r * w) by (nonlinear_arith)
            requires
                y + 1 <= r,
                0 < w,
        ;
    }
}

proof fn lemma_u32_product(a: u32, b: u32)
    ensures
        0 <= a * b <= 0xffff_ffff * 0xffff_ffff,
{
    assert(0 <= a * b <= 0xffff_ffff * 0xffff_ffff) by (nonlinear_arith)
        requires
            0 <= a <= 0xffff_ffff,
            0 <= b <= 0xffff_ffff,
    ;
}

/// An image's buffer holds four bytes for each pixel, pixel after pixel from the left and
/// row after row from the top: every byte belongs to one channel of one pixel.
pub proof fn law_pixels_lie_row_after_row(img: RgbaImage, i: int)
    requires
        img.wf(),
        0 <= i < img.data@.len(),
    ensures
        img.data@.len() == 4 * (img.width * img.height),
        ({
            let n = i / 4;
            let w = img.width as int;
            &&& 0 <= n % w < w
            &&& 0 <= n / w < img.height
            &&& img.data@[i] == img.at(n % w, n / w, i % 4)
        }),
{
    let w = img.width as int;
    let h = img.height as int;
    assert(0 < w) by (nonlinear_arith)
        requires
            0 <= i < w * h * 4,
            0 <= w,
            0 <= h,
    ;
    lemma_decode(w, h, i);
}

/// Two images of one size hold the same pixels exactly where every channel of every pixel
/// is the same.
pub proof fn law_same_pixels_are_the_same_everywhere(a: RgbaImage, b: RgbaImage)
    requires
        a.wf(),
        b.wf(),
        a.width == b.width,
        a.height == b.height,
    ensures
        a.same_pixels(b) <==> (forall|x: int, y: int, c: int|
            0 <= x < a.width && 0 <= y < a.height && 0 <= c < 4 ==> #[trigger] a.at(x, y, c)
                == b.at(x, y, c)),
{
    if forall|x: int, y: int, c: int|
        0 <= x < a.width && 0 <= y < a.height && 0 <= c < 4 ==> #[trigger] a.at(x, y, c) == b.at(
            x,
            y,
            c,
        ) {
        assert forall|i: int| 0 <= i < a.data@.len() implies a.data@[i] == b.data@[i] by {
            law_pixels_lie_row_after_row(a, i);
            law_pixels_lie_row_after_row(b, i);
        }
        assert(a.data@ =~= b.data@);
    }
}

/// A blended channel is the weighted mean of the two, rounded down: the colour itself where
/// it is opaque, what lay under it where it is clear, and never outside the two.
pub proof fn law_blend_is_the_weighted_mean(under: u8, over: u8, alpha: int)
    requires
        0 <= alpha <= 255,
    ensures
        255 * blended(under, over, alpha) <= alpha * over + (255 - alpha) * under,
        alpha * over + (255 - alpha) * under < 255 * blended(under, over, alpha) + 255,
        alpha == 255 ==> blended(under, over, alpha) == over,
        alpha == 0 ==> blended(under, over, alpha) == under,
{
    assert(over * alpha == alpha * over && under * (255 - alpha) == (255 - alpha) * under)
        by (nonlinear_arith);
    if alpha == 255 {
        assert(over * alpha == 255 * over && under * (255 - alpha) == 0) by (nonlinear_arith)
            requires
                alpha == 255,
        ;
    } else if alpha == 0 {
        assert(over * alpha == 0 && under * (255 - alpha) == 255 * under) by (nonlinear_arith)
            requires
                alpha == 0,
        ;
    }
}

} // verus!
