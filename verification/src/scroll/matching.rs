//! Scrolling capture: match consecutive frames by the sum of absolute luma
//! differences and fold each one into a growing image as it arrives.

use vstd::prelude::*;

use crate::raster::{byte_len, RgbaImage};

verus! {

/// Bottom-strip height used as the match template.
pub const STRIP_MAX: usize = 200;

/// Subsample columns for speed.
pub const COL_STEP: usize = 4;

/// Real scroll runs 33 to 66 pixels a frame at 30 fps, so searching further is
/// waste.
pub const MAX_SEARCH_OFFSET: usize = 300;

/// Matching never reads above this many rows from the frame bottom, so only
/// that band is converted to luma.
pub const BAND_ROWS: usize = 500;

/// The bottom band of a frame, as single-channel luma.
pub struct Luma {
    pub w: usize,
    pub h: usize,
    pub px: Vec<u8>,
}

impl Luma {
    pub open spec fn wf(&self) -> bool {
        &&& self.w <= u32::MAX
        &&& self.px@.len() == self.w * self.h
    }
}

/// The integer approximation of 0.299 R + 0.587 G + 0.114 B.
pub open spec fn luma_of(r: u8, g: u8, b: u8) -> u8 {
    ((77 * r + 150 * g + 29 * b) / 256) as u8
}

/// How many bottom rows of a frame `h` rows tall are converted.
pub open spec fn band_height(h: int) -> int {
    if h < BAND_ROWS {
        h
    } else {
        BAND_ROWS as int
    }
}

/// The luma of the bottom band of a `w` by `h` image, row after row.
pub open spec fn luma_band(data: Seq<u8>, w: int, h: int) -> Seq<u8> {
    let start = byte_len(w, h - band_height(h));
    Seq::new(
        (w * band_height(h)) as nat,
        |i: int| luma_of(data[start + 4 * i], data[start + 4 * i + 1], data[start + 4 * i + 2]),
    )
}

/// Convert the bottom band of `img` to luma.
pub fn to_luma(img: &RgbaImage) -> (l: Luma)
    requires
        img.wf(),
    ensures
        l.wf(),
        l.w == img.width,
        l.h == band_height(img.height as int),
        l.px@ == luma_band(img.data@, img.width as int, img.height as int),
{
    let w: usize = img.width as usize;
    let full_h: usize = img.height as usize;
    let h: usize = if full_h < BAND_ROWS {
        full_h
    } else {
        BAND_ROWS
    };
    let size: usize = img.data.len();
    proof {
        lemma_band_fits(w as int, full_h as int, h as int);
    }
    let count: usize = w * h;
    let start: usize = size - count * 4;
    let mut px: Vec<u8> = Vec::with_capacity(count);
    let mut n: usize = 0;
    while n < count
        invariant
            img.wf(),
            w == img.width,
            full_h == img.height,
            h == band_height(full_h as int),
            count == w * h,
            size == img.data@.len(),
            start + count * 4 == size,
            start == byte_len(w as int, full_h - h),
            n <= count,
            px@ == luma_band(img.data@, w as int, full_h as int).subrange(0, n as int),
        decreases count - n,
    {
        let i: usize = start + n * 4;
        let r: u32 = img.data[i] as u32;
        let g: u32 = img.data[i + 1] as u32;
        let b: u32 = img.data[i + 2] as u32;
        let sum: u32 = 77 * r + 150 * g + 29 * b;
        assert(sum >> 8 == sum / 256) by (bit_vector);
        px.push((sum >> 8) as u8);
        n = n + 1;
        assert(px@ =~= luma_band(img.data@, w as int, full_h as int).subrange(0, n as int));
    }
    assert(px@ =~= luma_band(img.data@, w as int, full_h as int));
    Luma { w, h, px }
}

proof fn lemma_band_fits(w: int, full_h: int, h: int)
    requires
        0 <= w,
        0 <= h <= full_h,
    ensures
        0 <= w * h <= w * full_h,
        byte_len(w, full_h) - 4 * (w * h) == byte_len(w, full_h - h),
{
    assert(0 <= w * h <= w * full_h) by (nonlinear_arith)
        requires
            0 <= w,
            0 <= h <= full_h,
    ;
    assert(w * full_h * 4 - 4 * (w * h) == w * (full_h - h) * 4) by (nonlinear_arith);
}

/// How far apart two luma values are.
pub open spec fn diff(a: u8, b: u8) -> nat {
    if a >= b {
        (a - b) as nat
    } else {
        (b - a) as nat
    }
}

/// The summed difference of the first `k` sampled columns of two rows that start
/// at `ai` in `a` and at `bi` in `b`.
pub open spec fn row_sad(a: Seq<u8>, b: Seq<u8>, ai: int, bi: int, k: nat) -> nat
    decreases k,
{
    if k == 0 {
        0
    } else {
        row_sad(a, b, ai, bi, (k - 1) as nat) + diff(a[ai + 4 * (k - 1)], b[bi + 4 * (k - 1)])
    }
}

/// How many columns are sampled in a row `w` wide.
pub open spec fn sampled_cols(w: int) -> int {
    (w + 3) / 4
}

/// The height of the template taken from the bottom of a band `h` rows tall.
pub open spec fn strip_height(h: int) -> int {
    if h / 2 > STRIP_MAX {
        STRIP_MAX as int
    } else if h / 2 < 1 {
        1
    } else {
        h / 2
    }
}

/// The largest offset that is tried.
pub open spec fn max_offset(h: int) -> int {
    if h - strip_height(h) < MAX_SEARCH_OFFSET {
        h - strip_height(h)
    } else {
        MAX_SEARCH_OFFSET as int
    }
}

/// The summed difference of the first `r` template rows at offset `d`: the
/// bottom strip of `prev` against the rows of `next` that lie `d` higher.
pub open spec fn strip_sad(prev: Seq<u8>, next: Seq<u8>, w: int, h: int, d: int, r: nat) -> nat
    decreases r,
{
    if r == 0 {
        0
    } else {
        strip_sad(prev, next, w, h, d, (r - 1) as nat) + row_sad(
            prev,
            next,
            (h - strip_height(h) + (r - 1)) * w,
            (h - strip_height(h) - d + (r - 1)) * w,
            sampled_cols(w) as nat,
        )
    }
}

/// The summed difference of the whole template at offset `d`.
pub open spec fn sad(prev: Seq<u8>, next: Seq<u8>, w: int, h: int, d: int) -> nat {
    strip_sad(prev, next, w, h, d, strip_height(h) as nat)
}

/// Of the offsets 0 to `d`, the one with the smallest difference; the smallest
/// offset among equals.
pub open spec fn best_upto(prev: Seq<u8>, next: Seq<u8>, w: int, h: int, d: nat) -> nat
    decreases d,
{
    if d == 0 {
        0
    } else {
        let b = best_upto(prev, next, w, h, (d - 1) as nat);
        if sad(prev, next, w, h, d as int) < sad(prev, next, w, h, b as int) {
            d
        } else {
            b
        }
    }
}

/// The offset that matching settles on.
pub open spec fn best_offset(prev: Seq<u8>, next: Seq<u8>, w: int, h: int) -> nat {
    best_upto(prev, next, w, h, max_offset(h) as nat)
}

proof fn lemma_row_sad_bounds(a: Seq<u8>, b: Seq<u8>, ai: int, bi: int, j: nat, k: nat)
    requires
        j <= k,
    ensures
        row_sad(a, b, ai, bi, j) <= row_sad(a, b, ai, bi, k) <= 255 * k,
    decreases k,
{
    if j < k {
        lemma_row_sad_bounds(a, b, ai, bi, j, (k - 1) as nat);
    } else if k > 0 {
        lemma_row_sad_bounds(a, b, ai, bi, (k - 1) as nat, (k - 1) as nat);
    }
}

proof fn lemma_strip_sad_bounds(
    prev: Seq<u8>,
    next: Seq<u8>,
    w: int,
    h: int,
    d: int,
    j: nat,
    r: nat,
)
    requires
        j <= r,
        w >= 0,
    ensures
        strip_sad(prev, next, w, h, d, j) <= strip_sad(prev, next, w, h, d, r) <= r * (255
            * sampled_cols(w)),
    decreases r,
{
    if r > 0 {
        let p = (r - 1) as nat;
        lemma_row_sad_bounds(
            prev,
            next,
            (h - strip_height(h) + p) * w,
            (h - strip_height(h) - d + p) * w,
            0,
            sampled_cols(w) as nat,
        );
        lemma_strip_sad_bounds(prev, next, w, h, d, if j < r { j } else { p }, p);
        assert(r * (255 * sampled_cols(w)) == p * (255 * sampled_cols(w)) + 255 * sampled_cols(w))
            by (nonlinear_arith)
            requires
                r == p + 1,
        ;
    }
}

fn count_cols(w: usize) -> (n: usize)
    ensures
        n == sampled_cols(w as int),
{
    if w % COL_STEP == 0 {
        w / COL_STEP
    } else {
        w / COL_STEP + 1
    }
}

/// The difference at offset `d` where it is below `limit`, and some value not
/// below `limit` where it is not: summing stops once the limit is met.
fn sad_below(prev: &Luma, next: &Luma, strip_h: usize, d: usize, limit: u64) -> (s: u64)
    requires
        prev.wf(),
        next.wf(),
        prev.w == next.w,
        prev.h == next.h,
        prev.h >= 1,
        strip_h == strip_height(prev.h as int),
        d <= max_offset(prev.h as int),
    ensures
        ({
            let full = sad(prev.px@, next.px@, prev.w as int, prev.h as int, d as int);
            if full < limit {
                s == full
            } else {
                s >= limit
            }
        }),
{
    let w: usize = prev.w;
    let h: usize = prev.h;
    let n_cols: usize = count_cols(w);
    let size: usize = prev.px.len();
    let ghost cols = sampled_cols(w as int);
    let mut sum: u64 = 0;
    let mut r: usize = 0;
    while r < strip_h
        invariant
            prev.wf(),
            next.wf(),
            w == prev.w == next.w,
            h == prev.h == next.h,
            h >= 1,
            strip_h == strip_height(h as int),
            d <= max_offset(h as int),
            cols == sampled_cols(w as int),
            n_cols == cols,
            size == prev.px@.len() == next.px@.len(),
            r <= strip_h,
            sum == strip_sad(prev.px@, next.px@, w as int, h as int, d as int, r as nat),
        decreases strip_h - r,
    {
        proof {
            lemma_row_in_band(w as int, h as int, h - strip_h + r);
            lemma_row_in_band(w as int, h as int, h - strip_h - d + r);
        }
        let prow: usize = (h - strip_h + r) * w;
        let nrow: usize = (h - strip_h - d + r) * w;
        let ghost before = sum;
        proof {
            lemma_strip_sad_bounds(prev.px@, next.px@, w as int, h as int, d as int, 0, r as nat);
            assert(r * (255 * cols) <= 200 * (255 * 0x4000_0000)) by (nonlinear_arith)
                requires
                    0 <= r <= 200,
                    0 <= cols <= 0x4000_0000,
            ;
        }
        let mut k: usize = 0;
        while k < n_cols
            invariant
                prev.wf(),
                next.wf(),
                w == prev.w == next.w,
                h == prev.h == next.h,
                w <= u32::MAX,
                strip_h == strip_height(h as int),
                r < strip_h,
                cols == sampled_cols(w as int),
                prow == (h - strip_h + r) * w,
                nrow == (h - strip_h - d + r) * w,
                n_cols == cols,
                size == prev.px@.len() == next.px@.len(),
                prow + w <= size,
                nrow + w <= size,
                k <= cols,
                before <= 200 * (255 * 0x4000_0000),
                before == strip_sad(prev.px@, next.px@, w as int, h as int, d as int, r as nat),
                sum == before + row_sad(prev.px@, next.px@, prow as int, nrow as int, k as nat),
            decreases n_cols - k,
        {
            let c: usize = k * COL_STEP;
            let p: u8 = prev.px[prow + c];
            let q: u8 = next.px[nrow + c];
            let step: u8 = if p >= q {
                p - q
            } else {
                q - p
            };
            proof {
                lemma_row_sad_bounds(prev.px@, next.px@, prow as int, nrow as int, 0, k as nat);
            }
            k = k + 1;
            sum = sum + step as u64;
            if sum >= limit {
                proof {
                    lemma_row_sad_bounds(
                        prev.px@,
                        next.px@,
                        prow as int,
                        nrow as int,
                        k as nat,
                        cols as nat,
                    );
                    lemma_strip_sad_bounds(
                        prev.px@,
                        next.px@,
                        w as int,
                        h as int,
                        d as int,
                        (r + 1) as nat,
                        strip_h as nat,
                    );
                }
                return sum;
            }
        }
        r = r + 1;
    }
    sum
}

proof fn lemma_row_in_band(w: int, h: int, r: int)
    requires
        0 <= w,
        0 <= r < h,
    ensures
        0 <= r * w,
        r * w + w <= w * h,
{
    assert(0 <= r * w && r * w + w <= w * h) by (nonlinear_arith)
        requires
            0 <= w,
            0 <= r < h,
    ;
}

/// Result of matching one frame's content against the bottom strip of the last.
#[derive(Clone, Copy, Debug, PartialEq, Eq)]
pub struct Match {
    /// Pixels the content scrolled up between the two frames.
    pub offset: usize,
    /// Summed luma difference at that offset.
    pub sad: u64,
    /// How many pixels were compared; `sad / samples` is the mean difference.
    pub samples: u64,
}

/// Find how far content scrolled between `prev` and `next` by sliding the bottom
/// strip of `prev` upward over `next` and minimising the summed difference.
/// Forward scroll only.
pub fn find_offset(prev: &Luma, next: &Luma) -> (m: Match)
    requires
        prev.wf(),
        next.wf(),
        prev.w == next.w,
        prev.h == next.h,
        prev.h >= 1,
    ensures
        m.offset == best_offset(prev.px@, next.px@, prev.w as int, prev.h as int),
        m.sad == sad(prev.px@, next.px@, prev.w as int, prev.h as int, m.offset as int),
        m.samples == strip_height(prev.h as int) * sampled_cols(prev.w as int),
        m.offset <= max_offset(prev.h as int),
{
    let w: usize = prev.w;
    let h: usize = prev.h;
    let half: usize = h / 2;
    let strip_h: usize = if half > STRIP_MAX {
        STRIP_MAX
    } else if half < 1 {
        1
    } else {
        half
    };
    let room: usize = h - strip_h;
    let last: usize = if room < MAX_SEARCH_OFFSET {
        room
    } else {
        MAX_SEARCH_OFFSET
    };
    let ghost cols = sampled_cols(w as int);
    proof {
        lemma_strip_sad_bounds(prev.px@, next.px@, w as int, h as int, 0, 0, strip_h as nat);
        assert(strip_h * (255 * cols) <= 200 * (255 * 0x4000_0000)) by (nonlinear_arith)
            requires
                0 <= strip_h <= 200,
                0 <= cols <= 0x4000_0000,
        ;
        assert(0 <= strip_h * cols <= 200 * 0x4000_0000) by (nonlinear_arith)
            requires
                0 <= strip_h <= 200,
                0 <= cols <= 0x4000_0000,
        ;
    }
    let mut best_sad: u64 = sad_below(prev, next, strip_h, 0, u64::MAX);
    let mut best_d: usize = 0;
    let mut d: usize = 0;
    while d < last
        invariant
            prev.wf(),
            next.wf(),
            w == prev.w == next.w,
            h == prev.h == next.h,
            h >= 1,
            strip_h == strip_height(h as int),
            last == max_offset(h as int),
            d <= last,
            best_d <= d,
            best_d == best_upto(prev.px@, next.px@, w as int, h as int, d as nat),
            best_sad == sad(prev.px@, next.px@, w as int, h as int, best_d as int),
        decreases last - d,
    {
        d = d + 1;
        let s: u64 = sad_below(prev, next, strip_h, d, best_sad);
        if s < best_sad {
            best_sad = s;
            best_d = d;
        }
    }
    let n_cols: usize = count_cols(w);
    Match { offset: best_d, sad: best_sad, samples: strip_h as u64 * n_cols as u64 }
}

} // verus!
