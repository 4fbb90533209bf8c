//! What matching says about the content of the frames.

use vstd::prelude::*;

use super::laws::{
    law_chosen_offset_is_the_first_minimum, law_revealed_rows_are_appended, viewport,
};
use super::matching::{
    band_height, best_offset, diff, luma_band, luma_of, max_offset, row_sad, sad, sampled_cols,
    strip_height, strip_sad,
};
use super::stitch::{Push, Stats, StitchState};
use crate::raster::{byte_len, channel_at, offset, rows, RgbaImage};

verus! {

/// The value in column `col` of row `row` of a band `w` wide.
pub open spec fn cell(px: Seq<u8>, w: int, row: int, col: int) -> u8 {
    px[row * w + col]
}

/// How far apart two values are.
pub open spec fn apart(a: u8, b: u8) -> int {
    if a < b {
        b - a
    } else {
        a - b
    }
}

/// The difference of row `q` of the template at offset `d`.
spec fn row_at(prev: Seq<u8>, next: Seq<u8>, w: int, h: int, d: int, q: int) -> nat {
    row_sad(
        prev,
        next,
        (h - strip_height(h) + q) * w,
        (h - strip_height(h) - d + q) * w,
        sampled_cols(w) as nat,
    )
}

proof fn lemma_row_zero(a: Seq<u8>, b: Seq<u8>, ai: int, bi: int, k: nat)
    ensures
        row_sad(a, b, ai, bi, k) == 0 <==> forall|j: int|
            0 <= j < k ==> a[ai + 4 * j] == #[trigger] b[bi + 4 * j],
    decreases k,
{
    if k > 0 {
        lemma_row_zero(a, b, ai, bi, (k - 1) as nat);
        let j = k - 1;
        assert(diff(a[ai + 4 * j], b[bi + 4 * j]) == 0 <==> a[ai + 4 * j] == b[bi + 4 * j]);
    }
}

proof fn lemma_strip_zero(prev: Seq<u8>, next: Seq<u8>, w: int, h: int, d: int, r: nat)
    ensures
        strip_sad(prev, next, w, h, d, r) == 0 <==> forall|q: int|
            0 <= q < r ==> #[trigger] row_at(prev, next, w, h, d, q) == 0,
    decreases r,
{
    if r > 0 {
        lemma_strip_zero(prev, next, w, h, d, (r - 1) as nat);
        assert(strip_sad(prev, next, w, h, d, r) == strip_sad(
            prev,
            next,
            w,
            h,
            d,
            (r - 1) as nat,
        ) + row_at(prev, next, w, h, d, r - 1));
    }
}

/// The difference at an offset is zero only where the strip really matches. The bottom
/// `strip` rows of `prev` are held against the rows of `next` that lie `d` higher, and every
/// fourth column counts, across the whole width.
pub proof fn law_difference_is_zero_only_for_equal_strips(
    prev: Seq<u8>,
    next: Seq<u8>,
    w: int,
    h: int,
    d: int,
    strip: int,
)
    requires
        0 <= w,
        1 <= h,
        strip == (if h >= 400 {
            200
        } else if h >= 2 {
            h / 2
        } else {
            1
        }),
        0 <= d <= 300,
        d + strip <= h,
    ensures
        sad(prev, next, w, h, d) == 0 <==> forall|r: int, c: int|
            0 <= r < strip && 0 <= c < w && c % 4 == 0 ==> #[trigger] cell(
                prev,
                w,
                h - strip + r,
                c,
            ) == cell(next, w, h - strip - d + r, c),
{
    assert(strip == strip_height(h));
    lemma_strip_zero(prev, next, w, h, d, strip as nat);
    let n = sampled_cols(w);
    if sad(prev, next, w, h, d) == 0 {
        assert forall|r: int, c: int| 0 <= r < strip && 0 <= c < w && c % 4 == 0 implies #[trigger] cell(
            prev,
            w,
            h - strip + r,
            c,
        ) == cell(next, w, h - strip - d + r, c) by {
            assert(row_at(prev, next, w, h, d, r) == 0);
            let ai = (h - strip + r) * w;
            let bi = (h - strip - d + r) * w;
            lemma_row_zero(prev, next, ai, bi, n as nat);
            let j = c / 4;
            assert(prev[ai + 4 * j] == next[bi + 4 * j]);
        }
    }
    if forall|r: int, c: int|
        0 <= r < strip && 0 <= c < w && c % 4 == 0 ==> #[trigger] cell(prev, w, h - strip + r, c)
            == cell(next, w, h - strip - d + r, c) {
        assert forall|q: int| 0 <= q < strip implies #[trigger] row_at(prev, next, w, h, d, q) == 0 by {
            let ai = (h - strip + q) * w;
            let bi = (h - strip - d + q) * w;
            assert forall|j: int| 0 <= j < n implies prev[ai + 4 * j] == #[trigger] next[bi + 4
                * j] by {
                assert(cell(prev, w, h - strip + q, 4 * j) == cell(
                    next,
                    w,
                    h - strip - d + q,
                    4 * j,
                ));
            }
            lemma_row_zero(prev, next, ai, bi, n as nat);
        }
    }
}

proof fn lemma_place(w: int, q: int, a: int, row: int, col: int)
    requires
        0 <= a < w,
        0 <= col < w,
        q * w + a == row * w + col,
    ensures
        q == row,
        a == col,
{
    assert(q == row) by (nonlinear_arith)
        requires
            0 <= a < w,
            0 <= col < w,
            q * w + a == row * w + col,
    ;
}

proof fn lemma_row_update(
    a: Seq<u8>,
    b: Seq<u8>,
    w: int,
    ai: int,
    q: int,
    row: int,
    col: int,
    v: u8,
    k: nat,
)
    requires
        0 <= col < w,
        0 <= row * w + col < b.len(),
        0 <= q * w,
        q * w + w <= b.len(),
        k <= sampled_cols(w),
    ensures
        row_sad(a, b.update(row * w + col, v), ai, q * w, k) == row_sad(a, b, ai, q * w, k) + (if q
            == row && col % 4 == 0 && col < 4 * k {
            apart(a[ai + col], v) - apart(a[ai + col], b[row * w + col])
        } else {
            0
        }),
    decreases k,
{
    if k > 0 {
        lemma_row_update(a, b, w, ai, q, row, col, v, (k - 1) as nat);
        let j = 4 * (k - 1);
        let i = row * w + col;
        assert(j < w);
        if q * w + j == i {
            lemma_place(w, q, j, row, col);
        } else {
            assert(b.update(i, v)[q * w + j] == b[q * w + j]);
            if q == row {
                assert(j != col);
            }
        }
    }
}

proof fn lemma_strip_update(
    prev: Seq<u8>,
    next: Seq<u8>,
    w: int,
    h: int,
    d: int,
    row: int,
    col: int,
    v: u8,
    r: nat,
)
    requires
        0 <= col < w,
        0 <= row * w + col < next.len(),
        next.len() == w * h,
        0 <= d,
        d + strip_height(h) <= h,
        r <= strip_height(h),
    ensures
        ({
            let top = h - strip_height(h) - d;
            strip_sad(prev, next.update(row * w + col, v), w, h, d, r) == strip_sad(
                prev,
                next,
                w,
                h,
                d,
                r,
            ) + (if top <= row < top + r && col % 4 == 0 {
                apart(cell(prev, w, row + d, col), v) - apart(
                    cell(prev, w, row + d, col),
                    cell(next, w, row, col),
                )
            } else {
                0
            })
        }),
    decreases r,
{
    if r > 0 {
        lemma_strip_update(prev, next, w, h, d, row, col, v, (r - 1) as nat);
        let q = h - strip_height(h) - d + (r - 1);
        let ai = (h - strip_height(h) + (r - 1)) * w;
        assert(q + d == h - strip_height(h) + (r - 1));
        assert(0 <= q * w && q * w + w <= w * h) by (nonlinear_arith)
            requires
                0 <= q < h,
                0 < w,
        ;
        lemma_row_update(prev, next, w, ai, q, row, col, v, sampled_cols(w) as nat);
        assert(col % 4 == 0 ==> col < 4 * sampled_cols(w));
    }
}

/// Every compared pixel counts by how far apart its two values are, and no other pixel counts
/// at all. Changing one pixel of `next` to `v` changes the difference by just that: where it
/// lies in every fourth column of the rows that the strip is held against.
pub proof fn law_each_pixel_counts_by_its_difference(
    prev: Seq<u8>,
    next: Seq<u8>,
    w: int,
    h: int,
    d: int,
    strip: int,
    row: int,
    col: int,
    v: u8,
)
    requires
        1 <= h,
        strip == (if h >= 400 {
            200
        } else if h >= 2 {
            h / 2
        } else {
            1
        }),
        0 <= d <= 300,
        d + strip <= h,
        0 <= col < w,
        0 <= row < h,
        next.len() == w * h,
    ensures
        ({
            let changed = next.update(row * w + col, v);
            let old_way = apart(cell(prev, w, row + d, col), cell(next, w, row, col));
            let new_way = apart(cell(prev, w, row + d, col), v);
            sad(prev, changed, w, h, d) == sad(prev, next, w, h, d) + (if h - strip - d <= row < h
                - d && col % 4 == 0 {
                new_way - old_way
            } else {
                0
            })
        }),
{
    assert(0 <= row * w + col < w * h) by (nonlinear_arith)
        requires
            0 <= col < w,
            0 <= row < h,
    ;
    lemma_strip_update(prev, next, w, h, d, row, col, v, strip as nat);
}

/// Every offset up to 300 is tried at which the strip still lies within the frame, and the
/// first with the least difference is chosen.
pub proof fn law_every_offset_in_range_is_tried(
    prev: Seq<u8>,
    next: Seq<u8>,
    w: int,
    h: int,
    strip: int,
    d: int,
)
    requires
        1 <= h,
        strip == (if h >= 400 {
            200
        } else if h >= 2 {
            h / 2
        } else {
            1
        }),
        0 <= d <= 300,
        d + strip <= h,
    ensures
        ({
            let best = best_offset(prev, next, w, h) as int;
            &&& 0 <= best <= 300
            &&& best + strip <= h
            &&& sad(prev, next, w, h, best) <= sad(prev, next, w, h, d)
            &&& d < best ==> sad(prev, next, w, h, best) < sad(prev, next, w, h, d)
        }),
{
    law_chosen_offset_is_the_first_minimum(prev, next, w, h, d as nat);
}

/// The luma of a pixel is its weighted brightness, 77 parts red, 150 green and 29 blue of 256,
/// rounded down. The band holds it for the bottom 500 rows, or all where there are fewer, in
/// the order of the pixels.
pub proof fn law_luma_is_the_weighted_brightness(img: RgbaImage, x: int, y: int, band: int)
    requires
        img.wf(),
        0 <= x < img.width,
        band == (if img.height < 500 {
            img.height as int
        } else {
            500
        }),
        img.height - band <= y < img.height,
    ensures
        ({
            let px = luma_band(img.data@, img.width as int, img.height as int);
            let l = cell(px, img.width as int, y - (img.height - band), x);
            let weighted = 77 * img.at(x, y, 0) + 150 * img.at(x, y, 1) + 29 * img.at(x, y, 2);
            &&& px.len() == img.width * band
            &&& 256 * l <= weighted < 256 * l + 256
        }),
{
    let w = img.width as int;
    let h = img.height as int;
    let row = y - (h - band);
    let i = row * w + x;
    assert(0 <= i < w * band && 0 <= w * band) by (nonlinear_arith)
        requires
            i == row * w + x,
            0 <= x < w,
            0 <= row < band,
    ;
    assert(byte_len(w, h - band) + 4 * i == offset(w, x, y)) by (nonlinear_arith)
        requires
            byte_len(w, h - band) == w * (h - band) * 4,
            i == (y - (h - band)) * w + x,
            offset(w, x, y) == (y * w + x) * 4,
    ;
}

/// A frame of the capture's size is judged by its best match. It is rejected exactly where the
/// difference there is more than fifteen for each pixel compared, `cols` in each of `strip`
/// rows. Otherwise it adds as many rows as it is offset by, none where it is not, and it fills
/// the image up where they would take it past 20,000 rows.
pub proof fn law_frame_is_judged_by_its_best_match(
    s: StitchState,
    frame: RgbaImage,
    band: int,
    strip: int,
    cols: int,
    d: int,
)
    requires
        s.wf(),
        !s.full,
        s.h >= 1,
        frame.width == s.w,
        frame.height == s.h,
        band == (if s.h < 500 {
            s.h as int
        } else {
            500
        }),
        strip == (if band >= 400 {
            200
        } else if band >= 2 {
            band / 2
        } else {
            1
        }),
        s.w <= 4 * cols < s.w + 4,
        d == best_offset(
            s.anchor,
            luma_band(frame.data@, s.w as int, s.h as int),
            s.w as int,
            band,
        ),
    ensures
        ({
            let next = luma_band(frame.data@, s.w as int, s.h as int);
            let bad = sad(s.anchor, next, s.w as int, band, d) > 15 * (strip * cols);
            s.step(frame).1 == (if bad {
                Push::Rejected
            } else if d == 0 {
                Push::Duplicate
            } else if s.rows + d > 20_000 {
                Push::Full
            } else {
                Push::Appended(d as u32)
            })
        }),
{
    assert(band == band_height(s.h as int));
    assert(strip == strip_height(band));
    assert(cols == sampled_cols(s.w as int));
}

/// A frame of another size is rejected, and a full image takes no more.
pub proof fn law_unfit_frames_are_turned_away(s: StitchState, frame: RgbaImage)
    ensures
        s.full ==> s.step(frame).1 == Push::Full && s.step(frame).0 == s,
        !s.full && (frame.width != s.w || frame.height != s.h) ==> s.step(frame).1
            == Push::Rejected,
{
}

/// What each outcome leaves behind. A frame that is appended adds its own last rows below what
/// was there, pixel by pixel. A frame that matched becomes what the next one is matched
/// against, and one that was rejected does not. Each is counted under its own heading.
pub proof fn law_each_outcome_leaves_its_mark(s: StitchState, frame: RgbaImage)
    requires
        s.wf(),
        frame.wf(),
        !s.full,
        s.can_count(),
        s.fits(frame) ==> s.h >= 1,
    ensures
        ({
            let (n, push) = s.step(frame);
            let band = luma_band(frame.data@, s.w as int, s.h as int);
            &&& n.w == s.w && n.h == s.h
            &&& match push {
                Push::Appended(k) => {
                    &&& k <= s.h
                    &&& n.rows == s.rows + k
                    &&& n.acc.len() == s.acc.len() + 4 * (s.w * k)
                    &&& n.acc.take(s.acc.len() as int) == s.acc
                    &&& forall|x: int, y: int, c: int|
                        0 <= x < s.w && 0 <= y < k && 0 <= c < 4 ==> #[trigger] channel_at(
                            n.acc,
                            s.w as int,
                            x,
                            s.rows + y,
                            c,
                        ) == frame.at(x, s.h - k + y, c)
                    &&& n.anchor == band
                    &&& !n.full
                    &&& n.stats == (Stats {
                        appended: (s.stats.appended + 1) as usize,
                        duplicates: s.stats.duplicates,
                        rejected: s.stats.rejected,
                        rows: (s.rows + k) as u32,
                    })
                },
                Push::Duplicate => {
                    &&& n.acc == s.acc && n.rows == s.rows && !n.full
                    &&& n.anchor == band
                    &&& n.stats == (Stats {
                        appended: s.stats.appended,
                        duplicates: (s.stats.duplicates + 1) as usize,
                        rejected: s.stats.rejected,
                        rows: s.stats.rows,
                    })
                },
                Push::Rejected => {
                    &&& n.acc == s.acc && n.rows == s.rows && !n.full
                    &&& n.anchor == s.anchor
                    &&& n.stats == (Stats {
                        appended: s.stats.appended,
                        duplicates: s.stats.duplicates,
                        rejected: (s.stats.rejected + 1) as usize,
                        rows: s.stats.rows,
                    })
                },
                Push::Full => {
                    &&& n.acc == s.acc && n.rows == s.rows && n.stats == s.stats
                    &&& n.full
                },
            }
        }),
{
    let (n, push) = s.step(frame);
    let w = s.w as int;
    let h = s.h as int;
    if let Push::Appended(k) = push {
        law_chosen_offset_is_the_first_minimum(s.anchor, s.band(frame), w, band_height(h), 0);
        let m = s.acc.len() as int;
        assert(0 <= byte_len(w, h - k) && byte_len(w, h - k) + 4 * (w * k) == byte_len(w, h)
            && 0 <= w * k) by (nonlinear_arith)
            requires
                byte_len(w, h - k) == w * (h - k) * 4,
                byte_len(w, h) == w * h * 4,
                0 <= w,
                0 <= k <= h,
        ;
        let fresh = rows(frame.data@, w, h - k, h);
        assert(fresh.len() == 4 * (w * k));
        assert(n.acc.take(m) =~= s.acc);
        assert forall|x: int, y: int, c: int| 0 <= x < w && 0 <= y < k && 0 <= c < 4 implies #[trigger] channel_at(
            n.acc,
            w,
            x,
            s.rows + y,
            c,
        ) == frame.at(x, h - k + y, c) by {
            let i = (y * w + x) * 4 + c;
            assert(0 <= i < 4 * (w * k)) by (nonlinear_arith)
                requires
                    i == (y * w + x) * 4 + c,
                    0 <= x < w,
                    0 <= y < k,
                    0 <= c < 4,
            ;
            assert(offset(w, x, s.rows + y) + c == m + i) by (nonlinear_arith)
                requires
                    offset(w, x, s.rows + y) == ((s.rows + y) * w + x) * 4,
                    m == w * s.rows * 4,
                    i == (y * w + x) * 4 + c,
            ;
            assert(offset(w, x, h - k + y) + c == byte_len(w, h - k) + i) by (nonlinear_arith)
                requires
                    offset(w, x, h - k + y) == ((h - k + y) * w + x) * 4,
                    byte_len(w, h - k) == w * (h - k) * 4,
                    i == (y * w + x) * 4 + c,
            ;
            assert(n.acc[m + i] == fresh[i]);
        }
    }
}

/// A capture starts with its first frame, all of it, and matches the next one against that.
pub proof fn law_capture_starts_with_its_first_frame(first: RgbaImage)
    ensures
        ({
            let s = StitchState::start(first);
            &&& s.w == first.width && s.h == first.height
            &&& s.acc == first.data@ && s.rows == first.height
            &&& s.anchor == luma_band(first.data@, first.width as int, first.height as int)
            &&& s.stats == (Stats { appended: 0, duplicates: 0, rejected: 0, rows: first.height })
            &&& !s.full
        }),
{
}

/// The luma of the pixel in column `col` of row `row` of a document `w` wide.
pub open spec fn ink(doc: Seq<u8>, w: int, row: int, col: int) -> u8 {
    luma_of(
        doc[4 * (row * w + col)],
        doc[4 * (row * w + col) + 1],
        doc[4 * (row * w + col) + 2],
    )
}

/// The document tells a view that moved by `d` rows from one that moved by `e`: somewhere in
/// every fourth column, its `strip` rows above row `n` differ in luma from those `d - e` rows
/// further down.
pub open spec fn tells_apart(doc: Seq<u8>, w: int, n: int, strip: int, d: int, e: int) -> bool {
    exists|r: int, c: int|
        0 <= r < strip && 0 <= c < w && c % 4 == 0 && #[trigger] ink(doc, w, n - strip + r, c)
            != ink(doc, w, n - strip + r + (d - e), c)
}

proof fn lemma_view_cell(doc: Seq<u8>, w: int, h: int, bottom: int, row: int, col: int)
    requires
        0 <= w,
        1 <= h <= bottom,
        byte_len(w, bottom) <= doc.len(),
        0 <= row < band_height(h),
        0 <= col < w,
    ensures
        cell(luma_band(viewport(doc, w, h, bottom), w, h), w, row, col) == ink(
            doc,
            w,
            bottom - band_height(h) + row,
            col,
        ),
{
    let bh = band_height(h);
    let i = row * w + col;
    assert(0 <= i < w * bh) by (nonlinear_arith)
        requires
            i == row * w + col,
            0 <= col < w,
            0 <= row < bh,
    ;
    let at = 4 * ((bottom - bh + row) * w + col);
    assert({
        &&& 0 <= w * (bottom - h) * 4
        &&& w * (bottom - h) * 4 + (w * (h - bh) * 4 + 4 * i) == at
        &&& w * (bottom - h) * 4 + w * h * 4 == w * bottom * 4
        &&& w * (h - bh) * 4 + 4 * (w * bh) == w * h * 4
        &&& 0 <= w * (h - bh) * 4
    }) by (nonlinear_arith)
        requires
            0 <= w,
            0 <= bh <= h,
            h <= bottom,
            i == row * w + col,
            at == 4 * ((bottom - bh + row) * w + col),
    ;
}

/// A scroll of a document appends exactly the rows that it reveals. Where the image so far is
/// the top of the document and ends where the last view ended, and the next frame shows the
/// document `d` rows further, with the strip of the last view still in it, the frame adds
/// those `d` rows, unless the document repeats itself: for every smaller move there has to
/// be a pixel in every fourth column that tells it from this one. Margins and other columns
/// may be blank.
pub proof fn law_scroll_appends_what_it_reveals(
    s: StitchState,
    frame: RgbaImage,
    doc: Seq<u8>,
    d: u32,
    band: int,
    strip: int,
)
    requires
        s.wf(),
        frame.wf(),
        !s.full,
        s.h >= 1,
        frame.width == s.w,
        frame.height == s.h,
        band == (if s.h < 500 {
            s.h as int
        } else {
            500
        }),
        strip == (if band >= 400 {
            200
        } else if band >= 2 {
            band / 2
        } else {
            1
        }),
        1 <= d <= 300,
        d + strip <= band,
        s.rows + d <= 20_000,
        4 * (s.w * (s.rows + d)) <= doc.len(),
        s.acc == doc.subrange(0, 4 * (s.w * s.rows)),
        s.anchor == luma_band(
            doc.subrange(4 * (s.w * (s.rows - s.h)), 4 * (s.w * s.rows)),
            s.w as int,
            s.h as int,
        ),
        frame.data@ == doc.subrange(4 * (s.w * (s.rows - s.h + d)), 4 * (s.w * (s.rows + d))),
        forall|e: int|
            0 <= e < d ==> #[trigger] tells_apart(
                doc,
                s.w as int,
                s.rows as int,
                strip,
                d as int,
                e,
            ),
    ensures
        s.step(frame).1 == Push::Appended(d),
        s.step(frame).0.rows == s.rows + d,
        s.step(frame).0.acc == doc.subrange(0, 4 * (s.w * (s.rows + d))),
        s.step(frame).0.anchor == luma_band(
            doc.subrange(4 * (s.w * (s.rows - s.h + d)), 4 * (s.w * (s.rows + d))),
            s.w as int,
            s.h as int,
        ),
{
    let w = s.w as int;
    let h = s.h as int;
    let n = s.rows as int;
    assert(band == band_height(h));
    assert(strip == strip_height(band));
    assert(d <= max_offset(band));
    lemma_bytes(w, 0);
    lemma_bytes(w, n);
    lemma_bytes(w, n - h);
    lemma_bytes(w, n + d);
    lemma_bytes(w, n - h + d);
    assert(byte_len(w, n) <= byte_len(w, n + d)) by (nonlinear_arith)
        requires
            byte_len(w, n) == 4 * (w * n),
            byte_len(w, n + d) == 4 * (w * (n + d)),
            0 <= w,
            0 <= d,
    ;
    assert(n + d - h == n - h + d);
    let next = s.band(frame);
    assert forall|e: int| 0 <= e < d implies #[trigger] sad(s.anchor, next, w, band, e) > 0 by {
        assert(tells_apart(doc, w, n, strip, d as int, e));
        let (r, c) = choose|r: int, c: int|
            0 <= r < strip && 0 <= c < w && c % 4 == 0 && #[trigger] ink(doc, w, n - strip + r, c)
                != ink(doc, w, n - strip + r + (d - e), c);
        lemma_view_cell(doc, w, h, n, band - strip + r, c);
        lemma_view_cell(doc, w, h, n + d, band - strip - e + r, c);
        assert(n - band + (band - strip + r) == n - strip + r);
        assert(n + d - band + (band - strip - e + r) == n - strip + r + (d - e));
        law_difference_is_zero_only_for_equal_strips(s.anchor, next, w, band, e, strip);
        assert(cell(s.anchor, w, band - strip + r, c) != cell(next, w, band - strip - e + r, c));
    }
    law_revealed_rows_are_appended(s, frame, doc, d);
}

proof fn lemma_bytes(w: int, n: int)
    ensures
        byte_len(w, n) == 4 * (w * n),
        w * 0 == 0,
{
}

} // verus!
