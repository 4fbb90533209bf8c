//! What holds of every scrolling capture.

use vstd::prelude::*;

use super::matching::{
    band_height, best_offset, best_upto, luma_band, luma_of, max_offset, row_sad, sad,
    sampled_cols, strip_height, strip_sad,
};
use super::stitch::{Push, StitchState, MAX_ACC_ROWS};
use crate::raster::{byte_len, rows, RgbaImage};

verus! {

/// `next` shows the content of `prev` scrolled up by `d` rows.
pub open spec fn scrolled(prev: Seq<u8>, next: Seq<u8>, w: int, h: int, d: int) -> bool {
    forall|i: int| 0 <= i < (h - d) * w ==> #[trigger] next[i] == prev[i + d * w]
}

proof fn lemma_equal_rows(a: Seq<u8>, b: Seq<u8>, ai: int, bi: int, k: nat)
    requires
        forall|j: int| 0 <= j < k ==> a[ai + 4 * j] == #[trigger] b[bi + 4 * j],
    ensures
        row_sad(a, b, ai, bi, k) == 0,
    decreases k,
{
    if k > 0 {
        lemma_equal_rows(a, b, ai, bi, (k - 1) as nat);
        assert(a[ai + 4 * (k - 1)] == b[bi + 4 * (k - 1)]);
    }
}

proof fn lemma_scrolled_strip(prev: Seq<u8>, next: Seq<u8>, w: int, h: int, d: int, r: nat)
    requires
        0 <= w,
        1 <= h,
        0 <= d <= max_offset(h),
        r <= strip_height(h),
        scrolled(prev, next, w, h, d),
    ensures
        strip_sad(prev, next, w, h, d, r) == 0,
    decreases r,
{
    if r > 0 {
        lemma_scrolled_strip(prev, next, w, h, d, (r - 1) as nat);
        let top = h - strip_height(h) + (r - 1);
        let ai = top * w;
        let bi = (top - d) * w;
        assert(ai == bi + d * w && 0 <= bi && bi + w <= (h - d) * w) by (nonlinear_arith)
            requires
                ai == top * w,
                bi == (top - d) * w,
                0 <= top - d,
                top < h,
                0 <= w,
        ;
        assert((h - strip_height(h) - d + (r - 1)) * w == bi);
        assert forall|j: int| 0 <= j < sampled_cols(w) implies prev[ai + 4 * j] == #[trigger] next[bi
            + 4 * j] by {
            assert(0 <= bi + 4 * j < (h - d) * w);
        }
        lemma_equal_rows(prev, next, ai, bi, sampled_cols(w) as nat);
    }
}

proof fn lemma_best_upto(prev: Seq<u8>, next: Seq<u8>, w: int, h: int, n: nat, d: nat)
    requires
        d <= n,
    ensures
        best_upto(prev, next, w, h, n) <= n,
        sad(prev, next, w, h, best_upto(prev, next, w, h, n) as int) <= sad(
            prev,
            next,
            w,
            h,
            d as int,
        ),
        d < best_upto(prev, next, w, h, n) ==> sad(
            prev,
            next,
            w,
            h,
            best_upto(prev, next, w, h, n) as int,
        ) < sad(prev, next, w, h, d as int),
    decreases n,
{
    if n > 0 {
        if d < n {
            lemma_best_upto(prev, next, w, h, (n - 1) as nat, d);
        } else {
            lemma_best_upto(prev, next, w, h, (n - 1) as nat, (n - 1) as nat);
        }
    }
}

/// The chosen offset is the smallest of those with the least difference: no
/// offset that is tried does better, and no smaller one does as well.
pub proof fn law_chosen_offset_is_the_first_minimum(
    prev: Seq<u8>,
    next: Seq<u8>,
    w: int,
    h: int,
    d: nat,
)
    requires
        1 <= h,
        d <= max_offset(h),
    ensures
        best_offset(prev, next, w, h) <= max_offset(h),
        sad(prev, next, w, h, best_offset(prev, next, w, h) as int) <= sad(
            prev,
            next,
            w,
            h,
            d as int,
        ),
        d < best_offset(prev, next, w, h) ==> sad(
            prev,
            next,
            w,
            h,
            best_offset(prev, next, w, h) as int,
        ) < sad(prev, next, w, h, d as int),
{
    lemma_best_upto(prev, next, w, h, max_offset(h) as nat, d);
}

/// Where content scrolled by `d` rows, within the range that is searched, the
/// match is perfect and the chosen offset is at most `d`; it is `d` itself unless a
/// smaller offset matches perfectly too.
pub proof fn law_known_scroll_is_recovered(prev: Seq<u8>, next: Seq<u8>, w: int, h: int, d: nat)
    requires
        0 <= w,
        1 <= h,
        d <= max_offset(h),
        scrolled(prev, next, w, h, d as int),
    ensures
        sad(prev, next, w, h, best_offset(prev, next, w, h) as int) == 0,
        best_offset(prev, next, w, h) <= d,
        (forall|e: int| 0 <= e < d ==> #[trigger] sad(prev, next, w, h, e) > 0) ==> best_offset(
            prev,
            next,
            w,
            h,
        ) == d,
{
    lemma_scrolled_strip(prev, next, w, h, d as int, strip_height(h) as nat);
    law_chosen_offset_is_the_first_minimum(prev, next, w, h, d);
}

/// A view that has not moved matches itself perfectly at offset zero.
pub proof fn law_static_view_yields_zero_offset(band: Seq<u8>, w: int, h: int)
    requires
        0 <= w,
        1 <= h,
    ensures
        best_offset(band, band, w, h) == 0,
        sad(band, band, w, h, 0) == 0,
{
    assert(scrolled(band, band, w, h, 0)) by (nonlinear_arith);
    law_known_scroll_is_recovered(band, band, w, h, 0);
}

/// The luma of a whole image, row after row.
pub open spec fn luma_full(data: Seq<u8>, w: int, h: int) -> Seq<u8> {
    Seq::new(
        (w * h) as nat,
        |i: int| luma_of(data[4 * i], data[4 * i + 1], data[4 * i + 2]),
    )
}

proof fn lemma_shifted_row(
    a: Seq<u8>,
    b: Seq<u8>,
    fa: Seq<u8>,
    fb: Seq<u8>,
    ai: int,
    bi: int,
    shift: int,
    k: nat,
)
    requires
        forall|j: int|
            0 <= j < k ==> a[ai + 4 * j] == #[trigger] fa[ai + shift + 4 * j],
        forall|j: int|
            0 <= j < k ==> b[bi + 4 * j] == #[trigger] fb[bi + shift + 4 * j],
    ensures
        row_sad(a, b, ai, bi, k) == row_sad(fa, fb, ai + shift, bi + shift, k),
    decreases k,
{
    if k > 0 {
        lemma_shifted_row(a, b, fa, fb, ai, bi, shift, (k - 1) as nat);
        assert(a[ai + 4 * (k - 1)] == fa[ai + shift + 4 * (k - 1)]);
        assert(b[bi + 4 * (k - 1)] == fb[bi + shift + 4 * (k - 1)]);
    }
}

proof fn lemma_band_strip(a: Seq<u8>, b: Seq<u8>, w: int, h: int, d: int, r: nat)
    requires
        0 <= w,
        500 <= h,
        a.len() == byte_len(w, h),
        b.len() == byte_len(w, h),
        0 <= d <= 300,
        r <= 200,
    ensures
        strip_sad(luma_band(a, w, h), luma_band(b, w, h), w, 500, d, r) == strip_sad(
            luma_full(a, w, h),
            luma_full(b, w, h),
            w,
            h,
            d,
            r,
        ),
    decreases r,
{
    if r > 0 {
        lemma_band_strip(a, b, w, h, d, (r - 1) as nat);
        let shift = (h - 500) * w;
        let ai = (300 + (r - 1)) * w;
        let bi = (300 - d + (r - 1)) * w;
        assert(ai + shift == (h - 200 + (r - 1)) * w) by (nonlinear_arith)
            requires
                ai == (300 + (r - 1)) * w,
                shift == (h - 500) * w,
        ;
        assert(bi + shift == (h - 200 - d + (r - 1)) * w) by (nonlinear_arith)
            requires
                bi == (300 - d + (r - 1)) * w,
                shift == (h - 500) * w,
        ;
        assert(0 <= bi && bi <= ai && ai + w <= w * 500 && 0 <= shift) by (nonlinear_arith)
            requires
                ai == (300 + (r - 1)) * w,
                bi == (300 - d + (r - 1)) * w,
                shift == (h - 500) * w,
                0 <= d <= 300,
                1 <= r <= 200,
                0 <= w,
                500 <= h,
        ;
        assert(shift + w * 500 == w * h) by (nonlinear_arith)
            requires
                shift == (h - 500) * w,
        ;
        assert(byte_len(w, h - 500) == 4 * shift) by (nonlinear_arith)
            requires
                shift == (h - 500) * w,
        ;
        lemma_shifted_row(
            luma_band(a, w, h),
            luma_band(b, w, h),
            luma_full(a, w, h),
            luma_full(b, w, h),
            ai,
            bi,
            shift,
            sampled_cols(w) as nat,
        );
    }
}

proof fn lemma_band_best(a: Seq<u8>, b: Seq<u8>, w: int, h: int, d: nat)
    requires
        0 <= w,
        500 <= h,
        a.len() == byte_len(w, h),
        b.len() == byte_len(w, h),
        d <= 300,
    ensures
        best_upto(luma_band(a, w, h), luma_band(b, w, h), w, 500, d) == best_upto(
            luma_full(a, w, h),
            luma_full(b, w, h),
            w,
            h,
            d,
        ),
        best_upto(luma_full(a, w, h), luma_full(b, w, h), w, h, d) <= d,
    decreases d,
{
    lemma_band_strip(a, b, w, h, d as int, 200);
    if d > 0 {
        lemma_band_best(a, b, w, h, (d - 1) as nat);
        lemma_band_strip(
            a,
            b,
            w,
            h,
            best_upto(luma_full(a, w, h), luma_full(b, w, h), w, h, (d - 1) as nat) as int,
            200,
        );
    }
}

/// Converting only the bottom band changes nothing: on frames taller than the band,
/// matching the whole frames settles on the same offset with the same difference.
pub proof fn law_band_matches_like_the_whole_frame(a: Seq<u8>, b: Seq<u8>, w: int, h: int)
    requires
        0 <= w,
        band_height(h) < h,
        a.len() == byte_len(w, h),
        b.len() == byte_len(w, h),
    ensures
        best_offset(luma_band(a, w, h), luma_band(b, w, h), w, band_height(h)) == best_offset(
            luma_full(a, w, h),
            luma_full(b, w, h),
            w,
            h,
        ),
        ({
            let d = best_offset(luma_full(a, w, h), luma_full(b, w, h), w, h) as int;
            sad(luma_band(a, w, h), luma_band(b, w, h), w, band_height(h), d) == sad(
                luma_full(a, w, h),
                luma_full(b, w, h),
                w,
                h,
                d,
            )
        }),
{
    lemma_band_best(a, b, w, h, 300);
    lemma_band_strip(
        a,
        b,
        w,
        h,
        best_offset(luma_full(a, w, h), luma_full(b, w, h), w, h) as int,
        200,
    );
}

/// Every frame leaves the state consistent; in particular the accumulated height
/// never passes the cap, unless the first frame alone did.
pub proof fn law_step_keeps_the_state_consistent(s: StitchState, frame: RgbaImage)
    requires
        s.wf(),
        frame.wf(),
        !s.full && s.fits(frame) ==> s.h >= 1,
    ensures
        s.step(frame).0.wf(),
        s.step(frame).0.w == s.w,
        s.step(frame).0.h == s.h,
        s.step(frame).0.rows == s.h || s.step(frame).0.rows <= MAX_ACC_ROWS,
{
    let w = s.w as int;
    let h = s.h as int;
    assert(0 <= w * band_height(h)) by (nonlinear_arith)
        requires
            0 <= w,
            0 <= band_height(h),
    ;
    if !s.full && s.fits(frame) {
        let d = s.offset(frame) as int;
        law_chosen_offset_is_the_first_minimum(s.anchor, s.band(frame), w, band_height(h), 0);
        assert(0 <= w * (h - d) * 4 <= w * h * 4 && w * h * 4 - w * (h - d) * 4 + w * s.rows * 4
            == w * (s.rows + d) * 4) by (nonlinear_arith)
            requires
                0 <= w,
                0 <= d <= h,
        ;
    }
}

/// What was accumulated stays: every frame leaves it as the beginning of what is
/// accumulated afterwards, and only a frame that is appended adds to it.
pub proof fn law_accumulation_only_grows(s: StitchState, frame: RgbaImage)
    requires
        s.wf(),
        frame.wf(),
        !s.full && s.fits(frame) ==> s.h >= 1,
    ensures
        s.acc.is_prefix_of(s.step(frame).0.acc),
        match s.step(frame).1 {
            Push::Appended(n) => {
                &&& 1 <= n <= 300
                &&& s.step(frame).0.rows == s.rows + n
            },
            _ => s.step(frame).0.acc == s.acc && s.step(frame).0.rows == s.rows,
        },
{
    law_step_keeps_the_state_consistent(s, frame);
    if !s.full && s.fits(frame) {
        law_chosen_offset_is_the_first_minimum(
            s.anchor,
            s.band(frame),
            s.w as int,
            band_height(s.h as int),
            0,
        );
    }
    assert(s.acc =~= s.step(frame).0.acc.subrange(0, s.acc.len() as int));
}

/// A rejected frame contributes nothing, and the anchor is held: the next frame is
/// matched against the view from before the reject.
pub proof fn law_rejected_frame_keeps_the_anchor(s: StitchState, frame: RgbaImage, later: RgbaImage)
    requires
        s.step(frame).1 == Push::Rejected,
    ensures
        s.step(frame).0 == s.rejected(),
        s.step(frame).0.step(later).1 == s.step(later).1,
        s.step(frame).0.step(later).0.acc == s.step(later).0.acc,
        s.step(frame).0.step(later).0.rows == s.step(later).0.rows,
        s.step(frame).0.step(later).0.anchor == s.step(later).0.anchor,
{
}

/// A frame of different dimensions is rejected rather than matched.
pub proof fn law_resized_frame_is_rejected(s: StitchState, frame: RgbaImage)
    requires
        !s.full,
        !s.fits(frame),
    ensures
        s.step(frame) == (s.rejected(), Push::Rejected),
{
}

/// A frame that shows the view of the anchor again adds no rows.
pub proof fn law_duplicate_frame_adds_no_rows(s: StitchState, frame: RgbaImage)
    requires
        s.wf(),
        !s.full,
        s.fits(frame),
        s.h >= 1,
        s.band(frame) == s.anchor,
    ensures
        s.step(frame).1 == Push::Duplicate,
        s.step(frame).0.acc == s.acc,
        s.step(frame).0.rows == s.rows,
        s.step(frame).0.anchor == s.anchor,
        s.step(frame).0.stats.duplicates == (s.stats.duplicates + 1) as usize,
{
    law_static_view_yields_zero_offset(s.anchor, s.w as int, band_height(s.h as int));
    let cols = sampled_cols(s.w as int);
    let strip = strip_height(band_height(s.h as int));
    assert(0 <= strip * cols) by (nonlinear_arith)
        requires
            0 <= strip,
            0 <= cols,
    ;
}

/// Once full it stays full, whatever frames follow, and nothing else changes.
pub proof fn law_full_stays_full(s: StitchState, frame: RgbaImage)
    ensures
        s.step(frame).1 == Push::Full ==> s.step(frame).0.full,
        s.full ==> s.step(frame) == (s, Push::Full),
{
}

/// Frames of one document stitch without a seam. Where the accumulated image is
/// the top of the document, and the next frame is the document scrolled `d` rows
/// further and is appended at offset `d`, then the accumulated image is again the
/// top of the document, `d` rows more of it.
pub proof fn law_stitching_is_seamless(s: StitchState, frame: RgbaImage, doc: Seq<u8>, d: u32)
    requires
        s.wf(),
        frame.wf(),
        d <= s.h,
        byte_len(s.w as int, s.rows + d) <= doc.len(),
        s.acc == rows(doc, s.w as int, 0, s.rows as int),
        frame.data@ == rows(doc, s.w as int, s.rows - s.h + d, s.rows + d),
        s.step(frame).1 == Push::Appended(d),
        1 <= d <= 300,
    ensures
        s.step(frame).0.acc == rows(doc, s.w as int, 0, s.step(frame).0.rows as int),
        s.step(frame).0.rows == s.rows + d,
{
    let w = s.w as int;
    let h = s.h as int;
    let n = s.rows as int;
    law_chosen_offset_is_the_first_minimum(s.anchor, s.band(frame), w, band_height(h), 0);
    assert(s.offset(frame) == d);
    assert(w * 0 * 4 == 0) by (nonlinear_arith);
    assert({
        &&& 0 <= w * (n - h + d) * 4
        &&& w * (n - h + d) * 4 + w * (h - d) * 4 == w * n * 4
        &&& w * (n - h + d) * 4 + w * h * 4 == w * (n + d) * 4
        &&& 0 <= w * (h - d) * 4 <= w * h * 4
        &&& 0 <= w * n * 4 <= w * (n + d) * 4
    }) by (nonlinear_arith)
        requires
            0 <= w,
            0 <= d <= h,
            h <= n,
    ;
    assert(rows(frame.data@, w, h - d, h) =~= doc.subrange(byte_len(w, n), byte_len(w, n + d)));
    assert(s.step(frame).0.acc =~= rows(doc, w, 0, n + d));
}

/// The window that a viewport `h` rows tall shows of a document scrolled so that its
/// last visible row is row `bottom - 1`.
pub open spec fn viewport(doc: Seq<u8>, w: int, h: int, bottom: int) -> Seq<u8> {
    rows(doc, w, bottom - h, bottom)
}

proof fn lemma_viewport_band(doc: Seq<u8>, w: int, h: int, bottom: int, i: int)
    requires
        0 <= w,
        0 <= h <= bottom,
        byte_len(w, bottom) <= doc.len(),
        0 <= i < w * band_height(h),
    ensures
        ({
            let at = 4 * (w * (bottom - band_height(h)) + i);
            luma_band(viewport(doc, w, h, bottom), w, h)[i] == luma_of(
                doc[at],
                doc[at + 1],
                doc[at + 2],
            )
        }),
{
    let bh = band_height(h);
    assert({
        &&& 0 <= w * (bottom - h) * 4
        &&& w * (bottom - h) * 4 + w * (h - bh) * 4 == 4 * (w * (bottom - bh))
        &&& w * (bottom - h) * 4 + w * h * 4 == w * bottom * 4
        &&& w * (h - bh) * 4 + 4 * (w * bh) == w * h * 4
        &&& 0 <= w * (h - bh) * 4
    }) by (nonlinear_arith)
        requires
            0 <= w,
            0 <= bh <= h,
            h <= bottom,
    ;
}

/// A scroll of a document appends exactly the revealed rows. Where the anchor is the
/// document's view down to the last accumulated row, and the next frame shows the
/// document `d` rows further, within the range that is searched, and no smaller
/// offset matches perfectly, the frame appends `d` rows and the accumulated image
/// is the top of the document, `d` rows more of it.
pub proof fn law_revealed_rows_are_appended(s: StitchState, frame: RgbaImage, doc: Seq<u8>, d: u32)
    requires
        s.wf(),
        frame.wf(),
        !s.full,
        s.fits(frame),
        s.h >= 1,
        1 <= d <= max_offset(band_height(s.h as int)),
        byte_len(s.w as int, s.rows + d) <= doc.len(),
        s.acc == rows(doc, s.w as int, 0, s.rows as int),
        s.anchor == luma_band(
            viewport(doc, s.w as int, s.h as int, s.rows as int),
            s.w as int,
            s.h as int,
        ),
        frame.data@ == viewport(doc, s.w as int, s.h as int, s.rows + d),
        forall|e: int|
            0 <= e < d ==> #[trigger] sad(
                s.anchor,
                s.band(frame),
                s.w as int,
                band_height(s.h as int),
                e,
            ) > 0,
        s.rows + d <= MAX_ACC_ROWS,
    ensures
        s.step(frame).1 == Push::Appended(d),
        s.step(frame).0.rows == s.rows + d,
        s.step(frame).0.acc == rows(doc, s.w as int, 0, s.rows + d),
        s.step(frame).0.anchor == luma_band(
            viewport(doc, s.w as int, s.h as int, s.rows + d),
            s.w as int,
            s.h as int,
        ),
{
    let w = s.w as int;
    let h = s.h as int;
    let n = s.rows as int;
    let bh = band_height(h);
    let next = s.band(frame);
    assert(byte_len(w, n) <= byte_len(w, n + d)) by (nonlinear_arith)
        requires
            0 <= w,
            0 <= d,
    ;
    assert forall|i: int| 0 <= i < (bh - d) * w implies #[trigger] next[i] == s.anchor[i + d * w] by {
        assert({
            &&& w * bh == (bh - d) * w + d * w
            &&& 0 <= d * w
            &&& w * (n + d - bh) + i == w * (n - bh) + (i + d * w)
        }) by (nonlinear_arith)
            requires
                0 <= w,
                0 <= d,
        ;
        lemma_viewport_band(doc, w, h, n + d, i);
        lemma_viewport_band(doc, w, h, n, i + d * w);
    }
    law_known_scroll_is_recovered(s.anchor, next, w, bh, d as nat);
    let cols = sampled_cols(w);
    let strip = strip_height(bh);
    assert(0 <= strip * cols) by (nonlinear_arith)
        requires
            0 <= strip,
            0 <= cols,
    ;
    assert(s.offset(frame) == d);
    law_stitching_is_seamless(s, frame, doc, d);
}

/// A capture of a document, frame by frame: each frame shows the document `moves[i]`
/// rows further than the one before, and is either still or moves by an offset that
/// matching can recover.
pub open spec fn capture_of(
    s: StitchState,
    frames: Seq<RgbaImage>,
    moves: Seq<u32>,
    doc: Seq<u8>,
) -> bool
    decreases frames.len(),
{
    frames.len() == moves.len() && (frames.len() == 0 || {
        let frame = frames[0];
        let d = moves[0];
        &&& frame.wf()
        &&& s.fits(frame)
        &&& byte_len(s.w as int, s.rows + d) <= doc.len()
        &&& frame.data@ == viewport(doc, s.w as int, s.h as int, s.rows + d)
        &&& d <= max_offset(band_height(s.h as int))
        &&& s.rows + d <= MAX_ACC_ROWS
        &&& forall|e: int|
            0 <= e < d ==> #[trigger] sad(
                s.anchor,
                s.band(frame),
                s.w as int,
                band_height(s.h as int),
                e,
            ) > 0
        &&& capture_of(s.step(frame).0, frames.drop_first(), moves.drop_first(), doc)
    })
}

/// The state after all of `frames`.
pub open spec fn stitched(s: StitchState, frames: Seq<RgbaImage>) -> StitchState
    decreases frames.len(),
{
    if frames.len() == 0 {
        s
    } else {
        stitched(s.step(frames[0]).0, frames.drop_first())
    }
}

/// The rows that all of `moves` reveal.
pub open spec fn revealed(moves: Seq<u32>) -> int
    decreases moves.len(),
{
    if moves.len() == 0 {
        0
    } else {
        moves[0] + revealed(moves.drop_first())
    }
}

proof fn lemma_capture(s: StitchState, frames: Seq<RgbaImage>, moves: Seq<u32>, doc: Seq<u8>)
    requires
        s.wf(),
        !s.full,
        s.h >= 1,
        s.rows <= MAX_ACC_ROWS,
        byte_len(s.w as int, s.rows as int) <= doc.len(),
        s.acc == rows(doc, s.w as int, 0, s.rows as int),
        s.anchor == luma_band(
            viewport(doc, s.w as int, s.h as int, s.rows as int),
            s.w as int,
            s.h as int,
        ),
        capture_of(s, frames, moves, doc),
    ensures
        stitched(s, frames).rows == s.rows + revealed(moves),
        stitched(s, frames).acc == rows(doc, s.w as int, 0, s.rows + revealed(moves)),
        stitched(s, frames).stats.rejected == s.stats.rejected,
    decreases frames.len(),
{
    if frames.len() > 0 {
        let frame = frames[0];
        let d = moves[0];
        law_step_keeps_the_state_consistent(s, frame);
        if d == 0 {
            law_duplicate_frame_adds_no_rows(s, frame);
        } else {
            law_revealed_rows_are_appended(s, frame, doc, d);
        }
        lemma_capture(s.step(frame).0, frames.drop_first(), moves.drop_first(), doc);
    }
}

/// A whole capture of a document is seam-free: started on the document's top and
/// fed frames of it that matching can recover, the stitched image is the top of the
/// document, as tall as the first frame and all revealed rows together, and no frame
/// was rejected.
pub proof fn law_whole_capture_is_seamless(
    first: RgbaImage,
    frames: Seq<RgbaImage>,
    moves: Seq<u32>,
    doc: Seq<u8>,
)
    requires
        first.wf(),
        1 <= first.height <= MAX_ACC_ROWS,
        byte_len(first.width as int, first.height as int) <= doc.len(),
        first.data@ == rows(doc, first.width as int, 0, first.height as int),
        capture_of(StitchState::start(first), frames, moves, doc),
    ensures
        ({
            let end = stitched(StitchState::start(first), frames);
            &&& end.rows == first.height + revealed(moves)
            &&& end.acc == rows(doc, first.width as int, 0, first.height + revealed(moves))
            &&& end.stats.rejected == 0
        }),
{
    let w = first.width as int;
    let h = first.height as int;
    assert(0 <= w * band_height(h)) by (nonlinear_arith)
        requires
            0 <= w,
            0 <= band_height(h),
    ;
    lemma_capture(StitchState::start(first), frames, moves, doc);
}

} // verus!
