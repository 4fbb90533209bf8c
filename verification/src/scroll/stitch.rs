//! Folding frames into one tall image as they arrive.

use vstd::prelude::*;

use super::matching::{
    band_height, best_offset, find_offset, luma_band, sad, sampled_cols, strip_height,
    to_luma, Luma, Match,
};
use crate::raster::{byte_len, rows, RgbaImage};

verus! {

/// Mean luma difference above which a pair of frames counts as unmatched.
pub const SAD_REJECT_THRESHOLD: u64 = 15;

/// Stop accumulating past this height. Bounds a capture that gets started and
/// forgotten without limiting any realistic scroll.
pub const MAX_ACC_ROWS: u32 = 20_000;

/// What a frame contributed.
#[derive(Clone, Copy, Debug, PartialEq, Eq, Structural)]
pub enum Push {
    /// New content appended, this many rows.
    Appended(u32),
    /// The view had not moved; nothing to add.
    Duplicate,
    /// No confident overlap. The frame is dropped and a gap accepted.
    Rejected,
    /// The height cap is reached; nothing further will be appended.
    Full,
}

#[derive(Clone, Copy, Debug, Default, PartialEq, Eq, Structural)]
pub struct Stats {
    pub appended: usize,
    pub duplicates: usize,
    pub rejected: usize,
    pub rows: u32,
}

/// Accumulates frames into one tall image as they arrive.
pub struct Stitcher {
    w: u32,
    h: u32,
    acc: Vec<u8>,
    rows: u32,
    prev: Luma,
    stats: Stats,
    full: bool,
}

/// What a stitcher holds.
pub struct StitchState {
    /// Width of every frame.
    pub w: u32,
    /// Height of every frame.
    pub h: u32,
    /// The accumulated pixels.
    pub acc: Seq<u8>,
    /// The accumulated height.
    pub rows: u32,
    /// Luma of the bottom band of the last frame that matched.
    pub anchor: Seq<u8>,
    pub stats: Stats,
    /// The height cap was met.
    pub full: bool,
}

impl StitchState {
    pub open spec fn wf(self) -> bool {
        &&& self.acc.len() == byte_len(self.w as int, self.rows as int)
        &&& self.anchor.len() == self.w * band_height(self.h as int)
        &&& self.h <= self.rows
        &&& self.rows == self.h || self.rows <= MAX_ACC_ROWS
        &&& self.stats.rows == self.rows
    }

    /// The state before any frame but the first.
    pub open spec fn start(first: RgbaImage) -> StitchState {
        StitchState {
            w: first.width,
            h: first.height,
            acc: first.data@,
            rows: first.height,
            anchor: luma_band(first.data@, first.width as int, first.height as int),
            stats: Stats { appended: 0, duplicates: 0, rejected: 0, rows: first.height },
            full: false,
        }
    }

    /// `frame` has the dimensions of the first frame.
    pub open spec fn fits(self, frame: RgbaImage) -> bool {
        frame.width == self.w && frame.height == self.h
    }

    /// The luma of `frame` that matching reads.
    pub open spec fn band(self, frame: RgbaImage) -> Seq<u8> {
        luma_band(frame.data@, self.w as int, self.h as int)
    }

    /// The offset at which `frame` matches the anchor best.
    pub open spec fn offset(self, frame: RgbaImage) -> nat {
        best_offset(self.anchor, self.band(frame), self.w as int, band_height(self.h as int))
    }

    /// Even at its best offset the mean difference is above the threshold.
    pub open spec fn unmatched(self, frame: RgbaImage) -> bool {
        let bh = band_height(self.h as int);
        sad(self.anchor, self.band(frame), self.w as int, bh, self.offset(frame) as int)
            > SAD_REJECT_THRESHOLD * (strip_height(bh) * sampled_cols(self.w as int))
    }

    /// The frame is counted and otherwise ignored: the old anchor stays, so that a
    /// later frame may still match the view that was last trusted.
    pub open spec fn rejected(self) -> StitchState {
        StitchState {
            stats: Stats { rejected: (self.stats.rejected + 1) as usize, ..self.stats },
            ..self
        }
    }

    /// The state after `frame`, and what the frame contributed.
    pub open spec fn step(self, frame: RgbaImage) -> (StitchState, Push) {
        if self.full {
            (self, Push::Full)
        } else if !self.fits(frame) || self.unmatched(frame) {
            (self.rejected(), Push::Rejected)
        } else {
            let moved = StitchState { anchor: self.band(frame), ..self };
            let d = self.offset(frame);
            if d == 0 {
                (
                    StitchState {
                        stats: Stats {
                            duplicates: (self.stats.duplicates + 1) as usize,
                            ..self.stats
                        },
                        ..moved
                    },
                    Push::Duplicate,
                )
            } else if self.rows + d > MAX_ACC_ROWS {
                (StitchState { full: true, ..moved }, Push::Full)
            } else {
                (
                    StitchState {
                        acc: self.acc + rows(frame.data@, self.w as int, self.h - d, self.h as int),
                        rows: (self.rows + d) as u32,
                        stats: Stats {
                            appended: (self.stats.appended + 1) as usize,
                            rows: (self.rows + d) as u32,
                            ..self.stats
                        },
                        ..moved
                    },
                    Push::Appended(d as u32),
                )
            }
        }
    }

    /// No counter is at the end of its range.
    pub open spec fn can_count(self) -> bool {
        &&& self.stats.appended < usize::MAX
        &&& self.stats.duplicates < usize::MAX
        &&& self.stats.rejected < usize::MAX
    }
}

impl View for Stitcher {
    type V = StitchState;

    closed spec fn view(&self) -> StitchState {
        StitchState {
            w: self.w,
            h: self.h,
            acc: self.acc@,
            rows: self.rows,
            anchor: self.prev.px@,
            stats: self.stats,
            full: self.full,
        }
    }
}

impl Stitcher {
    /// The state is consistent, and the stored luma is that of a frame.
    pub closed spec fn wf(&self) -> bool {
        &&& self@.wf()
        &&& self.prev.wf()
        &&& self.prev.w == self.w
        &&& self.prev.h == band_height(self.h as int)
    }

    /// Start with the first frame of a capture.
    pub fn new(first: &RgbaImage) -> (s: Stitcher)
        requires
            first.wf(),
        ensures
            s.wf(),
            s@ == StitchState::start(*first),
    {
        let prev: Luma = to_luma(first);
        proof {
            lemma_band_len(first.width as int, first.height as int);
        }
        Stitcher {
            w: first.width,
            h: first.height,
            acc: vstd::slice::slice_to_vec(first.data.as_slice()),
            rows: first.height,
            prev,
            stats: Stats { appended: 0, duplicates: 0, rejected: 0, rows: first.height },
            full: false,
        }
    }

    /// Fold in the next frame of the capture.
    pub fn push(&mut self, frame: &RgbaImage) -> (r: Push)
        requires
            old(self).wf(),
            frame.wf(),
            old(self)@.can_count(),
            !old(self)@.full && old(self)@.fits(*frame) ==> old(self)@.h >= 1,
        ensures
            final(self).wf(),
            (final(self)@, r) == old(self)@.step(*frame),
    {
        if self.full {
            return Push::Full;
        }
        if frame.width != self.w || frame.height != self.h {
            self.stats.rejected = self.stats.rejected + 1;
            return Push::Rejected;
        }
        let next: Luma = to_luma(frame);
        let m: Match = find_offset(&self.prev, &next);
        proof {
            lemma_band_len(self.w as int, self.h as int);
            assert(m.samples <= 200 * 0x4000_0000) by {
                let cols = sampled_cols(self.w as int);
                let strip = strip_height(band_height(self.h as int));
                assert(strip * cols <= 200 * 0x4000_0000) by (nonlinear_arith)
                    requires
                        0 <= strip <= 200,
                        0 <= cols <= 0x4000_0000,
                ;
            }
        }
        if m.sad > SAD_REJECT_THRESHOLD * m.samples {
            self.stats.rejected = self.stats.rejected + 1;
            return Push::Rejected;
        }
        self.prev = next;
        if m.offset == 0 {
            self.stats.duplicates = self.stats.duplicates + 1;
            return Push::Duplicate;
        }
        let offset: u32 = m.offset as u32;
        if self.rows as u64 + offset as u64 > MAX_ACC_ROWS as u64 {
            self.full = true;
            return Push::Full;
        }
        let size: usize = frame.data.len();
        proof {
            lemma_tail_rows(self.w as int, self.h as int, m.offset as int, self.rows as int);
        }
        let tail: usize = m.offset * self.w as usize * 4;
        let fresh: &[u8] = vstd::slice::slice_subrange(frame.data.as_slice(), size - tail, size);
        let ghost before = self.acc@;
        self.acc.extend_from_slice(fresh);
        assert(self.acc@ =~= before + fresh@);
        self.rows = self.rows + offset;
        self.stats.appended = self.stats.appended + 1;
        self.stats.rows = self.rows;
        Push::Appended(offset)
    }

    /// The accumulated height.
    pub fn rows(&self) -> (r: u32)
        ensures
            r == self@.rows,
    {
        self.rows
    }

    /// What the frames pushed so far contributed.
    pub fn stats(&self) -> (r: Stats)
        ensures
            r == self@.stats,
    {
        self.stats
    }

    /// The stitched image.
    pub fn finish(self) -> (img: RgbaImage)
        requires
            self.wf(),
        ensures
            img.wf(),
            img.width == self@.w,
            img.height == self@.rows,
            img.data@ == self@.acc,
    {
        RgbaImage { width: self.w, height: self.rows, data: self.acc }
    }
}

proof fn lemma_band_len(w: int, h: int)
    requires
        0 <= w,
        0 <= h,
    ensures
        0 <= w * band_height(h),
{
    assert(0 <= w * band_height(h)) by (nonlinear_arith)
        requires
            0 <= w,
            0 <= band_height(h),
    ;
}

/// The last `d` rows of a frame are the bytes past its first `h - d` rows, and
/// adding them to `n` rows makes `n + d`.
proof fn lemma_tail_rows(w: int, h: int, d: int, n: int)
    requires
        0 <= w,
        0 <= d <= h,
    ensures
        0 <= d * w,
        0 <= d * w * 4 <= byte_len(w, h),
        byte_len(w, h) - d * w * 4 == byte_len(w, h - d),
        byte_len(w, n) + d * w * 4 == byte_len(w, n + d),
{
    assert(0 <= d * w <= w * h) by (nonlinear_arith)
        requires
            0 <= w,
            0 <= d <= h,
    ;
    assert(w * h * 4 - d * w * 4 == w * (h - d) * 4) by (nonlinear_arith);
    assert(w * n * 4 + d * w * 4 == w * (n + d) * 4) by (nonlinear_arith);
}

} // verus!
