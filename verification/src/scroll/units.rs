//! From the pixels of a grab to the logical coordinates of an output.

use vstd::prelude::*;

use crate::overlay::Rect;

verus! {

/// The value of `x` reinterpreted as a signed number of the same width.
pub open spec fn signed(x: u32) -> int {
    if x < 0x8000_0000 {
        x as int
    } else {
        x - 0x1_0000_0000
    }
}

/// Division by a positive number, rounding toward zero.
pub open spec fn div_toward_zero(a: int, s: int) -> int {
    if a >= 0 {
        a / s
    } else {
        -((-a) / s)
    }
}

/// The scale that coordinates are divided by: at least one.
pub open spec fn divisor(scale: i32) -> int {
    if scale < 1 {
        1
    } else {
        scale as int
    }
}

/// The longer of `a` and one pixel.
pub open spec fn at_least_one(a: int) -> int {
    if a < 1 {
        1
    } else {
        a
    }
}

/// A selection in logical coordinates: column, row, width and height.
pub open spec fn logical_of(rect: Rect, scale: i32) -> (int, int, int, int) {
    let s = divisor(scale);
    (
        div_toward_zero(signed(rect.x), s),
        div_toward_zero(signed(rect.y), s),
        at_least_one(div_toward_zero(signed(rect.width), s)),
        at_least_one(div_toward_zero(signed(rect.height), s)),
    )
}

fn divide(x: u32, s: u32) -> (q: i32)
    requires
        1 <= s <= i32::MAX,
    ensures
        q == div_toward_zero(signed(x), s as int),
{
    if x < 0x8000_0000 {
        let q: u32 = x / s;
        q as i32
    } else {
        let magnitude: u32 = (0x1_0000_0000u64 - x as u64) as u32;
        let q: u32 = magnitude / s;
        (0i64 - q as i64) as i32
    }
}

/// Convert a selection in physical grab pixels to the logical output
/// coordinates that a region capture expects, as `(x, y, width, height)`.
///
/// Cropping a grab works in its physical pixels; capturing a region of an output
/// works in logical ones. At scale 2 the two differ by a factor of two. Precision
/// below a logical pixel is lost: the region is captured again rather than cropped
/// out of the grab, so a rectangle that began on an odd physical pixel lands on the
/// even one below it.
pub fn physical_to_logical(rect: &Rect, scale: i32) -> (r: (i32, i32, i32, i32))
    ensures
        (r.0 as int, r.1 as int, r.2 as int, r.3 as int) == logical_of(*rect, scale),
{
    let s: u32 = if scale < 1 {
        1
    } else {
        scale as u32
    };
    let w: i32 = divide(rect.width, s);
    let h: i32 = divide(rect.height, s);
    (
        divide(rect.x, s),
        divide(rect.y, s),
        if w < 1 {
            1
        } else {
            w
        },
        if h < 1 {
            1
        } else {
            h
        },
    )
}

/// A region that lies within a grab stays within the output that the grab shows:
/// neither coordinate is negative, and the right and bottom edges do not pass the
/// output's, except for the one pixel that every region is given at least.
pub proof fn law_logical_region_stays_on_the_output(rect: Rect, scale: i32, w: u32, h: u32)
    requires
        rect.within(w as int, h as int),
        w <= i32::MAX,
        h <= i32::MAX,
    ensures
        ({
            let s = divisor(scale);
            let x = div_toward_zero(signed(rect.x), s);
            let y = div_toward_zero(signed(rect.y), s);
            &&& 0 <= x
            &&& 0 <= y
            &&& x + div_toward_zero(signed(rect.width), s) <= w as int / s
            &&& y + div_toward_zero(signed(rect.height), s) <= h as int / s
        }),
{
    let s = divisor(scale);
    lemma_sum_of_quotients(rect.x as int, rect.width as int, w as int, s);
    lemma_sum_of_quotients(rect.y as int, rect.height as int, h as int, s);
}

/// Where the scale is one or less, the two coordinate spaces coincide.
pub proof fn law_unit_scale_changes_nothing(rect: Rect, scale: i32)
    requires
        scale <= 1,
    ensures
        div_toward_zero(signed(rect.x), divisor(scale)) == signed(rect.x),
        div_toward_zero(signed(rect.width), divisor(scale)) == signed(rect.width),
{
}

proof fn lemma_sum_of_quotients(a: int, b: int, c: int, s: int)
    requires
        0 <= a,
        0 <= b,
        a + b <= c,
        1 <= s,
    ensures
        0 <= a / s,
        a / s + b / s <= c / s,
{
    assert(0 <= a / s && a / s + b / s <= c / s) by (nonlinear_arith)
        requires
            0 <= a,
            0 <= b,
            a + b <= c,
            1 <= s,
    {
        assert(s * (a / s) <= a);
        assert(s * (b / s) <= b);
        assert(c < s * (c / s) + s);
        assert(s * (a / s + b / s) == s * (a / s) + s * (b / s));
        assert(s * (a / s + b / s) < s * (c / s + 1));
    }
}

/// A selection of less than two thousand million pixels each way lands on the logical pixel
/// that its first physical pixel lies in, and is as wide and as tall in whole logical
/// pixels, but at least one. A scale below one counts as one.
pub proof fn law_selection_lands_on_its_logical_pixel(rect: Rect, scale: i32, s: int)
    requires
        rect.x <= 0x7fff_ffff,
        rect.y <= 0x7fff_ffff,
        rect.width <= 0x7fff_ffff,
        rect.height <= 0x7fff_ffff,
        scale >= 1 ==> s == scale,
        scale < 1 ==> s == 1,
    ensures
        ({
            let (x, y, w, h) = logical_of(rect, scale);
            &&& s * x <= rect.x < s * x + s
            &&& s * y <= rect.y < s * y + s
            &&& w >= 1
            &&& h >= 1
            &&& rect.width >= s ==> s * w <= rect.width < s * w + s
            &&& rect.height >= s ==> s * h <= rect.height < s * h + s
            &&& rect.width < s ==> w == 1
            &&& rect.height < s ==> h == 1
        }),
{
    lemma_quotient(rect.x as int, s);
    lemma_quotient(rect.y as int, s);
    lemma_quotient(rect.width as int, s);
    lemma_quotient(rect.height as int, s);
}

/// Larger numbers are read as the negative ones that share their bits, and are rounded
/// toward zero like all others.
pub proof fn law_large_numbers_wrap(rect: Rect, scale: i32, s: int)
    requires
        scale >= 1 ==> s == scale,
        scale < 1 ==> s == 1,
    ensures
        ({
            let (x, y, w, h) = logical_of(rect, scale);
            &&& rect.x > 0x7fff_ffff ==> x <= 0 && s * x - s < rect.x - 0x1_0000_0000 <= s * x
            &&& rect.y > 0x7fff_ffff ==> y <= 0 && s * y - s < rect.y - 0x1_0000_0000 <= s * y
            &&& rect.width > 0x7fff_ffff ==> w == 1
            &&& rect.height > 0x7fff_ffff ==> h == 1
        }),
{
    if rect.x > 0x7fff_ffff {
        lemma_quotient(0x1_0000_0000 - rect.x, s);
        lemma_negated(0x1_0000_0000 - rect.x, s);
    }
    if rect.y > 0x7fff_ffff {
        lemma_quotient(0x1_0000_0000 - rect.y, s);
        lemma_negated(0x1_0000_0000 - rect.y, s);
    }
    if rect.width > 0x7fff_ffff {
        lemma_quotient(0x1_0000_0000 - rect.width, s);
    }
    if rect.height > 0x7fff_ffff {
        lemma_quotient(0x1_0000_0000 - rect.height, s);
    }
}

proof fn lemma_negated(a: int, s: int)
    ensures
        s * (-(a / s)) == -(s * (a / s)),
{
    assert(s * (-(a / s)) == -(s * (a / s))) by (nonlinear_arith);
}

proof fn lemma_quotient(a: int, s: int)
    requires
        0 <= a,
        1 <= s,
    ensures
        s * (a / s) <= a < s * (a / s) + s,
        0 <= a / s,
        a < s ==> a / s == 0,
        a >= s ==> a / s >= 1,
{
    vstd::arithmetic::div_mod::lemma_fundamental_div_mod(a, s);
    vstd::arithmetic::div_mod::lemma_mod_bound(a, s);
    vstd::arithmetic::div_mod::lemma_div_pos_is_pos(a, s);
    let q = a / s;
    assert((a < s ==> q == 0) && (a >= s ==> q >= 1)) by (nonlinear_arith)
        requires
            s * q <= a < s * q + s,
            0 <= q,
            1 <= s,
    ;
}

} // verus!
