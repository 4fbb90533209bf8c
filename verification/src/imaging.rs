//! Cutting and scaling images.

use vstd::prelude::*;

use crate::overlay::Rect;
use crate::raster::{byte_len, RgbaImage};

verus! {

/// The longest side that an image may have to be scaled.
pub const MAX_SIDE: u32 = 0x20_0000;

/// Where a cut starts on an axis that is `limit` long.
pub open spec fn cut_start(at: u32, limit: u32) -> int {
    if at < limit {
        at as int
    } else {
        limit as int
    }
}

/// How much of a cut of `len` from `at` lies on an axis that is `limit` long.
pub open spec fn cut_len(at: u32, len: u32, limit: u32) -> int {
    let left = limit - cut_start(at, limit);
    if len < left {
        len as int
    } else {
        left
    }
}

/// `image::imageops::crop_imm` and `SubImage::to_image`: a copy of the part of the image
/// that the rectangle covers. What lies outside the image is left out.
#[verifier::external_body]
pub(crate) fn crop(img: &RgbaImage, rect: Rect) -> (r: RgbaImage)
    requires
        img.wf(),
        img.height >= 1,
    ensures
        r.wf(),
        r.width == cut_len(rect.x, rect.width, img.width),
        r.height == cut_len(rect.y, rect.height, img.height),
        forall|x: int, y: int, c: int|
            0 <= x < r.width && 0 <= y < r.height && 0 <= c < 4 ==> #[trigger] r.at(x, y, c)
                == img.at(
                cut_start(rect.x, img.width) + x,
                cut_start(rect.y, img.height) + y,
                c,
            ),
{
    let whole: image::RgbaImage = image::RgbaImage::from_raw(
        img.width,
        img.height,
        img.data.clone(),
    ).unwrap();
    let part: image::RgbaImage = image::imageops::crop_imm(
        &whole,
        rect.x,
        rect.y,
        rect.width,
        rect.height,
    ).to_image();
    RgbaImage { width: part.width(), height: part.height(), data: part.into_raw() }
}

/// The pixels of an image of `w` by `h` scaled to `tw` by `th`.
pub uninterp spec fn scaled(data: Seq<u8>, w: u32, h: u32, tw: u32, th: u32) -> Seq<u8>;

/// `image::imageops::resize` with the triangle filter: the image resampled to exactly the
/// dimensions given, its pixels fixed by the image and those dimensions. Up to the longest
/// side its single-precision arithmetic finds for every pixel a source pixel less than one
/// pixel away; where it finds none it divides by zero and panics. The other bounds are those
/// of the buffers that it allocates.
#[verifier::external_body]
pub(crate) fn resample(img: &RgbaImage, tw: u32, th: u32) -> (r: RgbaImage)
    requires
        img.wf(),
        img.width <= MAX_SIDE,
        img.height <= MAX_SIDE,
        1 <= tw <= MAX_SIDE,
        1 <= th <= MAX_SIDE,
        4 * byte_len(img.width as int, th as int) <= isize::MAX,
        byte_len(tw as int, th as int) <= isize::MAX,
    ensures
        r.wf(),
        r.width == tw,
        r.height == th,
        r.data@ == scaled(img.data@, img.width, img.height, tw, th),
{
    let whole: image::RgbaImage = image::RgbaImage::from_raw(
        img.width,
        img.height,
        img.data.clone(),
    ).unwrap();
    let out: image::RgbaImage = image::imageops::resize(
        &whole,
        tw,
        th,
        image::imageops::FilterType::Triangle,
    );
    RgbaImage { width: tw, height: th, data: out.into_raw() }
}

/// The part of a grab that was selected.
pub fn cropped(grab: &RgbaImage, rect: Rect) -> (r: RgbaImage)
    requires
        grab.wf(),
    ensures
        r.wf(),
        r.width == cut_len(rect.x, rect.width, grab.width),
        r.height == cut_len(rect.y, rect.height, grab.height),
        forall|x: int, y: int, c: int|
            0 <= x < r.width && 0 <= y < r.height && 0 <= c < 4 ==> #[trigger] r.at(x, y, c)
                == grab.at(
                cut_start(rect.x, grab.width) + x,
                cut_start(rect.y, grab.height) + y,
                c,
            ),
{
    if grab.height == 0 {
        // There are no pixels to copy, however wide the rows would be.
        let x: u32 = if rect.x < grab.width {
            rect.x
        } else {
            grab.width
        };
        let left: u32 = grab.width - x;
        let width: u32 = if rect.width < left {
            rect.width
        } else {
            left
        };
        return RgbaImage { width, height: 0, data: Vec::new() };
    }
    crop(grab, rect)
}

/// At least one pixel.
pub open spec fn some_pixels(n: u32) -> u32 {
    if n == 0 {
        1
    } else {
        n
    }
}

/// The image behind a preview of `tw` by `th` physical pixels. A texture never needs to
/// exceed the preview, and a whole grab can overrun the largest texture that a GPU takes,
/// so a larger image is scaled down. One that fits is returned unchanged.
pub fn downscale_for_texture(img: &RgbaImage, tw: u32, th: u32) -> (r: RgbaImage)
    requires
        img.wf(),
        tw < img.width || th < img.height ==> ({
            &&& img.width <= MAX_SIDE
            &&& img.height <= MAX_SIDE
            &&& tw <= MAX_SIDE
            &&& th <= MAX_SIDE
            &&& 4 * byte_len(img.width as int, some_pixels(th) as int) <= isize::MAX
            &&& byte_len(some_pixels(tw) as int, some_pixels(th) as int) <= isize::MAX
        }),
    ensures
        r.wf(),
        if tw >= img.width && th >= img.height {
            r.width == img.width && r.height == img.height && r.data@ == img.data@
        } else {
            r.width == some_pixels(tw) && r.height == some_pixels(th) && r.data@ == scaled(
                img.data@,
                img.width,
                img.height,
                some_pixels(tw),
                some_pixels(th),
            )
        },
{
    if tw >= img.width && th >= img.height {
        return img.clone();
    }
    let w: u32 = if tw == 0 {
        1
    } else {
        tw
    };
    let h: u32 = if th == 0 {
        1
    } else {
        th
    };
    resample(img, w, h)
}

/// A selection that lies within the grab is cut out whole.
pub proof fn law_selection_is_cut_out_whole(rect: Rect, w: u32, h: u32)
    requires
        rect.within(w as int, h as int),
    ensures
        cut_len(rect.x, rect.width, w) == rect.width,
        cut_len(rect.y, rect.height, h) == rect.height,
        rect.width > 0 ==> cut_start(rect.x, w) == rect.x,
        rect.height > 0 ==> cut_start(rect.y, h) == rect.y,
{
}

/// A cut takes what there is of it: a pixel of the axis is taken exactly where the cut
/// reaches it, and the first pixel taken is the first of the result.
pub proof fn law_cut_takes_what_there_is(at: u32, len: u32, limit: u32, p: int)
    requires
        0 <= p < limit,
    ensures
        cut_start(at, limit) <= p < cut_start(at, limit) + cut_len(at, len, limit) <==> at <= p < at
            + len,
        0 <= cut_len(at, len, limit) <= len,
        cut_len(at, len, limit) > 0 ==> cut_start(at, limit) == at,
{
}

/// A texture has the size asked for, but at least one pixel each way.
pub proof fn law_texture_has_some_pixels(n: u32)
    ensures
        some_pixels(n) >= 1,
        n >= 1 ==> some_pixels(n) == n,
        n == 0 ==> some_pixels(n) == 1,
{
}

} // verus!
