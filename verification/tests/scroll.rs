use frame::overlay::Rect;
use frame::raster::RgbaImage;
use frame::scroll::stitch::MAX_ACC_ROWS;
use frame::scroll::{find_offset, physical_to_logical, to_luma, Match, Push, Stitcher};

/// Mean luma difference per compared pixel.
fn mean_sad(m: &Match) -> f64 {
    m.sad as f64 / m.samples as f64
}

fn from_image(img: image::RgbaImage) -> RgbaImage {
    let (w, h) = (img.width(), img.height());
    RgbaImage::from_raw(w, h, img.into_raw()).expect("buffer matches its dimensions")
}

/// A tall synthetic document with per-row texture and no short repeat, so
/// matching has something unambiguous to lock onto.
fn document(w: u32, h: u32) -> image::RgbaImage {
    image::RgbaImage::from_fn(w, h, |x, y| {
        let v = ((y.wrapping_mul(2_654_435_761) ^ x.wrapping_mul(40_503)) >> 16) as u8;
        image::Rgba([v, v.wrapping_mul(3), v.wrapping_add(70), 255])
    })
}

/// The window a viewport would show with the document scrolled to `top`.
fn viewport(doc: &image::RgbaImage, top: u32, h: u32) -> RgbaImage {
    from_image(image::imageops::crop_imm(doc, 0, top, doc.width(), h).to_image())
}

#[test]
fn find_offset_recovers_a_known_scroll() {
    let doc = document(64, 2000);
    let a = to_luma(&viewport(&doc, 0, 600));
    let b = to_luma(&viewport(&doc, 45, 600));
    let m = find_offset(&a, &b);
    assert_eq!(m.offset, 45, "recovered offset (sad {:.1})", mean_sad(&m));
    assert!(mean_sad(&m) < 15.0);
}

#[test]
fn a_static_view_yields_zero_offset() {
    let doc = document(64, 1200);
    let v = viewport(&doc, 0, 600);
    let m = find_offset(&to_luma(&v), &to_luma(&v));
    assert_eq!(m.offset, 0);
    assert_eq!(mean_sad(&m), 0.0);
}

#[test]
fn the_stitcher_appends_exactly_the_revealed_rows() {
    let doc = document(64, 2000);
    let vh = 600;
    let mut s = Stitcher::new(&viewport(&doc, 0, vh));
    assert_eq!(s.push(&viewport(&doc, 40, vh)), Push::Appended(40));
    assert_eq!(s.push(&viewport(&doc, 80, vh)), Push::Appended(40));
    assert_eq!(s.rows(), vh + 80);

    let out = s.finish();
    assert_eq!(out.width, 64);
    assert_eq!(out.height, vh + 80);
}

#[test]
fn a_duplicate_frame_adds_no_rows() {
    let doc = document(64, 1200);
    let v = viewport(&doc, 0, 600);
    let mut s = Stitcher::new(&v);
    assert_eq!(s.push(&v), Push::Duplicate);
    assert_eq!(s.rows(), 600);
    assert_eq!(s.stats().duplicates, 1);
}

#[test]
fn an_unmatched_frame_is_rejected_and_keeps_the_anchor() {
    let doc = document(64, 1200);
    let mut s = Stitcher::new(&viewport(&doc, 0, 600));

    // Flat grey shares no structure with the textured document, so no offset
    // can score anywhere near the threshold.
    let alien = from_image(image::RgbaImage::from_pixel(
        64,
        600,
        image::Rgba([128, 128, 128, 255]),
    ));
    assert_eq!(s.push(&alien), Push::Rejected);
    assert_eq!(s.rows(), 600, "a rejected frame contributes nothing");

    // And the anchor was held, so the next good frame still matches the view
    // from before the reject rather than the garbage in between.
    assert_eq!(s.push(&viewport(&doc, 40, 600)), Push::Appended(40));
    assert_eq!(s.stats().rejected, 1);
}

#[test]
fn a_resized_frame_is_rejected_rather_than_matched() {
    let doc = document(64, 1200);
    let mut s = Stitcher::new(&viewport(&doc, 0, 600));
    let narrow = from_image(document(48, 600));
    assert_eq!(s.push(&narrow), Push::Rejected);
    assert_eq!(s.rows(), 600);
}

#[test]
fn the_height_cap_stops_accumulation() {
    // Small frames, so the cap arrives after a few hundred cheap matches.
    let (w, vh, step) = (32u32, 64u32, 30u32);
    let doc = document(w, MAX_ACC_ROWS + 200);
    let mut s = Stitcher::new(&viewport(&doc, 0, vh));

    let mut top = 0;
    let mut hit_cap = false;
    while top + step + vh < doc.height() {
        top += step;
        if s.push(&viewport(&doc, top, vh)) == Push::Full {
            hit_cap = true;
            break;
        }
    }

    assert!(hit_cap, "the cap should be reached; stopped at {}", s.rows());
    assert!(s.rows() <= MAX_ACC_ROWS, "never exceeds the cap");
    // Once full it stays full, rather than resuming on the next frame.
    assert_eq!(s.push(&viewport(&doc, top + step, vh)), Push::Full);
}

#[test]
fn physical_pixels_convert_to_logical_coordinates() {
    let rect = Rect {
        x: 100,
        y: 200,
        width: 640,
        height: 480,
    };
    // Scale 1: the two spaces coincide.
    assert_eq!(physical_to_logical(&rect, 1), (100, 200, 640, 480));
    // Scale 2: halved throughout.
    assert_eq!(physical_to_logical(&rect, 2), (50, 100, 320, 240));
    // A degenerate scale must not divide by zero or produce an empty region.
    assert_eq!(physical_to_logical(&rect, 0), (100, 200, 640, 480));
}
