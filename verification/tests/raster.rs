use frame::raster::{blend, RgbaImage};

fn flat(w: u32, h: u32, px: [u8; 4]) -> RgbaImage {
    RgbaImage::from_raw(w, h, px.repeat((w * h) as usize)).expect("buffer matches")
}

#[test]
fn a_buffer_must_fit_its_dimensions() {
    assert!(RgbaImage::from_raw(2, 1, vec![0; 8]).is_some());
    assert!(RgbaImage::from_raw(2, 1, vec![0; 7]).is_none());
    assert!(RgbaImage::from_raw(2, 2, vec![0; 8]).is_none());
}

#[test]
fn a_colour_is_laid_over_one_pixel() {
    let mut img = flat(3, 2, [100, 200, 0, 255]);
    blend(&mut img, 1, 1, [200, 100, 255, 255], 51);
    let mut expected = flat(3, 2, [100, 200, 0, 255]);
    expected.data[16..20].copy_from_slice(&[120, 180, 51, 255]);
    assert_eq!(img, expected);
}

#[test]
fn coverage_and_opacity_multiply() {
    let mut img = flat(1, 1, [0, 0, 0, 255]);
    blend(&mut img, 0, 0, [255, 255, 255, 102], 128);
    assert_eq!(img.data, vec![51, 51, 51, 255]);
    blend(&mut img, 0, 0, [9, 8, 7, 0], 255);
    assert_eq!(img.data, vec![51, 51, 51, 255]);
    blend(&mut img, 0, 0, [9, 8, 7, 255], 255);
    assert_eq!(img.data, vec![9, 8, 7, 255]);
}

#[test]
fn a_pixel_outside_the_image_is_left_out() {
    let before = flat(3, 2, [1, 2, 3, 255]);
    for (x, y) in [(-1, 0), (0, -1), (3, 0), (0, 2), (i64::MIN, 0), (0, i64::MAX)] {
        let mut img = before.clone();
        blend(&mut img, x, y, [255, 255, 255, 255], 255);
        assert_eq!(img, before, "{x} {y}");
    }
}
