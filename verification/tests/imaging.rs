use frame::imaging::{cropped, downscale_for_texture};
use frame::overlay::Rect;
use frame::raster::RgbaImage;

/// Each pixel says where it is.
fn grid(w: u32, h: u32) -> RgbaImage {
    let data = (0..h).flat_map(|y| (0..w).flat_map(move |x| [x as u8, y as u8, 9, 255])).collect();
    RgbaImage::from_raw(w, h, data).expect("buffer matches its dimensions")
}

#[test]
fn a_crop_is_the_part_of_the_grab() {
    let part = cropped(&grid(5, 4), Rect { x: 1, y: 2, width: 3, height: 1 });
    assert_eq!((part.width, part.height), (3, 1));
    assert_eq!(part.data, vec![1, 2, 9, 255, 2, 2, 9, 255, 3, 2, 9, 255]);
}

#[test]
fn a_crop_is_cut_off_at_the_edges() {
    let part = cropped(&grid(5, 4), Rect { x: 3, y: 3, width: 10, height: 10 });
    assert_eq!((part.width, part.height), (2, 1));
    assert_eq!(part.data, vec![3, 3, 9, 255, 4, 3, 9, 255]);
    let none = cropped(&grid(5, 4), Rect { x: 9, y: 0, width: 2, height: 2 });
    assert_eq!((none.width, none.height), (0, 2));
    assert!(none.data.is_empty());
}

#[test]
fn a_grab_without_rows_gives_a_crop_without_rows() {
    let grab = RgbaImage::from_raw(7, 0, vec![]).expect("no pixels");
    let part = cropped(&grab, Rect { x: 2, y: 0, width: 9, height: 3 });
    assert_eq!((part.width, part.height), (5, 0));
    assert!(part.data.is_empty());
}

#[test]
fn an_image_that_fits_its_texture_is_unchanged() {
    let img = grid(5, 4);
    assert_eq!(downscale_for_texture(&img, 5, 4), img);
    assert_eq!(downscale_for_texture(&img, 50, 40), img);
}

#[test]
fn a_larger_image_is_scaled_down() {
    let flat = RgbaImage::from_raw(4, 4, [10, 20, 30, 255].repeat(16)).expect("sixteen pixels");
    let small = downscale_for_texture(&flat, 2, 2);
    assert_eq!((small.width, small.height), (2, 2));
    assert_eq!(small.data, [10, 20, 30, 255].repeat(4));
    // Black on the left and white on the right average out in between.
    let half = RgbaImage::from_raw(2, 1, vec![0, 0, 0, 255, 255, 255, 255, 255]).expect("two");
    let one = downscale_for_texture(&half, 1, 1);
    assert_eq!((one.width, one.height), (1, 1));
    assert_eq!(one.data, vec![128, 128, 128, 255]);
}

#[test]
fn a_texture_has_at_least_one_pixel() {
    let small = downscale_for_texture(&grid(5, 4), 0, 0);
    assert_eq!((small.width, small.height), (1, 1));
}
