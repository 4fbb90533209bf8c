use frame::capture::{buffer_to_rgba, pool_size, ARGB8888};
use frame::indicator::{bar_buffer, bar_pixels, bars, Bar, BLUE, GREEN, RED, THICKNESS};

fn bar(x: i32, y: i32, width: i32, height: i32) -> Bar {
    Bar { x, y, width, height }
}

#[test]
fn the_outline_is_four_bars_outside_the_region() {
    assert_eq!(THICKNESS, 3);
    assert_eq!(
        bars(100, 50, 20, 10),
        vec![
            bar(97, 47, 26, 3),
            bar(97, 60, 26, 3),
            bar(97, 50, 3, 10),
            bar(120, 50, 3, 10),
        ]
    );
}

#[test]
fn every_pixel_around_the_region_is_covered_and_none_within() {
    let all = bars(10, 20, 5, 4);
    for py in 0..40 {
        for px in 0..40 {
            let covered = all.iter().any(|b| {
                b.x <= px && px < b.x + b.width && b.y <= py && py < b.y + b.height
            });
            let within = (10..15).contains(&px) && (20..24).contains(&py);
            let around = (7..18).contains(&px) && (17..27).contains(&py);
            assert_eq!(covered, around && !within, "{px} {py}");
        }
    }
}

#[test]
fn bars_are_cut_at_the_edge_of_the_screen() {
    assert_eq!(
        bars(1, 2, 5, 4),
        vec![bar(0, 0, 9, 2), bar(0, 6, 9, 3), bar(0, 2, 1, 4), bar(6, 2, 3, 4)]
    );
    // Nothing is left of the bars above and beside a region in the corner.
    assert_eq!(bars(0, 0, 10, 10), vec![bar(0, 10, 13, 3), bar(10, 0, 3, 10)]);
}

#[test]
fn no_bar_lies_over_the_region_wherever_it_is() {
    for y in 0..5 {
        for x in 0..5 {
            let all = bars(x, y, 6, 7);
            for py in 0..20 {
                for px in 0..20 {
                    let covered = all.iter().any(|b| {
                        b.x <= px && px < b.x + b.width && b.y <= py && py < b.y + b.height
                    });
                    let within = (x..x + 6).contains(&px) && (y..y + 7).contains(&py);
                    let around = (x - 3..x + 9).contains(&px) && (y - 3..y + 10).contains(&py);
                    assert_eq!(covered, around && !within, "{x} {y} {px} {py}");
                }
            }
        }
    }
}

#[test]
fn bars_without_extent_are_left_out() {
    assert_eq!(bars(10, 10, 5, 0), vec![bar(7, 7, 11, 3), bar(7, 10, 11, 3)]);
    assert_eq!(bars(10, 10, -6, 4), vec![bar(7, 10, 3, 4), bar(4, 10, 3, 4)]);
}

#[test]
fn a_bar_is_drawn_at_the_outputs_scale() {
    let spec = bar_buffer(26, 3, 2);
    assert_eq!((spec.format, spec.width, spec.height, spec.stride), (ARGB8888, 52, 6, 208));
    let unscaled = bar_buffer(26, 3, 0);
    assert_eq!((unscaled.width, unscaled.height, unscaled.stride), (26, 3, 104));
}

#[test]
fn a_bar_is_one_opaque_colour() {
    let spec = bar_buffer(2, 3, 1);
    let bytes = bar_pixels(pool_size(spec));
    assert_eq!(bytes.len(), 24);
    assert_eq!(&bytes[..4], &[0x92, 0x6f, 0xeb, 255]);
    let img = buffer_to_rgba(&bytes, spec, false);
    assert!(img.data.chunks(4).all(|px| px == [RED, GREEN, BLUE, 255]));
}
