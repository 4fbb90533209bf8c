use frame::globals::{capture_binding, indicator_binding, overlay_binding, Binding, Global};
use frame::overlay::paint::{dimmed, draw_border, draw_magnifier, restore_rect, stroke_rect};
use frame::overlay::select::{BTN_LEFT, KEY_ESC};
use frame::overlay::{Event, Overlay, Picker, Pos, Rect, Scene};
use frame::raster::RgbaImage;

const ROSE: [u8; 4] = [235, 188, 186, 255];
const GOLD: [u8; 4] = [246, 193, 119, 255];

fn rect(x: u32, y: u32, width: u32, height: u32) -> Rect {
    Rect { x, y, width, height }
}

fn flat(w: u32, h: u32, px: [u8; 4]) -> RgbaImage {
    RgbaImage::from_raw(w, h, px.repeat((w * h) as usize)).expect("buffer matches")
}

/// Each pixel says where it is.
fn grid(w: u32, h: u32) -> RgbaImage {
    let data = (0..h).flat_map(|y| (0..w).flat_map(move |x| [x as u8, y as u8, 9, 255])).collect();
    RgbaImage::from_raw(w, h, data).expect("buffer matches its dimensions")
}

fn at(img: &RgbaImage, x: u32, y: u32) -> [u8; 4] {
    let i = ((y * img.width + x) * 4) as usize;
    [img.data[i], img.data[i + 1], img.data[i + 2], img.data[i + 3]]
}

/// A position in whole logical pixels.
fn pos(x: i32, y: i32) -> Pos {
    Pos { x: x * 256, y: y * 256 }
}

fn button(pressed: bool) -> Event {
    Event::Button { button: BTN_LEFT, pressed }
}

#[test]
fn a_selection_has_a_smallest_size() {
    assert!(rect(0, 0, 8, 8).is_usable());
    assert!(!rect(0, 0, 7, 8).is_usable());
    assert!(!rect(0, 0, 8, 7).is_usable());
}

#[test]
fn a_drag_selects_the_physical_rectangle() {
    let mut o = Overlay::new(2, 2880, 1920);
    o.event(Event::Pointer(pos(100, 50)));
    o.event(button(true));
    o.event(Event::Pointer(pos(40, 90)));
    assert_eq!(o.drag_rect(), Some(rect(80, 100, 120, 80)));
    o.event(button(false));
    assert_eq!(o.selection, Some(rect(80, 100, 120, 80)));
    assert!(!o.running && o.anchor.is_none());
}

#[test]
fn a_drag_is_rounded_and_clamped_to_the_grab() {
    let mut o = Overlay::new(1, 100, 100);
    o.event(Event::Pointer(Pos { x: -300, y: 10 * 256 + 127 }));
    o.event(button(true));
    o.event(Event::Pointer(Pos { x: 20 * 256 + 128, y: 5000 * 256 }));
    assert_eq!(o.drag_rect(), Some(rect(0, 10, 21, 90)));
}

#[test]
fn a_click_or_a_twitch_selects_nothing() {
    let mut o = Overlay::new(1, 100, 100);
    o.event(Event::Pointer(pos(10, 10)));
    o.event(button(true));
    o.event(Event::Pointer(pos(17, 30)));
    o.event(button(false));
    assert_eq!(o.selection, None);
    assert!(!o.running);
}

#[test]
fn escape_cancels_and_other_keys_do_not() {
    let mut o = Overlay::new(1, 100, 100);
    o.event(Event::Key { key: 30, pressed: true });
    o.event(Event::Key { key: KEY_ESC, pressed: false });
    o.event(Event::Button { button: BTN_LEFT + 1, pressed: false });
    assert!(o.running);
    o.event(Event::Key { key: KEY_ESC, pressed: true });
    assert!(!o.running && o.selection.is_none());
    let mut o = Overlay::new(1, 100, 100);
    o.event(Event::Closed);
    assert!(!o.running);
}

#[test]
fn frames_wait_for_the_last_one_to_be_presented() {
    let mut o = Overlay::new(1, 100, 100);
    assert!(!o.begin_frame(true));
    o.event(Event::Configured);
    assert!(o.configured && o.dirty);
    assert!(o.begin_frame(true));
    o.event(Event::Pointer(pos(1, 1)));
    assert!(!o.begin_frame(true), "one frame at a time");
    o.event(Event::FrameDone);
    assert!(o.begin_frame(true));
    o.event(Event::FrameDone);
    o.event(Event::Pointer(pos(2, 2)));
    assert!(!o.begin_frame(false), "nothing to draw to");
    assert!(!o.dirty && !o.frame_pending);
}

#[test]
fn dimming_shades_every_pixel() {
    let dark = dimmed(&flat(4, 3, [255, 100, 0, 255]));
    assert_eq!(dark, flat(4, 3, [135, 53, 0, 255]));
}

#[test]
fn an_outline_is_two_pixels_thick() {
    let mut img = flat(10, 10, [0, 0, 0, 255]);
    stroke_rect(&mut img, 1, 2, 6, 7, GOLD);
    for y in 0..10 {
        for x in 0..10 {
            let inside = (1..7).contains(&x) && (2..9).contains(&y);
            let hollow = (3..5).contains(&x) && (4..7).contains(&y);
            let expected = if inside && !hollow { GOLD } else { [0, 0, 0, 255] };
            assert_eq!(at(&img, x, y), expected, "{x} {y}");
        }
    }
}

#[test]
fn dimming_shades_thin_and_large_grabs_alike() {
    for (w, h) in [(1, 1), (1, 5), (5, 1), (1, 9000), (9000, 1), (8192, 3), (3, 8200)] {
        let dark = dimmed(&flat(w, h, [255, 100, 0, 255]));
        assert_eq!(dark, flat(w, h, [135, 53, 0, 255]), "{w} {h}");
    }
}

/// Check every pixel after stroking an outline.
fn check_outline(w: u32, h: u32, x: i32, y: i32, rw: u32, rh: u32) {
    let base = grid(w, h);
    let mut img = base.clone();
    stroke_rect(&mut img, x, y, rw, rh, GOLD);
    let (right, bottom) = (x + rw as i32 - 2, y + rh as i32 - 2);
    for py in 0..h {
        for px in 0..w {
            let (i, j) = (px as i32, py as i32);
            let across = (x..x + rw as i32).contains(&i);
            let down = (y..y + rh as i32).contains(&j);
            let on = (across && ((y..y + 2).contains(&j) || (bottom..bottom + 2).contains(&j)))
                || (down && ((x..x + 2).contains(&i) || (right..right + 2).contains(&i)));
            let expected = if on { GOLD } else { at(&base, px, py) };
            assert_eq!(at(&img, px, py), expected, "{px} {py}");
        }
    }
}

#[test]
fn an_outline_thinner_than_its_sides_is_cut_at_the_edges() {
    for (rw, rh) in [(0, 0), (0, 4), (4, 0), (1, 1), (1, 5), (5, 1), (2, 2), (3, 3)] {
        check_outline(9, 8, 3, 2, rw, rh);
        check_outline(9, 8, -1, -1, rw, rh);
        check_outline(9, 8, 8, 7, rw, rh);
    }
}

#[test]
fn an_outline_is_whole_on_a_large_image() {
    check_outline(8300, 12, 8180, 2, 40, 8);
    check_outline(8300, 12, 0, 0, 8300, 12);
    check_outline(8300, 12, 8190, 3, 3, 4);
    check_outline(8300, 12, -4, -4, 16_000, 30);
    check_outline(12, 8300, 2, 8180, 8, 40);
    check_outline(12, 16_400, 0, 8191, 12, 8192);
}

#[test]
fn a_selection_is_shown_in_its_original_brightness_with_a_border() {
    let base = grid(20, 20);
    let mut canvas = dimmed(&base);
    let dark = canvas.clone();
    let sel = rect(4, 5, 10, 9);
    restore_rect(&mut canvas, &base, sel);
    assert_eq!(at(&canvas, 4, 5), at(&base, 4, 5));
    assert_eq!(at(&canvas, 13, 13), at(&base, 13, 13));
    assert_eq!(at(&canvas, 14, 5), at(&dark, 14, 5));
    draw_border(&mut canvas, sel);
    assert_eq!(at(&canvas, 4, 5), ROSE);
    assert_eq!(at(&canvas, 12, 13), ROSE);
    assert_eq!(at(&canvas, 8, 8), at(&base, 8, 8));
    assert_eq!(at(&canvas, 3, 5), at(&dark, 3, 5));
}

#[test]
fn the_loupe_zooms_on_the_cursor() {
    let base = grid(250, 250);
    let mut canvas = flat(250, 250, [0, 0, 0, 255]);
    draw_magnifier(&mut canvas, &base, 40, 50);
    // It starts beside the cursor, at (72, 82), and is 136 pixels wide.
    assert_eq!(at(&canvas, 71, 82), [0, 0, 0, 255]);
    assert_eq!(at(&canvas, 72, 82), ROSE);
    assert_eq!(at(&canvas, 207, 217), ROSE);
    assert_eq!(at(&canvas, 208, 217), [0, 0, 0, 255]);
    // Its pixels are eight times as large, the cursor's in the middle in a gold box.
    assert_eq!(at(&canvas, 72 + 24, 82 + 16), at(&base, 35, 44));
    assert_eq!(at(&canvas, 72 + 64, 82 + 64), GOLD);
    assert_eq!(at(&canvas, 72 + 68, 82 + 68), at(&base, 40, 50));
}

#[test]
fn the_loupe_flips_away_from_the_edges() {
    let base = grid(250, 250);
    let mut canvas = flat(250, 250, [0, 0, 0, 255]);
    draw_magnifier(&mut canvas, &base, 240, 245);
    assert_eq!(at(&canvas, 72, 77), ROSE);
    assert_eq!(at(&canvas, 71, 77), [0, 0, 0, 255]);
    // What lies past the grab's edge repeats its last pixel.
    assert_eq!(at(&canvas, 72 + 136 - 3, 77 + 136 - 3), at(&base, 248, 249));
}

#[test]
fn the_loupe_is_whole_on_a_large_grab() {
    let base = grid(8500, 140);
    let mut canvas = flat(8500, 140, [0, 0, 0, 255]);
    draw_magnifier(&mut canvas, &base, 8100, 70);
    for y in 0..140 {
        for x in 0..8500 {
            // It starts beside the cursor and below the top edge.
            let (lx, ly) = (x as i32 - 8132, y as i32);
            let expected = if !(0..136).contains(&lx) || !(0..136).contains(&ly) {
                [0, 0, 0, 255]
            } else if !(2..134).contains(&lx) || !(2..134).contains(&ly) {
                ROSE
            } else if (64..72).contains(&lx)
                && (64..72).contains(&ly)
                && !((66..70).contains(&lx) && (66..70).contains(&ly))
            {
                GOLD
            } else {
                at(&base, (8100 - 8 + lx / 8) as u32, (70 - 8 + ly / 8) as u32)
            };
            assert_eq!(at(&canvas, x, y), expected, "{x} {y}");
        }
    }
}

#[test]
fn a_frame_is_composed_and_handed_over_with_blue_first() {
    let scene = Scene::new(grid(300, 310));
    let mut o = Overlay::new(1, 300, 310);
    o.event(Event::Pointer(pos(100, 100)));
    o.event(button(true));
    o.event(Event::Pointer(pos(120, 130)));
    let seen = std::cell::RefCell::new(None);
    let frame = scene.render(&o, |img: RgbaImage, p: Pos, scale: i32| {
        *seen.borrow_mut() = Some((p, scale, at(&img, 105, 105), at(&img, 100, 100)));
        img
    });
    assert_eq!(
        seen.into_inner(),
        Some((pos(120, 130), 1, [105, 105, 9, 255], ROSE)),
        "the cursor is marked over the selection"
    );
    assert_eq!(frame.len(), 300 * 310 * 4);
    let i = (105 * 300 + 105) * 4;
    assert_eq!(&frame[i..i + 4], &[9, 105, 105, 255]);
    let i = (100 * 300 + 100) * 4;
    assert_eq!(&frame[i..i + 4], &[186, 188, 235, 255]);
}

#[test]
fn a_backdrop_is_right_at_every_pixel_of_a_large_grab() {
    let base = grid(8300, 140);
    let scene = Scene::new(base.clone());
    let sel = rect(8100, 20, 150, 60);
    let shown = scene.under(Some(sel));
    for y in 0..140 {
        for x in 0..8300 {
            let (right, bottom) = (sel.x + sel.width, sel.y + sel.height);
            let within = (sel.x..right).contains(&x) && (sel.y..bottom).contains(&y);
            let hollow = (sel.x + 2..right - 2).contains(&x) && (sel.y + 2..bottom - 2).contains(&y);
            let px = at(&base, x, y);
            let shade = |v: u8| ((u32::from(v) * 135 + 255) / 256) as u8;
            let expected = if within && !hollow {
                ROSE
            } else if within {
                px
            } else {
                [shade(px[0]), shade(px[1]), shade(px[2]), 255]
            };
            assert_eq!(at(&shown, x, y), expected, "{x} {y}");
        }
    }
}

#[test]
fn a_backdrop_without_a_selection_is_dim() {
    let scene = Scene::new(flat(140, 140, [255, 255, 255, 255]));
    assert_eq!(scene.under(None), flat(140, 140, [135, 135, 135, 255]));
}

#[test]
fn the_window_under_the_cursor_is_picked() {
    let (over, below) = (rect(10, 10, 20, 20), rect(0, 0, 100, 100));
    let mut p = Picker::new(2, 200, 200, vec![over, below]);
    assert_eq!(p.overlay, Overlay::new(2, 200, 200));
    p.event(Event::Pointer(pos(6, 6)));
    assert_eq!(p.hovered(), Some(over));
    p.event(Event::Pointer(pos(40, 40)));
    assert_eq!(p.hovered(), Some(below));
    p.event(button(true));
    assert!(p.overlay.running);
    p.event(button(false));
    assert_eq!(p.overlay.selection, Some(below));
    assert!(!p.overlay.running);
}

#[test]
fn a_click_beside_every_window_picks_none() {
    let mut p = Picker::new(1, 200, 200, vec![rect(0, 0, 10, 10)]);
    p.event(Event::Configured);
    assert!(p.overlay.begin_frame(true));
    p.event(Event::FrameDone);
    p.event(Event::Pointer(pos(50, 50)));
    p.event(button(false));
    assert_eq!(p.overlay.selection, None);
    assert!(!p.overlay.running);
    let mut p = Picker::new(1, 200, 200, vec![rect(0, 0, 10, 10)]);
    p.event(Event::Key { key: KEY_ESC, pressed: true });
    assert!(!p.overlay.running && p.overlay.selection.is_none());
    let mut p = Picker::new(1, 200, 200, vec![]);
    p.event(Event::Closed);
    assert!(!p.overlay.running);
}

#[test]
fn globals_are_bound_at_the_version_known() {
    let b = |global, version| Some(Binding { global, version });
    assert_eq!(capture_binding("wl_output", 9), b(Global::Output, 4));
    assert_eq!(capture_binding("wl_output", 3), b(Global::Output, 3));
    assert_eq!(capture_binding("wl_shm", 2), b(Global::Shm, 1));
    assert_eq!(capture_binding("zwlr_screencopy_manager_v1", 3), b(Global::Screencopy, 3));
    assert_eq!(capture_binding("wl_compositor", 6), None);
    assert_eq!(overlay_binding("wl_compositor", 6), b(Global::Compositor, 4));
    assert_eq!(overlay_binding("wl_seat", 9), b(Global::Seat, 5));
    assert_eq!(overlay_binding("zwlr_layer_shell_v1", 4), b(Global::LayerShell, 1));
    assert_eq!(overlay_binding("wl_output", 4), b(Global::Output, 4));
    assert_eq!(overlay_binding("zwlr_screencopy_manager_v1", 3), None);
    assert_eq!(indicator_binding("zwlr_layer_shell_v1", 5), b(Global::LayerShell, 4));
    assert_eq!(indicator_binding("wl_output", 4), b(Global::Output, 4));
    assert_eq!(indicator_binding("wl_seat", 4), None);
    assert_eq!(indicator_binding("wp_viewporter", 1), None);
}
