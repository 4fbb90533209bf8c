use frame::capture::{
    add_output, buffer_to_rgba, named_output, output_event, pool_size, select_output, target_output,
    BufferSpec, CopyStep, FrameEvent, Handshake, OfferStep, OutputEvent, OutputInfo, ARGB8888,
    XBGR8888, XRGB8888,
};
use frame::overlay::compose::swap_red_blue;
use frame::raster::RgbaImage;

fn outputs(names: &[Option<&str>]) -> Vec<OutputInfo> {
    let mut all = Vec::new();
    for (i, name) in names.iter().enumerate() {
        add_output(&mut all, i as u32);
        if let Some(name) = name {
            output_event(&mut all, i as u32, OutputEvent::Name(name.to_string()));
        }
    }
    all
}

fn spec(format: u32, width: u32, height: u32, stride: u32) -> BufferSpec {
    BufferSpec { format, width, height, stride }
}

#[test]
fn an_output_learns_its_name_and_scale() {
    let mut all = outputs(&[None, Some("eDP-1")]);
    assert_eq!(all[0], OutputInfo { registry_name: 0, name: None, scale: 1 });
    output_event(&mut all, 1, OutputEvent::Scale(2));
    output_event(&mut all, 7, OutputEvent::Scale(9));
    assert_eq!(
        all[1],
        OutputInfo { registry_name: 1, name: Some("eDP-1".to_string()), scale: 2 }
    );
    assert_eq!(all[0].scale, 1);
}

#[test]
fn the_named_output_is_chosen_or_else_the_first() {
    let all = outputs(&[Some("HDMI-1"), Some("eDP-1"), Some("eDP-1")]);
    let chosen = |target| select_output(&all, target).expect("some output").registry_name;
    assert_eq!(chosen(Some("eDP-1")), 1);
    assert_eq!(chosen(Some("DP-9")), 0);
    assert_eq!(chosen(None), 0);
    assert_eq!(
        select_output(&[], Some("eDP-1")),
        Err("compositor advertised no wl_output".to_string())
    );
}

#[test]
fn a_surface_goes_to_the_named_output_or_where_the_compositor_likes() {
    let all = outputs(&[None, Some("eDP-1")]);
    assert_eq!(target_output(&all, Some("eDP-1")).map(|o| o.registry_name), Some(1));
    assert_eq!(target_output(&all, Some("DP-9")), None);
    assert_eq!(target_output(&all, None), None);
    assert_eq!(named_output(&all, "eDP-1").map(|o| o.registry_name), Some(1));
}

#[test]
fn the_first_buffer_offered_is_used() {
    let mut h = Handshake::new();
    assert_eq!(h.offer_step(), OfferStep::Wait);
    let first = spec(XRGB8888, 2, 1, 8);
    h.event(FrameEvent::Buffer(first));
    h.event(FrameEvent::Buffer(spec(ARGB8888, 4, 4, 16)));
    assert_eq!(h.offer_step(), OfferStep::Wait);
    h.event(FrameEvent::BufferDone);
    assert_eq!(h.offer_step(), OfferStep::Copy(first));
    assert_eq!(h.copy_step(), CopyStep::Wait);
    h.event(FrameEvent::Flags { y_invert: true });
    h.event(FrameEvent::Ready);
    assert_eq!(h.copy_step(), CopyStep::Done { y_invert: true });
}

#[test]
fn a_failed_frame_ends_the_capture() {
    let mut h = Handshake::new();
    h.event(FrameEvent::BufferDone);
    assert_eq!(h.offer_step(), OfferStep::Fail("no shm buffer offer".to_string()));
    h.event(FrameEvent::Failed);
    assert_eq!(
        h.offer_step(),
        OfferStep::Fail("compositor sent `failed` before buffer_done".to_string())
    );
    h.event(FrameEvent::Ready);
    assert_eq!(
        h.copy_step(),
        CopyStep::Fail("compositor sent `failed` during copy".to_string())
    );
}

#[test]
fn a_buffer_is_read_in_its_format() {
    let bytes = [1, 2, 3, 4, 5, 6, 7, 8];
    let read = |format| buffer_to_rgba(&bytes, spec(format, 2, 1, 8), false).data;
    assert_eq!(read(ARGB8888), vec![3, 2, 1, 4, 7, 6, 5, 8]);
    assert_eq!(read(XRGB8888), vec![3, 2, 1, 255, 7, 6, 5, 255]);
    assert_eq!(read(XBGR8888), vec![1, 2, 3, 255, 5, 6, 7, 255]);
    assert_eq!(read(0x3432_4241), vec![1, 2, 3, 4, 5, 6, 7, 8]);
}

#[test]
fn padding_is_skipped_and_inverted_rows_are_turned_over() {
    // One pixel to a row, and four bytes of padding that the last row does without.
    let bytes = [1, 2, 3, 4, 0, 0, 0, 0, 5, 6, 7, 8];
    let upright = buffer_to_rgba(&bytes, spec(ARGB8888, 1, 2, 8), false);
    assert_eq!(upright.data, vec![3, 2, 1, 4, 7, 6, 5, 8]);
    let inverted = buffer_to_rgba(&bytes, spec(ARGB8888, 1, 2, 8), true);
    assert_eq!(inverted.data, vec![7, 6, 5, 8, 3, 2, 1, 4]);
}

#[test]
fn what_is_written_reads_back() {
    let data: Vec<u8> = (0..24).collect();
    let img = RgbaImage::from_raw(3, 2, data).expect("six pixels");
    let bytes = swap_red_blue(&img.data);
    assert_eq!(&bytes[..4], &[2, 1, 0, 3]);
    assert_eq!(buffer_to_rgba(&bytes, spec(ARGB8888, 3, 2, 12), false), img);
    assert_eq!(swap_red_blue(&bytes), img.data);
}

#[test]
fn a_pool_holds_its_buffer() {
    assert_eq!(pool_size(spec(ARGB8888, 3, 5, 16)), 80);
}

#[test]
fn an_image_has_as_many_bytes_as_its_size_says() {
    assert!(RgbaImage::from_raw(2, 2, vec![0; 16]).is_some());
    assert!(RgbaImage::from_raw(2, 2, vec![0; 15]).is_none());
    assert!(RgbaImage::from_raw(2, 2, vec![0; 17]).is_none());
    assert!(RgbaImage::from_raw(u32::MAX, u32::MAX, vec![]).is_none());
}
