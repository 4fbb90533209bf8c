use frame::monitor::Reply;
use frame::output::SERVE_ARG;
use frame::overlay::Rect;
use frame::raster::RgbaImage;
use frame::session::{
    command_of, pace, Action, Command, Event, Mode, Next, Region, Run, Stage, FRAME_BUDGET,
};
use frame::sock::STOP;

/// A tall document with per-row texture.
fn document(w: u32, h: u32) -> Vec<u8> {
    (0..h)
        .flat_map(|y| {
            (0..w).flat_map(move |x| {
                let v = ((y.wrapping_mul(2_654_435_761) ^ x.wrapping_mul(40_503)) >> 16) as u8;
                [v, v.wrapping_mul(3), v.wrapping_add(70), 255]
            })
        })
        .collect()
}

fn view(doc: &[u8], w: u32, top: u32, h: u32) -> RgbaImage {
    let row = (w * 4) as usize;
    let data = doc[top as usize * row..(top + h) as usize * row].to_vec();
    RgbaImage::from_raw(w, h, data).expect("whole rows")
}

fn grab() -> RgbaImage {
    view(&document(40, 30), 40, 0, 30)
}

fn rect(x: u32, y: u32, width: u32, height: u32) -> Rect {
    Rect { x, y, width, height }
}

fn grabbed() -> Event {
    Event::Grabbed { target: Some("eDP-1".to_string()), grab: Ok((grab(), 2)) }
}

fn failed<T>() -> Result<T, String> {
    Err("why".to_string())
}

fn said(text: &str) -> Option<Reply> {
    Some(Reply { success: true, stdout: text.as_bytes().to_vec() })
}

/// The exit code and the message of a step that ends the run.
fn quits(next: &Next) -> (i32, Option<&str>) {
    assert_eq!(next.run.stage, Stage::Over);
    match &next.action {
        Action::Quit { code, message } => (*code, message.as_deref()),
        _ => panic!("the run goes on"),
    }
}

fn shown(next: &Next) -> &RgbaImage {
    match &next.action {
        Action::Show(img) => img,
        _ => panic!("nothing is shown"),
    }
}

fn begun(mode: Mode) -> Run {
    Run::start(mode).0
}

/// A scroll capture that has its first frame.
fn scrolling(doc: &[u8]) -> Run {
    let run = begun(Mode::Scroll).step(Event::Signalled(false)).run;
    let run = run.step(grabbed()).run.step(Event::Selected(Some(rect(4, 6, 20, 10)))).run;
    let run = run.step(Event::Marked(Ok(()))).run.step(Event::Opened(Ok(()))).run;
    let next = run.step(Event::Bound(Ok(())));
    assert_eq!(next.run.stage, Stage::First);
    assert!(matches!(
        next.action,
        Action::CaptureFrame(Region { x: 2, y: 3, width: 10, height: 5 })
    ));
    next.run.step(Event::Framed(Ok(view(doc, 64, 0, 600)))).run
}

#[test]
fn the_argument_gives_the_command() {
    assert_eq!(command_of(Some("region")), Command::Capture(Mode::Region));
    assert_eq!(command_of(Some("full")), Command::Capture(Mode::Full));
    assert_eq!(command_of(Some("window")), Command::Capture(Mode::Window));
    assert_eq!(command_of(Some("scroll")), Command::Capture(Mode::Scroll));
    assert_eq!(command_of(Some(SERVE_ARG)), Command::ServeClipboard);
    assert_eq!(command_of(Some("Region")), Command::Usage);
    assert_eq!(command_of(None), Command::Usage);
}

#[test]
fn a_region_is_cropped_and_shown() {
    let (run, action) = Run::start(Mode::Region);
    assert!(matches!(action, Action::Grab));
    let next = run.step(grabbed());
    assert!(matches!(next.action, Action::SelectRegion));
    assert!(next.run.grab.is_some());
    let next = next.run.step(Event::Selected(Some(rect(4, 6, 8, 9))));
    let img = shown(&next);
    assert_eq!((img.width, img.height), (8, 9));
    assert_eq!(img.data[..4], grab().data[(6 * 40 + 4) * 4..(6 * 40 + 5) * 4]);
    let next = next.run.step(Event::Shown(Ok(())));
    assert_eq!(quits(&next), (0, None));
}

#[test]
fn a_cancelled_selection_shows_nothing() {
    let next = begun(Mode::Region).step(grabbed()).run.step(Event::Selected(None));
    assert_eq!(quits(&next), (0, Some("cancelled")));
}

#[test]
fn the_whole_output_is_shown_at_once() {
    let next = begun(Mode::Full).step(grabbed());
    assert_eq!(*shown(&next), grab());
    assert_eq!(next.run.scale, 2);
    let next = next.run.step(Event::Shown(failed()));
    assert_eq!(quits(&next), (1, Some("overlay failed: why")));
}

#[test]
fn a_failed_grab_ends_the_run() {
    let next = begun(Mode::Full).step(Event::Grabbed { target: None, grab: failed() });
    assert_eq!(quits(&next), (1, Some("capture failed: why")));
}

#[test]
fn a_window_is_offered_and_taken_whole() {
    let next = begun(Mode::Window).step(grabbed());
    assert!(matches!(next.action, Action::QueryWindows));
    let next = next.run.step(Event::Listed {
        view: said(r#"{"x": 0, "y": 0, "width": 20, "height": 15, "active_tags": [1]}"#),
        clients: said(
            r#"{"clients": [{"monitor": "eDP-1", "tags": [1], "x": 5, "y": 5,
                             "width": 10, "height": 50}]}"#,
        ),
    });
    let Action::SelectWindow(windows) = &next.action else {
        panic!("there is a window");
    };
    assert_eq!(*windows, vec![rect(10, 10, 20, 20)]);
    let next = next.run.step(Event::Selected(Some(rect(10, 10, 20, 20))));
    let img = shown(&next);
    assert_eq!((img.width, img.height), (20, 20));
    assert_eq!(img.data[..4], grab().data[(10 * 40 + 10) * 4..(10 * 40 + 11) * 4]);
}

#[test]
fn without_windows_there_is_nothing_to_pick() {
    let unknown = Event::Grabbed { target: None, grab: Ok((grab(), 2)) };
    let next = begun(Mode::Window).step(unknown);
    assert_eq!(quits(&next), (1, Some("no focused output; cannot enumerate windows")));
    let next = begun(Mode::Window).step(grabbed());
    let next = next.run.step(Event::Listed { view: None, clients: None });
    assert_eq!(quits(&next), (1, Some("no capturable windows on eDP-1")));
}

#[test]
fn a_second_invocation_stops_the_first() {
    let (run, action) = Run::start(Mode::Scroll);
    assert!(matches!(action, Action::Signal));
    let next = run.step(Event::Signalled(true));
    assert_eq!(quits(&next), (0, None));
}

#[test]
fn a_scroll_capture_is_stitched_until_it_is_stopped() {
    let doc = document(64, 2000);
    let next = scrolling(&doc).step(Event::Polled(None));
    assert!(matches!(next.action, Action::CaptureFrame(_)));
    let next = next.run.step(Event::Framed(Ok(view(&doc, 64, 40, 600))));
    assert!(matches!(next.action, Action::Pace));
    // A dropped frame changes nothing.
    let run = next.run.step(Event::Polled(Some("other".to_string()))).run;
    let next = run.step(Event::Framed(failed()));
    assert!(matches!(next.action, Action::Pace));
    assert_eq!(next.warning.as_deref(), Some("frame dropped: why"));
    let run = next.run.step(Event::Polled(None)).run;
    let run = run.step(Event::Framed(Ok(view(&doc, 64, 80, 600)))).run;
    let next = run.step(Event::Polled(Some(STOP.to_string())));
    assert!(matches!(next.action, Action::Release { capped: None }));
    let next = next.run.step(Event::Released);
    assert_eq!(*shown(&next), view(&doc, 64, 0, 680));
    assert!(next.run.stitcher.is_none());
}

#[test]
fn a_scroll_capture_stops_at_its_height_limit() {
    let doc = document(64, 700);
    let mut run = scrolling(&doc);
    let mut top = 0;
    for _ in 0..1000 {
        run = run.step(Event::Polled(None)).run;
        // Scroll down for a while, then start over with the same anchor.
        top = if top == 0 { 60 } else { 0 };
        let next = run.step(Event::Framed(Ok(view(&doc, 64, top, 600))));
        run = next.run;
        if let Action::Release { capped } = next.action {
            let rows = run.stitcher.as_ref().expect("stitched").rows();
            assert_eq!(capped, Some(rows));
            assert!(rows <= 20_000 && rows + 60 > 20_000);
            return;
        }
    }
    panic!("the limit was never met");
}

#[test]
fn an_outline_is_not_needed_but_all_else_is() {
    let selected = || {
        let run = begun(Mode::Scroll).step(Event::Signalled(false)).run;
        run.step(grabbed()).run.step(Event::Selected(Some(rect(4, 6, 20, 10))))
    };
    assert!(matches!(
        selected().action,
        Action::Mark(Region { x: 2, y: 3, width: 10, height: 5 })
    ));
    assert!(selected().run.grab.is_none(), "the backdrop is gone before frames are captured");
    let next = selected().run.step(Event::Marked(failed()));
    assert!(matches!(next.action, Action::Open));
    assert_eq!(next.warning.as_deref(), Some("region indicator unavailable: why"));
    let open = || selected().run.step(Event::Marked(Ok(()))).run;
    assert_eq!(
        quits(&open().step(Event::Opened(failed()))),
        (1, Some("capture session failed: why"))
    );
    let bind = || open().step(Event::Opened(Ok(()))).run;
    assert_eq!(quits(&bind().step(Event::Bound(failed()))), (1, Some("why")));
    let first = bind().step(Event::Bound(Ok(()))).run;
    assert_eq!(quits(&first.step(Event::Framed(failed()))), (1, Some("first frame failed: why")));
}

#[test]
fn frames_are_paced() {
    assert_eq!(FRAME_BUDGET, 1_000_000 / 30 * 1000);
    assert_eq!(pace(0), Some(33_333_000));
    assert_eq!(pace(33_000_000), Some(333_000));
    assert_eq!(pace(33_333_000), Some(0));
    assert_eq!(pace(33_333_001), None);
}
