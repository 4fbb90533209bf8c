use frame::output::{
    copy_to_clipboard, encode_png, output_path, path_at, save_and_copy, serve_clipboard, start_save,
    CopyAction, CopyEvent, SaveAction, SaveEvent, SaveJob, ServeAction, ServeEvent, STATUS_ERR,
    STATUS_OK,
};
use frame::paths::join;
use frame::raster::RgbaImage;

const PNG: &[u8] = b"image";

fn job() -> SaveJob {
    SaveJob { path: b"/pics/frame-x.png".to_vec(), png: PNG.to_vec() }
}

fn failed() -> Result<(), String> {
    Err("why".to_string())
}

#[test]
fn a_png_holds_the_pixels() {
    let data = vec![1, 2, 3, 255, 4, 5, 6, 255, 7, 8, 9, 0, 10, 11, 12, 128];
    let img = RgbaImage::from_raw(2, 2, data.clone()).expect("four pixels");
    let png = encode_png(&img).expect("encodes");
    assert_eq!(&png[..8], &[0x89, b'P', b'N', b'G', b'\r', b'\n', 0x1a, b'\n']);
    let read = image::load_from_memory(&png).expect("decodes").into_rgba8();
    assert_eq!((read.width(), read.height()), (2, 2));
    assert_eq!(read.into_raw(), data);
}

#[test]
fn an_image_without_pixels_has_no_png() {
    let img = RgbaImage::from_raw(0, 0, vec![]).expect("no pixels");
    let e = encode_png(&img).expect_err("refused");
    assert!(e.starts_with("PNG encode failed: "), "{e}");
}

#[test]
fn a_capture_goes_to_the_pictures_directory() {
    let p = path_at(Some(b"/pics"), Some(b"/home/me"), "2026-07-16-093005");
    assert_eq!(p, b"/pics/frame-2026-07-16-093005.png");
    let p = path_at(None, Some(b"/home/me"), "2026-07-16-093005");
    assert_eq!(p, b"/home/me/Pictures/frame-2026-07-16-093005.png");
    let p = path_at(None, Some(b"/"), "x");
    assert_eq!(p, b"/Pictures/frame-x.png");
    let p = path_at(Some(b""), None, "x");
    assert_eq!(p, b"frame-x.png");
}

#[test]
fn a_capture_is_named_after_the_time() {
    let p = output_path(Some(b"/pics"), None);
    let name = p.strip_prefix(b"/pics/frame-").expect("in its directory");
    let stamp = name.strip_suffix(b".png").expect("a PNG");
    assert_eq!(stamp.len(), 17);
    for (i, c) in stamp.iter().enumerate() {
        if [4, 7, 10].contains(&i) {
            assert_eq!(*c, b'-');
        } else {
            assert!(c.is_ascii_digit());
        }
    }
    assert_eq!(&stamp[..2], b"20");
}

#[test]
fn paths_join_as_the_system_joins_them() {
    let cases: [(&str, &str); 7] = [
        ("/a", "b"),
        ("/a/", "b"),
        ("", "b"),
        ("/", "b"),
        ("/a", "/b"),
        ("/a", ""),
        ("a//", "b/c"),
    ];
    for (dir, name) in cases {
        let system = std::path::Path::new(dir).join(name);
        let ours = join(dir.as_bytes(), name.as_bytes());
        assert_eq!(ours, system.to_str().expect("text").as_bytes(), "{dir:?} {name:?}");
    }
}

#[test]
fn a_save_starts_with_the_png_and_its_path() {
    let img = RgbaImage::from_raw(1, 1, vec![1, 2, 3, 255]).expect("one pixel");
    let job = start_save(&img, Some(b"/pics"), None).ok().expect("encodes");
    assert_eq!(job.png, encode_png(&img).expect("encodes"));
    assert!(job.path.starts_with(b"/pics/frame-") && job.path.ends_with(b".png"));
    let none = RgbaImage::from_raw(0, 0, vec![]).expect("no pixels");
    let e = start_save(&none, Some(b"/pics"), None).err().expect("refused");
    assert!(e.starts_with("PNG encode failed: "), "{e}");
}

#[test]
fn file_and_clipboard_get_the_same_bytes() {
    let job = job();
    let SaveAction::Write { path, png } = save_and_copy(&job, SaveEvent::DirCreated(Ok(()))) else {
        panic!("the file is next");
    };
    assert_eq!((path, png), (&b"/pics/frame-x.png"[..], PNG));
    let SaveAction::Copy { png } = save_and_copy(&job, SaveEvent::Written(Ok(()))) else {
        panic!("the clipboard is next");
    };
    assert_eq!(png, PNG);
    let SaveAction::Done { path } = save_and_copy(&job, SaveEvent::Copied(Ok(()))) else {
        panic!("that is all");
    };
    assert_eq!(path, b"/pics/frame-x.png");
}

#[test]
fn the_first_failure_ends_saving() {
    let job = job();
    let message = |event| match save_and_copy(&job, event) {
        SaveAction::Fail(m) => m,
        _ => panic!("a failure ends it"),
    };
    assert_eq!(message(SaveEvent::DirCreated(failed())), "create dir failed: why");
    assert_eq!(message(SaveEvent::Written(failed())), "write PNG failed: why");
    assert_eq!(message(SaveEvent::Copied(failed())), "why");
}

#[test]
fn copying_waits_for_the_helper() {
    assert!(matches!(copy_to_clipboard(PNG, CopyEvent::Located(Ok(()))), CopyAction::Spawn));
    assert!(matches!(
        copy_to_clipboard(PNG, CopyEvent::Spawned(Ok(()))),
        CopyAction::Send { png: PNG }
    ));
    assert!(matches!(copy_to_clipboard(PNG, CopyEvent::Sent(Ok(()))), CopyAction::AwaitReply));
    assert!(matches!(copy_to_clipboard(PNG, CopyEvent::Replied(Ok(STATUS_OK))), CopyAction::Done));
}

#[test]
fn each_failure_to_copy_is_told_apart() {
    let message = |event| match copy_to_clipboard(PNG, event) {
        CopyAction::Fail(m) => m,
        _ => panic!("a failure ends it"),
    };
    assert_eq!(message(CopyEvent::Located(failed())), "current_exe failed: why");
    assert_eq!(message(CopyEvent::Spawned(failed())), "spawn clipboard helper failed: why");
    assert_eq!(message(CopyEvent::Sent(failed())), "send PNG to clipboard helper failed: why");
    assert_eq!(
        message(CopyEvent::Replied(Ok(STATUS_ERR))),
        "clipboard helper could not claim the selection"
    );
    assert_eq!(
        message(CopyEvent::Replied(Err("eof".to_string()))),
        "clipboard helper exited before serving: eof"
    );
}

#[test]
fn the_helper_reports_before_it_serves() {
    let ServeAction::Claim { png } = serve_clipboard(ServeEvent::Read(Ok(PNG.to_vec()))) else {
        panic!("the selection is next");
    };
    assert_eq!(png, PNG);
    assert!(matches!(
        serve_clipboard(ServeEvent::Claimed(Ok(()))),
        ServeAction::Serve { status: STATUS_OK }
    ));
    assert!(matches!(
        serve_clipboard(ServeEvent::Served(Ok(()))),
        ServeAction::Exit { code: 0 }
    ));
}

#[test]
fn the_helper_exits_where_it_fails() {
    let failure = |event| match serve_clipboard(event) {
        ServeAction::Fail { report, message, code } => (report, message, code),
        _ => panic!("a failure ends it"),
    };
    assert_eq!(
        failure(ServeEvent::Read(Err("why".to_string()))),
        (None, "clipboard helper: reading stdin failed: why".to_string(), 1)
    );
    assert_eq!(
        failure(ServeEvent::Claimed(failed())),
        (
            Some(STATUS_ERR),
            "clipboard helper: claiming the selection failed: why".to_string(),
            1
        )
    );
    assert_eq!(
        failure(ServeEvent::Served(failed())),
        (None, "clipboard helper: serving failed: why".to_string(), 1)
    );
}

#[test]
fn what_the_helper_reports_is_what_the_parent_hears() {
    let ServeAction::Serve { status } = serve_clipboard(ServeEvent::Claimed(Ok(()))) else {
        panic!("claimed");
    };
    assert!(matches!(copy_to_clipboard(PNG, CopyEvent::Replied(Ok(status))), CopyAction::Done));
    let ServeAction::Fail { report: Some(status), .. } =
        serve_clipboard(ServeEvent::Claimed(failed()))
    else {
        panic!("not claimed");
    };
    assert!(matches!(copy_to_clipboard(PNG, CopyEvent::Replied(Ok(status))), CopyAction::Fail(_)));
}
