//! Output sinks for a finished capture: a timestamped PNG, and the same bytes on the
//! clipboard.
//!
//! A clipboard offer is served live by the client that makes it, so it dies with that
//! process. A detached helper process therefore owns the offer. It reports over a pipe
//! whether it could claim the selection before it starts serving.

use vstd::prelude::*;
use vstd::string::StringExecFns;
use vstd::utf8::encode_utf8;

use crate::paths::{join, path_in, SLASH};
use crate::raster::RgbaImage;
use crate::text::joined;

verus! {

/// The byte that the helper reports once it has claimed the selection.
pub const STATUS_OK: u8 = 0;

/// The byte that it reports where it could not.
pub const STATUS_ERR: u8 = 1;

/// Hidden subcommand: the helper process that owns the clipboard offer.
pub const SERVE_ARG: &'static str = "__serve-clipboard";

/// An image of `w` by `h` as a PNG file, or why there is none.
pub uninterp spec fn png_of(data: Seq<u8>, w: u32, h: u32) -> Result<Seq<u8>, Seq<char>>;

/// `image::codecs::png::PngEncoder` with its default settings, writing eight-bit RGBA.
/// Claimed of it: the file, or the error's text, depends on the image alone.
#[verifier::external_body]
fn write_png(img: &RgbaImage) -> (r: Result<Vec<u8>, String>)
    requires
        img.wf(),
    ensures
        match r {
            Ok(png) => png_of(img.data@, img.width, img.height) == Ok::<Seq<u8>, Seq<char>>(png@),
            Err(e) => png_of(img.data@, img.width, img.height) == Err::<Seq<u8>, Seq<char>>(e@),
        },
{
    let mut png: Vec<u8> = Vec::new();
    let encoder = image::codecs::png::PngEncoder::new(&mut png);
    let color = image::ExtendedColorType::Rgba8;
    match image::ImageEncoder::write_image(encoder, &img.data, img.width, img.height, color) {
        Ok(()) => Ok(png),
        Err(e) => Err(e.to_string()),
    }
}

/// Encode an image as a PNG file.
pub fn encode_png(img: &RgbaImage) -> (r: Result<Vec<u8>, String>)
    requires
        img.wf(),
    ensures
        match (r, png_of(img.data@, img.width, img.height)) {
            (Ok(png), Ok(file)) => png@ == file,
            (Err(e), Err(why)) => e@ == "PNG encode failed: "@ + why,
            _ => false,
        },
{
    match write_png(img) {
        Ok(png) => Ok(png),
        Err(e) => Err(joined("PNG encode failed: ", e.as_str())),
    }
}

pub open spec fn is_digit(c: char) -> bool {
    '0' <= c <= '9'
}

/// A timestamp that can be part of a file's name: digits and hyphens, in the form
/// `YYYY-MM-DD-HHMMSS`, with a sign before a year before the first.
pub open spec fn is_stamp(s: Seq<char>) -> bool {
    &&& s.len() >= 17
    &&& forall|i: int| 0 <= i < s.len() ==> is_digit(#[trigger] s[i]) || s[i] == '-'
    &&& forall|i: int|
        s.len() - 13 <= i < s.len() ==> (#[trigger] s[i] == '-' <==> i == s.len() - 13 || i
            == s.len() - 10 || i == s.len() - 7)
}

/// How a timestamp is written.
pub const STAMP_FORMAT: &'static str = "%Y-%m-%d-%H%M%S";

/// `jiff::Zoned::now` and its `strftime`: the local time now, in a form that is the same
/// for every time. Which time it is rests on the clock and the time zone of the machine.
/// `now` panics where the clock is set outside the years that it knows, before the year
/// -9999 or after 9999.
#[verifier::external_body]
fn now_as(format: &str) -> (s: String)
    requires
        format@ == STAMP_FORMAT@,
    ensures
        is_stamp(s@),
{
    jiff::Zoned::now().strftime(format).to_string()
}

/// The name of a capture's file.
pub open spec fn file_name(stamp: Seq<char>) -> Seq<char> {
    "frame-"@ + stamp + ".png"@
}

/// The directory that captures are saved in: the one set, or `Pictures` at home.
pub open spec fn pictures_dir(set: Option<&[u8]>, home: Option<&[u8]>) -> Seq<u8> {
    match (set, home) {
        (Some(dir), _) => dir@,
        (None, Some(h)) => path_in(h@, encode_utf8("Pictures"@)),
        (None, None) => Seq::empty(),
    }
}

/// The path for a capture saved at the time that `stamp` gives. `set` is the pictures
/// directory, where the environment sets one, and `home` the home directory.
pub fn path_at(set: Option<&[u8]>, home: Option<&[u8]>, stamp: &str) -> (r: Vec<u8>)
    requires
        set is Some || home is Some,
    ensures
        r@ == path_in(pictures_dir(set, home), encode_utf8(file_name(stamp@))),
{
    let mut name: String = joined("frame-", stamp);
    name.append(".png");
    assert(name@ =~= file_name(stamp@));
    let dir: Vec<u8> = match set {
        Some(dir) => vstd::slice::slice_to_vec(dir),
        None => match home {
            Some(h) => join(h, "Pictures".as_bytes()),
            None => Vec::new(),
        },
    };
    join(dir.as_slice(), name.as_str().as_bytes())
}

/// The path for a capture saved now.
pub fn output_path(set: Option<&[u8]>, home: Option<&[u8]>) -> (r: Vec<u8>)
    requires
        set is Some || home is Some,
    ensures
        exists|stamp: Seq<char>| #[trigger]
            is_stamp(stamp) && r@ == path_in(
                pictures_dir(set, home),
                encode_utf8(file_name(stamp)),
            ),
{
    let stamp: String = now_as(STAMP_FORMAT);
    let r: Vec<u8> = path_at(set, home, stamp.as_str());
    assert(is_stamp(stamp@));
    r
}

/// A capture's file name has no slash in it, so the file lands directly within its
/// directory.
pub proof fn law_capture_lands_in_its_directory(dir: Seq<u8>, stamp: Seq<char>)
    requires
        is_stamp(stamp),
    ensures
        !encode_utf8(file_name(stamp)).contains(SLASH),
        dir.is_prefix_of(path_in(dir, encode_utf8(file_name(stamp)))),
        encode_utf8(file_name(stamp)).is_suffix_of(path_in(dir, encode_utf8(file_name(stamp)))),
{
    reveal_strlit("frame-");
    reveal_strlit(".png");
    let name = file_name(stamp);
    assert forall|i: int| 0 <= i < name.len() implies (#[trigger] name[i]) as u32 <= 127 && name[i]
        != '/' by {
        if 6 <= i < 6 + stamp.len() {
            assert(name[i] == stamp[i - 6]);
        } else if i >= 6 + stamp.len() {
            assert(name[i] == ".png"@[i - 6 - stamp.len()]);
        }
    }
    assert(vstd::utf8::is_ascii_chars(name));
    vstd::utf8::is_ascii_chars_encode_utf8(name);
    let bytes = encode_utf8(name);
    assert forall|i: int| 0 <= i < bytes.len() implies #[trigger] bytes[i] != SLASH by {
        assert(bytes[i] == name[i] as u8);
        assert(name[i] != '/');
    }
    crate::paths::law_joined_path_is_in_the_directory(dir, bytes);
}

/// Different timestamps give different file names.
pub proof fn law_times_give_different_names(a: Seq<char>, b: Seq<char>)
    requires
        file_name(a) == file_name(b),
    ensures
        a == b,
{
    reveal_strlit("frame-");
    reveal_strlit(".png");
    assert(a =~= file_name(a).subrange(6, file_name(a).len() - 4));
    assert(b =~= file_name(b).subrange(6, file_name(b).len() - 4));
}

/// A capture on its way out: the PNG file's bytes, and the path that it goes to.
pub struct SaveJob {
    pub path: Vec<u8>,
    pub png: Vec<u8>,
}

/// Prepare to save `img` now. `set` is the pictures directory, where the environment sets
/// one, and `home` the home directory.
pub fn start_save(img: &RgbaImage, set: Option<&[u8]>, home: Option<&[u8]>) -> (r: Result<
    SaveJob,
    String,
>)
    requires
        img.wf(),
        set is Some || home is Some,
    ensures
        match (r, png_of(img.data@, img.width, img.height)) {
            (Ok(job), Ok(file)) => job.png@ == file && exists|stamp: Seq<char>| #[trigger]
                is_stamp(stamp) && job.path@ == path_in(
                    pictures_dir(set, home),
                    encode_utf8(file_name(stamp)),
                ),
            (Err(e), Err(why)) => e@ == "PNG encode failed: "@ + why,
            _ => false,
        },
{
    match encode_png(img) {
        Ok(png) => Ok(SaveJob { path: output_path(set, home), png }),
        Err(e) => Err(e),
    }
}

/// What a step of saving came to. An error comes with its text.
pub enum SaveEvent {
    /// The directory exists, or was created.
    DirCreated(Result<(), String>),
    /// The file was written.
    Written(Result<(), String>),
    /// The clipboard has the image.
    Copied(Result<(), String>),
}

/// What saving does next.
pub enum SaveAction<'a> {
    /// Write these bytes to this path.
    Write { path: &'a [u8], png: &'a [u8] },
    /// Hand these bytes to the clipboard.
    Copy { png: &'a [u8] },
    /// The capture is at this path and on the clipboard.
    Done { path: &'a [u8] },
    Fail(String),
}

/// What `event` leads to while `job` is being saved.
pub open spec fn save_leads_to(job: SaveJob, event: SaveEvent, action: SaveAction<'_>) -> bool {
    match (event, action) {
        (SaveEvent::DirCreated(Ok(_)), SaveAction::Write { path, png }) => path@ == job.path@
            && png@ == job.png@,
        (SaveEvent::DirCreated(Err(e)), SaveAction::Fail(m)) => m@ == "create dir failed: "@ + e@,
        (SaveEvent::Written(Ok(_)), SaveAction::Copy { png }) => png@ == job.png@,
        (SaveEvent::Written(Err(e)), SaveAction::Fail(m)) => m@ == "write PNG failed: "@ + e@,
        (SaveEvent::Copied(Ok(_)), SaveAction::Done { path }) => path@ == job.path@,
        (SaveEvent::Copied(Err(e)), SaveAction::Fail(m)) => m == e,
        _ => false,
    }
}

/// Save and copy, step by step: the directory, the file, the clipboard. The first failure
/// ends it. To save alone is to stop when the file was written.
pub fn save_and_copy<'a>(job: &'a SaveJob, event: SaveEvent) -> (r: SaveAction<'a>)
    ensures
        save_leads_to(*job, event, r),
{
    match event {
        SaveEvent::DirCreated(Ok(_)) => SaveAction::Write {
            path: job.path.as_slice(),
            png: job.png.as_slice(),
        },
        SaveEvent::DirCreated(Err(e)) => SaveAction::Fail(
            joined("create dir failed: ", e.as_str()),
        ),
        SaveEvent::Written(Ok(_)) => SaveAction::Copy { png: job.png.as_slice() },
        SaveEvent::Written(Err(e)) => SaveAction::Fail(joined("write PNG failed: ", e.as_str())),
        SaveEvent::Copied(Ok(_)) => SaveAction::Done { path: job.path.as_slice() },
        SaveEvent::Copied(Err(e)) => SaveAction::Fail(e),
    }
}

/// File and clipboard hold the same bytes, and the path that comes back is the one that was
/// written to.
pub proof fn law_file_and_clipboard_hold_the_same(
    job: SaveJob,
    e1: SaveEvent,
    write: SaveAction<'_>,
    e2: SaveEvent,
    copy: SaveAction<'_>,
    e3: SaveEvent,
    done: SaveAction<'_>,
)
    requires
        save_leads_to(job, e1, write),
        save_leads_to(job, e2, copy),
        save_leads_to(job, e3, done),
        write is Write,
        copy is Copy,
        done is Done,
    ensures
        write->Write_png@ == copy->Copy_png@,
        write->Write_png@ == job.png@,
        write->Write_path@ == done->Done_path@,
{
}

/// Nothing reaches the clipboard unless the file was written, and nothing is written unless
/// its directory is there.
pub proof fn law_copy_follows_a_written_file(job: SaveJob, event: SaveEvent, action: SaveAction<'_>)
    requires
        save_leads_to(job, event, action),
    ensures
        action is Write ==> event matches SaveEvent::DirCreated(Ok(_)),
        action is Copy ==> event matches SaveEvent::Written(Ok(_)),
        action is Done ==> event matches SaveEvent::Copied(Ok(_)),
{
}

/// What a step of handing an image to the helper came to.
pub enum CopyEvent {
    /// The path of this program was found.
    Located(Result<(), String>),
    /// The helper was started.
    Spawned(Result<(), String>),
    /// The helper was sent the image.
    Sent(Result<(), String>),
    /// The helper reported a byte, or went away without one.
    Replied(Result<u8, String>),
}

/// What the parent of the helper does next.
pub enum CopyAction<'a> {
    Spawn,
    /// Send these bytes to the helper, and nothing after them.
    Send { png: &'a [u8] },
    AwaitReply,
    Done,
    Fail(String),
}

/// Hand the image in `png` to the helper, step by step. It counts as copied once the helper reports
/// that it owns the offer, so a clipboard failure is reported by the process that the
/// user is watching.
pub fn copy_to_clipboard<'a>(png: &'a [u8], event: CopyEvent) -> (r: CopyAction<'a>)
    ensures
        match (event, r) {
            (CopyEvent::Located(Ok(_)), CopyAction::Spawn) => true,
            (CopyEvent::Located(Err(e)), CopyAction::Fail(m)) => m@ == "current_exe failed: "@ + e@,
            (CopyEvent::Spawned(Ok(_)), CopyAction::Send { png: sent }) => sent@ == png@,
            (CopyEvent::Spawned(Err(e)), CopyAction::Fail(m)) => m@
                == "spawn clipboard helper failed: "@ + e@,
            (CopyEvent::Sent(Ok(_)), CopyAction::AwaitReply) => true,
            (CopyEvent::Sent(Err(e)), CopyAction::Fail(m)) => m@
                == "send PNG to clipboard helper failed: "@ + e@,
            (CopyEvent::Replied(Ok(status)), CopyAction::Done) => status == STATUS_OK,
            (CopyEvent::Replied(Ok(status)), CopyAction::Fail(m)) => status != STATUS_OK && m@
                == "clipboard helper could not claim the selection"@,
            (CopyEvent::Replied(Err(e)), CopyAction::Fail(m)) => m@
                == "clipboard helper exited before serving: "@ + e@,
            _ => false,
        },
{
    match event {
        CopyEvent::Located(Ok(_)) => CopyAction::Spawn,
        CopyEvent::Located(Err(e)) => CopyAction::Fail(joined("current_exe failed: ", e.as_str())),
        CopyEvent::Spawned(Ok(_)) => CopyAction::Send { png },
        CopyEvent::Spawned(Err(e)) => CopyAction::Fail(
            joined("spawn clipboard helper failed: ", e.as_str()),
        ),
        CopyEvent::Sent(Ok(_)) => CopyAction::AwaitReply,
        CopyEvent::Sent(Err(e)) => CopyAction::Fail(
            joined("send PNG to clipboard helper failed: ", e.as_str()),
        ),
        CopyEvent::Replied(Ok(status)) => {
            if status == STATUS_OK {
                CopyAction::Done
            } else {
                CopyAction::Fail("clipboard helper could not claim the selection".to_owned())
            }
        },
        CopyEvent::Replied(Err(e)) => CopyAction::Fail(
            joined("clipboard helper exited before serving: ", e.as_str()),
        ),
    }
}

/// The byte that tells the parent whether the selection was claimed.
pub open spec fn report_of(claimed: bool) -> u8 {
    if claimed {
        STATUS_OK
    } else {
        STATUS_ERR
    }
}

/// The parent takes the selection as claimed exactly where it was.
pub proof fn law_parent_learns_of_the_claim(claimed: bool)
    ensures
        report_of(claimed) == STATUS_OK <==> claimed,
{
}

/// What a step of the helper came to.
pub enum ServeEvent {
    /// The image was read.
    Read(Result<Vec<u8>, String>),
    /// The selection was claimed.
    Claimed(Result<(), String>),
    /// Another client took the clipboard.
    Served(Result<(), String>),
}

/// What the helper does next.
pub enum ServeAction {
    /// Claim the selection, offering these bytes.
    Claim { png: Vec<u8> },
    /// Report this byte to the parent, then serve.
    Serve { status: u8 },
    /// Report this byte to the parent, if there is one, complain, and exit.
    Fail { report: Option<u8>, message: String, code: i32 },
    /// Exit.
    Exit { code: i32 },
}

/// The helper, step by step: read an image, claim the selection, and serve paste requests
/// until another client takes the clipboard.
pub fn serve_clipboard(event: ServeEvent) -> (r: ServeAction)
    ensures
        match (event, r) {
            (ServeEvent::Read(Ok(read)), ServeAction::Claim { png }) => png == read,
            (
                ServeEvent::Read(Err(e)),
                ServeAction::Fail { report: None, message, code },
            ) => message@ == "clipboard helper: reading stdin failed: "@ + e@ && code == 1,
            (ServeEvent::Claimed(Ok(_)), ServeAction::Serve { status }) => status == report_of(true),
            (
                ServeEvent::Claimed(Err(e)),
                ServeAction::Fail { report: Some(status), message, code },
            ) => status == report_of(false) && message@
                == "clipboard helper: claiming the selection failed: "@ + e@ && code == 1,
            (ServeEvent::Served(Ok(_)), ServeAction::Exit { code }) => code == 0,
            (
                ServeEvent::Served(Err(e)),
                ServeAction::Fail { report: None, message, code },
            ) => message@ == "clipboard helper: serving failed: "@ + e@ && code == 1,
            _ => false,
        },
{
    match event {
        ServeEvent::Read(Ok(png)) => ServeAction::Claim { png },
        ServeEvent::Read(Err(e)) => ServeAction::Fail {
            report: None,
            message: joined("clipboard helper: reading stdin failed: ", e.as_str()),
            code: 1,
        },
        ServeEvent::Claimed(Ok(_)) => ServeAction::Serve { status: STATUS_OK },
        ServeEvent::Claimed(Err(e)) => ServeAction::Fail {
            report: Some(STATUS_ERR),
            message: joined("clipboard helper: claiming the selection failed: ", e.as_str()),
            code: 1,
        },
        ServeEvent::Served(Ok(_)) => ServeAction::Exit { code: 0 },
        ServeEvent::Served(Err(e)) => ServeAction::Fail {
            report: None,
            message: joined("clipboard helper: serving failed: ", e.as_str()),
            code: 1,
        },
    }
}

/// A capture's file is called `frame-`, then the time, then `.png`.
pub proof fn law_file_is_named_after_its_time(stamp: Seq<char>)
    ensures
        ({
            let name = file_name(stamp);
            &&& name.len() == stamp.len() + 10
            &&& name.take(6) == "frame-"@
            &&& name.subrange(6, (6 + stamp.len()) as int) == stamp
            &&& name.skip((6 + stamp.len()) as int) == ".png"@
        }),
{
    reveal_strlit("frame-");
    reveal_strlit(".png");
    let name = file_name(stamp);
    assert(name.take(6) =~= "frame-"@);
    assert(name.subrange(6, (6 + stamp.len()) as int) =~= stamp);
    assert(name.skip((6 + stamp.len()) as int) =~= ".png"@);
}

/// Captures go to the directory that is set, whatever the home directory is, and else to
/// `Pictures` in the home directory, after a slash where that does not end in one.
pub proof fn law_captures_go_to_the_pictures(set: Option<&[u8]>, home: &[u8])
    ensures
        set matches Some(dir) ==> pictures_dir(set, Some(home)) == dir@ && pictures_dir(set, None)
            == dir@,
        set is None ==> pictures_dir(set, Some(home)) == (if home@.len() > 0 && home@[home@.len()
            - 1] != 47 {
            home@.push(47u8) + encode_utf8("Pictures"@)
        } else {
            home@ + encode_utf8("Pictures"@)
        }),
{
    reveal_strlit("Pictures");
    let name = "Pictures"@;
    assert(vstd::utf8::is_ascii_chars(name));
    vstd::utf8::is_ascii_chars_encode_utf8(name);
    assert(encode_utf8(name)[0] == name[0] as u8);
    assert(name[0] == 'P');
}

/// Saving goes on wherever a step succeeded, and with the capture's own bytes and path: once
/// the directory is there the file is written, once it is written the clipboard gets it, and
/// then the capture is done. Wherever a step failed, saving fails and says which step and
/// why.
pub proof fn law_saving_goes_on_after_success(job: SaveJob, event: SaveEvent, action: SaveAction<'_>)
    requires
        save_leads_to(job, event, action),
    ensures
        match event {
            SaveEvent::DirCreated(Ok(_)) => action matches SaveAction::Write { path, png } && path@
                == job.path@ && png@ == job.png@,
            SaveEvent::Written(Ok(_)) => action matches SaveAction::Copy { png } && png@ == job.png@,
            SaveEvent::Copied(Ok(_)) => action matches SaveAction::Done { path } && path@
                == job.path@,
            SaveEvent::DirCreated(Err(e)) => action matches SaveAction::Fail(m) && m@
                == "create dir failed: "@ + e@,
            SaveEvent::Written(Err(e)) => action matches SaveAction::Fail(m) && m@
                == "write PNG failed: "@ + e@,
            SaveEvent::Copied(Err(e)) => action matches SaveAction::Fail(m) && m@ == e@,
        },
{
}

/// The helper reports nought for a claim that succeeded and one for a claim that did not.
pub proof fn law_report_is_nought_or_one(claimed: bool)
    ensures
        claimed ==> report_of(claimed) == 0,
        !claimed ==> report_of(claimed) == 1,
{
}

} // verus!
