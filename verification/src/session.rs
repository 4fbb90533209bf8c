//! What a run of the program does, from its argument to the overlay.
//!
//! A run alternates between work outside (signalling, grabbing, selecting, capturing
//! frames) and decisions. The decisions are here: each event leads to the next action.

use vstd::prelude::*;

use crate::imaging::{cropped, cut_len, cut_start, law_selection_is_cut_out_whole};
use crate::monitor::Reply;
use crate::output::SERVE_ARG;
use crate::overlay::Rect;
use crate::raster::RgbaImage;
use crate::scroll::laws::stitched;
use crate::scroll::physical_to_logical;
use crate::scroll::stitch::{Push, StitchState, Stitcher};
use crate::scroll::units::logical_of;
use crate::sock::STOP;
use crate::text::{joined, same};
use crate::window::{law_listed_windows_can_be_cropped, offers, reported, visible_windows};

verus! {

/// What to capture.
#[derive(Clone, Copy, Debug, PartialEq, Eq, Structural)]
pub enum Mode {
    /// A region of the focused output, selected over a frozen grab.
    Region,
    /// The whole focused output.
    Full,
    /// One window, picked over a frozen grab.
    Window,
    /// A region while the window underneath is scrolled, as one tall image.
    Scroll,
}

/// What the program was asked to do.
#[derive(Clone, Copy, Debug, PartialEq, Eq, Structural)]
pub enum Command {
    Capture(Mode),
    /// Own a clipboard offer.
    ServeClipboard,
    /// Nothing that it knows.
    Usage,
}

/// The argument that asks for a mode.
pub open spec fn name_of(mode: Mode) -> Seq<char> {
    match mode {
        Mode::Region => "region"@,
        Mode::Full => "full"@,
        Mode::Window => "window"@,
        Mode::Scroll => "scroll"@,
    }
}

/// The command that the program's first argument gives.
pub fn command_of(arg: Option<&str>) -> (r: Command)
    ensures
        match r {
            Command::Capture(mode) => arg matches Some(a) && a@ == name_of(mode),
            Command::ServeClipboard => arg matches Some(a) && a@ == SERVE_ARG@,
            Command::Usage => arg matches Some(a) ==> a@ != SERVE_ARG@ && (forall|mode: Mode|
                a@ != #[trigger] name_of(mode)),
        },
        arg is None ==> r == Command::Usage,
        arg matches Some(a) ==> {
            &&& a@ == "region"@ <==> r == Command::Capture(Mode::Region)
            &&& a@ == "full"@ <==> r == Command::Capture(Mode::Full)
            &&& a@ == "window"@ <==> r == Command::Capture(Mode::Window)
            &&& a@ == "scroll"@ <==> r == Command::Capture(Mode::Scroll)
            &&& a@ == "__serve-clipboard"@ <==> r == Command::ServeClipboard
        },
{
    proof {
        law_arguments_are_unambiguous(Mode::Region, Mode::Full);
        law_arguments_are_unambiguous(Mode::Region, Mode::Window);
        law_arguments_are_unambiguous(Mode::Region, Mode::Scroll);
        law_arguments_are_unambiguous(Mode::Full, Mode::Window);
        law_arguments_are_unambiguous(Mode::Full, Mode::Scroll);
        law_arguments_are_unambiguous(Mode::Window, Mode::Scroll);
        law_arguments_are_unambiguous(Mode::Scroll, Mode::Scroll);
    }
    let a: &str = match arg {
        Some(a) => a,
        None => {
            return Command::Usage;
        },
    };
    if same(a, "region") {
        Command::Capture(Mode::Region)
    } else if same(a, "full") {
        Command::Capture(Mode::Full)
    } else if same(a, "window") {
        Command::Capture(Mode::Window)
    } else if same(a, "scroll") {
        Command::Capture(Mode::Scroll)
    } else if same(a, SERVE_ARG) {
        Command::ServeClipboard
    } else {
        Command::Usage
    }
}

/// No two modes have one name, and none is called like the clipboard helper.
pub proof fn law_arguments_are_unambiguous(a: Mode, b: Mode)
    ensures
        name_of(a) == name_of(b) ==> a == b,
        name_of(a) != SERVE_ARG@,
{
    reveal_strlit("region");
    reveal_strlit("full");
    reveal_strlit("window");
    reveal_strlit("scroll");
    reveal_strlit("__serve-clipboard");
    assert("region"@[0] == 'r');
    assert("window"@[0] == 'w');
    assert("scroll"@[0] == 's');
    assert("__serve-clipboard"@[0] == '_');
    assert("full"@[0] == 'f');
}

/// A rectangle of an output in logical pixels.
#[derive(Clone, Copy, Debug, PartialEq, Eq, Structural)]
pub struct Region {
    pub x: i32,
    pub y: i32,
    pub width: i32,
    pub height: i32,
}

/// Where a run stands: what it waits for.
#[derive(Clone, Copy, Debug, PartialEq, Eq, Structural)]
pub enum Stage {
    /// To have signalled a running session.
    Signal,
    /// The grab.
    Grab,
    /// The compositor's windows.
    Windows,
    /// The selection.
    Select,
    /// The outline around the region.
    Mark,
    /// The capture session.
    Open,
    /// The socket.
    Bind,
    /// The first frame.
    First,
    /// A command, once for each frame.
    Poll,
    /// A frame.
    Frame,
    /// The outline and the socket to be gone.
    Release,
    /// The overlay to close.
    Show,
    /// Nothing more.
    Over,
}

/// A run of the program.
pub struct Run {
    pub mode: Mode,
    pub stage: Stage,
    /// Physical pixels per logical pixel of the output.
    pub scale: i32,
    /// The output that is focused.
    pub target: Option<String>,
    /// The grab, while something is selected over it.
    pub grab: Option<RgbaImage>,
    /// The region that a scroll capture reads.
    pub region: Region,
    /// The frames of a scroll capture, stitched so far.
    pub stitcher: Option<Stitcher>,
}

/// What an action came to. An error comes with its text.
pub enum Event {
    /// Whether a running session took the stop command.
    Signalled(bool),
    /// The focused output, if it is known, and a grab of it with its scale.
    Grabbed { target: Option<String>, grab: Result<(RgbaImage, i32), String> },
    /// What the compositor said of the monitor and of its clients.
    Listed { view: Option<Reply>, clients: Option<Reply> },
    /// What was selected, unless it was cancelled.
    Selected(Option<Rect>),
    Marked(Result<(), String>),
    Opened(Result<(), String>),
    Bound(Result<(), String>),
    Framed(Result<RgbaImage, String>),
    /// The command that arrived since the last frame.
    Polled(Option<String>),
    Released,
    Shown(Result<(), String>),
}

/// What to do next.
pub enum Action {
    /// Send the stop command to a running session.
    Signal,
    /// Find the focused output and grab it.
    Grab,
    /// Ask the compositor for the monitor and for its clients.
    QueryWindows,
    SelectRegion,
    SelectWindow(Vec<Rect>),
    /// Outline the region.
    Mark(Region),
    /// Open a session for capturing frames.
    Open,
    /// Bind the socket.
    Bind,
    CaptureFrame(Region),
    /// Look for a command.
    Poll,
    /// Wait for what is left of the frame's time, then look for a command.
    Pace,
    /// Take down the outline and release the socket. `capped` is the height reached,
    /// where that is why.
    Release { capped: Option<u32> },
    /// Open the overlay.
    Show(RgbaImage),
    /// Exit, saying this.
    Quit { code: i32, message: Option<String> },
}

/// The next step of a run.
pub struct Next {
    pub run: Run,
    pub action: Action,
    /// Something that went wrong without ending the run.
    pub warning: Option<String>,
}

/// `action` exits with `code`, saying `message`.
pub open spec fn quits(action: Action, code: i32, message: Seq<char>) -> bool {
    action matches Action::Quit { code: c, message: Some(m) } && c == code && m@ == message
}

/// `warning` says `message`.
pub open spec fn warns(warning: Option<String>, message: Seq<char>) -> bool {
    warning matches Some(w) && w@ == message
}

/// `img` is the part of `grab` that `rect` covers.
pub open spec fn is_crop(grab: RgbaImage, rect: Rect, img: RgbaImage) -> bool {
    &&& img.wf()
    &&& img.width == cut_len(rect.x, rect.width, grab.width)
    &&& img.height == cut_len(rect.y, rect.height, grab.height)
    &&& forall|x: int, y: int, c: int|
        0 <= x < img.width && 0 <= y < img.height && 0 <= c < 4 ==> #[trigger] img.at(x, y, c)
            == grab.at(cut_start(rect.x, grab.width) + x, cut_start(rect.y, grab.height) + y, c)
}

/// The selection in logical pixels.
pub open spec fn is_logical(rect: Rect, scale: i32, region: Region) -> bool {
    (region.x as int, region.y as int, region.width as int, region.height as int) == logical_of(
        rect,
        scale,
    )
}

impl Run {
    /// What the stage needs is there.
    pub open spec fn wf(self) -> bool {
        &&& self.stage == Stage::Windows ==> self.target is Some
        &&& (self.stage == Stage::Windows || self.stage == Stage::Select) ==> (self.grab matches
            Some(g) && g.wf())
        &&& (self.stage == Stage::Poll || self.stage == Stage::Frame || self.stage
            == Stage::Release) ==> (self.stitcher matches Some(s) && s.wf())
    }

    /// The event is the one that the run waits for.
    pub open spec fn awaits(self, event: Event) -> bool {
        match event {
            Event::Signalled(_) => self.stage == Stage::Signal,
            Event::Grabbed { grab, .. } => {
                &&& self.stage == Stage::Grab
                &&& grab matches Ok((img, _)) ==> img.wf()
            },
            Event::Listed { .. } => self.stage == Stage::Windows,
            Event::Selected(_) => self.stage == Stage::Select,
            Event::Marked(_) => self.stage == Stage::Mark,
            Event::Opened(_) => self.stage == Stage::Open,
            Event::Bound(_) => self.stage == Stage::Bind,
            Event::Framed(frame) => {
                &&& self.stage == Stage::First || self.stage == Stage::Frame
                &&& frame matches Ok(img) ==> img.wf() && (self.stage == Stage::Frame ==> ({
                    let s = self.stitcher->0@;
                    s.can_count() && s.h >= 1
                }))
            },
            Event::Polled(_) => self.stage == Stage::Poll,
            Event::Released => self.stage == Stage::Release,
            Event::Shown(_) => self.stage == Stage::Show,
        }
    }

    /// The run at `stage`, all else as it is.
    pub open spec fn at(self, stage: Stage) -> Run {
        Run { stage, ..self }
    }

    /// What `event` leads to.
    pub open spec fn steps_to(self, event: Event, next: Next) -> bool {
        let Next { run, action, warning } = next;
        match event {
            Event::Signalled(delivered) => {
                &&& warning is None
                &&& if delivered {
                    action matches Action::Quit { code: 0, message: None } && run == self.at(
                        Stage::Over,
                    )
                } else {
                    action is Grab && run == self.at(Stage::Grab)
                }
            },
            Event::Grabbed { grab: Err(e), .. } => {
                &&& warning is None
                &&& quits(action, 1, "capture failed: "@ + e@)
                &&& run == self.at(Stage::Over)
            },
            Event::Grabbed { target, grab: Ok((img, scale)) } => {
                let seen = Run { scale, target, grab: Some(img), ..self };
                &&& warning is None
                &&& match self.mode {
                    Mode::Full => action == Action::Show(img) && run == (Run {
                        scale,
                        target,
                        ..self.at(Stage::Show)
                    }),
                    Mode::Window => match target {
                        None => quits(action, 1, "no focused output; cannot enumerate windows"@)
                            && run == seen.at(Stage::Over),
                        Some(_) => action is QueryWindows && run == seen.at(Stage::Windows),
                    },
                    _ => action is SelectRegion && run == seen.at(Stage::Select),
                }
            },
            Event::Listed { view, clients } => {
                let name = self.target->0@;
                let grab = self.grab->0;
                &&& warning is None
                &&& match action {
                    Action::SelectWindow(rects) => {
                        &&& rects@.len() > 0
                        &&& offers(name, self.scale, grab.width, grab.height, view, clients, rects@)
                        &&& run == self.at(Stage::Select)
                    },
                    _ => {
                        &&& offers(
                            name,
                            self.scale,
                            grab.width,
                            grab.height,
                            view,
                            clients,
                            Seq::empty(),
                        )
                        &&& quits(action, 1, "no capturable windows on "@ + name)
                        &&& run == self.at(Stage::Over)
                    },
                }
            },
            Event::Selected(None) => {
                &&& warning is None
                &&& quits(action, 0, "cancelled"@)
                &&& run == self.at(Stage::Over)
            },
            Event::Selected(Some(rect)) => {
                &&& warning is None
                &&& if self.mode == Mode::Scroll {
                    action matches Action::Mark(region) && is_logical(rect, self.scale, region)
                        && run == (Run { grab: None, region, ..self.at(Stage::Mark) })
                } else {
                    action matches Action::Show(img) && is_crop(self.grab->0, rect, img) && run
                        == (Run { grab: None, ..self.at(Stage::Show) })
                }
            },
            Event::Marked(outcome) => {
                &&& match outcome {
                    Ok(_) => warning is None,
                    Err(e) => warns(warning, "region indicator unavailable: "@ + e@),
                }
                &&& action is Open
                &&& run == self.at(Stage::Open)
            },
            Event::Opened(outcome) => {
                &&& warning is None
                &&& match outcome {
                    Ok(_) => action is Bind && run == self.at(Stage::Bind),
                    Err(e) => quits(action, 1, "capture session failed: "@ + e@) && run == self.at(
                        Stage::Over,
                    ),
                }
            },
            Event::Bound(outcome) => {
                &&& warning is None
                &&& match outcome {
                    Ok(_) => action == Action::CaptureFrame(self.region) && run == self.at(
                        Stage::First,
                    ),
                    Err(e) => quits(action, 1, e@) && run == self.at(Stage::Over),
                }
            },
            Event::Framed(frame) => if self.stage == Stage::First {
                &&& warning is None
                &&& match frame {
                    Ok(img) => {
                        &&& action is Poll
                        &&& run.stitcher matches Some(s) && s.wf() && s@ == StitchState::start(img)
                        &&& run == (Run { stitcher: run.stitcher, ..self.at(Stage::Poll) })
                    },
                    Err(e) => quits(action, 1, "first frame failed: "@ + e@) && run == self.at(
                        Stage::Over,
                    ),
                }
            } else {
                match frame {
                    Ok(img) => {
                        let (after, push) = self.stitcher->0@.step(img);
                        &&& warning is None
                        &&& run.stitcher matches Some(s) && s.wf() && s@ == after
                        &&& if push == Push::Full {
                            &&& action == (Action::Release { capped: Some(after.rows) })
                            &&& run == (Run { stitcher: run.stitcher, ..self.at(Stage::Release) })
                        } else {
                            &&& action is Pace
                            &&& run == (Run { stitcher: run.stitcher, ..self.at(Stage::Poll) })
                        }
                    },
                    Err(e) => {
                        &&& warns(warning, "frame dropped: "@ + e@)
                        &&& action is Pace
                        &&& run == self.at(Stage::Poll)
                    },
                }
            },
            Event::Polled(command) => {
                &&& warning is None
                &&& if command matches Some(c) && c@ == STOP@ {
                    action == (Action::Release { capped: None }) && run == self.at(Stage::Release)
                } else {
                    action == Action::CaptureFrame(self.region) && run == self.at(Stage::Frame)
                }
            },
            Event::Released => {
                let s = self.stitcher->0@;
                &&& warning is None
                &&& action matches Action::Show(img) && img.wf() && img.width == s.w && img.height
                    == s.rows && img.data@ == s.acc
                &&& run == (Run { stitcher: None, ..self.at(Stage::Show) })
            },
            Event::Shown(outcome) => {
                &&& warning is None
                &&& run == self.at(Stage::Over)
                &&& match outcome {
                    Ok(_) => action matches Action::Quit { code: 0, message: None },
                    Err(e) => quits(action, 1, "overlay failed: "@ + e@),
                }
            },
        }
    }

    /// Begin a run. A scroll capture first tries to stop one that is running: the same
    /// key starts and stops it.
    pub fn start(mode: Mode) -> (r: (Run, Action))
        ensures
            r.0.wf(),
            r.0 == (Run {
                mode,
                stage: if mode == Mode::Scroll {
                    Stage::Signal
                } else {
                    Stage::Grab
                },
                scale: 1,
                target: None,
                grab: None,
                region: Region { x: 0, y: 0, width: 0, height: 0 },
                stitcher: None,
            }),
            if mode == Mode::Scroll {
                r.1 is Signal
            } else {
                r.1 is Grab
            },
    {
        let scroll: bool = mode == Mode::Scroll;
        let run: Run = Run {
            mode,
            stage: if scroll {
                Stage::Signal
            } else {
                Stage::Grab
            },
            scale: 1,
            target: None,
            grab: None,
            region: Region { x: 0, y: 0, width: 0, height: 0 },
            stitcher: None,
        };
        (
            run,
            if scroll {
                Action::Signal
            } else {
                Action::Grab
            },
        )
    }

    fn quit(self, code: i32, message: String) -> (n: Next)
        ensures
            n.run == self.at(Stage::Over),
            n.run.wf(),
            quits(n.action, code, message@),
            n.warning is None,
    {
        let mut run: Run = self;
        run.stage = Stage::Over;
        Next { run, action: Action::Quit { code, message: Some(message) }, warning: None }
    }

    fn go(self, stage: Stage, action: Action) -> (n: Next)
        ensures
            n == (Next { run: self.at(stage), action, warning: None }),
    {
        let mut run: Run = self;
        run.stage = stage;
        Next { run, action, warning: None }
    }

    fn on_grab(self, target: Option<String>, img: RgbaImage, scale: i32) -> (n: Next)
        requires
            self.stage == Stage::Grab,
            img.wf(),
        ensures
            n.run.wf(),
            self.steps_to((Event::Grabbed { target, grab: Ok((img, scale)) }), n),
    {
        let mut run: Run = self;
        run.scale = scale;
        let known: bool = target.is_some();
        run.target = target;
        match run.mode {
            Mode::Full => run.go(Stage::Show, Action::Show(img)),
            Mode::Window => {
                run.grab = Some(img);
                if known {
                    run.go(Stage::Windows, Action::QueryWindows)
                } else {
                    run.quit(1, "no focused output; cannot enumerate windows".to_owned())
                }
            },
            _ => {
                run.grab = Some(img);
                run.go(Stage::Select, Action::SelectRegion)
            },
        }
    }

    fn on_windows(self, view: Option<Reply>, clients: Option<Reply>) -> (n: Next)
        requires
            self.wf(),
            self.stage == Stage::Windows,
        ensures
            n.run.wf(),
            self.steps_to((Event::Listed { view, clients }), n),
    {
        let mut rects: Vec<Rect> = Vec::new();
        let mut message: String = "no capturable windows on ".to_owned();
        if let Some(name) = &self.target {
            if let Some(grab) = &self.grab {
                rects =
                visible_windows(
                    name.as_str(),
                    self.scale,
                    grab.width,
                    grab.height,
                    &view,
                    &clients,
                );
            }
            message = joined("no capturable windows on ", name.as_str());
        }
        if rects.len() == 0 {
            assert(rects@ =~= Seq::<Rect>::empty());
            self.quit(1, message)
        } else {
            self.go(Stage::Select, Action::SelectWindow(rects))
        }
    }

    fn on_selection(self, rect: Rect) -> (n: Next)
        requires
            self.wf(),
            self.stage == Stage::Select,
        ensures
            n.run.wf(),
            self.steps_to(Event::Selected(Some(rect)), n),
    {
        let mut run: Run = self;
        if run.mode == Mode::Scroll {
            run.grab = None;
            let (x, y, width, height) = physical_to_logical(&rect, run.scale);
            let region: Region = Region { x, y, width, height };
            run.region = region;
            return run.go(Stage::Mark, Action::Mark(region));
        }
        let img: RgbaImage = match run.grab.take() {
            Some(grab) => cropped(&grab, rect),
            None => RgbaImage { width: 0, height: 0, data: Vec::new() },
        };
        run.go(Stage::Show, Action::Show(img))
    }

    fn on_frame(self, img: RgbaImage) -> (n: Next)
        requires
            self.wf(),
            self.awaits(Event::Framed(Ok(img))),
        ensures
            n.run.wf(),
            self.steps_to(Event::Framed(Ok(img)), n),
    {
        let mut run: Run = self;
        if run.stage == Stage::First {
            run.stitcher = Some(Stitcher::new(&img));
            return run.go(Stage::Poll, Action::Poll);
        }
        let mut full: bool = false;
        let mut rows: u32 = 0;
        if let Some(stitcher) = run.stitcher.take() {
            let mut stitcher: Stitcher = stitcher;
            full = stitcher.push(&img) == Push::Full;
            rows = stitcher.rows();
            run.stitcher = Some(stitcher);
        }
        if full {
            run.go(Stage::Release, Action::Release { capped: Some(rows) })
        } else {
            run.go(Stage::Poll, Action::Pace)
        }
    }

    /// Take in what the last action came to.
    pub fn step(self, event: Event) -> (n: Next)
        requires
            self.wf(),
            self.awaits(event),
        ensures
            n.run.wf(),
            self.steps_to(event, n),
    {
        match event {
            Event::Signalled(delivered) => {
                if delivered {
                    self.go(Stage::Over, Action::Quit { code: 0, message: None })
                } else {
                    self.go(Stage::Grab, Action::Grab)
                }
            },
            Event::Grabbed { target, grab } => match grab {
                Ok((img, scale)) => self.on_grab(target, img, scale),
                Err(e) => self.quit(1, joined("capture failed: ", e.as_str())),
            },
            Event::Listed { view, clients } => self.on_windows(view, clients),
            Event::Selected(selection) => match selection {
                Some(rect) => self.on_selection(rect),
                None => self.quit(0, "cancelled".to_owned()),
            },
            Event::Marked(outcome) => {
                let mut next: Next = self.go(Stage::Open, Action::Open);
                if let Err(e) = outcome {
                    next.warning = Some(joined("region indicator unavailable: ", e.as_str()));
                }
                next
            },
            Event::Opened(outcome) => match outcome {
                Ok(_) => self.go(Stage::Bind, Action::Bind),
                Err(e) => self.quit(1, joined("capture session failed: ", e.as_str())),
            },
            Event::Bound(outcome) => match outcome {
                Ok(_) => {
                    let region: Region = self.region;
                    self.go(Stage::First, Action::CaptureFrame(region))
                },
                Err(e) => self.quit(1, e),
            },
            Event::Framed(frame) => match frame {
                Ok(img) => self.on_frame(img),
                Err(e) => {
                    if self.stage == Stage::First {
                        self.quit(1, joined("first frame failed: ", e.as_str()))
                    } else {
                        let mut next: Next = self.go(Stage::Poll, Action::Pace);
                        next.warning = Some(joined("frame dropped: ", e.as_str()));
                        next
                    }
                },
            },
            Event::Polled(command) => {
                let stop: bool = match &command {
                    Some(c) => same(c.as_str(), STOP),
                    None => false,
                };
                if stop {
                    self.go(Stage::Release, Action::Release { capped: None })
                } else {
                    let region: Region = self.region;
                    self.go(Stage::Frame, Action::CaptureFrame(region))
                }
            },
            Event::Released => {
                let mut run: Run = self;
                let img: RgbaImage = match run.stitcher.take() {
                    Some(stitcher) => stitcher.finish(),
                    None => RgbaImage { width: 0, height: 0, data: Vec::new() },
                };
                run.go(Stage::Show, Action::Show(img))
            },
            Event::Shown(outcome) => match outcome {
                Ok(_) => self.go(Stage::Over, Action::Quit { code: 0, message: None }),
                Err(e) => self.quit(1, joined("overlay failed: ", e.as_str())),
            },
        }
    }
}

/// The time that one frame may take, in nanoseconds: a thirtieth of a second, in whole
/// microseconds.
pub const FRAME_BUDGET: u64 = 33_333_000;

/// What is left of a frame's time after `elapsed` nanoseconds; nothing where capture
/// overran it.
pub fn pace(elapsed: u64) -> (r: Option<u64>)
    ensures
        match r {
            Some(rest) => elapsed + rest == FRAME_BUDGET,
            None => elapsed > FRAME_BUDGET,
        },
        r matches Some(rest) ==> elapsed + rest == 33_333_000,
        r is None <==> elapsed > 33_333_000,
{
    if elapsed <= FRAME_BUDGET {
        Some(FRAME_BUDGET - elapsed)
    } else {
        None
    }
}

/// A run that is over waits for nothing.
pub proof fn law_over_is_final(run: Run, event: Event)
    requires
        run.stage == Stage::Over,
    ensures
        !run.awaits(event),
{
}

/// A scroll capture opens the overlay only once the outline and the socket are gone. The
/// overlay blocks for as long as it is open, and a socket that is still bound would
/// swallow the next stop command.
pub proof fn law_scroll_shows_only_what_was_released(run: Run, event: Event, next: Next)
    requires
        run.mode == Mode::Scroll,
        run.awaits(event),
        run.steps_to(event, next),
        next.action is Show,
    ensures
        run.stage == Stage::Release,
        next.run.stitcher is None,
{
}

/// No frame is captured before the socket is bound, so the stop key works from the first
/// one on.
pub proof fn law_socket_comes_before_the_first_frame(run: Run, event: Event, next: Next)
    requires
        run.awaits(event),
        run.steps_to(event, next),
        next.action is CaptureFrame,
        run.stage != Stage::Poll,
    ensures
        event matches Event::Bound(Ok(_)),
        next.run.stage == Stage::First,
{
}

/// An invocation whose stop command reaches a running session does nothing else, and one
/// that reaches none becomes a session.
pub proof fn law_scroll_key_toggles(run: Run, delivered: bool, next: Next)
    requires
        run.stage == Stage::Signal,
        run.steps_to(Event::Signalled(delivered), next),
    ensures
        next.run.stage == Stage::Over <==> delivered,
        next.action is Grab <==> !delivered,
{
}

/// The stop command ends the capture, and what is shown is what was stitched until then.
pub proof fn law_stop_shows_what_was_stitched(run: Run, command: String, a: Next, b: Next)
    requires
        run.stage == Stage::Poll,
        command@ == STOP@,
        run.steps_to(Event::Polled(Some(command)), a),
        a.run.steps_to(Event::Released, b),
    ensures
        b.action matches Action::Show(img) && img.data@ == run.stitcher->0@.acc && img.height
            == run.stitcher->0@.rows,
{
}

/// One turn of the capture loop leads from `a` to `b`: no stop command, and then a frame or
/// a failure to capture one.
pub open spec fn ticks(a: Run, frame: Option<RgbaImage>, b: Run) -> bool {
    exists|command: Option<String>, n: Next, outcome: Result<RgbaImage, String>, m: Next|
        {
            &&& (command matches Some(c) ==> c@ != STOP@)
            &&& #[trigger] a.steps_to(Event::Polled(command), n)
            &&& frame == (match outcome {
                Ok(img) => Some(img),
                Err(_) => None::<RgbaImage>,
            })
            &&& #[trigger] n.run.steps_to(Event::Framed(outcome), m)
            &&& m.action is Pace
            &&& m.run == b
        }
}

/// Turns of the capture loop, one for each of `frames`, lead from `a` to `b`.
pub open spec fn loops_to(a: Run, frames: Seq<Option<RgbaImage>>, b: Run) -> bool
    decreases frames.len(),
{
    if frames.len() == 0 {
        b == a
    } else {
        exists|mid: Run| #[trigger]
            ticks(a, frames[0], mid) && loops_to(mid, frames.drop_first(), b)
    }
}

/// The frames that were captured, in order.
pub open spec fn captured(frames: Seq<Option<RgbaImage>>) -> Seq<RgbaImage>
    decreases frames.len(),
{
    if frames.len() == 0 {
        Seq::empty()
    } else {
        let rest = captured(frames.drop_first());
        match frames[0] {
            Some(img) => seq![img] + rest,
            None => rest,
        }
    }
}

/// A dropped frame costs nothing: the capture loop stitches the frames that arrive, as if
/// the others had never been asked for.
pub proof fn law_loop_stitches_the_frames_that_arrive(
    a: Run,
    frames: Seq<Option<RgbaImage>>,
    b: Run,
)
    requires
        a.stage == Stage::Poll,
        a.stitcher is Some,
        loops_to(a, frames, b),
    ensures
        b.stage == Stage::Poll,
        b.stitcher is Some,
        b.stitcher->0@ == stitched(a.stitcher->0@, captured(frames)),
    decreases frames.len(),
{
    if frames.len() > 0 {
        let mid = choose|mid: Run| #[trigger]
            ticks(a, frames[0], mid) && loops_to(mid, frames.drop_first(), b);
        law_loop_stitches_the_frames_that_arrive(mid, frames.drop_first(), b);
        let rest = captured(frames.drop_first());
        if let Some(img) = frames[0] {
            assert((seq![img] + rest).drop_first() =~= rest);
        }
    }
}

/// `next` shows exactly the rectangle `rect` of `grab`.
pub open spec fn takes_whole(grab: RgbaImage, rect: Rect, next: Next) -> bool {
    next.action matches Action::Show(img) && ({
        &&& img.width == rect.width
        &&& img.height == rect.height
        &&& forall|x: int, y: int, c: int|
            0 <= x < img.width && 0 <= y < img.height && 0 <= c < 4 ==> #[trigger] img.at(x, y, c)
                == grab.at(rect.x + x, rect.y + y, c)
    })
}

/// What is selected is what is taken: the capture of a selection within the grab is
/// exactly its rectangle.
pub proof fn law_selection_is_taken_whole(run: Run, rect: Rect, next: Next)
    requires
        run.stage == Stage::Select,
        run.mode != Mode::Scroll,
        run.wf(),
        rect.within(run.grab->0.width as int, run.grab->0.height as int),
        run.steps_to(Event::Selected(Some(rect)), next),
    ensures
        takes_whole(run.grab->0, rect, next),
{
    law_selection_is_cut_out_whole(rect, run.grab->0.width, run.grab->0.height);
}

/// What is picked is what is taken: the capture of a window that was offered is exactly
/// its rectangle of the grab.
pub proof fn law_picked_window_is_taken_whole(
    run: Run,
    view: Option<Reply>,
    clients: Option<Reply>,
    offer: Next,
    rects: Seq<Rect>,
    i: int,
    taken: Next,
)
    requires
        run.stage == Stage::Windows,
        run.mode == Mode::Window,
        run.wf(),
        run.steps_to((Event::Listed { view, clients }), offer),
        offer.action matches Action::SelectWindow(r) && r@ == rects,
        0 <= i < rects.len(),
        offer.run.steps_to(Event::Selected(Some(rects[i])), taken),
    ensures
        takes_whole(run.grab->0, rects[i], taken),
{
    let grab = run.grab->0;
    if let Some((v, c)) = reported(view, clients) {
        law_listed_windows_can_be_cropped(
            c,
            v,
            run.target->0@,
            run.scale,
            grab.width,
            grab.height,
            rects,
            i,
        );
        law_selection_is_taken_whole(offer.run, rects[i], taken);
    }
}

/// A grab leads on as the mode asks. The whole output is shown as it was grabbed. A window is
/// looked for where the focused output is known, and the run ends where it is not. All else
/// is selected over the grab. What the grab says of its output is kept.
pub proof fn law_grab_leads_on_by_mode(
    run: Run,
    target: Option<String>,
    img: RgbaImage,
    scale: i32,
    next: Next,
)
    requires
        run.steps_to((Event::Grabbed { target, grab: Ok((img, scale)) }), next),
    ensures
        next.warning is None,
        next.run.mode == run.mode && next.run.scale == scale && next.run.target == target,
        match run.mode {
            Mode::Full => {
                &&& next.action == Action::Show(img)
                &&& next.run.stage == Stage::Show
            },
            Mode::Window => if target is Some {
                &&& next.action is QueryWindows
                &&& next.run.stage == Stage::Windows
                &&& next.run.grab == Some(img)
            } else {
                &&& next.action matches Action::Quit { code, message: Some(m) } && code == 1 && m@
                    == "no focused output; cannot enumerate windows"@
                &&& next.run.stage == Stage::Over
            },
            Mode::Region => {
                &&& next.action is SelectRegion
                &&& next.run.stage == Stage::Select
                &&& next.run.grab == Some(img)
            },
            Mode::Scroll => {
                &&& next.action is SelectRegion
                &&& next.run.stage == Stage::Select
                &&& next.run.grab == Some(img)
            },
        },
{
}

/// What a failed step is reported as; `None` where the run goes on without it.
pub open spec fn fatal(run: Run, event: Event) -> Option<Seq<char>> {
    match event {
        Event::Grabbed { grab: Err(e), .. } => Some("capture failed: "@ + e@),
        Event::Opened(Err(e)) => Some("capture session failed: "@ + e@),
        Event::Bound(Err(e)) => Some(e@),
        Event::Framed(Err(e)) => if run.stage == Stage::First {
            Some("first frame failed: "@ + e@)
        } else {
            None
        },
        Event::Shown(Err(e)) => Some("overlay failed: "@ + e@),
        _ => None,
    }
}

/// A step that the run cannot do without ends it with code 1 and says what failed and why.
pub proof fn law_fatal_failure_ends_the_run(run: Run, event: Event, next: Next, why: Seq<char>)
    requires
        run.steps_to(event, next),
        fatal(run, event) == Some(why),
    ensures
        next.action matches Action::Quit { code, message: Some(m) } && code == 1 && m@ == why,
        next.run.stage == Stage::Over,
        next.warning is None,
{
}

/// A capture goes on without its outline, and without a frame that could not be had, and says
/// so. Nothing else is warned of.
pub proof fn law_lesser_failures_are_warnings(run: Run, event: Event, next: Next)
    requires
        run.awaits(event),
        run.steps_to(event, next),
    ensures
        match event {
            Event::Marked(Err(e)) => {
                &&& next.warning matches Some(m) && m@ == "region indicator unavailable: "@ + e@
                &&& next.action is Open
                &&& next.run.stage == Stage::Open
            },
            Event::Framed(Err(e)) => if run.stage == Stage::Frame {
                &&& next.warning matches Some(m) && m@ == "frame dropped: "@ + e@
                &&& next.action is Pace
                &&& next.run.stage == Stage::Poll
                &&& next.run.stitcher == run.stitcher
            } else {
                next.warning is None
            },
            _ => next.warning is None,
        },
{
}

/// Cancelling ends the run without an error, in every mode.
pub proof fn law_cancelling_is_no_error(run: Run, next: Next)
    requires
        run.steps_to(Event::Selected(None), next),
    ensures
        next.action matches Action::Quit { code, message: Some(m) } && code == 0 && m@
            == "cancelled"@,
        next.run.stage == Stage::Over,
{
}

/// A region capture shows what was selected of what was grabbed, pixel by pixel, and then the
/// run ends without an error.
pub proof fn law_region_capture_shows_the_selection(
    run: Run,
    target: Option<String>,
    img: RgbaImage,
    scale: i32,
    a: Next,
    rect: Rect,
    b: Next,
    c: Next,
)
    requires
        run.mode == Mode::Region,
        img.wf(),
        run.steps_to((Event::Grabbed { target, grab: Ok((img, scale)) }), a),
        rect.x + rect.width <= img.width,
        rect.y + rect.height <= img.height,
        a.run.steps_to(Event::Selected(Some(rect)), b),
        b.run.steps_to(Event::Shown(Ok(())), c),
    ensures
        a.action is SelectRegion,
        b.action matches Action::Show(shown) && ({
            &&& shown.wf()
            &&& shown.width == rect.width
            &&& shown.height == rect.height
            &&& forall|x: int, y: int, ch: int|
                0 <= x < rect.width && 0 <= y < rect.height && 0 <= ch < 4
                    ==> #[trigger] shown.at(x, y, ch) == img.at(rect.x + x, rect.y + y, ch)
        }),
        b.run.stage == Stage::Show,
        c.action matches Action::Quit { code, message } && code == 0 && message is None,
        c.run.stage == Stage::Over,
{
    law_selection_is_cut_out_whole(rect, img.width, img.height);
}

/// A capture of the whole output shows all of the grab, and then the run ends.
pub proof fn law_full_capture_shows_the_grab(
    run: Run,
    target: Option<String>,
    img: RgbaImage,
    scale: i32,
    a: Next,
    b: Next,
)
    requires
        run.mode == Mode::Full,
        run.steps_to((Event::Grabbed { target, grab: Ok((img, scale)) }), a),
        a.run.steps_to(Event::Shown(Ok(())), b),
    ensures
        a.action == Action::Show(img),
        b.action matches Action::Quit { code, message } && code == 0 && message is None,
        b.run.stage == Stage::Over,
{
}

/// A scroll capture reads the region that was selected, in logical pixels, from the outline
/// to the last frame: it is outlined first, then the session opens, then the socket is bound,
/// and then the first frame is captured.
pub proof fn law_scroll_capture_reads_the_selection(
    run: Run,
    rect: Rect,
    a: Next,
    marked: Result<(), String>,
    b: Next,
    c: Next,
    d: Next,
)
    requires
        run.mode == Mode::Scroll,
        run.steps_to(Event::Selected(Some(rect)), a),
        a.run.steps_to(Event::Marked(marked), b),
        b.run.steps_to(Event::Opened(Ok(())), c),
        c.run.steps_to(Event::Bound(Ok(())), d),
    ensures
        ({
            let (x, y, w, h) = logical_of(rect, run.scale);
            let r = d.run.region;
            &&& r.x == x && r.y == y && r.width == w && r.height == h
            &&& a.action == Action::Mark(r)
            &&& b.action is Open
            &&& c.action is Bind
            &&& d.action == Action::CaptureFrame(r)
            &&& d.run.stage == Stage::First
            &&& d.run.mode == Mode::Scroll
        }),
{
}

/// The first frame starts the image, and every later one is folded into it, in one region
/// throughout. The capture goes on frame by frame until the image is full or the command to
/// stop arrives; nothing else that arrives stops it.
pub proof fn law_capture_goes_on_until_it_is_stopped(run: Run, event: Event, next: Next)
    requires
        run.awaits(event),
        run.steps_to(event, next),
    ensures
        match event {
            Event::Framed(Ok(img)) => if run.stage == Stage::First {
                &&& next.action is Poll
                &&& next.run.stage == Stage::Poll
                &&& next.run.stitcher matches Some(s) && s@ == StitchState::start(img)
                &&& next.run.region == run.region
            } else {
                let (state, push) = run.stitcher->0@.step(img);
                &&& next.run.stitcher matches Some(s) && s@ == state
                &&& next.run.region == run.region
                &&& if push == Push::Full {
                    &&& next.action matches Action::Release { capped } && capped == Some(state.rows)
                    &&& next.run.stage == Stage::Release
                } else {
                    &&& next.action is Pace
                    &&& next.run.stage == Stage::Poll
                }
            },
            Event::Polled(command) => {
                &&& next.run.stitcher == run.stitcher && next.run.region == run.region
                &&& if command matches Some(c) && c@ == "stop"@ {
                    &&& next.action matches Action::Release { capped } && capped is None
                    &&& next.run.stage == Stage::Release
                } else {
                    &&& next.action == Action::CaptureFrame(run.region)
                    &&& next.run.stage == Stage::Frame
                }
            },
            Event::Released => {
                &&& next.action matches Action::Show(img) && img.wf() && img.data@
                    == run.stitcher->0@.acc && img.width == run.stitcher->0@.w && img.height
                    == run.stitcher->0@.rows
                &&& next.run.stage == Stage::Show
            },
            _ => true,
        },
{
}

/// The windows that are offered are those that the replies report of the target, in the grab's
/// own pixels. Where there are none the run ends with code 1 and says so.
pub proof fn law_windows_are_offered_or_missed(
    run: Run,
    view: Option<Reply>,
    clients: Option<Reply>,
    next: Next,
)
    requires
        run.stage == Stage::Windows,
        run.wf(),
        run.steps_to((Event::Listed { view, clients }), next),
    ensures
        match next.action {
            Action::SelectWindow(rects) => {
                &&& rects@.len() > 0
                &&& next.run.stage == Stage::Select
                &&& next.run.grab == run.grab
                &&& offers(
                    run.target->0@,
                    run.scale,
                    run.grab->0.width,
                    run.grab->0.height,
                    view,
                    clients,
                    rects@,
                )
            },
            Action::Quit { code, message: Some(m) } => {
                &&& code == 1
                &&& m@ == "no capturable windows on "@ + run.target->0@
                &&& next.run.stage == Stage::Over
                &&& offers(
                    run.target->0@,
                    run.scale,
                    run.grab->0.width,
                    run.grab->0.height,
                    view,
                    clients,
                    Seq::<Rect>::empty(),
                )
            },
            _ => false,
        },
{
}

/// Every report is awaited at the stage that asks for it and at no other. Images have to be
/// whole, and a frame has to find an image with rows to be folded into.
pub proof fn law_every_report_has_its_stage(run: Run, event: Event)
    ensures
        run.awaits(event) <==> match event {
            Event::Signalled(_) => run.stage == Stage::Signal,
            Event::Grabbed { grab: Ok((img, _)), .. } => run.stage == Stage::Grab && img.data@.len()
                == img.width * img.height * 4,
            Event::Grabbed { .. } => run.stage == Stage::Grab,
            Event::Listed { .. } => run.stage == Stage::Windows,
            Event::Selected(_) => run.stage == Stage::Select,
            Event::Marked(_) => run.stage == Stage::Mark,
            Event::Opened(_) => run.stage == Stage::Open,
            Event::Bound(_) => run.stage == Stage::Bind,
            Event::Framed(Ok(img)) => {
                &&& img.data@.len() == img.width * img.height * 4
                &&& run.stage == Stage::First || (run.stage == Stage::Frame && ({
                    let state = run.stitcher->0@;
                    &&& state.h >= 1
                    &&& state.stats.appended < usize::MAX
                    &&& state.stats.duplicates < usize::MAX
                    &&& state.stats.rejected < usize::MAX
                }))
            },
            Event::Framed(_) => run.stage == Stage::First || run.stage == Stage::Frame,
            Event::Polled(_) => run.stage == Stage::Poll,
            Event::Released => run.stage == Stage::Release,
            Event::Shown(_) => run.stage == Stage::Show,
        },
{
}

/// A stop command that reached a running session leaves nothing to do, and the run ends
/// without an error. One that reached none leaves the run to grab the output itself.
pub proof fn law_signal_ends_or_begins_a_session(run: Run, delivered: bool, next: Next)
    requires
        run.steps_to(Event::Signalled(delivered), next),
    ensures
        delivered ==> (next.action matches Action::Quit { code, message } && code == 0 && message
            is None) && next.run.stage == Stage::Over,
        !delivered ==> next.action is Grab && next.run.stage == Stage::Grab,
        next.run.mode == run.mode,
        next.warning is None,
{
}

/// Closing the overlay ends the run without an error, whatever was captured.
pub proof fn law_closing_the_overlay_ends_the_run(run: Run, next: Next)
    requires
        run.steps_to(Event::Shown(Ok(())), next),
    ensures
        next.action matches Action::Quit { code, message } && code == 0 && message is None,
        next.run.stage == Stage::Over,
{
}

/// A run keeps what it is about: its mode throughout, the output and its scale from the grab
/// on, and the region from the selection on. Steps that do not concern the image of a scroll
/// capture leave it alone.
pub proof fn law_run_keeps_what_it_is_about(run: Run, event: Event, next: Next)
    requires
        run.steps_to(event, next),
    ensures
        next.run.mode == run.mode,
        !(event is Grabbed) ==> next.run.scale == run.scale && next.run.target == run.target,
        !(event is Selected) ==> next.run.region == run.region,
        !(event is Framed) && !(event is Released) ==> next.run.stitcher == run.stitcher,
{
}

} // verus!
