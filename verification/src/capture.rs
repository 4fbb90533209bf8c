//! Grabbing an output: which one, the handshake with the compositor, and turning the
//! shared buffer into an image.

use vstd::prelude::*;

use crate::overlay::compose::red_blue_swapped;
use crate::raster::{byte_len, channel_at, lemma_in_buffer, offset, RgbaImage};
use crate::text::same;

verus! {

/// Shared-memory format code: blue, green, red, alpha in memory.
pub const ARGB8888: u32 = 0;

/// Shared-memory format code: blue, green, red, unused.
pub const XRGB8888: u32 = 1;

/// Shared-memory format code: red, green, blue, unused.
pub const XBGR8888: u32 = 0x3432_4258;

/// The buffer parameters that the compositor asks for.
#[derive(Clone, Copy, Debug, PartialEq, Eq, Structural)]
pub struct BufferSpec {
    /// Shared-memory format code.
    pub format: u32,
    pub width: u32,
    pub height: u32,
    pub stride: u32,
}

/// One output that the compositor advertised.
#[derive(Debug, PartialEq, Eq)]
pub struct OutputInfo {
    /// Registry id, by which events find their way back here.
    pub registry_name: u32,
    /// Connector name, such as `eDP-1`.
    pub name: Option<String>,
    pub scale: i32,
}

/// What an output reports of itself.
#[derive(Debug, PartialEq, Eq)]
pub enum OutputEvent {
    Scale(i32),
    Name(String),
}

impl OutputInfo {
    /// The output's connector is called `name`.
    pub open spec fn is_named(self, name: Seq<char>) -> bool {
        self.name matches Some(n) && n@ == name
    }

    /// The output after `event`.
    pub open spec fn after(self, event: OutputEvent) -> OutputInfo {
        match event {
            OutputEvent::Scale(factor) => OutputInfo { scale: factor, ..self },
            OutputEvent::Name(name) => OutputInfo { name: Some(name), ..self },
        }
    }
}

/// `i` is the first output with the registry id `id`.
pub open spec fn first_with_id(outputs: Seq<OutputInfo>, id: u32, i: int) -> bool {
    &&& 0 <= i < outputs.len()
    &&& outputs[i].registry_name == id
    &&& forall|j: int| 0 <= j < i ==> #[trigger] outputs[j].registry_name != id
}

/// `i` is the first output whose connector is called `name`.
pub open spec fn first_named(outputs: Seq<OutputInfo>, name: Seq<char>, i: int) -> bool {
    &&& 0 <= i < outputs.len()
    &&& outputs[i].is_named(name)
    &&& forall|j: int| 0 <= j < i ==> !#[trigger] outputs[j].is_named(name)
}

/// No output's connector is called `name`.
pub open spec fn none_named(outputs: Seq<OutputInfo>, name: Seq<char>) -> bool {
    forall|j: int| 0 <= j < outputs.len() ==> !#[trigger] outputs[j].is_named(name)
}

/// Note an output that the compositor advertised. Its name is not known yet, and its
/// scale is one until it says otherwise.
pub fn add_output(outputs: &mut Vec<OutputInfo>, registry_name: u32)
    ensures
        final(outputs)@ == old(outputs)@.push(OutputInfo { registry_name, name: None, scale: 1 }),
{
    outputs.push(OutputInfo { registry_name, name: None, scale: 1 });
}

/// Take in what the output with the registry id `registry_name` reports. An id that
/// is not known is ignored.
pub fn output_event(outputs: &mut Vec<OutputInfo>, registry_name: u32, event: OutputEvent)
    ensures
        forall|i: int| #[trigger]
            first_with_id(old(outputs)@, registry_name, i) ==> final(outputs)@
                == old(outputs)@.update(i, old(outputs)@[i].after(event)),
        (forall|i: int| !#[trigger] first_with_id(old(outputs)@, registry_name, i))
            ==> final(outputs)@ == old(outputs)@,
{
    let n: usize = outputs.len();
    let mut i: usize = 0;
    while i < n
        invariant
            outputs@ == old(outputs)@,
            n == outputs@.len(),
            i <= n,
            forall|j: int| 0 <= j < i ==> #[trigger] outputs@[j].registry_name != registry_name,
        decreases n - i,
    {
        if outputs[i].registry_name == registry_name {
            proof {
                assert(first_with_id(outputs@, registry_name, i as int));
                assert forall|k: int| #[trigger] first_with_id(outputs@, registry_name, k) implies k
                    == i by {
                    if k < i {
                        assert(outputs@[k].registry_name != registry_name);
                    } else if i < k {
                        assert(outputs@[i as int].registry_name != registry_name);
                    }
                }
            }
            match event {
                OutputEvent::Scale(factor) => {
                    outputs[i].scale = factor;
                },
                OutputEvent::Name(name) => {
                    outputs[i].name = Some(name);
                },
            }
            return;
        }
        i = i + 1;
    }
}

/// The first output whose connector is called `name`.
pub fn named_output<'a>(outputs: &'a [OutputInfo], name: &str) -> (r: Option<&'a OutputInfo>)
    ensures
        match r {
            Some(o) => exists|i: int| #[trigger] first_named(outputs@, name@, i) && *o == outputs@[i],
            None => none_named(outputs@, name@),
        },
{
    let n: usize = outputs.len();
    let mut i: usize = 0;
    while i < n
        invariant
            n == outputs@.len(),
            i <= n,
            forall|j: int| 0 <= j < i ==> !#[trigger] outputs@[j].is_named(name@),
        decreases n - i,
    {
        let o: &OutputInfo = &outputs[i];
        if let Some(known) = &o.name {
            if same(known.as_str(), name) {
                assert(first_named(outputs@, name@, i as int));
                return Some(o);
            }
        }
        assert(!outputs@[i as int].is_named(name@));
        i = i + 1;
    }
    None
}

/// Choose which output to grab: the one whose connector name matches `target`, else
/// the first that the compositor advertised. A missing target and an unknown name both
/// fall back rather than fail.
pub fn select_output<'a>(outputs: &'a [OutputInfo], target: Option<&str>) -> (r: Result<
    &'a OutputInfo,
    String,
>)
    ensures
        match r {
            Err(e) => outputs@.len() == 0 && e@ == "compositor advertised no wl_output"@,
            Ok(o) => {
                &&& outputs@.len() > 0
                &&& match target {
                    Some(t) => if none_named(outputs@, t@) {
                        *o == outputs@[0]
                    } else {
                        exists|i: int| #[trigger] first_named(outputs@, t@, i) && *o == outputs@[i]
                    },
                    None => *o == outputs@[0],
                }
            },
        },
{
    if outputs.len() == 0 {
        return Err("compositor advertised no wl_output".to_owned());
    }
    if let Some(t) = target {
        if let Some(found) = named_output(outputs, t) {
            proof {
                let i = choose|i: int| #[trigger]
                    first_named(outputs@, t@, i) && *found == outputs@[i];
                assert(outputs@[i].is_named(t@));
            }
            return Ok(found);
        }
    }
    Ok(&outputs[0])
}

/// The output that a surface is to be placed on: the one whose connector name matches
/// `target`. Without a target, or where none matches, the compositor chooses.
pub fn target_output<'a>(outputs: &'a [OutputInfo], target: Option<&str>) -> (r: Option<
    &'a OutputInfo,
>)
    ensures
        match target {
            Some(t) => match r {
                Some(o) => exists|i: int| #[trigger]
                    first_named(outputs@, t@, i) && *o == outputs@[i],
                None => none_named(outputs@, t@),
            },
            None => r is None,
        },
{
    match target {
        Some(t) => named_output(outputs, t),
        None => None,
    }
}

/// How far a capture has come: what the compositor's frame reported.
#[derive(Clone, Copy, Debug, PartialEq, Eq, Structural)]
pub struct Handshake {
    pub pending_buffer: Option<BufferSpec>,
    pub buffer_done: bool,
    pub frame_ready: bool,
    pub frame_failed: bool,
    pub y_invert: bool,
}

/// What the compositor reports of a frame.
#[derive(Clone, Copy, Debug, PartialEq, Eq, Structural)]
pub enum FrameEvent {
    /// A buffer of these parameters would do.
    Buffer(BufferSpec),
    /// Whether the rows come bottom first.
    Flags { y_invert: bool },
    /// All buffers were offered.
    BufferDone,
    /// The copy is complete.
    Ready,
    /// The capture failed.
    Failed,
}

/// What to do once the compositor was heard.
#[derive(Debug, PartialEq, Eq)]
pub enum OfferStep {
    /// Keep listening.
    Wait,
    /// Give up, for this reason.
    Fail(String),
    /// Have the frame copied into a buffer of these parameters.
    Copy(BufferSpec),
}

/// What to do while the frame is being copied.
#[derive(Debug, PartialEq, Eq)]
pub enum CopyStep {
    /// Keep listening.
    Wait,
    /// Give up, for this reason.
    Fail(String),
    /// The buffer holds the frame, its rows bottom first where `y_invert` is set.
    Done { y_invert: bool },
}

impl Handshake {
    /// The state after `event`. The first buffer that is offered wins.
    pub open spec fn after(self, event: FrameEvent) -> Handshake {
        match event {
            FrameEvent::Buffer(spec) => if self.pending_buffer is None {
                Handshake { pending_buffer: Some(spec), ..self }
            } else {
                self
            },
            FrameEvent::Flags { y_invert } => Handshake { y_invert, ..self },
            FrameEvent::BufferDone => Handshake { buffer_done: true, ..self },
            FrameEvent::Ready => Handshake { frame_ready: true, ..self },
            FrameEvent::Failed => Handshake { frame_failed: true, ..self },
        }
    }

    pub fn new() -> (h: Handshake)
        ensures
            h == (Handshake {
                pending_buffer: None,
                buffer_done: false,
                frame_ready: false,
                frame_failed: false,
                y_invert: false,
            }),
    {
        Handshake {
            pending_buffer: None,
            buffer_done: false,
            frame_ready: false,
            frame_failed: false,
            y_invert: false,
        }
    }

    /// Take in one event.
    pub fn event(&mut self, event: FrameEvent)
        ensures
            *final(self) == old(self).after(event),
    {
        match event {
            FrameEvent::Buffer(spec) => {
                if self.pending_buffer.is_none() {
                    self.pending_buffer = Some(spec);
                }
            },
            FrameEvent::Flags { y_invert } => {
                self.y_invert = y_invert;
            },
            FrameEvent::BufferDone => {
                self.buffer_done = true;
            },
            FrameEvent::Ready => {
                self.frame_ready = true;
            },
            FrameEvent::Failed => {
                self.frame_failed = true;
            },
        }
    }

    /// What to do while buffers are being offered.
    pub fn offer_step(&self) -> (s: OfferStep)
        ensures
            match s {
                OfferStep::Wait => !self.buffer_done && !self.frame_failed,
                OfferStep::Fail(e) => if self.frame_failed {
                    e@ == "compositor sent `failed` before buffer_done"@
                } else {
                    self.buffer_done && self.pending_buffer is None && e@ == "no shm buffer offer"@
                },
                OfferStep::Copy(spec) => self.buffer_done && !self.frame_failed
                    && self.pending_buffer == Some(spec),
            },
    {
        if self.frame_failed {
            return OfferStep::Fail("compositor sent `failed` before buffer_done".to_owned());
        }
        if !self.buffer_done {
            return OfferStep::Wait;
        }
        match self.pending_buffer {
            Some(spec) => OfferStep::Copy(spec),
            None => OfferStep::Fail("no shm buffer offer".to_owned()),
        }
    }

    /// What to do while the frame is being copied.
    pub fn copy_step(&self) -> (s: CopyStep)
        ensures
            match s {
                CopyStep::Wait => !self.frame_ready && !self.frame_failed,
                CopyStep::Fail(e) => self.frame_failed && e@
                    == "compositor sent `failed` during copy"@,
                CopyStep::Done { y_invert } => self.frame_ready && !self.frame_failed && y_invert
                    == self.y_invert,
            },
    {
        if self.frame_failed {
            CopyStep::Fail("compositor sent `failed` during copy".to_owned())
        } else if self.frame_ready {
            CopyStep::Done { y_invert: self.y_invert }
        } else {
            CopyStep::Wait
        }
    }
}

/// The state after all of `events`.
pub open spec fn after_all(h: Handshake, events: Seq<FrameEvent>) -> Handshake
    decreases events.len(),
{
    if events.len() == 0 {
        h
    } else {
        after_all(h.after(events[0]), events.drop_first())
    }
}

/// The first buffer that was offered is the one that is used, whatever follows, and a
/// failure is final.
pub proof fn law_first_offer_wins(h: Handshake, events: Seq<FrameEvent>)
    ensures
        h.pending_buffer is Some ==> after_all(h, events).pending_buffer == h.pending_buffer,
        h.frame_failed ==> after_all(h, events).frame_failed,
    decreases events.len(),
{
    if events.len() > 0 {
        law_first_offer_wins(h.after(events[0]), events.drop_first());
    }
}

impl BufferSpec {
    /// The fourth byte of a pixel carries nothing.
    pub open spec fn opaque(self) -> bool {
        self.format == XRGB8888 || self.format == XBGR8888
    }

    /// Blue comes first in memory.
    pub open spec fn blue_first(self) -> bool {
        self.format == XRGB8888 || self.format == ARGB8888
    }

    /// A buffer of `len` bytes holds every pixel.
    pub open spec fn fits(self, len: int) -> bool {
        self.width == 0 || self.height == 0 || (self.height - 1) * self.stride + self.width * 4
            <= len
    }

    /// Which byte of the buffer gives channel `c` of the image's pixel in column `x`
    /// of row `y`.
    pub open spec fn source(self, y_invert: bool, x: int, y: int, c: int) -> int {
        let row = if y_invert {
            self.height - 1 - y
        } else {
            y
        };
        row * self.stride + x * 4 + (if self.blue_first() && c < 3 {
            2 - c
        } else {
            c
        })
    }

    /// Channel `c` of the image's pixel in column `x` of row `y`.
    pub open spec fn channel(self, bytes: Seq<u8>, y_invert: bool, x: int, y: int, c: int) -> u8 {
        if c == 3 && self.opaque() {
            255
        } else {
            bytes[self.source(y_invert, x, y, c)]
        }
    }
}

/// The bytes that a shared-memory pool takes to hold one buffer of these parameters.
pub fn pool_size(spec: BufferSpec) -> (size: usize)
    requires
        spec.stride * spec.height <= u32::MAX,
    ensures
        size == spec.stride * spec.height,
{
    (spec.stride * spec.height) as usize
}

/// Convert a shared-memory buffer to an image.
pub fn buffer_to_rgba(bytes: &[u8], spec: BufferSpec, y_invert: bool) -> (img: RgbaImage)
    requires
        spec.fits(bytes@.len() as int),
        byte_len(spec.width as int, spec.height as int) <= usize::MAX,
    ensures
        img.wf(),
        img.width == spec.width,
        img.height == spec.height,
        forall|x: int, y: int, c: int|
            0 <= x < spec.width && 0 <= y < spec.height && 0 <= c < 4 ==> #[trigger] img.at(x, y, c)
                == spec.channel(bytes@, y_invert, x, y, c),
{
    let ghost w = spec.width as int;
    let ghost h = spec.height as int;
    let opaque: bool = spec.format == XRGB8888 || spec.format == XBGR8888;
    let bgr: bool = spec.format == XRGB8888 || spec.format == ARGB8888;
    let limit: usize = bytes.len();
    let mut data: Vec<u8> = Vec::new();
    let mut row: u32 = 0;
    assert(byte_len(w, 0) == 0) by (nonlinear_arith);
    while row < spec.height
        invariant
            spec.fits(limit as int),
            limit == bytes@.len(),
            w == spec.width,
            h == spec.height,
            opaque == spec.opaque(),
            bgr == spec.blue_first(),
            row <= spec.height,
            data@.len() == byte_len(w, row as int),
            forall|x: int, y: int, c: int|
                0 <= x < w && 0 <= y < row && 0 <= c < 4 ==> #[trigger] channel_at(data@, w, x, y, c)
                    == spec.channel(bytes@, y_invert, x, y, c),
        decreases spec.height - row,
    {
        let src_row: u32 = if y_invert {
            spec.height - 1 - row
        } else {
            row
        };
        let ghost before = data@;
        let mut col: u32 = 0;
        while col < spec.width
            invariant
                spec.fits(limit as int),
                limit == bytes@.len(),
                w == spec.width,
                h == spec.height,
                opaque == spec.opaque(),
                bgr == spec.blue_first(),
                row < spec.height,
                src_row == (if y_invert {
                    h - 1 - row
                } else {
                    row as int
                }),
                col <= spec.width,
                data@.len() == byte_len(w, row as int) + 4 * col,
                before.len() == byte_len(w, row as int),
                before =~= data@.subrange(0, before.len() as int),
                forall|x: int, c: int|
                    0 <= x < col && 0 <= c < 4 ==> #[trigger] channel_at(data@, w, x, row as int, c)
                        == spec.channel(bytes@, y_invert, x, row as int, c),
            decreases spec.width - col,
        {
            proof {
                assert(0 <= row * w) by (nonlinear_arith)
                    requires
                        0 <= w,
                        0 <= row,
                ;
                assert(src_row * spec.stride <= (h - 1) * spec.stride && 0 <= src_row * spec.stride)
                    by (nonlinear_arith)
                    requires
                        0 <= src_row <= h - 1,
                        0 <= spec.stride,
                ;
                assert(offset(w, col as int, row as int) == data@.len()) by (nonlinear_arith)
                    requires
                        data@.len() == w * row * 4 + 4 * col,
                ;
            }
            let base: usize = src_row as usize * spec.stride as usize;
            let p: usize = base + col as usize * 4;
            let b0: u8 = bytes[p];
            let b1: u8 = bytes[p + 1];
            let b2: u8 = bytes[p + 2];
            let b3: u8 = bytes[p + 3];
            let ghost so_far = data@;
            data.push(
                if bgr {
                    b2
                } else {
                    b0
                },
            );
            data.push(b1);
            data.push(
                if bgr {
                    b0
                } else {
                    b2
                },
            );
            data.push(
                if opaque {
                    255
                } else {
                    b3
                },
            );
            assert forall|x: int, c: int|
                0 <= x < col + 1 && 0 <= c < 4 implies #[trigger] channel_at(
                data@,
                w,
                x,
                row as int,
                c,
            ) == spec.channel(bytes@, y_invert, x, row as int, c) by {
                if x < col {
                    assert(channel_at(data@, w, x, row as int, c) == channel_at(
                        so_far,
                        w,
                        x,
                        row as int,
                        c,
                    ));
                }
            }
            col = col + 1;
        }
        assert forall|x: int, y: int, c: int|
            0 <= x < w && 0 <= y < row + 1 && 0 <= c < 4 implies #[trigger] channel_at(
            data@,
            w,
            x,
            y,
            c,
        ) == spec.channel(bytes@, y_invert, x, y, c) by {
            if y < row {
                lemma_in_buffer(w, row as int, x, y);
                assert(channel_at(data@, w, x, y, c) == channel_at(before, w, x, y, c));
            }
        }
        assert(byte_len(w, row + 1) == byte_len(w, row as int) + 4 * w) by (nonlinear_arith);
        row = row + 1;
    }
    RgbaImage { width: spec.width, height: spec.height, data }
}

/// Formats without an alpha channel give opaque images.
pub proof fn law_formats_without_alpha_are_opaque(
    spec: BufferSpec,
    bytes: Seq<u8>,
    y_invert: bool,
    x: int,
    y: int,
)
    requires
        spec.format == XRGB8888 || spec.format == XBGR8888,
    ensures
        spec.channel(bytes, y_invert, x, y, 3) == 255,
{
}

/// A frame whose rows come bottom first is turned over: its row `y` is row
/// `height - 1 - y` of the buffer read top first.
pub proof fn law_inverted_frames_are_turned_over(
    spec: BufferSpec,
    bytes: Seq<u8>,
    x: int,
    y: int,
    c: int,
)
    requires
        0 <= y < spec.height,
    ensures
        spec.channel(bytes, true, x, y, c) == spec.channel(bytes, false, x, spec.height - 1 - y, c),
{
}

/// A pool of the size that is asked for holds every pixel, where rows do not overlap.
pub proof fn law_pool_holds_every_pixel(spec: BufferSpec)
    requires
        spec.width * 4 <= spec.stride,
    ensures
        spec.fits(spec.stride * spec.height),
{
    if spec.width > 0 && spec.height > 0 {
        assert((spec.height - 1) * spec.stride + spec.stride == spec.stride * spec.height)
            by (nonlinear_arith);
    }
}

/// What is written for the compositor is what is read back from it: an image with red
/// and blue exchanged, taken as a buffer with blue first and no padding, is the image.
pub proof fn law_written_pixels_read_back(img: RgbaImage, x: int, y: int, c: int)
    requires
        img.wf(),
        img.width * 4 <= u32::MAX,
        0 <= x < img.width,
        0 <= y < img.height,
        0 <= c < 4,
    ensures
        (BufferSpec {
            format: ARGB8888,
            width: img.width,
            height: img.height,
            stride: (img.width * 4) as u32,
        }).channel(red_blue_swapped(img.data@), false, x, y, c) == img.at(x, y, c),
{
    let w = img.width as int;
    lemma_in_buffer(w, img.height as int, x, y);
    assert(y * (w * 4) + x * 4 == offset(w, x, y)) by (nonlinear_arith)
        requires
            offset(w, x, y) == (y * w + x) * 4,
    ;
}

/// A buffer is read pixel by pixel from its top left, for every format. With rows that come
/// top first, the pixel in column `x` of row `y` is the four bytes at `y * stride + 4 * x`:
/// blue, green and red in the formats 0 and 1, and red, green and blue in all others. The
/// fourth is the opacity, but in the formats 1 and 0x34324258, which have none.
pub proof fn law_buffer_is_read_from_its_top_left(
    spec: BufferSpec,
    bytes: Seq<u8>,
    x: int,
    y: int,
)
    requires
        0 <= x < spec.width,
        0 <= y < spec.height,
    ensures
        ({
            let p = y * spec.stride + 4 * x;
            let blue_first = spec.format == 0 || spec.format == 1;
            let (red, blue) = if blue_first {
                (bytes[p + 2], bytes[p])
            } else {
                (bytes[p], bytes[p + 2])
            };
            &&& spec.channel(bytes, false, x, y, 0) == red
            &&& spec.channel(bytes, false, x, y, 1) == bytes[p + 1]
            &&& spec.channel(bytes, false, x, y, 2) == blue
            &&& spec.channel(bytes, false, x, y, 3) == (if spec.format == 1 || spec.format
                == 0x3432_4258 {
                255u8
            } else {
                bytes[p + 3]
            })
        }),
{
}

/// With rows that come bottom first, the same bytes lie in the row as far from the other
/// end, for every format.
pub proof fn law_inverted_buffer_is_read_from_its_bottom_left(
    spec: BufferSpec,
    bytes: Seq<u8>,
    x: int,
    y: int,
)
    requires
        0 <= x < spec.width,
        0 <= y < spec.height,
    ensures
        ({
            let p = (spec.height - 1 - y) * spec.stride + 4 * x;
            let blue_first = spec.format == 0 || spec.format == 1;
            let (red, blue) = if blue_first {
                (bytes[p + 2], bytes[p])
            } else {
                (bytes[p], bytes[p + 2])
            };
            &&& spec.channel(bytes, true, x, y, 0) == red
            &&& spec.channel(bytes, true, x, y, 1) == bytes[p + 1]
            &&& spec.channel(bytes, true, x, y, 2) == blue
            &&& spec.channel(bytes, true, x, y, 3) == (if spec.format == 1 || spec.format
                == 0x3432_4258 {
                255u8
            } else {
                bytes[p + 3]
            })
        }),
{
}

/// A buffer fits exactly where the last byte of its last pixel is there.
pub proof fn law_fitting_buffer_reaches_its_last_pixel(spec: BufferSpec, len: int)
    requires
        spec.width > 0,
        spec.height > 0,
    ensures
        spec.fits(len) <==> (spec.height - 1) * spec.stride + 4 * (spec.width - 1) + 3 < len,
{
}

/// `e` offers a buffer.
pub open spec fn offer_in(e: FrameEvent) -> Option<BufferSpec> {
    match e {
        FrameEvent::Buffer(spec) => Some(spec),
        _ => None,
    }
}

/// What a capture was told it knows: a report of the end of the offers, of success or of
/// failure counts, however often it came and whatever came after it.
pub proof fn law_handshake_knows_what_it_was_told(h: Handshake, events: Seq<FrameEvent>)
    ensures
        ({
            let n = after_all(h, events);
            &&& n.buffer_done == (h.buffer_done || events.contains(FrameEvent::BufferDone))
            &&& n.frame_ready == (h.frame_ready || events.contains(FrameEvent::Ready))
            &&& n.frame_failed == (h.frame_failed || events.contains(FrameEvent::Failed))
        }),
    decreases events.len(),
{
    if events.len() > 0 {
        let e = events[0];
        let rest = events.drop_first();
        law_handshake_knows_what_it_was_told(h.after(e), rest);
        lemma_contains_first(events, FrameEvent::BufferDone);
        lemma_contains_first(events, FrameEvent::Ready);
        lemma_contains_first(events, FrameEvent::Failed);
    }
}

proof fn lemma_contains_first(events: Seq<FrameEvent>, k: FrameEvent)
    requires
        events.len() > 0,
    ensures
        events.contains(k) <==> k == events[0] || events.drop_first().contains(k),
{
    let rest = events.drop_first();
    if rest.contains(k) {
        let i = choose|i: int| 0 <= i < rest.len() && rest[i] == k;
        assert(events[i + 1] == k);
    }
    if events.contains(k) && k != events[0] {
        let i = choose|i: int| 0 <= i < events.len() && events[i] == k;
        assert(rest[i - 1] == k);
    }
}

/// Of the buffers that are offered, the first counts, wherever among the reports it stands.
pub proof fn law_first_buffer_counts(h: Handshake, events: Seq<FrameEvent>, i: int)
    requires
        h.pending_buffer is None,
        0 <= i <= events.len(),
        forall|j: int| 0 <= j < i ==> offer_in(#[trigger] events[j]) is None,
        i < events.len() ==> offer_in(events[i]) is Some,
    ensures
        after_all(h, events).pending_buffer == (if i < events.len() {
            offer_in(events[i])
        } else {
            None
        }),
    decreases events.len(),
{
    if events.len() > 0 {
        let e = events[0];
        let rest = events.drop_first();
        if i == 0 {
            law_first_offer_wins(h.after(e), rest);
        } else {
            assert(offer_in(events[0]) is None);
            assert forall|j: int| 0 <= j < i - 1 implies offer_in(#[trigger] rest[j]) is None by {
                assert(rest[j] == events[j + 1]);
            }
            law_first_buffer_counts(h.after(e), rest, i - 1);
        }
    }
}

/// Of what is said about the order of the rows, the last counts, whatever was said before.
pub proof fn law_last_word_on_the_rows_counts(h: Handshake, events: Seq<FrameEvent>, y_invert: bool)
    ensures
        after_all(h, events.push(FrameEvent::Flags { y_invert })).y_invert == y_invert,
        after_all(h, events.push(FrameEvent::BufferDone)).y_invert == after_all(h, events).y_invert,
        after_all(h, events.push(FrameEvent::Ready)).y_invert == after_all(h, events).y_invert,
        after_all(h, events.push(FrameEvent::Failed)).y_invert == after_all(h, events).y_invert,
        forall|spec: BufferSpec|
            #![trigger events.push(FrameEvent::Buffer(spec))]
            after_all(h, events.push(FrameEvent::Buffer(spec))).y_invert == after_all(
                h,
                events,
            ).y_invert,
{
    lemma_after_push(h, events, FrameEvent::Flags { y_invert });
    lemma_after_push(h, events, FrameEvent::BufferDone);
    lemma_after_push(h, events, FrameEvent::Ready);
    lemma_after_push(h, events, FrameEvent::Failed);
    assert forall|spec: BufferSpec|
        #![trigger events.push(FrameEvent::Buffer(spec))]
        after_all(h, events.push(FrameEvent::Buffer(spec))).y_invert == after_all(
            h,
            events,
        ).y_invert by {
        lemma_after_push(h, events, FrameEvent::Buffer(spec));
    }
}

proof fn lemma_after_push(h: Handshake, events: Seq<FrameEvent>, e: FrameEvent)
    ensures
        after_all(h, events.push(e)) == after_all(h, events).after(e),
    decreases events.len(),
{
    reveal_with_fuel(after_all, 2);
    let all = events.push(e);
    if events.len() == 0 {
        assert(all.drop_first() =~= Seq::<FrameEvent>::empty());
    } else {
        assert(all.drop_first() =~= events.drop_first().push(e));
        lemma_after_push(h.after(events[0]), events.drop_first(), e);
    }
}

/// An output takes from a report what the report is about, and keeps all else.
pub proof fn law_output_keeps_what_it_is_told(o: OutputInfo, factor: i32, name: String)
    ensures
        o.after(OutputEvent::Scale(factor)).scale == factor,
        o.after(OutputEvent::Scale(factor)).name == o.name,
        o.after(OutputEvent::Scale(factor)).registry_name == o.registry_name,
        o.after(OutputEvent::Name(name)).name == Some(name),
        o.after(OutputEvent::Name(name)).scale == o.scale,
        o.after(OutputEvent::Name(name)).registry_name == o.registry_name,
{
}

/// The output of a name is the first that carries exactly that name, wherever it stands in
/// the list, and there is none only where no output carries it.
pub proof fn law_named_output_is_the_first(outputs: Seq<OutputInfo>, name: Seq<char>, i: int)
    requires
        0 <= i < outputs.len(),
        outputs[i].name matches Some(n) && n@ == name,
        forall|j: int|
            0 <= j < i ==> !((#[trigger] outputs[j]).name matches Some(n) && n@ == name),
    ensures
        !none_named(outputs, name),
        forall|k: int| #[trigger] first_named(outputs, name, k) <==> k == i,
{
    assert(outputs[i].is_named(name));
    assert forall|k: int| #[trigger] first_named(outputs, name, k) <==> k == i by {
        if first_named(outputs, name, k) && k > i {
            assert(!outputs[i].is_named(name));
        }
        if first_named(outputs, name, k) && k < i {
            assert(outputs[k].is_named(name));
        }
    }
}

/// Where no output carries the name, none is found.
pub proof fn law_unknown_output_is_not_found(outputs: Seq<OutputInfo>, name: Seq<char>, k: int)
    requires
        forall|j: int|
            0 <= j < outputs.len() ==> !((#[trigger] outputs[j]).name matches Some(n) && n@ == name),
    ensures
        none_named(outputs, name),
        !first_named(outputs, name, k),
{
}

/// A report reaches the first output with its registry id, wherever that stands.
pub proof fn law_report_reaches_its_output(outputs: Seq<OutputInfo>, id: u32, i: int)
    requires
        0 <= i < outputs.len(),
        outputs[i].registry_name == id,
        forall|j: int| 0 <= j < i ==> (#[trigger] outputs[j]).registry_name != id,
    ensures
        first_with_id(outputs, id, i),
        forall|k: int| #[trigger] first_with_id(outputs, id, k) ==> k == i,
{
    assert forall|k: int| #[trigger] first_with_id(outputs, id, k) implies k == i by {
        if k > i {
            assert(outputs[i].registry_name != id);
        }
    }
}

} // verus!
