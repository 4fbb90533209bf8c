//! The windows that can be captured: rectangles into a grab of their output.
//!
//! A grab copies an output, not a surface, so window capture crops a grab to the
//! rectangle that the compositor reports. Anything that overlaps the window is in the
//! crop, and the border around the window is not.

use vstd::prelude::*;

use crate::json::{
    as_list, as_text, field, flag, integer_field, integer_list, integers, integers_in, json_of,
    Json,
};
use crate::monitor::{parse_reply, reply_json, Reply};
use crate::overlay::Rect;
use crate::text::same;

verus! {

/// A window's place in the logical coordinate space that spans every output.
#[derive(Clone, Copy, Debug, PartialEq, Eq, Structural)]
pub struct Geometry {
    pub x: i64,
    pub y: i64,
    pub width: i64,
    pub height: i64,
}

/// The part of that space that a monitor displays, and the tags that it shows.
pub struct Viewport {
    pub area: Geometry,
    pub active_tags: Vec<i64>,
}

/// What the compositor reports of a window.
pub struct Client {
    /// The monitor that it is on.
    pub monitor: Option<String>,
    pub minimized: bool,
    pub floating: bool,
    pub tags: Vec<i64>,
    /// Its place, where all of it was reported.
    pub geometry: Option<Geometry>,
}

/// What a viewport holds.
pub struct ViewportView {
    pub area: Geometry,
    pub active_tags: Seq<i64>,
}

/// What a client holds.
pub struct ClientView {
    pub monitor: Option<Seq<char>>,
    pub minimized: bool,
    pub floating: bool,
    pub tags: Seq<i64>,
    pub geometry: Option<Geometry>,
}

impl View for Viewport {
    type V = ViewportView;

    open spec fn view(&self) -> ViewportView {
        ViewportView { area: self.area, active_tags: self.active_tags@ }
    }
}

impl View for Client {
    type V = ClientView;

    open spec fn view(&self) -> ClientView {
        ClientView {
            monitor: match self.monitor {
                Some(m) => Some(m@),
                None => None,
            },
            minimized: self.minimized,
            floating: self.floating,
            tags: self.tags@,
            geometry: self.geometry,
        }
    }
}

/// The geometry that a value reports, where it reports all of it.
pub open spec fn geometry_of(v: Json) -> Option<Geometry> {
    match (
        v.integer_field("x"@),
        v.integer_field("y"@),
        v.integer_field("width"@),
        v.integer_field("height"@),
    ) {
        (Some(x), Some(y), Some(width), Some(height)) => Some(Geometry { x, y, width, height }),
        _ => None,
    }
}

fn read_geometry(v: &serde_json::Value) -> (r: Option<Geometry>)
    ensures
        r == geometry_of(json_of(*v)),
{
    match (
        integer_field(v, "x"),
        integer_field(v, "y"),
        integer_field(v, "width"),
        integer_field(v, "height"),
    ) {
        (Some(x), Some(y), Some(width), Some(height)) => Some(Geometry { x, y, width, height }),
        _ => None,
    }
}

/// The viewport that a monitor's description reports, where it reports all of it.
pub open spec fn viewport_of(v: Json) -> Option<ViewportView> {
    match (geometry_of(v), integer_list(v, "active_tags"@)) {
        (Some(area), Some(active_tags)) => Some(ViewportView { area, active_tags }),
        _ => None,
    }
}

/// Read a monitor's origin, size and active tags.
pub fn viewport(description: &serde_json::Value) -> (r: Option<Viewport>)
    ensures
        match r {
            Some(view) => viewport_of(json_of(*description)) == Some(view@),
            None => viewport_of(json_of(*description)) is None,
        },
{
    match (read_geometry(description), integers_in(description, "active_tags")) {
        (Some(area), Some(active_tags)) => Some(Viewport { area, active_tags }),
        _ => None,
    }
}

/// What a window's description reports. A window without tags is on none.
pub open spec fn client_of(v: Json) -> ClientView {
    ClientView {
        monitor: match v.field("monitor"@) {
            Some(m) => m.text(),
            None => None,
        },
        minimized: v.flag("is_minimized"@),
        floating: v.flag("is_floating"@),
        tags: match integer_list(v, "tags"@) {
            Some(tags) => tags,
            None => Seq::empty(),
        },
        geometry: geometry_of(v),
    }
}

/// Read a window's description.
pub fn read_client(v: &serde_json::Value) -> (c: Client)
    ensures
        c@ == client_of(json_of(*v)),
{
    let monitor: Option<String> = match field(v, "monitor") {
        Some(m) => match as_text(m) {
            Some(name) => Some(name.to_owned()),
            None => None,
        },
        None => None,
    };
    let tags: Vec<i64> = match integers_in(v, "tags") {
        Some(tags) => tags,
        None => Vec::new(),
    };
    Client {
        monitor,
        minimized: flag(v, "is_minimized"),
        floating: flag(v, "is_floating"),
        tags,
        geometry: read_geometry(v),
    }
}

/// The windows that a list of them describes.
pub open spec fn clients_of(v: Json) -> Option<Seq<ClientView>> {
    match v.field("clients"@) {
        Some(list) => match list.list() {
            Some(items) => Some(items.map_values(|item: Json| client_of(item))),
            None => None,
        },
        None => None,
    }
}

/// Read a list of windows.
pub fn read_clients(v: &serde_json::Value) -> (r: Option<Vec<Client>>)
    ensures
        match r {
            Some(clients) => clients_of(json_of(*v)) == Some(
                clients@.map_values(|c: Client| c@),
            ),
            None => clients_of(json_of(*v)) is None,
        },
{
    let items: &Vec<serde_json::Value> = match field(v, "clients") {
        None => {
            return None;
        },
        Some(x) => match as_list(x) {
            None => {
                return None;
            },
            Some(items) => items,
        },
    };
    let n: usize = items.len();
    let mut clients: Vec<Client> = Vec::new();
    let mut i: usize = 0;
    while i < n
        invariant
            n == items@.len(),
            i <= n,
            clients@.len() == i,
            forall|j: int| 0 <= j < i ==> (#[trigger] clients@[j])@ == client_of(json_of(items@[j])),
        decreases n - i,
    {
        clients.push(read_client(&items[i]));
        i = i + 1;
    }
    assert(clients@.map_values(|c: Client| c@) =~= items@.map_values(
        |x: serde_json::Value| json_of(x),
    ).map_values(|item: Json| client_of(item)));
    Some(clients)
}

/// Some tag of the client is displayed.
pub open spec fn shares_tag(tags: Seq<i64>, active: Seq<i64>) -> bool {
    exists|i: int| 0 <= i < tags.len() && active.contains(#[trigger] tags[i])
}

/// Whether any of the client's tags is currently displayed on the monitor.
pub fn on_active_tag(client: &Client, active: &[i64]) -> (r: bool)
    ensures
        r == shares_tag(client@.tags, active@),
{
    let n: usize = client.tags.len();
    let m: usize = active.len();
    let mut i: usize = 0;
    while i < n
        invariant
            n == client.tags@.len(),
            m == active@.len(),
            i <= n,
            forall|a: int| 0 <= a < i ==> !active@.contains(#[trigger] client.tags@[a]),
        decreases n - i,
    {
        let mut j: usize = 0;
        while j < m
            invariant
                n == client.tags@.len(),
                m == active@.len(),
                i < n,
                j <= m,
                forall|b: int| 0 <= b < j ==> #[trigger] active@[b] != client.tags@[i as int],
            decreases m - j,
        {
            if active[j] == client.tags[i] {
                assert(active@[j as int] == client.tags@[i as int]);
                assert(active@.contains(client.tags@[i as int]));
                return true;
            }
            j = j + 1;
        }
        i = i + 1;
    }
    false
}

/// How near the viewer a client sits, coarsely; lower is nearer. Floating windows are
/// drawn above tiled ones.
pub open spec fn rank_of(floating: bool) -> u8 {
    if floating {
        0
    } else {
        1
    }
}

/// How near the viewer a client sits, coarsely; lower is nearer. Ties break on area,
/// smallest first.
///
/// The compositor reports no stacking order, only that it draws floating windows above
/// tiled ones. Area alone would not do: a floating window usually spans several tiled
/// columns and is the largest where it overlaps them.
pub fn stacking_rank(client: &Client) -> (r: u8)
    ensures
        r == rank_of(client@.floating),
{
    if client.floating {
        0
    } else {
        1
    }
}

pub open spec fn min(a: int, b: int) -> int {
    if a <= b {
        a
    } else {
        b
    }
}

pub open spec fn max(a: int, b: int) -> int {
    if a <= b {
        b
    } else {
        a
    }
}

/// The first and the last visible coordinate, the last exclusive, of a window along
/// one axis.
pub open spec fn visible_span(at: int, len: int, view_at: int, view_len: int) -> (int, int) {
    (max(at, view_at), min(at + len, view_at + view_len))
}

/// A coordinate of the viewport in physical pixels of a grab that is `limit` long.
pub open spec fn physical(at: int, view_at: int, scale: i32, limit: u32) -> int {
    max(0, min((at - view_at) * max(scale as int, 1), limit as int))
}

/// The visible part of a window in physical grab pixels; `None` where none is visible.
pub open spec fn visible_rect(
    g: Geometry,
    area: Geometry,
    scale: i32,
    grab_w: u32,
    grab_h: u32,
) -> Option<Rect> {
    let (x0, x1) = visible_span(g.x as int, g.width as int, area.x as int, area.width as int);
    let (y0, y1) = visible_span(g.y as int, g.height as int, area.y as int, area.height as int);
    if x1 <= x0 || y1 <= y0 {
        None
    } else {
        let px0 = physical(x0, area.x as int, scale, grab_w);
        let py0 = physical(y0, area.y as int, scale, grab_h);
        let px1 = physical(x1, area.x as int, scale, grab_w);
        let py1 = physical(y1, area.y as int, scale, grab_h);
        Some(
            Rect {
                x: px0 as u32,
                y: py0 as u32,
                width: (px1 - px0) as u32,
                height: (py1 - py0) as u32,
            },
        )
    }
}

/// The place of a client's visible part in a grab.
pub open spec fn rect_of(
    geometry: Option<Geometry>,
    area: Geometry,
    scale: i32,
    grab_w: u32,
    grab_h: u32,
) -> Option<Rect> {
    match geometry {
        Some(g) => visible_rect(g, area, scale, grab_w, grab_h),
        None => None,
    }
}

proof fn lemma_physical_order(a: int, b: int, view_at: int, scale: i32, limit: u32)
    requires
        a <= b,
    ensures
        0 <= physical(a, view_at, scale, limit) <= physical(b, view_at, scale, limit) <= limit,
{
    let s = max(scale as int, 1);
    assert((a - view_at) * s <= (b - view_at) * s) by (nonlinear_arith)
        requires
            a <= b,
            s >= 1,
    ;
}

fn physical_of(at: i128, view_at: i64, scale: i32, limit: u32) -> (p: u32)
    requires
        -0x1_0000_0000_0000_0000 <= at <= 0x1_0000_0000_0000_0000,
    ensures
        p == physical(at as int, view_at as int, scale, limit),
{
    let s: i128 = if scale < 1 {
        1
    } else {
        scale as i128
    };
    let d: i128 = at - view_at as i128;
    proof {
        assert(-0x2_0000_0000_0000_0000 * 0x8000_0000 <= d * s <= 0x2_0000_0000_0000_0000
            * 0x8000_0000) by (nonlinear_arith)
            requires
                -0x2_0000_0000_0000_0000 <= d <= 0x2_0000_0000_0000_0000,
                1 <= s <= 0x8000_0000,
        ;
    }
    let p: i128 = d * s;
    if p < 0 {
        0
    } else if p > limit as i128 {
        limit
    } else {
        p as u32
    }
}

/// Map one client's rectangle into physical grab pixels, or `None` if it does not
/// overlap the viewport at all.
///
/// Client coordinates are global: one space spans every output, and windows extend
/// well past the visible viewport. The rectangle is intersected with the viewport
/// before it is made local to the output, so a window half off the edge yields the
/// visible half. The scale is the grab's, since the crop is into its pixels, and the
/// result is clamped to the grab.
pub fn client_rect(client: &Client, view: &Viewport, scale: i32, grab_w: u32, grab_h: u32) -> (r:
    Option<Rect>)
    ensures
        r == rect_of(client@.geometry, view@.area, scale, grab_w, grab_h),
        r matches Some(rect) ==> rect.within(grab_w as int, grab_h as int),
{
    let g: Geometry = match client.geometry {
        Some(g) => g,
        None => {
            return None;
        },
    };
    let a: Geometry = view.area;
    let x0: i64 = if g.x <= a.x {
        a.x
    } else {
        g.x
    };
    let y0: i64 = if g.y <= a.y {
        a.y
    } else {
        g.y
    };
    let right: i128 = g.x as i128 + g.width as i128;
    let view_right: i128 = a.x as i128 + a.width as i128;
    let x1: i128 = if right <= view_right {
        right
    } else {
        view_right
    };
    let bottom: i128 = g.y as i128 + g.height as i128;
    let view_bottom: i128 = a.y as i128 + a.height as i128;
    let y1: i128 = if bottom <= view_bottom {
        bottom
    } else {
        view_bottom
    };
    if x1 <= x0 as i128 || y1 <= y0 as i128 {
        return None;
    }
    proof {
        lemma_physical_order(x0 as int, x1 as int, a.x as int, scale, grab_w);
        lemma_physical_order(y0 as int, y1 as int, a.y as int, scale, grab_h);
    }
    let px0: u32 = physical_of(x0 as i128, a.x, scale, grab_w);
    let py0: u32 = physical_of(y0 as i128, a.y, scale, grab_h);
    let px1: u32 = physical_of(x1, a.x, scale, grab_w);
    let py1: u32 = physical_of(y1, a.y, scale, grab_h);
    Some(Rect { x: px0, y: py0, width: px1 - px0, height: py1 - py0 })
}

proof fn lemma_scaled_span(from: int, to: int, p: int, s: int)
    requires
        0 <= p,
        1 <= s,
    ensures
        from * s <= p < to * s <==> from <= p / s < to,
{
    assert(from * s <= p <==> from <= p / s) by (nonlinear_arith)
        requires
            0 <= p,
            1 <= s,
    ;
    assert(p < to * s <==> p / s < to) by (nonlinear_arith)
        requires
            0 <= p,
            1 <= s,
    ;
}

/// What is offered is what is seen: where the grab shows the whole viewport, a pixel of it
/// belongs to a window's rectangle exactly where the logical pixel that it lies in belongs
/// to the window. A window without a rectangle has no such pixel.
pub proof fn law_rectangle_is_what_is_visible(
    g: Geometry,
    area: Geometry,
    scale: i32,
    grab_w: u32,
    grab_h: u32,
    px: int,
    py: int,
)
    requires
        grab_w == area.width * max(scale as int, 1),
        grab_h == area.height * max(scale as int, 1),
        0 <= px < grab_w,
        0 <= py < grab_h,
    ensures
        ({
            let s = max(scale as int, 1);
            let x = area.x + px / s;
            let y = area.y + py / s;
            let seen = g.x <= x < g.x + g.width && g.y <= y < g.y + g.height;
            match visible_rect(g, area, scale, grab_w, grab_h) {
                Some(rect) => rect.covers(px, py) <==> seen,
                None => !seen,
            }
        }),
{
    let s = max(scale as int, 1);
    let (x0, x1) = visible_span(g.x as int, g.width as int, area.x as int, area.width as int);
    let (y0, y1) = visible_span(g.y as int, g.height as int, area.y as int, area.height as int);
    lemma_scaled_span(x0 - area.x, x1 - area.x, px, s);
    lemma_scaled_span(y0 - area.y, y1 - area.y, py, s);
    lemma_scaled_span(0, area.width as int, px, s);
    lemma_scaled_span(0, area.height as int, py, s);
    if x0 < x1 && y0 < y1 {
        lemma_physical_order(x0, x1, area.x as int, scale, grab_w);
        lemma_physical_order(y0, y1, area.y as int, scale, grab_h);
        lemma_unclamped(x0, x1, area.x as int, area.width as int, s);
        lemma_unclamped(y0, y1, area.y as int, area.height as int, s);
    }
}

proof fn lemma_unclamped(a: int, b: int, view_at: int, view_len: int, s: int)
    requires
        view_at <= a < b <= view_at + view_len,
        1 <= s,
    ensures
        0 <= (a - view_at) * s <= (b - view_at) * s <= view_len * s,
{
    assert(0 <= (a - view_at) * s <= (b - view_at) * s <= view_len * s) by (nonlinear_arith)
        requires
            view_at <= a < b <= view_at + view_len,
            1 <= s,
    ;
}

/// A window that can be captured, with what it is ranked by.
#[derive(Clone, Copy, Debug, PartialEq, Eq, Structural)]
pub struct Ranked {
    pub rank: u8,
    pub area: u64,
    pub rect: Rect,
}

impl Ranked {
    /// `self` sits at least as near the viewer as `other`.
    pub open spec fn no_farther(self, other: Ranked) -> bool {
        self.rank < other.rank || (self.rank == other.rank && self.area <= other.area)
    }

    /// Rank and area are those given.
    pub open spec fn tied(self, rank: u8, area: u64) -> bool {
        self.rank == rank && self.area == area
    }
}

/// The capturable part of a client on `monitor`, if there is one: the client is on that
/// monitor, is not minimized, is on a tag that is shown, and enough of it is visible.
pub open spec fn candidate(
    c: ClientView,
    view: ViewportView,
    monitor: Seq<char>,
    scale: i32,
    grab_w: u32,
    grab_h: u32,
) -> Option<Ranked> {
    if c.monitor == Some(monitor) && !c.minimized && shares_tag(c.tags, view.active_tags) {
        match rect_of(c.geometry, view.area, scale, grab_w, grab_h) {
            Some(rect) => if rect.usable() {
                Some(
                    Ranked {
                        rank: rank_of(c.floating),
                        area: (rect.width * rect.height) as u64,
                        rect,
                    },
                )
            } else {
                None
            },
            None => None,
        }
    } else {
        None
    }
}

/// The capturable windows among `clients`, in the order in which they were reported.
pub open spec fn candidates(
    clients: Seq<ClientView>,
    view: ViewportView,
    monitor: Seq<char>,
    scale: i32,
    grab_w: u32,
    grab_h: u32,
) -> Seq<Ranked>
    decreases clients.len(),
{
    if clients.len() == 0 {
        Seq::empty()
    } else {
        let rest = candidates(clients.drop_last(), view, monitor, scale, grab_w, grab_h);
        match candidate(clients.last(), view, monitor, scale, grab_w, grab_h) {
            Some(r) => rest.push(r),
            None => rest,
        }
    }
}

/// `out` holds what `found` holds, nearest first, and those that tie in the order in
/// which they were found.
pub open spec fn nearest_first(found: Seq<Ranked>, out: Seq<Ranked>) -> bool {
    &&& forall|i: int, j: int| 0 <= i < j < out.len() ==> #[trigger] out[i].no_farther(
        #[trigger] out[j],
    )
    &&& forall|rank: u8, area: u64| #[trigger]
        tied_in(out, rank, area) == tied_in(found, rank, area)
}

/// Those of `s` with the rank and area given, in order.
pub open spec fn tied_in(s: Seq<Ranked>, rank: u8, area: u64) -> Seq<Ranked> {
    s.filter(|r: Ranked| r.tied(rank, area))
}

/// The rectangles of `s`.
pub open spec fn rects_of(s: Seq<Ranked>) -> Seq<Rect> {
    s.map_values(|r: Ranked| r.rect)
}

/// `rects` are the rectangles of what was found, nearest first.
pub open spec fn listed(found: Seq<Ranked>, rects: Seq<Rect>) -> bool {
    exists|out: Seq<Ranked>| #[trigger] nearest_first(found, out) && rects == rects_of(out)
}

proof fn lemma_tied_push(s: Seq<Ranked>, x: Ranked, rank: u8, area: u64)
    ensures
        tied_in(s.push(x), rank, area) == (if x.tied(rank, area) {
            tied_in(s, rank, area).push(x)
        } else {
            tied_in(s, rank, area)
        }),
{
    reveal(Seq::filter);
    assert(s.push(x).drop_last() =~= s);
}

proof fn lemma_none_tied(s: Seq<Ranked>, rank: u8, area: u64)
    requires
        forall|i: int| 0 <= i < s.len() ==> !(#[trigger] s[i]).tied(rank, area),
    ensures
        tied_in(s, rank, area) == Seq::<Ranked>::empty(),
    decreases s.len(),
{
    reveal(Seq::filter);
    if s.len() > 0 {
        lemma_none_tied(s.drop_last(), rank, area);
        assert(!s.last().tied(rank, area));
    }
}

/// Put `x` behind everything that is no farther.
fn insert_ranked(list: &mut Vec<Ranked>, x: Ranked, Ghost(found): Ghost<Seq<Ranked>>)
    requires
        nearest_first(found, old(list)@),
    ensures
        nearest_first(found.push(x), final(list)@),
{
    let n: usize = list.len();
    let mut p: usize = n;
    while p > 0 && (x.rank < list[p - 1].rank || (x.rank == list[p - 1].rank && x.area < list[p
        - 1].area))
        invariant
            list@ == old(list)@,
            n == list@.len(),
            p <= n,
            forall|i: int|
                p <= i < n ==> x.no_farther(#[trigger] list@[i]) && !list@[i].no_farther(x),
        decreases p,
    {
        p = p - 1;
    }
    let ghost whole = list@;
    proof {
        assert forall|i: int| 0 <= i < p implies (#[trigger] whole[i]).no_farther(x) by {
            assert(whole[p - 1].no_farther(x));
            if i < p - 1 {
                assert(whole[i].no_farther(whole[p - 1]));
            }
        }
    }
    list.insert(p, x);
    proof {
        lemma_insert(found, whole, x, p as int);
    }
}

/// Putting `x` behind everything that is no farther, and before all else, keeps the order.
proof fn lemma_insert(found: Seq<Ranked>, whole: Seq<Ranked>, x: Ranked, p: int)
    requires
        nearest_first(found, whole),
        0 <= p <= whole.len(),
        forall|i: int| 0 <= i < p ==> (#[trigger] whole[i]).no_farther(x),
        forall|i: int|
            p <= i < whole.len() ==> x.no_farther(#[trigger] whole[i]) && !whole[i].no_farther(x),
    ensures
        nearest_first(found.push(x), whole.insert(p, x)),
{
    let out = whole.insert(p, x);
    let before = whole.subrange(0, p);
    let behind = whole.subrange(p, whole.len() as int);
    assert(whole =~= before + behind);
    assert(out =~= before.push(x) + behind);
    assert forall|i: int, j: int| 0 <= i < j < out.len() implies #[trigger] out[i].no_farther(
        #[trigger] out[j],
    ) by {
        if i < p && j > p {
            assert(out[i] == whole[i] && out[j] == whole[j - 1]);
            assert(whole[i].no_farther(whole[j - 1]));
        } else if i > p {
            assert(whole[i - 1].no_farther(whole[j - 1]));
        } else if j < p {
            assert(whole[i].no_farther(whole[j]));
        } else if i == p {
            assert(out[j] == whole[j - 1]);
        }
    }
    assert forall|rank: u8, area: u64| #[trigger]
        tied_in(out, rank, area) == tied_in(found.push(x), rank, area) by {
        let pred = |r: Ranked| r.tied(rank, area);
        Seq::filter_distributes_over_add(before, behind, pred);
        Seq::filter_distributes_over_add(before.push(x), behind, pred);
        lemma_tied_push(before, x, rank, area);
        lemma_tied_push(found, x, rank, area);
        assert(tied_in(whole, rank, area) == tied_in(found, rank, area));
        if x.tied(rank, area) {
            assert forall|i: int| 0 <= i < behind.len() implies !(#[trigger] behind[i]).tied(
                rank,
                area,
            ) by {
                assert(behind[i] == whole[p + i]);
            }
            lemma_none_tied(behind, rank, area);
            assert(tied_in(out, rank, area) =~= tied_in(whole, rank, area).push(x));
        }
    }
}

/// The windows among `clients` that are visible on `monitor` and large enough to
/// capture, as rectangles into a grab of that output, topmost first.
pub fn windows_among(
    clients: &Vec<Client>,
    view: &Viewport,
    monitor: &str,
    scale: i32,
    grab_w: u32,
    grab_h: u32,
) -> (r: Vec<Rect>)
    ensures
        listed(
            candidates(
                clients@.map_values(|c: Client| c@),
                view@,
                monitor@,
                scale,
                grab_w,
                grab_h,
            ),
            r@,
        ),
{
    let ghost all = clients@.map_values(|c: Client| c@);
    let n: usize = clients.len();
    let mut list: Vec<Ranked> = Vec::new();
    let mut i: usize = 0;
    proof {
        assert(all.subrange(0, 0) =~= Seq::empty());
        assert(nearest_first(Seq::empty(), list@));
    }
    while i < n
        invariant
            n == clients@.len(),
            i <= n,
            all == clients@.map_values(|c: Client| c@),
            nearest_first(
                candidates(all.subrange(0, i as int), view@, monitor@, scale, grab_w, grab_h),
                list@,
            ),
        decreases n - i,
    {
        let ghost found = candidates(
            all.subrange(0, i as int),
            view@,
            monitor@,
            scale,
            grab_w,
            grab_h,
        );
        assert(all.subrange(0, i + 1).drop_last() =~= all.subrange(0, i as int));
        assert(all.subrange(0, i + 1).last() == clients@[i as int]@);
        let c: &Client = &clients[i];
        let here: bool = match &c.monitor {
            Some(m) => same(m.as_str(), monitor),
            None => false,
        };
        if here && !c.minimized && on_active_tag(c, view.active_tags.as_slice()) {
            if let Some(rect) = client_rect(c, view, scale, grab_w, grab_h) {
                if rect.is_usable() {
                    proof {
                        assert(0 <= rect.width * rect.height <= 0xffff_ffff * 0xffff_ffff)
                            by (nonlinear_arith)
                            requires
                                0 <= rect.width <= 0xffff_ffff,
                                0 <= rect.height <= 0xffff_ffff,
                        ;
                    }
                    let area: u64 = rect.width as u64 * rect.height as u64;
                    let x: Ranked = Ranked { rank: stacking_rank(c), area, rect };
                    insert_ranked(&mut list, x, Ghost(found));
                }
            }
        }
        i = i + 1;
    }
    assert(all.subrange(0, n as int) =~= all);
    let ghost out = list@;
    let m: usize = list.len();
    let mut rects: Vec<Rect> = Vec::new();
    let mut k: usize = 0;
    while k < m
        invariant
            m == list@.len(),
            k <= m,
            list@ == out,
            rects@ =~= rects_of(out).subrange(0, k as int),
        decreases m - k,
    {
        rects.push(list[k].rect);
        k = k + 1;
    }
    assert(rects@ =~= rects_of(out));
    rects
}

/// What the two replies say, where both say enough.
pub open spec fn reported(view_reply: Option<Reply>, clients_reply: Option<Reply>) -> Option<
    (ViewportView, Seq<ClientView>),
> {
    match (reply_json(view_reply), reply_json(clients_reply)) {
        (Some(v), Some(c)) => match (viewport_of(v), clients_of(c)) {
            (Some(view), Some(clients)) => Some((view, clients)),
            _ => None,
        },
        _ => None,
    }
}

/// `rects` are the windows that the replies report, nearest first; none where either
/// reply says too little.
pub open spec fn offers(
    monitor: Seq<char>,
    scale: i32,
    grab_w: u32,
    grab_h: u32,
    view_reply: Option<Reply>,
    clients_reply: Option<Reply>,
    rects: Seq<Rect>,
) -> bool {
    match reported(view_reply, clients_reply) {
        Some((view, clients)) => listed(
            candidates(clients, view, monitor, scale, grab_w, grab_h),
            rects,
        ),
        None => rects.len() == 0,
    }
}

/// The windows on `monitor` that are visible and large enough to capture, as
/// rectangles into a grab of that output measuring `grab_w` by `grab_h` physical pixels
/// at `scale`.
///
/// `view_reply` answers a query for the monitor and `clients_reply` one for all
/// clients. Where either fails there are no rectangles to offer.
///
/// Sorted topmost first, so that the first rectangle that contains the cursor is the
/// window that is seen there.
pub fn visible_windows(
    monitor: &str,
    scale: i32,
    grab_w: u32,
    grab_h: u32,
    view_reply: &Option<Reply>,
    clients_reply: &Option<Reply>,
) -> (r: Vec<Rect>)
    ensures
        offers(monitor@, scale, grab_w, grab_h, *view_reply, *clients_reply, r@),
{
    let view: Viewport = match parse_reply(view_reply) {
        Some(v) => match viewport(&v) {
            Some(view) => view,
            None => {
                return Vec::new();
            },
        },
        None => {
            return Vec::new();
        },
    };
    let clients: Vec<Client> = match parse_reply(clients_reply) {
        Some(v) => match read_clients(&v) {
            Some(clients) => clients,
            None => {
                return Vec::new();
            },
        },
        None => {
            return Vec::new();
        },
    };
    windows_among(&clients, &view, monitor, scale, grab_w, grab_h)
}

/// The first of `windows` that covers the pixel in column `x` of row `y`.
pub open spec fn first_hit(windows: Seq<Rect>, x: int, y: int, hit: int) -> bool {
    &&& 0 <= hit < windows.len()
    &&& windows[hit].covers(x, y)
    &&& forall|i: int| 0 <= i < hit ==> !(#[trigger] windows[i]).covers(x, y)
}

/// `r` is the window under a cursor on the pixel in column `x` of row `y`: the first that
/// covers it, if there is one.
pub open spec fn under_cursor(windows: Seq<Rect>, x: int, y: int, r: Option<Rect>) -> bool {
    match r {
        Some(rect) => exists|hit: int| #[trigger]
            first_hit(windows, x, y, hit) && rect == windows[hit],
        None => forall|i: int| 0 <= i < windows.len() ==> !(#[trigger] windows[i]).covers(x, y),
    }
}

/// The window under the cursor: the first that covers the pixel in column `x` of row
/// `y`.
pub fn window_at(windows: &Vec<Rect>, x: i64, y: i64) -> (r: Option<Rect>)
    ensures
        under_cursor(windows@, x as int, y as int, r),
{
    let n: usize = windows.len();
    let mut i: usize = 0;
    while i < n
        invariant
            n == windows@.len(),
            i <= n,
            forall|j: int| 0 <= j < i ==> !(#[trigger] windows@[j]).covers(x as int, y as int),
        decreases n - i,
    {
        let w: Rect = windows[i];
        let right: i64 = w.x as i64 + w.width as i64;
        let bottom: i64 = w.y as i64 + w.height as i64;
        if w.x as i64 <= x && x < right && w.y as i64 <= y && y < bottom {
            assert(first_hit(windows@, x as int, y as int, i as int));
            return Some(w);
        }
        i = i + 1;
    }
    None
}

proof fn lemma_tied_member(s: Seq<Ranked>, x: Ranked)
    ensures
        tied_in(s, x.rank, x.area).contains(x) == s.contains(x),
{
    let pred = |r: Ranked| r.tied(x.rank, x.area);
    if s.contains(x) {
        let k = choose|k: int| 0 <= k < s.len() && s[k] == x;
        s.lemma_filter_contains(pred, k);
    }
    if tied_in(s, x.rank, x.area).contains(x) {
        s.lemma_filter_contains_rev(pred, x);
    }
}

/// Every window found is listed, and nothing else is.
pub proof fn law_every_window_is_listed(found: Seq<Ranked>, out: Seq<Ranked>, w: Ranked)
    requires
        nearest_first(found, out),
    ensures
        out.contains(w) == found.contains(w),
{
    lemma_tied_member(found, w);
    lemma_tied_member(out, w);
}

/// What is picked under the cursor is the window seen there: of all the windows found
/// that cover the pixel, none sits nearer the viewer than the first one listed. So a
/// floating window is picked before the tiled ones under it, and of two windows of one
/// kind the smaller.
pub proof fn law_picked_window_is_topmost(
    found: Seq<Ranked>,
    out: Seq<Ranked>,
    x: int,
    y: int,
    hit: int,
    w: Ranked,
)
    requires
        nearest_first(found, out),
        first_hit(rects_of(out), x, y, hit),
        found.contains(w),
        w.rect.covers(x, y),
    ensures
        out[hit].no_farther(w),
{
    law_every_window_is_listed(found, out, w);
    let k = choose|k: int| 0 <= k < out.len() && out[k] == w;
    assert(rects_of(out)[k] == w.rect);
    if hit < k {
        assert(out[hit].no_farther(out[k]));
    }
}

/// The order is fixed by what was found.
pub proof fn law_order_is_determined(found: Seq<Ranked>, a: Seq<Ranked>, b: Seq<Ranked>)
    requires
        nearest_first(found, a),
        nearest_first(found, b),
    ensures
        a == b,
{
    assert forall|rank: u8, area: u64| #[trigger]
        tied_in(a, rank, area) == tied_in(b, rank, area) by {
        assert(tied_in(a, rank, area) == tied_in(found, rank, area));
        assert(tied_in(b, rank, area) == tied_in(found, rank, area));
    }
    lemma_same_order(a, b);
}

proof fn lemma_same_order(a: Seq<Ranked>, b: Seq<Ranked>)
    requires
        forall|i: int, j: int| 0 <= i < j < a.len() ==> #[trigger] a[i].no_farther(#[trigger] a[j]),
        forall|i: int, j: int| 0 <= i < j < b.len() ==> #[trigger] b[i].no_farther(#[trigger] b[j]),
        forall|rank: u8, area: u64| #[trigger]
            tied_in(a, rank, area) == tied_in(b, rank, area),
    ensures
        a == b,
    decreases a.len(),
{
    if a.len() == 0 {
        if b.len() > 0 {
            lemma_tied_member(b, b[0]);
            lemma_tied_member(a, b[0]);
            assert(tied_in(a, b[0].rank, b[0].area) == tied_in(b, b[0].rank, b[0].area));
        }
        assert(a =~= b);
    } else {
        let x = a.last();
        lemma_tied_member(a, x);
        lemma_tied_member(b, x);
        assert(tied_in(a, x.rank, x.area) == tied_in(b, x.rank, x.area));
        assert(a[a.len() - 1] == x);
        assert(b.contains(x));
        let y = b.last();
        lemma_tied_member(a, y);
        lemma_tied_member(b, y);
        assert(tied_in(a, y.rank, y.area) == tied_in(b, y.rank, y.area));
        assert(b[b.len() - 1] == y);
        assert(a.contains(y));
        let i = choose|i: int| 0 <= i < a.len() && a[i] == y;
        let j = choose|j: int| 0 <= j < b.len() && b[j] == x;
        assert(x.no_farther(y)) by {
            if j < b.len() - 1 {
                assert(b[j].no_farther(b[b.len() - 1]));
            }
        }
        assert(y.no_farther(x)) by {
            if i < a.len() - 1 {
                assert(a[i].no_farther(a[a.len() - 1]));
            }
        }
        let a1 = a.drop_last();
        let b1 = b.drop_last();
        assert(a =~= a1.push(x));
        assert(b =~= b1.push(y));
        lemma_tied_push(a1, x, x.rank, x.area);
        lemma_tied_push(b1, y, x.rank, x.area);
        assert(tied_in(a, x.rank, x.area).last() == x);
        assert(tied_in(b, x.rank, x.area).last() == y);
        assert forall|rank: u8, area: u64| #[trigger]
            tied_in(a1, rank, area) == tied_in(b1, rank, area) by {
            lemma_tied_push(a1, x, rank, area);
            lemma_tied_push(b1, y, rank, area);
            assert(tied_in(a, rank, area) == tied_in(b, rank, area));
            if x.tied(rank, area) {
                assert(tied_in(a1, rank, area) =~= tied_in(a, rank, area).drop_last());
                assert(tied_in(b1, rank, area) =~= tied_in(b, rank, area).drop_last());
            }
        }
        lemma_same_order(a1, b1);
    }
}

/// Whatever is listed can be cropped from the grab: it lies within it and is no smaller
/// than a selection may be.
pub proof fn law_listed_windows_can_be_cropped(
    clients: Seq<ClientView>,
    view: ViewportView,
    monitor: Seq<char>,
    scale: i32,
    grab_w: u32,
    grab_h: u32,
    rects: Seq<Rect>,
    i: int,
)
    requires
        listed(candidates(clients, view, monitor, scale, grab_w, grab_h), rects),
        0 <= i < rects.len(),
    ensures
        rects[i].usable(),
        rects[i].within(grab_w as int, grab_h as int),
{
    let found = candidates(clients, view, monitor, scale, grab_w, grab_h);
    let out = choose|out: Seq<Ranked>| #[trigger]
        nearest_first(found, out) && rects == rects_of(out);
    law_every_window_is_listed(found, out, out[i]);
    assert(out.contains(out[i]));
    let k = choose|k: int| 0 <= k < found.len() && found[k] == out[i];
    lemma_candidate_fits(clients, view, monitor, scale, grab_w, grab_h, k);
}

proof fn lemma_candidate_fits(
    clients: Seq<ClientView>,
    view: ViewportView,
    monitor: Seq<char>,
    scale: i32,
    grab_w: u32,
    grab_h: u32,
    k: int,
)
    requires
        0 <= k < candidates(clients, view, monitor, scale, grab_w, grab_h).len(),
    ensures
        ({
            let rect = candidates(clients, view, monitor, scale, grab_w, grab_h)[k].rect;
            rect.usable() && rect.within(grab_w as int, grab_h as int)
        }),
    decreases clients.len(),
{
    if clients.len() > 0 {
        let rest = candidates(clients.drop_last(), view, monitor, scale, grab_w, grab_h);
        if k < rest.len() {
            lemma_candidate_fits(clients.drop_last(), view, monitor, scale, grab_w, grab_h, k);
        } else {
            let c = clients.last();
            let g = c.geometry->0;
            let a = view.area;
            let (x0, x1) = visible_span(g.x as int, g.width as int, a.x as int, a.width as int);
            let (y0, y1) = visible_span(g.y as int, g.height as int, a.y as int, a.height as int);
            lemma_physical_order(x0, x1, a.x as int, scale, grab_w);
            lemma_physical_order(y0, y1, a.y as int, scale, grab_h);
        }
    }
}

/// What a window's rectangle in the grab is: the pixels of the grab that show the window. A
/// pixel belongs to it exactly where the logical pixel that it lies in belongs to the window
/// and to the viewport, however the window lies and however large the grab is. A window
/// has a rectangle exactly where it and the viewport overlap.
pub proof fn law_rectangle_is_the_part_in_view(
    g: Geometry,
    area: Geometry,
    scale: i32,
    s: int,
    grab_w: u32,
    grab_h: u32,
    px: int,
    py: int,
)
    requires
        scale >= 1 ==> s == scale,
        scale < 1 ==> s == 1,
        0 <= px < grab_w,
        0 <= py < grab_h,
    ensures
        ({
            let x = area.x + px / s;
            let y = area.y + py / s;
            let seen = g.x <= x < g.x + g.width && x < area.x + area.width && g.y <= y < g.y
                + g.height && y < area.y + area.height;
            let overlap = g.width > 0 && g.height > 0 && area.width > 0 && area.height > 0 && g.x
                < area.x + area.width && area.x < g.x + g.width && g.y < area.y + area.height
                && area.y < g.y + g.height;
            match visible_rect(g, area, scale, grab_w, grab_h) {
                Some(r) => {
                    &&& overlap
                    &&& r.x + r.width <= grab_w && r.y + r.height <= grab_h
                    &&& (r.x <= px < r.x + r.width && r.y <= py < r.y + r.height) <==> seen
                },
                None => !overlap && !seen,
            }
        }),
{
    let (x0, x1) = visible_span(g.x as int, g.width as int, area.x as int, area.width as int);
    let (y0, y1) = visible_span(g.y as int, g.height as int, area.y as int, area.height as int);
    assert(s == max(scale as int, 1));
    lemma_scaled_span(x0 - area.x, x1 - area.x, px, s);
    lemma_scaled_span(y0 - area.y, y1 - area.y, py, s);
    assert(0 <= px / s && 0 <= py / s) by {
        lemma_scaled_span(0, px + 1, px, s);
        lemma_scaled_span(0, py + 1, py, s);
        assert(px < (px + 1) * s && py < (py + 1) * s) by (nonlinear_arith)
            requires
                0 <= px,
                0 <= py,
                1 <= s,
        ;
    }
    if x0 < x1 && y0 < y1 {
        lemma_physical_order(x0, x1, area.x as int, scale, grab_w);
        lemma_physical_order(y0, y1, area.y as int, scale, grab_h);
        assert(0 <= (x0 - area.x) * s && 0 <= (x1 - area.x) * s && 0 <= (y0 - area.y) * s && 0 <= (
        y1 - area.y) * s) by (nonlinear_arith)
            requires
                area.x <= x0 < x1,
                area.y <= y0 < y1,
                1 <= s,
        ;
    }
}

/// A client can be captured: it is on the monitor, is not minimized, is on a tag that is
/// shown, and at least eight pixels of it each way lie in the grab.
pub open spec fn capturable(
    c: ClientView,
    view: ViewportView,
    monitor: Seq<char>,
    scale: i32,
    grab_w: u32,
    grab_h: u32,
) -> bool {
    &&& c.monitor == Some(monitor)
    &&& !c.minimized
    &&& exists|t: i64| #[trigger] c.tags.contains(t) && view.active_tags.contains(t)
    &&& c.geometry matches Some(g) && (visible_rect(g, view.area, scale, grab_w, grab_h) matches
        Some(r) && r.width >= 8 && r.height >= 8)
}

/// The part of a client that lies in the grab.
pub open spec fn part_of(
    c: ClientView,
    view: ViewportView,
    scale: i32,
    grab_w: u32,
    grab_h: u32,
) -> Rect {
    visible_rect(c.geometry->0, view.area, scale, grab_w, grab_h)->0
}

/// Client `i` is listed before client `j`: a floating one before one that is not, then the one
/// with the smaller part in the grab, then the one that was reported first.
pub open spec fn listed_before(
    clients: Seq<ClientView>,
    view: ViewportView,
    scale: i32,
    grab_w: u32,
    grab_h: u32,
    i: int,
    j: int,
) -> bool {
    let a = part_of(clients[i], view, scale, grab_w, grab_h);
    let b = part_of(clients[j], view, scale, grab_w, grab_h);
    if clients[i].floating != clients[j].floating {
        clients[i].floating
    } else if a.width * a.height != b.width * b.height {
        a.width * a.height < b.width * b.height
    } else {
        i < j
    }
}

/// `order` says which client each of `rects` is the part of.
pub open spec fn shows_clients(
    clients: Seq<ClientView>,
    view: ViewportView,
    monitor: Seq<char>,
    scale: i32,
    grab_w: u32,
    grab_h: u32,
    rects: Seq<Rect>,
    order: Seq<int>,
) -> bool {
    &&& order.len() == rects.len()
    &&& forall|k: int|
        0 <= k < order.len() ==> {
            let i = #[trigger] order[k];
            &&& 0 <= i < clients.len()
            &&& capturable(clients[i], view, monitor, scale, grab_w, grab_h)
            &&& rects[k] == part_of(clients[i], view, scale, grab_w, grab_h)
        }
    &&& forall|i: int|
        0 <= i < clients.len() && capturable(
            #[trigger] clients[i],
            view,
            monitor,
            scale,
            grab_w,
            grab_h,
        ) ==> order.contains(i)
    &&& forall|j: int, k: int|
        0 <= j < k < order.len() ==> listed_before(
            clients,
            view,
            scale,
            grab_w,
            grab_h,
            #[trigger] order[j],
            #[trigger] order[k],
        )
}

proof fn lemma_candidate(
    c: ClientView,
    view: ViewportView,
    monitor: Seq<char>,
    scale: i32,
    grab_w: u32,
    grab_h: u32,
)
    ensures
        ({
            let found = candidate(c, view, monitor, scale, grab_w, grab_h);
            let rect = part_of(c, view, scale, grab_w, grab_h);
            &&& found is Some <==> capturable(c, view, monitor, scale, grab_w, grab_h)
            &&& found matches Some(x) ==> {
                &&& x.rect == rect
                &&& x.area == rect.width * rect.height
                &&& x.rank == (if c.floating {
                    0int
                } else {
                    1
                })
            }
        }),
{
    let found = candidate(c, view, monitor, scale, grab_w, grab_h);
    if found is Some {
        let i = choose|i: int| 0 <= i < c.tags.len() && view.active_tags.contains(
            #[trigger] c.tags[i],
        );
        assert(c.tags.contains(c.tags[i]));
        let rect = part_of(c, view, scale, grab_w, grab_h);
        assert(0 <= rect.width * rect.height <= 0xffff_ffff * 0xffff_ffff) by (nonlinear_arith)
            requires
                0 <= rect.width <= 0xffff_ffff,
                0 <= rect.height <= 0xffff_ffff,
        ;
    }
    if capturable(c, view, monitor, scale, grab_w, grab_h) {
        let t = choose|t: i64| #[trigger] c.tags.contains(t) && view.active_tags.contains(t);
        let i = choose|i: int| 0 <= i < c.tags.len() && c.tags[i] == t;
        assert(view.active_tags.contains(c.tags[i]));
        assert(shares_tag(c.tags, view.active_tags));
    }
}

proof fn lemma_place(list: Seq<Ranked>, x: Ranked, from: int) -> (p: int)
    requires
        forall|i: int, j: int|
            0 <= i < j < list.len() ==> #[trigger] list[i].no_farther(#[trigger] list[j]),
        0 <= from <= list.len(),
        forall|i: int| from <= i < list.len() ==> !(#[trigger] list[i]).no_farther(x),
    ensures
        0 <= p <= list.len(),
        forall|i: int| 0 <= i < p ==> (#[trigger] list[i]).no_farther(x),
        forall|i: int| p <= i < list.len() ==> !(#[trigger] list[i]).no_farther(x),
    decreases from,
{
    if from == 0 || list[from - 1].no_farther(x) {
        assert forall|i: int| 0 <= i < from implies (#[trigger] list[i]).no_farther(x) by {
            if i < from - 1 {
                assert(list[i].no_farther(list[from - 1]));
            }
        }
        from
    } else {
        lemma_place(list, x, from - 1)
    }
}

/// What is there of `maybe`, in order.
spec fn present(maybe: Seq<Option<Ranked>>) -> Seq<Ranked>
    decreases maybe.len(),
{
    if maybe.len() == 0 {
        Seq::empty()
    } else {
        match maybe.last() {
            Some(x) => present(maybe.drop_last()).push(x),
            None => present(maybe.drop_last()),
        }
    }
}

/// `out` is what is there of `maybe`, item `order[k]` in place `k`, and those that tie as they
/// came.
spec fn arranged(maybe: Seq<Option<Ranked>>, out: Seq<Ranked>, order: Seq<int>) -> bool {
    &&& out.len() == order.len()
    &&& forall|k: int|
        0 <= k < order.len() ==> 0 <= #[trigger] order[k] < maybe.len() && maybe[order[k]] == Some(
            out[k],
        )
    &&& forall|i: int| 0 <= i < maybe.len() && (#[trigger] maybe[i]) is Some ==> order.contains(i)
    &&& forall|j: int, k: int|
        0 <= j < k < order.len() ==> {
            &&& (#[trigger] out[j]).no_farther(#[trigger] out[k])
            &&& out[k].no_farther(out[j]) ==> order[j] < order[k]
        }
}

proof fn lemma_arrange(maybe: Seq<Option<Ranked>>) -> (r: (Seq<Ranked>, Seq<int>))
    ensures
        nearest_first(present(maybe), r.0),
        arranged(maybe, r.0, r.1),
    decreases maybe.len(),
{
    if maybe.len() == 0 {
        (Seq::<Ranked>::empty(), Seq::<int>::empty())
    } else {
        let rest = maybe.drop_last();
        let m = maybe.len() - 1;
        let (out, order) = lemma_arrange(rest);
        match maybe.last() {
            None => {
                assert forall|i: int|
                    0 <= i < maybe.len() && (#[trigger] maybe[i]) is Some implies order.contains(
                    i,
                ) by {
                    assert(maybe[i] == rest[i]);
                }
                (out, order)
            },
            Some(x) => {
                let p = lemma_place(out, x, out.len() as int);
                lemma_insert(present(rest), out, x, p);
                lemma_arrange_insert(maybe, out, order, x, p);
                (out.insert(p, x), order.insert(p, m))
            },
        }
    }
}

proof fn lemma_arrange_insert(
    maybe: Seq<Option<Ranked>>,
    out: Seq<Ranked>,
    order: Seq<int>,
    x: Ranked,
    p: int,
)
    requires
        maybe.len() > 0,
        maybe.last() == Some(x),
        arranged(maybe.drop_last(), out, order),
        0 <= p <= out.len(),
        forall|i: int| 0 <= i < p ==> (#[trigger] out[i]).no_farther(x),
        forall|i: int| p <= i < out.len() ==> !(#[trigger] out[i]).no_farther(x),
    ensures
        arranged(maybe, out.insert(p, x), order.insert(p, maybe.len() - 1)),
{
    let rest = maybe.drop_last();
    let m = maybe.len() - 1;
    let out2 = out.insert(p, x);
    let order2 = order.insert(p, m);
    assert forall|k: int| 0 <= k < order2.len() implies 0 <= #[trigger] order2[k] < maybe.len()
        && maybe[order2[k]] == Some(out2[k]) by {
        if k < p {
            assert(order2[k] == order[k] && out2[k] == out[k]);
            assert(rest[order[k]] == Some(out[k]));
        } else if k > p {
            assert(order2[k] == order[k - 1] && out2[k] == out[k - 1]);
            assert(rest[order[k - 1]] == Some(out[k - 1]));
        }
    }
    assert forall|i: int| 0 <= i < maybe.len() && (#[trigger] maybe[i]) is Some implies order2.contains(
        i,
    ) by {
        if i == m {
            assert(order2[p] == m);
        } else {
            assert(rest[i] is Some);
            let k = choose|k: int| 0 <= k < order.len() && order[k] == i;
            if k < p {
                assert(order2[k] == i);
            } else {
                assert(order2[k + 1] == i);
            }
        }
    }
    assert forall|j: int, k: int| 0 <= j < k < order2.len() implies (#[trigger] out2[j]).no_farther(
        #[trigger] out2[k],
    ) && (out2[k].no_farther(out2[j]) ==> order2[j] < order2[k]) by {
        if k == p {
            assert(out2[j] == out[j] && order2[j] == order[j]);
        } else if j == p {
            assert(out2[k] == out[k - 1]);
        } else {
            let a = if j < p {
                j
            } else {
                j - 1
            };
            let b = if k < p {
                k
            } else {
                k - 1
            };
            assert(out2[j] == out[a] && order2[j] == order[a]);
            assert(out2[k] == out[b] && order2[k] == order[b]);
        }
    }
}

/// What of each client can be captured.
spec fn judged(
    clients: Seq<ClientView>,
    view: ViewportView,
    monitor: Seq<char>,
    scale: i32,
    grab_w: u32,
    grab_h: u32,
) -> Seq<Option<Ranked>> {
    Seq::new(
        clients.len(),
        |i: int| candidate(clients[i], view, monitor, scale, grab_w, grab_h),
    )
}

proof fn lemma_judged(
    clients: Seq<ClientView>,
    view: ViewportView,
    monitor: Seq<char>,
    scale: i32,
    grab_w: u32,
    grab_h: u32,
)
    ensures
        candidates(clients, view, monitor, scale, grab_w, grab_h) == present(
            judged(clients, view, monitor, scale, grab_w, grab_h),
        ),
    decreases clients.len(),
{
    if clients.len() > 0 {
        let rest = clients.drop_last();
        lemma_judged(rest, view, monitor, scale, grab_w, grab_h);
        assert(judged(clients, view, monitor, scale, grab_w, grab_h).drop_last() =~= judged(
            rest,
            view,
            monitor,
            scale,
            grab_w,
            grab_h,
        ));
    }
}

proof fn lemma_order(
    clients: Seq<ClientView>,
    view: ViewportView,
    monitor: Seq<char>,
    scale: i32,
    grab_w: u32,
    grab_h: u32,
) -> (r: (Seq<Ranked>, Seq<int>))
    ensures
        nearest_first(candidates(clients, view, monitor, scale, grab_w, grab_h), r.0),
        shows_clients(clients, view, monitor, scale, grab_w, grab_h, rects_of(r.0), r.1),
{
    let maybe = judged(clients, view, monitor, scale, grab_w, grab_h);
    lemma_judged(clients, view, monitor, scale, grab_w, grab_h);
    let (out, order) = lemma_arrange(maybe);
    let rects = rects_of(out);
    assert forall|k: int| 0 <= k < order.len() implies ({
        let i = #[trigger] order[k];
        &&& 0 <= i < clients.len()
        &&& capturable(clients[i], view, monitor, scale, grab_w, grab_h)
        &&& rects[k] == part_of(clients[i], view, scale, grab_w, grab_h)
    }) by {
        lemma_candidate(clients[order[k]], view, monitor, scale, grab_w, grab_h);
    }
    assert forall|i: int|
        0 <= i < clients.len() && capturable(
            #[trigger] clients[i],
            view,
            monitor,
            scale,
            grab_w,
            grab_h,
        ) implies order.contains(i) by {
        lemma_candidate(clients[i], view, monitor, scale, grab_w, grab_h);
        assert(maybe[i] is Some);
    }
    assert forall|j: int, k: int| 0 <= j < k < order.len() implies listed_before(
        clients,
        view,
        scale,
        grab_w,
        grab_h,
        #[trigger] order[j],
        #[trigger] order[k],
    ) by {
        lemma_candidate(clients[order[j]], view, monitor, scale, grab_w, grab_h);
        lemma_candidate(clients[order[k]], view, monitor, scale, grab_w, grab_h);
        assert(maybe[order[j]] == Some(out[j]) && maybe[order[k]] == Some(out[k]));
        assert(out[j].no_farther(out[k]));
    }
    (out, order)
}

/// What is offered is every client that can be captured and no other, each once, with its part
/// of the grab: floating windows first, then the smaller before the larger, then as they
/// were reported.
pub proof fn law_every_capturable_client_is_offered(
    clients: Seq<ClientView>,
    view: ViewportView,
    monitor: Seq<char>,
    scale: i32,
    grab_w: u32,
    grab_h: u32,
    rects: Seq<Rect>,
) -> (order: Seq<int>)
    requires
        listed(candidates(clients, view, monitor, scale, grab_w, grab_h), rects),
    ensures
        shows_clients(clients, view, monitor, scale, grab_w, grab_h, rects, order),
        order.no_duplicates(),
        forall|i: int|
            0 <= i < clients.len() && capturable(
                #[trigger] clients[i],
                view,
                monitor,
                scale,
                grab_w,
                grab_h,
            ) ==> rects.contains(part_of(clients[i], view, scale, grab_w, grab_h)),
{
    let found = candidates(clients, view, monitor, scale, grab_w, grab_h);
    let out = choose|out: Seq<Ranked>| #[trigger]
        nearest_first(found, out) && rects == rects_of(out);
    let (mine, order) = lemma_order(clients, view, monitor, scale, grab_w, grab_h);
    law_order_is_determined(found, out, mine);
    assert forall|i: int|
        0 <= i < clients.len() && capturable(
            #[trigger] clients[i],
            view,
            monitor,
            scale,
            grab_w,
            grab_h,
        ) implies rects.contains(part_of(clients[i], view, scale, grab_w, grab_h)) by {
        assert(order.contains(i));
        let k = choose|k: int| 0 <= k < order.len() && order[k] == i;
        assert(rects[k] == part_of(clients[order[k]], view, scale, grab_w, grab_h));
    }
    assert forall|j: int, k: int| 0 <= j < order.len() && 0 <= k < order.len() && j != k implies order[j]
        != order[k] by {
        if j < k {
            assert(listed_before(clients, view, scale, grab_w, grab_h, order[j], order[k]));
        } else {
            assert(listed_before(clients, view, scale, grab_w, grab_h, order[k], order[j]));
        }
    }
    order
}

/// The member `key` of an object is the whole number `n`.
pub open spec fn holds_number(m: Map<Seq<char>, Json>, key: Seq<char>, n: i64) -> bool {
    m.dom().contains(key) && m[key] == Json::Number(Some(n))
}

/// A place is read from the members `x`, `y`, `width` and `height`, and there is one only
/// where all four are whole numbers.
pub proof fn law_place_is_read_member_by_member(m: Map<Seq<char>, Json>, g: Geometry)
    ensures
        geometry_of(Json::Object(m)) == Some(g) <==> {
            &&& holds_number(m, "x"@, g.x)
            &&& holds_number(m, "y"@, g.y)
            &&& holds_number(m, "width"@, g.width)
            &&& holds_number(m, "height"@, g.height)
        },
{
}

/// A client is read member by member: its monitor is the text in `monitor`, it is minimized
/// or floating exactly where `is_minimized` or `is_floating` is true, and it is on the tags
/// in the list `tags`, on none where there is no list.
pub proof fn law_client_is_read_member_by_member(m: Map<Seq<char>, Json>, name: Seq<char>)
    ensures
        ({
            let c = client_of(Json::Object(m));
            &&& c.monitor == Some(name) <==> m.dom().contains("monitor"@) && m["monitor"@]
                == Json::Text(name)
            &&& c.minimized <==> m.dom().contains("is_minimized"@) && m["is_minimized"@]
                == Json::Bool(true)
            &&& c.floating <==> m.dom().contains("is_floating"@) && m["is_floating"@]
                == Json::Bool(true)
            &&& c.geometry == geometry_of(Json::Object(m))
            &&& m.dom().contains("tags"@) ==> (m["tags"@] matches Json::List(items) ==> c.tags
                == integers(items))
            &&& !(m.dom().contains("tags"@) && m["tags"@] is List) ==> c.tags.len() == 0
        }),
{
}

/// A viewport is read from a place and the list `active_tags`, and there is none without both.
pub proof fn law_viewport_is_read_member_by_member(m: Map<Seq<char>, Json>)
    ensures
        viewport_of(Json::Object(m)) is Some <==> geometry_of(Json::Object(m)) is Some
            && m.dom().contains("active_tags"@) && m["active_tags"@] is List,
        viewport_of(Json::Object(m)) matches Some(v) ==> {
            &&& geometry_of(Json::Object(m)) == Some(v.area)
            &&& m["active_tags"@] matches Json::List(items) && v.active_tags == integers(items)
        },
{
}

/// Every item of the list `clients` is read as a client, in order. Without that list there is
/// nothing to read.
pub proof fn law_clients_are_read_one_by_one(m: Map<Seq<char>, Json>)
    ensures
        clients_of(Json::Object(m)) is Some <==> m.dom().contains("clients"@) && m["clients"@]
            is List,
        clients_of(Json::Object(m)) matches Some(all) ==> (m["clients"@] matches Json::List(items)
            && all.len() == items.len() && forall|i: int|
            0 <= i < items.len() ==> #[trigger] all[i] == client_of(items[i])),
{
}

/// What is offered comes from the two replies: where both say enough, the clients of the one
/// in the viewport of the other, and nothing where either fails.
pub proof fn law_offer_comes_from_the_replies(
    monitor: Seq<char>,
    scale: i32,
    grab_w: u32,
    grab_h: u32,
    view_reply: Option<Reply>,
    clients_reply: Option<Reply>,
    v: Json,
    c: Json,
    view: ViewportView,
    clients: Seq<ClientView>,
    rects: Seq<Rect>,
)
    requires
        offers(monitor, scale, grab_w, grab_h, view_reply, clients_reply, rects),
        reply_json(view_reply) == Some(v),
        reply_json(clients_reply) == Some(c),
        viewport_of(v) == Some(view),
        clients_of(c) == Some(clients),
    ensures
        forall|i: int|
            0 <= i < clients.len() && capturable(
                #[trigger] clients[i],
                view,
                monitor,
                scale,
                grab_w,
                grab_h,
            ) ==> rects.contains(part_of(clients[i], view, scale, grab_w, grab_h)),
        exists|order: Seq<int>| #[trigger]
            shows_clients(clients, view, monitor, scale, grab_w, grab_h, rects, order),
{
    let order = law_every_capturable_client_is_offered(
        clients,
        view,
        monitor,
        scale,
        grab_w,
        grab_h,
        rects,
    );
}

/// Where a reply is missing or says too little, nothing is offered.
pub proof fn law_failed_reply_offers_nothing(
    monitor: Seq<char>,
    scale: i32,
    grab_w: u32,
    grab_h: u32,
    view_reply: Option<Reply>,
    clients_reply: Option<Reply>,
    rects: Seq<Rect>,
)
    requires
        offers(monitor, scale, grab_w, grab_h, view_reply, clients_reply, rects),
        reply_json(view_reply) is None || reply_json(clients_reply) is None || viewport_of(
            reply_json(view_reply)->0,
        ) is None || clients_of(reply_json(clients_reply)->0) is None,
    ensures
        rects.len() == 0,
{
}

/// What is said of a client and of a viewport is what they hold.
pub proof fn law_views_show_what_is_held(c: Client, v: Viewport)
    ensures
        c.monitor matches Some(m) ==> c@.monitor == Some(m@),
        c.monitor is None ==> c@.monitor is None,
        c@.minimized == c.minimized && c@.floating == c.floating,
        c@.tags == c.tags@ && c@.geometry == c.geometry,
        v@.area == v.area && v@.active_tags == v.active_tags@,
{
}

/// The window under a cursor is the first in the list that the cursor's pixel belongs to,
/// wherever the cursor is, and there is none only where the pixel belongs to no window.
pub proof fn law_window_under_the_cursor_is_the_first(
    windows: Seq<Rect>,
    x: int,
    y: int,
    r: Option<Rect>,
    i: int,
)
    requires
        under_cursor(windows, x, y, r),
        0 <= i < windows.len(),
        windows[i].x <= x < windows[i].x + windows[i].width,
        windows[i].y <= y < windows[i].y + windows[i].height,
        forall|j: int|
            0 <= j < i ==> {
                let o = #[trigger] windows[j];
                !(o.x <= x < o.x + o.width && o.y <= y < o.y + o.height)
            },
    ensures
        r == Some(windows[i]),
{
    assert(windows[i].covers(x, y));
    if let Some(rect) = r {
        let hit = choose|hit: int| #[trigger] first_hit(windows, x, y, hit) && rect == windows[hit];
        if hit < i {
            let o = windows[hit];
            assert(!(o.x <= x < o.x + o.width && o.y <= y < o.y + o.height));
        } else if i < hit {
            assert(!windows[i].covers(x, y));
        }
    }
}

/// Where the cursor's pixel belongs to no window, there is none under it.
pub proof fn law_no_window_beside_them_all(windows: Seq<Rect>, x: int, y: int, r: Option<Rect>)
    requires
        under_cursor(windows, x, y, r),
        forall|j: int|
            0 <= j < windows.len() ==> {
                let o = #[trigger] windows[j];
                !(o.x <= x < o.x + o.width && o.y <= y < o.y + o.height)
            },
    ensures
        r is None,
{
    if let Some(rect) = r {
        let hit = choose|hit: int| #[trigger] first_hit(windows, x, y, hit) && rect == windows[hit];
        let o = windows[hit];
        assert(!(o.x <= x < o.x + o.width && o.y <= y < o.y + o.height));
    }
}

} // verus!
