use frame::monitor::{active_output_name, non_empty, parse_reply, Reply};
use frame::overlay::Rect;
use frame::window::{
    client_rect, on_active_tag, read_client, read_clients, stacking_rank, viewport, visible_windows,
    window_at, windows_among, Client, Geometry, Viewport,
};

fn said(text: &str) -> Option<Reply> {
    Some(Reply { success: true, stdout: text.as_bytes().to_vec() })
}

fn rect(x: u32, y: u32, width: u32, height: u32) -> Rect {
    Rect { x, y, width, height }
}

fn at(x: i64, y: i64, width: i64, height: i64) -> Geometry {
    Geometry { x, y, width, height }
}

fn view() -> Viewport {
    Viewport { area: at(1000, 0, 1440, 960), active_tags: vec![1, 3] }
}

fn client(geometry: Geometry) -> Client {
    Client {
        monitor: Some("eDP-1".to_string()),
        minimized: false,
        floating: false,
        tags: vec![3],
        geometry: Some(geometry),
    }
}

fn listed(clients: Vec<Client>) -> Vec<Rect> {
    windows_among(&clients, &view(), "eDP-1", 1, 1440, 960)
}

const MONITOR: &str =
    r#"{"x": 1000, "y": 0, "width": 1440, "height": 960, "active_tags": [1, "two", 3]}"#;

#[test]
fn the_focused_client_names_the_output() {
    let name = |text| active_output_name(&said(text));
    assert_eq!(name(r#"{"monitor": "eDP-1"}"#).as_deref(), Some("eDP-1"));
    assert_eq!(name(r#"{"monitor": ""}"#), None);
    assert_eq!(name(r#"{"monitor": 3}"#), None);
    assert_eq!(name(r#"{"other": "eDP-1"}"#), None);
    assert_eq!(name("[]"), None);
    assert_eq!(name("not json"), None);
    assert_eq!(active_output_name(&None), None);
    let failed = Some(Reply { success: false, stdout: br#"{"monitor": "eDP-1"}"#.to_vec() });
    assert_eq!(active_output_name(&failed), None);
    assert_eq!(non_empty(Some("x")).as_deref(), Some("x"));
    assert_eq!(non_empty(Some("")), None);
}

#[test]
fn a_viewport_is_read_whole_or_not_at_all() {
    let read = |text| viewport(&parse_reply(&said(text)).expect("json"));
    let v = read(MONITOR).expect("complete");
    assert_eq!(v.area, at(1000, 0, 1440, 960));
    assert_eq!(v.active_tags, vec![1, 3]);
    assert!(read(r#"{"x": 0, "y": 0, "width": 1, "height": 1}"#).is_none());
    assert!(read(r#"{"y": 0, "width": 1, "height": 1, "active_tags": []}"#).is_none());
    assert!(read(r#"{"x": 0.5, "y": 0, "width": 1, "height": 1, "active_tags": []}"#).is_none());
    assert!(read(r#"{"x": 0, "y": 0, "width": 1, "height": 1, "active_tags": 3}"#).is_none());
}

#[test]
fn a_client_is_read_as_far_as_it_is_described() {
    let read = |text| read_client(&parse_reply(&said(text)).expect("json"));
    let c = read(
        r#"{"monitor": "eDP-1", "is_minimized": true, "is_floating": true, "tags": [2],
            "x": -5, "y": 6, "width": 7, "height": 8}"#,
    );
    assert_eq!(c.monitor.as_deref(), Some("eDP-1"));
    assert!(c.minimized && c.floating);
    assert_eq!(c.tags, vec![2]);
    assert_eq!(c.geometry, Some(at(-5, 6, 7, 8)));
    let c = read(r#"{"is_minimized": 1, "is_floating": null, "x": 1}"#);
    assert_eq!(c.monitor, None);
    assert!(!c.minimized && !c.floating);
    assert!(c.tags.is_empty());
    assert_eq!(c.geometry, None);
    let list = parse_reply(&said(r#"{"clients": [{}, {"tags": [9]}]}"#)).expect("json");
    let clients = read_clients(&list).expect("a list");
    assert_eq!(clients.len(), 2);
    assert_eq!(clients[1].tags, vec![9]);
    assert!(read_clients(&parse_reply(&said("{}")).expect("json")).is_none());
}

#[test]
fn a_client_is_shown_where_a_tag_of_its_is() {
    let c = Client { tags: vec![5, 3], ..client(at(0, 0, 1, 1)) };
    assert!(on_active_tag(&c, &[1, 3]));
    assert!(!on_active_tag(&c, &[1, 2]));
    assert!(!on_active_tag(&Client { tags: vec![], ..client(at(0, 0, 1, 1)) }, &[1]));
}

#[test]
fn a_rectangle_is_local_to_its_output_in_physical_pixels() {
    let place = |g, scale| client_rect(&client(g), &view(), scale, 2880, 1920);
    assert_eq!(place(at(1100, 50, 200, 100), 2), Some(rect(200, 100, 400, 200)));
    assert_eq!(place(at(1100, 50, 200, 100), 0), Some(rect(100, 50, 200, 100)));
    // Half off the left edge, and past the bottom.
    assert_eq!(place(at(900, 900, 200, 100), 2), Some(rect(0, 1800, 200, 120)));
    // Scrolled off altogether.
    assert_eq!(place(at(-1837, 0, 800, 600), 2), None);
    assert_eq!(place(at(2440, 0, 800, 600), 2), None);
    // A grab smaller than the output is said to be.
    assert_eq!(
        client_rect(&client(at(1000, 0, 1440, 960)), &view(), 2, 2000, 1900),
        Some(rect(0, 0, 2000, 1900))
    );
    let unknown = Client { geometry: None, ..client(at(0, 0, 1, 1)) };
    assert_eq!(client_rect(&unknown, &view(), 2, 2880, 1920), None);
}

#[test]
fn floating_windows_come_before_tiled_ones_and_small_before_large() {
    let tiled = client(at(1000, 0, 100, 100));
    let wide = client(at(1000, 0, 200, 100));
    let floating = Client { floating: true, ..client(at(1000, 0, 500, 500)) };
    assert_eq!((stacking_rank(&floating), stacking_rank(&tiled)), (0, 1));
    assert_eq!(
        listed(vec![wide, tiled, floating]),
        vec![rect(0, 0, 500, 500), rect(0, 0, 100, 100), rect(0, 0, 200, 100)]
    );
}

#[test]
fn windows_that_tie_keep_their_order() {
    let a = client(at(1000, 0, 100, 50));
    let b = client(at(1000, 0, 50, 100));
    let c = client(at(1200, 0, 100, 50));
    assert_eq!(
        listed(vec![a, b, c]),
        vec![rect(0, 0, 100, 50), rect(0, 0, 50, 100), rect(200, 0, 100, 50)]
    );
}

#[test]
fn only_windows_that_can_be_seen_are_listed() {
    let g = at(1000, 0, 100, 100);
    assert_eq!(listed(vec![Client { minimized: true, ..client(g) }]), vec![]);
    assert_eq!(listed(vec![Client { monitor: None, ..client(g) }]), vec![]);
    assert_eq!(listed(vec![Client { monitor: Some("DP-1".to_string()), ..client(g) }]), vec![]);
    assert_eq!(listed(vec![Client { tags: vec![2], ..client(g) }]), vec![]);
    assert_eq!(listed(vec![client(at(1000, 0, 7, 100))]), vec![], "too narrow");
    assert_eq!(listed(vec![client(at(1000, 0, 8, 8))]), vec![rect(0, 0, 8, 8)]);
}

#[test]
fn the_windows_come_from_what_the_compositor_says() {
    let clients = said(
        r#"{"clients": [
            {"monitor": "eDP-1", "tags": [1], "x": 1010, "y": 20, "width": 300, "height": 200},
            {"monitor": "eDP-1", "tags": [1], "x": 1000, "y": 0, "width": 800, "height": 600,
             "is_floating": true},
            {"monitor": "DP-1", "tags": [1], "x": 1010, "y": 20, "width": 300, "height": 200}
        ]}"#,
    );
    let windows = visible_windows("eDP-1", 2, 2880, 1920, &said(MONITOR), &clients);
    assert_eq!(windows, vec![rect(0, 0, 1600, 1200), rect(20, 40, 600, 400)]);
    // The floating window covers the tiled one, and is picked.
    assert_eq!(window_at(&windows, 100, 100), Some(rect(0, 0, 1600, 1200)));
    assert_eq!(window_at(&windows, 1600, 0), None);
    assert_eq!(window_at(&windows, -1, 0), None);
}

#[test]
fn without_an_answer_there_are_no_windows() {
    let clients = said(r#"{"clients": []}"#);
    assert!(visible_windows("eDP-1", 1, 10, 10, &None, &clients).is_empty());
    assert!(visible_windows("eDP-1", 1, 10, 10, &said("{}"), &clients).is_empty());
    assert!(visible_windows("eDP-1", 1, 10, 10, &said(MONITOR), &None).is_empty());
    assert!(visible_windows("eDP-1", 1, 10, 10, &said(MONITOR), &said("{}")).is_empty());
    assert!(visible_windows("eDP-1", 1, 10, 10, &said(MONITOR), &clients).is_empty());
}
