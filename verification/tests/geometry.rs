//! Turning Hyprland's JSON replies into placed windows.

use nimbus_wayland::focus::geometry::{
    active_window_from, find_client, monitors_from, parse_active_window, parse_client,
    parse_monitors, request_socket_path, Monitor,
};
use nimbus_wayland::focus::Rect;
use nimbus_wayland::json::{parse, Num};

fn monitors() -> Vec<Monitor> {
    parse_monitors(
        r#"[
            {"id": 0, "name": "DP-1", "x": 0, "y": 0, "width": 2560, "height": 1440, "scale": 1.0},
            {"id": 1, "name": "HDMI-A-1", "x": 2560, "y": 0, "width": 1920, "height": 1080, "scale": 1.25}
        ]"#,
    )
    .unwrap()
}

/// Trimmed from a real `hyprctl -j activewindow` on 0.56.2.
const ACTIVE: &str = r#"{
    "address": "0x55a5ad510e90",
    "mapped": true,
    "at": [12, 38],
    "size": [596, 750],
    "workspace": {"id": 1, "name": "1"},
    "floating": false,
    "monitor": 1,
    "class": "foot",
    "title": "nimbus",
    "fullscreen": 0,
    "fullscreenClient": 0
}"#;

#[test]
fn the_focused_window_reply_becomes_a_placed_focus_state() {
    let state = parse_active_window(ACTIVE, &monitors()).unwrap().unwrap();
    assert_eq!(state.address, "55a5ad510e90", "0x stripped, so it joins with the event socket");
    assert_eq!(state.output, "HDMI-A-1", "monitor id translated to the name Wayland uses");
    assert_eq!(state.class, "foot");
    assert_eq!(state.rect, Rect { x: 12, y: 38, w: 596, h: 750 });
    assert!(!state.fullscreen);
}

/// Nothing focused is `{}`, not an error and not a window.
#[test]
fn nothing_focused_is_an_empty_object() {
    assert_eq!(parse_active_window("{}", &monitors()).unwrap(), None);
    assert!(parse_active_window("[]", &monitors()).is_err(), "the wrong shape is worth saying");
    assert!(parse_active_window("nonsense", &monitors()).is_err());
}

/// The poll and the event path must agree about a window.
#[test]
fn the_client_list_and_the_focused_window_describe_a_window_identically() {
    let list = format!("[{{\"address\": \"0xdeadbeef\", \"at\": [0, 0], \"size\": [100, 100], \"monitor\": 0, \"class\": \"x\", \"fullscreen\": 2}}, {ACTIVE}]");
    let from_list = find_client(&list, "55a5ad510e90", &monitors()).unwrap().unwrap();
    let from_active = parse_active_window(ACTIVE, &monitors()).unwrap().unwrap();
    assert_eq!(from_list, from_active);

    let other = find_client(&list, "0xDEADBEEF", &monitors()).unwrap().unwrap();
    assert!(other.fullscreen, "fullscreen is a mode: any non-zero value counts");
    assert_eq!(other.output, "DP-1");
}

/// A window that is mapped but not yet sized reports a zero rect.
#[test]
fn an_unsized_or_absurd_window_is_not_placed() {
    let not_yet_sized = parse(
        r#"{"address": "0x1", "at": [0, 0], "size": [0, 0], "monitor": 0, "class": "x", "fullscreen": 0}"#,
    )
    .unwrap();
    assert_eq!(parse_client(&not_yet_sized, &monitors()), None);

    let no_address = parse(r#"{"at": [0, 0], "size": [800, 600]}"#).unwrap();
    assert_eq!(parse_client(&no_address, &monitors()), None);
}

/// An unknown monitor id must not fail the whole placement.
#[test]
fn an_unknown_monitor_yields_an_empty_output_name() {
    let json = ACTIVE.replace("\"monitor\": 1", "\"monitor\": 7");
    let state = parse_active_window(&json, &monitors()).unwrap().unwrap();
    assert_eq!(state.output, "");
}

#[test]
fn monitors_carry_their_place_size_and_scale() {
    let m = monitors();
    assert_eq!(m.len(), 2);
    assert_eq!(m[1].id, 1);
    assert_eq!(m[1].name, "HDMI-A-1");
    assert_eq!(m[1].position, (2560, 0));
    assert_eq!(m[1].size, (1920, 1080));
    assert_eq!(m[1].scale, Num::Float(serde_json::Number::from_f64(1.25).unwrap()));

    let plain = parse_monitors(r#"[{"id": 3, "name": "eDP-1"}]"#).unwrap();
    assert_eq!(plain[0].position, (0, 0));
    assert_eq!(plain[0].scale, Num::PosInt(1), "no scale means 1");
}

#[test]
fn a_monitor_list_that_lacks_something_says_what() {
    assert_eq!(parse_monitors(r#"[{"name": "DP-1"}]"#), Err("monitors: no id".to_string()));
    assert_eq!(parse_monitors(r#"[{"id": 0}]"#), Err("monitors: no name".to_string()));
    assert_eq!(parse_monitors(r#"{"id": 0}"#), Err("monitors: expected an array".to_string()));
    assert!(parse_monitors("not json").unwrap_err().starts_with("monitors: "));
    let parsed = parse(r#"[{"id": 2, "name": "X"}]"#).unwrap();
    assert_eq!(monitors_from(&parsed).unwrap()[0].name, "X");
}

#[test]
fn an_empty_address_finds_nothing_without_reading_the_list() {
    assert_eq!(find_client("not even json", "  ", &monitors()), Ok(None));
    assert!(find_client("not even json", "abc", &monitors()).is_err());
    assert_eq!(
        find_client("{}", "abc", &monitors()),
        Err("clients: expected an array".to_string())
    );
    assert_eq!(find_client("[]", "abc", &monitors()), Ok(None));
}

#[test]
fn the_first_matching_client_wins() {
    let list = r#"[
        {"address": "0xAB", "at": [1, 1], "size": [100, 100], "class": "first"},
        {"address": "ab", "at": [2, 2], "size": [100, 100], "class": "second"}
    ]"#;
    let found = find_client(list, "0xab", &monitors()).unwrap().unwrap();
    assert_eq!(found.class, "first");
    assert_eq!(found.output, "", "no monitor id means no output");
}

#[test]
fn a_parsed_focused_window_reply_is_read_the_same_way() {
    let value = parse(ACTIVE).unwrap();
    assert_eq!(
        active_window_from(&value, &monitors()).unwrap(),
        parse_active_window(ACTIVE, &monitors()).unwrap()
    );
    let array = parse("[]").unwrap();
    assert_eq!(
        active_window_from(&array, &monitors()),
        Err("activewindow: expected an object".to_string())
    );
}

#[test]
fn the_request_socket_sits_beside_the_event_socket() {
    assert_eq!(
        request_socket_path(Some("/run/user/1000"), Some("sig")),
        Some("/run/user/1000/hypr/sig/.socket.sock".to_string())
    );
    assert_eq!(request_socket_path(None, Some("sig")), None);
}
