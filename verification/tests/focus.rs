//! What the compositor's event socket says, and what counts as a new window.

use nimbus_wayland::focus::hyprland::{parse_line, socket_path};
use nimbus_wayland::focus::{Event, FocusState, Rect};

#[test]
fn parses_focus_change() {
    assert_eq!(
        parse_line("activewindowv2>>5647ab3c"),
        Some(Event::Focused("5647ab3c".into()))
    );
}

/// Clicking the desktop leaves nothing focused, and the ring must go away.
#[test]
fn empty_address_means_nothing_is_focused() {
    assert_eq!(parse_line("activewindowv2>>"), Some(Event::Unfocused));
    assert_eq!(parse_line("activewindow>>,"), Some(Event::Unfocused));
}

#[test]
fn parses_movement_and_takes_the_address_only() {
    assert_eq!(
        parse_line("movewindowv2>>5647ab3c,1,workspace-one"),
        Some(Event::Moving("5647ab3c".into()))
    );
    assert_eq!(
        parse_line("resizewindow>>5647ab3c"),
        Some(Event::Moving("5647ab3c".into()))
    );
}

#[test]
fn parses_monitor_events() {
    assert_eq!(parse_line("monitoradded>>DP-3"), Some(Event::OutputAdded("DP-3".into())));
    assert_eq!(parse_line("monitorremoved>>DP-3"), Some(Event::OutputRemoved("DP-3".into())));
}

#[test]
fn events_needing_a_geometry_reread_ask_for_a_rescan() {
    for line in ["workspace>>2", "focusedmon>>DP-1,3", "fullscreen>>1", "closewindow>>abc"] {
        assert_eq!(parse_line(line), Some(Event::Rescan), "{line}");
    }
}

#[test]
fn unknown_and_malformed_lines_are_ignored_not_fatal() {
    assert_eq!(parse_line("somethingnew>>data"), None);
    assert_eq!(parse_line("no separator here"), None);
    assert_eq!(parse_line(""), None);
}

#[test]
fn the_v1_focus_event_with_a_window_is_not_acted_on() {
    assert_eq!(parse_line("activewindow>>foot,title"), None);
    assert_eq!(parse_line("activewindow>>  "), Some(Event::Unfocused));
    assert_eq!(parse_line("activewindowv2>>  5647ab3c \n"), Some(Event::Focused("5647ab3c".into())));
}

#[test]
fn only_the_first_separator_splits_a_line() {
    assert_eq!(
        parse_line("monitoraddedv2>>1,DP-2,desc>>x"),
        Some(Event::OutputAdded("1".into()))
    );
    assert_eq!(parse_line(">>data"), None);
}

#[test]
fn the_event_socket_lives_under_the_runtime_dir() {
    assert_eq!(
        socket_path(Some("/run/user/1000"), Some("abc")),
        Some("/run/user/1000/hypr/abc/.socket2.sock".to_string())
    );
    assert_eq!(socket_path(None, Some("abc")), None);
    assert_eq!(socket_path(Some("/run/user/1000"), None), None);
}

fn state(address: &str) -> FocusState {
    FocusState {
        address: address.into(),
        output: "DP-1".into(),
        class: "foot".into(),
        rect: Rect { x: 0, y: 0, w: 800, h: 600 },
        fullscreen: false,
    }
}

/// The flare must fire on a change of window, and must not fire when the same
/// window merely moves, or dragging keeps it lit and it never settles.
#[test]
fn flare_fires_on_a_different_window_only() {
    let a = state("aaa");
    let mut b = state("bbb");
    assert!(a.is_different_window(None));
    assert!(b.is_different_window(Some(&a)));

    let mut moved = a.clone();
    moved.rect = Rect { x: 500, y: 400, w: 800, h: 600 };
    assert!(!moved.is_different_window(Some(&a)), "same window moving is not a focus change");

    b.rect = moved.rect;
    assert!(b.is_different_window(Some(&moved)), "geometry matching is irrelevant; identity decides");
}

#[test]
fn absurd_rects_are_rejected() {
    assert!(Rect { x: 0, y: 0, w: 1440, h: 900 }.is_sensible());
    assert!(!Rect { x: 0, y: 0, w: 10, h: 900 }.is_sensible());
    assert!(!Rect { x: 0, y: 0, w: 50_000, h: 900 }.is_sensible());
}

#[test]
fn sensible_rects_have_inclusive_bounds() {
    assert!(Rect { x: -5, y: -5, w: 40, h: 20_000 }.is_sensible());
    assert!(!Rect { x: 0, y: 0, w: 39, h: 900 }.is_sensible());
    assert!(!Rect { x: 0, y: 0, w: 900, h: 20_001 }.is_sensible());
}
