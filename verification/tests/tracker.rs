//! The two debounces. Times are in microseconds; `secs` converts the seconds
//! the scenarios are written in.

use nimbus_wayland::focus::tracker::{Tracker, SETTLE_DELAY, UNFOCUS_GRACE};
use nimbus_wayland::focus::{normalize_address, FocusState, Rect};

fn secs(s: f64) -> u64 {
    (s * 1_000_000.0).round() as u64
}

fn state(address: &str) -> FocusState {
    FocusState {
        address: address.into(),
        output: "DP-1".into(),
        class: "foot".into(),
        rect: Rect { x: 0, y: 0, w: 800, h: 600 },
        fullscreen: false,
    }
}

/// The event socket says `55593885e2e0`; `hyprctl -j clients` says
/// `0x55593885e2e0`. Without normalization the match never succeeds.
#[test]
fn the_two_address_spellings_agree_once_normalized() {
    assert_eq!(normalize_address("55593885e2e0"), "55593885e2e0");
    assert_eq!(normalize_address("0x55593885e2e0"), "55593885e2e0");
    assert_eq!(normalize_address("0x55593885E2E0"), "55593885e2e0");
    assert_eq!(normalize_address("  0x5647ab3c\n"), "5647ab3c");
    assert_eq!(normalize_address(""), "");
    assert_eq!(
        normalize_address("55593885e2e0"),
        normalize_address("0x55593885e2e0"),
        "the socket form and the clients form must compare equal"
    );
}

#[test]
fn only_one_leading_0x_is_dropped() {
    assert_eq!(normalize_address("0x0xAB"), "0xab");
    assert_eq!(normalize_address("0X1F"), "1f");
    assert_eq!(normalize_address("0x"), "");
}

#[test]
fn a_window_with_focus_gets_a_ring() {
    let mut t = Tracker::default();
    assert!(t.visible(secs(0.0)).is_none(), "nothing focused yet");
    assert!(t.focus(state("aaa"), secs(0.0)), "first window is a different window");
    assert_eq!(t.visible(secs(0.0)).map(|s| s.address.as_str()), Some("aaa"));
}

#[test]
fn flare_fires_only_on_a_change_to_a_different_window() {
    let mut t = Tracker::default();
    t.focus(state("aaa"), secs(0.0));

    let mut moved = state("aaa");
    moved.rect = Rect { x: 500, y: 400, w: 800, h: 600 };
    assert!(!t.focus(moved, secs(1.0)), "the same window moving must not flare");

    assert!(t.focus(state("bbb"), secs(2.0)), "a different window must flare");
}

/// Hyprland emits a transient empty `activewindowv2` in the middle of every
/// focus change; acting on it directly blinks the ring off on every switch.
#[test]
fn the_transient_empty_focus_event_does_not_blink_the_ring() {
    let mut t = Tracker::default();
    t.focus(state("aaa"), secs(0.0));

    t.note_unfocus(secs(1.000));
    assert!(
        t.visible(secs(1.000)).is_some(),
        "must not go dark the instant an empty event arrives"
    );
    assert!(t.visible(secs(1.008)).is_some(), "still lit one frame later at 120Hz");
    assert!(t.visible(secs(1.016)).is_some(), "still lit one frame later at 60Hz");

    assert!(t.focus(state("bbb"), secs(1.020)));
    assert_eq!(t.visible(secs(1.020)).map(|s| s.address.as_str()), Some("bbb"));
    assert!(
        !t.unfocus_confirmed(secs(9.0)),
        "the pending unfocus must be cancelled, not merely outrun"
    );
}

/// When it is real, the ring must go away.
#[test]
fn a_real_unfocus_does_put_the_ring_out() {
    let mut t = Tracker::default();
    t.focus(state("aaa"), secs(0.0));
    t.note_unfocus(secs(1.0));

    assert!(t.visible(secs(1.0)).is_some(), "not yet");
    assert!(t.visible(secs(1.0) + Tracker::default().unfocus_grace).is_none());
    assert!(t.visible(secs(2.0)).is_none(), "and it stays out");
}

#[test]
fn a_confirmed_unfocus_is_forgotten_so_the_next_window_flares() {
    let mut t = Tracker::default();
    t.focus(state("aaa"), secs(0.0));
    t.note_unfocus(secs(1.0));
    t.retire_confirmed_unfocus(secs(2.0));
    assert!(t.focused().is_none());
    assert!(
        t.focus(state("aaa"), secs(3.0)),
        "returning to the same window after a real unfocus is still a change"
    );
}

#[test]
fn an_unconfirmed_unfocus_is_not_retired() {
    let mut t = Tracker::default();
    t.focus(state("aaa"), 0);
    t.note_unfocus(1_000_000);
    t.retire_confirmed_unfocus(1_000_000 + UNFOCUS_GRACE - 1);
    assert!(t.focused().is_some());
    assert!(!t.focus(state("aaa"), 1_050_000), "still the same window, so no flare");
}

/// Hide while dragging, restore when the window comes to rest.
#[test]
fn the_ring_stands_down_for_a_drag_and_comes_back_at_rest() {
    let mut t = Tracker::default();
    t.focus(state("aaa"), secs(0.0));

    t.note_moving(secs(1.0));
    assert!(t.visible(secs(1.0)).is_none(), "down as soon as movement starts");

    for step in 1..=20 {
        let now = 1.0 + step as f64 * 0.05;
        t.note_moving(secs(now));
        assert!(t.visible(secs(now)).is_none(), "still down at {now}");
    }

    let last = 1.0 + 20.0 * 0.05;
    assert!(t.visible(secs(last + 0.1)).is_none(), "not back before it has settled");
    assert!(t.visible(secs(last + 0.3)).is_some(), "back once the window is at rest");
    assert_eq!(
        t.visible(secs(last + 0.3)).map(|s| s.address.as_str()),
        Some("aaa"),
        "and around the same window, without a flare"
    );
}

/// Both decisions are made by a clock, so the frame loop has to be woken.
#[test]
fn pending_decisions_keep_the_frame_loop_awake() {
    let mut t = Tracker::default();
    t.focus(state("aaa"), secs(0.0));
    assert!(!t.has_pending_deadline(secs(0.0)), "nothing outstanding when settled");

    t.note_unfocus(secs(1.0));
    assert!(t.has_pending_deadline(secs(1.0)), "an undecided unfocus is outstanding");
    assert!(!t.has_pending_deadline(secs(2.0)), "once decided it is not");

    let mut t2 = Tracker::default();
    t2.focus(state("aaa"), secs(0.0));
    t2.note_moving(secs(1.0));
    assert!(t2.has_pending_deadline(secs(1.0)), "a drag is outstanding");
    assert!(!t2.has_pending_deadline(secs(5.0)), "a settled window is not");
}

#[test]
fn the_delays_are_exact_at_their_edges() {
    let mut t = Tracker::default();
    assert_eq!(t.unfocus_grace, UNFOCUS_GRACE);
    assert_eq!(t.settle_delay, SETTLE_DELAY);
    t.focus(state("aaa"), 0);
    t.note_unfocus(500);
    assert!(!t.unfocus_confirmed(500 + UNFOCUS_GRACE - 1));
    assert!(t.unfocus_confirmed(500 + UNFOCUS_GRACE));

    let mut d = Tracker::default();
    d.focus(state("aaa"), 0);
    d.note_moving(1_000);
    assert!(d.is_moving(1_000 + SETTLE_DELAY - 1));
    assert!(!d.is_moving(1_000 + SETTLE_DELAY));
}

#[test]
fn a_second_empty_event_does_not_restart_the_grace() {
    let mut t = Tracker::default();
    t.focus(state("aaa"), 0);
    t.note_unfocus(1_000_000);
    t.note_unfocus(1_050_000);
    assert!(t.unfocus_confirmed(1_000_000 + UNFOCUS_GRACE));
}

#[test]
fn the_delays_are_readable_as_the_contracts_mean_them() {
    let mut t = Tracker::default();
    assert_eq!(t.grace_period(), UNFOCUS_GRACE);
    assert_eq!(t.settle_period(), SETTLE_DELAY);
    t.unfocus_grace = 5;
    assert_eq!(t.grace_period(), 5);
}
