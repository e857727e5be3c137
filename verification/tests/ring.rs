//! The user's reasons for not wanting a ring, and the geometry poll.

use nimbus_wayland::config::IdleBehavior;
use nimbus_wayland::focus::tracker::Tracker;
use nimbus_wayland::focus::{Event, FocusState, Rect};
use nimbus_wayland::ring::{
    next_poll_millis, observe_poll, on_event, FollowUp, PollStep, Wishes, POLL_AT_REST_MS,
    POLL_WHILE_MOVING_MS,
};

fn state(address: &str) -> FocusState {
    FocusState {
        address: address.into(),
        output: "DP-1".into(),
        class: "foot".into(),
        rect: Rect { x: 0, y: 0, w: 800, h: 600 },
        fullscreen: false,
    }
}

fn wishes() -> Wishes {
    Wishes {
        enabled: true,
        idle: false,
        idle_behavior: IdleBehavior::Freeze,
        hide_in_fullscreen: true,
        exclusions: vec!["mpv".to_string()],
    }
}

fn focused(address: &str) -> Tracker {
    let mut t = Tracker::default();
    t.focus(state(address), 0);
    t
}

#[test]
fn a_focused_window_at_rest_is_ringed() {
    let w = wishes();
    let t = focused("aaa");
    assert_eq!(w.showing(&t, 10).map(|s| s.address.as_str()), Some("aaa"));
    assert!(w.wants_frames(&t, 10));
    assert!(w.wants_polling(&t));
}

#[test]
fn switching_off_takes_the_ring_away() {
    let mut w = wishes();
    w.enabled = false;
    let t = focused("aaa");
    assert!(w.showing(&t, 10).is_none());
    assert!(!w.wants_polling(&t));
}

/// Idle stops the animation; under `Freeze` it keeps the ring.
#[test]
fn freezing_keeps_the_ring_and_stops_the_frames() {
    let mut w = wishes();
    let t = focused("aaa");
    let change = w.set_idle(true, true);
    assert!(change.changed);
    assert!(!change.flare, "going idle is not a return");
    assert!(!change.repaint_all, "the last frame is already right");
    assert!(w.showing(&t, 10).is_some(), "the ring stays");
    assert!(!w.wants_frames(&t, 10), "but nothing more is drawn");
    assert!(!w.wants_polling(&t), "and nobody is there to move anything");

    let back = w.set_idle(false, true);
    assert!(back.changed && back.flare && back.repaint_all);
    assert!(w.wants_frames(&t, 10));
    assert!(!w.set_idle(false, true).changed, "no change, nothing to do");
}

#[test]
fn fading_out_hides_the_ring_while_idle() {
    let mut w = wishes();
    w.idle_behavior = IdleBehavior::FadeOut;
    let t = focused("aaa");
    let change = w.set_idle(true, false);
    assert!(change.repaint_all);
    assert!(w.showing(&t, 10).is_none());
    let back = w.set_idle(false, false);
    assert!(!back.flare, "no flare when flare_on_return is off");
    assert!(w.showing(&t, 10).is_some());
}

#[test]
fn always_animating_ignores_idleness() {
    let mut w = wishes();
    w.idle_behavior = IdleBehavior::AlwaysAnimate;
    w.idle = true;
    let t = focused("aaa");
    assert!(w.showing(&t, 10).is_some());
    assert!(w.wants_frames(&t, 10));
}

#[test]
fn excluded_and_fullscreen_windows_get_no_ring() {
    let w = wishes();
    let mut t = Tracker::default();
    let mut film = state("aaa");
    film.class = "mpv".into();
    t.focus(film, 0);
    assert!(w.showing(&t, 10).is_none(), "excluded class");

    let mut full = state("bbb");
    full.fullscreen = true;
    t.focus(full, 20);
    assert!(w.showing(&t, 30).is_none(), "full screen, with hiding on");
    let mut shown = wishes();
    shown.hide_in_fullscreen = false;
    assert!(shown.showing(&t, 30).is_some(), "full screen, with hiding off");
}

/// A window hidden mid-drag is still watched, or nothing would notice it come
/// to rest.
#[test]
fn a_drag_hides_the_ring_but_keeps_the_poll() {
    let w = wishes();
    let mut t = focused("aaa");
    t.note_moving(100);
    assert!(w.showing(&t, 150).is_none());
    assert!(w.wants_frames(&t, 150), "the settle is a pending deadline");
    assert!(w.wants_polling(&t));
}

#[test]
fn nothing_focused_means_no_ring_no_frames_and_no_poll() {
    let w = wishes();
    let t = Tracker::default();
    assert!(w.showing(&t, 0).is_none());
    assert!(!w.wants_frames(&t, 0));
    assert!(!w.wants_polling(&t));
}

#[test]
fn a_poll_that_sees_movement_notes_it_without_a_flare() {
    let mut t = focused("aaa");
    let mut moved = state("aaa");
    moved.rect = Rect { x: 10, y: 0, w: 800, h: 600 };
    assert_eq!(observe_poll(&mut t, Some(moved.clone()), 1_000, true), PollStep::Moved);
    assert_eq!(t.focused(), Some(&moved));
    assert!(t.is_moving(1_000), "hidden while it moves");
    assert!(!t.focus(moved.clone(), 2_000), "still the same window");

    let mut u = focused("aaa");
    assert_eq!(observe_poll(&mut u, Some(moved), 1_000, false), PollStep::Moved);
    assert!(!u.is_moving(1_000), "not hidden when dragging does not hide");
}

#[test]
fn a_poll_that_sees_nothing_new_changes_nothing() {
    let mut t = focused("aaa");
    assert_eq!(observe_poll(&mut t, Some(state("aaa")), 1_000, true), PollStep::Still);
    assert!(!t.is_moving(1_000));
    assert_eq!(observe_poll(&mut t, Some(state("bbb")), 1_000, true), PollStep::Elsewhere);
    assert_eq!(t.focused().map(|s| s.address.as_str()), Some("aaa"), "the event socket owns that");
    let mut other = state("aaa");
    other.output = "HDMI-A-1".into();
    assert_eq!(observe_poll(&mut t, Some(other), 1_000, false), PollStep::Moved, "another output");
}

#[test]
fn a_poll_that_sees_no_focus_starts_the_grace() {
    let mut t = focused("aaa");
    assert_eq!(observe_poll(&mut t, None, 1_000, true), PollStep::Gone);
    assert!(t.visible(1_000).is_some(), "not yet");
    assert!(!t.unfocus_confirmed(1_000));
    assert!(t.unfocus_confirmed(1_000 + t.unfocus_grace));

    let mut empty = Tracker::default();
    assert_eq!(observe_poll(&mut empty, Some(state("aaa")), 0, true), PollStep::NoWindow);
    assert!(empty.focused().is_none());
}

#[test]
fn polls_come_faster_just_after_a_change() {
    assert_eq!(next_poll_millis(None), POLL_AT_REST_MS);
    assert_eq!(next_poll_millis(Some(0)), POLL_WHILE_MOVING_MS);
    assert_eq!(next_poll_millis(Some(499)), 60);
    assert_eq!(next_poll_millis(Some(500)), 250);
}

#[test]
fn events_tell_the_tracker_what_they_can_and_leave_the_rest() {
    let mut t = focused("aaa");
    assert_eq!(on_event(&mut t, Event::Focused("bbb".into()), 10, true), FollowUp::Resolve("bbb".into()));
    assert_eq!(t.focused().map(|s| s.address.as_str()), Some("aaa"), "not placed yet");

    assert_eq!(on_event(&mut t, Event::Moving("aaa".into()), 10, false), FollowUp::Nothing);
    assert!(!t.is_moving(10), "dragging does not hide the ring when that is off");
    assert_eq!(on_event(&mut t, Event::Moving("aaa".into()), 10, true), FollowUp::Nothing);
    assert!(t.is_moving(10));

    assert_eq!(on_event(&mut t, Event::Settled, 20, true), FollowUp::Nothing);
    assert!(t.is_moving(20), "rest is measured by the clock, not the event");

    for e in [Event::Rescan, Event::OutputAdded("DP-2".into()), Event::OutputRemoved("DP-2".into())] {
        assert_eq!(on_event(&mut t, e, 30, true), FollowUp::Rescan);
    }

    assert_eq!(on_event(&mut t, Event::Unfocused, 40, true), FollowUp::Nothing);
    assert!(t.unfocus_confirmed(40 + t.unfocus_grace));
}

#[test]
fn only_the_output_holding_the_window_draws() {
    let s = state("aaa");
    assert!(nimbus_wayland::ring::ring_here(Some(&s), "DP-1"));
    assert!(!nimbus_wayland::ring::ring_here(Some(&s), "HDMI-A-1"));
    assert!(!nimbus_wayland::ring::ring_here(None, "DP-1"));
}
