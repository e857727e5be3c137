//! Turns the compositor's raw event stream into the one question the renderer
//! asks: *is there a ring right now, and around what?*
//!
//! Both delays below exist because of things Hyprland actually does. Neither
//! is a re-sync timer: nothing here polls, and nothing here compensates for a
//! dropped event. They debounce events that genuinely arrive.
//!
//! Time is a count of microseconds on the caller's monotonic clock.

use vstd::prelude::*;

use super::{different_window, FocusState};

verus! {

/// How long to wait before believing that nothing has focus, in microseconds.
///
/// Hyprland emits a transient *empty* focus event in the middle of every focus
/// change, before the new window's. Obeyed literally it hides the ring for a
/// frame on every switch, so an empty event only counts once it has survived
/// this long without a window arriving.
pub const UNFOCUS_GRACE: u64 = 100_000;

/// How long after the last move or resize event a window counts as at rest,
/// in microseconds. Hyprland has no "drag finished" event, so rest is the
/// absence of movement, which only a clock can measure.
pub const SETTLE_DELAY: u64 = 200_000;

/// Holds what the compositor last said, and decides what that means now.
#[derive(Debug)]
pub struct Tracker {
    focused: Option<FocusState>,
    /// When an empty focus event arrived, if we have not yet decided whether it
    /// was real or the transient one.
    unfocus_pending_since: Option<u64>,
    /// When movement was last seen. Each event pushes it forward, so the ring
    /// stays down for the whole drag rather than flickering through it.
    moving_since: Option<u64>,
    pub unfocus_grace: u64,
    pub settle_delay: u64,
}

/// Everything a [`Tracker`] holds.
pub struct TrackerView {
    pub focused: Option<FocusState>,
    pub unfocus_since: Option<u64>,
    pub moving_since: Option<u64>,
    pub grace: u64,
    pub settle: u64,
}

impl View for Tracker {
    type V = TrackerView;

    closed spec fn view(&self) -> TrackerView {
        TrackerView {
            focused: self.focused,
            unfocus_since: self.unfocus_pending_since,
            moving_since: self.moving_since,
            grace: self.unfocus_grace,
            settle: self.settle_delay,
        }
    }
}

impl TrackerView {
    /// Nothing seen yet, with the standard delays.
    pub open spec fn initial() -> TrackerView {
        TrackerView {
            focused: None,
            unfocus_since: None,
            moving_since: None,
            grace: UNFOCUS_GRACE,
            settle: SETTLE_DELAY,
        }
    }

    /// An empty focus event has outlived the grace period.
    pub open spec fn unfocus_confirmed(self, now: u64) -> bool {
        match self.unfocus_since {
            Some(since) => now - since >= self.grace,
            None => false,
        }
    }

    /// Movement was seen less than the settle delay ago.
    pub open spec fn is_moving(self, now: u64) -> bool {
        match self.moving_since {
            Some(since) => now - since < self.settle,
            None => false,
        }
    }

    /// The window to draw a ring around at `now`, if any.
    pub open spec fn visible(self, now: u64) -> Option<FocusState> {
        if self.unfocus_confirmed(now) || self.is_moving(now) {
            None
        } else {
            self.focused
        }
    }

    /// A decision the clock will make later is still outstanding.
    pub open spec fn has_pending_deadline(self, now: u64) -> bool {
        (self.unfocus_since is Some && !self.unfocus_confirmed(now)) || self.is_moving(now)
    }

    /// After a window with resolved geometry takes focus.
    pub open spec fn after_focus(self, state: FocusState) -> TrackerView {
        TrackerView {
            focused: Some(state),
            unfocus_since: None,
            moving_since: if different_window(state, self.focused) {
                None
            } else {
                self.moving_since
            },
            ..self
        }
    }

    /// After an empty focus event at `now`: the first one starts the grace
    /// period, and later ones do not restart it.
    pub open spec fn after_unfocus(self, now: u64) -> TrackerView {
        TrackerView {
            unfocus_since: if self.unfocus_since is None {
                Some(now)
            } else {
                self.unfocus_since
            },
            ..self
        }
    }

    /// After a move or resize event at `now`.
    pub open spec fn after_moving(self, now: u64) -> TrackerView {
        TrackerView { moving_since: Some(now), ..self }
    }

    /// After the frame loop retires a confirmed unfocus at `now`.
    pub open spec fn after_retire(self, now: u64) -> TrackerView {
        if self.unfocus_confirmed(now) {
            TrackerView { focused: None, unfocus_since: None, ..self }
        } else {
            self
        }
    }
}

impl Default for Tracker {
    fn default() -> (t: Self)
        ensures
            t@ == TrackerView::initial(),
    {
        Tracker {
            focused: None,
            unfocus_pending_since: None,
            moving_since: None,
            unfocus_grace: UNFOCUS_GRACE,
            settle_delay: SETTLE_DELAY,
        }
    }
}

impl Tracker {
    /// A window has focus, with geometry already resolved.
    ///
    /// Returns whether this warrants a flare: true only on a change to a
    /// *different* window. A window that merely moved must not flare, or
    /// dragging keeps it lit and it never settles.
    pub fn focus(&mut self, state: FocusState, now: u64) -> (flare: bool)
        ensures
            flare == different_window(state, old(self)@.focused),
            final(self)@ == old(self)@.after_focus(state),
    {
        let flare = state.is_different_window(self.focused.as_ref());
        // Whatever the compositor was saying a moment ago is now overtaken.
        self.unfocus_pending_since = None;
        if flare {
            // A different window cannot be the one that was being dragged.
            self.moving_since = None;
        }
        self.focused = Some(state);
        flare
    }

    /// An empty focus event arrived. Start the grace period rather than acting
    /// on it: it is far more often the transient one than a real unfocus.
    pub fn note_unfocus(&mut self, now: u64)
        ensures
            final(self)@ == old(self)@.after_unfocus(now),
    {
        if self.unfocus_pending_since.is_none() {
            self.unfocus_pending_since = Some(now);
        }
    }

    /// A window is being moved or resized.
    pub fn note_moving(&mut self, now: u64)
        ensures
            final(self)@ == old(self)@.after_moving(now),
    {
        self.moving_since = Some(now);
    }

    /// How long an empty focus event waits before it counts: the view's
    /// `grace`, held in the public field `unfocus_grace`.
    pub fn grace_period(&self) -> (g: u64)
        ensures
            g == self@.grace,
    {
        self.unfocus_grace
    }

    /// How long after the last movement a window counts as at rest: the
    /// view's `settle`, held in the public field `settle_delay`.
    pub fn settle_period(&self) -> (d: u64)
        ensures
            d == self@.settle,
    {
        self.settle_delay
    }

    /// The last thing the compositor said had focus, whether or not the ring is
    /// currently drawn around it.
    pub fn focused(&self) -> (f: Option<&FocusState>)
        ensures
            f == match self@.focused {
                Some(s) => Some(&s),
                None => None::<&FocusState>,
            },
    {
        self.focused.as_ref()
    }

    /// True once an empty focus event has outlived the grace period, meaning
    /// focus really has left every window.
    pub fn unfocus_confirmed(&self, now: u64) -> (confirmed: bool)
        ensures
            confirmed == self@.unfocus_confirmed(now),
    {
        match self.unfocus_pending_since {
            Some(since) => now >= since && now - since >= self.unfocus_grace,
            None => false,
        }
    }

    /// True while a window is still being dragged or resized.
    pub fn is_moving(&self, now: u64) -> (moving: bool)
        ensures
            moving == self@.is_moving(now),
    {
        match self.moving_since {
            Some(since) => now < since || now - since < self.settle_delay,
            None => false,
        }
    }

    /// **The question the renderer asks.** What to draw a ring around this
    /// frame, or `None` for no ring at all.
    pub fn visible(&self, now: u64) -> (v: Option<&FocusState>)
        ensures
            v == match self@.visible(now) {
                Some(s) => Some(&s),
                None => None::<&FocusState>,
            },
    {
        if self.unfocus_confirmed(now) || self.is_moving(now) {
            return None;
        }
        self.focused.as_ref()
    }

    /// Drop the remembered window once an unfocus is confirmed, so the next
    /// window to take focus flares as the different window it is.
    pub fn retire_confirmed_unfocus(&mut self, now: u64)
        ensures
            final(self)@ == old(self)@.after_retire(now),
    {
        if self.unfocus_confirmed(now) {
            self.focused = None;
            self.unfocus_pending_since = None;
        }
    }

    /// Whether the frame loop still needs to be woken to resolve a pending
    /// decision, even though nothing has changed on screen.
    pub fn has_pending_deadline(&self, now: u64) -> (pending: bool)
        ensures
            pending == self@.has_pending_deadline(now),
    {
        (self.unfocus_pending_since.is_some() && !self.unfocus_confirmed(now)) || self.is_moving(
            now,
        )
    }
}

/// A window taking focus cancels a pending unfocus outright, rather than
/// merely outrunning it: no later instant confirms it.
pub proof fn law_focus_cancels_pending_unfocus(t: TrackerView, state: FocusState, later: u64)
    ensures
        !t.after_focus(state).unfocus_confirmed(later),
        t.after_focus(state).focused == Some(state),
{
}

/// The transient empty focus event does not blink the ring: a window that has
/// focus and is at rest keeps its ring for the whole grace period after an
/// empty event.
pub proof fn law_empty_event_does_not_blink(t: TrackerView, at: u64, now: u64)
    requires
        t.unfocus_since is None,
        !t.is_moving(now),
        at <= now,
        now - at < t.grace,
    ensures
        t.after_unfocus(at).visible(now) == t.focused,
{
}

/// A real unfocus puts the ring out once the grace period has passed since
/// the first empty event, and it stays out however many more arrive.
pub proof fn law_real_unfocus_puts_ring_out(t: TrackerView, at: u64, now: u64)
    requires
        t.unfocus_since is None,
        now >= at,
        now - at >= t.grace,
    ensures
        t.after_unfocus(at).visible(now) is None,
        forall|again: u64| #[trigger]
            t.after_unfocus(at).after_unfocus(again).visible(now) is None,
{
}

/// Once a confirmed unfocus is retired the window is forgotten, so whichever
/// window takes focus next, the same one included, flares.
pub proof fn law_retired_unfocus_makes_next_focus_flare(
    t: TrackerView,
    now: u64,
    state: FocusState,
)
    requires
        t.unfocus_confirmed(now),
    ensures
        t.after_retire(now).focused is None,
        different_window(state, t.after_retire(now).focused),
{
}

/// The ring stands down as soon as a drag starts, stays down while movement
/// keeps arriving, and comes back around the same window once it has been at
/// rest for the settle delay.
pub proof fn law_drag_hides_then_restores(t: TrackerView, at: u64, now: u64)
    requires
        !t.unfocus_confirmed(now),
        at <= now,
    ensures
        now - at < t.settle ==> t.after_moving(at).visible(now) is None,
        now - at >= t.settle ==> t.after_moving(at).visible(now) == t.focused,
{
}

/// The same window reporting new geometry neither flares nor ends a drag in
/// progress.
pub proof fn law_same_window_update_keeps_drag(t: TrackerView, state: FocusState)
    requires
        t.focused matches Some(f) && f.address@ == state.address@,
    ensures
        !different_window(state, t.focused),
        t.after_focus(state).moving_since == t.moving_since,
{
}

/// A ring is only ever drawn around the window the compositor last said has
/// focus, and never when nothing has.
pub proof fn law_ring_is_around_the_focused_window(t: TrackerView, now: u64)
    ensures
        t.visible(now) is Some ==> t.visible(now) == t.focused,
        t.focused is None ==> t.visible(now) is None,
{
}

} // verus!
