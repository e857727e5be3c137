//! Whether a ring is drawn, animated and kept honest, after every reason the
//! user has given not to want one.
//!
//! The tracker answers "does anything have focus, and is it at rest". This
//! adds what the tracker has no business knowing about: the ring switched off,
//! an idle machine, a full-screen window, an excluded class.

use vstd::prelude::*;

use crate::config::IdleBehavior;
use crate::focus::tracker::{Tracker, TrackerView};
use crate::focus::{Event, EventView, FocusState};
use crate::text::same_text;

verus! {

/// The user's reasons for not wanting a ring around a window.
pub struct Wishes {
    pub enabled: bool,
    /// True while the compositor says nobody has touched anything for the
    /// idle threshold.
    pub idle: bool,
    pub idle_behavior: IdleBehavior,
    pub hide_in_fullscreen: bool,
    /// Window classes that never get a ring.
    pub exclusions: Vec<String>,
}

/// A [`Wishes`] with its names as characters.
pub struct WishesView {
    pub enabled: bool,
    pub idle: bool,
    pub idle_behavior: IdleBehavior,
    pub hide_in_fullscreen: bool,
    pub exclusions: Seq<Seq<char>>,
}

impl View for Wishes {
    type V = WishesView;

    open spec fn view(&self) -> WishesView {
        WishesView {
            enabled: self.enabled,
            idle: self.idle,
            idle_behavior: self.idle_behavior,
            hide_in_fullscreen: self.hide_in_fullscreen,
            exclusions: self.exclusions@.map_values(|s: String| s@),
        }
    }
}

impl WishesView {
    /// Whether the user lets this window have a ring. Idle takes it away only
    /// under `FadeOut`: `Freeze` keeps it, because looking at which window has
    /// focus before touching anything is the case the ring exists for.
    pub open spec fn allows(self, s: FocusState) -> bool {
        &&& self.enabled
        &&& !(self.idle && self.idle_behavior == IdleBehavior::FadeOut)
        &&& !(self.hide_in_fullscreen && s.fullscreen)
        &&& !self.exclusions.contains(s.class@)
    }

    /// The window to ring at `now`, after the tracker's reasons and the user's.
    pub open spec fn showing(self, t: TrackerView, now: u64) -> Option<FocusState> {
        match t.visible(now) {
            Some(s) => if self.allows(s) {
                Some(s)
            } else {
                None
            },
            None => None,
        }
    }

    /// Whether anything still needs drawing. Idle stops the animation unless
    /// it is to run always; it never takes down a ring by itself, because no
    /// more frames means the last one stays on screen.
    pub open spec fn wants_frames(self, t: TrackerView, now: u64) -> bool {
        if self.idle && self.idle_behavior != IdleBehavior::AlwaysAnimate {
            false
        } else {
            self.showing(t, now) is Some || t.has_pending_deadline(now)
        }
    }

    /// Whether the focused window's geometry is worth asking about: not while
    /// idle, and not when the user has ruled its ring out. A window hidden
    /// mid-drag is still watched, or nothing would notice it come to rest.
    pub open spec fn wants_polling(self, t: TrackerView) -> bool {
        &&& !self.idle
        &&& t.focused matches Some(s) && self.allows(s)
    }
}

/// What a change in idleness asks of the program.
pub struct IdleChange {
    /// Whether anything changed at all.
    pub changed: bool,
    /// Coming back to the machine earns a flare, when the user wants one.
    pub flare: bool,
    /// Every surface has to be repainted: hiding and un-hiding both need it;
    /// freezing does not, because the last frame is already the right one.
    pub repaint_all: bool,
}

impl Wishes {
    /// Whether the user lets this window have a ring.
    pub fn allows(&self, s: &FocusState) -> (ok: bool)
        ensures
            ok == self@.allows(*s),
    {
        if !self.enabled {
            return false;
        }
        if self.idle && self.idle_behavior == IdleBehavior::FadeOut {
            return false;
        }
        if self.hide_in_fullscreen && s.fullscreen {
            return false;
        }
        let ghost ex = self@.exclusions;
        let mut i: usize = 0;
        while i < self.exclusions.len()
            invariant
                i <= self.exclusions@.len(),
                ex == self@.exclusions,
                ex.len() == self.exclusions@.len(),
                forall|k: int| 0 <= k < i ==> ex[k] != s.class@,
            decreases self.exclusions.len() - i,
        {
            if same_text(self.exclusions[i].as_str(), s.class.as_str()) {
                assert(ex[i as int] == s.class@);
                return false;
            }
            i = i + 1;
        }
        true
    }

    /// **What the renderer asks each frame**: the window to ring, or `None`.
    pub fn showing<'a>(&self, tracker: &'a Tracker, now: u64) -> (v: Option<&'a FocusState>)
        ensures
            v == match self@.showing(tracker@, now) {
                Some(s) => Some(&s),
                None => None::<&FocusState>,
            },
    {
        match tracker.visible(now) {
            Some(s) => if self.allows(s) {
                Some(s)
            } else {
                None
            },
            None => None,
        }
    }

    /// Whether the frame loop has anything left to do, or can go quiet.
    pub fn wants_frames(&self, tracker: &Tracker, now: u64) -> (w: bool)
        ensures
            w == self@.wants_frames(tracker@, now),
    {
        if self.idle && self.idle_behavior != IdleBehavior::AlwaysAnimate {
            return false;
        }
        self.showing(tracker, now).is_some() || tracker.has_pending_deadline(now)
    }

    /// Whether the geometry poll should be running.
    pub fn wants_polling(&self, tracker: &Tracker) -> (w: bool)
        ensures
            w == self@.wants_polling(tracker@),
    {
        if self.idle {
            return false;
        }
        match tracker.focused() {
            Some(s) => self.allows(s),
            None => false,
        }
    }

    /// The compositor says the user has walked away, or come back.
    pub fn set_idle(&mut self, idle: bool, flare_on_return: bool) -> (c: IdleChange)
        ensures
            final(self)@ == (WishesView { idle, ..old(self)@ }),
            c.changed == (old(self).idle != idle),
            c.flare == (c.changed && !idle && flare_on_return),
            c.repaint_all == (c.changed && (old(self).idle_behavior == IdleBehavior::FadeOut
                || !idle)),
    {
        if self.idle == idle {
            return IdleChange { changed: false, flare: false, repaint_all: false };
        }
        self.idle = idle;
        IdleChange {
            changed: true,
            flare: !idle && flare_on_return,
            repaint_all: self.idle_behavior == IdleBehavior::FadeOut || !idle,
        }
    }
}

/// `Freeze` stops the animation and keeps the ring: an idle machine shows
/// exactly the ring it would show awake, and draws no more frames for it.
pub proof fn law_freeze_keeps_the_ring(w: WishesView, t: TrackerView, now: u64)
    requires
        w.idle_behavior == IdleBehavior::Freeze,
    ensures
        (WishesView { idle: true, ..w }).showing(t, now) == (WishesView { idle: false, ..w }).showing(
            t,
            now,
        ),
        !(WishesView { idle: true, ..w }).wants_frames(t, now),
{
}

/// `FadeOut` takes the ring away while idle, and draws nothing.
pub proof fn law_fade_out_hides_the_ring(w: WishesView, t: TrackerView, now: u64)
    requires
        w.idle,
        w.idle_behavior == IdleBehavior::FadeOut,
    ensures
        w.showing(t, now) is None,
        !w.wants_frames(t, now),
        !w.wants_polling(t),
{
}

/// A ring is only ever around the focused window, at rest, and only where the
/// user allows one: never while switched off, never around an excluded class,
/// never over a full-screen window when those are hidden.
pub proof fn law_ring_only_where_allowed(w: WishesView, t: TrackerView, now: u64)
    ensures
        w.showing(t, now) matches Some(s) ==> {
            &&& t.focused == Some(s)
            &&& w.enabled
            &&& !w.exclusions.contains(s.class@)
            &&& !(w.hide_in_fullscreen && s.fullscreen)
            &&& !t.is_moving(now)
            &&& !t.unfocus_confirmed(now)
        },
{
}

/// `AlwaysAnimate` ignores idleness entirely.
pub proof fn law_always_animate_ignores_idle(w: WishesView, t: TrackerView, now: u64)
    requires
        w.idle_behavior == IdleBehavior::AlwaysAnimate,
    ensures
        (WishesView { idle: true, ..w }).showing(t, now) == (WishesView { idle: false, ..w }).showing(
            t,
            now,
        ),
        (WishesView { idle: true, ..w }).wants_frames(t, now) == (WishesView {
            idle: false,
            ..w
        }).wants_frames(t, now),
{
}

/// How often to ask where the focused window is while it is at rest, in
/// milliseconds. Hyprland has no event for an interactive move or resize, so
/// a window that changes shape under a ring can only be noticed by asking.
pub const POLL_AT_REST_MS: u64 = 250;

/// How often to ask once a change has been seen, so the ring lands on the
/// window the moment it stops.
pub const POLL_WHILE_MOVING_MS: u64 = 60;

/// How long after the last observed change to keep polling fast: comfortably
/// longer than the settle delay, so the settle itself is seen at that rate.
pub const FAST_POLL_FOR_MS: u64 = 500;

/// The wait before the next poll, given how long ago the focused window was
/// last seen to change (`None` when it never was).
pub fn next_poll_millis(since_last_change_ms: Option<u64>) -> (ms: u64)
    ensures
        ms == if since_last_change_ms matches Some(e) && e < FAST_POLL_FOR_MS {
            POLL_WHILE_MOVING_MS
        } else {
            POLL_AT_REST_MS
        },
{
    match since_last_change_ms {
        Some(e) if e < FAST_POLL_FOR_MS => POLL_WHILE_MOVING_MS,
        _ => POLL_AT_REST_MS,
    }
}

/// What one geometry poll found.
#[derive(Clone, Copy, Debug, PartialEq, Eq, Structural)]
pub enum PollStep {
    /// Nothing is focused to poll for; the poll can stop.
    NoWindow,
    /// The focused window changed shape, place or full-screen state.
    Moved,
    /// The focused window is as it was.
    Still,
    /// Nothing has focus any more.
    Gone,
    /// Another window has focus; the event socket owns that change, and will
    /// deliver it with the flare it deserves.
    Elsewhere,
}

/// The same window, seen somewhere or some shape else.
pub open spec fn geometry_changed(before: FocusState, now: FocusState) -> bool {
    now.rect != before.rect || now.output@ != before.output@ || now.fullscreen != before.fullscreen
}

/// The tracker after a poll that found `current` focused.
pub open spec fn after_poll(
    t: TrackerView,
    current: Option<FocusState>,
    now: u64,
    hide_while_dragging: bool,
) -> (PollStep, TrackerView) {
    match t.focused {
        None => (PollStep::NoWindow, t),
        Some(prev) => match current {
            None => (PollStep::Gone, t.after_unfocus(now)),
            Some(c) => if c.address@ != prev.address@ {
                (PollStep::Elsewhere, t)
            } else if geometry_changed(prev, c) {
                (
                    PollStep::Moved,
                    (if hide_while_dragging {
                        t.after_moving(now)
                    } else {
                        t
                    }).after_focus(c),
                )
            } else {
                (PollStep::Still, t)
            },
        },
    }
}

/// What a poll does with what it sees, field by field: a window that is no
/// longer focused starts the unfocus grace; another window is left to the
/// event socket; the same window seen with any other rect, on another output
/// or with its full-screen state flipped is handed to the tracker as moved;
/// and the same window exactly as it was changes nothing.
pub proof fn law_poll_hands_over_every_change(
    t: TrackerView,
    c: FocusState,
    now: u64,
    hide_while_dragging: bool,
)
    requires
        t.focused is Some,
    ensures
        ({
            let p = t.focused->0;
            let (step, u) = after_poll(t, Some(c), now, hide_while_dragging);
            &&& c.address@ != p.address@ ==> step == PollStep::Elsewhere && u == t
            &&& c.address@ == p.address@ && (c.rect.x != p.rect.x || c.rect.y != p.rect.y
                || c.rect.w != p.rect.w || c.rect.h != p.rect.h || c.output@ != p.output@
                || c.fullscreen != p.fullscreen) ==> step == PollStep::Moved && u.focused == Some(
                c,
            ) && u.unfocus_since is None && (hide_while_dragging ==> u.moving_since == Some(now))
            &&& c.address@ == p.address@ && c.rect == p.rect && c.output@ == p.output@
                && c.fullscreen == p.fullscreen ==> step == PollStep::Still && u == t
        }),
        after_poll(t, None, now, hide_while_dragging).0 == PollStep::Gone,
        after_poll(t, None, now, hide_while_dragging).1 == t.after_unfocus(now),
{
    let p = t.focused->0;
    if c.address@ == p.address@ && (c.rect.x != p.rect.x || c.rect.y != p.rect.y || c.rect.w
        != p.rect.w || c.rect.h != p.rect.h) {
        assert(c.rect != p.rect);
    }
}

/// Hand the tracker what one poll found. A change of shape is movement (the
/// tracker measures rest with its clock, and each change seen pushes that
/// clock forward) and never a flare, since it is the same window; nothing
/// focused starts the same grace period an empty focus event does.
pub fn observe_poll(
    tracker: &mut Tracker,
    current: Option<FocusState>,
    now: u64,
    hide_while_dragging: bool,
) -> (step: PollStep)
    ensures
        (step, final(tracker)@) == after_poll(old(tracker)@, current, now, hide_while_dragging),
{
    let (same, changed) = match tracker.focused() {
        None => return PollStep::NoWindow,
        Some(prev) => match &current {
            None => (false, false),
            Some(c) => {
                let same = c.address == prev.address;
                let changed = c.rect.x != prev.rect.x || c.rect.y != prev.rect.y || c.rect.w
                    != prev.rect.w || c.rect.h != prev.rect.h || !(c.output == prev.output)
                    || c.fullscreen != prev.fullscreen;
                (same, changed)
            },
        },
    };
    match current {
        None => {
            tracker.note_unfocus(now);
            PollStep::Gone
        },
        Some(c) => if !same {
            PollStep::Elsewhere
        } else if changed {
            if hide_while_dragging {
                tracker.note_moving(now);
            }
            let _ = tracker.focus(c, now);
            PollStep::Moved
        } else {
            PollStep::Still
        },
    }
}

/// What an event from the compositor leaves to be done once the tracker has
/// been told what it can be told directly.
#[derive(Debug, PartialEq)]
pub enum FollowUp {
    Nothing,
    /// A window took focus: find out where it is, then hand it to the
    /// tracker.
    Resolve(String),
    /// Monitors or workspaces changed: re-read the monitors, then ask what
    /// has focus now.
    Rescan,
}

/// What the tracker becomes on an event, and what is left to do. Movement is
/// noted only when dragging is to hide the ring; the end of a drag is
/// measured by the tracker's clock, so `Settled` changes nothing.
pub open spec fn on_event_spec(
    t: TrackerView,
    event: EventView,
    now: u64,
    hide_while_dragging: bool,
) -> (TrackerView, Option<Seq<char>>, bool) {
    match event {
        EventView::Focused(a) => (t, Some(a), false),
        EventView::Unfocused => (t.after_unfocus(now), None, false),
        EventView::Moving(_) => (
            if hide_while_dragging {
                t.after_moving(now)
            } else {
                t
            },
            None,
            false,
        ),
        EventView::Settled => (t, None, false),
        EventView::OutputAdded(_) | EventView::OutputRemoved(_) | EventView::Rescan => (
            t,
            None,
            true,
        ),
    }
}

/// Tell the tracker what an event says, and return what is left to do.
pub fn on_event(tracker: &mut Tracker, event: Event, now: u64, hide_while_dragging: bool) -> (f:
    FollowUp)
    ensures
        ({
            let (t, resolve, rescan) = on_event_spec(
                old(tracker)@,
                event@,
                now,
                hide_while_dragging,
            );
            &&& final(tracker)@ == t
            &&& match f {
                FollowUp::Nothing => resolve is None && !rescan,
                FollowUp::Resolve(a) => resolve == Some(a@) && !rescan,
                FollowUp::Rescan => resolve is None && rescan,
            }
        }),
{
    match event {
        Event::Focused(a) => FollowUp::Resolve(a),
        Event::Unfocused => {
            tracker.note_unfocus(now);
            FollowUp::Nothing
        },
        Event::Moving(_) => {
            if hide_while_dragging {
                tracker.note_moving(now);
            }
            FollowUp::Nothing
        },
        Event::Settled => FollowUp::Nothing,
        Event::OutputAdded(_) | Event::OutputRemoved(_) | Event::Rescan => FollowUp::Rescan,
    }
}

/// Whether the output named `output` carries the ring when `showing` is the
/// window to ring.
pub open spec fn lit_on(showing: Option<FocusState>, output: Seq<char>) -> bool {
    showing matches Some(s) && s.output@ == output
}

/// Among outputs with distinct names, at most one carries the ring, the one
/// holding the window; none does when there is no window to ring.
pub proof fn law_one_output_carries_the_ring(
    showing: Option<FocusState>,
    outputs: Seq<Seq<char>>,
    i: int,
    j: int,
)
    requires
        forall|a: int, b: int| 0 <= a < b < outputs.len() ==> outputs[a] != outputs[b],
        0 <= i < outputs.len(),
        0 <= j < outputs.len(),
    ensures
        lit_on(showing, outputs[i]) && lit_on(showing, outputs[j]) ==> i == j,
        showing is None ==> !lit_on(showing, outputs[i]),
        lit_on(showing, outputs[i]) ==> showing->0.output@ == outputs[i],
{
    if i < j {
        assert(outputs[i] != outputs[j]);
    } else if j < i {
        assert(outputs[j] != outputs[i]);
    }
}

/// Whether the surface on the output named `output` draws the ring: only the
/// one holding the window that is showing does; every other output stays
/// empty.
pub fn ring_here(showing: Option<&FocusState>, output: &str) -> (lit: bool)
    ensures
        lit == lit_on(
            match showing {
                Some(s) => Some(*s),
                None => None,
            },
            output@,
        ),
{
    match showing {
        Some(s) => same_text(s.output.as_str(), output),
        None => false,
    }
}

} // verus!
