//! What has keyboard focus, and where it is.

use vstd::prelude::*;

use crate::text::{is_white_space, lower, lower_char, lowercase, trim, trim_end, trim_start, trimmed};

pub mod geometry;
pub mod hyprland;
pub mod tracker;

verus! {

/// A window's frame in compositor coordinates.
#[derive(Clone, Copy, Debug, PartialEq, Eq)]
pub struct Rect {
    pub x: i32,
    pub y: i32,
    pub w: i32,
    pub h: i32,
}

impl Rect {
    /// Frames this absurd are always a compositor or client misreporting,
    /// never a real window.
    pub open spec fn sensible(self) -> bool {
        40 <= self.w <= 20_000 && 40 <= self.h <= 20_000
    }

    pub fn is_sensible(&self) -> (ok: bool)
        ensures
            ok == self.sensible(),
    {
        self.w >= 40 && self.h >= 40 && self.w <= 20_000 && self.h <= 20_000
    }
}

/// Hyprland's two spellings of a window address agree once normalized: the
/// event socket writes `55593885e2e0`, the client list `0x55593885E2E0`.
///
/// Surrounding white space goes, ASCII letters become lower case, and one
/// leading `0x` is dropped.
pub open spec fn normalized(s: Seq<char>) -> Seq<char> {
    let t = lower(trimmed(s));
    if t.len() >= 2 && t[0] == '0' && t[1] == 'x' {
        t.skip(2)
    } else {
        t
    }
}

pub fn normalize_address(raw: &str) -> (address: String)
    ensures
        address@ == normalized(raw@),
{
    let t = trim(raw);
    let l = lowercase(t);
    let s = l.as_str();
    let n = s.unicode_len();
    if n >= 2 && s.get_char(0) == '0' && s.get_char(1) == 'x' {
        s.substring_char(2, n).to_owned()
    } else {
        l
    }
}

/// No white space at either end.
pub open spec fn edge_clean(s: Seq<char>) -> bool {
    s.len() == 0 || (!is_white_space(s[0]) && !is_white_space(s.last()))
}

/// The event socket's spelling and the client list's agree: an address with
/// `0x` or `0X` in front, in any case, normalizes to the address without it.
pub proof fn law_both_spellings_agree(s: Seq<char>, t: Seq<char>)
    requires
        edge_clean(s),
        lower(t) == lower(s),
        !(lower(s).len() >= 2 && lower(s)[0] == '0' && lower(s)[1] == 'x'),
    ensures
        normalized("0x"@ + t) == normalized(s),
        normalized("0X"@ + t) == normalized(s),
{
    reveal_strlit("0x");
    reveal_strlit("0X");
    assert(s.len() == t.len());
    assert forall|i: int| 0 <= i < s.len() implies is_white_space(#[trigger] t[i])
        == is_white_space(s[i]) by {
        assert(lower(t)[i] == lower_char(t[i]));
        assert(lower(s)[i] == lower_char(s[i]));
        assert(lower(t)[i] == lower(s)[i]);
        lemma_lower_keeps_white(t[i]);
        lemma_lower_keeps_white(s[i]);
    }
    lemma_clean_trims_to_itself(s);
    lemma_clean_trims_to_itself(t);
    let a = "0x"@ + t;
    let b = "0X"@ + t;
    lemma_prefixed_trims_to_itself(a);
    lemma_prefixed_trims_to_itself(b);
    assert(lower(a) =~= seq!['0', 'x'] + lower(t));
    assert(lower(b) =~= seq!['0', 'x'] + lower(t));
    assert(lower(a).skip(2) =~= lower(s));
    assert(lower(b).skip(2) =~= lower(s));
}

proof fn lemma_lower_keeps_white(c: char)
    ensures
        is_white_space(lower_char(c)) == is_white_space(c),
{
    if 'A' <= c && c <= 'Z' {
        let l = lower_char(c);
        assert(l == ((c as u32) + 32) as char);
        assert('a' <= l && l <= 'z');
    }
}

proof fn lemma_clean_trims_to_itself(s: Seq<char>)
    requires
        edge_clean(s),
    ensures
        trimmed(s) == s,
{
    if s.len() > 0 {
        assert(trim_start(s) == s);
        assert(trim_end(s) == s);
    }
}

proof fn lemma_prefixed_trims_to_itself(a: Seq<char>)
    requires
        a.len() >= 2,
        a[0] == '0',
        !is_white_space(a.last()),
    ensures
        trimmed(a) == a,
{
    assert(trim_start(a) == a);
    assert(trim_end(a) == a);
}

/// A snapshot of what currently has keyboard focus.
#[derive(Clone, Debug, PartialEq)]
pub struct FocusState {
    /// The compositor's handle for the window. Identity, not geometry: this is
    /// what decides whether a change is a *different* window, and so whether to
    /// flare.
    pub address: String,
    /// Which output it is on. Decides which surface draws.
    pub output: String,
    /// The window's class, which is what exclusions name.
    pub class: String,
    pub rect: Rect,
    pub fullscreen: bool,
}

/// A [`FocusState`] with its text as characters.
pub struct FocusStateView {
    pub address: Seq<char>,
    pub output: Seq<char>,
    pub class: Seq<char>,
    pub rect: Rect,
    pub fullscreen: bool,
}

impl View for FocusState {
    type V = FocusStateView;

    open spec fn view(&self) -> FocusStateView {
        FocusStateView {
            address: self.address@,
            output: self.output@,
            class: self.class@,
            rect: self.rect,
            fullscreen: self.fullscreen,
        }
    }
}

/// Whether `next` is a different window from `prev`, which is what a flare
/// needs: identity alone decides, never geometry.
pub open spec fn different_window(next: FocusState, prev: Option<FocusState>) -> bool {
    match prev {
        None => true,
        Some(p) => p.address@ != next.address@,
    }
}

impl FocusState {
    /// A focus change worth flaring for, as opposed to the same window moving.
    pub fn is_different_window(&self, other: Option<&FocusState>) -> (different: bool)
        ensures
            different == different_window(*self, match other {
                Some(p) => Some(*p),
                None => None,
            }),
    {
        match other {
            None => true,
            Some(prev) => !(prev.address == self.address),
        }
    }
}

/// What the compositor tells us. Kept minimal: anything not acted on is noise.
#[derive(Clone, Debug, PartialEq)]
pub enum Event {
    /// Focus moved to this window address. Geometry is fetched separately,
    /// because Hyprland's focus event does not carry it.
    Focused(String),
    /// Nothing has focus. Draw nothing: the previously focused window will not
    /// receive the next keystroke.
    Unfocused,
    /// A window is being moved or resized. Stand down until it comes to rest.
    Moving(String),
    /// The focused window finished moving.
    Settled,
    OutputAdded(String),
    OutputRemoved(String),
    /// Workspace or monitor focus changed, so geometry should be re-read.
    Rescan,
}

/// An [`Event`] with its text as characters.
pub enum EventView {
    Focused(Seq<char>),
    Unfocused,
    Moving(Seq<char>),
    Settled,
    OutputAdded(Seq<char>),
    OutputRemoved(Seq<char>),
    Rescan,
}

impl View for Event {
    type V = EventView;

    open spec fn view(&self) -> EventView {
        match self {
            Event::Focused(a) => EventView::Focused(a@),
            Event::Unfocused => EventView::Unfocused,
            Event::Moving(a) => EventView::Moving(a@),
            Event::Settled => EventView::Settled,
            Event::OutputAdded(o) => EventView::OutputAdded(o@),
            Event::OutputRemoved(o) => EventView::OutputRemoved(o@),
            Event::Rescan => EventView::Rescan,
        }
    }
}

} // verus!
