//! Hyprland's event socket.
//!
//! Events arrive newline-delimited on
//! `$XDG_RUNTIME_DIR/hypr/$HYPRLAND_INSTANCE_SIGNATURE/.socket2.sock`
//! in the form `EVENT>>DATA`. Parsing is separate from reading, so what a line
//! means is decided here without a compositor.

use vstd::prelude::*;

use super::{Event, EventView};
use crate::text::{before_first, before_first_char, joined, path_join, same_text, trim, trimmed};

verus! {

/// `>>` starts at `k` in `s`.
pub open spec fn arrows_at(s: Seq<char>, k: int) -> bool {
    0 <= k && k + 1 < s.len() && s[k] == '>' && s[k + 1] == '>'
}

/// `k` is where the first `>>` of `s` starts.
pub open spec fn first_arrows(s: Seq<char>, k: int) -> bool {
    arrows_at(s, k) && forall|j: int| 0 <= j < k ==> !arrows_at(s, j)
}

pub open spec fn has_arrows(s: Seq<char>) -> bool {
    exists|k: int| arrows_at(s, k)
}

/// The event names that only ask for geometry to be read again.
pub open spec fn rescan_name(name: Seq<char>) -> bool {
    ||| name == "workspace"@
    ||| name == "workspacev2"@
    ||| name == "focusedmon"@
    ||| name == "fullscreen"@
    ||| name == "changefloatingmode"@
}

/// What one `NAME>>DATA` line means; `None` for everything not acted on.
pub open spec fn event_of(name: Seq<char>, data: Seq<char>) -> Option<EventView> {
    let first = before_first(data, ',');
    if name == "activewindowv2"@ {
        if trimmed(data).len() == 0 {
            Some(EventView::Unfocused)
        } else {
            Some(EventView::Focused(trimmed(data)))
        }
    } else if name == "activewindow"@ && (trimmed(data).len() == 0 || trimmed(data) == ","@) {
        Some(EventView::Unfocused)
    } else if name == "closewindow"@ {
        Some(EventView::Rescan)
    } else if name == "movewindowv2"@ || name == "movewindow"@ || name == "resizewindow"@ {
        Some(EventView::Moving(first))
    } else if name == "monitoradded"@ || name == "monitoraddedv2"@ {
        Some(EventView::OutputAdded(first))
    } else if name == "monitorremoved"@ {
        Some(EventView::OutputRemoved(first))
    } else if rescan_name(name) {
        Some(EventView::Rescan)
    } else {
        None
    }
}

/// What a whole line means: split at the first `>>`, and nothing without one.
pub open spec fn line_event(line: Seq<char>) -> Option<EventView> {
    if has_arrows(line) {
        let k = choose|k: int| first_arrows(line, k);
        event_of(line.take(k), line.skip(k + 2))
    } else {
        None
    }
}

pub open spec fn opt_event_view(e: Option<Event>) -> Option<EventView> {
    match e {
        Some(e) => Some(e@),
        None => None,
    }
}

proof fn lemma_first_arrows_unique(s: Seq<char>, i: int, k: int)
    requires
        first_arrows(s, i),
        first_arrows(s, k),
    ensures
        i == k,
{
    if i < k {
        assert(!arrows_at(s, i));
    } else if k < i {
        assert(!arrows_at(s, k));
    }
}

/// Where the first `>>` starts, if anywhere.
fn find_arrows(line: &str) -> (r: Option<usize>)
    ensures
        match r {
            Some(k) => first_arrows(line@, k as int),
            None => !has_arrows(line@),
        },
{
    let n = line.unicode_len();
    let mut k: usize = 0;
    while k < n && k + 1 < n
        invariant
            n == line@.len(),
            k <= n,
            forall|j: int| 0 <= j < k ==> !arrows_at(line@, j),
        decreases n - k,
    {
        if line.get_char(k) == '>' && line.get_char(k + 1) == '>' {
            return Some(k);
        }
        k = k + 1;
    }
    assert forall|j: int| !arrows_at(line@, j) by {
        if 0 <= j && j + 1 < n {
            assert(j < k);
        }
    }
    None
}

fn is_rescan_name(name: &str) -> (r: bool)
    ensures
        r == rescan_name(name@),
{
    same_text(name, "workspace") || same_text(name, "workspacev2") || same_text(name, "focusedmon")
        || same_text(name, "fullscreen") || same_text(name, "changefloatingmode")
}

fn event_from(name: &str, data: &str) -> (r: Option<Event>)
    ensures
        opt_event_view(r) == event_of(name@, data@),
{
    let first = before_first_char(data, ',');
    if same_text(name, "activewindowv2") {
        let addr = trim(data);
        if addr.unicode_len() == 0 {
            Some(Event::Unfocused)
        } else {
            Some(Event::Focused(addr.to_owned()))
        }
    } else if same_text(name, "activewindow") && ({
        let t = trim(data);
        t.unicode_len() == 0 || same_text(t, ",")
    }) {
        Some(Event::Unfocused)
    } else if same_text(name, "closewindow") {
        Some(Event::Rescan)
    } else if same_text(name, "movewindowv2") || same_text(name, "movewindow") || same_text(
        name,
        "resizewindow",
    ) {
        Some(Event::Moving(first.to_owned()))
    } else if same_text(name, "monitoradded") || same_text(name, "monitoraddedv2") {
        Some(Event::OutputAdded(first.to_owned()))
    } else if same_text(name, "monitorremoved") {
        Some(Event::OutputRemoved(first.to_owned()))
    } else if is_rescan_name(name) {
        Some(Event::Rescan)
    } else {
        None
    }
}

/// Parse one line. Returns `None` for events we do not act on, which is most
/// of them, and for anything that is not an event at all.
///
/// Event names move between Hyprland releases. If focus tracking stops working
/// after an update, this function is the first place to look.
pub fn parse_line(line: &str) -> (event: Option<Event>)
    ensures
        opt_event_view(event) == line_event(line@),
{
    match find_arrows(line) {
        None => None,
        Some(k) => {
            proof {
                let c = choose|c: int| first_arrows(line@, c);
                lemma_first_arrows_unique(line@, k as int, c);
            }
            let n = line.unicode_len();
            let name = line.substring_char(0, k);
            let data = line.substring_char(k + 2, n);
            event_from(name, data)
        },
    }
}

/// `runtime/hypr/signature/name`, as `Path::join` builds it.
pub open spec fn hypr_socket(runtime: Seq<char>, signature: Seq<char>, name: Seq<char>) -> Seq<
    char,
> {
    joined(joined(joined(runtime, "hypr"@), signature), name)
}

pub fn hypr_socket_path(runtime: &str, signature: &str, name: &str) -> (path: String)
    ensures
        path@ == hypr_socket(runtime@, signature@, name@),
{
    let a = path_join(runtime, "hypr");
    let b = path_join(a.as_str(), signature);
    path_join(b.as_str(), name)
}

/// Path to the event socket, from `XDG_RUNTIME_DIR` and
/// `HYPRLAND_INSTANCE_SIGNATURE`; `None` when either is unset, which means we
/// are not running under Hyprland.
pub fn socket_path(runtime: Option<&str>, signature: Option<&str>) -> (path: Option<String>)
    ensures
        match (runtime, signature) {
            (Some(r), Some(s)) => path matches Some(p) && p@ == hypr_socket(
                r@,
                s@,
                ".socket2.sock"@,
            ),
            _ => path is None,
        },
{
    match (runtime, signature) {
        (Some(r), Some(s)) => Some(hypr_socket_path(r, s, ".socket2.sock")),
        _ => None,
    }
}

/// A line that starts with an event name, which holds no `>`, is split right
/// after it: the name is what comes before the first `>>`, the data all that
/// follows.
proof fn lemma_split_after_name(name: Seq<char>, data: Seq<char>)
    requires
        forall|i: int| 0 <= i < name.len() ==> name[i] != '>',
    ensures
        line_event(name + ">>"@ + data) == event_of(name, data),
{
    reveal_strlit(">>");
    let line = name + ">>"@ + data;
    let k = name.len() as int;
    assert(arrows_at(line, k));
    assert(first_arrows(line, k));
    assert(has_arrows(line));
    let c = choose|c: int| first_arrows(line, c);
    lemma_first_arrows_unique(line, k, c);
    assert(line.take(k) =~= name);
    assert(line.skip(k + 2) =~= data);
}

/// What each event acted on means, whatever data it carries:
///
/// - a focus change names the window, or nothing when its data is blank;
/// - the older focus event is acted on only when it says nothing is focused;
/// - a move or resize names the window, the first field of its data;
/// - a monitor coming or going names the monitor, the first field;
/// - a window closing, a workspace or monitor switch, a full-screen toggle
///   and a window floating or tiling all ask for geometry to be read again.
pub proof fn law_each_event_means_what_it_names(data: Seq<char>)
    ensures
        line_event("activewindowv2"@ + ">>"@ + data) == Some(
            if trimmed(data).len() == 0 {
                EventView::Unfocused
            } else {
                EventView::Focused(trimmed(data))
            },
        ),
        line_event("activewindow"@ + ">>"@ + data) == if trimmed(data).len() == 0 || trimmed(data)
            == ","@ {
            Some(EventView::Unfocused)
        } else {
            None
        },
        line_event("movewindow"@ + ">>"@ + data) == Some(EventView::Moving(before_first(data, ','))),
        line_event("movewindowv2"@ + ">>"@ + data) == Some(
            EventView::Moving(before_first(data, ',')),
        ),
        line_event("resizewindow"@ + ">>"@ + data) == Some(
            EventView::Moving(before_first(data, ',')),
        ),
        line_event("monitoradded"@ + ">>"@ + data) == Some(
            EventView::OutputAdded(before_first(data, ',')),
        ),
        line_event("monitoraddedv2"@ + ">>"@ + data) == Some(
            EventView::OutputAdded(before_first(data, ',')),
        ),
        line_event("monitorremoved"@ + ">>"@ + data) == Some(
            EventView::OutputRemoved(before_first(data, ',')),
        ),
        line_event("closewindow"@ + ">>"@ + data) == Some(EventView::Rescan),
        line_event("workspace"@ + ">>"@ + data) == Some(EventView::Rescan),
        line_event("workspacev2"@ + ">>"@ + data) == Some(EventView::Rescan),
        line_event("focusedmon"@ + ">>"@ + data) == Some(EventView::Rescan),
        line_event("fullscreen"@ + ">>"@ + data) == Some(EventView::Rescan),
        line_event("changefloatingmode"@ + ">>"@ + data) == Some(EventView::Rescan),
{
    reveal_strlit("activewindowv2");
    reveal_strlit("activewindow");
    reveal_strlit("closewindow");
    reveal_strlit("movewindowv2");
    reveal_strlit("movewindow");
    reveal_strlit("resizewindow");
    reveal_strlit("monitoradded");
    reveal_strlit("monitoraddedv2");
    reveal_strlit("monitorremoved");
    reveal_strlit("workspace");
    reveal_strlit("workspacev2");
    reveal_strlit("focusedmon");
    reveal_strlit("fullscreen");
    reveal_strlit("changefloatingmode");
    reveal_strlit(">>");
    assert("activewindowv2"@.len() == 14);
    assert("activewindow"@.len() == 12);
    assert("closewindow"@.len() == 11);
    assert("movewindowv2"@.len() == 12);
    assert("movewindow"@.len() == 10);
    assert("resizewindow"@.len() == 12);
    assert("monitoraddedv2"@.len() == 14);
    assert("monitoradded"@.len() == 12);
    assert("monitorremoved"@.len() == 14);
    assert("workspacev2"@.len() == 11);
    assert("workspace"@.len() == 9);
    assert("focusedmon"@.len() == 10);
    assert("fullscreen"@.len() == 10);
    assert("changefloatingmode"@.len() == 18);
    assert("activewindowv2"@[0] != "monitoraddedv2"@[0] && "activewindowv2"@[0] != "monitorremoved"@[0]);
    assert("monitoraddedv2"@[7] != "monitorremoved"@[7]);
    assert("activewindow"@[0] != "movewindowv2"@[0] && "activewindow"@[0] != "resizewindow"@[0]);
    assert("activewindow"@[0] != "monitoradded"@[0] && "resizewindow"@[0] != "movewindowv2"@[0]);
    assert("resizewindow"@[0] != "monitoradded"@[0] && "movewindowv2"@[2] != "monitoradded"@[2]);
    assert("closewindow"@[0] != "workspacev2"@[0]);
    assert("movewindow"@[0] != "focusedmon"@[0] && "movewindow"@[0] != "fullscreen"@[0]);
    assert("focusedmon"@[1] != "fullscreen"@[1]);
    lemma_split_after_name("activewindowv2"@, data);
    lemma_split_after_name("activewindow"@, data);
    lemma_split_after_name("closewindow"@, data);
    lemma_split_after_name("movewindowv2"@, data);
    lemma_split_after_name("movewindow"@, data);
    lemma_split_after_name("resizewindow"@, data);
    lemma_split_after_name("monitoradded"@, data);
    lemma_split_after_name("monitoraddedv2"@, data);
    lemma_split_after_name("monitorremoved"@, data);
    lemma_split_after_name("workspace"@, data);
    lemma_split_after_name("workspacev2"@, data);
    lemma_split_after_name("focusedmon"@, data);
    lemma_split_after_name("fullscreen"@, data);
    lemma_split_after_name("changefloatingmode"@, data);
}

} // verus!
