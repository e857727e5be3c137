//! Where the focused window is, and on which output.
//!
//! The compositor's focus event does not carry geometry, so it is a separate
//! question asked over Hyprland's *writable* socket, whose JSON replies are
//! read here.

use vstd::prelude::*;

use super::hyprland::{hypr_socket, hypr_socket_path};
use super::{normalize_address, normalized, FocusState, FocusStateView, Rect};
use crate::text::same_text;
use crate::json::{
    at, i64_at, i64_at_item, i64_of, item, json_parse, parse, str_at, str_of, Json, JsonView, Num,
};

verus! {

/// An output, as the compositor sees it.
///
/// `id` exists only to translate `clients[].monitor`, which is an integer and
/// not the name everything else uses.
#[derive(Debug, PartialEq)]
pub struct Monitor {
    pub id: i64,
    pub name: String,
    pub position: (i32, i32),
    pub size: (i32, i32),
    /// The scale the compositor reported, as the number it sent; 1 when it
    /// sent none.
    pub scale: Num,
}

pub struct MonitorView {
    pub id: i64,
    pub name: Seq<char>,
    pub position: (i32, i32),
    pub size: (i32, i32),
    pub scale: Num,
}

impl View for Monitor {
    type V = MonitorView;

    open spec fn view(&self) -> MonitorView {
        MonitorView {
            id: self.id,
            name: self.name@,
            position: self.position,
            size: self.size,
            scale: self.scale,
        }
    }
}

impl Clone for Monitor {
    fn clone(&self) -> (r: Self)
        ensures
            r@ == self@,
    {
        Monitor {
            id: self.id,
            name: self.name.clone(),
            position: (self.position.0, self.position.1),
            size: (self.size.0, self.size.1),
            scale: self.scale.clone(),
        }
    }
}

/// Path to the request socket: `.socket.sock`, the one requests are written
/// to, as opposed to `.socket2.sock`, which streams events.
pub fn request_socket_path(runtime: Option<&str>, signature: Option<&str>) -> (path: Option<
    String,
>)
    ensures
        match (runtime, signature) {
            (Some(r), Some(s)) => path matches Some(p) && p@ == hypr_socket(
                r@,
                s@,
                ".socket.sock"@,
            ),
            _ => path is None,
        },
{
    match (runtime, signature) {
        (Some(r), Some(s)) => Some(hypr_socket_path(r, s, ".socket.sock")),
        _ => None,
    }
}

/// An integer member as `as_i64().unwrap_or(default)` reads it.
pub open spec fn int_or(v: JsonView, default: i64) -> i64 {
    match i64_of(v) {
        Some(i) => i,
        None => default,
    }
}

/// One element of `j/monitors`, or the message for what it lacks.
pub open spec fn monitor_of(m: JsonView) -> Result<MonitorView, Seq<char>> {
    match (i64_of(at(m, "id"@)), str_of(at(m, "name"@))) {
        (None, _) => Err("monitors: no id"@),
        (Some(_), None) => Err("monitors: no name"@),
        (Some(id), Some(name)) => Ok(
            MonitorView {
                id,
                name,
                position: (int_or(at(m, "x"@), 0) as i32, int_or(at(m, "y"@), 0) as i32),
                size: (int_or(at(m, "width"@), 0) as i32, int_or(at(m, "height"@), 0) as i32),
                scale: match at(m, "scale"@) {
                    JsonView::Number(n) => n,
                    _ => Num::PosInt(1),
                },
            },
        ),
    }
}

/// The first `n` elements of a monitor list, or the first complaint.
pub open spec fn monitors_upto(a: Seq<JsonView>, n: nat) -> Result<Seq<MonitorView>, Seq<char>>
    decreases n,
{
    if n == 0 {
        Ok(Seq::empty())
    } else {
        match monitors_upto(a, (n - 1) as nat) {
            Err(e) => Err(e),
            Ok(p) => match monitor_of(a[n - 1]) {
                Err(e) => Err(e),
                Ok(m) => Ok(p.push(m)),
            },
        }
    }
}

/// What a parsed `j/monitors` reply says, or what it lacks.
pub open spec fn monitors_value(v: JsonView) -> Result<Seq<MonitorView>, Seq<char>> {
    match v {
        JsonView::Array(a) => monitors_upto(a, a.len()),
        _ => Err("monitors: expected an array"@),
    }
}

/// What `j/monitors` says, or why it cannot be read.
pub open spec fn monitors_reply(json: Seq<char>) -> Result<Seq<MonitorView>, Seq<char>> {
    match json_parse(json) {
        Err(e) => Err("monitors: "@ + e),
        Ok(v) => monitors_value(v),
    }
}

/// `prefix` followed by `rest`.
fn prefixed(prefix: &str, rest: &str) -> (s: String)
    ensures
        s@ == prefix@ + rest@,
{
    let mut s = prefix.to_owned();
    s.append(rest);
    s
}

fn parse_monitor(m: &Json) -> (r: Result<Monitor, String>)
    ensures
        match r {
            Ok(mon) => monitor_of(m@) == Ok::<MonitorView, Seq<char>>(mon@),
            Err(e) => monitor_of(m@) == Err::<MonitorView, Seq<char>>(e@),
        },
{
    let id = match i64_at(m, "id") {
        Some(id) => id,
        None => return Err("monitors: no id".to_owned()),
    };
    let name = match str_at(m, "name") {
        Some(n) => n.to_owned(),
        None => return Err("monitors: no name".to_owned()),
    };
    let x = match i64_at(m, "x") {
        Some(v) => v,
        None => 0,
    };
    let y = match i64_at(m, "y") {
        Some(v) => v,
        None => 0,
    };
    let w = match i64_at(m, "width") {
        Some(v) => v,
        None => 0,
    };
    let h = match i64_at(m, "height") {
        Some(v) => v,
        None => 0,
    };
    let scale = match m.get("scale") {
        Some(Json::Number(n)) => n.clone(),
        _ => Num::PosInt(1),
    };
    Ok(
        Monitor {
            id,
            name,
            position: (x as i32, y as i32),
            size: (w as i32, h as i32),
            scale,
        },
    )
}

pub open spec fn monitors_view(ms: Seq<Monitor>) -> Seq<MonitorView> {
    ms.map_values(|m: Monitor| m@)
}

/// Parse `j/monitors`.
pub fn parse_monitors(json: &str) -> (r: Result<Vec<Monitor>, String>)
    ensures
        match r {
            Ok(ms) => monitors_reply(json@) == Ok::<Seq<MonitorView>, Seq<char>>(
                monitors_view(ms@),
            ),
            Err(e) => monitors_reply(json@) == Err::<Seq<MonitorView>, Seq<char>>(e@),
        },
{
    match parse(json) {
        Ok(v) => monitors_from(&v),
        Err(e) => Err(prefixed("monitors: ", e.as_str())),
    }
}

/// The monitors a parsed `j/monitors` reply lists, or the first complaint.
pub fn monitors_from(value: &Json) -> (r: Result<Vec<Monitor>, String>)
    ensures
        match r {
            Ok(ms) => monitors_value(value@) == Ok::<Seq<MonitorView>, Seq<char>>(
                monitors_view(ms@),
            ),
            Err(e) => monitors_value(value@) == Err::<Seq<MonitorView>, Seq<char>>(e@),
        },
{
    let array = match value.as_array() {
        Some(a) => a,
        None => return Err("monitors: expected an array".to_owned()),
    };
    let ghost av = value@->Array_0;
    let mut out: Vec<Monitor> = Vec::new();
    assert(monitors_view(out@) =~= Seq::<MonitorView>::empty());
    let mut i: usize = 0;
    while i < array.len()
        invariant
            i <= array@.len(),
            value@ == JsonView::Array(av),
            av.len() == array@.len(),
            forall|k: int| 0 <= k < array@.len() ==> av[k] == (#[trigger] array@[k])@,
            monitors_upto(av, i as nat) == Ok::<Seq<MonitorView>, Seq<char>>(
                monitors_view(out@),
            ),
        decreases array.len() - i,
    {
        match parse_monitor(&array[i]) {
            Ok(m) => {
                let ghost before = out@;
                out.push(m);
                assert(monitors_view(out@) =~= monitors_view(before).push(m@));
            },
            Err(e) => {
                proof {
                    assert(av[i as int] == array@[i as int]@);
                    assert(monitors_upto(av, (i + 1) as nat) == Err::<Seq<MonitorView>, Seq<char>>(
                        e@,
                    ));
                    lemma_monitors_error_sticks(av, (i + 1) as nat, av.len());
                }
                return Err(e);
            },
        }
        i = i + 1;
    }
    Ok(out)
}

/// `i` is the first monitor whose id is `id`.
pub open spec fn first_with_id(monitors: Seq<MonitorView>, id: i64, i: int) -> bool {
    &&& 0 <= i < monitors.len()
    &&& monitors[i].id == id
    &&& forall|j: int| 0 <= j < i ==> (#[trigger] monitors[j]).id != id
}

/// The name of the first monitor with this id, or empty when none has it.
pub open spec fn output_named(monitors: Seq<MonitorView>, id: i64) -> Seq<char> {
    if exists|i: int| 0 <= i < monitors.len() && (#[trigger] monitors[i]).id == id {
        monitors[choose|i: int| first_with_id(monitors, id, i)].name
    } else {
        Seq::empty()
    }
}

/// The rect a window object reports: `at` and `size`, each coordinate 0 when
/// it is not an integer, cut to 32 bits.
pub open spec fn client_rect(c: JsonView) -> Rect {
    Rect {
        x: int_or(item(at(c, "at"@), 0), 0) as i32,
        y: int_or(item(at(c, "at"@), 1), 0) as i32,
        w: int_or(item(at(c, "size"@), 0), 0) as i32,
        h: int_or(item(at(c, "size"@), 1), 0) as i32,
    }
}

/// One window object, as both `j/clients` and `j/activewindow` describe it:
/// `None` when it has no address, or a rect no real window has.
pub open spec fn client_of(c: JsonView, monitors: Seq<MonitorView>) -> Option<FocusStateView> {
    match str_of(at(c, "address"@)) {
        None => None,
        Some(raw) => {
            let address = normalized(raw);
            let rect = client_rect(c);
            if address.len() == 0 || !rect.sensible() {
                None
            } else {
                Some(
                    FocusStateView {
                        address,
                        output: output_named(monitors, int_or(at(c, "monitor"@), -1i64)),
                        class: match str_of(at(c, "class"@)) {
                            Some(k) => k,
                            None => Seq::empty(),
                        },
                        rect,
                        // A mode, not a flag: 0 none, 1 maximized, 2 fullscreen.
                        fullscreen: int_or(at(c, "fullscreen"@), 0) != 0,
                    },
                )
            }
        },
    }
}

pub open spec fn opt_focus_view(s: Option<FocusState>) -> Option<FocusStateView> {
    match s {
        Some(f) => Some(f@),
        None => None,
    }
}

/// The name of the first monitor with this id, or an empty name.
fn output_for(monitors: &[Monitor], id: i64) -> (name: String)
    ensures
        name@ == output_named(monitors_view(monitors@), id),
{
    let ghost mv = monitors_view(monitors@);
    let mut i: usize = 0;
    while i < monitors.len()
        invariant
            i <= monitors@.len(),
            mv == monitors_view(monitors@),
            forall|j: int| 0 <= j < i ==> (#[trigger] mv[j]).id != id,
        decreases monitors.len() - i,
    {
        if monitors[i].id == id {
            proof {
                assert(first_with_id(mv, id, i as int));
                assert(mv[i as int].id == id);
                let k = choose|k: int| first_with_id(mv, id, k);
                if k < i {
                    assert(mv[k].id != id);
                } else if k > i {
                    assert(mv[i as int].id != id);
                }
            }
            return monitors[i].name.clone();
        }
        i = i + 1;
    }
    String::new()
}

/// One window object, as both `j/clients` and `j/activewindow` describe it.
///
/// `None` when it has no address, or reports a rect that cannot be a real
/// window: a window that is mapped but not yet given a size reports zeros, and
/// drawing a ring around nothing is worse than waiting for the next event.
pub fn parse_client(c: &Json, monitors: &[Monitor]) -> (state: Option<FocusState>)
    ensures
        opt_focus_view(state) == client_of(c@, monitors_view(monitors@)),
{
    let raw = match str_at(c, "address") {
        Some(a) => a,
        None => return None,
    };
    let address = normalize_address(raw);
    if address.unicode_len() == 0 {
        return None;
    }
    let x = match i64_at_item(c, "at", 0) {
        Some(v) => v,
        None => 0,
    };
    let y = match i64_at_item(c, "at", 1) {
        Some(v) => v,
        None => 0,
    };
    let w = match i64_at_item(c, "size", 0) {
        Some(v) => v,
        None => 0,
    };
    let h = match i64_at_item(c, "size", 1) {
        Some(v) => v,
        None => 0,
    };
    let rect = Rect { x: x as i32, y: y as i32, w: w as i32, h: h as i32 };
    if !rect.is_sensible() {
        return None;
    }
    let monitor_id = match i64_at(c, "monitor") {
        Some(v) => v,
        None => -1,
    };
    let output = output_for(monitors, monitor_id);
    let fullscreen = match i64_at(c, "fullscreen") {
        Some(v) => v,
        None => 0,
    } != 0;
    let class = match str_at(c, "class") {
        Some(k) => k.to_owned(),
        None => String::new(),
    };
    Some(FocusState { address, output, class, rect, fullscreen })
}

/// `i` is the first element of a client list whose address, normalized, is
/// `wanted`.
pub open spec fn first_client(a: Seq<JsonView>, wanted: Seq<char>, i: int) -> bool {
    &&& 0 <= i < a.len()
    &&& client_is(a[i], wanted)
    &&& forall|j: int| 0 <= j < i ==> !client_is(#[trigger] a[j], wanted)
}

pub open spec fn client_is(c: JsonView, wanted: Seq<char>) -> bool {
    match str_of(at(c, "address"@)) {
        Some(raw) => normalized(raw) == wanted,
        None => false,
    }
}

/// What a parsed `j/clients` reply says of the window whose normalized
/// address is `wanted`.
pub open spec fn clients_value(v: JsonView, wanted: Seq<char>, monitors: Seq<MonitorView>) -> Result<
    Option<FocusStateView>,
    Seq<char>,
> {
    match v {
        JsonView::Array(a) => if exists|i: int| 0 <= i < a.len() && client_is(#[trigger] a[i], wanted) {
            Ok(client_of(a[choose|i: int| first_client(a, wanted, i)], monitors))
        } else {
            Ok(None)
        },
        _ => Err("clients: expected an array"@),
    }
}

/// What a `j/clients` reply says of the window at `address`.
pub open spec fn clients_reply(json: Seq<char>, address: Seq<char>, monitors: Seq<MonitorView>) -> Result<
    Option<FocusStateView>,
    Seq<char>,
> {
    let wanted = normalized(address);
    if wanted.len() == 0 {
        Ok(None)
    } else {
        match json_parse(json) {
            Err(e) => Err("clients: "@ + e),
            Ok(v) => clients_value(v, wanted, monitors),
        }
    }
}

/// Find one window in `j/clients` and turn it into a [`FocusState`].
///
/// `address` may be in either of Hyprland's two spellings; both sides are
/// normalized before comparison.
pub fn find_client(json: &str, address: &str, monitors: &[Monitor]) -> (r: Result<
    Option<FocusState>,
    String,
>)
    ensures
        match r {
            Ok(s) => clients_reply(json@, address@, monitors_view(monitors@)) == Ok::<
                Option<FocusStateView>,
                Seq<char>,
            >(opt_focus_view(s)),
            Err(e) => clients_reply(json@, address@, monitors_view(monitors@)) == Err::<
                Option<FocusStateView>,
                Seq<char>,
            >(e@),
        },
{
    let wanted = normalize_address(address);
    if wanted.unicode_len() == 0 {
        return Ok(None);
    }
    match parse(json) {
        Ok(v) => client_in(&v, wanted.as_str(), monitors),
        Err(e) => Err(prefixed("clients: ", e.as_str())),
    }
}

/// The window whose normalized address is `wanted` in a parsed `j/clients`
/// reply, placed; `None` when the list does not hold it.
pub fn client_in(value: &Json, wanted: &str, monitors: &[Monitor]) -> (r: Result<
    Option<FocusState>,
    String,
>)
    ensures
        match r {
            Ok(s) => clients_value(value@, wanted@, monitors_view(monitors@)) == Ok::<
                Option<FocusStateView>,
                Seq<char>,
            >(opt_focus_view(s)),
            Err(e) => clients_value(value@, wanted@, monitors_view(monitors@)) == Err::<
                Option<FocusStateView>,
                Seq<char>,
            >(e@),
        },
{
    let array = match value.as_array() {
        Some(a) => a,
        None => return Err("clients: expected an array".to_owned()),
    };
    let ghost av = value@->Array_0;
    let mut i: usize = 0;
    while i < array.len()
        invariant
            i <= array@.len(),
            value@ == JsonView::Array(av),
            av.len() == array@.len(),
            forall|k: int| 0 <= k < array@.len() ==> av[k] == (#[trigger] array@[k])@,
            forall|j: int| 0 <= j < i ==> !client_is(#[trigger] av[j], wanted@),
        decreases array.len() - i,
    {
        let c = &array[i];
        let matched = match str_at(c, "address") {
            Some(raw) => {
                let n = normalize_address(raw);
                same_text(n.as_str(), wanted)
            },
            None => false,
        };
        if matched {
            proof {
                assert(av[i as int] == c@);
                assert(client_is(av[i as int], wanted@));
                assert(first_client(av, wanted@, i as int));
                let k = choose|k: int| first_client(av, wanted@, k);
                if k < i {
                    assert(!client_is(av[k], wanted@));
                } else if k > i {
                    assert(!client_is(av[i as int], wanted@));
                }
            }
            return Ok(parse_client(c, monitors));
        }
        proof {
            assert(av[i as int] == c@);
        }
        i = i + 1;
    }
    Ok(None)
}

/// What a `j/activewindow` reply says: one window object, or `{}` when
/// nothing has focus.
pub open spec fn active_reply(json: Seq<char>, monitors: Seq<MonitorView>) -> Result<
    Option<FocusStateView>,
    Seq<char>,
> {
    match json_parse(json) {
        Err(e) => Err("activewindow: "@ + e),
        Ok(v) => active_value(v, monitors),
    }
}

/// What a parsed `j/activewindow` reply says.
pub open spec fn active_value(v: JsonView, monitors: Seq<MonitorView>) -> Result<
    Option<FocusStateView>,
    Seq<char>,
> {
    if v is Object {
        Ok(client_of(v, monitors))
    } else {
        Err("activewindow: expected an object"@)
    }
}

/// Parse `j/activewindow`: one window object, or `{}` when nothing has focus.
///
/// This is the reply the geometry poll reads several times a second: one
/// small object rather than the whole client list, and no address to match
/// because the compositor has already answered the question of which window.
pub fn parse_active_window(json: &str, monitors: &[Monitor]) -> (r: Result<
    Option<FocusState>,
    String,
>)
    ensures
        match r {
            Ok(s) => active_reply(json@, monitors_view(monitors@)) == Ok::<
                Option<FocusStateView>,
                Seq<char>,
            >(opt_focus_view(s)),
            Err(e) => active_reply(json@, monitors_view(monitors@)) == Err::<
                Option<FocusStateView>,
                Seq<char>,
            >(e@),
        },
{
    match parse(json) {
        Ok(v) => active_window_from(&v, monitors),
        Err(e) => Err(prefixed("activewindow: ", e.as_str())),
    }
}

/// The focused window a parsed `j/activewindow` reply describes; `None` for
/// the `{}` that means nothing has focus.
pub fn active_window_from(value: &Json, monitors: &[Monitor]) -> (r: Result<
    Option<FocusState>,
    String,
>)
    ensures
        match r {
            Ok(s) => active_value(value@, monitors_view(monitors@)) == Ok::<
                Option<FocusStateView>,
                Seq<char>,
            >(opt_focus_view(s)),
            Err(e) => active_value(value@, monitors_view(monitors@)) == Err::<
                Option<FocusStateView>,
                Seq<char>,
            >(e@),
        },
{
    if !value.is_object() {
        return Err("activewindow: expected an object".to_owned());
    }
    Ok(parse_client(value, monitors))
}

proof fn lemma_monitors_error_sticks(a: Seq<JsonView>, n: nat, m: nat)
    requires
        n <= m,
        monitors_upto(a, n) is Err,
    ensures
        monitors_upto(a, m) == monitors_upto(a, n),
    decreases m - n,
{
    if n < m {
        lemma_monitors_error_sticks(a, n, (m - 1) as nat);
    }
}

} // verus!
