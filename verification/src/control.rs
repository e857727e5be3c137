//! The control protocol: how anything outside the process changes a setting.
//!
//! Line-delimited JSON in both directions, which a shell script, a QML
//! `Process` or `socat` can all speak without a library. The wire format
//! lives here, away from the socket and the event loop.

use vstd::prelude::*;

use crate::json::{
    at, bool_of, decimal, first_key, has_key, json_decimal, json_parse, json_pretty, json_text,
    keys_distinct, lemma_array_view, lemma_first_key_unique, lemma_object_view, member,
    members_view, nesting_limit, parse, plain, reads_back, str_at, str_of, string_value,
    to_pretty_text, to_text, Json, JsonView, Num,
};
use crate::config::{decode, opt_view};
use crate::text::{debug_quoted, debug_text, joined, split_on, split_pieces, parse_u64, path_join, parsed_u64, same_text, trim, trimmed};

verus! {

/// What the caller wants.
#[derive(Debug, PartialEq)]
pub enum Request {
    /// Everything the panel needs to draw itself in one round trip.
    Status,
    /// Change settings, apply them live, and persist them: the members of the
    /// `settings` object, in order.
    Change(Vec<(String, Json)>),
    /// Rotate the palette now, rather than waiting for the timer.
    NextColor,
    /// Switch to a named palette, with the usual cross-fade.
    SetPalette(String),
    /// Re-read the config file from disk.
    Reload,
    Quit,
}

pub enum RequestView {
    Status,
    Change(Seq<(Seq<char>, JsonView)>),
    NextColor,
    SetPalette(Seq<char>),
    Reload,
    Quit,
}

impl View for Request {
    type V = RequestView;

    open spec fn view(&self) -> RequestView {
        match self {
            Request::Status => RequestView::Status,
            Request::Change(m) => RequestView::Change(members_view(m@)),
            Request::NextColor => RequestView::NextColor,
            Request::SetPalette(n) => RequestView::SetPalette(n@),
            Request::Reload => RequestView::Reload,
            Request::Quit => RequestView::Quit,
        }
    }
}

/// Copies of an object's members.
fn copy_members(m: &Vec<(String, Json)>) -> (r: Vec<(String, Json)>)
    ensures
        members_view(r@) == members_view(m@),
{
    let mut out: Vec<(String, Json)> = Vec::new();
    let mut i: usize = 0;
    while i < m.len()
        invariant
            i <= m@.len(),
            out@.len() == i,
            forall|k: int|
                0 <= k < i ==> (#[trigger] out@[k]).0@ == m@[k].0@ && out@[k].1@ == m@[k].1@,
        decreases m.len() - i,
    {
        out.push((m[i].0.clone(), m[i].1.clone()));
        i = i + 1;
    }
    assert(members_view(out@) =~= members_view(m@));
    out
}

impl Clone for Request {
    fn clone(&self) -> (r: Self)
        ensures
            r@ == self@,
    {
        match self {
            Request::Status => Request::Status,
            Request::Change(m) => Request::Change(copy_members(m)),
            Request::NextColor => Request::NextColor,
            Request::SetPalette(n) => Request::SetPalette(n.clone()),
            Request::Reload => Request::Reload,
            Request::Quit => Request::Quit,
        }
    }
}

/// What a parsed request asks for, or why it is refused. Every line is
/// treated as hostile input rather than as a request from our own CLI.
pub open spec fn request_from(v: JsonView) -> Result<RequestView, Seq<char>> {
    match str_of(at(v, "command"@)) {
        None => Err("no \"command\" field"@),
        Some(c) => if c == "status"@ {
            Ok(RequestView::Status)
        } else if c == "next_color"@ {
            Ok(RequestView::NextColor)
        } else if c == "set_palette"@ {
            match str_of(at(v, "name"@)) {
                None => Err("set_palette needs a \"name\""@),
                Some(n) => if n.len() == 0 {
                    Err("set_palette with an empty name"@)
                } else {
                    Ok(RequestView::SetPalette(n))
                },
            }
        } else if c == "reload"@ {
            Ok(RequestView::Reload)
        } else if c == "quit"@ {
            Ok(RequestView::Quit)
        } else if c == "set"@ {
            match member(v, "settings"@) {
                Some(JsonView::Object(m)) => if m.len() == 0 {
                    Err("set with no settings"@)
                } else {
                    Ok(RequestView::Change(m))
                },
                _ => Err("set needs a \"settings\" object"@),
            }
        } else {
            Err("unknown command "@ + debug_text(c))
        },
    }
}

/// What one request line asks for, or why it is refused.
pub open spec fn request_of(line: Seq<char>) -> Result<RequestView, Seq<char>> {
    match json_parse(line) {
        Err(e) => Err("not valid JSON: "@ + e),
        Ok(v) => request_from(v),
    }
}

/// The object a request is sent as.
pub open spec fn request_json(r: RequestView) -> JsonView {
    match r {
        RequestView::Status => command_only("status"@),
        RequestView::NextColor => command_only("next_color"@),
        RequestView::Reload => command_only("reload"@),
        RequestView::Quit => command_only("quit"@),
        RequestView::SetPalette(n) => JsonView::Object(
            seq![("command"@, JsonView::Str("set_palette"@)), ("name"@, JsonView::Str(n))],
        ),
        RequestView::Change(m) => JsonView::Object(
            seq![("command"@, JsonView::Str("set"@)), ("settings"@, JsonView::Object(m))],
        ),
    }
}

pub open spec fn command_only(c: Seq<char>) -> JsonView {
    JsonView::Object(seq![("command"@, JsonView::Str(c))])
}

/// A request that reads back as itself: a palette name that is not empty,
/// and settings that are there at all and come back unchanged from their text.
pub open spec fn sendable(r: RequestView) -> bool {
    match r {
        RequestView::SetPalette(n) => n.len() > 0,
        RequestView::Change(m) => m.len() > 0 && plain(
            JsonView::Object(m),
            (nesting_limit() - 1) as nat,
        ),
        _ => true,
    }
}

fn object1(k: &str, v: Json) -> (o: Json)
    ensures
        o@ == JsonView::Object(seq![(k@, v@)]),
{
    let mut m: Vec<(String, Json)> = Vec::new();
    m.push((k.to_owned(), v));
    proof {
        lemma_object_view(m);
        assert(members_view(m@) =~= seq![(k@, v@)]);
    }
    Json::Object(m)
}

fn object2(k1: &str, v1: Json, k2: &str, v2: Json) -> (o: Json)
    ensures
        o@ == JsonView::Object(seq![(k1@, v1@), (k2@, v2@)]),
{
    let mut m: Vec<(String, Json)> = Vec::new();
    m.push((k1.to_owned(), v1));
    m.push((k2.to_owned(), v2));
    proof {
        lemma_object_view(m);
        assert(members_view(m@) =~= seq![(k1@, v1@), (k2@, v2@)]);
    }
    Json::Object(m)
}

/// What a request's own object asks for is that request.
proof fn lemma_request_reads_back(r: RequestView)
    requires
        sendable(r),
    ensures
        plain(request_json(r), nesting_limit()),
        request_from(request_json(r)) == Ok::<RequestView, Seq<char>>(r),
{
    reveal_strlit("command");
    reveal_strlit("name");
    reveal_strlit("settings");
    reveal_strlit("status");
    reveal_strlit("next_color");
    reveal_strlit("set_palette");
    reveal_strlit("reload");
    reveal_strlit("quit");
    reveal_strlit("set");
    let o = request_json(r);
    let entries = o->Object_0;
    assert(first_key(entries, "command"@, 0));
    assert(has_key(entries, "command"@));
    let k = choose|k: int| first_key(entries, "command"@, k);
    lemma_first_key_unique(entries, "command"@, 0, k);
    assert(at(o, "command"@) == entries[0].1);
    assert("command"@.len() == 7 && "name"@.len() == 4 && "settings"@.len() == 8);
    assert("status"@.len() == 6 && "next_color"@.len() == 10 && "set_palette"@.len() == 11);
    assert("reload"@.len() == 6 && "quit"@.len() == 4 && "set"@.len() == 3);
    assert("status"@[0] != "reload"@[0]);
    reveal_with_fuel(plain, 2);
    assert forall|i: int| 0 <= i < entries.len() implies plain(
        #[trigger] entries[i].1,
        (nesting_limit() - 1) as nat,
    ) by {
        if i == 1 && r is Change {
            assert(entries[1].1 == JsonView::Object(r->Change_0));
        }
    }
    if entries.len() == 2 {
        assert(keys_distinct(entries));
        assert(first_key(entries, entries[1].0, 1));
        assert(has_key(entries, entries[1].0));
        let k2 = choose|k: int| first_key(entries, entries[1].0, k);
        lemma_first_key_unique(entries, entries[1].0, 1, k2);
        assert(member(o, entries[1].0) == Some(entries[1].1));
    }
}

impl Request {
    /// Read one request line.
    pub fn parse(line: &str) -> (r: Result<Self, String>)
        ensures
            match r {
                Ok(q) => request_of(line@) == Ok::<RequestView, Seq<char>>(q@),
                Err(e) => request_of(line@) == Err::<RequestView, Seq<char>>(e@),
            },
    {
        match parse(line) {
            Ok(v) => Request::from_value(&v),
            Err(e) => {
                let mut m = "not valid JSON: ".to_owned();
                m.append(e.as_str());
                Err(m)
            },
        }
    }

    /// The request a parsed line makes, or why it is refused.
    pub fn from_value(value: &Json) -> (r: Result<Self, String>)
        ensures
            match r {
                Ok(q) => request_from(value@) == Ok::<RequestView, Seq<char>>(q@),
                Err(e) => request_from(value@) == Err::<RequestView, Seq<char>>(e@),
            },
    {
        let command = match str_at(value, "command") {
            Some(c) => c,
            None => return Err("no \"command\" field".to_owned()),
        };
        if same_text(command, "status") {
            Ok(Request::Status)
        } else if same_text(command, "next_color") {
            Ok(Request::NextColor)
        } else if same_text(command, "set_palette") {
            let name = match str_at(value, "name") {
                Some(n) => n,
                None => return Err("set_palette needs a \"name\"".to_owned()),
            };
            if name.unicode_len() == 0 {
                return Err("set_palette with an empty name".to_owned());
            }
            Ok(Request::SetPalette(name.to_owned()))
        } else if same_text(command, "reload") {
            Ok(Request::Reload)
        } else if same_text(command, "quit") {
            Ok(Request::Quit)
        } else if same_text(command, "set") {
            let settings = match value.get("settings") {
                Some(s) => match s.as_object() {
                    Some(m) => m,
                    None => return Err("set needs a \"settings\" object".to_owned()),
                },
                None => return Err("set needs a \"settings\" object".to_owned()),
            };
            if settings.len() == 0 {
                return Err("set with no settings".to_owned());
            }
            Ok(Request::Change(copy_members(settings)))
        } else {
            let mut m = "unknown command ".to_owned();
            let q = debug_quoted(command);
            m.append(q.as_str());
            Err(m)
        }
    }

    /// The line a request is sent as; it reads back as the same request.
    pub fn to_json(&self) -> (s: String)
        ensures
            s@ == json_text(request_json(self@)),
            sendable(self@) ==> request_of(s@) == Ok::<RequestView, Seq<char>>(self@),
    {
        let o = match self {
            Request::Status => object1("command", string_value("status")),
            Request::NextColor => object1("command", string_value("next_color")),
            Request::Reload => object1("command", string_value("reload")),
            Request::Quit => object1("command", string_value("quit")),
            Request::SetPalette(name) => object2(
                "command",
                string_value("set_palette"),
                "name",
                string_value(name.as_str()),
            ),
            Request::Change(m) => {
                let copied = copy_members(m);
                proof {
                    lemma_object_view(copied);
                }
                object2("command", string_value("set"), "settings", Json::Object(copied))
            },
        };
        assert(o@ == request_json(self@));
        proof {
            if sendable(self@) {
                lemma_request_reads_back(self@);
            }
        }
        to_text(&o)
    }
}

/// The settings whose value is `true` or `false`.
pub open spec fn flag_key(k: Seq<char>) -> bool {
    k == "enabled"@ || k == "hide_in_fullscreen"@ || k == "hide_while_dragging"@ || k
        == "flare_on_return"@
}

/// The settings whose value is one of a few names.
pub open spec fn named_key(k: Seq<char>) -> bool {
    k == "band_width"@ || k == "motion_speed"@ || k == "turbulence"@ || k == "idle_behavior"@
}

/// The settings whose value is a whole number.
pub open spec fn count_key(k: Seq<char>) -> bool {
    k == "frame_rate"@ || k == "debug_mode"@
}

/// The settings whose value is any number.
pub open spec fn measure_key(k: Seq<char>) -> bool {
    k == "idle_intensity"@ || k == "flare_duration"@ || k == "palette_interval"@ || k
        == "idle_threshold"@
}

/// The settings whose value is a list of names.
pub open spec fn list_key(k: Seq<char>) -> bool {
    k == "exclusions"@ || k == "disabled_palettes"@
}

pub open spec fn yes_word(w: Seq<char>) -> bool {
    w == "true"@ || w == "on"@ || w == "yes"@ || w == "1"@
}

pub open spec fn no_word(w: Seq<char>) -> bool {
    w == "false"@ || w == "off"@ || w == "no"@ || w == "0"@
}

/// `"{key} takes {expects}, not {raw:?}"`.
pub open spec fn refusal(key: Seq<char>, expects: Seq<char>, raw: Seq<char>) -> Seq<char> {
    key + " takes "@ + expects + ", not "@ + debug_text(raw)
}

/// Each piece trimmed, and the ones that come to nothing dropped.
pub open spec fn kept_pieces(p: Seq<Seq<char>>) -> Seq<Seq<char>>
    decreases p.len(),
{
    if p.len() == 0 {
        Seq::empty()
    } else {
        let k = kept_pieces(p.drop_last());
        let t = trimmed(p.last());
        if t.len() == 0 {
            k
        } else {
            k.push(t)
        }
    }
}

/// The names in a comma-separated list, trimmed, with empty ones dropped.
pub open spec fn listed(raw: Seq<char>) -> Seq<Seq<char>> {
    kept_pieces(split_pieces(raw, ','))
}

pub open spec fn strings_json(l: Seq<Seq<char>>) -> JsonView {
    JsonView::Array(l.map_values(|t: Seq<char>| JsonView::Str(t)))
}

/// The value a setting takes from a command-line string, or why it cannot.
/// Which type each key wants is knowable from the key alone.
pub open spec fn coerced(key: Seq<char>, raw: Seq<char>) -> Result<JsonView, Seq<char>> {
    if flag_key(key) {
        if yes_word(raw) {
            Ok(JsonView::Bool(true))
        } else if no_word(raw) {
            Ok(JsonView::Bool(false))
        } else {
            Err(refusal(key, "true or false"@, raw))
        }
    } else if named_key(key) {
        Ok(JsonView::Str(raw))
    } else if count_key(key) {
        match parsed_u64(raw) {
            Some(n) => Ok(JsonView::Number(Num::PosInt(n))),
            None => Err(refusal(key, "a whole number"@, raw)),
        }
    } else if measure_key(key) {
        measured(key, raw, json_decimal(raw))
    } else if list_key(key) {
        Ok(strings_json(listed(raw)))
    } else {
        Err("unknown setting "@ + debug_text(key))
    }
}

/// A number setting, given what its string reads as.
pub open spec fn measured(key: Seq<char>, raw: Seq<char>, parsed: Option<JsonView>) -> Result<
    JsonView,
    Seq<char>,
> {
    match parsed {
        Some(j) => Ok(j),
        None => Err(refusal(key, "a number"@, raw)),
    }
}

fn refuse(key: &str, expects: &str, raw: &str) -> (e: String)
    ensures
        e@ == refusal(key@, expects@, raw@),
{
    let mut e = key.to_owned();
    e.append(" takes ");
    e.append(expects);
    e.append(", not ");
    let q = debug_quoted(raw);
    e.append(q.as_str());
    e
}

/// The names in a comma-separated list, as JSON strings.
fn list_setting(raw: &str) -> (items: Vec<Json>)
    ensures
        items@.len() == listed(raw@).len(),
        forall|k: int|
            0 <= k < items@.len() ==> (#[trigger] items@[k])@ == JsonView::Str(listed(raw@)[k]),
{
    let pieces = split_on(raw, ',');
    let ghost p = split_pieces(raw@, ',');
    let mut out: Vec<Json> = Vec::new();
    let mut i: usize = 0;
    assert(p.take(0) =~= Seq::<Seq<char>>::empty());
    while i < pieces.len()
        invariant
            i <= pieces@.len(),
            p == split_pieces(raw@, ','),
            pieces@.len() == p.len(),
            forall|k: int| 0 <= k < pieces@.len() ==> (#[trigger] pieces@[k])@ == p[k],
            out@.len() == kept_pieces(p.take(i as int)).len(),
            forall|k: int|
                0 <= k < out@.len() ==> (#[trigger] out@[k])@ == JsonView::Str(
                    kept_pieces(p.take(i as int))[k],
                ),
        decreases pieces.len() - i,
    {
        proof {
            assert(p.take(i + 1).drop_last() =~= p.take(i as int));
            assert(pieces@[i as int]@ == p[i as int]);
        }
        let piece = trim(pieces[i].as_str());
        if piece.unicode_len() > 0 {
            out.push(string_value(piece));
        }
        i = i + 1;
    }
    assert(p.take(pieces.len() as int) =~= p);
    out
}

/// A number setting, given what `raw` reads as: the number itself, or the
/// refusal that names the key and quotes `raw`.
pub fn decimal_setting(key: &str, raw: &str, parsed: Option<Json>) -> (r: Result<Json, String>)
    ensures
        match r {
            Ok(j) => measured(key@, raw@, opt_json(parsed)) == Ok::<JsonView, Seq<char>>(j@),
            Err(e) => measured(key@, raw@, opt_json(parsed)) == Err::<JsonView, Seq<char>>(e@),
        },
{
    match parsed {
        Some(j) => Ok(j),
        None => Err(refuse(key, "a number", raw)),
    }
}

pub open spec fn opt_json(j: Option<Json>) -> Option<JsonView> {
    match j {
        Some(j) => Some(j@),
        None => None,
    }
}

/// Turn `set key value` from a command line into the value the config
/// expects: a CLI hands over strings and nothing else, so `"true"` has to
/// become a boolean and `"30"` a number, or every setting would land as a
/// string and be rejected.
pub fn coerce_setting(key: &str, raw: &str) -> (r: Result<Json, String>)
    ensures
        match r {
            Ok(j) => coerced(key@, raw@) == Ok::<JsonView, Seq<char>>(j@),
            Err(e) => coerced(key@, raw@) == Err::<JsonView, Seq<char>>(e@),
        },
{
    if same_text(key, "enabled") || same_text(key, "hide_in_fullscreen") || same_text(
        key,
        "hide_while_dragging",
    ) || same_text(key, "flare_on_return") {
        if same_text(raw, "true") || same_text(raw, "on") || same_text(raw, "yes") || same_text(
            raw,
            "1",
        ) {
            Ok(Json::Bool(true))
        } else if same_text(raw, "false") || same_text(raw, "off") || same_text(raw, "no")
            || same_text(raw, "0") {
            Ok(Json::Bool(false))
        } else {
            Err(refuse(key, "true or false", raw))
        }
    } else if same_text(key, "band_width") || same_text(key, "motion_speed") || same_text(
        key,
        "turbulence",
    ) || same_text(key, "idle_behavior") {
        Ok(string_value(raw))
    } else if same_text(key, "frame_rate") || same_text(key, "debug_mode") {
        match parse_u64(raw) {
            Some(n) => Ok(Json::Number(Num::PosInt(n))),
            None => Err(refuse(key, "a whole number", raw)),
        }
    } else if same_text(key, "idle_intensity") || same_text(key, "flare_duration") || same_text(
        key,
        "palette_interval",
    ) || same_text(key, "idle_threshold") {
        let parsed = decimal(raw);
        decimal_setting(key, raw, parsed)
    } else if same_text(key, "exclusions") || same_text(key, "disabled_palettes") {
        let items = list_setting(raw);
        proof {
            lemma_array_view(items);
            assert(Json::Array(items)@->Array_0 =~= listed(raw@).map_values(
                |t: Seq<char>| JsonView::Str(t),
            ));
        }
        Ok(Json::Array(items))
    } else {
        let mut e = "unknown setting ".to_owned();
        let q = debug_quoted(key);
        e.append(q.as_str());
        Err(e)
    }
}

/// The reply to a request that failed: `{"ok":false,"error":message}`.
pub fn error_json(message: &str) -> (s: String)
    ensures
        s@ == json_text(
            JsonView::Object(
                seq![("ok"@, JsonView::Bool(false)), ("error"@, JsonView::Str(message@))],
            ),
        ),
{
    let o = object2("ok", Json::Bool(false), "error", string_value(message));
    to_text(&o)
}

/// Where the control socket lives: `nimbus/control.sock` under
/// `XDG_RUNTIME_DIR`, and nowhere when that is not set. The runtime directory
/// rather than a config or state one, because the socket means something only
/// while the process runs, and that directory is cleared at logout.
pub fn socket_path(xdg_runtime_dir: Option<&str>) -> (p: Option<String>)
    ensures
        match xdg_runtime_dir {
            Some(d) => p matches Some(p) && p@ == joined(joined(d@, "nimbus"@), "control.sock"@),
            None => p is None,
        },
{
    match xdg_runtime_dir {
        Some(d) => {
            let n = path_join(d, "nimbus");
            Some(path_join(n.as_str(), "control.sock"))
        },
        None => None,
    }
}

/// One palette, as the panel needs to draw it.
pub struct PaletteView {
    pub name: &'static str,
    /// `#rrggbb` for the two band colours and the glow.
    pub hex: [String; 3],
    /// False when the user has taken it out of the rotation.
    pub in_rotation: bool,
}

/// The object one palette is reported as.
pub open spec fn palette_json(p: PaletteView) -> JsonView {
    JsonView::Object(
        seq![
            ("name"@, JsonView::Str(p.name@)),
            ("a"@, JsonView::Str(p.hex@[0]@)),
            ("b"@, JsonView::Str(p.hex@[1]@)),
            ("glow"@, JsonView::Str(p.hex@[2]@)),
            ("in_rotation"@, JsonView::Bool(p.in_rotation)),
        ],
    )
}

/// The name of the palette in use, or nothing when the index is out of range.
pub open spec fn current_name(palettes: Seq<PaletteView>, current: usize) -> Seq<char> {
    if current < palettes.len() {
        palettes[current as int].name@
    } else {
        ""@
    }
}

/// The whole state of the program as one object, so the panel can redraw
/// from one round trip: a second call to learn the palette names could
/// disagree with the first.
pub open spec fn status_view(
    settings: Seq<(Seq<char>, JsonView)>,
    palettes: Seq<PaletteView>,
    current: usize,
    showing: bool,
) -> JsonView {
    JsonView::Object(
        seq![
            ("ok"@, JsonView::Bool(true)),
            ("running"@, JsonView::Bool(true)),
            ("showing"@, JsonView::Bool(showing)),
            ("palettes"@, JsonView::Array(palettes.map_values(|p: PaletteView| palette_json(p)))),
            ("palette_index"@, JsonView::Number(Num::PosInt(current as u64))),
            ("palette_name"@, JsonView::Str(current_name(palettes, current))),
            ("settings"@, JsonView::Object(settings)),
        ],
    )
}

fn member_pair(key: &str, value: Json) -> (m: (String, Json))
    ensures
        m.0@ == key@,
        m.1@ == value@,
{
    (key.to_owned(), value)
}

fn palette_object(p: &PaletteView) -> (o: Json)
    ensures
        o@ == palette_json(*p),
{
    let mut m: Vec<(String, Json)> = Vec::new();
    m.push(member_pair("name", string_value(p.name)));
    m.push(member_pair("a", string_value(p.hex[0].as_str())));
    m.push(member_pair("b", string_value(p.hex[1].as_str())));
    m.push(member_pair("glow", string_value(p.hex[2].as_str())));
    m.push(member_pair("in_rotation", Json::Bool(p.in_rotation)));
    proof {
        lemma_object_view(m);
        assert(members_view(m@) =~= palette_json(*p)->Object_0);
    }
    Json::Object(m)
}

/// The status reply: whether a ring is on screen this instant, every palette
/// with its colours, the one in use, and the settings, as the members given.
pub fn status_json(
    settings: Vec<(String, Json)>,
    palettes: &[PaletteView],
    current_palette: usize,
    showing: bool,
) -> (s: String)
    ensures
        s@ == json_text(status_view(members_view(settings@), palettes@, current_palette, showing)),
{
    let mut list: Vec<Json> = Vec::new();
    let mut i: usize = 0;
    while i < palettes.len()
        invariant
            i <= palettes@.len(),
            list@.len() == i,
            forall|k: int| 0 <= k < i ==> (#[trigger] list@[k])@ == palette_json(palettes@[k]),
        decreases palettes.len() - i,
    {
        list.push(palette_object(&palettes[i]));
        i = i + 1;
    }
    let name: &str = if current_palette < palettes.len() {
        palettes[current_palette].name
    } else {
        ""
    };
    proof {
        lemma_array_view(list);
        assert(Json::Array(list)@->Array_0 =~= palettes@.map_values(
            |p: PaletteView| palette_json(p),
        ));
        lemma_object_view(settings);
    }
    let mut m: Vec<(String, Json)> = Vec::new();
    m.push(member_pair("ok", Json::Bool(true)));
    m.push(member_pair("running", Json::Bool(true)));
    m.push(member_pair("showing", Json::Bool(showing)));
    m.push(member_pair("palettes", Json::Array(list)));
    m.push(member_pair("palette_index", Json::Number(Num::PosInt(current_palette as u64))));
    m.push(member_pair("palette_name", string_value(name)));
    m.push(member_pair("settings", Json::Object(settings)));
    proof {
        lemma_object_view(m);
        assert(members_view(m@) =~= status_view(
            members_view(settings@),
            palettes@,
            current_palette,
            showing,
        )->Object_0);
    }
    to_text(&Json::Object(m))
}

/// A document with `key` set to `value`: the member replaced where it
/// stands, or added at the end when there is none, as `serde_json::Map::insert`
/// does with `preserve_order`.
pub open spec fn with_member(
    doc: Seq<(Seq<char>, JsonView)>,
    key: Seq<char>,
    value: JsonView,
) -> Seq<(Seq<char>, JsonView)> {
    if has_key(doc, key) {
        doc.update(choose|i: int| first_key(doc, key, i), (key, value))
    } else {
        doc.push((key, value))
    }
}

/// A document with each setting written into it in turn.
pub open spec fn with_members(
    doc: Seq<(Seq<char>, JsonView)>,
    settings: Seq<(Seq<char>, JsonView)>,
) -> Seq<(Seq<char>, JsonView)>
    decreases settings.len(),
{
    if settings.len() == 0 {
        doc
    } else {
        with_member(
            with_members(doc, settings.drop_last()),
            settings.last().0,
            settings.last().1,
        )
    }
}

/// The members of the config file as it stands: none when there is no file,
/// or when it is not a JSON object.
pub open spec fn document_of(existing: Option<Seq<char>>) -> Seq<(Seq<char>, JsonView)> {
    match existing {
        Some(text) => match json_parse(text) {
            Ok(JsonView::Object(m)) => m,
            _ => Seq::empty(),
        },
        None => Seq::empty(),
    }
}

/// Where a key is among some members, there is a first place it is.
pub proof fn lemma_first_key_exists(entries: Seq<(Seq<char>, JsonView)>, key: Seq<char>)
    requires
        has_key(entries, key),
    ensures
        exists|i: int| first_key(entries, key, i),
    decreases entries.len(),
{
    let last = entries.len() - 1;
    if has_key(entries.drop_last(), key) {
        lemma_first_key_exists(entries.drop_last(), key);
        let i = choose|i: int| first_key(entries.drop_last(), key, i);
        assert forall|j: int| 0 <= j <= i implies (#[trigger] entries[j]).0 == entries.drop_last()[j].0 by {
        }
        assert(first_key(entries, key, i));
    } else {
        assert forall|j: int| 0 <= j < last implies (#[trigger] entries[j]).0 != key by {
            assert(entries.drop_last()[j] == entries[j]);
        }
        assert(first_key(entries, key, last));
    }
}

/// The member a key names is the one at its first place.
pub proof fn lemma_member_at(entries: Seq<(Seq<char>, JsonView)>, key: Seq<char>, i: int)
    requires
        first_key(entries, key, i),
    ensures
        member(JsonView::Object(entries), key) == Some(entries[i].1),
{
    assert(has_key(entries, key));
    let k = choose|k: int| first_key(entries, key, k);
    lemma_first_key_unique(entries, key, i, k);
}

proof fn lemma_same_keys_same_member(
    a: Seq<(Seq<char>, JsonView)>,
    b: Seq<(Seq<char>, JsonView)>,
    key: Seq<char>,
    i: int,
)
    requires
        a.len() <= b.len(),
        forall|j: int| 0 <= j < a.len() ==> (#[trigger] a[j]).0 == b[j].0,
        first_key(a, key, i),
    ensures
        first_key(b, key, i),
{
    assert forall|j: int| 0 <= j < i implies (#[trigger] b[j]).0 != key by {
        assert(a[j].0 == b[j].0);
    }
}

/// Setting a key makes its member the new value.
pub proof fn lemma_with_member_sets(
    doc: Seq<(Seq<char>, JsonView)>,
    key: Seq<char>,
    value: JsonView,
)
    ensures
        member(JsonView::Object(with_member(doc, key, value)), key) == Some(value),
        with_member(doc, key, value).len() >= doc.len(),
        forall|j: int|
            0 <= j < doc.len() ==> (#[trigger] with_member(doc, key, value)[j]).0 == doc[j].0,
{
    let w = with_member(doc, key, value);
    if has_key(doc, key) {
        lemma_first_key_exists(doc, key);
        let i = choose|i: int| first_key(doc, key, i);
        lemma_same_keys_same_member(doc, w, key, i);
        lemma_member_at(w, key, i);
    } else {
        assert forall|j: int| 0 <= j < doc.len() implies (#[trigger] w[j]).0 != key by {
            assert(w[j] == doc[j]);
            if doc[j].0 == key {
                assert(has_key(doc, key));
            }
        }
        assert(first_key(w, key, doc.len() as int));
        lemma_member_at(w, key, doc.len() as int);
    }
}

/// Setting a key leaves every other key's member as it was.
pub proof fn lemma_with_member_keeps_others(
    doc: Seq<(Seq<char>, JsonView)>,
    key: Seq<char>,
    value: JsonView,
    other: Seq<char>,
)
    requires
        other != key,
    ensures
        member(JsonView::Object(with_member(doc, key, value)), other) == member(
            JsonView::Object(doc),
            other,
        ),
{
    let w = with_member(doc, key, value);
    lemma_with_member_sets(doc, key, value);
    if has_key(doc, key) {
        lemma_first_key_exists(doc, key);
    }
    if has_key(doc, other) {
        lemma_first_key_exists(doc, other);
        let c = choose|c: int| first_key(doc, other, c);
        lemma_same_keys_same_member(doc, w, other, c);
        if has_key(doc, key) {
            lemma_first_key_exists(doc, key);
            let i = choose|i: int| first_key(doc, key, i);
            assert(i != c);
            assert(w[c] == doc[c]);
        } else {
            assert(w[c] == doc[c]);
        }
        lemma_member_at(w, other, c);
        lemma_member_at(doc, other, c);
    } else {
        assert forall|j: int| 0 <= j < w.len() implies (#[trigger] w[j]).0 != other by {
            if j < doc.len() {
                assert(w[j].0 == doc[j].0);
                if doc[j].0 == other {
                    assert(has_key(doc, other));
                }
            } else {
                assert(has_key(doc, key) ==> w.len() == doc.len());
                assert(w[j] == (key, value));
            }
        }
        if has_key(w, other) {
            let j = choose|j: int| 0 <= j < w.len() && (#[trigger] w[j]).0 == other;
            assert(w[j].0 != other);
        }
    }
}

/// Writing settings into the config file keeps every member of the file
/// whose key is not among them, and keeps the file's keys where they stood,
/// in order: the file is hand-edited and may carry keys a future version
/// added, so writing one setting must not delete or reorder the rest.
pub proof fn law_merge_keeps_the_rest(
    doc: Seq<(Seq<char>, JsonView)>,
    settings: Seq<(Seq<char>, JsonView)>,
    key: Seq<char>,
)
    ensures
        !has_key(settings, key) ==> member(
            JsonView::Object(with_members(doc, settings)),
            key,
        ) == member(JsonView::Object(doc), key),
        with_members(doc, settings).len() >= doc.len(),
        forall|j: int|
            0 <= j < doc.len() ==> (#[trigger] with_members(doc, settings)[j]).0 == doc[j].0,
    decreases settings.len(),
{
    if settings.len() > 0 {
        let rest = settings.drop_last();
        law_merge_keeps_the_rest(doc, rest, key);
        let inner = with_members(doc, rest);
        lemma_with_member_sets(inner, settings.last().0, settings.last().1);
        if !has_key(settings, key) {
            if has_key(rest, key) {
                let j = choose|j: int| 0 <= j < rest.len() && (#[trigger] rest[j]).0 == key;
                assert(settings[j] == rest[j]);
            }
            assert(settings[settings.len() - 1].0 != key);
            lemma_with_member_keeps_others(inner, settings.last().0, settings.last().1, key);
        }
        let w = with_members(doc, settings);
        assert forall|j: int| 0 <= j < doc.len() implies (#[trigger] w[j]).0 == doc[j].0 by {
            assert(inner[j].0 == doc[j].0);
            assert(w[j].0 == inner[j].0);
        }
    }
}

/// After the settings are written, a key among them holds the value of its
/// last occurrence in them.
pub proof fn law_merge_writes_each_setting(
    doc: Seq<(Seq<char>, JsonView)>,
    settings: Seq<(Seq<char>, JsonView)>,
    i: int,
)
    requires
        0 <= i < settings.len(),
        forall|j: int| i < j < settings.len() ==> (#[trigger] settings[j]).0 != settings[i].0,
    ensures
        member(JsonView::Object(with_members(doc, settings)), settings[i].0) == Some(
            settings[i].1,
        ),
    decreases settings.len(),
{
    let rest = settings.drop_last();
    let last = settings.len() - 1;
    let inner = with_members(doc, rest);
    if i == last {
        lemma_with_member_sets(inner, settings.last().0, settings.last().1);
    } else {
        assert forall|j: int| i < j < rest.len() implies (#[trigger] rest[j]).0 != rest[i].0 by {
            assert(rest[j] == settings[j]);
        }
        law_merge_writes_each_setting(doc, rest, i);
        assert(rest[i] == settings[i]);
        assert(settings[last].0 != settings[i].0);
        lemma_with_member_keeps_others(inner, settings.last().0, settings.last().1, settings[i].0);
    }
}

/// Sets one member of a document, in place.
fn set_member(doc: &mut Vec<(String, Json)>, key: String, value: Json)
    ensures
        members_view(final(doc)@) == with_member(members_view(old(doc)@), key@, value@),
{
    let ghost mv = members_view(doc@);
    let mut i: usize = 0;
    while i < doc.len()
        invariant
            i <= doc@.len(),
            mv == members_view(doc@),
            mv == members_view(old(doc)@),
            forall|j: int| 0 <= j < i ==> (#[trigger] mv[j]).0 != key@,
        decreases doc.len() - i,
    {
        if same_text(doc[i].0.as_str(), key.as_str()) {
            proof {
                assert(first_key(mv, key@, i as int));
                assert(has_key(mv, key@));
                let k = choose|k: int| first_key(mv, key@, k);
                lemma_first_key_unique(mv, key@, i as int, k);
            }
            doc.set(i, (key, value));
            proof {
                assert(members_view(doc@) =~= with_member(mv, key@, value@));
            }
            return;
        }
        i = i + 1;
    }
    proof {
        if has_key(mv, key@) {
            let j = choose|j: int| 0 <= j < mv.len() && (#[trigger] mv[j]).0 == key@;
            assert(mv[j].0 != key@);
        }
    }
    doc.push((key, value));
    proof {
        assert(members_view(doc@) =~= with_member(mv, key@, value@));
    }
}

/// The config document with the settings written into it, each in turn.
pub fn merge_settings(document: Vec<(String, Json)>, settings: &Vec<(String, Json)>) -> (merged:
    Vec<(String, Json)>)
    ensures
        members_view(merged@) == with_members(members_view(document@), members_view(settings@)),
{
    let ghost dv = members_view(document@);
    let ghost sv = members_view(settings@);
    let mut out = document;
    let mut i: usize = 0;
    assert(sv.take(0) =~= Seq::<(Seq<char>, JsonView)>::empty());
    while i < settings.len()
        invariant
            i <= settings@.len(),
            sv == members_view(settings@),
            members_view(out@) == with_members(dv, sv.take(i as int)),
        decreases settings.len() - i,
    {
        proof {
            assert(sv.take(i + 1).drop_last() =~= sv.take(i as int));
        }
        set_member(&mut out, settings[i].0.clone(), settings[i].1.clone());
        i = i + 1;
    }
    assert(sv.take(settings.len() as int) =~= sv);
    out
}

/// The new text of the config file: the file as it stands (`None` when there
/// is none), with the changed settings written into it and everything else
/// left as the user left it, pretty-printed with a final newline. A file that
/// is not a JSON object counts as empty.
pub fn merged_config_text(existing: Option<&str>, settings: &Vec<(String, Json)>) -> (text:
    String)
    ensures
        text@ == json_pretty(
            JsonView::Object(with_members(document_of(opt_view(existing)), members_view(settings@))),
        ) + "\n"@,
        plain(
            JsonView::Object(with_members(document_of(opt_view(existing)), members_view(settings@))),
            nesting_limit(),
        ) ==> reads_back(
            text@,
            JsonView::Object(with_members(document_of(opt_view(existing)), members_view(settings@))),
        ),
{
    let document: Vec<(String, Json)> = match existing {
        Some(t) => match parse(t) {
            Ok(Json::Object(m)) => {
                proof {
                    lemma_object_view(m);
                }
                m
            },
            _ => Vec::new(),
        },
        None => Vec::new(),
    };
    assert(members_view(document@) == document_of(opt_view(existing)));
    let merged = merge_settings(document, settings);
    proof {
        lemma_object_view(merged);
    }
    let mut out = to_pretty_text(&Json::Object(merged));
    out.append("\n");
    out
}

/// The reply to a request that succeeded with nothing more to say.
pub fn ok_json() -> (s: String)
    ensures
        s@ == json_text(JsonView::Object(seq![("ok"@, JsonView::Bool(true))])),
{
    to_text(&object1("ok", Json::Bool(true)))
}

/// The reply to a reload that found problems: `{"ok":true,"warnings":[…]}`.
pub fn warnings_json(warnings: &Vec<String>) -> (s: String)
    ensures
        s@ == json_text(
            JsonView::Object(
                seq![
                    ("ok"@, JsonView::Bool(true)),
                    ("warnings"@, strings_json(warnings@.map_values(|w: String| w@))),
                ],
            ),
        ),
{
    let mut items: Vec<Json> = Vec::new();
    let mut i: usize = 0;
    while i < warnings.len()
        invariant
            i <= warnings@.len(),
            items@.len() == i,
            forall|k: int| 0 <= k < i ==> (#[trigger] items@[k])@ == JsonView::Str(warnings@[k]@),
        decreases warnings.len() - i,
    {
        items.push(string_value(warnings[i].as_str()));
        i = i + 1;
    }
    proof {
        lemma_array_view(items);
        assert(Json::Array(items)@->Array_0 =~= warnings@.map_values(|w: String| w@).map_values(
            |t: Seq<char>| JsonView::Str(t),
        ));
    }
    to_text(&object2("ok", Json::Bool(true), "warnings", Json::Array(items)))
}

/// The reply when a change is live but could not be written down, which is
/// worth saying but not worth undoing.
pub fn unsaved_json(error: &str) -> (s: String)
    ensures
        s@ == json_text(
            JsonView::Object(
                seq![
                    ("ok"@, JsonView::Bool(true)),
                    ("warning"@, JsonView::Str("applied, but not saved: "@ + error@)),
                ],
            ),
        ),
{
    let mut w = "applied, but not saved: ".to_owned();
    w.append(error);
    to_text(&object2("ok", Json::Bool(true), "warning", Json::Str(w)))
}

/// The reply to a request for a palette that does not exist.
pub fn no_palette_json(name: &str) -> (s: String)
    ensures
        s@ == json_text(
            JsonView::Object(
                seq![
                    ("ok"@, JsonView::Bool(false)),
                    ("error"@, JsonView::Str("no palette called "@ + debug_text(name@))),
                ],
            ),
        ),
{
    let mut m = "no palette called ".to_owned();
    let q = debug_quoted(name);
    m.append(q.as_str());
    error_json(m.as_str())
}

/// The warnings, one after another, separated by `"; "`.
pub open spec fn joined_warnings(w: Seq<Seq<char>>) -> Seq<char>
    decreases w.len(),
{
    if w.len() == 0 {
        Seq::empty()
    } else if w.len() == 1 {
        w[0]
    } else {
        joined_warnings(w.drop_last()) + "; "@ + w.last()
    }
}

/// `warnings.join("; ")`: the reason a change is refused, when the settings it
/// would make are not ones the config file would accept.
pub fn join_warnings(warnings: &Vec<String>) -> (s: String)
    ensures
        s@ == joined_warnings(warnings@.map_values(|w: String| w@)),
{
    let ghost wv = warnings@.map_values(|w: String| w@);
    let mut s = String::new();
    let mut i: usize = 0;
    while i < warnings.len()
        invariant
            i <= warnings@.len(),
            wv == warnings@.map_values(|w: String| w@),
            s@ == joined_warnings(wv.take(i as int)),
        decreases warnings.len() - i,
    {
        proof {
            assert(wv.take(i + 1).drop_last() =~= wv.take(i as int));
        }
        if i > 0 {
            s.append("; ");
        }
        s.append(warnings[i].as_str());
        proof {
            if i == 0 {
                assert(s@ =~= wv.take(1)[0]);
            }
        }
        i = i + 1;
    }
    assert(wv.take(warnings.len() as int) =~= wv);
    s
}

/// One line read from the control socket: the request it makes, or the reply
/// that refuses it. White space around the line is ignored.
pub fn request_or_reply(line: &str) -> (r: Result<Request, String>)
    ensures
        match r {
            Ok(q) => request_of(trimmed(line@)) == Ok::<RequestView, Seq<char>>(q@),
            Err(reply) => request_of(trimmed(line@)) matches Err(e) && reply@ == json_text(
                JsonView::Object(
                    seq![("ok"@, JsonView::Bool(false)), ("error"@, JsonView::Str(e))],
                ),
            ),
        },
{
    match Request::parse(trim(line)) {
        Ok(q) => Ok(q),
        Err(e) => Err(error_json(e.as_str())),
    }
}

/// Every setting the config reader understands can be set from the command
/// line: for a key that some value decodes to anything but an unknown
/// setting, the coercion never answers that the setting is unknown, whatever
/// the string; a named setting takes its string as it stands.
pub proof fn law_every_read_setting_can_be_set(key: Seq<char>, v: JsonView, raw: Seq<char>)
    requires
        !(decode(key, v) is Unknown),
    ensures
        coerced(key, raw) != Err::<JsonView, Seq<char>>("unknown setting "@ + debug_text(key)),
        named_key(key) ==> coerced(key, raw) == Ok::<JsonView, Seq<char>>(JsonView::Str(raw)),
        coerced(key, raw) matches Err(e) ==> e == refusal(key, "true or false"@, raw) || e
            == refusal(key, "a whole number"@, raw) || e == refusal(key, "a number"@, raw),
{
    reveal_strlit("enabled");
    reveal_strlit("hide_in_fullscreen");
    reveal_strlit("hide_while_dragging");
    reveal_strlit("flare_on_return");
    reveal_strlit("band_width");
    reveal_strlit("motion_speed");
    reveal_strlit("turbulence");
    reveal_strlit("idle_behavior");
    reveal_strlit("frame_rate");
    reveal_strlit("debug_mode");
    reveal_strlit("idle_intensity");
    reveal_strlit("flare_duration");
    reveal_strlit("palette_interval");
    reveal_strlit("idle_threshold");
    reveal_strlit("exclusions");
    reveal_strlit("disabled_palettes");
    reveal_strlit("unknown setting ");
    let u = "unknown setting "@ + debug_text(key);
    assert(u[0] == 'u');
    assert(key.len() > 0 && key[0] != 'u');
    if coerced(key, raw) is Err {
        let e = coerced(key, raw)->Err_0;
        assert(e[0] == key[0]);
    }
}

/// A value coerced from the command line is one the config reader knows
/// what to do with: never an unknown setting, and a switch or a list is
/// always taken as it stands. So `set key value` can never write a member the
/// config file would silently ignore.
pub proof fn law_coerced_values_are_understood(key: Seq<char>, raw: Seq<char>)
    ensures
        coerced(key, raw) matches Ok(v) ==> !(decode(key, v) is Unknown),
        (flag_key(key) || list_key(key)) && coerced(key, raw) is Ok ==> decode(
            key,
            coerced(key, raw)->Ok_0,
        ) is Apply,
{
    if list_key(key) {
        reveal_strlit("enabled");
        reveal_strlit("hide_in_fullscreen");
        reveal_strlit("hide_while_dragging");
        reveal_strlit("flare_on_return");
        reveal_strlit("band_width");
        reveal_strlit("motion_speed");
        reveal_strlit("turbulence");
        reveal_strlit("idle_behavior");
        reveal_strlit("frame_rate");
        reveal_strlit("debug_mode");
        reveal_strlit("idle_intensity");
        reveal_strlit("flare_duration");
        reveal_strlit("palette_interval");
        reveal_strlit("idle_threshold");
        reveal_strlit("exclusions");
        reveal_strlit("disabled_palettes");
        assert("enabled"@.len() == 7);
        assert("hide_in_fullscreen"@.len() == 18);
        assert("hide_while_dragging"@.len() == 19);
        assert("flare_on_return"@.len() == 15);
        assert("band_width"@.len() == 10);
        assert("motion_speed"@.len() == 12);
        assert("turbulence"@.len() == 10);
        assert("idle_behavior"@.len() == 13);
        assert("frame_rate"@.len() == 10);
        assert("debug_mode"@.len() == 10);
        assert("idle_intensity"@.len() == 14);
        assert("flare_duration"@.len() == 14);
        assert("palette_interval"@.len() == 16);
        assert("idle_threshold"@.len() == 14);
        assert("exclusions"@.len() == 10);
        assert("disabled_palettes"@.len() == 17);
        assert("exclusions"@[0] != "band_width"@[0] && "exclusions"@[0] != "turbulence"@[0]);
        assert("exclusions"@[0] != "frame_rate"@[0] && "exclusions"@[0] != "debug_mode"@[0]);
        let a = listed(raw).map_values(|t: Seq<char>| JsonView::Str(t));
        assert forall|i: int| 0 <= i < a.len() implies (#[trigger] a[i]) is Str by {}
    }
}

/// What `toggle` asks for, given a status reply: the ring's switch flipped.
/// `None` when the reply does not say whether the ring is on.
pub open spec fn toggle_of(status: JsonView) -> Option<RequestView> {
    match bool_of(at(at(status, "settings"@), "enabled"@)) {
        Some(on) => Some(RequestView::Change(seq![("enabled"@, JsonView::Bool(!on))])),
        None => None,
    }
}

/// The request that turns the ring off when the status says it is on, and
/// on when it says it is off.
pub fn toggle_request(status: &Json) -> (r: Option<Request>)
    ensures
        match r {
            Some(q) => toggle_of(status@) == Some(q@),
            None => toggle_of(status@) is None,
        },
{
    let settings = match status.get("settings") {
        Some(s) => s,
        None => {
            assert(at(status@, "settings"@) == JsonView::Null);
            return None;
        },
    };
    match settings.get("enabled") {
        Some(e) => match e.as_bool() {
            Some(on) => {
                let m: Vec<(String, Json)> = vec![("enabled".to_owned(), Json::Bool(!on))];
                assert(members_view(m@) =~= seq![("enabled"@, JsonView::Bool(!on))]);
                Some(Request::Change(m))
            },
            None => None,
        },
        None => None,
    }
}

/// What `set KEY VALUE` sends for each setting the config file knows: a
/// switch takes `true`, `on`, `yes` or `1` and `false`, `off`, `no` or `0`;
/// a named choice is sent as written, for the config reader to judge; a
/// frame rate or debug mode is a whole number as `str::parse::<u64>` reads
/// it; the four measured settings take any number; a list is the
/// comma-separated names, trimmed, empty ones dropped. Any other key is
/// refused as unknown, naming it.
pub proof fn law_each_setting_is_coerced_as_it_is_read(key: Seq<char>, raw: Seq<char>)
    ensures
        coerced("enabled"@, raw) == if raw == "true"@ || raw == "on"@ || raw == "yes"@ || raw == "1"@ {
            Ok::<JsonView, Seq<char>>(JsonView::Bool(true))
        } else if raw == "false"@ || raw == "off"@ || raw == "no"@ || raw == "0"@ {
            Ok::<JsonView, Seq<char>>(JsonView::Bool(false))
        } else {
            Err::<JsonView, Seq<char>>(refusal("enabled"@, "true or false"@, raw))
        },
        coerced("hide_in_fullscreen"@, raw) == if raw == "true"@ || raw == "on"@ || raw == "yes"@ || raw == "1"@ {
            Ok::<JsonView, Seq<char>>(JsonView::Bool(true))
        } else if raw == "false"@ || raw == "off"@ || raw == "no"@ || raw == "0"@ {
            Ok::<JsonView, Seq<char>>(JsonView::Bool(false))
        } else {
            Err::<JsonView, Seq<char>>(refusal("hide_in_fullscreen"@, "true or false"@, raw))
        },
        coerced("hide_while_dragging"@, raw) == if raw == "true"@ || raw == "on"@ || raw == "yes"@ || raw == "1"@ {
            Ok::<JsonView, Seq<char>>(JsonView::Bool(true))
        } else if raw == "false"@ || raw == "off"@ || raw == "no"@ || raw == "0"@ {
            Ok::<JsonView, Seq<char>>(JsonView::Bool(false))
        } else {
            Err::<JsonView, Seq<char>>(refusal("hide_while_dragging"@, "true or false"@, raw))
        },
        coerced("flare_on_return"@, raw) == if raw == "true"@ || raw == "on"@ || raw == "yes"@ || raw == "1"@ {
            Ok::<JsonView, Seq<char>>(JsonView::Bool(true))
        } else if raw == "false"@ || raw == "off"@ || raw == "no"@ || raw == "0"@ {
            Ok::<JsonView, Seq<char>>(JsonView::Bool(false))
        } else {
            Err::<JsonView, Seq<char>>(refusal("flare_on_return"@, "true or false"@, raw))
        },
        coerced("band_width"@, raw) == Ok::<JsonView, Seq<char>>(JsonView::Str(raw)),
        coerced("motion_speed"@, raw) == Ok::<JsonView, Seq<char>>(JsonView::Str(raw)),
        coerced("turbulence"@, raw) == Ok::<JsonView, Seq<char>>(JsonView::Str(raw)),
        coerced("idle_behavior"@, raw) == Ok::<JsonView, Seq<char>>(JsonView::Str(raw)),
        coerced("frame_rate"@, raw) == match parsed_u64(raw) {
            Some(n) => Ok::<JsonView, Seq<char>>(JsonView::Number(Num::PosInt(n))),
            None => Err::<JsonView, Seq<char>>(refusal("frame_rate"@, "a whole number"@, raw)),
        },
        coerced("debug_mode"@, raw) == match parsed_u64(raw) {
            Some(n) => Ok::<JsonView, Seq<char>>(JsonView::Number(Num::PosInt(n))),
            None => Err::<JsonView, Seq<char>>(refusal("debug_mode"@, "a whole number"@, raw)),
        },
        coerced("idle_intensity"@, raw) == match json_decimal(raw) {
            Some(j) => Ok::<JsonView, Seq<char>>(j),
            None => Err::<JsonView, Seq<char>>(refusal("idle_intensity"@, "a number"@, raw)),
        },
        coerced("flare_duration"@, raw) == match json_decimal(raw) {
            Some(j) => Ok::<JsonView, Seq<char>>(j),
            None => Err::<JsonView, Seq<char>>(refusal("flare_duration"@, "a number"@, raw)),
        },
        coerced("palette_interval"@, raw) == match json_decimal(raw) {
            Some(j) => Ok::<JsonView, Seq<char>>(j),
            None => Err::<JsonView, Seq<char>>(refusal("palette_interval"@, "a number"@, raw)),
        },
        coerced("idle_threshold"@, raw) == match json_decimal(raw) {
            Some(j) => Ok::<JsonView, Seq<char>>(j),
            None => Err::<JsonView, Seq<char>>(refusal("idle_threshold"@, "a number"@, raw)),
        },
        coerced("exclusions"@, raw) == Ok::<JsonView, Seq<char>>(
            JsonView::Array(listed(raw).map_values(|t: Seq<char>| JsonView::Str(t))),
        ),
        coerced("disabled_palettes"@, raw) == Ok::<JsonView, Seq<char>>(
            JsonView::Array(listed(raw).map_values(|t: Seq<char>| JsonView::Str(t))),
        ),
        key != "enabled"@ && key != "hide_in_fullscreen"@ && key != "hide_while_dragging"@ && key != "flare_on_return"@ && key != "band_width"@ && key != "motion_speed"@ && key != "turbulence"@ && key != "idle_behavior"@ && key != "frame_rate"@ && key != "debug_mode"@ && key != "idle_intensity"@ && key != "flare_duration"@ && key != "palette_interval"@ && key != "idle_threshold"@ && key != "exclusions"@ && key != "disabled_palettes"@ ==> coerced(key, raw) == Err::<JsonView, Seq<char>>(
            "unknown setting "@ + debug_text(key),
        ),
{
    reveal_strlit("enabled");
    reveal_strlit("hide_in_fullscreen");
    reveal_strlit("hide_while_dragging");
    reveal_strlit("flare_on_return");
    reveal_strlit("band_width");
    reveal_strlit("motion_speed");
    reveal_strlit("turbulence");
    reveal_strlit("idle_behavior");
    reveal_strlit("frame_rate");
    reveal_strlit("debug_mode");
    reveal_strlit("idle_intensity");
    reveal_strlit("flare_duration");
    reveal_strlit("palette_interval");
    reveal_strlit("idle_threshold");
    reveal_strlit("exclusions");
    reveal_strlit("disabled_palettes");
    reveal_strlit("true");
    reveal_strlit("on");
    reveal_strlit("yes");
    reveal_strlit("1");
    reveal_strlit("false");
    reveal_strlit("off");
    reveal_strlit("no");
    reveal_strlit("0");
    law_coerced_values_are_understood(key, raw);
    assert("enabled"@.len() == 7);
    assert("hide_in_fullscreen"@.len() == 18);
    assert("hide_while_dragging"@.len() == 19);
    assert("flare_on_return"@.len() == 15);
    assert("band_width"@.len() == 10);
    assert("motion_speed"@.len() == 12);
    assert("turbulence"@.len() == 10);
    assert("idle_behavior"@.len() == 13);
    assert("frame_rate"@.len() == 10);
    assert("debug_mode"@.len() == 10);
    assert("idle_intensity"@.len() == 14);
    assert("flare_duration"@.len() == 14);
    assert("palette_interval"@.len() == 16);
    assert("idle_threshold"@.len() == 14);
    assert("exclusions"@.len() == 10);
    assert("disabled_palettes"@.len() == 17);
    assert("band_width"@[0] != "turbulence"@[0] && "band_width"@[0] != "frame_rate"@[0]);
    assert("band_width"@[0] != "debug_mode"@[0] && "band_width"@[0] != "exclusions"@[0]);
    assert("turbulence"@[0] != "frame_rate"@[0] && "turbulence"@[0] != "debug_mode"@[0]);
    assert("turbulence"@[0] != "exclusions"@[0] && "frame_rate"@[0] != "debug_mode"@[0]);
    assert("frame_rate"@[0] != "exclusions"@[0] && "debug_mode"@[0] != "exclusions"@[0]);
    assert("idle_intensity"@[0] != "flare_duration"@[0]);
    assert("idle_threshold"@[0] != "flare_duration"@[0]);
    assert("idle_intensity"@[5] != "idle_threshold"@[5]);
}

} // verus!
