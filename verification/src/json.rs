//! JSON documents, as this program reads and writes them.
//!
//! Text is turned into a [`Json`] value, and back, by `serde_json`; everything
//! the program decides from a document works on [`Json`] itself, whose
//! accessors mean what `serde_json::Value`'s do.

use vstd::prelude::*;

use crate::text::same_text;

verus! {

#[verifier::external_type_specification]
#[verifier::external_body]
pub struct ExNumber(serde_json::Number);

#[verifier::external_type_specification]
#[verifier::external_body]
pub struct ExValue(serde_json::Value);

/// `serde_json::Number`'s `Clone` is derived: the copy is the same number.
pub assume_specification[ <serde_json::Number as Clone>::clone ](n: &serde_json::Number) -> (r:
    serde_json::Number)
    ensures
        r == *n,
;

/// A JSON number, as `serde_json` holds it: a non-negative integer, a negative
/// one, or a finite float, which is carried through unread.
#[derive(Debug, PartialEq)]
pub enum Num {
    PosInt(u64),
    /// Always less than zero.
    NegInt(i64),
    Float(serde_json::Number),
}

impl Clone for Num {
    fn clone(&self) -> (r: Self)
        ensures
            r == *self,
    {
        match self {
            Num::PosInt(u) => Num::PosInt(*u),
            Num::NegInt(i) => Num::NegInt(*i),
            Num::Float(n) => Num::Float(n.clone()),
        }
    }
}

/// A JSON value. Object members keep the order the document gave them, as
/// `serde_json` does with `preserve_order`.
#[derive(Debug, PartialEq)]
pub enum Json {
    Null,
    Bool(bool),
    Number(Num),
    Str(String),
    Array(Vec<Json>),
    Object(Vec<(String, Json)>),
}

/// A [`Json`] value with its text as characters.
pub enum JsonView {
    Null,
    Bool(bool),
    Number(Num),
    Str(Seq<char>),
    Array(Seq<JsonView>),
    Object(Seq<(Seq<char>, JsonView)>),
}

impl View for Json {
    type V = JsonView;

    open spec fn view(&self) -> JsonView
        decreases self,
    {
        match self {
            Json::Null => JsonView::Null,
            Json::Bool(b) => JsonView::Bool(*b),
            Json::Number(n) => JsonView::Number(*n),
            Json::Str(s) => JsonView::Str(s@),
            Json::Array(a) => JsonView::Array(
                Seq::new(
                    a.len() as nat,
                    |i: int|
                        if 0 <= i < a.len() {
                            a@[i].view()
                        } else {
                            JsonView::Null
                        },
                ),
            ),
            Json::Object(m) => JsonView::Object(
                Seq::new(
                    m.len() as nat,
                    |i: int|
                        if 0 <= i < m.len() {
                            (m[i].0@, m[i].1.view())
                        } else {
                            (Seq::empty(), JsonView::Null)
                        },
                ),
            ),
        }
    }
}

impl Clone for Json {
    fn clone(&self) -> (r: Self)
        ensures
            r@ == self@,
    {
        copy_json(self)
    }
}

/// A copy of `j`, member by member.
fn copy_json(j: &Json) -> (r: Json)
    ensures
        r@ == j@,
    decreases j,
{
    proof {
        reveal_with_fuel(<Json as View>::view, 2);
    }
    match j {
            Json::Null => Json::Null,
            Json::Bool(b) => Json::Bool(*b),
            Json::Number(n) => Json::Number(n.clone()),
            Json::Str(s) => Json::Str(s.clone()),
            Json::Array(a) => {
                let mut out: Vec<Json> = Vec::new();
                let mut i: usize = 0;
                while i < a.len()
                    invariant
                        i <= a@.len(),
                        *j == Json::Array(*a),
                        out@.len() == i,
                        forall|k: int| 0 <= k < i ==> (#[trigger] out@[k])@ == a@[k]@,
                    decreases a.len() - i,
                {
                    proof {
                        assert(decreases_to!(*j => (*j)->Array_0));
                        assert(decreases_to!(*a => a[i as int]));
                    }
                    let c = copy_json(&a[i]);
                    out.push(c);
                    i = i + 1;
                }
                let r = Json::Array(out);
                let ghost rv = r@->Array_0;
                let ghost sv = j@->Array_0;
                assert(rv.len() == sv.len());
                assert forall|k: int| 0 <= k < rv.len() implies rv[k] == sv[k] by {
                    assert(out@[k]@ == a@[k]@);
                }
                assert(rv =~= sv);
                r
            },
            Json::Object(m) => {
                let mut out: Vec<(String, Json)> = Vec::new();
                let mut i: usize = 0;
                while i < m.len()
                    invariant
                        i <= m@.len(),
                        *j == Json::Object(*m),
                        out@.len() == i,
                        forall|k: int|
                            0 <= k < i ==> (#[trigger] out@[k]).0@ == m@[k].0@ && out@[k].1@
                                == m@[k].1@,
                    decreases m.len() - i,
                {
                    proof {
                        assert(decreases_to!(*j => (*j)->Object_0));
                        assert(decreases_to!(*m => m[i as int]));
                        assert(decreases_to!(m[i as int] => m[i as int].1));
                    }
                    let v = copy_json(&m[i].1);
                    let k = m[i].0.clone();
                    out.push((k, v));
                    i = i + 1;
                }
                let r = Json::Object(out);
                let ghost rv = r@->Object_0;
                let ghost sv = j@->Object_0;
                assert(rv.len() == sv.len());
                assert forall|k: int| 0 <= k < rv.len() implies rv[k] == sv[k] by {
                    assert(out@[k].0@ == m@[k].0@ && out@[k].1@ == m@[k].1@);
                }
                assert(rv =~= sv);
                r
            },
    }
}

/// What `serde_json::from_str::<Value>` makes of `text`: the document, or the
/// text of its error.
pub uninterp spec fn json_parse(text: Seq<char>) -> Result<JsonView, Seq<char>>;

/// What `serde_json::to_string` writes for a value.
pub uninterp spec fn json_text(value: JsonView) -> Seq<char>;

/// What `serde_json::to_string_pretty` writes for a value.
pub uninterp spec fn json_pretty(value: JsonView) -> Seq<char>;

/// What `serde_json::json!` makes of the `f64` that `str::parse` reads from
/// `raw`: `None` when `raw` is not a float, `null` for an infinite one.
pub uninterp spec fn json_decimal(raw: Seq<char>) -> Option<JsonView>;

/// `serde_json::Value` into a [`Json`], variant for variant.
#[verifier::external_body]
fn from_value(v: serde_json::Value) -> Json {
    match v {
        serde_json::Value::Null => Json::Null,
        serde_json::Value::Bool(b) => Json::Bool(b),
        serde_json::Value::Number(n) => Json::Number(num_from(n)),
        serde_json::Value::String(s) => Json::Str(s),
        serde_json::Value::Array(a) => Json::Array(a.into_iter().map(from_value).collect()),
        serde_json::Value::Object(m) => Json::Object(
            m.into_iter().map(|(k, v)| (k, from_value(v))).collect(),
        ),
    }
}

/// `serde_json::Number` into a [`Num`], by the number's own kind.
#[verifier::external_body]
fn num_from(n: serde_json::Number) -> Num {
    match (n.as_u64(), n.as_i64()) {
        (Some(u), _) => Num::PosInt(u),
        (None, Some(i)) => Num::NegInt(i),
        (None, None) => Num::Float(n),
    }
}

/// A [`Json`] into `serde_json::Value`, variant for variant.
#[verifier::external_body]
fn to_value(j: &Json) -> serde_json::Value {
    match j {
        Json::Null => serde_json::Value::Null,
        Json::Bool(b) => serde_json::Value::Bool(*b),
        Json::Number(n) => serde_json::Value::Number(number_of(n)),
        Json::Str(s) => serde_json::Value::String(s.clone()),
        Json::Array(a) => serde_json::Value::Array(a.iter().map(to_value).collect()),
        Json::Object(m) => serde_json::Value::Object(
            m.iter().map(|(k, v)| (k.clone(), to_value(v))).collect(),
        ),
    }
}

/// A [`Num`] into `serde_json::Number`, kind for kind.
#[verifier::external_body]
fn number_of(n: &Num) -> serde_json::Number {
    match n {
        Num::PosInt(u) => (*u).into(),
        Num::NegInt(i) => (*i).into(),
        Num::Float(f) => f.clone(),
    }
}

/// `serde_json::from_str::<serde_json::Value>`: the document, or the text of
/// `serde_json::Error`'s `Display`. The contract claims only that the outcome is
/// a function of the text.
#[verifier::external_body]
pub fn parse(text: &str) -> (r: Result<Json, String>)
    ensures
        match r {
            Ok(j) => json_parse(text@) == Ok::<JsonView, Seq<char>>(j@),
            Err(e) => json_parse(text@) == Err::<JsonView, Seq<char>>(e@),
        },
{
    serde_json::from_str::<serde_json::Value>(text).map(from_value).map_err(|e| e.to_string())
}

/// No key twice among an object's members.
pub open spec fn keys_distinct(entries: Seq<(Seq<char>, JsonView)>) -> bool {
    forall|i: int, j: int| 0 <= i < j < entries.len() ==> entries[i].0 != entries[j].0
}

/// A value that comes back unchanged from its own text: no float anywhere (a
/// float is parsed back to the nearest value `serde_json` finds, which need not
/// be the same one), every negative integer below zero, no key twice in an
/// object, and no more than `depth` containers nested in one another.
pub open spec fn plain(v: JsonView, depth: nat) -> bool
    decreases depth,
{
    match v {
        JsonView::Number(Num::Float(_)) => false,
        JsonView::Number(Num::NegInt(i)) => i < 0,
        JsonView::Array(a) => depth > 0 && forall|i: int|
            0 <= i < a.len() ==> plain(#[trigger] a[i], (depth - 1) as nat),
        JsonView::Object(m) => depth > 0 && keys_distinct(m) && forall|i: int|
            0 <= i < m.len() ==> plain(#[trigger] m[i].1, (depth - 1) as nat),
        _ => true,
    }
}

/// How many containers `serde_json` reads nested in one another before it
/// refuses a document.
pub open spec fn nesting_limit() -> nat {
    127
}

/// `text` parses to exactly `v`.
pub open spec fn reads_back(text: Seq<char>, v: JsonView) -> bool {
    json_parse(text) == Ok::<JsonView, Seq<char>>(v)
}

/// `serde_json::to_string` of a value, compact. Serializing a value cannot
/// fail, so there is no error to report. The contract claims that the text
/// is a function of the value and that `serde_json::from_str` reads a plain
/// value back from it unchanged: integers are written in full, strings with
/// every escape the reader undoes, and members in order.
#[verifier::external_body]
pub fn to_text(value: &Json) -> (s: String)
    ensures
        s@ == json_text(value@),
        plain(value@, nesting_limit()) ==> reads_back(s@, value@),
{
    serde_json::to_string(&to_value(value)).unwrap_or_default()
}

/// `serde_json::to_string_pretty` of a value. The contract claims that the
/// text is a function of the value and, as for `to_text`, that
/// `serde_json::from_str` reads a plain value back from it unchanged: the
/// pretty writer puts out the same tokens with white space between them, which
/// the reader skips, a line break after the value included.
#[verifier::external_body]
pub fn to_pretty_text(value: &Json) -> (s: String)
    ensures
        s@ == json_pretty(value@),
        plain(value@, nesting_limit()) ==> reads_back(s@, value@),
        plain(value@, nesting_limit()) ==> reads_back(s@ + "\n"@, value@),
{
    serde_json::to_string_pretty(&to_value(value)).unwrap_or_default()
}

/// `str::parse::<f64>` of `raw`, made a JSON value as `serde_json::json!` makes
/// one from an `f64`. A parsed value is always a float or `null`.
#[verifier::external_body]
pub fn decimal(raw: &str) -> (r: Option<Json>)
    ensures
        match r {
            Some(j) => json_decimal(raw@) == Some(j@),
            None => json_decimal(raw@) is None,
        },
        r matches Some(j) ==> (j is Null || j matches Json::Number(Num::Float(_))),
{
    raw.parse().ok().map(|f| match serde_json::Number::from_f64(f) {
        Some(n) => Json::Number(Num::Float(n)),
        None => Json::Null,
    })
}

/// `i` is the first member of `entries` named `key`.
pub open spec fn first_key(entries: Seq<(Seq<char>, JsonView)>, key: Seq<char>, i: int) -> bool {
    &&& 0 <= i < entries.len()
    &&& entries[i].0 == key
    &&& forall|j: int| 0 <= j < i ==> (#[trigger] entries[j]).0 != key
}

pub open spec fn has_key(entries: Seq<(Seq<char>, JsonView)>, key: Seq<char>) -> bool {
    exists|i: int| 0 <= i < entries.len() && (#[trigger] entries[i]).0 == key
}

/// The member `key` of an object: `None` when there is none, or when `v` is
/// not an object at all. What `Value::get` returns.
pub open spec fn member(v: JsonView, key: Seq<char>) -> Option<JsonView> {
    match v {
        JsonView::Object(entries) => if has_key(entries, key) {
            Some(entries[choose|i: int| first_key(entries, key, i)].1)
        } else {
            None
        },
        _ => None,
    }
}

/// `v[key]`: the member, or `null` when there is none.
pub open spec fn at(v: JsonView, key: Seq<char>) -> JsonView {
    match member(v, key) {
        Some(m) => m,
        None => JsonView::Null,
    }
}

/// `v[i]`: element `i` of an array, or `null` when there is none.
pub open spec fn item(v: JsonView, i: int) -> JsonView {
    match v {
        JsonView::Array(a) => if 0 <= i < a.len() {
            a[i]
        } else {
            JsonView::Null
        },
        _ => JsonView::Null,
    }
}

/// `Value::as_str`.
pub open spec fn str_of(v: JsonView) -> Option<Seq<char>> {
    match v {
        JsonView::Str(s) => Some(s),
        _ => None,
    }
}

/// `Value::as_bool`.
pub open spec fn bool_of(v: JsonView) -> Option<bool> {
    match v {
        JsonView::Bool(b) => Some(b),
        _ => None,
    }
}

/// `Value::as_u64`: only a non-negative integer has one.
pub open spec fn u64_of(v: JsonView) -> Option<u64> {
    match v {
        JsonView::Number(Num::PosInt(u)) => Some(u),
        _ => None,
    }
}

/// `Value::as_i64`: an integer that fits.
pub open spec fn i64_of(v: JsonView) -> Option<i64> {
    match v {
        JsonView::Number(Num::PosInt(u)) => if u <= i64::MAX {
            Some(u as i64)
        } else {
            None
        },
        JsonView::Number(Num::NegInt(i)) => Some(i),
        _ => None,
    }
}

pub proof fn lemma_first_key_unique(
    entries: Seq<(Seq<char>, JsonView)>,
    key: Seq<char>,
    i: int,
    k: int,
)
    requires
        first_key(entries, key, i),
        first_key(entries, key, k),
    ensures
        i == k,
{
    if i < k {
        assert(entries[i].0 != key);
    } else if k < i {
        assert(entries[k].0 != key);
    }
}

/// The members of an object as seen through the view.
pub open spec fn members_view(entries: Seq<(String, Json)>) -> Seq<(Seq<char>, JsonView)> {
    Seq::new(entries.len(), |i: int| (entries[i].0@, entries[i].1@))
}

/// An object's view is the view of its members, in order.
pub proof fn lemma_object_view(entries: Vec<(String, Json)>)
    ensures
        Json::Object(entries)@ == JsonView::Object(members_view(entries@)),
{
    reveal_with_fuel(<Json as View>::view, 2);
    assert(Json::Object(entries)@->Object_0 =~= members_view(entries@));
}

/// An array's view is the view of its elements, in order.
pub proof fn lemma_array_view(a: Vec<Json>)
    ensures
        Json::Array(a)@ is Array,
        Json::Array(a)@->Array_0.len() == a@.len(),
        forall|i: int| 0 <= i < a@.len() ==> Json::Array(a)@->Array_0[i] == (#[trigger] a@[i])@,
{
    reveal_with_fuel(<Json as View>::view, 2);
}

impl Json {
    /// `Value::get` with a string key.
    pub fn get(&self, key: &str) -> (r: Option<&Json>)
        ensures
            match r {
                Some(m) => member(self@, key@) == Some(m@),
                None => member(self@, key@) is None,
            },
    {
        match self {
            Json::Object(entries) => {
                proof {
                    lemma_object_view(*entries);
                    assert(*self == Json::Object(*entries));
                }
                let ghost mv = members_view(entries@);
                let mut i: usize = 0;
                while i < entries.len()
                    invariant
                        i <= entries@.len(),
                        mv == members_view(entries@),
                        self@ == JsonView::Object(mv),
                        forall|j: int| 0 <= j < i ==> (#[trigger] mv[j]).0 != key@,
                    decreases entries.len() - i,
                {
                    if same_text(entries[i].0.as_str(), key) {
                        proof {
                            assert(first_key(mv, key@, i as int));
                            assert(has_key(mv, key@));
                            let k = choose|k: int| first_key(mv, key@, k);
                            lemma_first_key_unique(mv, key@, i as int, k);
                        }
                        return Some(&entries[i].1);
                    }
                    i = i + 1;
                }
                None
            },
            _ => None,
        }
    }

    /// `Value::as_str`.
    pub fn as_str(&self) -> (r: Option<&str>)
        ensures
            match r {
                Some(s) => str_of(self@) == Some(s@),
                None => str_of(self@) is None,
            },
    {
        match self {
            Json::Str(s) => Some(s.as_str()),
            _ => None,
        }
    }

    /// `Value::as_bool`.
    pub fn as_bool(&self) -> (r: Option<bool>)
        ensures
            r == bool_of(self@),
    {
        match self {
            Json::Bool(b) => Some(*b),
            _ => None,
        }
    }

    /// `Value::as_u64`.
    pub fn as_u64(&self) -> (r: Option<u64>)
        ensures
            r == u64_of(self@),
    {
        match self {
            Json::Number(Num::PosInt(u)) => Some(*u),
            _ => None,
        }
    }

    /// `Value::as_i64`.
    pub fn as_i64(&self) -> (r: Option<i64>)
        ensures
            r == i64_of(self@),
    {
        match self {
            Json::Number(Num::PosInt(u)) => if *u <= i64::MAX as u64 {
                Some(*u as i64)
            } else {
                None
            },
            Json::Number(Num::NegInt(i)) => Some(*i),
            _ => None,
        }
    }

    /// `Value::is_object`.
    pub fn is_object(&self) -> (r: bool)
        ensures
            r == (self@ is Object),
    {
        match self {
            Json::Object(_) => true,
            _ => false,
        }
    }

    /// `Value::as_array`.
    pub fn as_array(&self) -> (r: Option<&Vec<Json>>)
        ensures
            match r {
                Some(a) => self@ is Array && self@->Array_0.len() == a@.len() && forall|i: int|
                    0 <= i < a@.len() ==> self@->Array_0[i] == (#[trigger] a@[i])@,
                None => !(self@ is Array),
            },
    {
        match self {
            Json::Array(a) => {
                proof {
                    lemma_array_view(*a);
                }
                Some(a)
            },
            _ => None,
        }
    }

    /// `Value::as_object`, as the members in order.
    pub fn as_object(&self) -> (r: Option<&Vec<(String, Json)>>)
        ensures
            match r {
                Some(m) => self@ == JsonView::Object(members_view(m@)),
                None => !(self@ is Object),
            },
    {
        match self {
            Json::Object(m) => {
                proof {
                    lemma_object_view(*m);
                }
                Some(m)
            },
            _ => None,
        }
    }
}

/// `v[key]` as a string.
pub fn str_at<'a>(v: &'a Json, key: &str) -> (r: Option<&'a str>)
    ensures
        match r {
            Some(s) => str_of(at(v@, key@)) == Some(s@),
            None => str_of(at(v@, key@)) is None,
        },
{
    match v.get(key) {
        Some(m) => m.as_str(),
        None => None,
    }
}

/// `v[key].as_i64()`.
pub fn i64_at(v: &Json, key: &str) -> (r: Option<i64>)
    ensures
        r == i64_of(at(v@, key@)),
{
    match v.get(key) {
        Some(m) => m.as_i64(),
        None => None,
    }
}

/// `v[key].as_u64()`.
pub fn u64_at(v: &Json, key: &str) -> (r: Option<u64>)
    ensures
        r == u64_of(at(v@, key@)),
{
    match v.get(key) {
        Some(m) => m.as_u64(),
        None => None,
    }
}

/// `v[key][i].as_i64()`.
pub fn i64_at_item(v: &Json, key: &str, i: usize) -> (r: Option<i64>)
    ensures
        r == i64_of(item(at(v@, key@), i as int)),
{
    match v.get(key) {
        Some(m) => match m.as_array() {
            Some(a) => if i < a.len() {
                a[i].as_i64()
            } else {
                None
            },
            None => None,
        },
        None => None,
    }
}

/// A JSON string value.
pub fn string_value(s: &str) -> (j: Json)
    ensures
        j@ == JsonView::Str(s@),
{
    Json::Str(s.to_owned())
}

} // verus!
