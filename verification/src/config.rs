//! Settings: what each one may be, what a config file says of them, and
//! where the files live.
//!
//! A config file is read key by key. Unknown keys are ignored and a malformed
//! value costs only its own setting: a typo in one setting must not cost the
//! user every other one, and must never stop the ring appearing.

use vstd::prelude::*;

use crate::json::{
    at, json_parse, json_text, lemma_array_view, lemma_object_view, members_view, parse, to_text,
    u64_at, u64_of, Json, JsonView, Num,
};
use crate::text::{joined, path_join, same_text};

verus! {

// ---------------------------------------------------------------------------
// Enumerated settings
// ---------------------------------------------------------------------------

/// How far the band reaches either side of the window edge.
#[derive(Clone, Copy, Debug, PartialEq, Eq, Structural)]
pub enum BandWidth {
    Thin,
    Normal,
    Thick,
}

/// How fast the light travels around the ring. Every value is far below any
/// rate that could read as flicker.
#[derive(Clone, Copy, Debug, PartialEq, Eq, Structural)]
pub enum MotionSpeed {
    Calm,
    Normal,
    Lively,
}

/// How many distinct features there are around the ring: low values give
/// broad slow swells, high values fine churn.
#[derive(Clone, Copy, Debug, PartialEq, Eq, Structural)]
pub enum Turbulence {
    Smooth,
    Normal,
    Churny,
}

/// What happens after `idle_threshold` seconds with no input.
///
/// The default is `Freeze`, not `FadeOut`: the ring still marks the focused
/// window when you walk back to the machine and look before touching
/// anything, which is the case this program exists for.
#[derive(Clone, Copy, Debug, PartialEq, Eq, Structural)]
pub enum IdleBehavior {
    /// Never stop. Costs the most power.
    AlwaysAnimate,
    /// Stop animating, keep the ring visible.
    Freeze,
    /// Stop animating and hide the ring entirely.
    FadeOut,
}

impl Default for BandWidth {
    fn default() -> (b: Self)
        ensures
            b == BandWidth::Normal,
    {
        BandWidth::Normal
    }
}

impl Default for MotionSpeed {
    fn default() -> (m: Self)
        ensures
            m == MotionSpeed::Normal,
    {
        MotionSpeed::Normal
    }
}

impl Default for Turbulence {
    fn default() -> (t: Self)
        ensures
            t == Turbulence::Normal,
    {
        Turbulence::Normal
    }
}

impl Default for IdleBehavior {
    fn default() -> (i: Self)
        ensures
            i == IdleBehavior::Freeze,
    {
        IdleBehavior::Freeze
    }
}

pub open spec fn band_width_named(s: Seq<char>) -> Option<BandWidth> {
    if s == "thin"@ {
        Some(BandWidth::Thin)
    } else if s == "normal"@ {
        Some(BandWidth::Normal)
    } else if s == "thick"@ {
        Some(BandWidth::Thick)
    } else {
        None
    }
}

pub open spec fn band_width_name(b: BandWidth) -> Seq<char> {
    match b {
        BandWidth::Thin => "thin"@,
        BandWidth::Normal => "normal"@,
        BandWidth::Thick => "thick"@,
    }
}

pub open spec fn motion_speed_named(s: Seq<char>) -> Option<MotionSpeed> {
    if s == "calm"@ {
        Some(MotionSpeed::Calm)
    } else if s == "normal"@ {
        Some(MotionSpeed::Normal)
    } else if s == "lively"@ {
        Some(MotionSpeed::Lively)
    } else {
        None
    }
}

pub open spec fn motion_speed_name(m: MotionSpeed) -> Seq<char> {
    match m {
        MotionSpeed::Calm => "calm"@,
        MotionSpeed::Normal => "normal"@,
        MotionSpeed::Lively => "lively"@,
    }
}

pub open spec fn turbulence_named(s: Seq<char>) -> Option<Turbulence> {
    if s == "smooth"@ {
        Some(Turbulence::Smooth)
    } else if s == "normal"@ {
        Some(Turbulence::Normal)
    } else if s == "churny"@ {
        Some(Turbulence::Churny)
    } else {
        None
    }
}

pub open spec fn turbulence_name(t: Turbulence) -> Seq<char> {
    match t {
        Turbulence::Smooth => "smooth"@,
        Turbulence::Normal => "normal"@,
        Turbulence::Churny => "churny"@,
    }
}

/// snake_case is the spelling written here; camelCase is accepted too, so
/// someone copying a value from a camelCase settings file is not punished.
pub open spec fn idle_behavior_named(s: Seq<char>) -> Option<IdleBehavior> {
    if s == "always_animate"@ || s == "alwaysAnimate"@ {
        Some(IdleBehavior::AlwaysAnimate)
    } else if s == "freeze"@ {
        Some(IdleBehavior::Freeze)
    } else if s == "fade_out"@ || s == "fadeOut"@ {
        Some(IdleBehavior::FadeOut)
    } else {
        None
    }
}

pub open spec fn idle_behavior_name(i: IdleBehavior) -> Seq<char> {
    match i {
        IdleBehavior::AlwaysAnimate => "always_animate"@,
        IdleBehavior::Freeze => "freeze"@,
        IdleBehavior::FadeOut => "fade_out"@,
    }
}

impl BandWidth {
    pub fn parse(s: &str) -> (b: Option<Self>)
        ensures
            b == band_width_named(s@),
    {
        if same_text(s, "thin") {
            Some(BandWidth::Thin)
        } else if same_text(s, "normal") {
            Some(BandWidth::Normal)
        } else if same_text(s, "thick") {
            Some(BandWidth::Thick)
        } else {
            None
        }
    }

    /// The name a config file and the status reply use.
    pub fn name(self) -> (s: &'static str)
        ensures
            s@ == band_width_name(self),
    {
        match self {
            BandWidth::Thin => "thin",
            BandWidth::Normal => "normal",
            BandWidth::Thick => "thick",
        }
    }
}

impl MotionSpeed {
    pub fn parse(s: &str) -> (m: Option<Self>)
        ensures
            m == motion_speed_named(s@),
    {
        if same_text(s, "calm") {
            Some(MotionSpeed::Calm)
        } else if same_text(s, "normal") {
            Some(MotionSpeed::Normal)
        } else if same_text(s, "lively") {
            Some(MotionSpeed::Lively)
        } else {
            None
        }
    }

    /// The name a config file and the status reply use.
    pub fn name(self) -> (s: &'static str)
        ensures
            s@ == motion_speed_name(self),
    {
        match self {
            MotionSpeed::Calm => "calm",
            MotionSpeed::Normal => "normal",
            MotionSpeed::Lively => "lively",
        }
    }
}

impl Turbulence {
    pub fn parse(s: &str) -> (t: Option<Self>)
        ensures
            t == turbulence_named(s@),
    {
        if same_text(s, "smooth") {
            Some(Turbulence::Smooth)
        } else if same_text(s, "normal") {
            Some(Turbulence::Normal)
        } else if same_text(s, "churny") {
            Some(Turbulence::Churny)
        } else {
            None
        }
    }

    /// The name a config file and the status reply use.
    pub fn name(self) -> (s: &'static str)
        ensures
            s@ == turbulence_name(self),
    {
        match self {
            Turbulence::Smooth => "smooth",
            Turbulence::Normal => "normal",
            Turbulence::Churny => "churny",
        }
    }
}

impl IdleBehavior {
    pub fn parse(s: &str) -> (i: Option<Self>)
        ensures
            i == idle_behavior_named(s@),
    {
        if same_text(s, "always_animate") || same_text(s, "alwaysAnimate") {
            Some(IdleBehavior::AlwaysAnimate)
        } else if same_text(s, "freeze") {
            Some(IdleBehavior::Freeze)
        } else if same_text(s, "fade_out") || same_text(s, "fadeOut") {
            Some(IdleBehavior::FadeOut)
        } else {
            None
        }
    }

    /// The name a config file and the status reply use.
    pub fn name(self) -> (s: &'static str)
        ensures
            s@ == idle_behavior_name(self),
    {
        match self {
            IdleBehavior::AlwaysAnimate => "always_animate",
            IdleBehavior::Freeze => "freeze",
            IdleBehavior::FadeOut => "fade_out",
        }
    }
}

// ---------------------------------------------------------------------------
// Reading a config file
// ---------------------------------------------------------------------------

/// A setting that is a number of fractional units or seconds. What its range
/// admits is decided where the value is used as a number; here it is only
/// read.
#[derive(Clone, Copy, Debug, PartialEq, Eq, Structural)]
pub enum Measured {
    /// Baseline brightness once the flare has settled, from 0 to 1.
    IdleIntensity,
    /// Seconds for the focus-change flare to relax, 0 or more.
    FlareDuration,
    /// Seconds between palette changes; 0 means never.
    PaletteInterval,
    /// Seconds of no input before the idle behaviour applies; 0 means never.
    IdleThreshold,
}

/// One setting with a value it accepts.
#[derive(Debug, PartialEq)]
pub enum Setting {
    Enabled(bool),
    BandWidth(BandWidth),
    MotionSpeed(MotionSpeed),
    Turbulence(Turbulence),
    /// Frames per second while animating, 1 to 240.
    FrameRate(u32),
    /// Palettes the rotation may not choose, by name.
    DisabledPalettes(Vec<String>),
    /// Window classes that never get a ring.
    Exclusions(Vec<String>),
    HideInFullscreen(bool),
    HideWhileDragging(bool),
    IdleBehavior(IdleBehavior),
    FlareOnReturn(bool),
    /// Renderer diagnostic, 0 to 2.
    DebugMode(u8),
}

/// What one `key: value` member of a config file comes to.
#[derive(Debug, PartialEq)]
pub enum Decoded {
    /// A value the setting accepts.
    Apply(Setting),
    /// A number for a [`Measured`] setting, whose range is checked where it is
    /// used as a number.
    Measure(Measured, Num),
    /// The value is not one the setting accepts; the warning says so.
    Rejected(String),
    /// Not a setting at all. Ignored, silently: a config written by a newer
    /// version must not make an older one shout on every line it adds.
    Unknown,
}

pub enum SettingView {
    Enabled(bool),
    BandWidth(BandWidth),
    MotionSpeed(MotionSpeed),
    Turbulence(Turbulence),
    FrameRate(u32),
    DisabledPalettes(Seq<Seq<char>>),
    Exclusions(Seq<Seq<char>>),
    HideInFullscreen(bool),
    HideWhileDragging(bool),
    IdleBehavior(IdleBehavior),
    FlareOnReturn(bool),
    DebugMode(u8),
}

pub enum DecodedView {
    Apply(SettingView),
    Measure(Measured, Num),
    Rejected(Seq<char>),
    Unknown,
}

pub open spec fn strings_view(v: Seq<String>) -> Seq<Seq<char>> {
    v.map_values(|s: String| s@)
}

impl View for Setting {
    type V = SettingView;

    open spec fn view(&self) -> SettingView {
        match self {
            Setting::Enabled(b) => SettingView::Enabled(*b),
            Setting::BandWidth(b) => SettingView::BandWidth(*b),
            Setting::MotionSpeed(m) => SettingView::MotionSpeed(*m),
            Setting::Turbulence(t) => SettingView::Turbulence(*t),
            Setting::FrameRate(n) => SettingView::FrameRate(*n),
            Setting::DisabledPalettes(l) => SettingView::DisabledPalettes(strings_view(l@)),
            Setting::Exclusions(l) => SettingView::Exclusions(strings_view(l@)),
            Setting::HideInFullscreen(b) => SettingView::HideInFullscreen(*b),
            Setting::HideWhileDragging(b) => SettingView::HideWhileDragging(*b),
            Setting::IdleBehavior(i) => SettingView::IdleBehavior(*i),
            Setting::FlareOnReturn(b) => SettingView::FlareOnReturn(*b),
            Setting::DebugMode(d) => SettingView::DebugMode(*d),
        }
    }
}

impl View for Decoded {
    type V = DecodedView;

    open spec fn view(&self) -> DecodedView {
        match self {
            Decoded::Apply(s) => DecodedView::Apply(s@),
            Decoded::Measure(m, n) => DecodedView::Measure(*m, *n),
            Decoded::Rejected(w) => DecodedView::Rejected(w@),
            Decoded::Unknown => DecodedView::Unknown,
        }
    }
}

/// `"{key}: expected {expected}; keeping the default"`.
pub open spec fn warning_text(key: Seq<char>, expected: Seq<char>) -> Seq<char> {
    key + ": expected "@ + expected + "; keeping the default"@
}

pub fn warning(key: &str, expected: &str) -> (w: String)
    ensures
        w@ == warning_text(key@, expected@),
{
    let mut w = key.to_owned();
    w.append(": expected ");
    w.append(expected);
    w.append("; keeping the default");
    w
}

pub open spec fn measured_key(m: Measured) -> Seq<char> {
    match m {
        Measured::IdleIntensity => "idle_intensity"@,
        Measured::FlareDuration => "flare_duration"@,
        Measured::PaletteInterval => "palette_interval"@,
        Measured::IdleThreshold => "idle_threshold"@,
    }
}

/// What a [`Measured`] setting accepts, in the words of its warning.
pub open spec fn measured_expects(m: Measured) -> Seq<char> {
    match m {
        Measured::IdleIntensity => "a number from 0.0 to 1.0"@,
        Measured::FlareDuration => "a number of seconds, 0 or more"@,
        Measured::PaletteInterval => "seconds, or 0 to never rotate"@,
        Measured::IdleThreshold => "seconds, or 0 to never go idle"@,
    }
}

impl Measured {
    pub fn key(self) -> (k: &'static str)
        ensures
            k@ == measured_key(self),
    {
        match self {
            Measured::IdleIntensity => "idle_intensity",
            Measured::FlareDuration => "flare_duration",
            Measured::PaletteInterval => "palette_interval",
            Measured::IdleThreshold => "idle_threshold",
        }
    }

    pub fn expects(self) -> (e: &'static str)
        ensures
            e@ == measured_expects(self),
    {
        match self {
            Measured::IdleIntensity => "a number from 0.0 to 1.0",
            Measured::FlareDuration => "a number of seconds, 0 or more",
            Measured::PaletteInterval => "seconds, or 0 to never rotate",
            Measured::IdleThreshold => "seconds, or 0 to never go idle",
        }
    }

    /// The warning for a number outside the setting's range.
    pub fn warning(self) -> (w: String)
        ensures
            w@ == warning_text(measured_key(self), measured_expects(self)),
    {
        warning(self.key(), self.expects())
    }
}

/// Every element a string: the list, as text.
pub open spec fn string_list_of(v: JsonView) -> Option<Seq<Seq<char>>> {
    match v {
        JsonView::Array(a) => if forall|i: int| 0 <= i < a.len() ==> (#[trigger] a[i]) is Str {
            Some(a.map_values(|e: JsonView| e->Str_0))
        } else {
            None
        },
        _ => None,
    }
}

/// A list of strings, or `None` when `v` is not an array of strings only.
pub fn string_list(v: &Json) -> (l: Option<Vec<String>>)
    ensures
        match l {
            Some(l) => string_list_of(v@) == Some(strings_view(l@)),
            None => string_list_of(v@) is None,
        },
{
    let a = match v.as_array() {
        Some(a) => a,
        None => return None,
    };
    let ghost av = v@->Array_0;
    let mut out: Vec<String> = Vec::new();
    let mut i: usize = 0;
    while i < a.len()
        invariant
            i <= a@.len(),
            v@ == JsonView::Array(av),
            av.len() == a@.len(),
            forall|k: int| 0 <= k < a@.len() ==> av[k] == (#[trigger] a@[k])@,
            out@.len() == i,
            forall|k: int| 0 <= k < i ==> (#[trigger] av[k]) is Str,
            forall|k: int| 0 <= k < i ==> (#[trigger] out@[k])@ == av[k]->Str_0,
        decreases a.len() - i,
    {
        proof {
            assert(av[i as int] == a@[i as int]@);
        }
        match a[i].as_str() {
            Some(s) => {
                out.push(s.to_owned());
                assert(out@[i as int]@ == av[i as int]->Str_0);
            },
            None => {
                assert(!(av[i as int] is Str));
                return None;
            },
        }
        i = i + 1;
    }
    assert(forall|k: int| 0 <= k < av.len() ==> (#[trigger] av[k]) is Str);
    assert(strings_view(out@) =~= av.map_values(|e: JsonView| e->Str_0));
    Some(out)
}

/// What one member of a config file comes to.
pub open spec fn decode(key: Seq<char>, v: JsonView) -> DecodedView {
    let reject = |expected: Seq<char>| DecodedView::Rejected(warning_text(key, expected));
    if key == "enabled"@ || key == "hide_in_fullscreen"@ || key == "hide_while_dragging"@ || key
        == "flare_on_return"@ {
        match v {
            JsonView::Bool(b) => DecodedView::Apply(
                if key == "enabled"@ {
                    SettingView::Enabled(b)
                } else if key == "hide_in_fullscreen"@ {
                    SettingView::HideInFullscreen(b)
                } else if key == "hide_while_dragging"@ {
                    SettingView::HideWhileDragging(b)
                } else {
                    SettingView::FlareOnReturn(b)
                },
            ),
            _ => reject("true or false"@),
        }
    } else if key == "band_width"@ {
        match v {
            JsonView::Str(s) if band_width_named(s) is Some => DecodedView::Apply(
                SettingView::BandWidth(band_width_named(s)->0),
            ),
            _ => reject("thin, normal or thick"@),
        }
    } else if key == "motion_speed"@ {
        match v {
            JsonView::Str(s) if motion_speed_named(s) is Some => DecodedView::Apply(
                SettingView::MotionSpeed(motion_speed_named(s)->0),
            ),
            _ => reject("calm, normal or lively"@),
        }
    } else if key == "turbulence"@ {
        match v {
            JsonView::Str(s) if turbulence_named(s) is Some => DecodedView::Apply(
                SettingView::Turbulence(turbulence_named(s)->0),
            ),
            _ => reject("smooth, normal or churny"@),
        }
    } else if key == "idle_behavior"@ {
        match v {
            JsonView::Str(s) if idle_behavior_named(s) is Some => DecodedView::Apply(
                SettingView::IdleBehavior(idle_behavior_named(s)->0),
            ),
            _ => reject("always_animate, freeze or fade_out"@),
        }
    } else if key == "frame_rate"@ {
        match v {
            // 1 fps is a legitimate choice on a very slow machine; 240 is past
            // any display this runs on.
            JsonView::Number(Num::PosInt(n)) if 1 <= n <= 240 => DecodedView::Apply(
                SettingView::FrameRate(n as u32),
            ),
            _ => reject("a whole number from 1 to 240"@),
        }
    } else if key == "debug_mode"@ {
        match v {
            JsonView::Number(Num::PosInt(n)) if n <= 2 => DecodedView::Apply(
                SettingView::DebugMode(n as u8),
            ),
            _ => reject("0, 1 or 2"@),
        }
    } else if key == "disabled_palettes"@ {
        match string_list_of(v) {
            Some(l) => DecodedView::Apply(SettingView::DisabledPalettes(l)),
            None => reject("a list of palette names"@),
        }
    } else if key == "exclusions"@ {
        match string_list_of(v) {
            Some(l) => DecodedView::Apply(SettingView::Exclusions(l)),
            None => reject("a list of window classes"@),
        }
    } else if key == "idle_intensity"@ || key == "flare_duration"@ || key == "palette_interval"@
        || key == "idle_threshold"@ {
        let m = if key == "idle_intensity"@ {
            Measured::IdleIntensity
        } else if key == "flare_duration"@ {
            Measured::FlareDuration
        } else if key == "palette_interval"@ {
            Measured::PaletteInterval
        } else {
            Measured::IdleThreshold
        };
        match v {
            JsonView::Number(n) => DecodedView::Measure(m, n),
            _ => reject(measured_expects(m)),
        }
    } else {
        DecodedView::Unknown
    }
}

fn reject(key: &str, expected: &str) -> (d: Decoded)
    ensures
        d@ == DecodedView::Rejected(warning_text(key@, expected@)),
{
    Decoded::Rejected(warning(key, expected))
}

/// What one member of a config file comes to: the setting it sets, a number
/// whose range is checked where it is used, a warning, or nothing at all for
/// a key this version does not know.
pub fn decode_setting(key: &str, v: &Json) -> (d: Decoded)
    ensures
        d@ == decode(key@, v@),
{
    let is_enabled = same_text(key, "enabled");
    let is_fullscreen = same_text(key, "hide_in_fullscreen");
    let is_dragging = same_text(key, "hide_while_dragging");
    let is_return = same_text(key, "flare_on_return");
    if is_enabled || is_fullscreen || is_dragging || is_return {
        return match v.as_bool() {
            Some(b) => Decoded::Apply(
                if is_enabled {
                    Setting::Enabled(b)
                } else if is_fullscreen {
                    Setting::HideInFullscreen(b)
                } else if is_dragging {
                    Setting::HideWhileDragging(b)
                } else {
                    Setting::FlareOnReturn(b)
                },
            ),
            None => reject(key, "true or false"),
        };
    }
    if same_text(key, "band_width") {
        return match v.as_str() {
            Some(s) => match BandWidth::parse(s) {
                Some(b) => Decoded::Apply(Setting::BandWidth(b)),
                None => reject(key, "thin, normal or thick"),
            },
            None => reject(key, "thin, normal or thick"),
        };
    }
    if same_text(key, "motion_speed") {
        return match v.as_str() {
            Some(s) => match MotionSpeed::parse(s) {
                Some(m) => Decoded::Apply(Setting::MotionSpeed(m)),
                None => reject(key, "calm, normal or lively"),
            },
            None => reject(key, "calm, normal or lively"),
        };
    }
    if same_text(key, "turbulence") {
        return match v.as_str() {
            Some(s) => match Turbulence::parse(s) {
                Some(t) => Decoded::Apply(Setting::Turbulence(t)),
                None => reject(key, "smooth, normal or churny"),
            },
            None => reject(key, "smooth, normal or churny"),
        };
    }
    if same_text(key, "idle_behavior") {
        return match v.as_str() {
            Some(s) => match IdleBehavior::parse(s) {
                Some(i) => Decoded::Apply(Setting::IdleBehavior(i)),
                None => reject(key, "always_animate, freeze or fade_out"),
            },
            None => reject(key, "always_animate, freeze or fade_out"),
        };
    }
    if same_text(key, "frame_rate") {
        return match v.as_u64() {
            Some(n) => if 1 <= n && n <= 240 {
                Decoded::Apply(Setting::FrameRate(n as u32))
            } else {
                reject(key, "a whole number from 1 to 240")
            },
            None => reject(key, "a whole number from 1 to 240"),
        };
    }
    if same_text(key, "debug_mode") {
        return match v.as_u64() {
            Some(n) => if n <= 2 {
                Decoded::Apply(Setting::DebugMode(n as u8))
            } else {
                reject(key, "0, 1 or 2")
            },
            None => reject(key, "0, 1 or 2"),
        };
    }
    if same_text(key, "disabled_palettes") {
        return match string_list(v) {
            Some(l) => Decoded::Apply(Setting::DisabledPalettes(l)),
            None => reject(key, "a list of palette names"),
        };
    }
    if same_text(key, "exclusions") {
        return match string_list(v) {
            Some(l) => Decoded::Apply(Setting::Exclusions(l)),
            None => reject(key, "a list of window classes"),
        };
    }
    let measured = if same_text(key, "idle_intensity") {
        Some(Measured::IdleIntensity)
    } else if same_text(key, "flare_duration") {
        Some(Measured::FlareDuration)
    } else if same_text(key, "palette_interval") {
        Some(Measured::PaletteInterval)
    } else if same_text(key, "idle_threshold") {
        Some(Measured::IdleThreshold)
    } else {
        None
    };
    match measured {
        Some(m) => match v {
            Json::Number(n) => Decoded::Measure(m, n.clone()),
            _ => reject(key, m.expects()),
        },
        None => Decoded::Unknown,
    }
}

/// What a whole config file comes to, member by member in the file's order;
/// or, when the text is not a JSON object, the one warning that says so.
pub open spec fn decode_file(text: Seq<char>) -> Result<Seq<(Seq<char>, DecodedView)>, Seq<char>> {
    match json_parse(text) {
        Err(e) => Err("config is not valid JSON ("@ + e + "); using defaults"@),
        Ok(v) => decode_value(v),
    }
}

/// What a parsed config file comes to.
pub open spec fn decode_value(v: JsonView) -> Result<Seq<(Seq<char>, DecodedView)>, Seq<char>> {
    match v {
        JsonView::Object(entries) => Ok(
            entries.map_values(|m: (Seq<char>, JsonView)| (m.0, decode(m.0, m.1))),
        ),
        _ => Err("config must be a JSON object; using defaults"@),
    }
}

pub open spec fn decoded_view(d: Seq<(String, Decoded)>) -> Seq<(Seq<char>, DecodedView)> {
    d.map_values(|m: (String, Decoded)| (m.0@, m.1@))
}

/// Read a config file member by member.
///
/// Each member is decoded on its own, so one bad value costs only its own
/// setting; a text that is not a JSON object at all comes back as the warning
/// to give before using every default.
pub fn decode_settings(text: &str) -> (r: Result<Vec<(String, Decoded)>, String>)
    ensures
        match r {
            Ok(d) => decode_file(text@) == Ok::<Seq<(Seq<char>, DecodedView)>, Seq<char>>(
                decoded_view(d@),
            ),
            Err(w) => decode_file(text@) == Err::<Seq<(Seq<char>, DecodedView)>, Seq<char>>(w@),
        },
{
    match parse(text) {
        Ok(v) => decode_document(&v),
        Err(e) => {
            let mut w = "config is not valid JSON (".to_owned();
            w.append(e.as_str());
            w.append("); using defaults");
            Err(w)
        },
    }
}

/// A parsed config file, member by member in the file's order; or, when it is
/// not an object, the one warning that says so.
pub fn decode_document(value: &Json) -> (r: Result<Vec<(String, Decoded)>, String>)
    ensures
        match r {
            Ok(d) => decode_value(value@) == Ok::<Seq<(Seq<char>, DecodedView)>, Seq<char>>(
                decoded_view(d@),
            ),
            Err(w) => decode_value(value@) == Err::<Seq<(Seq<char>, DecodedView)>, Seq<char>>(w@),
        },
{
    let members = match value.as_object() {
        Some(m) => m,
        None => return Err("config must be a JSON object; using defaults".to_owned()),
    };
    let ghost mv = crate::json::members_view(members@);
    let mut out: Vec<(String, Decoded)> = Vec::new();
    let mut i: usize = 0;
    while i < members.len()
        invariant
            i <= members@.len(),
            mv == crate::json::members_view(members@),
            out@.len() == i,
            forall|k: int|
                0 <= k < i ==> (#[trigger] out@[k]).0@ == mv[k].0 && out@[k].1@ == decode(
                    mv[k].0,
                    mv[k].1,
                ),
        decreases members.len() - i,
    {
        let d = decode_setting(members[i].0.as_str(), &members[i].1);
        out.push((members[i].0.clone(), d));
        i = i + 1;
    }
    assert(decoded_view(out@) =~= mv.map_values(
        |m: (Seq<char>, JsonView)| (m.0, decode(m.0, m.1)),
    ));
    Ok(out)
}

proof fn lemma_setting_keys_differ()
    ensures
        "enabled"@.len() == 7,
        "hide_in_fullscreen"@.len() == 18,
        "hide_while_dragging"@.len() == 19,
        "flare_on_return"@.len() == 15,
        "band_width"@.len() == 10,
        "motion_speed"@.len() == 12,
        "turbulence"@.len() == 10,
        "idle_behavior"@.len() == 13,
        "frame_rate"@.len() == 10,
        "debug_mode"@.len() == 10,
        "disabled_palettes"@.len() == 17,
        "exclusions"@.len() == 10,
        "idle_intensity"@.len() == 14,
        "flare_duration"@.len() == 14,
        "palette_interval"@.len() == 16,
        "idle_threshold"@.len() == 14,
        "band_width"@[0] != "turbulence"@[0] && "band_width"@[0] != "frame_rate"@[0],
        "band_width"@[0] != "debug_mode"@[0] && "band_width"@[0] != "exclusions"@[0],
        "turbulence"@[0] != "frame_rate"@[0] && "turbulence"@[0] != "debug_mode"@[0],
        "turbulence"@[0] != "exclusions"@[0] && "frame_rate"@[0] != "debug_mode"@[0],
        "frame_rate"@[0] != "exclusions"@[0] && "debug_mode"@[0] != "exclusions"@[0],
        "idle_intensity"@[0] != "flare_duration"@[0],
        "idle_threshold"@[0] != "flare_duration"@[0],
        "idle_intensity"@[5] != "idle_threshold"@[5],
{
    reveal_strlit("enabled");
    reveal_strlit("hide_in_fullscreen");
    reveal_strlit("hide_while_dragging");
    reveal_strlit("flare_on_return");
    reveal_strlit("band_width");
    reveal_strlit("motion_speed");
    reveal_strlit("turbulence");
    reveal_strlit("idle_behavior");
    reveal_strlit("frame_rate");
    reveal_strlit("debug_mode");
    reveal_strlit("disabled_palettes");
    reveal_strlit("exclusions");
    reveal_strlit("idle_intensity");
    reveal_strlit("flare_duration");
    reveal_strlit("palette_interval");
    reveal_strlit("idle_threshold");
}

/// Each measured setting is read from its own key: a number under that key
/// is handed on as that setting's number and as no other's, and anything else
/// there is refused with that setting's warning. No two of them share a key.
pub proof fn law_measured_keys_name_their_setting(m: Measured, other: Measured, v: JsonView)
    ensures
        decode(measured_key(m), v) == match v {
            JsonView::Number(n) => DecodedView::Measure(m, n),
            _ => DecodedView::Rejected(warning_text(measured_key(m), measured_expects(m))),
        },
        measured_key(m) == measured_key(other) ==> m == other,
{
    lemma_setting_keys_differ();
}

/// Every setting a config file names sets that setting and no other, from a
/// value of the kind it takes: a switch from `true` or `false`, a named
/// choice from one of its names, a frame rate from 1 to 240, a debug mode up
/// to 2, a list from a list of names, and each of the four measured settings
/// from any number, handed on as that setting's number.
pub proof fn law_each_key_sets_its_own_setting(
    b: bool,
    s: Seq<char>,
    u: u64,
    n: Num,
    l: Seq<JsonView>,
)
    ensures
        decode("enabled"@, JsonView::Bool(b)) == DecodedView::Apply(SettingView::Enabled(b)),
        decode("hide_in_fullscreen"@, JsonView::Bool(b)) == DecodedView::Apply(
            SettingView::HideInFullscreen(b),
        ),
        decode("hide_while_dragging"@, JsonView::Bool(b)) == DecodedView::Apply(
            SettingView::HideWhileDragging(b),
        ),
        decode("flare_on_return"@, JsonView::Bool(b)) == DecodedView::Apply(
            SettingView::FlareOnReturn(b),
        ),
        band_width_named(s) matches Some(x) ==> decode("band_width"@, JsonView::Str(s))
            == DecodedView::Apply(SettingView::BandWidth(x)),
        motion_speed_named(s) matches Some(x) ==> decode("motion_speed"@, JsonView::Str(s))
            == DecodedView::Apply(SettingView::MotionSpeed(x)),
        turbulence_named(s) matches Some(x) ==> decode("turbulence"@, JsonView::Str(s))
            == DecodedView::Apply(SettingView::Turbulence(x)),
        idle_behavior_named(s) matches Some(x) ==> decode("idle_behavior"@, JsonView::Str(s))
            == DecodedView::Apply(SettingView::IdleBehavior(x)),
        1 <= u <= 240 ==> decode("frame_rate"@, JsonView::Number(Num::PosInt(u)))
            == DecodedView::Apply(SettingView::FrameRate(u as u32)),
        u <= 2 ==> decode("debug_mode"@, JsonView::Number(Num::PosInt(u))) == DecodedView::Apply(
            SettingView::DebugMode(u as u8),
        ),
        string_list_of(JsonView::Array(l)) matches Some(names) ==> decode(
            "exclusions"@,
            JsonView::Array(l),
        ) == DecodedView::Apply(SettingView::Exclusions(names)),
        string_list_of(JsonView::Array(l)) matches Some(names) ==> decode(
            "disabled_palettes"@,
            JsonView::Array(l),
        ) == DecodedView::Apply(SettingView::DisabledPalettes(names)),
        decode("idle_intensity"@, JsonView::Number(n)) == DecodedView::Measure(
            Measured::IdleIntensity,
            n,
        ),
        decode("flare_duration"@, JsonView::Number(n)) == DecodedView::Measure(
            Measured::FlareDuration,
            n,
        ),
        decode("palette_interval"@, JsonView::Number(n)) == DecodedView::Measure(
            Measured::PaletteInterval,
            n,
        ),
        decode("idle_threshold"@, JsonView::Number(n)) == DecodedView::Measure(
            Measured::IdleThreshold,
            n,
        ),
{
    lemma_setting_keys_differ();
}

/// Each member of a config file is decoded on its own: what one key's value
/// comes to depends on that key and value alone, so a bad value costs only
/// its own setting, and an unknown key is ignored without a word.
pub proof fn law_each_setting_decodes_alone(text: Seq<char>, i: int)
    requires
        json_parse(text) matches Ok(JsonView::Object(entries)) && 0 <= i < entries.len(),
    ensures
        decode_file(text) matches Ok(d) && d[i] == (
            json_parse(text)->Ok_0->Object_0[i].0,
            decode(json_parse(text)->Ok_0->Object_0[i].0, json_parse(text)->Ok_0->Object_0[i].1),
        ),
{
}

// ---------------------------------------------------------------------------
// Where the files live
// ---------------------------------------------------------------------------

// ---------------------------------------------------------------------------
// What the program remembers between runs
// ---------------------------------------------------------------------------

/// Where the palette rotation stood, so that restarting does not reset it:
/// without this, anyone who restarts often would see the first palette far
/// more than any other.
pub struct RotationMemory {
    pub index: usize,
    pub recent: Vec<usize>,
    /// When the palette last changed, as the number the file holds; `None`
    /// when it holds none.
    pub changed_at: Option<Num>,
}

/// The remembered time of the last change: `palette_changed_at` when it is a
/// number.
pub open spec fn memory_changed_at(v: JsonView) -> Option<Num> {
    match at(v, "palette_changed_at"@) {
        JsonView::Number(n) => Some(n),
        _ => None,
    }
}

/// The non-negative integers among some values, in order.
pub open spec fn whole_numbers(a: Seq<JsonView>) -> Seq<u64>
    decreases a.len(),
{
    if a.len() == 0 {
        Seq::empty()
    } else {
        let p = whole_numbers(a.drop_last());
        match u64_of(a.last()) {
            Some(u) => p.push(u),
            None => p,
        }
    }
}

/// The remembered palette: `palette_index`, or 0.
pub open spec fn memory_index(v: JsonView) -> usize {
    match u64_of(at(v, "palette_index"@)) {
        Some(u) => u as usize,
        None => 0,
    }
}

/// The remembered recent palettes: the whole numbers in `palette_recent`, or
/// none.
pub open spec fn memory_recent(v: JsonView) -> Seq<usize> {
    match at(v, "palette_recent"@) {
        JsonView::Array(a) => whole_numbers(a).map_values(|u: u64| u as usize),
        _ => Seq::empty(),
    }
}

/// What a parsed state file remembers; anything missing or malformed counts
/// as nothing remembered.
pub fn memory_from(value: &Json) -> (m: RotationMemory)
    ensures
        m.index == memory_index(value@),
        m.recent@ == memory_recent(value@),
        m.changed_at == memory_changed_at(value@),
{
    let index: usize = match u64_at(value, "palette_index") {
        Some(u) => u as usize,
        None => 0,
    };
    let mut recent: Vec<usize> = Vec::new();
    match value.get("palette_recent") {
        Some(r) => match r.as_array() {
            Some(a) => {
                let ghost av = r@->Array_0;
                let mut i: usize = 0;
                assert(av.take(0) =~= Seq::<JsonView>::empty());
                while i < a.len()
                    invariant
                        i <= a@.len(),
                        av.len() == a@.len(),
                        forall|k: int| 0 <= k < a@.len() ==> av[k] == (#[trigger] a@[k])@,
                        recent@ == whole_numbers(av.take(i as int)).map_values(|u: u64| u as usize),
                    decreases a.len() - i,
                {
                    proof {
                        assert(av.take(i + 1).drop_last() =~= av.take(i as int));
                        assert(av[i as int] == a@[i as int]@);
                    }
                    match a[i].as_u64() {
                        Some(u) => {
                            recent.push(u as usize);
                        },
                        None => {},
                    }
                    proof {
                        assert(recent@ =~= whole_numbers(av.take(i + 1)).map_values(
                            |u: u64| u as usize,
                        ));
                    }
                    i = i + 1;
                }
                assert(av.take(a.len() as int) =~= av);
            },
            None => {},
        },
        None => {},
    }
    let changed_at = match value.get("palette_changed_at") {
        Some(Json::Number(n)) => Some(n.clone()),
        _ => None,
    };
    RotationMemory { index, recent, changed_at }
}

/// What a state file remembers; a file that is not JSON remembers nothing.
pub fn read_memory(text: &str) -> (m: RotationMemory)
    ensures
        match json_parse(text@) {
            Ok(v) => m.index == memory_index(v) && m.recent@ == memory_recent(v) && m.changed_at
                == memory_changed_at(v),
            Err(_) => m.index == 0 && m.recent@ == Seq::<usize>::empty() && m.changed_at is None,
        },
{
    match parse(text) {
        Ok(v) => memory_from(&v),
        Err(_) => RotationMemory { index: 0, recent: Vec::new(), changed_at: None },
    }
}

/// The state file's text: the rotation, and `changed_at`, the time the
/// palette last changed, as the caller has it.
pub fn memory_text(index: usize, recent: &Vec<usize>, changed_at: Json) -> (s: String)
    ensures
        s@ == json_text(
            JsonView::Object(
                seq![
                    ("palette_index"@, JsonView::Number(Num::PosInt(index as u64))),
                    (
                        "palette_recent"@,
                        JsonView::Array(
                            recent@.map_values(|u: usize| JsonView::Number(Num::PosInt(u as u64))),
                        ),
                    ),
                    ("palette_changed_at"@, changed_at@),
                ],
            ),
        ),
{
    let mut items: Vec<Json> = Vec::new();
    let mut i: usize = 0;
    while i < recent.len()
        invariant
            i <= recent@.len(),
            items@.len() == i,
            forall|k: int|
                0 <= k < i ==> (#[trigger] items@[k])@ == JsonView::Number(
                    Num::PosInt(recent@[k] as u64),
                ),
        decreases recent.len() - i,
    {
        items.push(Json::Number(Num::PosInt(recent[i] as u64)));
        i = i + 1;
    }
    proof {
        lemma_array_view(items);
        assert(Json::Array(items)@->Array_0 =~= recent@.map_values(
            |u: usize| JsonView::Number(Num::PosInt(u as u64)),
        ));
    }
    let ghost cv = changed_at@;
    let mut m: Vec<(String, Json)> = Vec::new();
    m.push(("palette_index".to_owned(), Json::Number(Num::PosInt(index as u64))));
    m.push(("palette_recent".to_owned(), Json::Array(items)));
    m.push(("palette_changed_at".to_owned(), changed_at));
    proof {
        lemma_object_view(m);
        assert(members_view(m@)[2].1 == cv);
        assert(members_view(m@) =~= seq![
            ("palette_index"@, JsonView::Number(Num::PosInt(index as u64))),
            (
                "palette_recent"@,
                JsonView::Array(
                    recent@.map_values(|u: usize| JsonView::Number(Num::PosInt(u as u64))),
                ),
            ),
            ("palette_changed_at"@, cv),
        ]);
    }
    to_text(&Json::Object(m))
}

/// An XDG base directory: the variable when it is set and not empty, else
/// `fallback` under `HOME`, else nothing.
pub open spec fn xdg_dir(var: Option<Seq<char>>, home: Option<Seq<char>>, fallback: Seq<char>) -> Option<
    Seq<char>,
> {
    match var {
        Some(v) if v.len() > 0 => Some(v),
        _ => match home {
            Some(h) => Some(joined(h, fallback)),
            None => None,
        },
    }
}

pub open spec fn opt_view(s: Option<&str>) -> Option<Seq<char>> {
    match s {
        Some(s) => Some(s@),
        None => None,
    }
}

fn xdg_base(var: Option<&str>, home: Option<&str>, fallback: &str) -> (d: Option<String>)
    ensures
        match d {
            Some(d) => xdg_dir(opt_view(var), opt_view(home), fallback@) == Some(d@),
            None => xdg_dir(opt_view(var), opt_view(home), fallback@) is None,
        },
{
    match var {
        Some(v) if v.unicode_len() > 0 => Some(v.to_owned()),
        _ => match home {
            Some(h) => Some(path_join(h, fallback)),
            None => None,
        },
    }
}

/// `dir/nimbus/name`.
fn in_nimbus_dir(dir: Option<String>, name: &str) -> (p: Option<String>)
    ensures
        match dir {
            Some(d) => p matches Some(p) && p@ == joined(joined(d@, "nimbus"@), name@),
            None => p is None,
        },
{
    match dir {
        Some(d) => {
            let n = path_join(d.as_str(), "nimbus");
            Some(path_join(n.as_str(), name))
        },
        None => None,
    }
}

/// `$XDG_CONFIG_HOME/nimbus/config.json`, with `~/.config` standing in for an
/// unset or empty `XDG_CONFIG_HOME`.
pub fn config_path(xdg_config_home: Option<&str>, home: Option<&str>) -> (p: Option<String>)
    ensures
        match xdg_dir(opt_view(xdg_config_home), opt_view(home), ".config"@) {
            Some(d) => p matches Some(p) && p@ == joined(joined(d, "nimbus"@), "config.json"@),
            None => p is None,
        },
{
    in_nimbus_dir(xdg_base(xdg_config_home, home, ".config"), "config.json")
}

/// `$XDG_STATE_HOME/nimbus/state.json`, with `~/.local/state` standing in for
/// an unset or empty `XDG_STATE_HOME`.
pub fn state_path(xdg_state_home: Option<&str>, home: Option<&str>) -> (p: Option<String>)
    ensures
        match xdg_dir(opt_view(xdg_state_home), opt_view(home), ".local/state"@) {
            Some(d) => p matches Some(p) && p@ == joined(joined(d, "nimbus"@), "state.json"@),
            None => p is None,
        },
{
    in_nimbus_dir(xdg_base(xdg_state_home, home, ".local/state"), "state.json")
}

/// The names each choice is written with, in config files and on the
/// command line: `thin`, `normal`, `thick`; `calm`, `normal`, `lively`;
/// `smooth`, `normal`, `churny`; and `always_animate`, `freeze`, `fade_out`,
/// the last also read in its camelCase spelling.
pub proof fn law_choices_have_their_documented_names()
    ensures
        band_width_named("thin"@) == Some(BandWidth::Thin),
        band_width_named("normal"@) == Some(BandWidth::Normal),
        band_width_named("thick"@) == Some(BandWidth::Thick),
        motion_speed_named("calm"@) == Some(MotionSpeed::Calm),
        motion_speed_named("normal"@) == Some(MotionSpeed::Normal),
        motion_speed_named("lively"@) == Some(MotionSpeed::Lively),
        turbulence_named("smooth"@) == Some(Turbulence::Smooth),
        turbulence_named("normal"@) == Some(Turbulence::Normal),
        turbulence_named("churny"@) == Some(Turbulence::Churny),
        idle_behavior_named("always_animate"@) == Some(IdleBehavior::AlwaysAnimate),
        idle_behavior_named("alwaysAnimate"@) == Some(IdleBehavior::AlwaysAnimate),
        idle_behavior_named("freeze"@) == Some(IdleBehavior::Freeze),
        idle_behavior_named("fade_out"@) == Some(IdleBehavior::FadeOut),
        idle_behavior_named("fadeOut"@) == Some(IdleBehavior::FadeOut),
        band_width_name(BandWidth::Thin) == "thin"@,
        band_width_name(BandWidth::Normal) == "normal"@,
        band_width_name(BandWidth::Thick) == "thick"@,
        motion_speed_name(MotionSpeed::Calm) == "calm"@,
        motion_speed_name(MotionSpeed::Normal) == "normal"@,
        motion_speed_name(MotionSpeed::Lively) == "lively"@,
        turbulence_name(Turbulence::Smooth) == "smooth"@,
        turbulence_name(Turbulence::Normal) == "normal"@,
        turbulence_name(Turbulence::Churny) == "churny"@,
        idle_behavior_name(IdleBehavior::AlwaysAnimate) == "always_animate"@,
        idle_behavior_name(IdleBehavior::Freeze) == "freeze"@,
        idle_behavior_name(IdleBehavior::FadeOut) == "fade_out"@,
{
    reveal_strlit("thin");
    reveal_strlit("normal");
    reveal_strlit("thick");
    reveal_strlit("calm");
    reveal_strlit("lively");
    reveal_strlit("smooth");
    reveal_strlit("churny");
    reveal_strlit("always_animate");
    reveal_strlit("alwaysAnimate");
    reveal_strlit("freeze");
    reveal_strlit("fade_out");
    reveal_strlit("fadeOut");
    assert("thin"@.len() == 4);
    assert("normal"@.len() == 6);
    assert("thick"@.len() == 5);
    assert("calm"@.len() == 4);
    assert("lively"@.len() == 6);
    assert("smooth"@.len() == 6);
    assert("churny"@.len() == 6);
    assert("always_animate"@.len() == 14);
    assert("alwaysAnimate"@.len() == 13);
    assert("freeze"@.len() == 6);
    assert("fade_out"@.len() == 8);
    assert("fadeOut"@.len() == 7);
    assert("smooth"@[0] != "normal"@[0] && "lively"@[0] != "normal"@[0]);
    assert("churny"@[0] != "normal"@[0] && "churny"@[0] != "smooth"@[0]);
}

/// Every name parses back to the value it names.
pub proof fn law_names_parse_back(b: BandWidth, m: MotionSpeed, t: Turbulence, i: IdleBehavior)
    ensures
        band_width_named(band_width_name(b)) == Some(b),
        motion_speed_named(motion_speed_name(m)) == Some(m),
        turbulence_named(turbulence_name(t)) == Some(t),
        idle_behavior_named(idle_behavior_name(i)) == Some(i),
{
    reveal_strlit("thin");
    reveal_strlit("normal");
    reveal_strlit("thick");
    reveal_strlit("calm");
    reveal_strlit("lively");
    reveal_strlit("smooth");
    reveal_strlit("churny");
    reveal_strlit("always_animate");
    reveal_strlit("alwaysAnimate");
    reveal_strlit("freeze");
    reveal_strlit("fade_out");
    reveal_strlit("fadeOut");
    assert("thin"@.len() == 4 && "normal"@.len() == 6 && "thick"@.len() == 5);
    assert("calm"@.len() == 4 && "lively"@.len() == 6);
    assert("smooth"@.len() == 6 && "churny"@.len() == 6);
    assert("smooth"@[0] != "normal"@[0]);
    assert("always_animate"@.len() == 14 && "alwaysAnimate"@.len() == 13 && "freeze"@.len() == 6);
    assert("fade_out"@.len() == 8 && "fadeOut"@.len() == 7);
}

} // verus!
