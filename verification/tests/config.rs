//! Reading a config file, key by key, and what the program remembers.

use nimbus_wayland::config::{
    config_path, decode_document, decode_settings, memory_from, memory_text, read_memory,
    state_path, BandWidth, Decoded, IdleBehavior, Measured, MotionSpeed, Setting, Turbulence,
};
use nimbus_wayland::json::{parse, Json, Num};

fn decoded(text: &str) -> Vec<(String, Decoded)> {
    decode_settings(text).unwrap()
}

#[test]
fn settings_decode_member_by_member_in_file_order() {
    let d = decoded(
        r#"{
            "enabled": false,
            "idle_intensity": 0.5,
            "band_width": "thick",
            "motion_speed": "calm",
            "turbulence": "churny",
            "frame_rate": 20,
            "palette_interval": 0,
            "exclusions": ["mpv", "steam_app_0"],
            "hide_in_fullscreen": false
        }"#,
    );
    let keys: Vec<&str> = d.iter().map(|(k, _)| k.as_str()).collect();
    assert_eq!(
        keys,
        [
            "enabled", "idle_intensity", "band_width", "motion_speed", "turbulence",
            "frame_rate", "palette_interval", "exclusions", "hide_in_fullscreen"
        ]
    );
    assert_eq!(d[0].1, Decoded::Apply(Setting::Enabled(false)));
    assert_eq!(
        d[1].1,
        Decoded::Measure(
            Measured::IdleIntensity,
            Num::Float(serde_json::Number::from_f64(0.5).unwrap())
        )
    );
    assert_eq!(d[2].1, Decoded::Apply(Setting::BandWidth(BandWidth::Thick)));
    assert_eq!(d[3].1, Decoded::Apply(Setting::MotionSpeed(MotionSpeed::Calm)));
    assert_eq!(d[4].1, Decoded::Apply(Setting::Turbulence(Turbulence::Churny)));
    assert_eq!(d[5].1, Decoded::Apply(Setting::FrameRate(20)));
    assert_eq!(d[6].1, Decoded::Measure(Measured::PaletteInterval, Num::PosInt(0)));
    assert_eq!(
        d[7].1,
        Decoded::Apply(Setting::Exclusions(vec!["mpv".to_string(), "steam_app_0".to_string()]))
    );
    assert_eq!(d[8].1, Decoded::Apply(Setting::HideInFullscreen(false)));
}

/// One bad setting costs that setting alone, and says so.
#[test]
fn a_bad_value_is_rejected_with_its_own_warning() {
    let d = decoded(
        r#"{"band_width": "enormous", "frame_rate": 5000, "idle_intensity": "loud", "motion_speed": "lively"}"#,
    );
    assert_eq!(
        d[0].1,
        Decoded::Rejected("band_width: expected thin, normal or thick; keeping the default".into())
    );
    assert_eq!(
        d[1].1,
        Decoded::Rejected(
            "frame_rate: expected a whole number from 1 to 240; keeping the default".into()
        )
    );
    assert!(matches!(d[2].1, Decoded::Rejected(_)));
    assert_eq!(d[3].1, Decoded::Apply(Setting::MotionSpeed(MotionSpeed::Lively)));
}

#[test]
fn a_broken_file_is_one_warning() {
    assert!(decode_settings("").unwrap_err().starts_with("config is not valid JSON ("));
    assert!(decode_settings("not json at all").unwrap_err().ends_with("); using defaults"));
    for text in ["[1, 2, 3]", "null", "7"] {
        assert_eq!(
            decode_settings(text),
            Err("config must be a JSON object; using defaults".to_string()),
            "{text}"
        );
    }
}

/// A config written by a newer version must not make an older one shout.
#[test]
fn an_unknown_key_decodes_to_nothing() {
    let d = decoded(r#"{"some_future_setting": 42, "frame_rate": 60}"#);
    assert_eq!(d[0].1, Decoded::Unknown);
    assert_eq!(d[1].1, Decoded::Apply(Setting::FrameRate(60)));
}

#[test]
fn idle_behaviour_reads_in_both_spellings() {
    for (text, expected) in [
        (r#"{"idle_behavior":"freeze"}"#, IdleBehavior::Freeze),
        (r#"{"idle_behavior":"fade_out"}"#, IdleBehavior::FadeOut),
        (r#"{"idle_behavior":"fadeOut"}"#, IdleBehavior::FadeOut),
        (r#"{"idle_behavior":"always_animate"}"#, IdleBehavior::AlwaysAnimate),
        (r#"{"idle_behavior":"alwaysAnimate"}"#, IdleBehavior::AlwaysAnimate),
    ] {
        assert_eq!(decoded(text)[0].1, Decoded::Apply(Setting::IdleBehavior(expected)), "{text}");
    }
    assert_eq!(
        decoded(r#"{"idle_threshold": 300}"#)[0].1,
        Decoded::Measure(Measured::IdleThreshold, Num::PosInt(300))
    );
    assert!(matches!(decoded(r#"{"idle_behavior":"vanish"}"#)[0].1, Decoded::Rejected(_)));
}

#[test]
fn small_whole_numbers_have_their_limits() {
    assert_eq!(decoded(r#"{"debug_mode": 2}"#)[0].1, Decoded::Apply(Setting::DebugMode(2)));
    assert!(matches!(decoded(r#"{"debug_mode": 3}"#)[0].1, Decoded::Rejected(_)));
    assert!(matches!(decoded(r#"{"frame_rate": 0}"#)[0].1, Decoded::Rejected(_)));
    assert_eq!(decoded(r#"{"frame_rate": 240}"#)[0].1, Decoded::Apply(Setting::FrameRate(240)));
    assert!(matches!(decoded(r#"{"frame_rate": 1.5}"#)[0].1, Decoded::Rejected(_)));
    assert!(matches!(decoded(r#"{"frame_rate": -1}"#)[0].1, Decoded::Rejected(_)));
}

#[test]
fn lists_must_hold_only_names() {
    assert_eq!(
        decoded(r#"{"disabled_palettes": ["Ember"]}"#)[0].1,
        Decoded::Apply(Setting::DisabledPalettes(vec!["Ember".to_string()]))
    );
    assert_eq!(
        decoded(r#"{"disabled_palettes": ["Ember", 1]}"#)[0].1,
        Decoded::Rejected("disabled_palettes: expected a list of palette names; keeping the default".into())
    );
    assert_eq!(
        decoded(r#"{"flare_on_return": "yes"}"#)[0].1,
        Decoded::Rejected("flare_on_return: expected true or false; keeping the default".into())
    );
}

#[test]
fn a_measured_setting_names_its_range_in_its_warning() {
    assert_eq!(
        Measured::IdleIntensity.warning(),
        "idle_intensity: expected a number from 0.0 to 1.0; keeping the default"
    );
    assert_eq!(Measured::FlareDuration.key(), "flare_duration");
    assert_eq!(Measured::PaletteInterval.expects(), "seconds, or 0 to never rotate");
    assert_eq!(Measured::IdleThreshold.expects(), "seconds, or 0 to never go idle");
}

#[test]
fn a_parsed_document_decodes_the_same_way() {
    let value = parse(r#"{"enabled": true}"#).unwrap();
    assert_eq!(decode_document(&value), decode_settings(r#"{"enabled": true}"#));
}

#[test]
fn names_round_trip() {
    for b in [BandWidth::Thin, BandWidth::Normal, BandWidth::Thick] {
        assert_eq!(BandWidth::parse(b.name()), Some(b));
    }
    for m in [MotionSpeed::Calm, MotionSpeed::Normal, MotionSpeed::Lively] {
        assert_eq!(MotionSpeed::parse(m.name()), Some(m));
    }
    for t in [Turbulence::Smooth, Turbulence::Normal, Turbulence::Churny] {
        assert_eq!(Turbulence::parse(t.name()), Some(t));
    }
    for i in [IdleBehavior::AlwaysAnimate, IdleBehavior::Freeze, IdleBehavior::FadeOut] {
        assert_eq!(IdleBehavior::parse(i.name()), Some(i));
    }
    assert_eq!(BandWidth::parse("Thick"), None, "names are exact");
    assert_eq!(BandWidth::default(), BandWidth::Normal);
    assert_eq!(IdleBehavior::default(), IdleBehavior::Freeze);
}

#[test]
fn the_files_live_under_the_xdg_directories() {
    assert_eq!(
        config_path(Some("/cfg"), Some("/home/u")),
        Some("/cfg/nimbus/config.json".to_string())
    );
    assert_eq!(
        config_path(Some(""), Some("/home/u")),
        Some("/home/u/.config/nimbus/config.json".to_string()),
        "an empty variable counts as unset"
    );
    assert_eq!(config_path(None, None), None);
    assert_eq!(
        state_path(None, Some("/home/u")),
        Some("/home/u/.local/state/nimbus/state.json".to_string())
    );
}

/// Without persisting the rotation, anyone who restarts often would see the
/// first palette far more than any other.
#[test]
fn the_rotation_survives_a_restart() {
    let changed_at = Json::Number(Num::Float(serde_json::Number::from_f64(1_726_000_000.0).unwrap()));
    let text = memory_text(7, &vec![2, 5, 7], changed_at);
    let back = read_memory(&text);
    assert_eq!(back.index, 7);
    assert_eq!(back.recent, vec![2, 5, 7]);
    assert_eq!(
        back.changed_at,
        Some(Num::Float(serde_json::Number::from_f64(1_726_000_000.0).unwrap()))
    );
    let v: serde_json::Value = serde_json::from_str(&text).unwrap();
    assert_eq!(v["palette_changed_at"], 1_726_000_000.0);
}

#[test]
fn missing_or_broken_memory_is_nothing_remembered() {
    for text in ["garbage", "{}", "[1]", r#"{"palette_index": -1, "palette_recent": "x"}"#] {
        let m = read_memory(text);
        assert_eq!(m.index, 0, "{text}");
        assert!(m.recent.is_empty(), "{text}");
        assert_eq!(m.changed_at, None, "{text}");
    }
    let value = parse(r#"{"palette_recent": [1, "two", 3, -4, 5.5]}"#).unwrap();
    assert_eq!(memory_from(&value).recent, vec![1, 3]);
    let whole = parse(r#"{"palette_changed_at": 12}"#).unwrap();
    assert_eq!(memory_from(&whole).changed_at, Some(Num::PosInt(12)));
}
