//! The control protocol: what the bar panel and the CLI both speak.

use nimbus_wayland::control::{
    coerce_setting, decimal_setting, error_json, join_warnings, merge_settings,
    merged_config_text, no_palette_json, ok_json, request_or_reply, socket_path, status_json,
    unsaved_json, warnings_json, PaletteView, Request,
};
use nimbus_wayland::json::{decimal, parse, Json, Num};

fn views(names: &[&'static str]) -> Vec<PaletteView> {
    names
        .iter()
        .map(|n| PaletteView {
            name: n,
            hex: ["#ff3d00".into(), "#ffc400".into(), "#ff6d00".into()],
            in_rotation: true,
        })
        .collect()
}

fn float(f: f64) -> Json {
    Json::Number(Num::Float(serde_json::Number::from_f64(f).unwrap()))
}

fn text(s: &str) -> Json {
    Json::Str(s.to_string())
}

#[test]
fn requests_round_trip() {
    for request in [
        Request::Status,
        Request::NextColor,
        Request::SetPalette("Aurora".into()),
        Request::Reload,
        Request::Quit,
    ] {
        assert_eq!(Request::parse(&request.to_json()), Ok(request.clone()), "{request:?}");
    }

    let map = vec![("frame_rate".to_string(), Json::Number(Num::PosInt(15)))];
    let set = Request::Change(map);
    assert_eq!(Request::parse(&set.to_json()), Ok(set));
}

#[test]
fn requests_are_written_as_compact_objects() {
    assert_eq!(Request::Status.to_json(), r#"{"command":"status"}"#);
    assert_eq!(Request::NextColor.to_json(), r#"{"command":"next_color"}"#);
    assert_eq!(Request::Reload.to_json(), r#"{"command":"reload"}"#);
    assert_eq!(Request::Quit.to_json(), r#"{"command":"quit"}"#);
    assert_eq!(
        Request::SetPalette("Aurora".into()).to_json(),
        r#"{"command":"set_palette","name":"Aurora"}"#
    );
    let set = Request::Change(vec![("enabled".to_string(), Json::Bool(false))]);
    assert_eq!(set.to_json(), r#"{"command":"set","settings":{"enabled":false}}"#);
}

/// Every line is hostile input, not a well-formed request from our own CLI.
#[test]
fn malformed_requests_are_refused_not_guessed_at() {
    for line in [
        "",
        "hello",
        "{}",
        r#"{"command":42}"#,
        r#"{"command":"launch_missiles"}"#,
        r#"{"command":"set"}"#,
        r#"{"command":"set","settings":{}}"#,
        r#"{"command":"set_palette"}"#,
        r#"{"command":"set_palette","name":""}"#,
    ] {
        assert!(Request::parse(line).is_err(), "{line:?} should be refused");
    }
}

#[test]
fn each_refusal_says_why() {
    assert_eq!(Request::parse("{}"), Err("no \"command\" field".to_string()));
    assert_eq!(
        Request::parse(r#"{"command":"launch_missiles"}"#),
        Err("unknown command \"launch_missiles\"".to_string())
    );
    assert_eq!(
        Request::parse(r#"{"command":"set"}"#),
        Err("set needs a \"settings\" object".to_string())
    );
    assert_eq!(
        Request::parse(r#"{"command":"set","settings":[1]}"#),
        Err("set needs a \"settings\" object".to_string())
    );
    assert_eq!(
        Request::parse(r#"{"command":"set","settings":{}}"#),
        Err("set with no settings".to_string())
    );
    assert_eq!(
        Request::parse(r#"{"command":"set_palette"}"#),
        Err("set_palette needs a \"name\"".to_string())
    );
    assert_eq!(
        Request::parse(r#"{"command":"set_palette","name":""}"#),
        Err("set_palette with an empty name".to_string())
    );
    assert!(Request::parse("hello").unwrap_err().starts_with("not valid JSON: "));
}

#[test]
fn a_request_keeps_its_settings_in_order() {
    let parsed = Request::parse(r#"{"command":"set","settings":{"b":1,"a":true}}"#).unwrap();
    assert_eq!(
        parsed,
        Request::Change(vec![
            ("b".to_string(), Json::Number(Num::PosInt(1))),
            ("a".to_string(), Json::Bool(true)),
        ])
    );
    let value = parse(r#"{"command":"quit","name":"x"}"#).unwrap();
    assert_eq!(Request::from_value(&value), Ok(Request::Quit));
}

/// A command line hands over strings and nothing else.
#[test]
fn command_line_strings_become_the_right_types() {
    assert_eq!(coerce_setting("enabled", "true"), Ok(Json::Bool(true)));
    assert_eq!(coerce_setting("enabled", "off"), Ok(Json::Bool(false)));
    assert_eq!(coerce_setting("frame_rate", "20"), Ok(Json::Number(Num::PosInt(20))));
    assert_eq!(coerce_setting("idle_intensity", "0.5"), Ok(float(0.5)));
    assert_eq!(coerce_setting("band_width", "thick"), Ok(text("thick")));
    assert_eq!(
        coerce_setting("exclusions", "mpv, vlc"),
        Ok(Json::Array(vec![text("mpv"), text("vlc")]))
    );
    assert_eq!(
        coerce_setting("exclusions", ""),
        Ok(Json::Array(vec![])),
        "clearing the list must be expressible"
    );

    assert!(coerce_setting("frame_rate", "fast").is_err());
    assert!(coerce_setting("enabled", "maybe").is_err());
    assert!(coerce_setting("no_such_setting", "1").is_err());
}

#[test]
fn every_spelling_of_yes_and_no_is_understood() {
    for yes in ["true", "on", "yes", "1"] {
        assert_eq!(coerce_setting("flare_on_return", yes), Ok(Json::Bool(true)), "{yes}");
    }
    for no in ["false", "off", "no", "0"] {
        assert_eq!(coerce_setting("hide_while_dragging", no), Ok(Json::Bool(false)), "{no}");
    }
    assert_eq!(
        coerce_setting("hide_in_fullscreen", "TRUE"),
        Err("hide_in_fullscreen takes true or false, not \"TRUE\"".to_string())
    );
}

#[test]
fn whole_numbers_are_read_as_std_reads_them() {
    assert_eq!(coerce_setting("debug_mode", "+2"), Ok(Json::Number(Num::PosInt(2))));
    assert_eq!(coerce_setting("frame_rate", "007"), Ok(Json::Number(Num::PosInt(7))));
    assert_eq!(
        coerce_setting("frame_rate", "18446744073709551615"),
        Ok(Json::Number(Num::PosInt(u64::MAX)))
    );
    for bad in ["", "+", "-1", " 5", "1.5", "18446744073709551616", "99999999999999999999x"] {
        assert_eq!(
            coerce_setting("frame_rate", bad),
            Err(format!("frame_rate takes a whole number, not {bad:?}")),
            "{bad:?}"
        );
    }
}

#[test]
fn numbers_and_names_and_lists_are_read_as_written() {
    assert_eq!(coerce_setting("palette_interval", "1800"), Ok(float(1800.0)));
    assert_eq!(coerce_setting("idle_threshold", "-3e2"), Ok(float(-300.0)));
    assert_eq!(coerce_setting("flare_duration", "inf"), Ok(Json::Null));
    assert_eq!(
        coerce_setting("flare_duration", "soon"),
        Err("flare_duration takes a number, not \"soon\"".to_string())
    );
    assert_eq!(coerce_setting("idle_behavior", "vanish"), Ok(text("vanish")));
    assert_eq!(
        coerce_setting("disabled_palettes", " Ember,,  Toxic , "),
        Ok(Json::Array(vec![text("Ember"), text("Toxic")]))
    );
    assert_eq!(
        coerce_setting("no_such_setting", "1"),
        Err("unknown setting \"no_such_setting\"".to_string())
    );
}

#[test]
fn a_number_setting_is_what_its_text_reads_as() {
    assert_eq!(decimal_setting("idle_intensity", "x", None), Err("idle_intensity takes a number, not \"x\"".to_string()));
    assert_eq!(decimal_setting("idle_intensity", "0.25", Some(float(0.25))), Ok(float(0.25)));
    assert_eq!(decimal("0.25"), Some(float(0.25)));
    assert_eq!(decimal("nope"), None);
}

/// The panel redraws entirely from one status call.
#[test]
fn status_carries_everything_the_panel_draws() {
    let settings = vec![
        ("enabled".to_string(), Json::Bool(true)),
        ("idle_intensity".to_string(), float(0.3)),
        ("band_width".to_string(), text("normal")),
        ("frame_rate".to_string(), Json::Number(Num::PosInt(30))),
    ];
    let text = status_json(settings, &views(&["Ember", "Plasma", "Toxic"]), 1, true);
    let v: serde_json::Value = serde_json::from_str(&text).unwrap();

    assert_eq!(v["ok"], true);
    assert_eq!(v["showing"], true);
    assert_eq!(v["palette_name"], "Plasma");
    assert_eq!(v["palettes"].as_array().unwrap().len(), 3);
    assert_eq!(v["palettes"][0]["name"], "Ember");
    assert_eq!(v["palettes"][0]["a"], "#ff3d00");
    assert_eq!(v["palettes"][0]["in_rotation"], true);
    assert_eq!(v["settings"]["frame_rate"], 30);
    assert_eq!(v["settings"]["band_width"], "normal");
    assert_eq!(v["settings"]["idle_intensity"], 0.3);
}

#[test]
fn status_names_no_palette_when_the_index_is_out_of_range() {
    let text = status_json(vec![], &views(&["Ember"]), 5, false);
    assert_eq!(
        text,
        r##"{"ok":true,"running":true,"showing":false,"palettes":[{"name":"Ember","a":"#ff3d00","b":"#ffc400","glow":"#ff6d00","in_rotation":true}],"palette_index":5,"palette_name":"","settings":{}}"##
    );
}

#[test]
fn replies_are_single_line_objects() {
    assert_eq!(error_json("boom \"x\""), r#"{"ok":false,"error":"boom \"x\""}"#);
    assert_eq!(ok_json(), r#"{"ok":true}"#);
    assert_eq!(
        warnings_json(&vec!["a".to_string(), "b".to_string()]),
        r#"{"ok":true,"warnings":["a","b"]}"#
    );
    assert_eq!(
        unsaved_json("disk full"),
        r#"{"ok":true,"warning":"applied, but not saved: disk full"}"#
    );
    assert_eq!(
        no_palette_json("Chartreuse"),
        r#"{"ok":false,"error":"no palette called \"Chartreuse\""}"#
    );
}

#[test]
fn warnings_are_joined_with_semicolons() {
    assert_eq!(join_warnings(&vec![]), "");
    assert_eq!(join_warnings(&vec!["one".to_string()]), "one");
    assert_eq!(
        join_warnings(&vec!["one".to_string(), "two".to_string(), "three".to_string()]),
        "one; two; three"
    );
}

#[test]
fn a_socket_line_is_trimmed_then_read_or_answered() {
    assert_eq!(request_or_reply("  {\"command\":\"status\"}\n"), Ok(Request::Status));
    assert_eq!(
        request_or_reply("{\"command\":\"dance\"}"),
        Err(r#"{"ok":false,"error":"unknown command \"dance\""}"#.to_string())
    );
}

#[test]
fn the_control_socket_lives_in_the_runtime_dir() {
    assert_eq!(
        socket_path(Some("/run/user/1000")),
        Some("/run/user/1000/nimbus/control.sock".to_string())
    );
    assert_eq!(socket_path(Some("/tmp/")), Some("/tmp/nimbus/control.sock".to_string()));
    assert_eq!(socket_path(None), None);
}

/// The config file is hand-edited and may carry keys a future version added.
/// Writing one setting must not delete the rest of it.
#[test]
fn merging_one_setting_leaves_the_rest_of_the_document_alone() {
    let existing = r#"{"// a comment key": "kept", "frame_rate": 60, "some_future_setting": [1,2]}"#;
    let change = vec![("frame_rate".to_string(), Json::Number(Num::PosInt(20)))];
    let text = merged_config_text(Some(existing), &change);
    assert!(text.ends_with("}\n"));

    let after: serde_json::Value = serde_json::from_str(&text).unwrap();
    assert_eq!(after["frame_rate"], 20, "the change landed");
    assert_eq!(after["// a comment key"], "kept", "comments survive");
    assert_eq!(after["some_future_setting"], serde_json::Value::Array(vec![1.into(), 2.into()]));
    let keys: Vec<&String> = after.as_object().unwrap().keys().collect();
    assert_eq!(keys, ["// a comment key", "frame_rate", "some_future_setting"], "order kept");
}

#[test]
fn merging_into_nothing_starts_a_new_document() {
    let change = vec![("enabled".to_string(), Json::Bool(false))];
    assert_eq!(merged_config_text(None, &change), "{\n  \"enabled\": false\n}\n");
    assert_eq!(merged_config_text(Some("[1, 2]"), &change), "{\n  \"enabled\": false\n}\n");
    assert_eq!(merged_config_text(Some("garbage"), &change), "{\n  \"enabled\": false\n}\n");
}

#[test]
fn merged_settings_replace_in_place_and_append_the_rest() {
    let doc = vec![("a".to_string(), Json::Null), ("b".to_string(), Json::Null)];
    let settings = vec![
        ("c".to_string(), Json::Bool(true)),
        ("a".to_string(), Json::Bool(false)),
        ("c".to_string(), Json::Bool(false)),
    ];
    assert_eq!(
        merge_settings(doc, &settings),
        vec![
            ("a".to_string(), Json::Bool(false)),
            ("b".to_string(), Json::Null),
            ("c".to_string(), Json::Bool(false)),
        ]
    );
}

#[test]
fn toggling_asks_for_the_opposite_of_what_the_status_says() {
    let on = parse(r#"{"ok":true,"settings":{"enabled":true}}"#).unwrap();
    assert_eq!(
        nimbus_wayland::control::toggle_request(&on),
        Some(Request::Change(vec![("enabled".to_string(), Json::Bool(false))]))
    );
    let off = parse(r#"{"settings":{"enabled":false}}"#).unwrap();
    assert_eq!(
        nimbus_wayland::control::toggle_request(&off),
        Some(Request::Change(vec![("enabled".to_string(), Json::Bool(true))]))
    );
    for reply in [r#"{"ok":false}"#, r#"{"settings":{"enabled":"yes"}}"#, "[]"] {
        assert_eq!(nimbus_wayland::control::toggle_request(&parse(reply).unwrap()), None, "{reply}");
    }
}

#[test]
fn the_written_config_reads_back_as_the_merged_document() {
    let existing = r#"{"a": [1, {"b": null}], "frame_rate": 60}"#;
    let change = vec![("frame_rate".to_string(), Json::Number(Num::PosInt(20)))];
    let text = merged_config_text(Some(existing), &change);
    assert!(text.ends_with('\n'));
    let back = parse(&text).unwrap();
    assert_eq!(
        back,
        Json::Object(merge_settings(
            match parse(existing).unwrap() {
                Json::Object(m) => m,
                _ => unreachable!(),
            },
            &change
        ))
    );
}
