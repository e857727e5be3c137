//! Where the bar control is looked for and put, and what the user is told.

use nimbus_wayland::install::{
    config_hint, hint_path, install_report, plugin_dir, program_candidates, source_candidates,
    uninstall_report, FILES, PLUGIN_ID,
};

#[test]
fn the_plugin_goes_under_the_config_home() {
    assert_eq!(
        plugin_dir(Some("/cfg"), Some("/home/u")),
        Some("/cfg/omarchy/plugins/nimbus.ring".to_string())
    );
    assert_eq!(
        plugin_dir(None, Some("/home/u")),
        Some("/home/u/.config/omarchy/plugins/nimbus.ring".to_string())
    );
    assert_eq!(
        plugin_dir(Some(""), Some("/home/u")),
        Some("/home/u/.config/omarchy/plugins/nimbus.ring".to_string())
    );
    assert_eq!(plugin_dir(None, None), None, "HOME is unset, so there is no config directory");
    assert_eq!(PLUGIN_ID, "nimbus.ring");
    assert_eq!(FILES, ["Panel.qml", "NimbusMark.qml"]);
}

#[test]
fn the_plugin_files_are_looked_for_in_order() {
    assert_eq!(
        source_candidates(Some("/opt/share"), Some("/home/u/nimbus/target/release")),
        vec![
            "/opt/share/omarchy/nimbus.ring".to_string(),
            "/usr/share/nimbus-wayland/omarchy/nimbus.ring".to_string(),
            "/usr/local/share/nimbus-wayland/omarchy/nimbus.ring".to_string(),
            "/home/u/nimbus/target/release/../share/nimbus-wayland/omarchy/nimbus.ring".to_string(),
            "/home/u/nimbus/target/release/../../../omarchy/nimbus.ring".to_string(),
        ]
    );
    assert_eq!(source_candidates(None, None).len(), 2, "the packaged places always");
}

#[test]
fn a_program_is_looked_for_in_each_path_entry() {
    assert_eq!(
        program_candidates("/usr/local/bin:/usr/bin", "omarchy"),
        vec!["/usr/local/bin/omarchy".to_string(), "/usr/bin/omarchy".to_string()]
    );
    assert_eq!(
        program_candidates("/bin::/sbin/", "x"),
        vec!["/bin/x".to_string(), "x".to_string(), "/sbin/x".to_string()],
        "an empty entry is the current directory"
    );
    assert_eq!(program_candidates("", "x"), vec!["x".to_string()]);
}

#[test]
fn installing_and_removing_say_what_happened() {
    assert_eq!(
        install_report("/p", true),
        "Bar control installed to /p\nAdded to the bar. Click the ring to open it."
    );
    assert_eq!(
        install_report("/p", false),
        "Bar control installed to /p\nCould not add it to the bar automatically. Add it with:\n  omarchy bar put nimbus.ring --section right"
    );
    assert_eq!(uninstall_report("/p", true), "Bar control removed from /p");
    assert_eq!(uninstall_report("/p", false), "The bar control was not installed.");
}

#[test]
fn the_settings_file_is_named_whether_or_not_it_exists() {
    assert_eq!(hint_path(Some("/cfg/nimbus/config.json")), "/cfg/nimbus/config.json");
    assert_eq!(hint_path(None), "~/.config/nimbus/config.json");
    assert_eq!(config_hint("/c.json", true), "Settings: /c.json");
    assert_eq!(
        config_hint("/c.json", false),
        "Settings: /c.json (not created yet \u{2014} defaults are in use)"
    );
}
