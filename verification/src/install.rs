//! Putting the bar control where the shell can find it.
//!
//! The package ships the plugin to a system directory and never writes to
//! anyone's home; it is copied into `~/.config/omarchy/plugins/` only when the
//! user asks. This is where it is looked for, where it goes, and what the user
//! is told; the copying itself is the program's.

use vstd::prelude::*;

use crate::config::{opt_view, xdg_dir};
use crate::text::{joined, path_join, split_on, split_pieces};

verus! {

/// The plugin's name in the bar.
pub const PLUGIN_ID: &'static str = "nimbus.ring";

/// The plugin's own QML files; a directory that holds the first of them is
/// one the plugin can be copied from.
pub const FILES: [&'static str; 2] = ["Panel.qml", "NimbusMark.qml"];

/// `$XDG_CONFIG_HOME/omarchy/plugins/nimbus.ring`, with `~/.config` standing
/// in for an unset or empty `XDG_CONFIG_HOME`.
pub open spec fn plugin_dir_of(xdg_config_home: Option<Seq<char>>, home: Option<Seq<char>>) -> Option<
    Seq<char>,
> {
    match xdg_dir(xdg_config_home, home, ".config"@) {
        Some(base) => Some(
            joined(joined(joined(base, "omarchy"@), "plugins"@), "nimbus.ring"@),
        ),
        None => None,
    }
}

/// Where the plugin is installed for this user, or nowhere when there is no
/// config directory to put it in.
pub fn plugin_dir(xdg_config_home: Option<&str>, home: Option<&str>) -> (d: Option<String>)
    ensures
        match d {
            Some(d) => plugin_dir_of(opt_view(xdg_config_home), opt_view(home)) == Some(d@),
            None => plugin_dir_of(opt_view(xdg_config_home), opt_view(home)) is None,
        },
{
    let base = match xdg_config_home {
        Some(v) if v.unicode_len() > 0 => v.to_owned(),
        _ => match home {
            Some(h) => path_join(h, ".config"),
            None => return None,
        },
    };
    let a = path_join(base.as_str(), "omarchy");
    let b = path_join(a.as_str(), "plugins");
    Some(path_join(b.as_str(), PLUGIN_ID))
}

/// Where the plugin's files may be, in the order they are tried: an override
/// from `NIMBUS_SHARE`, the packaged locations, and, relative to the
/// directory the binary runs from, an unpacked tarball and a built checkout.
pub open spec fn source_candidates_of(nimbus_share: Option<Seq<char>>, exe_dir: Option<Seq<char>>) -> Seq<
    Seq<char>,
> {
    let shared = match nimbus_share {
        Some(d) => seq![joined(joined(d, "omarchy"@), "nimbus.ring"@)],
        None => Seq::empty(),
    };
    let packaged = seq![
        joined("/usr/share/nimbus-wayland/omarchy"@, "nimbus.ring"@),
        joined("/usr/local/share/nimbus-wayland/omarchy"@, "nimbus.ring"@),
    ];
    let beside = match exe_dir {
        Some(bin) => seq![
            joined(joined(bin, "../share/nimbus-wayland/omarchy"@), "nimbus.ring"@),
            joined(joined(bin, "../../../omarchy"@), "nimbus.ring"@),
        ],
        None => Seq::empty(),
    };
    shared + packaged + beside
}

/// Every place the plugin's files may be, in order, so a packaged install, a
/// run from the repository and a hand-placed binary all work. The first that
/// holds the plugin's panel is the one to copy from.
pub fn source_candidates(nimbus_share: Option<&str>, exe_dir: Option<&str>) -> (c: Vec<String>)
    ensures
        c@.map_values(|s: String| s@) == source_candidates_of(opt_view(nimbus_share), opt_view(exe_dir)),
{
    let mut c: Vec<String> = Vec::new();
    if let Some(d) = nimbus_share {
        let o = path_join(d, "omarchy");
        c.push(path_join(o.as_str(), PLUGIN_ID));
    }
    c.push(path_join("/usr/share/nimbus-wayland/omarchy", PLUGIN_ID));
    c.push(path_join("/usr/local/share/nimbus-wayland/omarchy", PLUGIN_ID));
    if let Some(bin) = exe_dir {
        let s = path_join(bin, "../share/nimbus-wayland/omarchy");
        c.push(path_join(s.as_str(), PLUGIN_ID));
        let r = path_join(bin, "../../../omarchy");
        c.push(path_join(r.as_str(), PLUGIN_ID));
    }
    assert(c@.map_values(|s: String| s@) =~= source_candidates_of(
        opt_view(nimbus_share),
        opt_view(exe_dir),
    ));
    c
}

/// Where a program named `program` may be, one per entry of `PATH` in order,
/// as `std::env::split_paths` reads it on Unix: entries separated by `:`, an
/// empty one meaning the current directory.
pub open spec fn program_candidates_of(path: Seq<char>, program: Seq<char>) -> Seq<Seq<char>> {
    split_pieces(path, ':').map_values(|dir: Seq<char>| joined(dir, program))
}

/// The places to look for `program`; the first that is a file is the one a
/// shell would run.
pub fn program_candidates(path: &str, program: &str) -> (c: Vec<String>)
    ensures
        c@.map_values(|s: String| s@) == program_candidates_of(path@, program@),
{
    let dirs = split_on(path, ':');
    let mut c: Vec<String> = Vec::new();
    let mut i: usize = 0;
    while i < dirs.len()
        invariant
            i <= dirs@.len(),
            dirs@.len() == split_pieces(path@, ':').len(),
            forall|k: int| 0 <= k < dirs@.len() ==> (#[trigger] dirs@[k])@ == split_pieces(path@, ':')[k],
            c@.len() == i,
            forall|k: int| 0 <= k < i ==> (#[trigger] c@[k])@ == joined(split_pieces(path@, ':')[k], program@),
        decreases dirs.len() - i,
    {
        c.push(path_join(dirs[i].as_str(), program));
        i = i + 1;
    }
    assert(c@.map_values(|s: String| s@) =~= program_candidates_of(path@, program@));
    c
}

/// What installing reports: where the files went, and whether the plugin is
/// in the bar or how to put it there.
pub open spec fn install_report_text(target: Seq<char>, added_to_bar: bool) -> Seq<char> {
    "Bar control installed to "@ + target + if added_to_bar {
        "\nAdded to the bar. Click the ring to open it."@
    } else {
        "\nCould not add it to the bar automatically. Add it with:\n  omarchy bar put nimbus.ring --section right"@
    }
}

pub fn install_report(target: &str, added_to_bar: bool) -> (s: String)
    ensures
        s@ == install_report_text(target@, added_to_bar),
{
    let mut s = "Bar control installed to ".to_owned();
    s.append(target);
    if added_to_bar {
        s.append("\nAdded to the bar. Click the ring to open it.");
    } else {
        s.append(
            "\nCould not add it to the bar automatically. Add it with:\n  omarchy bar put nimbus.ring --section right",
        );
    }
    s
}

/// What uninstalling reports: where the files were removed from, or that
/// there were none.
pub open spec fn uninstall_report_text(target: Seq<char>, existed: bool) -> Seq<char> {
    if existed {
        "Bar control removed from "@ + target
    } else {
        "The bar control was not installed."@
    }
}

pub fn uninstall_report(target: &str, existed: bool) -> (s: String)
    ensures
        s@ == uninstall_report_text(target@, existed),
{
    if existed {
        let mut s = "Bar control removed from ".to_owned();
        s.append(target);
        s
    } else {
        "The bar control was not installed.".to_owned()
    }
}

/// The settings file to name: the one the config is read from, or its usual
/// place when there is no home to find it under.
pub open spec fn hint_path_of(config_path: Option<Seq<char>>) -> Seq<char> {
    match config_path {
        Some(p) => p,
        None => "~/.config/nimbus/config.json"@,
    }
}

pub fn hint_path(config_path: Option<&str>) -> (p: String)
    ensures
        p@ == hint_path_of(opt_view(config_path)),
{
    match config_path {
        Some(p) => p.to_owned(),
        None => "~/.config/nimbus/config.json".to_owned(),
    }
}

/// Where the settings file lives, whether or not it exists yet: printed after
/// installing, because someone who does not use the bar still needs to know
/// where to change things.
pub open spec fn config_hint_text(path: Seq<char>, exists: bool) -> Seq<char> {
    if exists {
        "Settings: "@ + path
    } else {
        "Settings: "@ + path + " (not created yet \u{2014} defaults are in use)"@
    }
}

pub fn config_hint(path: &str, exists: bool) -> (s: String)
    ensures
        s@ == config_hint_text(path@, exists),
{
    let mut s = "Settings: ".to_owned();
    s.append(path);
    if !exists {
        s.append(" (not created yet \u{2014} defaults are in use)");
    }
    s
}

} // verus!
