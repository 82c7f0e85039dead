//! Launching and uninstalling apps, detached from the launcher: what to
//! start, in which order of fallbacks. The processes are started by the
//! application (each in its own process group, its streams cut, so that
//! the app survives the launcher).
use vstd::prelude::*;

use crate::model::LaunchSpec;
use crate::path::{join, joined};
use crate::provider::UninstallSpec;
use crate::providers::apps::copy_strings;
use crate::text::{decimal_digits, decimal_string, string_of};
use vstd::string::StringExecFns;

verus! {

/// How to start something.
#[derive(Debug)]
pub enum LaunchPlan {
    /// Spawn these command lines in turn until one starts; the error of
    /// the last one is the error reported.
    Spawn(Vec<Vec<String>>),
    /// A Windows app of Weft: the Windows engine launches the app `slug`
    /// (isolated prefix, pinned Proton, gameid), logging into the app.
    Windows(String),
    /// Nothing can be started: an invalid input, told by this message.
    Refuse(String),
}

/// How to uninstall an app.
#[derive(Debug)]
pub enum UninstallPlan {
    /// Remove the Windows app `slug` from the store (prefix included).
    RemoveWindowsApp(String),
    /// Run this command and wait: it succeeded when it exits with success.
    RunAndWait(Vec<String>),
    /// Spawn these command lines in turn until one starts.
    Spawn(Vec<Vec<String>>),
}

pub open spec fn texts(v: Seq<String>) -> Seq<Seq<char>> {
    v.map_values(|s: String| s@)
}

pub open spec fn lines(v: Seq<Vec<String>>) -> Seq<Seq<Seq<char>>> {
    v.map_values(|l: Vec<String>| texts(l@))
}

/// The Steam client's handlers, in order: the native client, the Flatpak
/// client when it is installed (no `steam` binary on the PATH then),
/// otherwise the desktop's handler of `steam://`.
pub open spec fn steam_fallbacks(url: Seq<char>, flatpak_steam: bool) -> Seq<Seq<Seq<char>>> {
    seq![
        seq!["steam"@, url],
        if flatpak_steam {
            seq!["flatpak"@, "run"@, "com.valvesoftware.Steam"@, url]
        } else {
            seq!["xdg-open"@, url]
        },
    ]
}

fn steam_commands(url: String, flatpak_steam: bool) -> (r: Vec<Vec<String>>)
    ensures
        lines(r@) == steam_fallbacks(url@, flatpak_steam),
{
    let mut first: Vec<String> = Vec::new();
    first.push(String::from_str("steam"));
    first.push(url.clone());
    let mut second: Vec<String> = Vec::new();
    if flatpak_steam {
        second.push(String::from_str("flatpak"));
        second.push(String::from_str("run"));
        second.push(String::from_str("com.valvesoftware.Steam"));
        second.push(url);
    } else {
        second.push(String::from_str("xdg-open"));
        second.push(url);
    }
    let mut r: Vec<Vec<String>> = Vec::new();
    r.push(first);
    r.push(second);
    assert(lines(r@) =~= steam_fallbacks(url@, flatpak_steam)) by {
        assert(texts(r@[0]@) =~= seq!["steam"@, url@]);
        if flatpak_steam {
            assert(texts(r@[1]@) =~= seq!["flatpak"@, "run"@, "com.valvesoftware.Steam"@, url@]);
        } else {
            assert(texts(r@[1]@) =~= seq!["xdg-open"@, url@]);
        }
    }
    r
}

/// What starting an app means. `flatpak_steam` tells whether the Flatpak
/// Steam client is installed. An empty command line is refused.
pub fn launch_spec(spec: &LaunchSpec, flatpak_steam: bool) -> (r: LaunchPlan)
    ensures
        match *spec {
            LaunchSpec::Exec(argv) => if argv@.len() == 0 {
                r matches LaunchPlan::Refuse(m) && m@ == "argv vide"@
            } else {
                r matches LaunchPlan::Spawn(cs) && lines(cs@) == seq![texts(argv@)]
            },
            LaunchSpec::WindowsApp(slug) => r matches LaunchPlan::Windows(s) && s@ == slug@,
            LaunchSpec::SteamApp(id) => r matches LaunchPlan::Spawn(cs) && lines(cs@) == steam_fallbacks(
                "steam://rungameid/"@ + decimal_digits(id as nat),
                flatpak_steam,
            ),
        },
{
    match spec {
        LaunchSpec::Exec(argv) => {
            if argv.len() == 0 {
                return LaunchPlan::Refuse(String::from_str("argv vide"));
            }
            let mut cs: Vec<Vec<String>> = Vec::new();
            cs.push(copy_strings(argv));
            assert(lines(cs@) =~= seq![texts(argv@)]);
            LaunchPlan::Spawn(cs)
        },
        LaunchSpec::WindowsApp(slug) => LaunchPlan::Windows(slug.clone()),
        LaunchSpec::SteamApp(id) => {
            let mut url = String::from_str("steam://rungameid/");
            url.append(string_of(&decimal_string(*id as u64)).as_str());
            LaunchPlan::Spawn(steam_commands(url, flatpak_steam))
        },
    }
}

/// Opens a file or a directory with the default application.
pub fn open_path(path: &str) -> (r: Vec<String>)
    ensures
        texts(r@) == seq!["xdg-open"@, path@],
{
    let mut r: Vec<String> = Vec::new();
    r.push(String::from_str("xdg-open"));
    r.push(String::from_str(path));
    assert(texts(r@) =~= seq!["xdg-open"@, path@]);
    r
}

/// What uninstalling an app means: a Weft Windows app is removed whole
/// (irreversible, by design); a Flatpak is uninstalled by `flatpak
/// uninstall -y`, waited for; a Steam game opens the client's uninstall
/// dialog, with the same fallbacks as a launch.
pub fn uninstall(spec: &UninstallSpec, flatpak_steam: bool) -> (r: UninstallPlan)
    ensures
        match *spec {
            UninstallSpec::WeftWindows(slug) => r matches UninstallPlan::RemoveWindowsApp(s) && s@ == slug@,
            UninstallSpec::Flatpak(app_id) => r matches UninstallPlan::RunAndWait(c) && texts(c@) == seq![
                "flatpak"@,
                "uninstall"@,
                "-y"@,
                app_id@,
            ],
            UninstallSpec::Steam(id) => r matches UninstallPlan::Spawn(cs) && lines(cs@) == steam_fallbacks(
                "steam://uninstall/"@ + decimal_digits(id as nat),
                flatpak_steam,
            ),
        },
{
    match spec {
        UninstallSpec::WeftWindows(slug) => UninstallPlan::RemoveWindowsApp(slug.clone()),
        UninstallSpec::Flatpak(app_id) => {
            let mut c: Vec<String> = Vec::new();
            c.push(String::from_str("flatpak"));
            c.push(String::from_str("uninstall"));
            c.push(String::from_str("-y"));
            c.push(app_id.clone());
            assert(texts(c@) =~= seq!["flatpak"@, "uninstall"@, "-y"@, app_id@]);
            UninstallPlan::RunAndWait(c)
        },
        UninstallSpec::Steam(id) => {
            let mut url = String::from_str("steam://uninstall/");
            url.append(string_of(&decimal_string(*id as u64)).as_str());
            UninstallPlan::Spawn(steam_commands(url, flatpak_steam))
        },
    }
}

/// Where the Flatpak Steam client keeps its data: it is installed when
/// this directory exists.
pub fn flatpak_steam_dir(home: &str) -> (r: String)
    ensures
        r@ == joined(home@, ".var/app/com.valvesoftware.Steam"@),
{
    join(home, ".var/app/com.valvesoftware.Steam")
}

} // verus!
