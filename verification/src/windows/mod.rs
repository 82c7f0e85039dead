//! Weft's Windows engine: install and launch arbitrary Windows programs
//! through umu/Proton, without the user ever seeing Wine, Proton or a
//! prefix. Runtime versions are always pinned by Weft.
//!
//! The engine's decisions live here; the processes it starts and the
//! files it touches are the application's side.
pub mod manifest;
pub mod discover;
pub mod epic;
pub mod gog;
pub mod install;
pub mod installer;
pub mod prefix;
pub mod runtime;

use vstd::prelude::*;

use crate::path::{
    eq_ignore_ascii_case, extension, extension_of, file_name, file_name_of, ignore_ascii_case_eq, join, joined,
    path_eq, same_path,
};
use crate::text::opt_text;
use discover::DiscoveredExe;
use manifest::{gameid_text, store_text, Manifest, RuntimeVersions};
use prefix::{AppStore, InstalledApp};
use runtime::{proton_rel, umu_run_rel, Runtime, PINNED_PROTON, PINNED_UMU};
use vstd::string::StringExecFns;

verus! {

/// Root of Weft's whole Windows world (`~/.local/share/weft/windows/`).
#[derive(Debug, Clone)]
pub struct WindowsRoot {
    path: String,
}

impl View for WindowsRoot {
    type V = Seq<char>;

    closed spec fn view(&self) -> Seq<char> {
        self.path@
    }
}

impl WindowsRoot {
    pub fn at(path: String) -> (r: Self)
        ensures
            r@ == path@,
    {
        WindowsRoot { path }
    }

    pub fn path(&self) -> (r: &str)
        ensures
            r@ == self@,
    {
        self.path.as_str()
    }

    /// The same root, owned again.
    pub fn copy(&self) -> (r: Self)
        ensures
            r@ == self@,
    {
        WindowsRoot { path: self.path.clone() }
    }

    pub fn runtimes_dir(&self) -> (r: String)
        ensures
            r@ == joined(self@, "runtimes"@),
    {
        join(self.path.as_str(), "runtimes")
    }

    pub fn apps_dir(&self) -> (r: String)
        ensures
            r@ == joined(self@, "apps"@),
    {
        join(self.path.as_str(), "apps")
    }
}

/// A program to start: its path, its arguments and the environment
/// variables set for it (added to the inherited environment).
#[derive(Debug, Clone)]
pub struct CommandPlan {
    pub program: String,
    pub args: Vec<String>,
    pub env: Vec<(String, String)>,
}

/// The texts of a list of strings.
pub open spec fn texts(v: Seq<String>) -> Seq<Seq<char>> {
    v.map_values(|s: String| s@)
}

/// The texts of a list of name/value pairs.
pub open spec fn pair_texts(v: Seq<(String, String)>) -> Seq<(Seq<char>, Seq<char>)> {
    v.map_values(|p: (String, String)| (p.0@, p.1@))
}

/// Installation options. The default: interactive installer, no per-game
/// fixes.
#[derive(Debug, Clone)]
pub struct InstallOptions {
    /// protonfixes id (gameid field of the manifest).
    pub gameid: Option<String>,
    /// Store of origin ("gog", "egs") for the fixes lookup.
    pub store: Option<String>,
    /// The game's id at its store.
    pub store_id: Option<String>,
    /// Display name imposed by a store (otherwise the one discovered in
    /// the prefix).
    pub name: Option<String>,
    /// Run the installer without its wizard (Inno/NSIS/MSI silent flags),
    /// for driven installs where nobody clicks.
    pub silent: bool,
}

impl Default for InstallOptions {
    fn default() -> (r: Self)
        ensures
            r.gameid is None,
            r.store is None,
            r.store_id is None,
            r.name is None,
            !r.silent,
    {
        InstallOptions { gameid: None, store: None, store_id: None, name: None, silent: false }
    }
}

// ------------------------------------------------------------------ //
// Portable programs                                                   //
// ------------------------------------------------------------------ //

/// Standard directories where a downloaded executable lands: their whole
/// content is never copied.
pub open spec fn common_names() -> Seq<Seq<char>> {
    seq![
        "Téléchargements"@,
        "Downloads"@,
        "Bureau"@,
        "Desktop"@,
        "Documents"@,
        "Images"@,
        "Pictures"@,
        "Videos"@,
        "Vidéos"@,
        "Musique"@,
        "Music"@,
    ]
}

/// `dir` is the home directory, `/tmp`, or one of the standard
/// directories of the home.
pub open spec fn common_dir(home: Option<Seq<char>>, dir: Seq<char>) -> bool {
    ||| (home matches Some(h) && same_path(h, dir))
    ||| same_path(dir, "/tmp"@)
    ||| (home matches Some(h) && exists|k: int|
        0 <= k < common_names().len() && #[trigger] same_path(joined(h, common_names()[k]), dir))
}

pub fn is_common_dir(home: Option<&str>, dir: &str) -> (r: bool)
    ensures
        r == common_dir(
            match home {
                Some(h) => Some(h@),
                None => None,
            },
            dir@,
        ),
{
    match home {
        Some(h) => {
            if path_eq(h, dir) {
                return true;
            }
        },
        None => {},
    }
    if path_eq(dir, "/tmp") {
        return true;
    }
    match home {
        None => false,
        Some(h) => {
            let mut names: Vec<&'static str> = Vec::new();
            names.push("Téléchargements");
            names.push("Downloads");
            names.push("Bureau");
            names.push("Desktop");
            names.push("Documents");
            names.push("Images");
            names.push("Pictures");
            names.push("Videos");
            names.push("Vidéos");
            names.push("Musique");
            names.push("Music");
            assert(names@.map_values(|n: &str| n@) =~= common_names());
            let mut i: usize = 0;
            while i < names.len()
                invariant
                    i <= names@.len(),
                    home == Some(h),
                    names@.map_values(|n: &str| n@) == common_names(),
                    forall|k: int| 0 <= k < i ==> !#[trigger] same_path(joined(h@, common_names()[k]), dir@),
                decreases names.len() - i,
            {
                assert(names@[i as int]@ == common_names()[i as int]);
                let p = join(h, names[i]);
                if path_eq(p.as_str(), dir) {
                    assert(same_path(joined(h@, common_names()[i as int]), dir@));
                    return true;
                }
                i = i + 1;
            }
            false
        },
    }
}

/// `p` has an `exe` extension, in any ASCII case.
pub open spec fn has_exe_extension(p: Seq<char>) -> bool {
    extension_of(p) matches Some(e) && eq_ignore_ascii_case(e, "exe"@)
}

/// Whether `dir`, the parent of the portable program `exe`, is the
/// program's own folder (to be copied whole) rather than a place where the
/// executable lies about: never a standard directory, readable, holding
/// another file besides the executable, and no other executable.
pub open spec fn app_folder(home: Option<Seq<char>>, dir: Seq<char>, exe: Seq<char>, entries: Option<Seq<Seq<char>>>) -> bool {
    &&& !common_dir(home, dir)
    &&& entries matches Some(es)
    &&& forall|i: int| 0 <= i < es.len() ==> !(has_exe_extension(#[trigger] es[i]) && !same_path(es[i], exe))
    &&& es.len() > 1
}

/// `entries` lists the paths in `dir` (`None` when it cannot be read).
pub fn is_app_folder(home: Option<&str>, dir: &str, exe: &str, entries: Option<&Vec<String>>) -> (r: bool)
    ensures
        r == app_folder(
            match home {
                Some(h) => Some(h@),
                None => None,
            },
            dir@,
            exe@,
            match entries {
                Some(es) => Some(texts(es@)),
                None => None,
            },
        ),
{
    let ghost hv: Option<Seq<char>> = match home {
        Some(h) => Some(h@),
        None => None,
    };
    if is_common_dir(home, dir) {
        return false;
    }
    let es = match entries {
        None => {
            return false;
        },
        Some(es) => es,
    };
    let mut i: usize = 0;
    while i < es.len()
        invariant
            i <= es@.len(),
            entries == Some(es),
            !common_dir(hv, dir@),
            hv == match home {
                Some(h) => Some(h@),
                None => None,
            },
            forall|k: int|
                0 <= k < i ==> !(has_exe_extension(#[trigger] texts(es@)[k]) && !same_path(texts(es@)[k], exe@)),
        decreases es.len() - i,
    {
        let p = es[i].as_str();
        assert(texts(es@)[i as int] == p@);
        let is_exe = match extension(p) {
            Some(x) => ignore_ascii_case_eq(x.as_str(), "exe"),
            None => false,
        };
        if is_exe && !path_eq(p, exe) {
            assert(has_exe_extension(texts(es@)[i as int]) && !same_path(texts(es@)[i as int], exe@));
            return false;
        }
        i = i + 1;
    }
    es.len() > 1
}

/// How a portable program is copied into its prefix: its whole folder,
/// or the executable alone.
#[derive(Debug, Clone)]
pub struct CopyPlan {
    pub source: String,
    pub dest: String,
    pub whole_dir: bool,
}

/// Where portable programs go in a prefix.
pub open spec fn portable_root(prefix: Seq<char>) -> Seq<char> {
    joined(prefix, "drive_c/weft-portable"@)
}

/// The text of a file name, empty when there is none.
pub open spec fn name_or_empty(p: Seq<char>) -> Seq<char> {
    match file_name_of(p) {
        Some(n) => n,
        None => Seq::empty(),
    }
}

/// The copy of the portable program `file` into `prefix`: the folder
/// `app_folder` when it is the program's own folder, otherwise the file
/// alone, under `drive_c/weft-portable`.
pub fn copy_plan(file: &str, prefix: &str, app_folder: Option<&str>) -> (r: CopyPlan)
    ensures
        match app_folder {
            Some(dir) => r.whole_dir && r.source@ == dir@ && r.dest@ == joined(
                portable_root(prefix@),
                name_or_empty(dir@),
            ),
            None => !r.whole_dir && r.source@ == file@ && r.dest@ == joined(
                portable_root(prefix@),
                name_or_empty(file@),
            ),
        },
{
    let root = join(prefix, "drive_c/weft-portable");
    match app_folder {
        Some(dir) => {
            let name = match file_name(dir) {
                Some(n) => n,
                None => String::new(),
            };
            CopyPlan { source: String::from_str(dir), dest: join(root.as_str(), name.as_str()), whole_dir: true }
        },
        None => {
            let name = match file_name(file) {
                Some(n) => n,
                None => String::new(),
            };
            CopyPlan { source: String::from_str(file), dest: join(root.as_str(), name.as_str()), whole_dir: false }
        },
    }
}

// ------------------------------------------------------------------ //
// Commands in a prefix                                                //
// ------------------------------------------------------------------ //

/// The launch variables of an app: its prefix, the Proton version pinned
/// in its manifest when it is still on disk (`pinned_present`), otherwise
/// Weft's, its gameid and its store; then the manifest's own per-app
/// variables, in order.
pub open spec fn umu_env_spec(root: Seq<char>, prefix: Seq<char>, manifest: Manifest, pinned_present: bool) -> Seq<(Seq<char>, Seq<char>)> {
    let proton = if pinned_present {
        joined(joined(joined(root, "runtimes"@), "proton"@), manifest.runtime.proton@)
    } else {
        joined(joined(root, "runtimes"@), proton_rel())
    };
    seq![
        ("WINEPREFIX"@, prefix),
        ("PROTONPATH"@, proton),
        ("GAMEID"@, gameid_text(manifest.gameid)),
        ("STORE"@, store_text(manifest.store)),
    ] + pair_texts(manifest.env@)
}

/// The app's launch: through legendary (which injects the Epic online
/// services' arguments) with umu-run as its wrapper for an Epic game when
/// legendary is there, otherwise umu-run on the executable.
pub open spec fn is_epic_game(manifest: Manifest) -> bool {
    store_text(manifest.store) == "egs"@ && manifest.store_id is Some
}

/// Façade of the engine: install, launch, list, remove.
pub struct WindowsEngine {
    runtime: Runtime,
    store: AppStore,
}

impl WindowsEngine {
    pub closed spec fn root(&self) -> Seq<char> {
        self.runtime.root()
    }

    pub fn new(root: WindowsRoot) -> (r: Self)
        ensures
            r.root() == root@,
    {
        let copy = root.copy();
        WindowsEngine { runtime: Runtime::new(copy), store: AppStore::new(root) }
    }

    pub fn runtime(&self) -> (r: &Runtime)
        ensures
            r.root() == self.root(),
    {
        proof {
            use_type_invariant(self);
        }
        &self.runtime
    }

    pub fn store(&self) -> (r: &AppStore)
        ensures
            r.root() == self.root(),
    {
        proof {
            use_type_invariant(self);
        }
        &self.store
    }

    #[verifier::type_invariant]
    closed spec fn same_root(&self) -> bool {
        self.runtime.root() == self.store.root()
    }

    /// The umu variables for an app in `prefix`.
    pub fn umu_env(&self, prefix: &str, manifest: &Manifest, pinned_present: bool) -> (r: Vec<(String, String)>)
        ensures
            pair_texts(r@) == umu_env_spec(self.root(), prefix@, *manifest, pinned_present),
    {
        let proton = if pinned_present {
            self.runtime.proton_version_dir(manifest.runtime.proton.as_str())
        } else {
            self.runtime.proton_dir()
        };
        let mut env: Vec<(String, String)> = Vec::new();
        env.push((String::from_str("WINEPREFIX"), String::from_str(prefix)));
        env.push((String::from_str("PROTONPATH"), proton));
        env.push((String::from_str("GAMEID"), String::from_str(manifest.gameid_or_default())));
        env.push((String::from_str("STORE"), String::from_str(manifest.store_or_none())));
        let ghost head = env@;
        let mut i: usize = 0;
        while i < manifest.env.len()
            invariant
                i <= manifest.env@.len(),
                env@ == head + manifest.env@.take(i as int).map_values(|p: (String, String)| p),
                pair_texts(head) == umu_env_spec(self.root(), prefix@, *manifest, pinned_present).take(4),
            decreases manifest.env@.len() - i,
        {
            let (k, v) = &manifest.env[i];
            env.push((k.clone(), v.clone()));
            i = i + 1;
        }
        assert(pair_texts(env@) =~= umu_env_spec(self.root(), prefix@, *manifest, pinned_present));
        env
    }

    /// A command run by umu-run in `prefix` during an installation: Weft's
    /// pinned Proton, no per-game fixes.
    pub fn prefix_command(&self, prefix: &str, args: Vec<String>) -> (r: CommandPlan)
        ensures
            r.program@ == joined(joined(self.root(), "runtimes"@), umu_run_rel()),
            r.args@ == args@,
            pair_texts(r.env@) == seq![
                ("WINEPREFIX"@, prefix@),
                ("PROTONPATH"@, joined(joined(self.root(), "runtimes"@), proton_rel())),
                ("GAMEID"@, "umu-default"@),
                ("STORE"@, "none"@),
            ],
    {
        let mut env: Vec<(String, String)> = Vec::new();
        env.push((String::from_str("WINEPREFIX"), String::from_str(prefix)));
        env.push((String::from_str("PROTONPATH"), self.runtime.proton_dir()));
        env.push((String::from_str("GAMEID"), String::from_str("umu-default")));
        env.push((String::from_str("STORE"), String::from_str("none")));
        assert(pair_texts(env@) =~= seq![
            ("WINEPREFIX"@, prefix@),
            ("PROTONPATH"@, joined(joined(self.root(), "runtimes"@), proton_rel())),
            ("GAMEID"@, "umu-default"@),
            ("STORE"@, "none"@),
        ]);
        CommandPlan { program: self.runtime.umu_run(), args, env }
    }

    /// How to launch an installed app. `app` is what the store holds under
    /// `slug` (`None`: unknown app, an error). `epic_available` tells
    /// whether legendary can run, `pinned_present` whether the Proton
    /// version of the manifest is still on disk, `exe_in_prefix` whether
    /// the executable is in the prefix.
    pub fn launch(
        &self,
        app: Option<&InstalledApp>,
        slug: &str,
        epic_available: bool,
        pinned_present: bool,
        exe_in_prefix: bool,
    ) -> (r: Result<CommandPlan, String>)
        ensures
            app is None ==> (r matches Err(m) && m@ == "app inconnue : "@ + slug@),
            app matches Some(a) ==> (r matches Ok(c) && launch_spec(self.root(), *a, epic_available, pinned_present, exe_in_prefix, c)),
    {
        let a = match app {
            None => {
                let mut m = String::from_str("app inconnue : ");
                m.append(slug);
                return Err(m);
            },
            Some(a) => a,
        };
        let prefix = a.prefix_dir();
        let env = self.umu_env(prefix.as_str(), &a.manifest, pinned_present);
        let st = crate::text::chars_of(a.manifest.store_or_none());
        let e = crate::text::chars_of("egs");
        let egs = crate::text::seq_eq(&st, &e);
        let umu = self.runtime.umu_run();
        if egs && a.manifest.store_id.is_some() && epic_available {
            let mut args: Vec<String> = Vec::new();
            args.push(String::from_str("launch"));
            args.push(String::from_str(match &a.manifest.store_id { Some(id) => id.as_str(), None => "" }));
            args.push(String::from_str("--no-wine"));
            args.push(String::from_str("--wrapper"));
            args.push(umu);
            assert(texts(args@) =~= seq![
                "launch"@,
                a.manifest.store_id.unwrap()@,
                "--no-wine"@,
                "--wrapper"@,
                joined(joined(self.root(), "runtimes"@), umu_run_rel()),
            ]);
            Ok(CommandPlan { program: String::from_str("legendary"), args, env })
        } else {
            let mut args: Vec<String> = Vec::new();
            args.push(a.exe_path(exe_in_prefix));
            assert(texts(args@) =~= seq![
                if exe_in_prefix {
                    joined(joined(a.dir@, "prefix"@), a.manifest.exe@)
                } else {
                    joined(a.dir@, a.manifest.exe@)
                },
            ]);
            Ok(CommandPlan { program: umu, args, env })
        }
    }
}

/// The launch command of app `a`: see [`WindowsEngine::launch`].
pub open spec fn launch_spec(
    root: Seq<char>,
    a: InstalledApp,
    epic_available: bool,
    pinned_present: bool,
    exe_in_prefix: bool,
    c: CommandPlan,
) -> bool {
    let umu = joined(joined(root, "runtimes"@), umu_run_rel());
    &&& pair_texts(c.env@) == umu_env_spec(root, joined(a.dir@, "prefix"@), a.manifest, pinned_present)
    &&& if is_epic_game(a.manifest) && epic_available {
        &&& c.program@ == "legendary"@
        &&& texts(c.args@) == seq!["launch"@, a.manifest.store_id.unwrap()@, "--no-wine"@, "--wrapper"@, umu]
    } else {
        &&& c.program@ == umu
        &&& texts(c.args@) == seq![
            if exe_in_prefix {
                joined(joined(a.dir@, "prefix"@), a.manifest.exe@)
            } else {
                joined(a.dir@, a.manifest.exe@)
            },
        ]
    }
}

} // verus!
