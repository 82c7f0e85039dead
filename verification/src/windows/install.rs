//! The installation of a Windows program as a sequence of decisions: the
//! application performs each action (checks, running the installer,
//! walking the prefix, writing the manifest) and reports its outcome as
//! the next event; the job decides what comes next.
use vstd::prelude::*;

use super::discover::DiscoveredExe;
use super::installer::InstallerKind;
use super::manifest::{env_in_name_order, Manifest, RuntimeVersions};
use super::prefix::InstalledApp;
use super::runtime::{proton_rel, umu_run_rel, Runtime, PINNED_PROTON, PINNED_UMU};
use super::{pair_texts, texts, CommandPlan, InstallOptions, WindowsEngine, WindowsRoot};
use crate::path::{file_stem, file_stem_of, join, joined};
use crate::text::{chars_of, opt_text, seq_eq};
use vstd::string::StringExecFns;

verus! {

/// Where an installation stands.
#[derive(Debug)]
pub enum InstallState {
    /// Nothing checked yet.
    Start,
    /// The runtime is ready and the file is there.
    Checked,
    /// The installer kind is known; an app directory is being reserved.
    Reserving { kind: InstallerKind },
    /// The installer (or the copy) runs in the reserved app `slug`.
    Running { slug: String, dir: String },
    /// The installer has run; what it left is being looked for.
    Discovering { slug: String, dir: String },
    /// The manifest is built; the installed apps are compared with it.
    Comparing { slug: String, dir: String, manifest: Manifest },
    /// The manifest is being written for app `slug` in `dir`.
    Saving { slug: String, dir: String, manifest: Manifest },
    /// Finished or failed.
    Over,
}

/// What the application reports after performing an action.
#[derive(Debug)]
pub enum InstallEvent {
    /// After `Check`: the runtime's readiness and whether the file exists.
    Checked { runtime_ready: bool, file_exists: bool },
    /// After `Detect`.
    Detected { kind: InstallerKind },
    /// After `Reserve`: the slug and directory created for the app.
    Reserved { slug: String, dir: String },
    /// After `CopyPortable` or `RunInstaller`: whether it succeeded.
    Ran { ok: bool },
    /// After `Discover`: what was found, and the date of now (RFC 3339).
    Discovered { found: Vec<DiscoveredExe>, created: String },
    /// After `ListApps`.
    Listed { apps: Vec<InstalledApp> },
    /// After `Replace`.
    Replaced,
    /// After `Save`.
    Saved,
    /// An action could not be performed.
    Failed { message: String },
}

/// What the application is to do next.
#[derive(Debug)]
pub enum InstallAction {
    /// Report the runtime's readiness and whether the file exists.
    Check,
    /// Detect the installer kind of the file.
    Detect,
    /// Reserve an app directory (with `prefix/` and `logs/`) for `hint`.
    Reserve { hint: String },
    /// Copy the portable program `file` into `prefix`.
    CopyPortable { file: String, prefix: String, message: String },
    /// Run the installer, its output going to the file `log`.
    RunInstaller { command: CommandPlan, log: String, message: String },
    /// Look for what was installed in `prefix`.
    Discover { prefix: String, message: String },
    /// List the installed apps.
    ListApps,
    /// Remove the app `old` and move the directory `from` to `to`.
    Replace { old: String, from: String, to: String, message: String },
    /// Write `manifest` to `path`, then extract the icon of `exe` to `icon`.
    Save { manifest: Manifest, path: String, exe: String, icon: String },
    /// Done: the app is installed.
    Finish { app: InstalledApp, message: String },
    /// Stop: remove the reserved app `remove` if any, and report `message`.
    Fail { remove: Option<String>, message: String },
}

/// An installation in progress.
pub struct InstallJob {
    pub root: WindowsRoot,
    pub file: String,
    pub opts: InstallOptions,
    pub state: InstallState,
}

pub open spec fn msg_not_ready() -> Seq<char> {
    "environnement Windows pas encore prêt (weft-windows runtime fetch)"@
}

pub open spec fn msg_missing(file: Seq<char>) -> Seq<char> {
    "fichier introuvable : "@ + file
}

pub open spec fn msg_unknown() -> Seq<char> {
    "ce fichier n'est ni un programme Windows ni un installeur reconnu"@
}

pub open spec fn msg_run_failed() -> Seq<char> {
    "l'installation ne s'est pas terminée correctement"@
}

pub open spec fn msg_nothing() -> Seq<char> {
    "l'installation n'a laissé aucun programme reconnaissable (annulée ?)"@
}

pub open spec fn msg_unexpected() -> Seq<char> {
    "étape d'installation inattendue"@
}

pub open spec fn msg_busy() -> Seq<char> {
    "Installation en cours…"@
}

/// The progress message while the installer of `kind` runs.
pub open spec fn msg_running(kind: InstallerKind, silent: bool) -> Seq<char> {
    if kind == InstallerKind::PortableExe {
        "Programme portable : copie dans son environnement…"@
    } else if silent {
        msg_busy()
    } else if kind == InstallerKind::Msi {
        "Installation (Windows Installer)… suis l'assistant s'il s'affiche."@
    } else {
        "Installation… suis l'assistant qui va s'afficher."@
    }
}

pub open spec fn msg_discover() -> Seq<char> {
    "Recherche du programme installé…"@
}

pub open spec fn msg_replacing(name: Seq<char>) -> Seq<char> {
    "« "@ + name + " » déjà installé : remplacement."@
}

pub open spec fn msg_installed(name: Seq<char>) -> Seq<char> {
    "« "@ + name + " » installé."@
}

/// The name the app directory is derived from: the file's stem, or "app".
pub open spec fn hint_of(file: Seq<char>) -> Seq<char> {
    match file_stem_of(file) {
        Some(s) => s,
        None => "app"@,
    }
}

/// The arguments given to umu-run for an installer of `kind`.
pub open spec fn installer_args(kind: InstallerKind, file: Seq<char>, silent: bool) -> Seq<Seq<char>> {
    if kind == InstallerKind::Msi {
        seq!["msiexec"@, "/i"@, file] + if silent {
            seq!["/qn"@]
        } else {
            Seq::empty()
        }
    } else if kind == InstallerKind::Inno {
        seq![file] + if silent {
            seq!["/VERYSILENT"@, "/SUPPRESSMSGBOXES"@, "/NORESTART"@]
        } else {
            Seq::empty()
        }
    } else {
        seq![file] + if silent {
            seq!["/S"@]
        } else {
            Seq::empty()
        }
    }
}

/// The manifest of a fresh install: the store's name when given,
/// otherwise the discovered one; the discovered executable; the options'
/// fixes and store; now; the pinned versions; no extra environment.
pub open spec fn fresh_manifest(m: Manifest, opts: InstallOptions, main: DiscoveredExe, created: Seq<char>) -> bool {
    &&& m.name@ == (match opts.name {
        Some(n) => n@,
        None => main.name@,
    })
    &&& m.exe@ == main.exe@
    &&& opt_text(m.gameid) == opt_text(opts.gameid)
    &&& opt_text(m.store) == opt_text(opts.store)
    &&& opt_text(m.store_id) == opt_text(opts.store_id)
    &&& m.created@ == created
    &&& m.runtime.proton@ == PINNED_PROTON@
    &&& m.runtime.umu@ == PINNED_UMU@
    &&& m.env@.len() == 0
    &&& env_in_name_order(m.env@)
}

/// An installed app other than `current` that is the same program: same
/// name and same executable.
pub open spec fn same_app(a: InstalledApp, current: Seq<char>, m: Manifest) -> bool {
    a.slug@ != current && a.manifest.name@ == m.name@ && a.manifest.exe@ == m.exe@
}

/// The first installed app that is the same program as the one just
/// installed under `current_slug`: reinstalling replaces it instead of
/// piling up a duplicate.
pub fn find_same_app(current_slug: &str, manifest: &Manifest, apps: &Vec<InstalledApp>) -> (r: Option<String>)
    ensures
        match r {
            Some(s) => exists|i: int|
                0 <= i < apps@.len() && same_app(#[trigger] apps@[i], current_slug@, *manifest) && s@
                    == apps@[i].slug@ && forall|j: int| 0 <= j < i ==> !same_app(#[trigger] apps@[j], current_slug@, *manifest),
            None => forall|i: int| 0 <= i < apps@.len() ==> !same_app(#[trigger] apps@[i], current_slug@, *manifest),
        },
{
    let cur = chars_of(current_slug);
    let name = chars_of(manifest.name.as_str());
    let exe = chars_of(manifest.exe.as_str());
    let mut i: usize = 0;
    while i < apps.len()
        invariant
            i <= apps@.len(),
            cur@ == current_slug@,
            name@ == manifest.name@,
            exe@ == manifest.exe@,
            forall|j: int| 0 <= j < i ==> !same_app(#[trigger] apps@[j], current_slug@, *manifest),
        decreases apps.len() - i,
    {
        let a = &apps[i];
        let s = chars_of(a.slug.as_str());
        let n = chars_of(a.manifest.name.as_str());
        let e = chars_of(a.manifest.exe.as_str());
        if !seq_eq(&s, &cur) && seq_eq(&n, &name) && seq_eq(&e, &exe) {
            assert(same_app(apps@[i as int], current_slug@, *manifest));
            return Some(a.slug.clone());
        }
        i = i + 1;
    }
    None
}

/// `a` is the action `Fail` removing `remove` and reporting `message`.
pub open spec fn fails(a: InstallAction, remove: Option<Seq<char>>, message: Seq<char>) -> bool {
    a matches InstallAction::Fail { remove: rm, message: m } && opt_text(rm) == remove && m@ == message
}

/// The events each state waits for (a failure report is always heard).
pub open spec fn expects(state: InstallState, event: InstallEvent) -> bool {
    match (state, event) {
        (InstallState::Over, _) => false,
        (_, InstallEvent::Failed { .. }) => true,
        (InstallState::Start, InstallEvent::Checked { .. }) => true,
        (InstallState::Checked, InstallEvent::Detected { .. }) => true,
        (InstallState::Reserving { .. }, InstallEvent::Reserved { .. }) => true,
        (InstallState::Running { .. }, InstallEvent::Ran { .. }) => true,
        (InstallState::Discovering { .. }, InstallEvent::Discovered { .. }) => true,
        (InstallState::Comparing { .. }, InstallEvent::Listed { .. }) => true,
        (InstallState::Saving { .. }, InstallEvent::Replaced) => true,
        (InstallState::Saving { .. }, InstallEvent::Saved) => true,
        _ => false,
    }
}

/// The reserved app whose directory a failure removes: the one being
/// installed into, until the installer has run.
pub open spec fn reserved_slug(state: InstallState) -> Option<Seq<char>> {
    match state {
        InstallState::Running { slug, .. } => Some(slug@),
        InstallState::Discovering { slug, .. } => Some(slug@),
        _ => None,
    }
}

/// After the directory is reserved: an unknown file is refused, a
/// portable program is copied, an installer runs in the app's prefix.
pub open spec fn reserved_step(
    root: Seq<char>,
    file: Seq<char>,
    opts: InstallOptions,
    kind: InstallerKind,
    slug: String,
    dir: String,
    next: InstallState,
    r: InstallAction,
) -> bool {
    if kind == InstallerKind::Unknown {
        next is Over && fails(r, Some(slug@), msg_unknown())
    } else {
        &&& next matches InstallState::Running { slug: s, dir: d } && s@ == slug@ && d@ == dir@
        &&& if kind == InstallerKind::PortableExe {
            r matches InstallAction::CopyPortable { file: f, prefix, message } && f@ == file && prefix@ == joined(
                dir@,
                "prefix"@,
            ) && message@ == msg_running(kind, opts.silent)
        } else {
            r matches InstallAction::RunInstaller { command, log, message } && command.program@ == joined(
                joined(root, "runtimes"@),
                umu_run_rel(),
            ) && texts(command.args@) == installer_args(kind, file, opts.silent) && pair_texts(command.env@) == seq![
                ("WINEPREFIX"@, joined(dir@, "prefix"@)),
                ("PROTONPATH"@, joined(joined(root, "runtimes"@), proton_rel())),
                ("GAMEID"@, "umu-default"@),
                ("STORE"@, "none"@),
            ] && log@ == joined(dir@, "logs/install.log"@) && message@ == msg_running(kind, opts.silent)
        }
    }
}

/// After the discovery: nothing found fails, otherwise the first
/// executable found makes the manifest.
pub open spec fn discovered_step(
    opts: InstallOptions,
    slug: String,
    dir: String,
    found: Vec<DiscoveredExe>,
    created: String,
    next: InstallState,
    r: InstallAction,
) -> bool {
    if found@.len() == 0 {
        next is Over && fails(r, Some(slug@), msg_nothing())
    } else {
        &&& next matches InstallState::Comparing { slug: s, dir: d, manifest } && s@ == slug@ && d@ == dir@
            && fresh_manifest(manifest, opts, found@[0], created@)
        &&& r is ListApps
    }
}

/// After the listing: the same program installed before is replaced (its
/// slug and directory are kept), otherwise the manifest is saved.
pub open spec fn compared_step(
    root: Seq<char>,
    slug: String,
    dir: String,
    manifest: Manifest,
    apps: Vec<InstalledApp>,
    next: InstallState,
    r: InstallAction,
) -> bool {
    match find_first_same(apps@, slug@, manifest) {
        Some(i) => {
            let old_slug = apps@[i].slug@;
            let to = joined(joined(root, "apps"@), old_slug);
            &&& next matches InstallState::Saving { slug: s, dir: d, manifest: m } && s@ == old_slug && d@ == to
                && m == manifest
            &&& r matches InstallAction::Replace { old, from, to: t, message } && old@ == old_slug && from@ == dir@
                && t@ == to && message@ == msg_replacing(manifest.name@)
        },
        None => {
            &&& next matches InstallState::Saving { slug: s, dir: d, manifest: m } && s@ == slug@ && d@ == dir@ && m
                == manifest
            &&& saves(r, dir@, manifest)
        },
    }
}

/// The whole transition: the next state and action for an event heard in
/// a state.
pub open spec fn install_step(
    root: Seq<char>,
    file: Seq<char>,
    opts: InstallOptions,
    state: InstallState,
    event: InstallEvent,
    next: InstallState,
    r: InstallAction,
) -> bool {
    if !expects(state, event) {
        next is Over && fails(r, None, msg_unexpected())
    } else {
        match event {
            InstallEvent::Failed { message } => next is Over && fails(r, reserved_slug(state), message@),
            InstallEvent::Checked { runtime_ready, file_exists } => if !runtime_ready {
                next is Over && fails(r, None, msg_not_ready())
            } else if !file_exists {
                next is Over && fails(r, None, msg_missing(file))
            } else {
                next is Checked && r is Detect
            },
            InstallEvent::Detected { kind } => {
                &&& next == InstallState::Reserving { kind }
                &&& r matches InstallAction::Reserve { hint } && hint@ == hint_of(file)
            },
            InstallEvent::Reserved { slug, dir } => match state {
                InstallState::Reserving { kind } => reserved_step(root, file, opts, kind, slug, dir, next, r),
                _ => false,
            },
            InstallEvent::Ran { ok } => match state {
                InstallState::Running { slug, dir } => if !ok {
                    next is Over && fails(r, Some(slug@), msg_run_failed())
                } else {
                    &&& next matches InstallState::Discovering { slug: s, dir: d } && s@ == slug@ && d@ == dir@
                    &&& r matches InstallAction::Discover { prefix, message } && prefix@ == joined(dir@, "prefix"@)
                        && message@ == msg_discover()
                },
                _ => false,
            },
            InstallEvent::Discovered { found, created } => match state {
                InstallState::Discovering { slug, dir } => discovered_step(opts, slug, dir, found, created, next, r),
                _ => false,
            },
            InstallEvent::Listed { apps } => match state {
                InstallState::Comparing { slug, dir, manifest } => compared_step(root, slug, dir, manifest, apps, next, r),
                _ => false,
            },
            InstallEvent::Replaced => match state {
                InstallState::Saving { slug, dir, manifest } => next == state && saves(r, dir@, manifest),
                _ => false,
            },
            InstallEvent::Saved => match state {
                InstallState::Saving { slug, dir, manifest } => {
                    &&& next is Over
                    &&& r matches InstallAction::Finish { app, message } && app.slug@ == slug@ && app.dir@ == dir@
                        && app.manifest == manifest && message@ == msg_installed(manifest.name@)
                },
                _ => false,
            },
        }
    }
}

impl InstallJob {
    /// Moves on after `event`: returns the next action and records the
    /// new state.
    pub fn step(&mut self, event: InstallEvent) -> (r: InstallAction)
        ensures
            final(self).root@ == old(self).root@,
            final(self).file@ == old(self).file@,
            final(self).opts == old(self).opts,
            install_step(old(self).root@, old(self).file@, old(self).opts, old(self).state, event, final(self).state, r),
    {
        let mut state = InstallState::Over;
        std::mem::swap(&mut state, &mut self.state);
        if let InstallEvent::Failed { message } = event {
            let remove = match state {
                InstallState::Over => {
                    return unexpected();
                },
                InstallState::Running { slug, .. } => Some(slug),
                InstallState::Discovering { slug, .. } => Some(slug),
                _ => None,
            };
            return InstallAction::Fail { remove, message };
        }
        match (state, event) {
            (InstallState::Start, InstallEvent::Checked { runtime_ready, file_exists }) => {
                if !runtime_ready {
                    return InstallAction::Fail {
                        remove: None,
                        message: String::from_str("environnement Windows pas encore prêt (weft-windows runtime fetch)"),
                    };
                }
                if !file_exists {
                    let mut m = String::from_str("fichier introuvable : ");
                    m.append(self.file.as_str());
                    return InstallAction::Fail { remove: None, message: m };
                }
                self.state = InstallState::Checked;
                InstallAction::Detect
            },
            (InstallState::Checked, InstallEvent::Detected { kind }) => {
                let hint = match file_stem(self.file.as_str()) {
                    Some(s) => s,
                    None => String::from_str("app"),
                };
                self.state = InstallState::Reserving { kind };
                InstallAction::Reserve { hint }
            },
            (InstallState::Reserving { kind }, InstallEvent::Reserved { slug, dir }) => {
                self.reserved(kind, slug, dir)
            },
            (InstallState::Running { slug, dir }, InstallEvent::Ran { ok }) => {
                if !ok {
                    return InstallAction::Fail {
                        remove: Some(slug),
                        message: String::from_str("l'installation ne s'est pas terminée correctement"),
                    };
                }
                let prefix = join(dir.as_str(), "prefix");
                self.state = InstallState::Discovering { slug, dir };
                InstallAction::Discover { prefix, message: String::from_str("Recherche du programme installé…") }
            },
            (InstallState::Discovering { slug, dir }, InstallEvent::Discovered { found, created }) => {
                self.discovered(slug, dir, found, created)
            },
            (InstallState::Comparing { slug, dir, manifest }, InstallEvent::Listed { apps }) => {
                self.compared(slug, dir, manifest, apps)
            },
            (InstallState::Saving { slug, dir, manifest }, InstallEvent::Replaced) => {
                let r = save_action(dir.as_str(), &manifest);
                self.state = InstallState::Saving { slug, dir, manifest };
                r
            },
            (InstallState::Saving { slug, dir, manifest }, InstallEvent::Saved) => {
                let mut m = String::from_str("« ");
                m.append(manifest.name.as_str());
                m.append(" » installé.");
                InstallAction::Finish { app: InstalledApp { slug, dir, manifest }, message: m }
            },
            _ => unexpected(),
        }
    }

    fn reserved(&mut self, kind: InstallerKind, slug: String, dir: String) -> (r: InstallAction)
        requires
            old(self).state is Over,
        ensures
            final(self).root@ == old(self).root@,
            final(self).file@ == old(self).file@,
            final(self).opts == old(self).opts,
            reserved_step(old(self).root@, old(self).file@, old(self).opts, kind, slug, dir, final(self).state, r),
    {
        if kind == InstallerKind::Unknown {
            return InstallAction::Fail {
                remove: Some(slug),
                message: String::from_str("ce fichier n'est ni un programme Windows ni un installeur reconnu"),
            };
        }
        let prefix = join(dir.as_str(), "prefix");
        let silent = self.opts.silent;
        let message = if kind == InstallerKind::PortableExe {
            String::from_str("Programme portable : copie dans son environnement…")
        } else if silent {
            String::from_str("Installation en cours…")
        } else if kind == InstallerKind::Msi {
            String::from_str("Installation (Windows Installer)… suis l'assistant s'il s'affiche.")
        } else {
            String::from_str("Installation… suis l'assistant qui va s'afficher.")
        };
        if kind == InstallerKind::PortableExe {
            let file = self.file.clone();
            self.state = InstallState::Running { slug, dir };
            return InstallAction::CopyPortable { file, prefix, message };
        }
        let mut args: Vec<String> = Vec::new();
        if kind == InstallerKind::Msi {
            args.push(String::from_str("msiexec"));
            args.push(String::from_str("/i"));
        }
        args.push(self.file.clone());
        if silent {
            if kind == InstallerKind::Msi {
                args.push(String::from_str("/qn"));
            } else if kind == InstallerKind::Inno {
                args.push(String::from_str("/VERYSILENT"));
                args.push(String::from_str("/SUPPRESSMSGBOXES"));
                args.push(String::from_str("/NORESTART"));
            } else {
                args.push(String::from_str("/S"));
            }
        }
        assert(texts(args@) =~= installer_args(kind, self.file@, silent));
        let engine = WindowsEngine::new(self.root.copy());
        let command = engine.prefix_command(prefix.as_str(), args);
        let log = join(dir.as_str(), "logs/install.log");
        self.state = InstallState::Running { slug, dir };
        InstallAction::RunInstaller { command, log, message }
    }

    fn discovered(&mut self, slug: String, dir: String, found: Vec<DiscoveredExe>, created: String) -> (r: InstallAction)
        requires
            old(self).state is Over,
        ensures
            final(self).root@ == old(self).root@,
            final(self).file@ == old(self).file@,
            final(self).opts == old(self).opts,
            discovered_step(old(self).opts, slug, dir, found, created, final(self).state, r),
    {
        if found.len() == 0 {
            return InstallAction::Fail {
                remove: Some(slug),
                message: String::from_str("l'installation n'a laissé aucun programme reconnaissable (annulée ?)"),
            };
        }
        let main = &found[0];
        let name = match &self.opts.name {
            Some(n) => n.clone(),
            None => main.name.clone(),
        };
        let manifest = Manifest {
            name,
            exe: main.exe.clone(),
            gameid: copy_opt(&self.opts.gameid),
            store: copy_opt(&self.opts.store),
            store_id: copy_opt(&self.opts.store_id),
            created,
            runtime: RuntimeVersions {
                proton: String::from_str(PINNED_PROTON),
                umu: String::from_str(PINNED_UMU),
            },
            env: Vec::new(),
        };
        self.state = InstallState::Comparing { slug, dir, manifest };
        InstallAction::ListApps
    }

    fn compared(&mut self, slug: String, dir: String, manifest: Manifest, apps: Vec<InstalledApp>) -> (r: InstallAction)
        requires
            old(self).state is Over,
        ensures
            final(self).root@ == old(self).root@,
            final(self).file@ == old(self).file@,
            final(self).opts == old(self).opts,
            compared_step(old(self).root@, slug, dir, manifest, apps, final(self).state, r),
    {
        let same = find_same_app(slug.as_str(), &manifest, &apps);
        proof {
            lemma_find_first_same(apps@, slug@, manifest);
        }
        match same {
            Some(old) => {
                let store = super::prefix::AppStore::new(self.root.copy());
                let to = store.app_dir(old.as_str());
                let mut m = String::from_str("« ");
                m.append(manifest.name.as_str());
                m.append(" » déjà installé : remplacement.");
                let r = InstallAction::Replace { old: old.clone(), from: dir, to: to.clone(), message: m };
                self.state = InstallState::Saving { slug: old, dir: to, manifest };
                r
            },
            None => {
                let r = save_action(dir.as_str(), &manifest);
                self.state = InstallState::Saving { slug, dir, manifest };
                r
            },
        }
    }
}

/// The index of the first app that is the same program as `m`.
pub open spec fn find_first_same(apps: Seq<InstalledApp>, current: Seq<char>, m: Manifest) -> Option<int> {
    if exists|i: int| 0 <= i < apps.len() && same_app(#[trigger] apps[i], current, m) {
        Some(
            choose|i: int|
                0 <= i < apps.len() && same_app(#[trigger] apps[i], current, m) && forall|j: int|
                    0 <= j < i ==> !same_app(#[trigger] apps[j], current, m),
        )
    } else {
        None
    }
}

proof fn lemma_find_first_same(apps: Seq<InstalledApp>, current: Seq<char>, m: Manifest)
    ensures
        match find_first_same(apps, current, m) {
            Some(i) => 0 <= i < apps.len() && same_app(apps[i], current, m) && forall|j: int|
                0 <= j < i ==> !same_app(#[trigger] apps[j], current, m),
            None => forall|i: int| 0 <= i < apps.len() ==> !same_app(#[trigger] apps[i], current, m),
        },
{
    if exists|i: int| 0 <= i < apps.len() && same_app(#[trigger] apps[i], current, m) {
        let k = choose|i: int| 0 <= i < apps.len() && same_app(#[trigger] apps[i], current, m);
        lemma_first_witness(apps, current, m, k);
    }
}

proof fn lemma_first_witness(apps: Seq<InstalledApp>, current: Seq<char>, m: Manifest, k: int)
    requires
        0 <= k < apps.len(),
        same_app(apps[k], current, m),
    ensures
        exists|i: int|
            0 <= i < apps.len() && same_app(#[trigger] apps[i], current, m) && forall|j: int|
                0 <= j < i ==> !same_app(#[trigger] apps[j], current, m),
    decreases k,
{
    if exists|j: int| 0 <= j < k && same_app(#[trigger] apps[j], current, m) {
        let j = choose|j: int| 0 <= j < k && same_app(#[trigger] apps[j], current, m);
        lemma_first_witness(apps, current, m, j);
    } else {
        assert(forall|j: int| 0 <= j < k ==> !same_app(#[trigger] apps[j], current, m));
    }
}

/// The same manifest: equal fields, the same environment.
pub open spec fn manifest_eq(a: Manifest, b: Manifest) -> bool {
    &&& a.name == b.name
    &&& a.exe == b.exe
    &&& a.gameid == b.gameid
    &&& a.store == b.store
    &&& a.store_id == b.store_id
    &&& a.created == b.created
    &&& a.runtime == b.runtime
    &&& a.env@ == b.env@
}

/// `a` writes `manifest` into `dir`, then extracts the icon of the
/// executable in the prefix.
pub open spec fn saves(a: InstallAction, dir: Seq<char>, manifest: Manifest) -> bool {
    a matches InstallAction::Save { manifest: m, path, exe, icon } && manifest_eq(m, manifest) && path@ == joined(
        dir,
        "manifest.toml"@,
    ) && exe@ == joined(joined(dir, "prefix"@), manifest.exe@) && icon@ == joined(dir, "icon.png"@)
}

fn save_action(dir: &str, manifest: &Manifest) -> (r: InstallAction)
    ensures
        saves(r, dir@, *manifest),
{
    let path = join(dir, "manifest.toml");
    let prefix = join(dir, "prefix");
    let exe = join(prefix.as_str(), manifest.exe.as_str());
    let icon = join(dir, "icon.png");
    InstallAction::Save { manifest: copy_manifest(manifest), path, exe, icon }
}

fn unexpected() -> (r: InstallAction)
    ensures
        fails(r, None, msg_unexpected()),
{
    InstallAction::Fail { remove: None, message: String::from_str("étape d'installation inattendue") }
}

/// The same optional text, owned again.
pub fn copy_opt(o: &Option<String>) -> (r: Option<String>)
    ensures
        opt_text(r) == opt_text(*o),
{
    match o {
        Some(s) => Some(s.clone()),
        None => None,
    }
}

fn copy_opt_eq(o: &Option<String>) -> (r: Option<String>)
    ensures
        r == *o,
{
    match o {
        Some(s) => Some(s.clone()),
        None => None,
    }
}

/// The same manifest, owned again.
pub fn copy_manifest(m: &Manifest) -> (r: Manifest)
    ensures
        manifest_eq(r, *m),
{
    let mut env: Vec<(String, String)> = Vec::new();
    let mut i: usize = 0;
    while i < m.env.len()
        invariant
            i <= m.env@.len(),
            env@ == m.env@.take(i as int),
        decreases m.env.len() - i,
    {
        let (k, v) = &m.env[i];
        env.push((k.clone(), v.clone()));
        i = i + 1;
        assert(env@ =~= m.env@.take(i as int));
    }
    assert(m.env@.take(m.env@.len() as int) =~= m.env@);
    Manifest {
        name: m.name.clone(),
        exe: m.exe.clone(),
        gameid: copy_opt_eq(&m.gameid),
        store: copy_opt_eq(&m.store),
        store_id: copy_opt_eq(&m.store_id),
        created: m.created.clone(),
        runtime: RuntimeVersions { proton: m.runtime.proton.clone(), umu: m.runtime.umu.clone() },
        env,
    }
}

impl WindowsEngine {
    /// Starts the installation of the Windows program `file` (installer or
    /// portable) into its own isolated prefix: the job, and its first
    /// action (the checks).
    pub fn install(&self, file: String, opts: InstallOptions) -> (r: (InstallJob, InstallAction))
        ensures
            r.0.root@ == self.root(),
            r.0.file@ == file@,
            r.0.opts == opts,
            r.0.state is Start,
            r.1 is Check,
    {
        let root = self.runtime().windows_root().copy();
        (InstallJob { root, file, opts, state: InstallState::Start }, InstallAction::Check)
    }
}

// ------------------------------------------------------------------ //
// Epic games                                                          //
// ------------------------------------------------------------------ //

/// Where the installation of an Epic game stands.
#[derive(Debug)]
pub enum EpicState {
    Start,
    /// Checks passed; the library is being read.
    Checked,
    /// The game is in the library under `title`; the installed apps are listed.
    Listing { title: String },
    /// An app directory is being reserved.
    Reserving { title: String },
    /// legendary downloads the game into the app `slug`.
    Downloading { title: String, slug: String, dir: String },
    /// legendary is asked where it put the game.
    Querying { title: String, slug: String, dir: String },
    /// The umu database is asked for the game's fixes.
    Looking { title: String, slug: String, dir: String, exe: String },
    /// The manifest of `app` is being written.
    Saving { app: InstalledApp },
    Over,
}

#[derive(Debug)]
pub enum EpicEvent {
    /// After `Check`: runtime readiness, legendary's presence, an account.
    Checked { runtime_ready: bool, legendary: bool, logged_in: bool },
    /// After `ReadLibrary`.
    Library { games: Result<Vec<super::epic::EpicGame>, String> },
    /// After `ListApps`.
    Listed { apps: Vec<InstalledApp> },
    /// After `Reserve`.
    Reserved { slug: String, dir: String },
    /// After `Download`.
    Ran { ok: bool },
    /// After `QueryInstalled`: the install directory and executable.
    Installed { info: Option<(String, String)> },
    /// After `LookupFixes`: the gameid found, and the date of now.
    Fixes { gameid: Option<String>, created: String },
    /// After `Save`.
    Saved,
    Failed { message: String },
}

#[derive(Debug)]
pub enum EpicAction {
    Check,
    /// Read the account's library (`legendary list --json`).
    ReadLibrary,
    ListApps,
    /// Remove the app `replace` if any (reporting `message`), then reserve
    /// an app directory for `hint`.
    Reserve { hint: String, replace: Option<String>, message: Option<String> },
    /// Download the game, output to the file `log`.
    Download { command: CommandPlan, log: String, message: String },
    /// Ask legendary where the game is (`legendary list-installed --json`).
    QueryInstalled,
    /// Ask the umu database at `url`.
    LookupFixes { url: String, message: String },
    /// Write the manifest of `app` to `path`, then extract its icon.
    Save { app: InstalledApp, path: String },
    Finish { app: InstalledApp, message: String },
    Fail { remove: Option<String>, message: String },
}

pub struct EpicJob {
    pub root: WindowsRoot,
    pub app_name: String,
    pub state: EpicState,
}

pub open spec fn epic_fails(a: EpicAction, remove: Option<Seq<char>>, message: Seq<char>) -> bool {
    a matches EpicAction::Fail { remove: rm, message: m } && opt_text(rm) == remove && m@ == message
}

pub open spec fn epic_expects(state: EpicState, event: EpicEvent) -> bool {
    match (state, event) {
        (EpicState::Over, _) => false,
        (_, EpicEvent::Failed { .. }) => true,
        (EpicState::Start, EpicEvent::Checked { .. }) => true,
        (EpicState::Checked, EpicEvent::Library { .. }) => true,
        (EpicState::Listing { .. }, EpicEvent::Listed { .. }) => true,
        (EpicState::Reserving { .. }, EpicEvent::Reserved { .. }) => true,
        (EpicState::Downloading { .. }, EpicEvent::Ran { .. }) => true,
        (EpicState::Querying { .. }, EpicEvent::Installed { .. }) => true,
        (EpicState::Looking { .. }, EpicEvent::Fixes { .. }) => true,
        (EpicState::Saving { .. }, EpicEvent::Saved) => true,
        _ => false,
    }
}

/// The title of `app_name` in the library: the first game with that id.
pub open spec fn title_in(games: Seq<super::epic::EpicGame>, app_name: Seq<char>) -> Option<Seq<char>>
    decreases games.len(),
{
    if games.len() == 0 {
        None
    } else if games[0].app_name@ == app_name {
        Some(games[0].title@)
    } else {
        title_in(games.drop_first(), app_name)
    }
}

/// The installed app of the same Epic game: the first whose store id is
/// `app_name`.
pub open spec fn same_game(apps: Seq<InstalledApp>, app_name: Seq<char>) -> Option<InstalledApp>
    decreases apps.len(),
{
    if apps.len() == 0 {
        None
    } else if opt_text(apps[0].manifest.store_id) == Some(app_name) {
        Some(apps[0])
    } else {
        same_game(apps.drop_first(), app_name)
    }
}

/// The manifest of an Epic game: its title, its executable, the fixes
/// found, store "egs" and its id, now, the pinned versions.
pub open spec fn epic_manifest(m: Manifest, title: Seq<char>, exe: Seq<char>, gameid: Option<Seq<char>>, app_name: Seq<char>, created: Seq<char>) -> bool {
    &&& m.name@ == title
    &&& m.exe@ == exe
    &&& opt_text(m.gameid) == gameid
    &&& opt_text(m.store) == Some("egs"@)
    &&& opt_text(m.store_id) == Some(app_name)
    &&& m.created@ == created
    &&& m.runtime.proton@ == PINNED_PROTON@
    &&& m.runtime.umu@ == PINNED_UMU@
    &&& m.env@.len() == 0
    &&& env_in_name_order(m.env@)
}

pub open spec fn epic_step(
    root: Seq<char>,
    app_name: Seq<char>,
    state: EpicState,
    event: EpicEvent,
    next: EpicState,
    r: EpicAction,
) -> bool {
    if !epic_expects(state, event) {
        next is Over && epic_fails(r, None, msg_unexpected())
    } else {
        match event {
            EpicEvent::Failed { message } => next is Over && epic_fails(r, None, message@),
            EpicEvent::Checked { runtime_ready, legendary, logged_in } => if !runtime_ready {
                next is Over && epic_fails(r, None, msg_not_ready())
            } else if !legendary {
                next is Over && epic_fails(r, None, "support Epic non installé (outil legendary manquant)"@)
            } else if !logged_in {
                next is Over && epic_fails(r, None, "aucun compte Epic connecté (weft-windows epic login)"@)
            } else {
                next is Checked && r is ReadLibrary
            },
            EpicEvent::Library { games } => match games {
                Err(e) => next is Over && epic_fails(r, None, e@),
                Ok(gs) => match title_in(gs@, app_name) {
                    None => next is Over && epic_fails(
                        r,
                        None,
                        "« "@ + app_name + " » n'est pas dans ta bibliothèque Epic"@,
                    ),
                    Some(t) => next matches EpicState::Listing { title } && title@ == t && r is ListApps,
                },
            },
            EpicEvent::Listed { apps } => match state {
                EpicState::Listing { title } => {
                    &&& next matches EpicState::Reserving { title: t } && t@ == title@
                    &&& r matches EpicAction::Reserve { hint, replace, message } && hint@ == title@ && match same_game(
                        apps@,
                        app_name,
                    ) {
                        Some(a) => opt_text(replace) == Some(a.slug@) && opt_text(message) == Some(
                            msg_replacing(a.manifest.name@),
                        ),
                        None => replace is None && message is None,
                    }
                },
                _ => false,
            },
            EpicEvent::Reserved { slug, dir } => match state {
                EpicState::Reserving { title } => {
                    &&& next matches EpicState::Downloading { title: t, slug: s, dir: d } && t@ == title@ && s@
                        == slug@ && d@ == dir@
                    &&& r matches EpicAction::Download { command, log, message } && command.program@ == "legendary"@
                        && texts(command.args@) == seq![
                        "install"@,
                        app_name,
                        "-y"@,
                        "--base-path"@,
                        joined(dir@, "game"@),
                    ] && command.env@.len() == 0 && log@ == joined(dir@, "logs/install.log"@) && message@
                        == "Téléchargement de « "@ + title@ + " »…"@
                },
                _ => false,
            },
            EpicEvent::Ran { ok } => match state {
                EpicState::Downloading { title, slug, dir } => if !ok {
                    next is Over && epic_fails(r, Some(slug@), "le téléchargement a échoué (connexion ?)"@)
                } else {
                    &&& next matches EpicState::Querying { title: t, slug: s, dir: d } && t@ == title@ && s@
                        == slug@ && d@ == dir@
                    &&& r is QueryInstalled
                },
                _ => false,
            },
            EpicEvent::Installed { info } => match state {
                EpicState::Querying { title, slug, dir } => match info {
                    None => next is Over && epic_fails(r, Some(slug@), "jeu téléchargé mais introuvable (legendary)"@),
                    Some((path, exe)) => {
                        &&& next matches EpicState::Looking { title: t, slug: s, dir: d, exe: e } && t@ == title@
                            && s@ == slug@ && d@ == dir@ && e@ == super::epic::exe_record(path@, dir@, exe@)
                        &&& r matches EpicAction::LookupFixes { url, message } && url@
                            == "https://umu.openwinecomponents.org/umu_api.php?codename="@ + app_name + "&store="@ + "egs"@
                            && message@ == "Recherche de correctifs connus…"@
                    },
                },
                _ => false,
            },
            EpicEvent::Fixes { gameid, created } => match state {
                EpicState::Looking { title, slug, dir, exe } => {
                    &&& next matches EpicState::Saving { app } && app.slug@ == slug@ && app.dir@ == dir@
                        && epic_manifest(app.manifest, title@, exe@, opt_text(gameid), app_name, created@)
                    &&& r matches EpicAction::Save { app, path } && app.slug@ == slug@ && app.dir@ == dir@
                        && epic_manifest(app.manifest, title@, exe@, opt_text(gameid), app_name, created@) && path@
                        == joined(dir@, "manifest.toml"@)
                },
                _ => false,
            },
            EpicEvent::Saved => match state {
                EpicState::Saving { app } => {
                    &&& next is Over
                    &&& r matches EpicAction::Finish { app: a, message } && a == app && message@ == msg_installed(
                        app.manifest.name@,
                    )
                },
                _ => false,
            },
        }
    }
}

fn find_title(games: &Vec<super::epic::EpicGame>, app_name: &str) -> (r: Option<String>)
    ensures
        opt_text(r) == title_in(games@, app_name@),
{
    let want = chars_of(app_name);
    let mut i: usize = 0;
    assert(games@.skip(0) =~= games@);
    while i < games.len()
        invariant
            i <= games@.len(),
            want@ == app_name@,
            title_in(games@, app_name@) == title_in(games@.skip(i as int), app_name@),
        decreases games.len() - i,
    {
        assert(games@.skip(i as int).drop_first() =~= games@.skip(i + 1));
        assert(games@.skip(i as int)[0] == games@[i as int]);
        let have = chars_of(games[i].app_name.as_str());
        if seq_eq(&have, &want) {
            return Some(games[i].title.clone());
        }
        i = i + 1;
    }
    None
}

fn find_game(apps: &Vec<InstalledApp>, app_name: &str) -> (r: Option<usize>)
    ensures
        match same_game(apps@, app_name@) {
            Some(a) => r matches Some(i) && i < apps@.len() && apps@[i as int] == a,
            None => r is None,
        },
{
    let want = chars_of(app_name);
    let mut i: usize = 0;
    assert(apps@.skip(0) =~= apps@);
    while i < apps.len()
        invariant
            i <= apps@.len(),
            want@ == app_name@,
            same_game(apps@, app_name@) == same_game(apps@.skip(i as int), app_name@),
        decreases apps.len() - i,
    {
        assert(apps@.skip(i as int).drop_first() =~= apps@.skip(i + 1));
        assert(apps@.skip(i as int)[0] == apps@[i as int]);
        let hit = match &apps[i].manifest.store_id {
            Some(id) => {
                let have = chars_of(id.as_str());
                seq_eq(&have, &want)
            },
            None => false,
        };
        if hit {
            return Some(i);
        }
        i = i + 1;
    }
    None
}

/// The same installed app, owned again.
pub fn copy_app(a: &InstalledApp) -> (r: InstalledApp)
    ensures
        r.slug == a.slug,
        r.dir == a.dir,
        manifest_eq(r.manifest, a.manifest),
{
    InstalledApp { slug: a.slug.clone(), dir: a.dir.clone(), manifest: copy_manifest(&a.manifest) }
}

impl EpicJob {
    pub fn step(&mut self, event: EpicEvent) -> (r: EpicAction)
        ensures
            final(self).root@ == old(self).root@,
            final(self).app_name@ == old(self).app_name@,
            epic_step(old(self).root@, old(self).app_name@, old(self).state, event, final(self).state, r),
    {
        let mut state = EpicState::Over;
        std::mem::swap(&mut state, &mut self.state);
        if let EpicEvent::Failed { message } = event {
            if let EpicState::Over = state {
                return EpicAction::Fail { remove: None, message: String::from_str("étape d'installation inattendue") };
            }
            return EpicAction::Fail { remove: None, message };
        }
        match (state, event) {
            (EpicState::Start, EpicEvent::Checked { runtime_ready, legendary, logged_in }) => {
                if !runtime_ready {
                    return EpicAction::Fail {
                        remove: None,
                        message: String::from_str("environnement Windows pas encore prêt (weft-windows runtime fetch)"),
                    };
                }
                if !legendary {
                    return EpicAction::Fail {
                        remove: None,
                        message: String::from_str("support Epic non installé (outil legendary manquant)"),
                    };
                }
                if !logged_in {
                    return EpicAction::Fail {
                        remove: None,
                        message: String::from_str("aucun compte Epic connecté (weft-windows epic login)"),
                    };
                }
                self.state = EpicState::Checked;
                EpicAction::ReadLibrary
            },
            (EpicState::Checked, EpicEvent::Library { games }) => match games {
                Err(e) => EpicAction::Fail { remove: None, message: e },
                Ok(gs) => match find_title(&gs, self.app_name.as_str()) {
                    None => {
                        let mut m = String::from_str("« ");
                        m.append(self.app_name.as_str());
                        m.append(" » n'est pas dans ta bibliothèque Epic");
                        EpicAction::Fail { remove: None, message: m }
                    },
                    Some(title) => {
                        self.state = EpicState::Listing { title };
                        EpicAction::ListApps
                    },
                },
            },
            (EpicState::Listing { title }, EpicEvent::Listed { apps }) => {
                let hint = title.clone();
                let r = match find_game(&apps, self.app_name.as_str()) {
                    Some(i) => {
                        let mut m = String::from_str("« ");
                        m.append(apps[i].manifest.name.as_str());
                        m.append(" » déjà installé : remplacement.");
                        EpicAction::Reserve { hint, replace: Some(apps[i].slug.clone()), message: Some(m) }
                    },
                    None => EpicAction::Reserve { hint, replace: None, message: None },
                };
                self.state = EpicState::Reserving { title };
                r
            },
            (EpicState::Reserving { title }, EpicEvent::Reserved { slug, dir }) => {
                let mut args: Vec<String> = Vec::new();
                args.push(String::from_str("install"));
                args.push(self.app_name.clone());
                args.push(String::from_str("-y"));
                args.push(String::from_str("--base-path"));
                args.push(join(dir.as_str(), "game"));
                assert(texts(args@) =~= seq!["install"@, self.app_name@, "-y"@, "--base-path"@, joined(dir@, "game"@)]);
                let command = CommandPlan { program: String::from_str("legendary"), args, env: Vec::new() };
                let log = join(dir.as_str(), "logs/install.log");
                let mut m = String::from_str("Téléchargement de « ");
                m.append(title.as_str());
                m.append(" »…");
                self.state = EpicState::Downloading { title, slug, dir };
                EpicAction::Download { command, log, message: m }
            },
            (EpicState::Downloading { title, slug, dir }, EpicEvent::Ran { ok }) => {
                if !ok {
                    return EpicAction::Fail {
                        remove: Some(slug),
                        message: String::from_str("le téléchargement a échoué (connexion ?)"),
                    };
                }
                self.state = EpicState::Querying { title, slug, dir };
                EpicAction::QueryInstalled
            },
            (EpicState::Querying { title, slug, dir }, EpicEvent::Installed { info }) => match info {
                None => EpicAction::Fail {
                    remove: Some(slug),
                    message: String::from_str("jeu téléchargé mais introuvable (legendary)"),
                },
                Some((path, exe)) => {
                    let rec = super::epic::record_exe(path.as_str(), dir.as_str(), exe.as_str());
                    let url = super::epic::umu_api_url(self.app_name.as_str(), "egs");
                    self.state = EpicState::Looking { title, slug, dir, exe: rec };
                    EpicAction::LookupFixes { url, message: String::from_str("Recherche de correctifs connus…") }
                },
            },
            (EpicState::Looking { title, slug, dir, exe }, EpicEvent::Fixes { gameid, created }) => {
                let manifest = Manifest {
                    name: title,
                    exe,
                    gameid,
                    store: Some(String::from_str("egs")),
                    store_id: Some(self.app_name.clone()),
                    created,
                    runtime: RuntimeVersions {
                        proton: String::from_str(PINNED_PROTON),
                        umu: String::from_str(PINNED_UMU),
                    },
                    env: Vec::new(),
                };
                let path = join(dir.as_str(), "manifest.toml");
                let app = InstalledApp { slug, dir, manifest };
                let saved = copy_app(&app);
                self.state = EpicState::Saving { app };
                EpicAction::Save { app: saved, path }
            },
            (EpicState::Saving { app }, EpicEvent::Saved) => {
                let mut m = String::from_str("« ");
                m.append(app.manifest.name.as_str());
                m.append(" » installé.");
                EpicAction::Finish { app, message: m }
            },
            _ => EpicAction::Fail { remove: None, message: String::from_str("étape d'installation inattendue") },
        }
    }
}

impl WindowsEngine {
    /// Starts the installation of the Epic game `app_name` through
    /// legendary: downloaded into `apps/<slug>/game/`, its own prefix, its
    /// protonfixes id from the umu database, a manifest with store "egs".
    pub fn install_epic(&self, app_name: String) -> (r: (EpicJob, EpicAction))
        ensures
            r.0.root@ == self.root(),
            r.0.app_name@ == app_name@,
            r.0.state is Start,
            r.1 is Check,
    {
        let root = self.runtime().windows_root().copy();
        (EpicJob { root, app_name, state: EpicState::Start }, EpicAction::Check)
    }
}

} // verus!
