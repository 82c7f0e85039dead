//! The umu/Proton runtime, at versions pinned by Weft.
//!
//! Weft downloads the components itself at the exact versions below and
//! always hands umu-run an explicit `PROTONPATH`: umu never picks a
//! version. What is present is observed by the application; what to fetch,
//! from where, and the commands to run are decided here.
use vstd::prelude::*;

use super::{pair_texts, texts, CommandPlan, WindowsRoot};
use crate::path::{join, joined};
use vstd::string::StringExecFns;

verus! {

/// Pinned umu-launcher version.
pub const PINNED_UMU: &'static str = "1.4.1";

/// Pinned UMU-Proton version.
pub const PINNED_PROTON: &'static str = "UMU-Proton-10.0-4";

/// What is present of the runtime.
#[derive(Debug, Clone, Copy, PartialEq, Eq, Structural)]
pub struct RuntimeStatus {
    /// The pinned umu-run is there.
    pub umu: bool,
    /// The pinned UMU-Proton is there.
    pub proton: bool,
    /// umu has already downloaded the Steam Linux Runtime container.
    pub container: bool,
    /// python3 is on the machine (umu's zipapp needs it).
    pub python: bool,
}

impl RuntimeStatus {
    /// Ready to install and launch. The container is not required: umu
    /// downloads it on first launch.
    pub fn ready(&self) -> (r: bool)
        ensures
            r == (self.umu && self.proton && self.python),
    {
        self.umu && self.proton && self.python
    }
}

/// A component to download.
#[derive(Debug, Clone, Copy, PartialEq, Eq, Structural)]
pub enum FetchStep {
    Umu,
    Proton,
}

pub struct Runtime {
    root: WindowsRoot,
}

pub open spec fn umu_run_rel() -> Seq<char> {
    "umu/"@ + PINNED_UMU@ + "/umu-run"@
}

pub open spec fn proton_rel() -> Seq<char> {
    "proton/"@ + PINNED_PROTON@
}

impl Runtime {
    pub closed spec fn root(&self) -> Seq<char> {
        self.root@
    }

    pub fn new(root: WindowsRoot) -> (r: Self)
        ensures
            r.root() == root@,
    {
        Runtime { root }
    }

    pub fn windows_root(&self) -> (r: &WindowsRoot)
        ensures
            r@ == self.root(),
    {
        &self.root
    }

    /// The pinned umu-run executable.
    pub fn umu_run(&self) -> (r: String)
        ensures
            r@ == joined(joined(self.root(), "runtimes"@), umu_run_rel()),
    {
        let mut rel = String::from_str("umu/");
        rel.append(PINNED_UMU);
        rel.append("/umu-run");
        let dir = self.root.runtimes_dir();
        join(dir.as_str(), rel.as_str())
    }

    /// The directory of Proton `version` (under `runtimes/proton/`).
    pub fn proton_version_dir(&self, version: &str) -> (r: String)
        ensures
            r@ == joined(joined(joined(self.root(), "runtimes"@), "proton"@), version@),
    {
        let dir = self.root.runtimes_dir();
        let protons = join(dir.as_str(), "proton");
        join(protons.as_str(), version)
    }

    /// The pinned Proton directory (the value of PROTONPATH).
    pub fn proton_dir(&self) -> (r: String)
        ensures
            r@ == joined(joined(self.root(), "runtimes"@), proton_rel()),
    {
        let mut rel = String::from_str("proton/");
        rel.append(PINNED_PROTON);
        let dir = self.root.runtimes_dir();
        join(dir.as_str(), rel.as_str())
    }

    /// What to download, in order, for the runtime to be complete; an error
    /// when python3 is missing (umu cannot run without it).
    pub fn fetch(&self, status: &RuntimeStatus) -> (r: Result<Vec<FetchStep>, String>)
        ensures
            !status.python ==> r is Err,
            status.python ==> (r matches Ok(steps) && steps@ == (if status.umu {
                Seq::<FetchStep>::empty()
            } else {
                seq![FetchStep::Umu]
            }) + (if status.proton {
                Seq::<FetchStep>::empty()
            } else {
                seq![FetchStep::Proton]
            })),
    {
        if !status.python {
            return Err(String::from_str("python3 introuvable (requis par umu)"));
        }
        let mut steps: Vec<FetchStep> = Vec::new();
        if !status.umu {
            steps.push(FetchStep::Umu);
        }
        if !status.proton {
            steps.push(FetchStep::Proton);
        }
        proof {
            let a = if status.umu { Seq::<FetchStep>::empty() } else { seq![FetchStep::Umu] };
            let b = if status.proton { Seq::<FetchStep>::empty() } else { seq![FetchStep::Proton] };
            assert(steps@ =~= a + b);
        }
        Ok(steps)
    }

    /// The command that makes umu download its container ahead of time (a
    /// first run in a throwaway prefix); an error when the runtime is not
    /// ready yet.
    pub fn fetch_container(&self, status: &RuntimeStatus) -> (r: Result<CommandPlan, String>)
        ensures
            !status.ready_spec() ==> r is Err,
            status.ready_spec() ==> (r matches Ok(c) && c.program@ == joined(
                joined(self.root(), "runtimes"@),
                umu_run_rel(),
            ) && texts(c.args@) == seq!["createprefix"@] && pair_texts(c.env@) == seq![
                ("WINEPREFIX"@, joined(self.root(), "tmp/container-warmup"@)),
                ("PROTONPATH"@, joined(joined(self.root(), "runtimes"@), proton_rel())),
                ("GAMEID"@, "umu-default"@),
            ]),
    {
        if !status.ready() {
            return Err(String::from_str("runtime incomplet : lancer fetch() d'abord"));
        }
        let program = self.umu_run();
        let mut args: Vec<String> = Vec::new();
        args.push(String::from_str("createprefix"));
        let scratch = join(self.root.path(), "tmp/container-warmup");
        let mut env: Vec<(String, String)> = Vec::new();
        env.push((String::from_str("WINEPREFIX"), scratch));
        env.push((String::from_str("PROTONPATH"), self.proton_dir()));
        env.push((String::from_str("GAMEID"), String::from_str("umu-default")));
        assert(texts(args@) =~= seq!["createprefix"@]);
        assert(pair_texts(env@) =~= seq![
            ("WINEPREFIX"@, joined(self.root(), "tmp/container-warmup"@)),
            ("PROTONPATH"@, joined(joined(self.root(), "runtimes"@), proton_rel())),
            ("GAMEID"@, "umu-default"@),
        ]);
        Ok(CommandPlan { program, args, env })
    }

    /// Where a fetch works (under the same root as its destinations, so
    /// that renaming out of it never crosses file systems).
    pub fn fetch_tmp_dir(&self) -> (r: String)
        ensures
            r@ == joined(self.root(), "tmp/fetch"@),
    {
        join(self.root.path(), "tmp/fetch")
    }
}

impl RuntimeStatus {
    pub open spec fn ready_spec(&self) -> bool {
        self.umu && self.proton && self.python
    }
}

/// The zipapp archive of the pinned umu-launcher.
pub fn umu_archive_url() -> (r: String)
    ensures
        r@ == "https://github.com/Open-Wine-Components/umu-launcher/releases/download/"@ + PINNED_UMU@
            + "/umu-launcher-"@ + PINNED_UMU@ + "-zipapp.tar"@,
{
    let mut u = String::from_str("https://github.com/Open-Wine-Components/umu-launcher/releases/download/");
    u.append(PINNED_UMU);
    u.append("/umu-launcher-");
    u.append(PINNED_UMU);
    u.append("-zipapp.tar");
    u
}

/// The pinned Proton archive (`.tar.gz`) or its checksum file
/// (`.sha512sum`), by `ext`.
pub fn proton_url(ext: &str) -> (r: String)
    ensures
        r@ == "https://github.com/Open-Wine-Components/umu-proton/releases/download/"@ + PINNED_PROTON@ + "/"@
            + PINNED_PROTON@ + ext@,
{
    let mut u = String::from_str("https://github.com/Open-Wine-Components/umu-proton/releases/download/");
    u.append(PINNED_PROTON);
    u.append("/");
    u.append(PINNED_PROTON);
    u.append(ext);
    u
}

} // verus!
