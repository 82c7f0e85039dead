//! The Windows programs installed by Weft, seen as any other app: in the
//! launcher they are indistinguishable from native ones.
use vstd::prelude::*;

use crate::model::{AppEntry, Icon, LaunchSpec, Source};
use crate::path::joined;
use crate::windows::prefix::{AppStore, InstalledApp};
use crate::windows::WindowsRoot;
use vstd::string::StringExecFns;

verus! {

pub struct WindowsAppsScanner {
    store: AppStore,
}

/// The entry of an installed Windows app, with its extracted icon when
/// that file exists.
pub open spec fn windows_entry(e: AppEntry, a: InstalledApp, has_icon: bool) -> bool {
    &&& e.id@ == "weft-windows:"@ + a.slug@
    &&& e.name@ == a.manifest.name@
    &&& e.description is None
    &&& if has_icon {
        e.icon matches Some(Icon::Path(p)) && p@ == joined(a.dir@, "icon.png"@)
    } else {
        e.icon is None
    }
    &&& e.launch matches LaunchSpec::WindowsApp(s) && s@ == a.slug@
    &&& e.source == Source::Wine
    &&& e.keywords@.len() == 0
}

impl WindowsAppsScanner {
    pub closed spec fn root(&self) -> Seq<char> {
        self.store.root()
    }

    /// The scanner of the default Windows root, when there is one.
    pub fn new(root: Option<WindowsRoot>) -> (r: Option<Self>)
        ensures
            match root {
                Some(w) => r matches Some(s) && s.root() == w@,
                None => r is None,
            },
    {
        match root {
            Some(w) => Some(WindowsAppsScanner { store: AppStore::new(w) }),
            None => None,
        }
    }

    /// An explicit root (fixtures).
    pub fn with_root(root: WindowsRoot) -> (r: Self)
        ensures
            r.root() == root@,
    {
        WindowsAppsScanner { store: AppStore::new(root) }
    }

    pub fn store(&self) -> (r: &AppStore)
        ensures
            r.root() == self.root(),
    {
        &self.store
    }

    pub fn name(&self) -> (r: &'static str)
        ensures
            r@ == "weft-windows"@,
    {
        "weft-windows"
    }

    /// The entries of the installed apps (in the store's order), each with
    /// whether its icon file exists.
    pub fn scan(&self, apps: Vec<(InstalledApp, bool)>) -> (r: Vec<AppEntry>)
        ensures
            r@.len() == apps@.len(),
            forall|i: int| 0 <= i < apps@.len() ==> windows_entry(#[trigger] r@[i], apps@[i].0, apps@[i].1),
    {
        let ghost av = apps@;
        let mut out: Vec<AppEntry> = Vec::new();
        let mut rest = apps;
        let n = rest.len();
        let mut j: usize = 0;
        while rest.len() > 0
            invariant
                rest@.len() + j == n,
                n == av.len(),
                rest@ == av.skip(j as int),
                out@.len() == j,
                forall|i: int| 0 <= i < j ==> windows_entry(#[trigger] out@[i], av[i].0, av[i].1),
            decreases rest.len(),
        {
            let (a, has_icon) = rest.remove(0);
            assert((a, has_icon) == av[j as int]);
            let icon = match a.icon_path(has_icon) {
                Some(p) => Some(Icon::Path(p)),
                None => None,
            };
            let mut id = String::from_str("weft-windows:");
            id.append(a.slug.as_str());
            let slug = a.slug.clone();
            let e = AppEntry {
                id,
                name: a.manifest.name,
                description: None,
                icon,
                launch: LaunchSpec::WindowsApp(slug),
                source: Source::Wine,
                keywords: Vec::new(),
            };
            out.push(e);
            j = j + 1;
            assert(rest@ =~= av.skip(j as int));
        }
        out
    }
}

} // verus!
