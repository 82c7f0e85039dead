//! Installed Windows apps: one directory per app under `apps/<slug>/`,
//! holding the manifest, the app's own isolated Wine prefix and its logs.
//! No shared prefix: one app breaking never contaminates another.
use vstd::prelude::*;

use super::manifest::{slug_of, slugify, Manifest};
use super::WindowsRoot;
use crate::order::{stable_sort, stable_sorted};
use crate::path::{join, joined};
use vstd::string::StringExecFns;
use crate::text::{chars_of, codes, concat, decimal_digits, decimal_string, lemma_decimal_roundtrip, seq_eq, string_of, char_codes};

verus! {

/// An installed app: its directory and its manifest.
#[derive(Debug, Clone)]
pub struct InstalledApp {
    pub slug: String,
    pub dir: String,
    pub manifest: Manifest,
}

impl InstalledApp {
    pub fn prefix_dir(&self) -> (r: String)
        ensures
            r@ == joined(self.dir@, "prefix"@),
    {
        join(self.dir.as_str(), "prefix")
    }

    pub fn logs_dir(&self) -> (r: String)
        ensures
            r@ == joined(self.dir@, "logs"@),
    {
        join(self.dir.as_str(), "logs")
    }

    /// Where the main executable is when it lives in the prefix (classic
    /// installers).
    pub fn exe_in_prefix(&self) -> (r: String)
        ensures
            r@ == joined(joined(self.dir@, "prefix"@), self.manifest.exe@),
    {
        let prefix = self.prefix_dir();
        join(prefix.as_str(), self.manifest.exe.as_str())
    }

    /// Absolute path of the main executable: in the prefix when it exists
    /// there (`in_prefix_exists`), otherwise in the app directory (store
    /// games, put in `game/` outside the prefix).
    pub fn exe_path(&self, in_prefix_exists: bool) -> (r: String)
        ensures
            in_prefix_exists ==> r@ == joined(joined(self.dir@, "prefix"@), self.manifest.exe@),
            !in_prefix_exists ==> r@ == joined(self.dir@, self.manifest.exe@),
    {
        if in_prefix_exists {
            self.exe_in_prefix()
        } else {
            join(self.dir.as_str(), self.manifest.exe.as_str())
        }
    }

    /// Where the icon extracted from the executable is written.
    pub fn icon_file(&self) -> (r: String)
        ensures
            r@ == joined(self.dir@, "icon.png"@),
    {
        join(self.dir.as_str(), "icon.png")
    }

    /// The extracted icon, if that file exists (`is_file`).
    pub fn icon_path(&self, is_file: bool) -> (r: Option<String>)
        ensures
            is_file ==> (r matches Some(p) && p@ == joined(self.dir@, "icon.png"@)),
            !is_file ==> r is None,
    {
        if is_file {
            Some(self.icon_file())
        } else {
            None
        }
    }
}

/// The directory name tried for the `n`-th install of a program whose
/// slug is `base`: `base`, then `base-2`, `base-3`...
pub open spec fn slug_candidate(base: Seq<char>, n: nat) -> Seq<char> {
    if n <= 1 {
        base
    } else {
        base + seq!['-'] + decimal_digits(n)
    }
}

/// `s` is one of the names in `taken`.
pub open spec fn is_taken(taken: Seq<String>, s: Seq<char>) -> bool {
    exists|i: int| 0 <= i < taken.len() && (#[trigger] taken[i])@ == s
}

/// The first candidate for `base` that no name in `taken` holds.
pub open spec fn free_slug(base: Seq<char>, taken: Seq<String>, r: Seq<char>) -> bool {
    exists|n: nat|
        #![trigger slug_candidate(base, n)]
        n >= 1 && r == slug_candidate(base, n) && !is_taken(taken, r) && forall|m: nat|
            1 <= m < n ==> is_taken(taken, #[trigger] slug_candidate(base, m))
}

proof fn lemma_candidates_differ(base: Seq<char>, m: nat, n: nat)
    requires
        1 <= m < n,
    ensures
        slug_candidate(base, m) != slug_candidate(base, n),
{
    lemma_decimal_roundtrip(n);
    if m >= 2 {
        lemma_decimal_roundtrip(m);
        if slug_candidate(base, m) == slug_candidate(base, n) {
            let k: int = base.len() as int + 1;
            assert(slug_candidate(base, m).skip(k) =~= decimal_digits(m));
            assert(slug_candidate(base, n).skip(k) =~= decimal_digits(n));
        }
    } else {
        assert(slug_candidate(base, n).len() > base.len());
    }
}

fn holds_name(taken: &Vec<String>, s: &Vec<char>) -> (r: bool)
    ensures
        r == is_taken(taken@, s@),
{
    let mut i: usize = 0;
    while i < taken.len()
        invariant
            i <= taken.len(),
            forall|k: int| 0 <= k < i ==> (#[trigger] taken@[k])@ != s@,
        decreases taken.len() - i,
    {
        let t = chars_of(taken[i].as_str());
        if seq_eq(&t, s) {
            return true;
        }
        i = i + 1;
    }
    false
}

/// All installed apps in the order of their slugs (`String` order).
pub fn sort_by_slug(apps: Vec<InstalledApp>) -> (r: Vec<InstalledApp>)
    ensures
        stable_sorted(r@, apps@, apps@.map_values(|a: InstalledApp| codes(a.slug@))),
{
    let mut keys: Vec<Vec<u32>> = Vec::new();
    let mut i: usize = 0;
    while i < apps.len()
        invariant
            i <= apps.len(),
            keys@.len() == i,
            forall|k: int| 0 <= k < i ==> (#[trigger] keys@[k])@ == codes(apps@[k].slug@),
        decreases apps.len() - i,
    {
        let cs = chars_of(apps[i].slug.as_str());
        keys.push(char_codes(&cs));
        i = i + 1;
    }
    let ghost inp = apps@;
    let r = stable_sort(apps, keys);
    proof {
        assert(keys@.map_values(|k: Vec<u32>| k@) =~= inp.map_values(|a: InstalledApp| codes(a.slug@)));
    }
    r
}

pub struct AppStore {
    root: WindowsRoot,
}

impl AppStore {
    pub closed spec fn root(&self) -> Seq<char> {
        self.root@
    }

    pub fn new(root: WindowsRoot) -> (r: Self)
        ensures
            r.root() == root@,
    {
        AppStore { root }
    }

    pub fn apps_dir(&self) -> (r: String)
        ensures
            r@ == joined(self.root(), "apps"@),
    {
        self.root.apps_dir()
    }

    /// The directory of the app `slug`.
    pub fn app_dir(&self, slug: &str) -> (r: String)
        ensures
            r@ == joined(joined(self.root(), "apps"@), slug@),
    {
        let apps = self.apps_dir();
        join(apps.as_str(), slug)
    }

    /// The app `slug` among the apps listed, the first one that carries it.
    pub fn get(&self, listed: Vec<InstalledApp>, slug: &str) -> (r: Option<InstalledApp>)
        ensures
            match r {
                Some(a) => exists|i: int|
                    0 <= i < listed@.len() && listed@[i] == a && a.slug@ == slug@ && forall|j: int|
                        0 <= j < i ==> (#[trigger] listed@[j]).slug@ != slug@,
                None => forall|i: int| 0 <= i < listed@.len() ==> (#[trigger] listed@[i]).slug@ != slug@,
            },
    {
        let want = chars_of(slug);
        let mut i: usize = 0;
        while i < listed.len()
            invariant
                i <= listed@.len(),
                want@ == slug@,
                forall|j: int| 0 <= j < i ==> (#[trigger] listed@[j]).slug@ != slug@,
            decreases listed.len() - i,
        {
            let have = chars_of(listed[i].slug.as_str());
            if seq_eq(&have, &want) {
                let ghost all = listed@;
                let mut rest = listed;
                let a = rest.remove(i);
                assert(all[i as int] == a);
                return Some(a);
            }
            i = i + 1;
        }
        None
    }

    /// The slug and directory reserved for a new install of `name` (the
    /// caller creates the directory with its `prefix/` and `logs/`): the
    /// slug is derived from the name, suffixed -2, -3... while a directory
    /// of that name already exists under `apps/` (`taken` lists them), so
    /// that two installs of the same program stay two isolated apps.
    pub fn create(&self, name: &str, taken: &Vec<String>) -> (r: (String, String))
        requires
            taken@.len() < u64::MAX,
        ensures
            free_slug(slug_of(name@), taken@, r.0@),
            !is_taken(taken@, r.0@),
            r.1@ == joined(joined(self.root(), "apps"@), r.0@),
    {
        let slug = self.create_slug(name, taken);
        let dir = self.app_dir(slug.as_str());
        (slug, dir)
    }

    fn create_slug(&self, name: &str, taken: &Vec<String>) -> (r: String)
        requires
            taken@.len() < u64::MAX,
        ensures
            free_slug(slug_of(name@), taken@, r@),
            !is_taken(taken@, r@),
    {
        let base_s = slugify(name);
        let base = chars_of(base_s.as_str());
        let ghost b = base@;
        let mut cand = chars_of(base_s.as_str());
        let mut n: u64 = 1;
        let ghost mut used: Set<int> = Set::empty();
        while holds_name(taken, &cand)
            invariant
                b == base@,
                b == slug_of(name@),
                taken@.len() < u64::MAX,
                1 <= n,
                n <= taken@.len() + 1,
                cand@ == slug_candidate(b, n as nat),
                used.finite(),
                used.len() == n - 1,
                forall|k: int| #[trigger] used.contains(k) ==> 0 <= k < taken@.len(),
                forall|k: int|
                    #[trigger] used.contains(k) ==> exists|m: nat|
                        1 <= m < n && taken@[k]@ == #[trigger] slug_candidate(b, m),
                forall|m: nat| 1 <= m < n ==> is_taken(taken@, #[trigger] slug_candidate(b, m)),
            decreases taken@.len() + 1 - n,
        {
            proof {
                let k = choose|k: int| 0 <= k < taken@.len() && (#[trigger] taken@[k])@ == cand@;
                if used.contains(k) {
                    let m = choose|m: nat| 1 <= m < n && taken@[k]@ == #[trigger] slug_candidate(b, m);
                    lemma_candidates_differ(b, m, n as nat);
                }
                let bigger = used.insert(k);
                assert forall|j: int| #[trigger] bigger.contains(j) implies vstd::set_lib::set_int_range(
                    0,
                    taken@.len() as int,
                ).contains(j) by {}
                vstd::set_lib::lemma_int_range(0, taken@.len() as int);
                vstd::set_lib::lemma_len_subset(bigger, vstd::set_lib::set_int_range(0, taken@.len() as int));
                assert forall|j: int| #[trigger] bigger.contains(j) implies exists|m: nat|
                    1 <= m < n + 1 && taken@[j]@ == #[trigger] slug_candidate(b, m) by {
                    if j == k {
                        assert(taken@[j]@ == slug_candidate(b, n as nat));
                    } else {
                        let m = choose|m: nat| 1 <= m < n && taken@[j]@ == #[trigger] slug_candidate(b, m);
                        assert(taken@[j]@ == slug_candidate(b, m));
                    }
                }
                used = bigger;
            }
            n = n + 1;
            let digits = decimal_string(n);
            let mut dash: Vec<char> = Vec::new();
            dash.push('-');
            let head = concat(&base, &dash);
            cand = concat(&head, &digits);
            assert(cand@ =~= slug_candidate(b, n as nat));
        }
        proof {
            assert(!is_taken(taken@, slug_candidate(b, n as nat)));
        }
        string_of(&cand)
    }

    /// The directory to delete to remove the app `slug` entirely (prefix,
    /// logs, manifest): an error when it holds neither a manifest
    /// (`has_manifest`) nor a prefix (`has_prefix`).
    pub fn remove(&self, slug: &str, has_manifest: bool, has_prefix: bool) -> (r: Result<String, String>)
        ensures
            (has_manifest || has_prefix) ==> (r matches Ok(d) && d@ == joined(joined(self.root(), "apps"@), slug@)),
            !(has_manifest || has_prefix) ==> (r matches Err(m) && m@ == "app inconnue : "@ + slug@),
    {
        if !has_manifest && !has_prefix {
            let mut m = String::from_str("app inconnue : ");
            m.append(slug);
            return Err(m);
        }
        Ok(self.app_dir(slug))
    }
}

} // verus!
