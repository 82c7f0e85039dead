//! What an installer left in the prefix: the Start menu shortcuts first
//! (what the installer itself calls its apps), the biggest executable
//! under Program Files as a fallback.
//!
//! Walking the prefix and reading the `.lnk` files is the application's
//! side; it hands the library each shortcut's name and target, and each
//! executable's size.
use vstd::prelude::*;

use crate::text::{
    chars_of, concat, contains, contains_spec, lowercase_str, opt_text, replace_char, replace_char_spec, starts_with,
    str_lowercase, string_of,
};
use vstd::string::StringExecFns;

verus! {

/// A candidate for the app's main executable.
#[derive(Debug, Clone, PartialEq, Eq)]
pub struct DiscoveredExe {
    /// Readable name (the shortcut's, or the file's).
    pub name: String,
    /// Path RELATIVE to the prefix (stored as is in the manifest).
    pub exe: String,
}

/// Where the Start menus are in a Wine/Proton prefix.
pub fn start_menu_dirs() -> (r: Vec<&'static str>)
    ensures
        r@.len() == 3,
        r@[0]@ == "drive_c/ProgramData/Microsoft/Windows/Start Menu"@,
        r@[1]@ == "drive_c/users/steamuser/AppData/Roaming/Microsoft/Windows/Start Menu"@,
        r@[2]@ == "drive_c/users/Public/Start Menu"@,
{
    let mut r: Vec<&'static str> = Vec::new();
    r.push("drive_c/ProgramData/Microsoft/Windows/Start Menu");
    r.push("drive_c/users/steamuser/AppData/Roaming/Microsoft/Windows/Start Menu");
    r.push("drive_c/users/Public/Start Menu");
    r
}

/// Where the fallback looks for executables, in this order.
pub fn program_dirs() -> (r: Vec<&'static str>)
    ensures
        r@.len() == 3,
        r@[0]@ == "drive_c/Program Files"@,
        r@[1]@ == "drive_c/Program Files (x86)"@,
        r@[2]@ == "drive_c/weft-portable"@,
{
    let mut r: Vec<&'static str> = Vec::new();
    r.push("drive_c/Program Files");
    r.push("drive_c/Program Files (x86)");
    r.push("drive_c/weft-portable");
    r
}

/// Words of what is never the app itself.
pub open spec fn noise_words() -> Seq<Seq<char>> {
    seq!["uninstall"@, "désinstall"@, "readme"@, "license"@, "website"@, "help"@]
}

/// The name, in lower case, holds one of the noise words.
pub open spec fn noise(name: Seq<char>) -> bool {
    exists|k: int| 0 <= k < noise_words().len() && #[trigger] contains_spec(str_lowercase(name), noise_words()[k])
}

pub fn is_noise(name: &str) -> (r: bool)
    ensures
        r == noise(name@),
{
    let lower = lowercase_str(name);
    let lc = chars_of(lower.as_str());
    let mut words: Vec<&'static str> = Vec::new();
    words.push("uninstall");
    words.push("désinstall");
    words.push("readme");
    words.push("license");
    words.push("website");
    words.push("help");
    assert(words@.map_values(|w: &str| w@) =~= noise_words());
    let mut i: usize = 0;
    while i < words.len()
        invariant
            i <= words@.len(),
            words@.map_values(|w: &str| w@) == noise_words(),
            lc@ == str_lowercase(name@),
            forall|k: int| 0 <= k < i ==> !#[trigger] contains_spec(str_lowercase(name@), noise_words()[k]),
        decreases words.len() - i,
    {
        let w = chars_of(words[i]);
        assert(w@ == noise_words()[i as int]);
        if contains(&lc, &w) {
            return true;
        }
        i = i + 1;
    }
    false
}

/// `C:\Program Files\App\app.exe` becomes `drive_c/Program Files/App/app.exe`;
/// a path on another drive is outside the prefix (`None`). The drive is
/// recognized on the lower-cased path; the rest is kept as written, past
/// its first three characters.
pub open spec fn prefix_relative(target: Seq<char>) -> Option<Seq<char>> {
    let lower = str_lowercase(target);
    if lower.len() >= 3 && lower.take(3) == "c:\\"@ && target.len() >= 3 {
        Some("drive_c/"@ + replace_char_spec(target.skip(3), '\\', '/'))
    } else {
        None
    }
}

pub fn windows_path_to_prefix_relative(target: &str) -> (r: Option<String>)
    ensures
        r matches Some(s) ==> prefix_relative(target@) == Some(s@),
        r is None ==> prefix_relative(target@) is None,
{
    let lower = lowercase_str(target);
    let lc = chars_of(lower.as_str());
    let drive = chars_of("c:\\");
    proof {
        reveal_strlit("c:\\");
    }
    let t = chars_of(target);
    if !starts_with(&lc, &drive) || t.len() < 3 {
        proof {
            if lc@.len() >= 3 && lc@.take(3) == "c:\\"@ {
                assert(lc@.take(drive@.len() as int) == drive@);
            }
        }
        return None;
    }
    assert(lc@.take(3) == "c:\\"@);
    let mut rest: Vec<char> = Vec::new();
    let mut i: usize = 3;
    while i < t.len()
        invariant
            3 <= i <= t@.len(),
            rest@ == t@.subrange(3, i as int),
        decreases t.len() - i,
    {
        rest.push(t[i]);
        i = i + 1;
        assert(rest@ =~= t@.subrange(3, i as int));
    }
    assert(rest@ =~= t@.skip(3));
    let slashed = replace_char(&rest, '\\', '/');
    let head = chars_of("drive_c/");
    let out = concat(&head, &slashed);
    Some(string_of(&out))
}

/// `s` ends with `.exe`.
pub open spec fn ends_with_exe(s: Seq<char>) -> bool {
    s.len() >= 4 && s.skip(s.len() - 4) == ".exe"@
}

fn ends_with_exe_exec(s: &Vec<char>) -> (r: bool)
    ensures
        r == ends_with_exe(s@),
{
    proof {
        reveal_strlit(".exe");
    }
    if s.len() < 4 {
        return false;
    }
    let n = s.len();
    let r = s[n - 4] == '.' && s[n - 3] == 'e' && s[n - 2] == 'x' && s[n - 1] == 'e';
    if r {
        assert(s@.skip(n - 4) =~= ".exe"@);
    } else {
        proof {
            let k = n - 4;
            if s@.skip(k) == ".exe"@ {
                assert(s@.skip(k)[0] == s@[k]);
                assert(s@.skip(k)[1] == s@[k + 1]);
                assert(s@.skip(k)[2] == s@[k + 2]);
                assert(s@.skip(k)[3] == s@[k + 3]);
            }
        }
    }
    r
}

/// The candidate a Start menu shortcut gives: its target mapped into the
/// prefix, an `.exe` (in any case), and a name that is not noise. Whether
/// the file exists in the prefix is then checked by the caller.
pub open spec fn shortcut_candidate(stem: Seq<char>, target: Option<Seq<char>>) -> Option<(Seq<char>, Seq<char>)> {
    match target {
        None => None,
        Some(t) => match prefix_relative(t) {
            None => None,
            Some(rel) => if ends_with_exe(str_lowercase(rel)) && !noise(stem) {
                Some((stem, rel))
            } else {
                None
            },
        },
    }
}

pub fn lnk_candidate(stem: &str, target: Option<String>) -> (r: Option<DiscoveredExe>)
    ensures
        match r {
            Some(d) => shortcut_candidate(stem@, opt_text(target)) == Some((d.name@, d.exe@)),
            None => shortcut_candidate(stem@, opt_text(target)) is None,
        },
{
    match target {
        None => None,
        Some(t) => match windows_path_to_prefix_relative(t.as_str()) {
            None => None,
            Some(rel) => {
                let lower = lowercase_str(rel.as_str());
                let lc = chars_of(lower.as_str());
                if ends_with_exe_exec(&lc) && !is_noise(stem) {
                    Some(DiscoveredExe { name: String::from_str(stem), exe: rel })
                } else {
                    None
                }
            },
        },
    }
}

/// The shortcuts' candidates without repeats: consecutive candidates for
/// the same executable are kept once (the first).
pub open spec fn dedup_exe(s: Seq<DiscoveredExe>) -> Seq<DiscoveredExe>
    decreases s.len(),
{
    if s.len() == 0 {
        s
    } else {
        let p = dedup_exe(s.drop_last());
        if p.len() > 0 && p.last().exe@ == s.last().exe@ {
            p
        } else {
            p.push(s.last())
        }
    }
}

/// Candidates from the shortcuts, ordered by name (ties in the order
/// given), repeated executables dropped.
pub fn finish_shortcuts(found: Vec<DiscoveredExe>) -> (r: Vec<DiscoveredExe>)
    ensures
        exists|sorted: Seq<DiscoveredExe>|
            crate::order::stable_sorted(
                sorted,
                found@,
                found@.map_values(|d: DiscoveredExe| crate::text::codes(d.name@)),
            ) && r@ == dedup_exe(sorted),
{
    let mut keys: Vec<Vec<u32>> = Vec::new();
    let mut i: usize = 0;
    while i < found.len()
        invariant
            i <= found.len(),
            keys@.len() == i,
            forall|k: int| 0 <= k < i ==> (#[trigger] keys@[k])@ == crate::text::codes(found@[k].name@),
        decreases found.len() - i,
    {
        let cs = chars_of(found[i].name.as_str());
        keys.push(crate::text::char_codes(&cs));
        i = i + 1;
    }
    let ghost inp = found@;
    let sorted = crate::order::stable_sort(found, keys);
    assert(keys@.map_values(|k: Vec<u32>| k@) =~= inp.map_values(|d: DiscoveredExe| crate::text::codes(d.name@)));
    let ghost sv = sorted@;
    let mut out: Vec<DiscoveredExe> = Vec::new();
    let mut rest = sorted;
    let mut j: usize = 0;
    let n = rest.len();
    // walk the sorted candidates front to back, keeping the first of a run
    while rest.len() > 0
        invariant
            rest@.len() + j == n,
            n == sv.len(),
            rest@ == sv.skip(j as int),
            out@ == dedup_exe(sv.take(j as int)),
        decreases rest.len(),
    {
        let d = rest.remove(0);
        assert(d == sv[j as int]);
        assert(sv.take(j + 1).drop_last() =~= sv.take(j as int));
        let keep = if out.len() == 0 {
            true
        } else {
            let a = chars_of(out[out.len() - 1].exe.as_str());
            let b = chars_of(d.exe.as_str());
            !crate::text::seq_eq(&a, &b)
        };
        if keep {
            out.push(d);
        }
        j = j + 1;
        assert(rest@ =~= sv.skip(j as int));
    }
    assert(sv.take(n as int) =~= sv);
    out
}

/// The fallback's choice among the executables found (in walking order,
/// with their sizes): the first of the biggest that is not noise.
pub open spec fn biggest(cands: Seq<(DiscoveredExe, u64)>) -> Option<(DiscoveredExe, u64)>
    decreases cands.len(),
{
    if cands.len() == 0 {
        None
    } else {
        let best = biggest(cands.drop_last());
        let c = cands.last();
        if noise(c.0.name@) {
            best
        } else {
            match best {
                None => Some(c),
                Some(b) => if c.1 > b.1 {
                    Some(c)
                } else {
                    best
                },
            }
        }
    }
}

pub fn pick_biggest(cands: Vec<(DiscoveredExe, u64)>) -> (r: Option<DiscoveredExe>)
    ensures
        match r {
            Some(d) => biggest(cands@) matches Some(b) && b.0 == d,
            None => biggest(cands@) is None,
        },
{
    let ghost all = cands@;
    let mut best: Option<(DiscoveredExe, u64)> = None;
    let mut rest = cands;
    let mut j: usize = 0;
    let n = rest.len();
    while rest.len() > 0
        invariant
            rest@.len() + j == n,
            n == all.len(),
            rest@ == all.skip(j as int),
            best == biggest(all.take(j as int)),
        decreases rest.len(),
    {
        let c = rest.remove(0);
        assert(c == all[j as int]);
        assert(all.take(j + 1).drop_last() =~= all.take(j as int));
        if !is_noise(c.0.name.as_str()) {
            let better = match &best {
                None => true,
                Some(b) => c.1 > b.1,
            };
            if better {
                best = Some(c);
            }
        }
        j = j + 1;
        assert(rest@ =~= all.skip(j as int));
    }
    assert(all.take(n as int) =~= all);
    match best {
        Some(b) => Some(b.0),
        None => None,
    }
}

/// What the installer left: the shortcuts' executables when there are
/// any, otherwise the fallback's single choice.
pub fn discover(from_shortcuts: Vec<DiscoveredExe>, fallback: Option<DiscoveredExe>) -> (r: Vec<DiscoveredExe>)
    ensures
        from_shortcuts@.len() > 0 ==> r@ == from_shortcuts@,
        from_shortcuts@.len() == 0 ==> match fallback {
            Some(d) => r@ == seq![d],
            None => r@.len() == 0,
        },
{
    if from_shortcuts.len() > 0 {
        return from_shortcuts;
    }
    let mut r: Vec<DiscoveredExe> = Vec::new();
    match fallback {
        Some(d) => {
            r.push(d);
            assert(r@ =~= seq![d]);
        },
        None => {},
    }
    r
}

} // verus!
