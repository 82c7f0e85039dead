//! The applications provider's logic: index entries as results, ranked by
//! fuzzy score plus frecency bonus, with their safe uninstall method.
use vstd::prelude::*;

use crate::model::{AppEntry, Icon, LaunchSpec, Source};
use crate::order::{stable_sort, stable_sorted};
use crate::provider::{key_with_title, Action, ResultItem, Tier, UninstallSpec, WatchSpec};
use crate::providers::files::{score_title_key, score_title_keys};
use crate::text::{chars_of, string_of};

verus! {

/// Strings of a list, by their views.
pub open spec fn views(v: Seq<String>) -> Seq<Seq<char>> {
    v.map_values(|s: String| s@)
}

/// First position at or after `i` holding `run`.
pub open spec fn find_run(argv: Seq<Seq<char>>, i: int) -> Option<int>
    decreases argv.len() - i,
{
    if i < 0 || i >= argv.len() {
        None
    } else if argv[i] == "run"@ {
        Some(i)
    } else {
        find_run(argv, i + 1)
    }
}

pub open spec fn is_option(a: Seq<char>) -> bool {
    a.len() > 0 && a[0] == '-'
}

/// First position at or after `i` holding a token that is not an option.
pub open spec fn find_non_option(argv: Seq<Seq<char>>, i: int) -> Option<int>
    decreases argv.len() - i,
{
    if i < 0 || i >= argv.len() {
        None
    } else if !is_option(argv[i]) {
        Some(i)
    } else {
        find_non_option(argv, i + 1)
    }
}

/// Application id of a `flatpak run [--opts] <app-id> ...` argv: the first
/// token after `run` that is not an option.
pub open spec fn flatpak_id_spec(argv: Seq<Seq<char>>) -> Option<Seq<char>> {
    match find_run(argv, 0) {
        Some(r) => match find_non_option(argv, r + 1) {
            Some(j) => Some(argv[j]),
            None => None,
        },
        None => None,
    }
}

/// `u` is the safe uninstall method of `entry`: Windows apps installed by
/// Weft (recognized by their id), Steam games (through the client), Flatpak
/// applications (through their app id); nothing for the others.
pub open spec fn uninstall_matches(u: Option<UninstallSpec>, entry: AppEntry) -> bool {
    if "weft-windows:"@.is_prefix_of(entry.id@) {
        u matches Some(UninstallSpec::WeftWindows(s)) && s@ == entry.id@.skip(13)
    } else if entry.launch is SteamApp {
        u == Some(UninstallSpec::Steam(entry.launch->SteamApp_0))
    } else if entry.source == Source::Flatpak && entry.launch is Exec {
        match flatpak_id_spec(views(entry.launch->Exec_0@)) {
            Some(id) => u matches Some(UninstallSpec::Flatpak(s)) && s@ == id,
            None => u is None,
        }
    } else {
        u is None
    }
}

/// `a` and `b` launch the same way (same argv, app id or slug).
pub open spec fn same_launch(a: LaunchSpec, b: LaunchSpec) -> bool {
    match (a, b) {
        (LaunchSpec::Exec(x), LaunchSpec::Exec(y)) => x@ == y@,
        (LaunchSpec::SteamApp(x), LaunchSpec::SteamApp(y)) => x == y,
        (LaunchSpec::WindowsApp(x), LaunchSpec::WindowsApp(y)) => x == y,
        _ => false,
    }
}

/// `item` is the result of `entry` with fuzzy-plus-frecency score `score`.
pub open spec fn is_app_item(item: ResultItem, entry: AppEntry, score: u32) -> bool {
    &&& item.id == entry.id
    &&& item.title == entry.name
    &&& item.subtitle == entry.description
    &&& item.icon == entry.icon
    &&& item.action matches Action::Launch(l) && same_launch(l, entry.launch)
    &&& uninstall_matches(item.uninstall, entry)
    &&& item.tier == Tier::Primary
    &&& item.score == (if score < 1000 { score } else { 1000 })
}

fn copy_string(s: &String) -> (r: String)
    ensures
        r == *s,
{
    s.clone()
}

fn copy_opt_string(s: &Option<String>) -> (r: Option<String>)
    ensures
        r == *s,
{
    match s {
        Some(x) => Some(copy_string(x)),
        None => None,
    }
}

fn copy_icon(i: &Option<Icon>) -> (r: Option<Icon>)
    ensures
        r == *i,
{
    match i {
        Some(Icon::Named(n)) => Some(Icon::Named(copy_string(n))),
        Some(Icon::Path(p)) => Some(Icon::Path(copy_string(p))),
        None => None,
    }
}

pub fn copy_strings(v: &Vec<String>) -> (r: Vec<String>)
    ensures
        r@ == v@,
{
    let mut r: Vec<String> = Vec::new();
    let mut i: usize = 0;
    while i < v.len()
        invariant
            i <= v@.len(),
            r@ == v@.take(i as int),
        decreases v@.len() - i,
    {
        r.push(copy_string(&v[i]));
        i = i + 1;
        assert(r@ =~= v@.take(i as int));
    }
    assert(v@.take(v@.len() as int) =~= v@);
    r
}

pub fn copy_launch(l: &LaunchSpec) -> (r: LaunchSpec)
    ensures
        same_launch(r, *l),
{
    match l {
        LaunchSpec::Exec(argv) => LaunchSpec::Exec(copy_strings(argv)),
        LaunchSpec::SteamApp(id) => LaunchSpec::SteamApp(*id),
        LaunchSpec::WindowsApp(slug) => LaunchSpec::WindowsApp(copy_string(slug)),
    }
}

fn is_run(s: &String) -> (r: bool)
    ensures
        r == (s@ == "run"@),
{
    proof {
        reveal_strlit("run");
    }
    let c = chars_of(s.as_str());
    let r = c.len() == 3 && c[0] == 'r' && c[1] == 'u' && c[2] == 'n';
    proof {
        if c@.len() == 3 && c@[0] == 'r' && c@[1] == 'u' && c@[2] == 'n' {
            assert(c@ =~= "run"@);
        }
    }
    r
}

fn is_option_token(s: &String) -> (r: bool)
    ensures
        r == is_option(s@),
{
    let c = chars_of(s.as_str());
    c.len() > 0 && c[0] == '-'
}

/// Application id of a `flatpak run [--opts] <app-id> ...` argv: the first
/// token after `run` that is not an option.
pub fn flatpak_app_id(argv: &[String]) -> (r: Option<String>)
    ensures
        r matches Some(s) ==> flatpak_id_spec(views(argv@)) == Some(s@),
        r is None ==> flatpak_id_spec(views(argv@)) is None,
{
    let ghost a = views(argv@);
    let mut i: usize = 0;
    while i < argv.len() && !is_run(&argv[i])
        invariant
            i <= argv@.len(),
            a == views(argv@),
            find_run(a, 0) == find_run(a, i as int),
        decreases argv@.len() - i,
    {
        i = i + 1;
    }
    if i == argv.len() {
        return None;
    }
    assert(find_run(a, 0) == Some(i as int));
    let mut j: usize = i + 1;
    while j < argv.len() && is_option_token(&argv[j])
        invariant
            i < j <= argv@.len(),
            a == views(argv@),
            find_non_option(a, i + 1) == find_non_option(a, j as int),
        decreases argv@.len() - j,
    {
        j = j + 1;
    }
    if j == argv.len() {
        return None;
    }
    Some(copy_string(&argv[j]))
}

/// The safe uninstall method of an app, or `None` (native apt packages,
/// hand-placed AppImages... are not uninstallable from here).
pub fn uninstall_spec(entry: &AppEntry) -> (r: Option<UninstallSpec>)
    ensures
        uninstall_matches(r, *entry),
{
    proof {
        reveal_strlit("weft-windows:");
    }
    let id = chars_of(entry.id.as_str());
    let prefix = chars_of("weft-windows:");
    if crate::text::starts_with(&id, &prefix) {
        let mut slug: Vec<char> = Vec::new();
        let mut k: usize = prefix.len();
        while k < id.len()
            invariant
                prefix.len() <= k <= id@.len(),
                slug@ == id@.subrange(prefix@.len() as int, k as int),
            decreases id@.len() - k,
        {
            slug.push(id[k]);
            k = k + 1;
            assert(slug@ =~= id@.subrange(prefix@.len() as int, k as int));
        }
        assert(slug@ =~= entry.id@.skip(13));
        return Some(UninstallSpec::WeftWindows(string_of(&slug)));
    }
    if let LaunchSpec::SteamApp(app_id) = entry.launch {
        return Some(UninstallSpec::Steam(app_id));
    }
    if entry.source == Source::Flatpak {
        if let LaunchSpec::Exec(argv) = &entry.launch {
            return match flatpak_app_id(argv.as_slice()) {
                Some(id) => Some(UninstallSpec::Flatpak(id)),
                None => None,
            };
        }
    }
    None
}

/// The result of an index entry; the score is capped to the common scale.
pub fn to_item(entry: &AppEntry, score: u32) -> (r: ResultItem)
    ensures
        is_app_item(r, *entry, score),
{
    ResultItem {
        id: copy_string(&entry.id),
        title: copy_string(&entry.name),
        subtitle: copy_opt_string(&entry.description),
        icon: copy_icon(&entry.icon),
        action: Action::Launch(copy_launch(&entry.launch)),
        uninstall: uninstall_spec(entry),
        tier: Tier::Primary,
        score: if score < 1000 { score } else { 1000 },
    }
}

/// Sorts results by score decreasing, ties by title (stable).
pub fn rank_items(items: Vec<ResultItem>) -> (r: Vec<ResultItem>)
    ensures
        stable_sorted(r@, items@, score_title_keys(items@)),
{
    let mut keys: Vec<Vec<u32>> = Vec::new();
    let mut i: usize = 0;
    while i < items.len()
        invariant
            i <= items@.len(),
            keys@.len() == i,
            forall|k: int| 0 <= k < i ==> #[trigger] keys@[k]@ == score_title_key(items@[k]),
        decreases items@.len() - i,
    {
        let mut head: Vec<u32> = Vec::new();
        let desc: u32 = u32::MAX - items[i].score;
        head.push(desc);
        keys.push(key_with_title(head, &items[i].title));
        i = i + 1;
    }
    assert(keys@.map_values(|k: Vec<u32>| k@) =~= score_title_keys(items@));
    stable_sort(items, keys)
}

/// The results of the applications provider: each searched entry
/// (`scored` from the search) with its fuzzy score plus its frecency bonus
/// (`boosts[k]` for `scored[k]`), re-sorted so that a much-used app can
/// pass a slightly better match.
pub fn app_items(entries: &[AppEntry], scored: Vec<(usize, u32)>, boosts: Vec<u32>) -> (r: Vec<ResultItem>)
    requires
        boosts@.len() == scored@.len(),
        forall|k: int| 0 <= k < scored@.len() ==> (#[trigger] scored@[k]).0 < entries@.len(),
        forall|k: int| 0 <= k < scored@.len() ==> (#[trigger] scored@[k]).1 + boosts@[k] <= u32::MAX,
    ensures
        exists|items: Seq<ResultItem>| {
            &&& items.len() == scored@.len()
            &&& forall|k: int| 0 <= k < items.len() ==> is_app_item(#[trigger] items[k], entries@[scored@[k].0 as int], (scored@[k].1 + boosts@[k]) as u32)
            &&& #[trigger] stable_sorted(r@, items, score_title_keys(items))
        },
{
    let mut items: Vec<ResultItem> = Vec::new();
    let mut k: usize = 0;
    while k < scored.len()
        invariant
            k <= scored@.len(),
            boosts@.len() == scored@.len(),
            forall|q: int| 0 <= q < scored@.len() ==> (#[trigger] scored@[q]).0 < entries@.len(),
            forall|q: int| 0 <= q < scored@.len() ==> (#[trigger] scored@[q]).1 + boosts@[q] <= u32::MAX,
            items@.len() == k,
            forall|q: int| 0 <= q < k ==> is_app_item(#[trigger] items@[q], entries@[scored@[q].0 as int], (scored@[q].1 + boosts@[q]) as u32),
        decreases scored@.len() - k,
    {
        let (i, s) = scored[k];
        let item = to_item(&entries[i], s + boosts[k]);
        items.push(item);
        k = k + 1;
    }
    let ghost its = items@;
    rank_items(items)
}

/// The directories whose changes make the applications provider rescan:
/// the `applications/` directories, recursively (Wine puts its shortcuts
/// in subdirectories); each library's `steamapps/`, not recursively (the
/// games lie below); Weft's Windows apps directory, not recursively (the
/// chatty Wine prefixes lie below; an app directory appearing or going is
/// enough).
pub fn app_watch_specs(desktop_dirs: &Vec<String>, steamapps: &Vec<String>, windows_apps: Option<String>) -> (r: Vec<
    WatchSpec,
>)
    ensures
        r@.len() == desktop_dirs@.len() + steamapps@.len() + if windows_apps is Some {
            1int
        } else {
            0int
        },
        forall|i: int|
            0 <= i < desktop_dirs@.len() ==> (#[trigger] r@[i]).path@ == desktop_dirs@[i]@ && r@[i].recursive,
        forall|i: int|
            0 <= i < steamapps@.len() ==> (#[trigger] r@[desktop_dirs@.len() + i]).path@ == steamapps@[i]@
                && !r@[desktop_dirs@.len() + i].recursive,
        windows_apps matches Some(w) ==> r@.last().path@ == w@ && !r@.last().recursive,
{
    let mut r: Vec<WatchSpec> = Vec::new();
    let mut i: usize = 0;
    while i < desktop_dirs.len()
        invariant
            i <= desktop_dirs@.len(),
            r@.len() == i,
            forall|k: int| 0 <= k < i ==> (#[trigger] r@[k]).path@ == desktop_dirs@[k]@ && r@[k].recursive,
        decreases desktop_dirs.len() - i,
    {
        r.push(WatchSpec { path: desktop_dirs[i].clone(), recursive: true });
        i = i + 1;
    }
    let n = desktop_dirs.len();
    let mut j: usize = 0;
    while j < steamapps.len()
        invariant
            j <= steamapps@.len(),
            n == desktop_dirs@.len(),
            r@.len() == n + j,
            forall|k: int| 0 <= k < n ==> (#[trigger] r@[k]).path@ == desktop_dirs@[k]@ && r@[k].recursive,
            forall|k: int| 0 <= k < j ==> (#[trigger] r@[n + k]).path@ == steamapps@[k]@ && !r@[n + k].recursive,
        decreases steamapps.len() - j,
    {
        r.push(WatchSpec { path: steamapps[j].clone(), recursive: false });
        j = j + 1;
    }
    match windows_apps {
        Some(w) => {
            r.push(WatchSpec { path: w, recursive: false });
        },
        None => {},
    }
    r
}

} // verus!
