//! The Steam library.
//!
//! Steam describes each installed game with a text manifest
//! `steamapps/appmanifest_<appid>.acf` (VDF, "Valve's JSON"). Secondary
//! libraries (other disks) are listed in `steamapps/libraryfolders.vdf`.
//! Games always launch through the Steam client
//! (`steam://rungameid/<appid>`), which handles Proton itself.
use vstd::prelude::*;

use crate::model::{AppEntry, Icon, LaunchSpec, Source};
use crate::order::{stable_sort, stable_sorted};
use crate::path::{join, joined, path_eq, same_path};
use crate::text::{
    char_codes, chars_of, codes, decimal_digits, decimal_string, parse_u32, parse_u64, parse_unsigned, starts_with,
    string_of,
};
use vstd::string::StringExecFns;

verus! {

/// A manifest whose StateFlags hold this bit is a fully installed game.
pub const STATE_FULLY_INSTALLED: u64 = 4;

/// A VDF value: a string, or an object whose keys (each once, in order)
/// map to one or more values.
#[derive(Debug)]
pub enum VdfValue {
    Str(String),
    Obj(Vec<(String, Vec<VdfValue>)>),
}

#[verifier::external_type_specification]
#[verifier::external_body]
pub struct ExVdfValue<'a>(keyvalues_parser::Value<'a>);

/// What `keyvalues_parser::parse` then `Vdf::from` give for `text`: the
/// top-level value, `None` on a parse error.
pub uninterp spec fn vdf_of(text: Seq<char>) -> Option<VdfValue>;

/// Trusted: `keyvalues_parser::parse`, then `Vdf::from`, the top-level
/// value converted; the result is named `vdf_of(text)`.
#[verifier::external_body]
pub(crate) fn parse_vdf(text: &str) -> (r: Option<VdfValue>)
    ensures
        r == vdf_of(text@),
{
    keyvalues_parser::parse(text).ok().map(|p| from_vdf(&keyvalues_parser::Vdf::from(p).value))
}

/// Trusted: converts a `keyvalues_parser::Value` into a `VdfValue`,
/// variant by variant, an object's entries in the map's order.
#[verifier::external_body]
fn from_vdf(v: &keyvalues_parser::Value) -> VdfValue {
    match v {
        keyvalues_parser::Value::Str(s) => VdfValue::Str(s.to_string()),
        keyvalues_parser::Value::Obj(o) => VdfValue::Obj(
            o.iter().map(|(k, vs)| (k.to_string(), vs.iter().map(from_vdf).collect())).collect(),
        ),
    }
}

/// The first value of the key `key` of an object, when it is a string.
pub open spec fn field_of(ms: Seq<(String, Vec<VdfValue>)>, key: Seq<char>) -> Option<Seq<char>>
    decreases ms.len(),
{
    if ms.len() == 0 {
        None
    } else if ms[0].0@ == key {
        if ms[0].1@.len() > 0 {
            match ms[0].1@[0] {
                VdfValue::Str(s) => Some(s@),
                _ => None,
            }
        } else {
            None
        }
    } else {
        field_of(ms.drop_first(), key)
    }
}

fn field<'a>(ms: &'a Vec<(String, Vec<VdfValue>)>, key: &str) -> (r: Option<&'a str>)
    ensures
        match r {
            Some(s) => field_of(ms@, key@) == Some(s@),
            None => field_of(ms@, key@) is None,
        },
{
    let want = chars_of(key);
    let mut i: usize = 0;
    assert(ms@.skip(0) =~= ms@);
    while i < ms.len()
        invariant
            i <= ms@.len(),
            want@ == key@,
            field_of(ms@, key@) == field_of(ms@.skip(i as int), key@),
        decreases ms.len() - i,
    {
        assert(ms@.skip(i as int).drop_first() =~= ms@.skip(i + 1));
        assert(ms@.skip(i as int)[0] == ms@[i as int]);
        let have = chars_of(ms[i].0.as_str());
        if crate::text::seq_eq(&have, &want) {
            if ms[i].1.len() > 0 {
                return match &ms[i].1[0] {
                    VdfValue::Str(s) => Some(s.as_str()),
                    _ => None,
                };
            }
            return None;
        }
        i = i + 1;
    }
    None
}

// ------------------------------------------------------------------ //
// Libraries                                                           //
// ------------------------------------------------------------------ //

/// The `path` of a library entry of `libraryfolders.vdf`.
pub open spec fn library_path(v: VdfValue) -> Option<Seq<char>> {
    match v {
        VdfValue::Obj(ms) => field_of(ms@, "path"@),
        _ => None,
    }
}

/// The library paths among values, in order.
pub open spec fn value_paths(vs: Seq<VdfValue>) -> Seq<Seq<char>>
    decreases vs.len(),
{
    if vs.len() == 0 {
        Seq::empty()
    } else {
        let front = value_paths(vs.drop_last());
        match library_path(vs.last()) {
            Some(p) => front.push(p),
            None => front,
        }
    }
}

/// The library paths of all the entries, in order.
pub open spec fn member_paths(ms: Seq<(String, Vec<VdfValue>)>) -> Seq<Seq<char>>
    decreases ms.len(),
{
    if ms.len() == 0 {
        Seq::empty()
    } else {
        member_paths(ms.drop_last()) + value_paths(ms.last().1@)
    }
}

/// `dirs`, then each of `ps` that is not already there (as a path).
pub open spec fn add_dirs(dirs: Seq<Seq<char>>, ps: Seq<Seq<char>>) -> Seq<Seq<char>>
    decreases ps.len(),
{
    if ps.len() == 0 {
        dirs
    } else {
        let front = add_dirs(dirs, ps.drop_last());
        if exists|i: int| 0 <= i < front.len() && same_path(#[trigger] front[i], ps.last()) {
            front
        } else {
            front.push(ps.last())
        }
    }
}

/// The Steam libraries: the root itself, then those of
/// `libraryfolders.vdf` (its text, when it could be read).
pub open spec fn libraries(root: Seq<char>, text: Option<Seq<char>>) -> Seq<Seq<char>> {
    match text {
        None => seq![root],
        Some(t) => match vdf_of(t) {
            Some(VdfValue::Obj(ms)) => add_dirs(seq![root], member_paths(ms@)),
            _ => seq![root],
        },
    }
}

/// Adding library paths keeps the directories already listed, in front;
/// every path added ends up listed (itself, or a path equal to it); and a
/// directory is listed only if it equals none listed before it.
pub proof fn lemma_add_dirs(dirs: Seq<Seq<char>>, ps: Seq<Seq<char>>)
    ensures
        add_dirs(dirs, ps).len() >= dirs.len(),
        forall|i: int| 0 <= i < dirs.len() ==> add_dirs(dirs, ps)[i] == #[trigger] dirs[i],
        forall|k: int|
            0 <= k < ps.len() ==> exists|i: int|
                0 <= i < add_dirs(dirs, ps).len() && (#[trigger] add_dirs(dirs, ps)[i] == #[trigger] ps[k]
                    || same_path(add_dirs(dirs, ps)[i], ps[k])),
        forall|i: int, j: int|
            dirs.len() <= j < add_dirs(dirs, ps).len() && 0 <= i < j ==> !same_path(
                #[trigger] add_dirs(dirs, ps)[i],
                #[trigger] add_dirs(dirs, ps)[j],
            ),
    decreases ps.len(),
{
    if ps.len() > 0 {
        let init = ps.drop_last();
        lemma_add_dirs(dirs, init);
        let front = add_dirs(dirs, init);
        let res = add_dirs(dirs, ps);
        assert forall|k: int| 0 <= k < ps.len() implies exists|i: int|
            0 <= i < res.len() && (#[trigger] res[i] == #[trigger] ps[k] || same_path(res[i], ps[k])) by {
            if k < init.len() {
                assert(ps[k] == init[k]);
                let i = choose|i: int|
                    0 <= i < front.len() && (#[trigger] front[i] == #[trigger] init[k] || same_path(front[i], init[k]));
                assert(res[i] == front[i]);
            } else if exists|i: int| 0 <= i < front.len() && same_path(#[trigger] front[i], ps.last()) {
                let i = choose|i: int| 0 <= i < front.len() && same_path(#[trigger] front[i], ps.last());
                assert(res[i] == front[i]);
            } else {
                assert(res[res.len() - 1] == ps.last());
            }
        }
    }
}

fn push_unique(dirs: &mut Vec<String>, p: &str)
    ensures
        texts(final(dirs)@) == (if exists|i: int|
            0 <= i < texts(old(dirs)@).len() && same_path(#[trigger] texts(old(dirs)@)[i], p@) {
            texts(old(dirs)@)
        } else {
            texts(old(dirs)@).push(p@)
        }),
{
    let mut i: usize = 0;
    while i < dirs.len()
        invariant
            i <= dirs@.len(),
            dirs@ == old(dirs)@,
            forall|k: int| 0 <= k < i ==> !same_path(#[trigger] texts(dirs@)[k], p@),
        decreases dirs.len() - i,
    {
        assert(texts(dirs@)[i as int] == dirs@[i as int]@);
        if path_eq(dirs[i].as_str(), p) {
            return;
        }
        i = i + 1;
    }
    dirs.push(String::from_str(p));
    assert(texts(dirs@) =~= texts(old(dirs)@).push(p@));
}

pub open spec fn texts(v: Seq<String>) -> Seq<Seq<char>> {
    v.map_values(|s: String| s@)
}

fn add_value_paths(dirs: &mut Vec<String>, vs: &Vec<VdfValue>)
    ensures
        texts(final(dirs)@) == add_dirs(texts(old(dirs)@), value_paths(vs@)),
{
    let ghost start = texts(dirs@);
    let mut i: usize = 0;
    while i < vs.len()
        invariant
            i <= vs@.len(),
            start == texts(old(dirs)@),
            texts(dirs@) == add_dirs(start, value_paths(vs@.take(i as int))),
        decreases vs.len() - i,
    {
        assert(vs@.take(i + 1).drop_last() =~= vs@.take(i as int));
        let ghost before = value_paths(vs@.take(i as int));
        match &vs[i] {
            VdfValue::Obj(lib) => match field(lib, "path") {
                Some(p) => {
                    assert(value_paths(vs@.take(i + 1)) == before.push(p@));
                    assert(before.push(p@).drop_last() =~= before);
                    push_unique(dirs, p);
                },
                None => {
                    assert(value_paths(vs@.take(i + 1)) == before);
                },
            },
            _ => {
                assert(value_paths(vs@.take(i + 1)) == before);
            },
        }
        i = i + 1;
    }
    assert(vs@.take(vs@.len() as int) =~= vs@);
}

proof fn lemma_add_dirs_concat(dirs: Seq<Seq<char>>, a: Seq<Seq<char>>, b: Seq<Seq<char>>)
    ensures
        add_dirs(dirs, a + b) == add_dirs(add_dirs(dirs, a), b),
    decreases b.len(),
{
    if b.len() == 0 {
        assert(a + b =~= a);
    } else {
        assert((a + b).drop_last() =~= a + b.drop_last());
        lemma_add_dirs_concat(dirs, a, b.drop_last());
    }
}

/// The libraries of the Steam installation at `root`, given the text of
/// its `steamapps/libraryfolders.vdf` (`None` when it could not be read).
pub fn library_dirs(root: &str, text: Option<&str>) -> (r: Vec<String>)
    ensures
        texts(r@) == libraries(
            root@,
            match text {
                Some(t) => Some(t@),
                None => None,
            },
        ),
{
    let mut dirs: Vec<String> = Vec::new();
    dirs.push(String::from_str(root));
    assert(texts(dirs@) =~= seq![root@]);
    let t = match text {
        None => {
            return dirs;
        },
        Some(t) => t,
    };
    let vdf = parse_vdf(t);
    let ms = match &vdf {
        Some(VdfValue::Obj(ms)) => ms,
        _ => {
            return dirs;
        },
    };
    let ghost start = texts(dirs@);
    let mut i: usize = 0;
    while i < ms.len()
        invariant
            i <= ms@.len(),
            texts(dirs@) == add_dirs(start, member_paths(ms@.take(i as int))),
        decreases ms.len() - i,
    {
        assert(ms@.take(i + 1).drop_last() =~= ms@.take(i as int));
        proof {
            lemma_add_dirs_concat(start, member_paths(ms@.take(i as int)), value_paths(ms@[i as int].1@));
        }
        add_value_paths(&mut dirs, &ms[i].1);
        i = i + 1;
    }
    assert(ms@.take(ms@.len() as int) =~= ms@);
    dirs
}

/// The `steamapps/` directory of each library (watched for changes).
pub fn steamapps_dirs(libraries: &Vec<String>) -> (r: Vec<String>)
    ensures
        r@.len() == libraries@.len(),
        forall|i: int| 0 <= i < r@.len() ==> (#[trigger] r@[i])@ == joined(libraries@[i]@, "steamapps"@),
{
    let mut r: Vec<String> = Vec::new();
    let mut i: usize = 0;
    while i < libraries.len()
        invariant
            i <= libraries@.len(),
            r@.len() == i,
            forall|k: int| 0 <= k < i ==> (#[trigger] r@[k])@ == joined(libraries@[k]@, "steamapps"@),
        decreases libraries.len() - i,
    {
        r.push(join(libraries[i].as_str(), "steamapps"));
        i = i + 1;
    }
    r
}

/// Where a Steam installation is looked for under the home directory, in
/// order: the first whose `steamapps/` is a directory.
pub fn steam_root_candidates(home: &str) -> (r: Vec<String>)
    ensures
        texts(r@) == seq![
            joined(home@, ".steam/steam"@),
            joined(home@, ".local/share/Steam"@),
            joined(home@, ".var/app/com.valvesoftware.Steam/.local/share/Steam"@),
        ],
{
    let mut r: Vec<String> = Vec::new();
    r.push(join(home, ".steam/steam"));
    r.push(join(home, ".local/share/Steam"));
    r.push(join(home, ".var/app/com.valvesoftware.Steam/.local/share/Steam"));
    assert(texts(r@) =~= seq![
        joined(home@, ".steam/steam"@),
        joined(home@, ".local/share/Steam"@),
        joined(home@, ".var/app/com.valvesoftware.Steam/.local/share/Steam"@),
    ]);
    r
}

/// A file name of a game manifest: `appmanifest_*.acf`.
pub open spec fn manifest_name(n: Seq<char>) -> bool {
    n.len() >= 12 && n.take(12) == "appmanifest_"@ && n.len() >= 4 && n.skip(n.len() - 4) == ".acf"@
}

pub fn is_manifest_name(name: &str) -> (r: bool)
    ensures
        r == manifest_name(name@),
{
    proof {
        reveal_strlit("appmanifest_");
        reveal_strlit(".acf");
    }
    let n = chars_of(name);
    let p = chars_of("appmanifest_");
    if !starts_with(&n, &p) {
        proof {
            if n@.len() >= 12 && n@.take(12) == "appmanifest_"@ {
                assert(n@.take(p@.len() as int) == p@);
            }
        }
        return false;
    }
    let k = n.len();
    if k < 4 {
        return false;
    }
    let r = n[k - 4] == '.' && n[k - 3] == 'a' && n[k - 2] == 'c' && n[k - 1] == 'f';
    proof {
        let s = n@.skip(k - 4);
        if r {
            assert(s =~= ".acf"@);
        } else if s == ".acf"@ {
            assert(s[0] == n@[k - 4] && s[1] == n@[k - 3] && s[2] == n@[k - 2] && s[3] == n@[k - 1]);
        }
    }
    r
}

// ------------------------------------------------------------------ //
// Manifests                                                           //
// ------------------------------------------------------------------ //

/// Steam's own tooling (Proton, runtimes, redistributables) has manifests
/// too; they are not games and stay hidden.
pub open spec fn tooling(name: Seq<char>) -> bool {
    ||| (name.len() >= 6 && name.take(6) == "Proton"@)
    ||| (name.len() >= 19 && name.take(19) == "Steam Linux Runtime"@)
    ||| (name.len() >= 17 && name.take(17) == "Steamworks Common"@)
}

pub fn is_tooling(name: &str) -> (r: bool)
    ensures
        r == tooling(name@),
{
    proof {
        reveal_strlit("Proton");
        reveal_strlit("Steam Linux Runtime");
        reveal_strlit("Steamworks Common");
    }
    let n = chars_of(name);
    let a = chars_of("Proton");
    let b = chars_of("Steam Linux Runtime");
    let c = chars_of("Steamworks Common");
    let r = starts_with(&n, &a) || starts_with(&n, &b) || starts_with(&n, &c);
    r
}

/// An installed game of the library.
#[derive(Debug, Clone, PartialEq, Eq)]
pub struct SteamGame {
    pub app_id: u32,
    pub name: String,
}

/// The game a manifest describes: its `appid` (a `u32`) and `name`, when
/// StateFlags (0 when missing or unreadable) say fully installed and the
/// name is not Steam tooling.
pub open spec fn manifest_game(text: Seq<char>) -> Option<(u32, Seq<char>)> {
    match vdf_of(text) {
        Some(VdfValue::Obj(ms)) => match (field_of(ms@, "appid"@), field_of(ms@, "name"@)) {
            (Some(a), Some(n)) => match parse_unsigned(a, u32::MAX as nat) {
                Some(id) => {
                    let state: u64 = match field_of(ms@, "StateFlags"@) {
                        Some(s) => match parse_unsigned(s, u64::MAX as nat) {
                            Some(v) => v as u64,
                            None => 0,
                        },
                        None => 0,
                    };
                    if state & STATE_FULLY_INSTALLED == 0 || tooling(n) {
                        None
                    } else {
                        Some((id as u32, n))
                    }
                },
                None => None,
            },
            _ => None,
        },
        _ => None,
    }
}

proof fn lemma_bit_fully_installed(x: u64)
    ensures
        (x & 4u64 == 0u64) == ((x / 4) % 2 == 0),
{
    assert((x & 4u64 == 0u64) == ((x / 4) % 2 == 0)) by (bit_vector);
}

/// A manifest whose `appid` reads as a `u32`, whose `name` is not Steam
/// tooling and whose StateFlags read as `v` gives its game exactly when `v`
/// has the "fully installed" bit (4) set, whatever its other bits (an
/// update pending, for example); missing StateFlags count as nothing
/// installed. A tooling name never gives a game.
pub proof fn lemma_manifest_installed_bit(
    text: Seq<char>,
    ms: Vec<(String, Vec<VdfValue>)>,
    a: Seq<char>,
    id: nat,
    n: Seq<char>,
    st: Seq<char>,
    v: nat,
)
    requires
        vdf_of(text) == Some(VdfValue::Obj(ms)),
        field_of(ms@, "appid"@) == Some(a),
        parse_unsigned(a, u32::MAX as nat) == Some(id),
        field_of(ms@, "name"@) == Some(n),
    ensures
        !tooling(n) && field_of(ms@, "StateFlags"@) == Some(st) && parse_unsigned(st, u64::MAX as nat) == Some(v)
            ==> manifest_game(text) == (if (v / 4) % 2 == 1 {
            Some((id as u32, n))
        } else {
            None
        }),
        !tooling(n) && field_of(ms@, "StateFlags"@) is None ==> manifest_game(text) is None,
        tooling(n) ==> manifest_game(text) is None,
{
    if field_of(ms@, "StateFlags"@) == Some(st) && parse_unsigned(st, u64::MAX as nat) == Some(v) {
        lemma_bit_fully_installed(v as u64);
    }
    assert(0u64 & 4u64 == 0u64) by (bit_vector);
}

pub fn parse_manifest(text: &str) -> (r: Option<SteamGame>)
    ensures
        match r {
            Some(g) => manifest_game(text@) == Some((g.app_id, g.name@)),
            None => manifest_game(text@) is None,
        },
{
    let vdf = parse_vdf(text);
    let ms = match &vdf {
        Some(VdfValue::Obj(ms)) => ms,
        _ => {
            return None;
        },
    };
    let app_id = match field(ms, "appid") {
        Some(a) => match parse_u32(&chars_of(a)) {
            Some(id) => id,
            None => {
                return None;
            },
        },
        None => {
            return None;
        },
    };
    let name = match field(ms, "name") {
        Some(n) => n,
        None => {
            return None;
        },
    };
    let state: u64 = match field(ms, "StateFlags") {
        Some(s) => match parse_u64(&chars_of(s)) {
            Some(v) => v,
            None => 0,
        },
        None => 0,
    };
    if state & STATE_FULLY_INSTALLED == 0 || is_tooling(name) {
        return None;
    }
    Some(SteamGame { app_id, name: String::from_str(name) })
}

/// Where Steam caches a game's icon (old and new layouts), in the order
/// they are tried.
pub fn icon_candidates(steam_root: &str, app_id: u32) -> (r: Vec<String>)
    ensures
        texts(r@) == seq![
            joined(steam_root@, "appcache/librarycache/"@ + decimal_digits(app_id as nat) + "_icon.jpg"@),
            joined(steam_root@, "appcache/librarycache/"@ + decimal_digits(app_id as nat) + "/icon.jpg"@),
        ],
{
    let digits = string_of(&decimal_string(app_id as u64));
    let mut a = String::from_str("appcache/librarycache/");
    a.append(digits.as_str());
    a.append("_icon.jpg");
    let mut b = String::from_str("appcache/librarycache/");
    b.append(digits.as_str());
    b.append("/icon.jpg");
    let mut r: Vec<String> = Vec::new();
    r.push(join(steam_root, a.as_str()));
    r.push(join(steam_root, b.as_str()));
    assert(texts(r@) =~= seq![
        joined(steam_root@, "appcache/librarycache/"@ + decimal_digits(app_id as nat) + "_icon.jpg"@),
        joined(steam_root@, "appcache/librarycache/"@ + decimal_digits(app_id as nat) + "/icon.jpg"@),
    ]);
    r
}

/// The entry of a Steam game, with the cached icon found (if any).
pub open spec fn steam_entry(e: AppEntry, g: SteamGame, icon: Option<String>) -> bool {
    &&& e.id@ == "steam:"@ + decimal_digits(g.app_id as nat)
    &&& e.name@ == g.name@
    &&& e.description is None
    &&& match icon {
        Some(p) => e.icon matches Some(Icon::Path(q)) && q@ == p@,
        None => e.icon is None,
    }
    &&& e.launch == LaunchSpec::SteamApp(g.app_id)
    &&& e.source == Source::Steam
    &&& e.keywords@.len() == 0
}

pub fn entry_of(g: SteamGame, icon: Option<String>) -> (r: AppEntry)
    ensures
        steam_entry(r, g, icon),
{
    let mut id = String::from_str("steam:");
    let digits = string_of(&decimal_string(g.app_id as u64));
    id.append(digits.as_str());
    let icon = match icon {
        Some(p) => Some(Icon::Path(p)),
        None => None,
    };
    AppEntry {
        id,
        name: g.name,
        description: None,
        icon,
        launch: LaunchSpec::SteamApp(g.app_id),
        source: Source::Steam,
        keywords: Vec::new(),
    }
}

pub struct SteamScanner {
    /// Root of the Steam installation (holds steamapps/, appcache/...).
    root: Option<String>,
}

impl SteamScanner {
    pub closed spec fn root(&self) -> Option<Seq<char>> {
        match self.root {
            Some(r) => Some(r@),
            None => None,
        }
    }

    /// The installation found at the known places, if any.
    pub fn new(found: Option<String>) -> (r: Self)
        ensures
            r.root() == match found {
                Some(f) => Some(f@),
                None => None,
            },
    {
        SteamScanner { root: found }
    }

    /// An explicit root (fixtures).
    pub fn with_root(root: String) -> (r: Self)
        ensures
            r.root() == Some(root@),
    {
        SteamScanner { root: Some(root) }
    }

    pub fn root_dir(&self) -> (r: Option<&str>)
        ensures
            match r {
                Some(s) => self.root() == Some(s@),
                None => self.root() is None,
            },
    {
        match &self.root {
            Some(r) => Some(r.as_str()),
            None => None,
        }
    }

    pub fn name(&self) -> (r: &'static str)
        ensures
            r@ == "steam"@,
    {
        "steam"
    }

    /// The entries of the games found in the manifests (each with its
    /// cached icon, if any), ordered by id; nothing without a Steam
    /// installation.
    pub fn scan(&self, found: Vec<(SteamGame, Option<String>)>) -> (r: Vec<AppEntry>)
        ensures
            self.root() is None ==> r@.len() == 0,
            self.root() is Some ==> exists|entries: Seq<AppEntry>|
                #![trigger entries.len()]
                entries.len() == found@.len() && (forall|i: int|
                    0 <= i < found@.len() ==> steam_entry(#[trigger] entries[i], found@[i].0, found@[i].1))
                    && stable_sorted(r@, entries, entries.map_values(|e: AppEntry| codes(e.id@))),
    {
        if self.root.is_none() {
            return Vec::new();
        }
        let ghost fv = found@;
        let mut entries: Vec<AppEntry> = Vec::new();
        let mut keys: Vec<Vec<u32>> = Vec::new();
        let mut rest = found;
        let n = rest.len();
        let mut j: usize = 0;
        while rest.len() > 0
            invariant
                rest@.len() + j == n,
                n == fv.len(),
                rest@ == fv.skip(j as int),
                entries@.len() == j,
                keys@.len() == j,
                forall|i: int| 0 <= i < j ==> steam_entry(#[trigger] entries@[i], fv[i].0, fv[i].1),
                forall|i: int| 0 <= i < j ==> (#[trigger] keys@[i])@ == codes(entries@[i].id@),
            decreases rest.len(),
        {
            let (g, icon) = rest.remove(0);
            assert((g, icon) == fv[j as int]);
            let e = entry_of(g, icon);
            let idc = chars_of(e.id.as_str());
            keys.push(char_codes(&idc));
            entries.push(e);
            j = j + 1;
            assert(rest@ =~= fv.skip(j as int));
        }
        let ghost ev = entries@;
        let r = stable_sort(entries, keys);
        assert(keys@.map_values(|k: Vec<u32>| k@) =~= ev.map_values(|e: AppEntry| codes(e.id@)));
        assert(ev.len() == fv.len());
        r
    }
}

} // verus!
