//! Epic Games Store through legendary (the free CLI that replaces the Epic
//! launcher): legendary owns the account, the downloads and the
//! authentication arguments at launch; Weft keeps the rest (isolated
//! prefix, pinned runtime, manifest, launcher). legendary's JSON answers
//! are read here; running it is the application's side.
use vstd::prelude::*;

use super::manifest::{Manifest, RuntimeVersions};
use super::prefix::InstalledApp;
use super::runtime::{PINNED_PROTON, PINNED_UMU};
use super::install::copy_opt;
use super::{texts, CommandPlan, WindowsEngine, WindowsRoot};
use crate::json::{as_str, get, get_str, json_array_of, json_value_of, member, parse_json, parse_json_array, str_member, text_of, Json};
use crate::order::{stable_sort, stable_sorted};
use crate::path::{join, joined, strip_prefix, strip_prefix_of};
use crate::text::{char_codes, chars_of, codes, concat, opt_text, replace_char, replace_char_spec, seq_eq, string_of};
use vstd::string::StringExecFns;

verus! {

#[derive(Debug, Clone)]
pub struct EpicGame {
    /// Epic's internal id (legendary's app_name), the future store_id.
    pub app_name: String,
    pub title: String,
}

/// `legendary status --json` tells of a connected account: its `account`
/// member is a string other than "<not logged in>".
pub open spec fn account_connected(status: Seq<u8>) -> bool {
    match json_value_of(status) {
        Ok(v) => match str_member(v, "account"@) {
            Some(a) => a != "<not logged in>"@,
            None => false,
        },
        Err(_) => false,
    }
}

/// Whether the output of a successful `legendary status --json` shows a
/// connected account.
pub fn logged_in(status: &[u8]) -> (r: bool)
    ensures
        r == account_connected(status@),
{
    match parse_json(status) {
        Err(_) => false,
        Ok(v) => match get_str(&v, "account") {
            None => false,
            Some(a) => {
                let got = chars_of(a);
                let none = chars_of("<not logged in>");
                !seq_eq(&got, &none)
            },
        },
    }
}

/// A game of the library listing: its `app_name` and `app_title` strings.
pub open spec fn game_of(g: Json) -> Option<(Seq<char>, Seq<char>)> {
    match (str_member(g, "app_name"@), str_member(g, "app_title"@)) {
        (Some(n), Some(t)) => Some((n, t)),
        _ => None,
    }
}

/// The games of a listing that name both, in listing order.
pub open spec fn listed_games(gs: Seq<Json>) -> Seq<(Seq<char>, Seq<char>)>
    decreases gs.len(),
{
    if gs.len() == 0 {
        Seq::empty()
    } else {
        let front = listed_games(gs.drop_last());
        match game_of(gs.last()) {
            Some(g) => front.push(g),
            None => front,
        }
    }
}

pub open spec fn game_texts(gs: Seq<EpicGame>) -> Seq<(Seq<char>, Seq<char>)> {
    gs.map_values(|g: EpicGame| (g.app_name@, g.title@))
}

/// The account's library from the output of `legendary list --json`:
/// the games that name their id and title, ordered by title (ties in
/// listing order); an unreadable answer is an error.
pub fn library(listing: &[u8]) -> (r: Result<Vec<EpicGame>, String>)
    ensures
        match json_array_of(listing@) {
            Ok(gs) => r matches Ok(games) && stable_sorted(
                game_texts(games@),
                listed_games(gs),
                listed_games(gs).map_values(|g: (Seq<char>, Seq<char>)| codes(g.1)),
            ),
            Err(e) => r matches Err(m) && m@ == "réponse legendary illisible : "@ + e,
        },
{
    let games = match parse_json_array(listing) {
        Err(e) => {
            let mut m = String::from_str("réponse legendary illisible : ");
            m.append(e.as_str());
            return Err(m);
        },
        Ok(gs) => gs,
    };
    let mut list: Vec<EpicGame> = Vec::new();
    let mut keys: Vec<Vec<u32>> = Vec::new();
    let mut i: usize = 0;
    while i < games.len()
        invariant
            i <= games@.len(),
            game_texts(list@) == listed_games(games@.take(i as int)),
            keys@.len() == list@.len(),
            forall|k: int| 0 <= k < keys@.len() ==> (#[trigger] keys@[k])@ == codes(list@[k].title@),
        decreases games.len() - i,
    {
        assert(games@.take(i + 1).drop_last() =~= games@.take(i as int));
        let g = &games[i];
        match (get_str(g, "app_name"), get_str(g, "app_title")) {
            (Some(n), Some(t)) => {
                let title = String::from_str(t);
                let tc = chars_of(t);
                keys.push(char_codes(&tc));
                list.push(EpicGame { app_name: String::from_str(n), title });
                assert(game_texts(list@) =~= listed_games(games@.take(i as int)).push((n@, t@)));
            },
            _ => {},
        }
        i = i + 1;
    }
    assert(games@.take(games@.len() as int) =~= games@);
    let ghost inp = list@;
    let sorted = stable_sort(list, keys);
    proof {
        let found = listed_games(games@);
        assert(keys@.map_values(|k: Vec<u32>| k@) =~= inp.map_values(|g: EpicGame| codes(g.title@)));
        lemma_sorted_texts(sorted@, inp, keys@.map_values(|k: Vec<u32>| k@));
        assert(found.map_values(|g: (Seq<char>, Seq<char>)| codes(g.1)) =~= inp.map_values(
            |g: EpicGame| codes(g.title@),
        ));
    }
    Ok(sorted)
}

proof fn lemma_sorted_texts(out: Seq<EpicGame>, inp: Seq<EpicGame>, keys: Seq<Seq<u32>>)
    requires
        stable_sorted(out, inp, keys),
    ensures
        stable_sorted(game_texts(out), game_texts(inp), keys),
{
    let p = choose|p: Seq<int>| crate::order::sorted_by_perm(out, inp, keys, p);
    assert(crate::order::sorted_by_perm(game_texts(out), game_texts(inp), keys, p));
}

/// The install of `app_name` in a `legendary list-installed --json`
/// listing: the first entry with that `app_name` that names its
/// `install_path` and `executable`; the executable without its leading
/// separators, with `/` for `\`.
pub open spec fn install_of(g: Json, app_name: Seq<char>) -> Option<(Seq<char>, Seq<char>)> {
    if str_member(g, "app_name"@) == Some(app_name) {
        match (str_member(g, "install_path"@), str_member(g, "executable"@)) {
            (Some(p), Some(e)) => Some((p, replace_char_spec(trim_separators(e), '\\', '/'))),
            _ => None,
        }
    } else {
        None
    }
}

/// `e` without its leading `/` and `\`.
pub open spec fn trim_separators(e: Seq<char>) -> Seq<char>
    decreases e.len(),
{
    if e.len() > 0 && (e[0] == '/' || e[0] == '\\') {
        trim_separators(e.drop_first())
    } else {
        e
    }
}

pub open spec fn first_install(gs: Seq<Json>, app_name: Seq<char>) -> Option<(Seq<char>, Seq<char>)>
    decreases gs.len(),
{
    if gs.len() == 0 {
        None
    } else {
        match install_of(gs[0], app_name) {
            Some(x) => Some(x),
            None => first_install(gs.drop_first(), app_name),
        }
    }
}

/// An executable as legendary writes it, made relative with `/` separators.
fn clean_exe(e: &str) -> (r: String)
    ensures
        r@ == replace_char_spec(trim_separators(e@), '\\', '/'),
{
    let ec = chars_of(e);
    let mut k: usize = 0;
    assert(ec@.skip(0) =~= ec@);
    while k < ec.len() && (ec[k] == '/' || ec[k] == '\\')
        invariant
            k <= ec@.len(),
            trim_separators(ec@.skip(k as int)) == trim_separators(e@),
            ec@ == e@,
        decreases ec.len() - k,
    {
        assert(ec@.skip(k as int).drop_first() =~= ec@.skip(k + 1));
        k = k + 1;
    }
    let mut rest: Vec<char> = Vec::new();
    let mut m: usize = k;
    while m < ec.len()
        invariant
            k <= m <= ec@.len(),
            rest@ == ec@.subrange(k as int, m as int),
        decreases ec.len() - m,
    {
        rest.push(ec[m]);
        m = m + 1;
        assert(rest@ =~= ec@.subrange(k as int, m as int));
    }
    assert(rest@ =~= ec@.skip(k as int));
    let slashed = replace_char(&rest, '\\', '/');
    string_of(&slashed)
}

/// For an installed game: (absolute install directory, main executable
/// relative to it), as Epic declares them.
pub fn installed_info(listing: &[u8], app_name: &str) -> (r: Option<(String, String)>)
    ensures
        match json_array_of(listing@) {
            Ok(gs) => match first_install(gs, app_name@) {
                Some((p, e)) => r matches Some((rp, re)) && rp@ == p && re@ == e,
                None => r is None,
            },
            Err(_) => r is None,
        },
{
    let games = match parse_json_array(listing) {
        Err(_) => {
            return None;
        },
        Ok(gs) => gs,
    };
    let want = chars_of(app_name);
    let mut i: usize = 0;
    assert(games@.skip(0) =~= games@);
    while i < games.len()
        invariant
            i <= games@.len(),
            want@ == app_name@,
            json_array_of(listing@) == Ok::<Seq<Json>, Seq<char>>(games@),
            first_install(games@, app_name@) == first_install(games@.skip(i as int), app_name@),
        decreases games.len() - i,
    {
        assert(games@.skip(i as int).drop_first() =~= games@.skip(i + 1));
        assert(games@.skip(i as int)[0] == games@[i as int]);
        let g = &games[i];
        let named = match get_str(g, "app_name") {
            Some(n) => {
                let nc = chars_of(n);
                seq_eq(&nc, &want)
            },
            None => false,
        };
        if named {
            match (get_str(g, "install_path"), get_str(g, "executable")) {
                (Some(p), Some(e)) => {
                    return Some((String::from_str(p), clean_exe(e)));
                },
                _ => {},
            }
        }
        i = i + 1;
    }
    assert(games@.skip(games@.len() as int) =~= Seq::<Json>::empty());
    None
}

/// The protonfixes id in the umu database's answer: the `umu_id` string
/// of its first entry.
pub open spec fn umu_id_in(answer: Seq<u8>) -> Option<Seq<char>> {
    match json_value_of(answer) {
        Ok(Json::Array(entries)) => if entries@.len() > 0 {
            str_member(entries@[0], "umu_id"@)
        } else {
            None
        },
        _ => None,
    }
}

pub fn umu_id(answer: &[u8]) -> (r: Option<String>)
    ensures
        opt_text(r) == umu_id_in(answer@),
{
    match parse_json(answer) {
        Ok(Json::Array(entries)) => {
            if entries.len() == 0 {
                return None;
            }
            match get_str(&entries[0], "umu_id") {
                Some(s) => Some(String::from_str(s)),
                None => None,
            }
        },
        _ => None,
    }
}

/// The query of the umu database for a game of `store`.
pub fn umu_api_url(app_name: &str, store: &str) -> (r: String)
    ensures
        r@ == "https://umu.openwinecomponents.org/umu_api.php?codename="@ + app_name@ + "&store="@ + store@,
{
    let mut u = String::from_str("https://umu.openwinecomponents.org/umu_api.php?codename=");
    u.append(app_name);
    u.append("&store=");
    u.append(store);
    u
}

/// Where the executable of a downloaded game is recorded: relative to the
/// app directory when the game lies under it, absolute otherwise.
pub open spec fn exe_record(install_path: Seq<char>, dir: Seq<char>, exe: Seq<char>) -> Seq<char> {
    match strip_prefix_of(install_path, dir) {
        Some(rel) => rel + "/"@ + exe,
        None => install_path + "/"@ + exe,
    }
}

pub fn record_exe(install_path: &str, dir: &str, exe: &str) -> (r: String)
    ensures
        r@ == exe_record(install_path@, dir@, exe@),
{
    let mut out = match strip_prefix(install_path, dir) {
        Some(rel) => rel,
        None => String::from_str(install_path),
    };
    out.append("/");
    out.append(exe);
    out
}

} // verus!
