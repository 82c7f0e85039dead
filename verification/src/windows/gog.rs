//! GOG through lgogdownloader. GOG games are DRM-free offline Inno Setup
//! installers: lgogdownloader fetches the official installer, and the
//! engine installs it silently in its own prefix. No GOG client.
use vstd::prelude::*;

use super::{texts, CommandPlan};
use crate::json::{get, get_str, json_value_of, member, parse_json, str_member, text_of, Json};
use crate::order::{lex_less, lex_lt, stable_sort, stable_sorted};
use crate::path::{eq_ignore_ascii_case, extension, extension_of, ignore_ascii_case_eq};
use crate::text::{alphanumeric, char_codes, chars_of, codes, is_alphanumeric, string_of};
use vstd::string::StringExecFns;

verus! {

#[derive(Debug, Clone)]
pub struct GogGame {
    /// GOG slug ("betrayer", "stardew_valley"), the future store_id.
    pub gamename: String,
    pub title: String,
    /// Numeric product id (the key of the fixes database for STORE=gog).
    pub product_id: String,
}

/// The games array of lgogdownloader's listing: its `games` member, or
/// the listing itself when it is an array.
pub open spec fn games_array(v: Json) -> Seq<Json> {
    match member(v, "games"@) {
        Some(Json::Array(gs)) => gs@,
        _ => match v {
            Json::Array(gs) => gs@,
            _ => Seq::empty(),
        },
    }
}

/// The product id of a game: its `product_id` member, else its `id`, as
/// text (a number by its decimal writing); empty when neither is a string
/// or a number.
pub open spec fn product_id_of(g: Json) -> Seq<char> {
    let id = match member(g, "product_id"@) {
        Some(p) => Some(p),
        None => member(g, "id"@),
    };
    match id {
        Some(Json::Str(s)) => s@,
        Some(Json::Number(n)) => n@,
        _ => Seq::empty(),
    }
}

/// A game of the listing: named by `gamename`, titled by `title` when it
/// is a string, by its gamename otherwise.
pub open spec fn gog_game_of(g: Json) -> Option<(Seq<char>, Seq<char>, Seq<char>)> {
    match str_member(g, "gamename"@) {
        None => None,
        Some(n) => Some(
            (
                n,
                match str_member(g, "title"@) {
                    Some(t) => t,
                    None => n,
                },
                product_id_of(g),
            ),
        ),
    }
}

pub open spec fn gog_games(gs: Seq<Json>) -> Seq<(Seq<char>, Seq<char>, Seq<char>)>
    decreases gs.len(),
{
    if gs.len() == 0 {
        Seq::empty()
    } else {
        let front = gog_games(gs.drop_last());
        match gog_game_of(gs.last()) {
            Some(g) => front.push(g),
            None => front,
        }
    }
}

pub open spec fn gog_texts(gs: Seq<GogGame>) -> Seq<(Seq<char>, Seq<char>, Seq<char>)> {
    gs.map_values(|g: GogGame| (g.gamename@, g.title@, g.product_id@))
}

fn games_of(v: &Json) -> (r: Option<&Vec<Json>>)
    ensures
        match r {
            Some(gs) => gs@ == games_array(*v),
            None => games_array(*v).len() == 0,
        },
{
    match get(v, "games") {
        Some(Json::Array(gs)) => Some(gs),
        _ => match v {
            Json::Array(gs) => Some(gs),
            _ => None,
        },
    }
}

/// The games of a listing, with their sort keys (their titles' code
/// points).
fn collect_games(games: &Vec<Json>) -> (r: (Vec<GogGame>, Vec<Vec<u32>>))
    ensures
        gog_texts(r.0@) == gog_games(games@),
        r.1@.len() == r.0@.len(),
        forall|k: int| 0 <= k < r.1@.len() ==> (#[trigger] r.1@[k])@ == codes(r.0@[k].title@),
{
    let ghost gs = games@;
    let mut list: Vec<GogGame> = Vec::new();
    let mut keys: Vec<Vec<u32>> = Vec::new();
    let mut i: usize = 0;
    while i < games.len()
        invariant
            i <= games@.len(),
            games@ == gs,
            gog_texts(list@) == gog_games(gs.take(i as int)),
            keys@.len() == list@.len(),
            forall|k: int| 0 <= k < keys@.len() ==> (#[trigger] keys@[k])@ == codes(list@[k].title@),
        decreases games.len() - i,
    {
        assert(gs.take(i + 1).drop_last() =~= gs.take(i as int));
        let g = &games[i];
        match get_str(g, "gamename") {
            Some(n) => {
                let title = match get_str(g, "title") {
                    Some(t) => String::from_str(t),
                    None => String::from_str(n),
                };
                let tc = chars_of(title.as_str());
                keys.push(char_codes(&tc));
                let game = GogGame { gamename: String::from_str(n), title, product_id: product_id(g) };
                list.push(game);
                assert(gog_texts(list@) =~= gog_games(gs.take(i as int)).push(gog_game_of(gs[i as int]).unwrap()));
            },
            None => {},
        }
        i = i + 1;
    }
    assert(gs.take(gs.len() as int) =~= gs);
    (list, keys)
}

fn product_id(g: &Json) -> (r: String)
    ensures
        r@ == product_id_of(*g),
{
    let id = match get(g, "product_id") {
        Some(p) => Some(p),
        None => get(g, "id"),
    };
    match id {
        Some(Json::Str(s)) => s.clone(),
        Some(Json::Number(n)) => n.clone(),
        _ => String::new(),
    }
}

/// The account's library from the output of `lgogdownloader --list json`,
/// ordered by title (ties in listing order); an unreadable answer is an
/// error.
pub fn library(listing: &[u8]) -> (r: Result<Vec<GogGame>, String>)
    ensures
        match json_value_of(listing@) {
            Ok(v) => r matches Ok(games) && stable_sorted(
                gog_texts(games@),
                gog_games(games_array(v)),
                gog_games(games_array(v)).map_values(|g: (Seq<char>, Seq<char>, Seq<char>)| codes(g.1)),
            ),
            Err(e) => r matches Err(m) && m@ == "réponse lgogdownloader illisible : "@ + e,
        },
{
    let v = match parse_json(listing) {
        Err(e) => {
            let mut m = String::from_str("réponse lgogdownloader illisible : ");
            m.append(e.as_str());
            return Err(m);
        },
        Ok(v) => v,
    };
    let (list, keys) = match games_of(&v) {
        Some(gs) => collect_games(gs),
        None => {
            let list: Vec<GogGame> = Vec::new();
            assert(gog_games(games_array(v)) =~= Seq::empty());
            assert(gog_texts(list@) =~= Seq::empty());
            (list, Vec::new())
        },
    };
    assert(gog_texts(list@) == gog_games(games_array(v)));
    let ghost gs = games_array(v);
    let ghost inp = list@;
    let sorted = stable_sort(list, keys);
    proof {
        assert(keys@.map_values(|k: Vec<u32>| k@) =~= inp.map_values(|g: GogGame| codes(g.title@)));
        lemma_sorted_texts(sorted@, inp, keys@.map_values(|k: Vec<u32>| k@));
        assert(gog_games(gs).map_values(|g: (Seq<char>, Seq<char>, Seq<char>)| codes(g.1)) =~= inp.map_values(
            |g: GogGame| codes(g.title@),
        ));
    }
    Ok(sorted)
}

proof fn lemma_sorted_texts(out: Seq<GogGame>, inp: Seq<GogGame>, keys: Seq<Seq<u32>>)
    requires
        stable_sorted(out, inp, keys),
    ensures
        stable_sorted(gog_texts(out), gog_texts(inp), keys),
{
    let p = choose|p: Seq<int>| crate::order::sorted_by_perm(out, inp, keys, p);
    assert(crate::order::sorted_by_perm(gog_texts(out), gog_texts(inp), keys, p));
}

/// A slug made safe for lgogdownloader's regex filter: letters, digits,
/// `_` and `-` stay, anything else is escaped with `\`.
pub open spec fn escaped(s: Seq<char>) -> Seq<char>
    decreases s.len(),
{
    if s.len() == 0 {
        Seq::empty()
    } else {
        let c = s.last();
        escaped(s.drop_last()) + if is_alphanumeric(c) || c == '_' || c == '-' {
            seq![c]
        } else {
            seq!['\\', c]
        }
    }
}

pub fn regex_escape(s: &str) -> (r: String)
    ensures
        r@ == escaped(s@),
{
    let cs = chars_of(s);
    let mut out: Vec<char> = Vec::new();
    let mut i: usize = 0;
    while i < cs.len()
        invariant
            i <= cs@.len(),
            cs@ == s@,
            out@ == escaped(s@.take(i as int)),
        decreases cs.len() - i,
    {
        let c = cs[i];
        assert(s@.take(i + 1).drop_last() =~= s@.take(i as int));
        if alphanumeric(c) || c == '_' || c == '-' {
            out.push(c);
            assert(out@ =~= escaped(s@.take(i as int)) + seq![c]);
        } else {
            out.push('\\');
            out.push(c);
            assert(out@ =~= escaped(s@.take(i as int)) + seq!['\\', c]);
        }
        i = i + 1;
    }
    assert(s@.take(s@.len() as int) =~= s@);
    string_of(&out)
}

/// The download of a game's Windows offline installer into `dest`.
pub fn download_command(gamename: &str, dest: &str) -> (r: CommandPlan)
    ensures
        r.program@ == "lgogdownloader"@,
        texts(r.args@) == seq![
            "--download"@,
            "--game"@,
            "^"@ + escaped(gamename@) + "$"@,
            "--platform"@,
            "w"@,
            "--include"@,
            "basegame_installers"@,
            "--directory"@,
            dest@,
        ],
        r.env@.len() == 0,
{
    let mut pattern = String::from_str("^");
    let esc = regex_escape(gamename);
    pattern.append(esc.as_str());
    pattern.append("$");
    let mut args: Vec<String> = Vec::new();
    args.push(String::from_str("--download"));
    args.push(String::from_str("--game"));
    args.push(pattern);
    args.push(String::from_str("--platform"));
    args.push(String::from_str("w"));
    args.push(String::from_str("--include"));
    args.push(String::from_str("basegame_installers"));
    args.push(String::from_str("--directory"));
    args.push(String::from_str(dest));
    assert(texts(args@) =~= seq![
        "--download"@,
        "--game"@,
        "^"@ + escaped(gamename@) + "$"@,
        "--platform"@,
        "w"@,
        "--include"@,
        "basegame_installers"@,
        "--directory"@,
        dest@,
    ]);
    CommandPlan { program: String::from_str("lgogdownloader"), args, env: Vec::new() }
}

/// `p` has an `exe` extension, in any ASCII case.
pub open spec fn is_exe_path(p: Seq<char>) -> bool {
    extension_of(p) matches Some(e) && eq_ignore_ascii_case(e, "exe"@)
}

/// The setup executable among the entries of a directory: the first
/// `.exe` in path order (its `.bin` parts lie next to it).
pub fn find_setup_exe(entries: &Vec<String>) -> (r: Option<String>)
    ensures
        match r {
            Some(p) => exists|i: int|
                0 <= i < entries@.len() && (#[trigger] entries@[i])@ == p@ && is_exe_path(p@) && forall|k: int|
                    0 <= k < entries@.len() && is_exe_path((#[trigger] entries@[k])@) ==> !lex_lt(
                        codes(entries@[k]@),
                        codes(p@),
                    ),
            None => forall|k: int| 0 <= k < entries@.len() ==> !is_exe_path((#[trigger] entries@[k])@),
        },
{
    let mut best: Option<usize> = None;
    let mut best_key: Vec<u32> = Vec::new();
    let mut i: usize = 0;
    while i < entries.len()
        invariant
            i <= entries@.len(),
            match best {
                Some(b) => b < i && is_exe_path(entries@[b as int]@) && best_key@ == codes(entries@[b as int]@)
                    && forall|k: int|
                    0 <= k < i && is_exe_path((#[trigger] entries@[k])@) ==> !lex_lt(
                        codes(entries@[k]@),
                        best_key@,
                    ),
                None => forall|k: int| 0 <= k < i ==> !is_exe_path((#[trigger] entries@[k])@),
            },
        decreases entries.len() - i,
    {
        let p = entries[i].as_str();
        let is_exe = match extension(p) {
            Some(x) => ignore_ascii_case_eq(x.as_str(), "exe"),
            None => false,
        };
        if is_exe {
            let pc = chars_of(p);
            let key = char_codes(&pc);
            let take = match best {
                None => true,
                Some(_) => lex_less(&key, &best_key),
            };
            if take {
                proof {
                    if best is Some {
                        assert forall|k: int|
                            0 <= k < i + 1 && is_exe_path((#[trigger] entries@[k])@) implies !lex_lt(
                            codes(entries@[k]@),
                            key@,
                        ) by {
                            if k < i {
                                if lex_lt(codes(entries@[k]@), key@) {
                                    crate::order::lemma_lex_trans(codes(entries@[k]@), key@, best_key@);
                                }
                            } else {
                                crate::order::lemma_lex_irreflexive(key@);
                            }
                        }
                    } else {
                        crate::order::lemma_lex_irreflexive(key@);
                    }
                }
                best = Some(i);
                best_key = key;
            }
        }
        i = i + 1;
    }
    match best {
        Some(b) => Some(entries[b].clone()),
        None => None,
    }
}

} // verus!
