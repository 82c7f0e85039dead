//! File results, from the system's `plocate` index.
//!
//! The search itself runs `plocate` (the application does that); this
//! module decides when to search and turns the paths found into results:
//! only under the home directory, never inside a hidden directory, a match
//! in the file name worth more than one in a parent directory, shallow
//! paths before deep ones.
use vstd::prelude::*;

use crate::model::Icon;
use crate::order::{lex_lt, stable_sort, stable_sorted};
use crate::path::{components, components_of, file_name, file_name_of, parent, parent_of, path_starts_with, starts_with};
use crate::provider::{key_with_title, Action, ResultItem, Tier};
use crate::text::{chars_of, codes, contains, contains_spec, lowercase_str, occurs_at, str_lowercase, string_of, trim, trim_spec};
use vstd::string::StringExecFns;

verus! {

/// Below this many bytes the query does not search files: too much noise,
/// and the user is probably typing an app name.
pub const MIN_QUERY_LEN: usize = 3;

pub const MAX_FILES: usize = 6;

/// Bytes of `c` in UTF-8.
pub open spec fn utf8_width(c: char) -> nat {
    if (c as u32) < 0x80 {
        1
    } else if (c as u32) < 0x800 {
        2
    } else if (c as u32) < 0x10000 {
        3
    } else {
        4
    }
}

/// `str::len`: bytes of the UTF-8 encoding.
pub open spec fn utf8_len(s: Seq<char>) -> nat
    decreases s.len(),
{
    if s.len() == 0 {
        0
    } else {
        utf8_len(s.drop_last()) + utf8_width(s.last())
    }
}

/// A hidden component (starting with '.', more than one byte, and not the
/// parent-directory `..`).
pub open spec fn hidden_component(c: Seq<char>) -> bool {
    c.len() > 1 && c[0] == '.' && c != seq!['.', '.']
}

/// A hidden component anywhere in the path (~/.cache, ~/.config...).
pub open spec fn hidden_spec(p: Seq<char>) -> bool {
    exists|i: int| 0 <= i < components_of(p).len() && hidden_component(#[trigger] components_of(p)[i])
}

/// A path is hidden exactly when one of its components starts with a dot
/// and is more than a dot, `..` excepted (`~/.cache/x` is hidden,
/// `~/docs/../x` and `./x` are not).
pub proof fn lemma_hidden_by_dot_component(p: Seq<char>)
    ensures
        hidden_spec(p) <==> exists|i: int|
            0 <= i < components_of(p).len() && (#[trigger] components_of(p)[i]).len() > 1 && components_of(p)[i][0]
                == '.' && !(components_of(p)[i].len() == 2 && components_of(p)[i][1] == '.'),
{
    if hidden_spec(p) {
        let i = choose|i: int| 0 <= i < components_of(p).len() && hidden_component(#[trigger] components_of(p)[i]);
        let c = components_of(p)[i];
        if c.len() == 2 && c[1] == '.' {
            assert(c =~= seq!['.', '.']);
        }
    }
    if exists|i: int|
        0 <= i < components_of(p).len() && (#[trigger] components_of(p)[i]).len() > 1 && components_of(p)[i][0]
            == '.' && !(components_of(p)[i].len() == 2 && components_of(p)[i][1] == '.') {
        let i = choose|i: int|
            0 <= i < components_of(p).len() && (#[trigger] components_of(p)[i]).len() > 1 && components_of(p)[i][0]
                == '.' && !(components_of(p)[i].len() == 2 && components_of(p)[i][1] == '.');
        let c = components_of(p)[i];
        if c == seq!['.', '.'] {
            assert(c.len() == 2 && c[1] == '.');
        }
        assert(hidden_component(c));
    }
}

/// Score of a file result: 500 when the (lowercased) query is in the
/// (lowercased) file name, else 100; minus the depth, capped at 50.
pub open spec fn file_score(name: Seq<char>, query: Seq<char>, depth: nat) -> u32 {
    let base: int = if contains_spec(str_lowercase(name), str_lowercase(query)) {
        500
    } else {
        100
    };
    (base - (if depth < 50 { depth as int } else { 50 })) as u32
}

/// `item` is the result for the file at `path`.
pub open spec fn is_file_item(item: ResultItem, path: Seq<char>, query: Seq<char>, is_dir: bool) -> bool {
    &&& file_name_of(path) matches Some(name)
    &&& parent_of(path) matches Some(dir)
    &&& item.id@ == "file:"@ + path
    &&& item.title@ == name
    &&& item.subtitle matches Some(s) && s@ == dir
    &&& (if is_dir {
        item.icon matches Some(Icon::Named(n)) && n@ == "folder"@
    } else {
        item.icon is None
    })
    &&& item.action matches Action::OpenPath(p) && p@ == path
    &&& item.uninstall is None
    &&& item.tier == Tier::Fallback
    &&& item.score == file_score(name, query, components_of(path).len())
}

/// The file-name bonus ignores letter case: a file whose name holds the
/// query, both lowercased, scores 500 minus its depth (capped at 50); any
/// other scores 100 minus its depth. So two files at the same depth whose
/// names agree up to case score alike for queries that agree up to case.
pub proof fn lemma_file_score_ignores_case(
    item: ResultItem,
    path: Seq<char>,
    query: Seq<char>,
    is_dir: bool,
    name: Seq<char>,
    at: int,
)
    requires
        is_file_item(item, path, query, is_dir),
        file_name_of(path) == Some(name),
    ensures
        0 <= at && at + str_lowercase(query).len() <= str_lowercase(name).len() && str_lowercase(name).subrange(
            at,
            at + str_lowercase(query).len(),
        ) == str_lowercase(query) ==> item.score == 500 - (if components_of(path).len() < 50 {
            components_of(path).len() as int
        } else {
            50
        }),
        (forall|k: int|
            0 <= k && k + str_lowercase(query).len() <= str_lowercase(name).len() ==> #[trigger] str_lowercase(
                name,
            ).subrange(k, k + str_lowercase(query).len()) != str_lowercase(query)) ==> item.score == 100 - (if components_of(
            path,
        ).len() < 50 {
            components_of(path).len() as int
        } else {
            50
        }),
{
    if 0 <= at && at + str_lowercase(query).len() <= str_lowercase(name).len() && str_lowercase(name).subrange(
        at,
        at + str_lowercase(query).len(),
    ) == str_lowercase(query) {
        assert(occurs_at(str_lowercase(name), str_lowercase(query), at));
    }
}

/// Two files at the same depth whose names agree up to letter case score
/// alike for two queries that agree up to letter case.
pub proof fn lemma_file_score_by_lowercase(
    a: ResultItem,
    pa: Seq<char>,
    qa: Seq<char>,
    da: bool,
    b: ResultItem,
    pb: Seq<char>,
    qb: Seq<char>,
    db: bool,
)
    requires
        is_file_item(a, pa, qa, da),
        is_file_item(b, pb, qb, db),
        str_lowercase(file_name_of(pa).unwrap()) == str_lowercase(file_name_of(pb).unwrap()),
        str_lowercase(qa) == str_lowercase(qb),
        components_of(pa).len() == components_of(pb).len(),
    ensures
        a.score == b.score,
{
}

/// A path found by the search is shown: under the home directory, not
/// hidden, with a file name and a parent.
pub open spec fn shown(path: Seq<char>, home: Seq<char>) -> bool {
    &&& path_starts_with(path, home)
    &&& !hidden_spec(path)
    &&& file_name_of(path) is Some
    &&& parent_of(path) is Some
}

/// Positions, in `found`, of the paths that are shown.
pub open spec fn shown_positions(found: Seq<(String, bool)>, home: Seq<char>) -> Seq<int>
    decreases found.len(),
{
    if found.len() == 0 {
        Seq::empty()
    } else {
        let r = shown_positions(found.drop_last(), home);
        if shown(found.last().0@, home) {
            r.push(found.len() - 1)
        } else {
            r
        }
    }
}

/// Results order: score decreasing, then title.
pub open spec fn score_title_key(item: ResultItem) -> Seq<u32> {
    seq![(u32::MAX - item.score) as u32] + codes(item.title@)
}

pub open spec fn score_title_keys(items: Seq<ResultItem>) -> Seq<Seq<u32>> {
    items.map_values(|i: ResultItem| score_title_key(i))
}

/// `r` is the result list for `found`: `cands` are the items of the shown
/// paths in search order, `sorted` their order by score then title, `r`
/// its first six.
pub open spec fn files_shown(
    r: Seq<ResultItem>,
    found: Seq<(String, bool)>,
    home: Seq<char>,
    query: Seq<char>,
    cands: Seq<ResultItem>,
    sorted: Seq<ResultItem>,
) -> bool {
    let pos = shown_positions(found, home);
    &&& cands.len() == pos.len()
    &&& forall|k: int|
        0 <= k < cands.len() ==> is_file_item(#[trigger] cands[k], found[pos[k]].0@, query, found[pos[k]].1)
    &&& stable_sorted(sorted, cands, score_title_keys(cands))
    &&& r == sorted.take(if sorted.len() < MAX_FILES { sorted.len() as int } else { MAX_FILES as int })
}

pub struct FilesProvider {
    /// Root of the results shown (the home directory: system files in /usr
    /// do not interest a Spotlight-like search).
    home: Option<String>,
}

pub fn hidden(path: &str) -> (r: bool)
    ensures
        r == hidden_spec(path@),
{
    let cs = components(path);
    let mut i: usize = 0;
    while i < cs.len()
        invariant
            i <= cs@.len(),
            cs@.len() == components_of(path@).len(),
            forall|k: int| 0 <= k < cs@.len() ==> #[trigger] cs@[k]@ == components_of(path@)[k],
            forall|k: int| 0 <= k < i ==> !hidden_component(#[trigger] components_of(path@)[k]),
        decreases cs@.len() - i,
    {
        let c = chars_of(cs[i].as_str());
        if c.len() > 1 && c[0] == '.' && !(c.len() == 2 && c[1] == '.') {
            assert(hidden_component(components_of(path@)[i as int]));
            return true;
        }
        proof {
            assert(c@ == components_of(path@)[i as int]);
            if c@.len() == 2 && c@[0] == '.' && c@[1] == '.' {
                assert(c@ =~= seq!['.', '.']);
            }
        }
        i = i + 1;
    }
    false
}

/// The result for the file at `path` found for `query`; `None` when the
/// path has no file name or no parent.
pub fn to_item(path: &str, query: &str, is_dir: bool) -> (r: Option<ResultItem>)
    ensures
        r matches Some(item) ==> is_file_item(item, path@, query@, is_dir),
        r is None <==> (file_name_of(path@) is None || parent_of(path@) is None),
{
    let name = match file_name(path) {
        Some(n) => n,
        None => return None,
    };
    let dir = match parent(path) {
        Some(d) => d,
        None => return None,
    };
    let lname = chars_of(lowercase_str(name.as_str()).as_str());
    let lquery = chars_of(lowercase_str(query).as_str());
    let in_name = contains(&lname, &lquery);
    let depth = components(path).len();
    let base: u32 = if in_name { 500 } else { 100 };
    let capped: u32 = if depth < 50 { depth as u32 } else { 50 };
    let score = base - capped;
    let mut id = String::from_str("file:");
    id.append(path);
    let icon = if is_dir {
        Some(Icon::Named(String::from_str("folder")))
    } else {
        None
    };
    Some(ResultItem {
        id,
        title: name,
        subtitle: Some(dir),
        icon,
        action: Action::OpenPath(string_of(&chars_of(path))),
        uninstall: None,
        tier: Tier::Fallback,
        score,
    })
}

fn short_query(q: &Vec<char>) -> (r: bool)
    ensures
        r == (utf8_len(q@) < MIN_QUERY_LEN),
{
    let mut bytes: usize = 0;
    let mut i: usize = 0;
    while i < q.len()
        invariant
            i <= q.len(),
            bytes == utf8_len(q@.take(i as int)),
            bytes < 3,
        decreases q.len() - i,
    {
        let c = q[i] as u32;
        let w: usize = if c < 0x80 { 1 } else if c < 0x800 { 2 } else if c < 0x10000 { 3 } else { 4 };
        assert(q@.take(i + 1).drop_last() =~= q@.take(i as int));
        bytes = bytes + w;
        i = i + 1;
        if bytes >= 3 {
            proof {
                lemma_utf8_len_grows(q@, i as int);
            }
            return false;
        }
    }
    assert(q@.take(q@.len() as int) =~= q@);
    true
}

proof fn lemma_utf8_len_grows(s: Seq<char>, k: int)
    requires
        0 <= k <= s.len(),
    ensures
        utf8_len(s.take(k)) <= utf8_len(s),
    decreases s.len() - k,
{
    if k < s.len() {
        lemma_utf8_len_grows(s, k + 1);
        assert(s.take(k + 1).drop_last() =~= s.take(k));
    } else {
        assert(s.take(k) =~= s);
    }
}

proof fn lemma_shown_positions(found: Seq<(String, bool)>, home: Seq<char>)
    ensures
        forall|m: int|
            0 <= m < shown_positions(found, home).len() ==> 0 <= #[trigger] shown_positions(found, home)[m]
                < found.len() && shown(found[shown_positions(found, home)[m]].0@, home),
    decreases found.len(),
{
    if found.len() > 0 {
        lemma_shown_positions(found.drop_last(), home);
        let r = shown_positions(found.drop_last(), home);
        assert forall|m: int| 0 <= m < r.len() implies found.drop_last()[r[m]] == found[r[m]] by {}
    }
}

proof fn lemma_first_key_le(a: Seq<u32>, b: Seq<u32>)
    requires
        a.len() > 0,
        b.len() > 0,
        lex_lt(a, b) || a == b,
    ensures
        a[0] <= b[0],
{
}

/// Where each result comes from: `src[k]` is the position, in what the
/// search found, of a path under the home directory that is not hidden,
/// and `r[k]` is its result.
pub open spec fn from_found(
    r: Seq<ResultItem>,
    found: Seq<(String, bool)>,
    home: Seq<char>,
    query: Seq<char>,
    src: Seq<int>,
) -> bool {
    &&& src.len() == r.len()
    &&& forall|k: int|
        #![trigger r[k]]
        0 <= k < r.len() ==> 0 <= src[k] < found.len() && path_starts_with(found[src[k]].0@, home)
            && !hidden_spec(found[src[k]].0@) && is_file_item(r[k], found[src[k]].0@, query, found[src[k]].1)
}

/// The file results: at most six, best score first, and each one the
/// result of a found path under the home directory that is not hidden.
pub proof fn lemma_files_results(
    r: Seq<ResultItem>,
    found: Seq<(String, bool)>,
    home: Seq<char>,
    query: Seq<char>,
    cands: Seq<ResultItem>,
    sorted: Seq<ResultItem>,
)
    requires
        files_shown(r, found, home, query, cands, sorted),
    ensures
        r.len() <= 6,
        forall|i: int, j: int| 0 <= i < j < r.len() ==> #[trigger] r[i].score >= #[trigger] r[j].score,
        exists|src: Seq<int>| #[trigger] from_found(r, found, home, query, src),
{
    let pos = shown_positions(found, home);
    let keys = score_title_keys(cands);
    let p = choose|p: Seq<int>| crate::order::sorted_by_perm(sorted, cands, keys, p);
    lemma_shown_positions(found, home);
    assert forall|i: int, j: int| 0 <= i < j < r.len() implies #[trigger] r[i].score >= #[trigger] r[j].score by {
        assert(r[i] == sorted[i] && r[j] == sorted[j]);
        assert(crate::order::key_before(keys[p[i]], p[i], keys[p[j]], p[j]));
        assert(sorted[i] == cands[p[i]] && sorted[j] == cands[p[j]]);
        assert(keys[p[i]] == score_title_key(cands[p[i]]));
        assert(keys[p[j]] == score_title_key(cands[p[j]]));
        lemma_first_key_le(keys[p[i]], keys[p[j]]);
    }
    let src = Seq::new(r.len(), |k: int| pos[p[k]]);
    assert forall|k: int| #![trigger r[k]] 0 <= k < r.len() implies 0 <= src[k] < found.len() && path_starts_with(
        found[src[k]].0@,
        home,
    ) && !hidden_spec(found[src[k]].0@) && is_file_item(r[k], found[src[k]].0@, query, found[src[k]].1) by {
        assert(r[k] == sorted[k]);
        assert(sorted[k] == cands[p[k]]);
        let c = p[k];
        assert(is_file_item(cands[c], found[pos[c]].0@, query, found[pos[c]].1));
        assert(shown(found[pos[c]].0@, home));
    }
    assert(from_found(r, found, home, query, src));
}

impl FilesProvider {
    pub closed spec fn home_dir(&self) -> Option<String> {
        self.home
    }

    /// A files provider rooted at the home directory, if there is one.
    pub fn new(home: Option<String>) -> (r: Self)
        ensures
            r.home_dir() == home,
    {
        FilesProvider { home }
    }

    /// The text to search for `query`: the trimmed query, or `None` when
    /// it is shorter than three bytes or there is no home directory —
    /// then the provider answers nothing.
    pub fn search_text(&self, query: &str) -> (r: Option<String>)
        ensures
            r matches Some(t) ==> t@ == trim_spec(query@) && utf8_len(t@) >= MIN_QUERY_LEN && self.home_dir() is Some,
            r is None ==> utf8_len(trim_spec(query@)) < MIN_QUERY_LEN || self.home_dir() is None,
    {
        let q = trim(&chars_of(query));
        if short_query(&q) {
            return None;
        }
        match &self.home {
            Some(_) => Some(string_of(&q)),
            None => None,
        }
    }

    /// The results for the paths found for `query` (each with whether it is
    /// a directory), in the order the search gave them: the shown ones,
    /// sorted by score decreasing then title, at most six.
    pub fn results(&self, query: &str, found: Vec<(String, bool)>) -> (r: Vec<ResultItem>)
        requires
            self.home_dir() is Some,
        ensures
            exists|cands: Seq<ResultItem>, sorted: Seq<ResultItem>|
                #[trigger] files_shown(r@, found@, self.home_dir().unwrap()@, query@, cands, sorted),
    {
        let home = match &self.home {
            Some(h) => h,
            None => return Vec::new(),
        };
        let mut cands: Vec<ResultItem> = Vec::new();
        let mut keys: Vec<Vec<u32>> = Vec::new();
        let mut i: usize = 0;
        while i < found.len()
            invariant
                i <= found@.len(),
                self.home_dir() == Some(*home),
                cands@.len() == shown_positions(found@.take(i as int), home@).len(),
                keys@.len() == cands@.len(),
                forall|k: int| 0 <= k < cands@.len() ==> #[trigger] keys@[k]@ == score_title_key(cands@[k]),
                forall|k: int| 0 <= k < cands@.len() ==> is_file_item(#[trigger] cands@[k],
                    found@[shown_positions(found@.take(i as int), home@)[k]].0@, query@,
                    found@[shown_positions(found@.take(i as int), home@)[k]].1),
                forall|k: int| 0 <= k < shown_positions(found@.take(i as int), home@).len() ==>
                    0 <= #[trigger] shown_positions(found@.take(i as int), home@)[k] < i,
            decreases found@.len() - i,
        {
            let ghost prev = found@.take(i as int);
            assert(found@.take(i + 1).drop_last() =~= prev);
            let p = found[i].0.as_str();
            let is_dir = found[i].1;
            if starts_with(p, home.as_str()) && !hidden(p) {
                match to_item(p, query, is_dir) {
                    Some(item) => {
                        let desc: u32 = u32::MAX - item.score;
                        let mut head: Vec<u32> = Vec::new();
                        head.push(desc);
                        let key = key_with_title(head, &item.title);
                        assert(key@ =~= score_title_key(item));
                        cands.push(item);
                        keys.push(key);
                    },
                    None => {},
                }
            }
            i = i + 1;
        }
        assert(found@.take(found@.len() as int) =~= found@);
        let ghost cs = cands@;
        assert(keys@.map_values(|k: Vec<u32>| k@) =~= score_title_keys(cs));
        let mut sorted = stable_sort(cands, keys);
        let ghost srt = sorted@;
        if sorted.len() > MAX_FILES {
            sorted.truncate(MAX_FILES);
        }
        assert(sorted@ =~= srt.take(if srt.len() < MAX_FILES { srt.len() as int } else { MAX_FILES as int }));
        assert(files_shown(sorted@, found@, home@, query@, cs, srt));
        sorted
    }
}

} // verus!
