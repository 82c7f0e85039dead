//! What Weft records of an installed Windows app: `manifest.toml` at the
//! root of the app's directory. Reading and writing the TOML is the
//! application's job; the library holds the values and the rules on them.
use vstd::prelude::*;

use crate::order::lex_lt;
use crate::path::{join, joined};
use crate::text::{alphanumeric, char_lowercase, chars_of, codes, is_alphanumeric, lowercase_char, string_of};
use vstd::string::StringExecFns;

verus! {

#[derive(Debug, Clone, PartialEq, Eq)]
pub struct RuntimeVersions {
    pub proton: String,
    pub umu: String,
}

#[derive(Debug, Clone, PartialEq, Eq)]
pub struct Manifest {
    /// Display name ("WinMerge"), never jargon.
    pub name: String,
    /// Main executable, relative to the prefix ("drive_c/Program Files/...")
    /// or to the app directory for store games.
    pub exe: String,
    /// protonfixes id; `None` means "umu-default" (no per-game fixes).
    pub gameid: Option<String>,
    /// Store of origin for the fixes lookup ("gog", "egs"); `None` means
    /// "none".
    pub store: Option<String>,
    /// The game's id at its store (Epic app_name, GOG slug).
    pub store_id: Option<String>,
    /// Installation date, RFC 3339.
    pub created: String,
    /// Versions pinned at installation time.
    pub runtime: RuntimeVersions,
    /// Per-app environment variables at launch (PROTON_USE_WINED3D=1 for
    /// a 32-bit game on a host without 32-bit Vulkan), each name once, in
    /// the order of their names (`env_in_name_order`). A list rather than a
    /// `BTreeMap`: vstd knows the order of a map's keys only for key types
    /// whose comparison it specifies, and it specifies none for `String`.
    /// The application fills it from the TOML table, a `BTreeMap`, which
    /// gives exactly that order.
    pub env: Vec<(String, String)>,
}

/// What a map by name gives: names strictly ascending (so each once), by
/// code point.
pub open spec fn env_in_name_order(env: Seq<(String, String)>) -> bool {
    forall|i: int, j: int| 0 <= i < j < env.len() ==> lex_lt(codes(env[i].0@), codes(env[j].0@))
}

/// The gameid handed to umu: the manifest's, or "umu-default".
pub open spec fn gameid_text(gameid: Option<String>) -> Seq<char> {
    match gameid {
        Some(g) => g@,
        None => "umu-default"@,
    }
}

/// The store handed to umu: the manifest's, or "none".
pub open spec fn store_text(store: Option<String>) -> Seq<char> {
    match store {
        Some(s) => s@,
        None => "none"@,
    }
}

impl Manifest {
    pub fn gameid_or_default(&self) -> (r: &str)
        ensures
            r@ == gameid_text(self.gameid),
    {
        match &self.gameid {
            Some(g) => g.as_str(),
            None => "umu-default",
        }
    }

    pub fn store_or_none(&self) -> (r: &str)
        ensures
            r@ == store_text(self.store),
    {
        match &self.store {
            Some(s) => s.as_str(),
            None => "none",
        }
    }
}

/// Where the manifest of the app in `app_dir` lives.
pub fn manifest_path(app_dir: &str) -> (r: String)
    ensures
        r@ == joined(app_dir@, "manifest.toml"@),
{
    join(app_dir, "manifest.toml")
}

// ------------------------------------------------------------------ //
// Slugs                                                               //
// ------------------------------------------------------------------ //

/// `s` with each character replaced by its lower case (`char::to_lowercase`).
pub open spec fn lowered(s: Seq<char>) -> Seq<char>
    decreases s.len(),
{
    if s.len() == 0 {
        Seq::empty()
    } else {
        lowered(s.drop_last()) + char_lowercase(s.last())
    }
}

/// Every character that is not alphanumeric becomes `-`.
pub open spec fn dashed(s: Seq<char>) -> Seq<char> {
    s.map_values(|c: char| if is_alphanumeric(c) { c } else { '-' })
}

/// Each run of `-` shrunk to a single `-`.
pub open spec fn collapse_dashes(s: Seq<char>) -> Seq<char>
    decreases s.len(),
{
    if s.len() == 0 {
        s
    } else {
        let prev = collapse_dashes(s.drop_last());
        if s.last() == '-' && prev.len() > 0 && prev.last() == '-' {
            prev
        } else {
            prev.push(s.last())
        }
    }
}

pub open spec fn drop_leading_dashes(s: Seq<char>) -> Seq<char>
    decreases s.len(),
{
    if s.len() > 0 && s[0] == '-' {
        drop_leading_dashes(s.drop_first())
    } else {
        s
    }
}

pub open spec fn drop_trailing_dashes(s: Seq<char>) -> Seq<char>
    decreases s.len(),
{
    if s.len() > 0 && s.last() == '-' {
        drop_trailing_dashes(s.drop_last())
    } else {
        s
    }
}

/// The slug of a name: lower case, every non-alphanumeric character a
/// dash, runs of dashes shrunk to one, no dash at either end; "app" when
/// nothing is left.
pub open spec fn slug_of(name: Seq<char>) -> Seq<char> {
    let t = drop_trailing_dashes(drop_leading_dashes(collapse_dashes(dashed(lowered(name)))));
    if t.len() == 0 {
        "app"@
    } else {
        t
    }
}

/// No two dashes side by side.
pub open spec fn no_double_dash(s: Seq<char>) -> bool {
    forall|i: int| 0 <= i < s.len() - 1 ==> !(#[trigger] s[i] == '-' && s[i + 1] == '-')
}

/// Only alphanumeric characters and dashes.
pub open spec fn slug_chars(s: Seq<char>) -> bool {
    forall|i: int| 0 <= i < s.len() ==> (#[trigger] s[i] == '-' || is_alphanumeric(s[i]))
}

proof fn lemma_collapse(s: Seq<char>)
    requires
        slug_chars(s),
    ensures
        no_double_dash(collapse_dashes(s)),
        slug_chars(collapse_dashes(s)),
    decreases s.len(),
{
    if s.len() > 0 {
        let prev = collapse_dashes(s.drop_last());
        assert(slug_chars(s.drop_last()));
        lemma_collapse(s.drop_last());
        let r = collapse_dashes(s);
        if !(s.last() == '-' && prev.len() > 0 && prev.last() == '-') {
            assert(r == prev.push(s.last()));
            assert forall|i: int| 0 <= i < r.len() - 1 implies !(#[trigger] r[i] == '-' && r[i + 1] == '-') by {
                if i < prev.len() - 1 {
                    assert(r[i] == prev[i] && r[i + 1] == prev[i + 1]);
                }
            }
            assert forall|i: int| 0 <= i < r.len() implies (#[trigger] r[i] == '-' || is_alphanumeric(r[i])) by {
                if i < prev.len() {
                    assert(r[i] == prev[i]);
                } else {
                    assert(r[i] == s[s.len() - 1]);
                }
            }
        }
    }
}

proof fn lemma_drop_leading(s: Seq<char>)
    requires
        no_double_dash(s),
        slug_chars(s),
    ensures
        no_double_dash(drop_leading_dashes(s)),
        slug_chars(drop_leading_dashes(s)),
        drop_leading_dashes(s).len() > 0 ==> drop_leading_dashes(s)[0] != '-',
    decreases s.len(),
{
    if s.len() > 0 && s[0] == '-' {
        let t = s.drop_first();
        assert forall|i: int| 0 <= i < t.len() - 1 implies !(#[trigger] t[i] == '-' && t[i + 1] == '-') by {
            assert(t[i] == s[i + 1] && t[i + 1] == s[i + 2]);
        }
        assert forall|i: int| 0 <= i < t.len() implies (#[trigger] t[i] == '-' || is_alphanumeric(t[i])) by {
            assert(t[i] == s[i + 1]);
        }
        lemma_drop_leading(t);
    }
}

proof fn lemma_drop_trailing(s: Seq<char>)
    requires
        no_double_dash(s),
        slug_chars(s),
    ensures
        no_double_dash(drop_trailing_dashes(s)),
        slug_chars(drop_trailing_dashes(s)),
        drop_trailing_dashes(s).len() <= s.len(),
        drop_trailing_dashes(s) == s.take(drop_trailing_dashes(s).len() as int),
        drop_trailing_dashes(s).len() > 0 ==> drop_trailing_dashes(s).last() != '-',
    decreases s.len(),
{
    if s.len() > 0 && s.last() == '-' {
        let t = s.drop_last();
        assert forall|i: int| 0 <= i < t.len() - 1 implies !(#[trigger] t[i] == '-' && t[i + 1] == '-') by {
            assert(t[i] == s[i] && t[i + 1] == s[i + 1]);
        }
        assert forall|i: int| 0 <= i < t.len() implies (#[trigger] t[i] == '-' || is_alphanumeric(t[i])) by {
            assert(t[i] == s[i]);
        }
        lemma_drop_trailing(t);
        let r = drop_trailing_dashes(t);
        assert(r =~= s.take(r.len() as int));
    } else {
        assert(s =~= s.take(s.len() as int));
    }
}

/// A slug is never empty, holds only alphanumeric characters and single
/// dashes, and neither starts nor ends with a dash.
pub proof fn lemma_slug_shape(name: Seq<char>)
    ensures
        slug_of(name).len() > 0,
        no_double_dash(slug_of(name)),
        slug_of(name)[0] != '-',
        slug_of(name).last() != '-',
        slug_of(name) == "app"@ || slug_chars(slug_of(name)),
{
    reveal_strlit("app");
    let d = dashed(lowered(name));
    assert(slug_chars(d));
    lemma_collapse(d);
    let c = collapse_dashes(d);
    lemma_drop_leading(c);
    let l = drop_leading_dashes(c);
    lemma_drop_trailing(l);
    let t = drop_trailing_dashes(l);
    if t.len() > 0 {
        assert(t[0] == l[0]);
    }
}

proof fn lemma_lowered_push(s: Seq<char>, c: char)
    ensures
        lowered(s.push(c)) == lowered(s) + char_lowercase(c),
{
    assert(s.push(c).drop_last() =~= s);
}

/// Slug of an app name: a stable identifier, safe as a directory name.
pub fn slugify(name: &str) -> (r: String)
    ensures
        r@ == slug_of(name@),
        r@.len() > 0,
        no_double_dash(r@),
        r@[0] != '-',
        r@.last() != '-',
{
    let src = chars_of(name);
    // lower case, non-alphanumeric characters as dashes
    let mut d: Vec<char> = Vec::new();
    let mut i: usize = 0;
    while i < src.len()
        invariant
            i <= src.len(),
            d@ == dashed(lowered(src@.take(i as int))),
        decreases src.len() - i,
    {
        let low = lowercase_char(src[i]);
        let ghost before = d@;
        let mut k: usize = 0;
        while k < low.len()
            invariant
                k <= low.len(),
                d@ == before + dashed(low@.take(k as int)),
            decreases low.len() - k,
        {
            let c = low[k];
            if alphanumeric(c) {
                d.push(c);
            } else {
                d.push('-');
            }
            k = k + 1;
            assert(dashed(low@.take(k as int)) =~= dashed(low@.take(k - 1)).push(d@.last()));
            assert(d@ =~= before + dashed(low@.take(k as int)));
        }
        proof {
            assert(low@.take(low@.len() as int) =~= low@);
            assert(src@.take(i + 1) =~= src@.take(i as int).push(src@[i as int]));
            lemma_lowered_push(src@.take(i as int), src@[i as int]);
            assert(dashed(lowered(src@.take(i as int)) + low@) =~= dashed(lowered(src@.take(i as int)))
                + dashed(low@));
        }
        i = i + 1;
    }
    assert(src@.take(src@.len() as int) =~= src@);
    // runs of dashes shrunk to one
    let mut c: Vec<char> = Vec::new();
    let mut j: usize = 0;
    while j < d.len()
        invariant
            j <= d.len(),
            c@ == collapse_dashes(d@.take(j as int)),
        decreases d.len() - j,
    {
        let ghost prefix = d@.take(j + 1);
        assert(prefix.drop_last() =~= d@.take(j as int));
        if !(d[j] == '-' && c.len() > 0 && c[c.len() - 1] == '-') {
            c.push(d[j]);
        }
        j = j + 1;
    }
    assert(d@.take(d@.len() as int) =~= d@);
    // no dash at either end
    let mut start: usize = 0;
    assert(c@.skip(0) =~= c@);
    while start < c.len() && c[start] == '-'
        invariant
            start <= c.len(),
            drop_leading_dashes(c@.skip(start as int)) == drop_leading_dashes(c@),
        decreases c.len() - start,
    {
        assert(c@.skip(start as int).drop_first() =~= c@.skip(start + 1));
        start = start + 1;
    }
    let ghost l = c@.skip(start as int);
    let mut end: usize = c.len();
    while end > start && c[end - 1] == '-'
        invariant
            start <= end <= c.len(),
            l == c@.skip(start as int),
            drop_trailing_dashes(c@.subrange(start as int, end as int)) == drop_trailing_dashes(l),
        decreases end,
    {
        assert(c@.subrange(start as int, end as int).drop_last() =~= c@.subrange(start as int, end - 1));
        end = end - 1;
    }
    proof {
        assert(c@.subrange(start as int, c@.len() as int) =~= l);
    }
    let mut t: Vec<char> = Vec::new();
    let mut m: usize = start;
    while m < end
        invariant
            start <= m <= end,
            end <= c.len(),
            t@ == c@.subrange(start as int, m as int),
        decreases end - m,
    {
        t.push(c[m]);
        m = m + 1;
        assert(t@ =~= c@.subrange(start as int, m as int));
    }
    proof {
        let s = c@.subrange(start as int, end as int);
        if s.len() > 0 {
            assert(s[0] != '-' || !(start < c.len() && c@[start as int] == '-'));
            assert(s.last() != '-');
        }
        assert(drop_leading_dashes(l) == l);
        assert(drop_trailing_dashes(s) == s);
        lemma_slug_shape(name@);
    }
    if t.len() == 0 {
        proof {
            reveal_strlit("app");
        }
        String::from_str("app")
    } else {
        string_of(&t)
    }
}

} // verus!
