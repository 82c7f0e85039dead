//! Fuzzy search over the index.
//!
//! The matcher is nucleo's (the Helix editor's): tolerant of word order
//! ("code vis" finds "Visual Studio Code"), scoring that favours word
//! starts, and fast enough to rescore a few hundred apps on each keystroke.
use vstd::prelude::*;

use crate::model::AppEntry;
use crate::order::{stable_sort, stable_sorted};
use crate::provider::key_with_title;
use crate::text::{chars_of, codes, lowercase_str, str_lowercase, trim, trim_spec};

verus! {

#[verifier::external_type_specification]
#[verifier::external_body]
pub struct ExMatcher(nucleo_matcher::Matcher);

/// Trusted: `nucleo_matcher::Matcher::new` with `Config::DEFAULT`. This is
/// the only way the library makes a matcher.
#[verifier::external_body]
fn new_matcher() -> nucleo_matcher::Matcher {
    nucleo_matcher::Matcher::new(nucleo_matcher::Config::DEFAULT)
}

/// nucleo's score of `haystack` for the pattern parsed from `query` (case
/// ignored, smart normalization), with a matcher of the default
/// configuration; `None` when it does not match.
pub uninterp spec fn fuzzy_score(query: Seq<char>, haystack: Seq<char>) -> Option<u32>;

/// Trusted: `nucleo_matcher::pattern::Pattern::parse` of `query` with
/// `CaseMatching::Ignore` and `Normalization::Smart`, then
/// `Pattern::score` of `haystack`. The matcher only lends its scratch
/// space: every matcher of the library is made by `new_matcher`, so its
/// configuration is the default one the name speaks of. What nucleo
/// computes is not restated.
#[verifier::external_body]
fn pattern_score(query: &str, haystack: &str, matcher: &mut nucleo_matcher::Matcher) -> (r: Option<u32>)
    ensures
        r == fuzzy_score(query@, haystack@),
{
    let pattern = nucleo_matcher::pattern::Pattern::parse(
        query,
        nucleo_matcher::pattern::CaseMatching::Ignore,
        nucleo_matcher::pattern::Normalization::Smart,
    );
    let mut buf = Vec::new();
    pattern.score(nucleo_matcher::Utf32Str::new(haystack, &mut buf), matcher)
}

/// `Option::max`: `None` below any value.
pub open spec fn opt_max(a: Option<u32>, b: Option<u32>) -> Option<u32> {
    match (a, b) {
        (None, y) => y,
        (x, None) => x,
        (Some(x), Some(y)) => Some(if x >= y { x } else { y }),
    }
}

/// Best of the keyword scores.
pub open spec fn best_score(ks: Seq<Option<u32>>) -> Option<u32>
    decreases ks.len(),
{
    if ks.len() == 0 {
        None
    } else {
        opt_max(best_score(ks.drop_last()), ks.last())
    }
}

/// Score of an entry: its name counts in full, its keywords at half
/// ("navigateur" must list Firefox, but after an app really named
/// "Navigateur").
pub open spec fn entry_score(name: Option<u32>, keywords: Seq<Option<u32>>) -> Option<u32> {
    opt_max(
        name,
        match best_score(keywords) {
            Some(s) => Some((s / 2) as u32),
            None => None,
        },
    )
}

/// Score of each entry for `query`: its name's, or half its best keyword's.
pub open spec fn entry_scores(query: Seq<char>, entries: Seq<AppEntry>) -> Seq<Option<u32>> {
    entries.map_values(
        |e: AppEntry|
            entry_score(fuzzy_score(query, e.name@), e.keywords@.map_values(|k: String| fuzzy_score(query, k@))),
    )
}

/// The scored positions, in entry order.
pub open spec fn scored_positions(scores: Seq<Option<u32>>) -> Seq<(usize, u32)>
    decreases scores.len(),
{
    if scores.len() == 0 {
        Seq::empty()
    } else {
        let r = scored_positions(scores.drop_last());
        match scores.last() {
            Some(s) => r.push(((scores.len() - 1) as usize, s)),
            None => r,
        }
    }
}

/// Ranking order: score decreasing, then name.
pub open spec fn rank_keys(entries: Seq<AppEntry>, hits: Seq<(usize, u32)>) -> Seq<Seq<u32>> {
    hits.map_values(|h: (usize, u32)| seq![(u32::MAX - h.1) as u32] + codes(entries[h.0 as int].name@))
}

/// Browsing order (empty query): lowercased name.
pub open spec fn browse_keys(entries: Seq<AppEntry>) -> Seq<Seq<u32>> {
    entries.map_values(|e: AppEntry| codes(str_lowercase(e.name@)))
}

/// `(0, 0), (1, 0), ...`: every entry, score 0.
pub open spec fn all_positions(n: nat) -> Seq<(usize, u32)> {
    Seq::new(n, |i: int| (i as usize, 0u32))
}

/// `r` ranks the entries that have a score, by score then name.
pub open spec fn ranked(r: Seq<(usize, u32)>, entries: Seq<AppEntry>, scores: Seq<Option<u32>>) -> bool {
    stable_sorted(r, scored_positions(scores), rank_keys(entries, scored_positions(scores)))
}

/// `r` lists every entry, by lowercased name, score 0.
pub open spec fn browsed(r: Seq<(usize, u32)>, entries: Seq<AppEntry>) -> bool {
    stable_sorted(r, all_positions(entries.len()), browse_keys(entries))
}

pub struct Searcher {
    matcher: nucleo_matcher::Matcher,
}

/// Ranks the entries whose score is `Some` (`scores[i]` is the score of
/// `entries[i]`): score decreasing, ties by name, then by position.
pub fn rank_scored(entries: &[AppEntry], scores: Vec<Option<u32>>) -> (r: Vec<(usize, u32)>)
    requires
        scores@.len() == entries@.len(),
    ensures
        ranked(r@, entries@, scores@),
{
    let mut hits: Vec<(usize, u32)> = Vec::new();
    let mut keys: Vec<Vec<u32>> = Vec::new();
    let mut i: usize = 0;
    while i < scores.len()
        invariant
            i <= scores@.len(),
            scores@.len() == entries@.len(),
            hits@ == scored_positions(scores@.take(i as int)),
            keys@.len() == hits@.len(),
            forall|k: int| 0 <= k < hits@.len() ==> (#[trigger] hits@[k]).0 < i,
            forall|k: int| 0 <= k < keys@.len() ==> #[trigger] keys@[k]@ == seq![(u32::MAX - hits@[k].1) as u32] + codes(entries@[hits@[k].0 as int].name@),
        decreases scores@.len() - i,
    {
        assert(scores@.take(i + 1).drop_last() =~= scores@.take(i as int));
        match scores[i] {
            Some(s) => {
                let mut head: Vec<u32> = Vec::new();
                let desc: u32 = u32::MAX - s;
                head.push(desc);
                let key = key_with_title(head, &entries[i].name);
                hits.push((i, s));
                keys.push(key);
            },
            None => {},
        }
        i = i + 1;
    }
    assert(scores@.take(scores@.len() as int) =~= scores@);
    assert(keys@.map_values(|k: Vec<u32>| k@) =~= rank_keys(entries@, hits@));
    stable_sort(hits, keys)
}

/// Every entry in browsing order: lowercased name, score 0.
pub fn browse_order(entries: &[AppEntry]) -> (r: Vec<(usize, u32)>)
    ensures
        browsed(r@, entries@),
{
    let mut all: Vec<(usize, u32)> = Vec::new();
    let mut keys: Vec<Vec<u32>> = Vec::new();
    let mut i: usize = 0;
    while i < entries.len()
        invariant
            i <= entries@.len(),
            all@ == all_positions(i as nat),
            keys@.len() == i,
            forall|k: int| 0 <= k < i ==> #[trigger] keys@[k]@ == codes(str_lowercase(entries@[k].name@)),
        decreases entries@.len() - i,
    {
        let low = lowercase_str(entries[i].name.as_str());
        let key = key_with_title(Vec::new(), &low);
        assert(key@ =~= codes(str_lowercase(entries@[i as int].name@)));
        all.push((i, 0));
        keys.push(key);
        i = i + 1;
        assert(all@ =~= all_positions(i as nat));
    }
    assert(keys@.map_values(|k: Vec<u32>| k@) =~= browse_keys(entries@));
    stable_sort(all, keys)
}

fn half(s: Option<u32>) -> (r: Option<u32>)
    ensures
        r == (match s {
            Some(v) => Some((v / 2) as u32),
            None => None::<u32>,
        }),
{
    match s {
        Some(v) => Some(v / 2),
        None => None,
    }
}

fn max_opt(a: Option<u32>, b: Option<u32>) -> (r: Option<u32>)
    ensures
        r == opt_max(a, b),
{
    match (a, b) {
        (None, y) => y,
        (x, None) => x,
        (Some(x), Some(y)) => Some(if x >= y { x } else { y }),
    }
}

/// The score of an entry from the score of its name and those of its
/// keywords.
pub fn combine_scores(name: Option<u32>, keywords: &Vec<Option<u32>>) -> (r: Option<u32>)
    ensures
        r == entry_score(name, keywords@),
{
    let mut best: Option<u32> = None;
    let mut i: usize = 0;
    while i < keywords.len()
        invariant
            i <= keywords@.len(),
            best == best_score(keywords@.take(i as int)),
        decreases keywords@.len() - i,
    {
        assert(keywords@.take(i + 1).drop_last() =~= keywords@.take(i as int));
        best = max_opt(best, keywords[i]);
        i = i + 1;
    }
    assert(keywords@.take(keywords@.len() as int) =~= keywords@);
    max_opt(name, half(best))
}

impl Searcher {
    pub fn new() -> Searcher {
        Searcher { matcher: new_matcher() }
    }

    /// Positions in `entries`, best score first.
    pub fn search(&mut self, entries: &[AppEntry], query: &str) -> (r: Vec<usize>)
        ensures
            trim_spec(query@).len() == 0 ==> exists|s: Seq<(usize, u32)>|
                #[trigger] browsed(s, entries@) && r@ == s.map_values(|h: (usize, u32)| h.0),
            trim_spec(query@).len() > 0 ==> exists|s: Seq<(usize, u32)>|
                #[trigger] ranked(s, entries@, entry_scores(query@, entries@)) && r@ == s.map_values(
                    |h: (usize, u32)| h.0,
                ),
    {
        let scored = self.search_scored(entries, query);
        let mut r: Vec<usize> = Vec::new();
        let mut i: usize = 0;
        while i < scored.len()
            invariant
                i <= scored@.len(),
                r@ == scored@.take(i as int).map_values(|h: (usize, u32)| h.0),
            decreases scored@.len() - i,
        {
            r.push(scored[i].0);
            i = i + 1;
            assert(r@ =~= scored@.take(i as int).map_values(|h: (usize, u32)| h.0));
        }
        assert(scored@.take(scored@.len() as int) =~= scored@);
        r
    }

    /// Like `search`, with each hit's score. Empty query: everything, by
    /// name, score 0.
    pub fn search_scored(&mut self, entries: &[AppEntry], query: &str) -> (r: Vec<(usize, u32)>)
        ensures
            trim_spec(query@).len() == 0 ==> browsed(r@, entries@),
            trim_spec(query@).len() > 0 ==> ranked(r@, entries@, entry_scores(query@, entries@)),
    {
        let q = trim(&chars_of(query));
        if q.len() == 0 {
            return browse_order(entries);
        }
        let ghost want = entry_scores(query@, entries@);
        let mut scores: Vec<Option<u32>> = Vec::new();
        let mut i: usize = 0;
        while i < entries.len()
            invariant
                i <= entries@.len(),
                want == entry_scores(query@, entries@),
                scores@ == want.take(i as int),
            decreases entries@.len() - i,
        {
            let s = self.score(query, &entries[i]);
            scores.push(s);
            i = i + 1;
            assert(scores@ =~= want.take(i as int));
        }
        assert(want.take(entries@.len() as int) =~= want);
        rank_scored(entries, scores)
    }

    fn score(&mut self, query: &str, entry: &AppEntry) -> (r: Option<u32>)
        ensures
            r == entry_score(
                fuzzy_score(query@, entry.name@),
                entry.keywords@.map_values(|k: String| fuzzy_score(query@, k@)),
            ),
    {
        let name = pattern_score(query, entry.name.as_str(), &mut self.matcher);
        let ghost want = entry.keywords@.map_values(|k: String| fuzzy_score(query@, k@));
        let mut ks: Vec<Option<u32>> = Vec::new();
        let mut i: usize = 0;
        while i < entry.keywords.len()
            invariant
                i <= entry.keywords@.len(),
                want == entry.keywords@.map_values(|k: String| fuzzy_score(query@, k@)),
                ks@ == want.take(i as int),
            decreases entry.keywords@.len() - i,
        {
            ks.push(pattern_score(query, entry.keywords[i].as_str(), &mut self.matcher));
            i = i + 1;
            assert(ks@ =~= want.take(i as int));
        }
        assert(want.take(entry.keywords@.len() as int) =~= want);
        combine_scores(name, &ks)
    }
}

} // verus!
