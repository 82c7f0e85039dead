//! Providers answer the query as it is typed; the registry merges their
//! results.
//!
//! Comparing an app's fuzzy score with a calculator's makes no sense: they
//! are different units. Results are therefore ordered by `Tier` first and
//! by `score` second — the score is only compared within a tier, and each
//! provider scales it to 0..=1000.
use vstd::prelude::*;

use crate::config::ProvidersConfig;
use crate::model::{Icon, LaunchSpec};
use crate::order::{lex_lt, stable_sort, stable_sorted};
use crate::text::{char_codes, chars_of, codes};
use vstd::string::StringExecFns;

verus! {

/// Category priority. The declaration order IS the display order.
#[derive(Debug, Clone, Copy, PartialEq, Eq, PartialOrd, Ord, Structural)]
pub enum Tier {
    /// Direct answer to the query (calc). Always first.
    Answer,
    /// First-rank results (well-matched apps).
    Primary,
    /// Must never hide a Primary result (files, weak matches).
    Fallback,
}

/// What happens when the user activates a result.
#[derive(Debug, Clone, PartialEq, Eq)]
pub enum Action {
    Launch(LaunchSpec),
    /// To be copied to the clipboard (the clipboard belongs to the UI).
    CopyText(String),
    /// Open with the default application (xdg-open).
    OpenPath(String),
}

/// How to undo the installation of an app. Deliberately limited to the
/// sources where uninstalling is SAFE: no root password, no risk of taking
/// system dependencies along.
#[derive(Debug, Clone, PartialEq, Eq)]
pub enum UninstallSpec {
    /// Windows app installed by Weft: its isolated prefix is removed
    /// entirely (slug in the store).
    WeftWindows(String),
    /// Flatpak application (identifier, e.g. `org.gimp.GIMP`).
    Flatpak(String),
    /// Steam game: the client's uninstall dialog is opened.
    Steam(u32),
}

#[derive(Debug, Clone)]
pub struct ResultItem {
    /// Unique within the provider (frecency, display dedup).
    pub id: String,
    pub title: String,
    pub subtitle: Option<String>,
    pub icon: Option<Icon>,
    pub action: Action,
    /// Safe way to uninstall this result, if there is one.
    pub uninstall: Option<UninstallSpec>,
    pub tier: Tier,
    /// 0..=1000, compared only between items of the same tier.
    pub score: u32,
}

/// A directory to watch to refresh a provider. `recursive: false` for the
/// directories whose first-level files alone matter.
#[derive(Debug, Clone)]
pub struct WatchSpec {
    pub path: String,
    pub recursive: bool,
}

/// A provider answers the query as it is typed. Implemented by the
/// library's providers and by its users.
pub trait Provider {
    /// The provider's name, where its implementation states it.
    open spec fn label(&self) -> Option<Seq<char>> {
        None
    }

    /// `r` is an answer the provider gives to `query` in this state. An
    /// implementation that states nothing may answer anything.
    open spec fn answers(&self, query: Seq<char>, r: Seq<ResultItem>) -> bool {
        true
    }

    fn name(&self) -> (r: &'static str)
        ensures
            self.label() matches Some(l) ==> r@ == l,
    ;

    /// This provider has just reloaded its data (a `refresh` ends in such
    /// a state). An implementation that states nothing may reload anything.
    open spec fn refreshed(&self) -> bool {
        true
    }

    /// `r` is the provider's list of directories to watch. An
    /// implementation that states nothing may list anything.
    open spec fn watched(&self, r: Seq<WatchSpec>) -> bool {
        true
    }

    /// This provider has recorded an activation of its result `item_id`
    /// (a `record_activation` ends in such a state). An implementation that
    /// states nothing may record it in any way.
    open spec fn recorded(&self, item_id: Seq<char>) -> bool {
        true
    }

    /// Reloads the underlying data (rescan); nothing to do for a provider
    /// without data.
    fn refresh(&mut self)
        ensures
            final(self).refreshed(),
    ;

    /// Directories whose change must trigger `refresh()`; none for a
    /// provider without data.
    fn watch_specs(&self) -> (r: Vec<WatchSpec>)
        ensures
            self.watched(r@),
    ;

    /// Results for the query. On the empty query, catalogue providers
    /// (apps) list everything and answer providers (calc, files) nothing.
    fn query(&mut self, query: &str) -> (r: Vec<ResultItem>)
        ensures
            old(self).answers(query@, r@),
    ;

    /// One of this provider's results was activated (basis of frecency);
    /// nothing to do for a provider that does not rank by use.
    fn record_activation(&mut self, item_id: &str)
        ensures
            final(self).recorded(item_id@),
    ;
}

/// A result ready for the UI, with what routes its activation back to the
/// provider that produced it.
#[derive(Debug, Clone)]
pub struct Hit {
    provider_idx: usize,
    pub item: ResultItem,
}

impl Hit {
    pub closed spec fn provider(&self) -> int {
        self.provider_idx as int
    }

    /// The result item the hit carries (its `item` field).
    pub closed spec fn result(&self) -> ResultItem {
        self.item
    }

    /// The result item the hit carries: `result()` in code, for the laws
    /// stated over it (such as `lemma_merge_order`).
    pub fn result_item(&self) -> (r: &ResultItem)
        ensures
            *r == self.result(),
    {
        &self.item
    }

    /// The hit of the `idx`-th provider for `item`.
    pub closed spec fn tag(idx: int, item: ResultItem) -> Hit {
        Hit { provider_idx: idx as usize, item }
    }

    pub proof fn lemma_tag(idx: int, item: ResultItem)
        requires
            0 <= idx <= usize::MAX,
        ensures
            Hit::tag(idx, item).provider() == idx,
            Hit::tag(idx, item).result() == item,
    {
    }

    /// Position, in the registry, of the provider that produced the hit.
    pub fn provider_index(&self) -> (r: usize)
        ensures
            r == self.provider(),
    {
        self.provider_idx
    }
}

/// What an activation leaves the UI to do.
#[derive(Debug, PartialEq, Eq)]
pub enum Activation {
    Done,
    /// The core has no clipboard; the UI copies this text.
    CopyRequested(String),
}

pub open spec fn tier_rank(t: Tier) -> u32 {
    match t {
        Tier::Answer => 0,
        Tier::Primary => 1,
        Tier::Fallback => 2,
    }
}

/// Merge order of the registry: tier, then score decreasing, then title.
pub open spec fn item_order_key(item: ResultItem) -> Seq<u32> {
    seq![tier_rank(item.tier), (u32::MAX - item.score) as u32] + codes(item.title@)
}

/// The results of each provider, tagged with the provider's position.
pub open spec fn flat_hits(results: Seq<Seq<ResultItem>>) -> Seq<Hit>
    decreases results.len(),
{
    if results.len() == 0 {
        Seq::empty()
    } else {
        flat_hits(results.drop_last()) + results.last().map_values(
            |item: ResultItem| Hit::tag(results.len() - 1, item),
        )
    }
}

pub open spec fn hit_keys(hits: Seq<Hit>) -> Seq<Seq<u32>> {
    hits.map_values(|h: Hit| item_order_key(h.result()))
}

/// The merge of the providers' results: stable sort by tier, score
/// decreasing, title.
pub open spec fn merged(out: Seq<Hit>, results: Seq<Seq<ResultItem>>) -> bool {
    stable_sorted(out, flat_hits(results), hit_keys(flat_hits(results)))
}

proof fn lemma_lex_head(a: Seq<u32>, b: Seq<u32>)
    requires
        a.len() > 0,
        b.len() > 0,
        lex_lt(a, b),
    ensures
        a[0] <= b[0],
{
}

/// Under a common head of two numbers, the order of two keys is the order
/// of their tails.
proof fn lemma_lex_common_head(a: u32, b: u32, x: Seq<u32>, y: Seq<u32>)
    requires
        lex_lt(seq![a, b] + x, seq![a, b] + y),
    ensures
        lex_lt(x, y),
{
    let kx = seq![a, b] + x;
    let ky = seq![a, b] + y;
    assert(kx.drop_first().drop_first() =~= x);
    assert(ky.drop_first().drop_first() =~= y);
    assert(kx.len() > 0 && ky.len() > 0 && kx[0] == ky[0]);
    assert(lex_lt(kx.drop_first(), ky.drop_first()));
    assert(kx.drop_first().len() > 0 && ky.drop_first().len() > 0);
    assert(kx.drop_first()[0] == ky.drop_first()[0]);
    assert(lex_lt(kx.drop_first().drop_first(), ky.drop_first().drop_first()));
}

/// The registry's merge puts the tiers in order (an answer before every
/// application, an application before every file), within a tier the
/// scores decrease, and results of equal tier and score come by title
/// (code points), whatever the providers returned.
pub proof fn lemma_merge_order(out: Seq<Hit>, results: Seq<Seq<ResultItem>>)
    requires
        merged(out, results),
    ensures
        forall|i: int, j: int|
            #![trigger out[i], out[j]]
            0 <= i < j < out.len() ==> tier_rank(out[i].result().tier) <= tier_rank(out[j].result().tier),
        forall|i: int, j: int|
            #![trigger out[i], out[j]]
            0 <= i < j < out.len() && out[i].result().tier == out[j].result().tier ==> out[i].result().score
                >= out[j].result().score,
        forall|i: int, j: int|
            #![trigger out[i], out[j]]
            0 <= i < j < out.len() && out[i].result().tier == out[j].result().tier && out[i].result().score
                == out[j].result().score ==> lex_lt(codes(out[i].result().title@), codes(out[j].result().title@))
                || codes(out[i].result().title@) == codes(out[j].result().title@),
{
    let inp = flat_hits(results);
    let keys = hit_keys(inp);
    let p = choose|p: Seq<int>| crate::order::sorted_by_perm(out, inp, keys, p);
    assert forall|i: int, j: int| 0 <= i < j < out.len() implies tier_rank(out[i].result().tier) <= tier_rank(
        out[j].result().tier,
    ) && (out[i].result().tier == out[j].result().tier ==> out[i].result().score >= out[j].result().score) by {
        let ki = keys[p[i]];
        let kj = keys[p[j]];
        assert(crate::order::key_before(ki, p[i], kj, p[j]));
        assert(out[i] == inp[p[i]] && out[j] == inp[p[j]]);
        assert(ki == item_order_key(out[i].result()));
        assert(kj == item_order_key(out[j].result()));
        assert(ki[0] == tier_rank(out[i].result().tier) && ki[1] == (u32::MAX - out[i].result().score) as u32);
        assert(kj[0] == tier_rank(out[j].result().tier) && kj[1] == (u32::MAX - out[j].result().score) as u32);
        if lex_lt(ki, kj) {
            lemma_lex_head(ki, kj);
            if ki[0] == kj[0] {
                lemma_lex_head(ki.drop_first(), kj.drop_first());
            }
        }
    }
    assert forall|i: int, j: int|
        0 <= i < j < out.len() && out[i].result().tier == out[j].result().tier && out[i].result().score
            == out[j].result().score implies lex_lt(codes(out[i].result().title@), codes(out[j].result().title@))
        || codes(out[i].result().title@) == codes(out[j].result().title@) by {
        let ki = keys[p[i]];
        let kj = keys[p[j]];
        assert(crate::order::key_before(ki, p[i], kj, p[j]));
        assert(out[i] == inp[p[i]] && out[j] == inp[p[j]]);
        let a = tier_rank(out[i].result().tier);
        let b = (u32::MAX - out[i].result().score) as u32;
        let ci = codes(out[i].result().title@);
        let cj = codes(out[j].result().title@);
        assert(ki == seq![a, b] + ci);
        assert(kj == seq![a, b] + cj);
        if lex_lt(ki, kj) {
            lemma_lex_common_head(a, b, ci, cj);
        } else {
            assert(ki.subrange(2, ki.len() as int) =~= ci);
            assert(kj.subrange(2, kj.len() as int) =~= cj);
        }
    }
}

/// Code points of a string, as a key.
pub fn title_codes(s: &String) -> (r: Vec<u32>)
    ensures
        r@ == codes(s@),
{
    let cs = chars_of(s.as_str());
    char_codes(&cs)
}

/// Key `head ++ codes(title)`.
pub fn key_with_title(head: Vec<u32>, title: &String) -> (r: Vec<u32>)
    ensures
        r@ == head@ + codes(title@),
{
    let t = title_codes(title);
    let mut r = head;
    let ghost h = r@;
    let mut i: usize = 0;
    while i < t.len()
        invariant
            i <= t.len(),
            r@ == h + t@.take(i as int),
        decreases t.len() - i,
    {
        r.push(t[i]);
        i = i + 1;
        assert(r@ =~= h + t@.take(i as int));
    }
    assert(t@.take(t@.len() as int) =~= t@);
    r
}

pub fn order_key(item: &ResultItem) -> (r: Vec<u32>)
    ensures
        r@ == item_order_key(*item),
{
    let mut head: Vec<u32> = Vec::new();
    let rank: u32 = match item.tier {
        Tier::Answer => 0,
        Tier::Primary => 1,
        Tier::Fallback => 2,
    };
    head.push(rank);
    head.push(u32::MAX - item.score);
    let r = key_with_title(head, &item.title);
    assert(r@ =~= item_order_key(*item));
    r
}

/// Merges the results of the providers (in registry order): tier, then
/// score decreasing, then title; equal keys keep their order.
pub fn merge_hits(results: Vec<Vec<ResultItem>>) -> (hits: Vec<Hit>)
    ensures
        merged(hits@, results@.map_values(|v: Vec<ResultItem>| v@)),
{
    let ghost rs = results@.map_values(|v: Vec<ResultItem>| v@);
    let mut all: Vec<Hit> = Vec::new();
    let mut keys: Vec<Vec<u32>> = Vec::new();
    let mut rest = results;
    let n = rest.len();
    let mut p: usize = 0;
    while p < n
        invariant
            p <= n,
            n == rs.len(),
            rest@.len() == n - p,
            forall|k: int| 0 <= k < n - p ==> #[trigger] rest@[k]@ == rs[p + k],
            all@ == flat_hits(rs.take(p as int)),
            keys@.len() == all@.len(),
            forall|k: int| 0 <= k < keys@.len() ==> #[trigger] keys@[k]@ == item_order_key(all@[k].result()),
        decreases n - p,
    {
        let mut v = rest.remove(0);
        assert(rs.take(p + 1).drop_last() =~= rs.take(p as int));
        let ghost before = all@;
        let ghost tagged = rs[p as int].map_values(|item: ResultItem| Hit::tag(p as int, item));
        let m = v.len();
        let mut j: usize = 0;
        while j < m
            invariant
                j <= m,
                m == rs[p as int].len(),
                v@ == rs[p as int].skip(j as int),
                tagged == rs[p as int].map_values(|item: ResultItem| Hit::tag(p as int, item)),
                all@ == before + tagged.take(j as int),
                keys@.len() == all@.len(),
                forall|k: int| 0 <= k < keys@.len() ==> #[trigger] keys@[k]@ == item_order_key(all@[k].result()),
            decreases m - j,
        {
            let item = v.remove(0);
            assert(rs[p as int].skip(j as int).drop_first() =~= rs[p as int].skip(j + 1));
            let key = order_key(&item);
            all.push(Hit { provider_idx: p, item });
            keys.push(key);
            j = j + 1;
            assert(all@ =~= before + tagged.take(j as int));
        }
        assert(tagged.take(m as int) =~= tagged);
        p = p + 1;
    }
    assert(rs.take(n as int) =~= rs);
    let ghost flat = all@;
    assert(keys@.map_values(|k: Vec<u32>| k@) =~= hit_keys(flat));
    stable_sort(all, keys)
}

/// `s`, followed by `p` when `on`.
pub open spec fn enabled<P>(on: bool, s: Seq<P>, p: P) -> Seq<P> {
    if on {
        s.push(p)
    } else {
        s
    }
}

/// The active providers, in a stable order.
pub struct Registry {
    providers: Vec<Box<dyn Provider>>,
}

impl Registry {
    /// Number of providers.
    pub closed spec fn len(&self) -> nat {
        self.providers@.len()
    }

    /// The providers, in order.
    pub closed spec fn providers(&self) -> Seq<Box<dyn Provider>> {
        self.providers@
    }

    pub fn new(providers: Vec<Box<dyn Provider>>) -> (r: Self)
        ensures
            r.providers() == providers@,
            r.len() == providers@.len(),
    {
        Registry { providers }
    }

    /// Registry of the real system: the providers enabled by the
    /// configuration, in the order apps, calc, files.
    pub fn from_config(
        cfg: &ProvidersConfig,
        apps: Box<dyn Provider>,
        calc: Box<dyn Provider>,
        files: Box<dyn Provider>,
    ) -> (r: Self)
        ensures
            r.providers() == enabled::<Box<dyn Provider>>(
                cfg.files,
                enabled::<Box<dyn Provider>>(
                    cfg.calc,
                    enabled::<Box<dyn Provider>>(cfg.apps, Seq::<Box<dyn Provider>>::empty(), apps),
                    calc,
                ),
                files,
            ),
            r.len() == (if cfg.apps { 1nat } else { 0 }) + (if cfg.calc { 1nat } else { 0 }) + (if cfg.files { 1nat } else { 0 }),
    {
        let mut providers: Vec<Box<dyn Provider>> = Vec::new();
        let ghost s0 = providers@;
        assert(s0 == Seq::<Box<dyn Provider>>::empty());
        if cfg.apps {
            providers.push(apps);
            proof { vstd::seq::axiom_seq_push_len::<Box<dyn Provider>>(s0, apps); }
        }
        let ghost s1 = providers@;
        assert(s1 == enabled::<Box<dyn Provider>>(cfg.apps, Seq::<Box<dyn Provider>>::empty(), apps));
        if cfg.calc {
            providers.push(calc);
            proof { vstd::seq::axiom_seq_push_len::<Box<dyn Provider>>(s1, calc); }
        }
        let ghost s2 = providers@;
        assert(s2 == enabled::<Box<dyn Provider>>(cfg.calc, s1, calc));
        if cfg.files {
            providers.push(files);
            proof { vstd::seq::axiom_seq_push_len::<Box<dyn Provider>>(s2, files); }
        }
        assert(providers@ == enabled::<Box<dyn Provider>>(cfg.files, s2, files));
        Self::new(providers)
    }

    /// Registry with every provider: apps, calc, files.
    pub fn with_defaults(apps: Box<dyn Provider>, calc: Box<dyn Provider>, files: Box<dyn Provider>) -> (r: Self)
        ensures
            r.providers() == enabled::<Box<dyn Provider>>(
                true,
                enabled::<Box<dyn Provider>>(
                    true,
                    enabled::<Box<dyn Provider>>(true, Seq::<Box<dyn Provider>>::empty(), apps),
                    calc,
                ),
                files,
            ),
            r.len() == 3,
    {
        let mut providers: Vec<Box<dyn Provider>> = Vec::new();
        let ghost s0 = providers@;
        providers.push(apps);
        let ghost s1 = providers@;
        providers.push(calc);
        let ghost s2 = providers@;
        providers.push(files);
        proof {
            vstd::seq::axiom_seq_push_len::<Box<dyn Provider>>(s0, apps);
            vstd::seq::axiom_seq_push_len::<Box<dyn Provider>>(s1, calc);
            vstd::seq::axiom_seq_push_len::<Box<dyn Provider>>(s2, files);
        }
        assert(s0 == Seq::<Box<dyn Provider>>::empty());
        assert(s1 == enabled::<Box<dyn Provider>>(true, Seq::<Box<dyn Provider>>::empty(), apps));
        assert(s2 == enabled::<Box<dyn Provider>>(true, s1, calc));
        assert(providers@ == enabled::<Box<dyn Provider>>(true, s2, files));
        Self::new(providers)
    }

    /// Refreshes every provider, in order.
    pub fn refresh(&mut self)
        ensures
            final(self).len() == old(self).len(),
            forall|k: int| 0 <= k < final(self).len() ==> (#[trigger] final(self).providers()[k]).refreshed(),
    {
        let mut i: usize = 0;
        while i < self.providers.len()
            invariant
                i <= self.providers@.len(),
                self.providers@.len() == old(self).providers@.len(),
                forall|k: int| 0 <= k < i ==> (#[trigger] self.providers@[k]).refreshed(),
            decreases self.providers@.len() - i,
        {
            self.providers[i].refresh();
            i = i + 1;
        }
    }

    /// The watch specs of all providers, provider after provider.
    pub fn watch_specs(&self) -> (r: Vec<WatchSpec>)
        ensures
            exists|specs: Seq<Seq<WatchSpec>>|
                specs.len() == self.len() && r@ == concat_specs(specs) && forall|k: int|
                    0 <= k < specs.len() ==> self.providers()[k].watched(#[trigger] specs[k]),
    {
        let mut r: Vec<WatchSpec> = Vec::new();
        let ghost mut specs: Seq<Seq<WatchSpec>> = Seq::empty();
        let mut i: usize = 0;
        while i < self.providers.len()
            invariant
                i <= self.providers@.len(),
                specs.len() == i,
                r@ == concat_specs(specs),
                forall|k: int| 0 <= k < i ==> self.providers@[k].watched(#[trigger] specs[k]),
            decreases self.providers@.len() - i,
        {
            let mut w = self.providers[i].watch_specs();
            let ghost ws = w@;
            r.append(&mut w);
            proof {
                assert(concat_specs(specs.push(ws)).len() >= 0);
                assert(specs.push(ws).drop_last() =~= specs);
                specs = specs.push(ws);
            }
            i = i + 1;
        }
        r
    }

    /// Asks every provider and merges: tier, then score decreasing, then
    /// title (stable order).
    pub fn query(&mut self, query: &str) -> (hits: Vec<Hit>)
        ensures
            final(self).len() == old(self).len(),
            exists|results: Seq<Seq<ResultItem>>|
                results.len() == old(self).len() && merged(hits@, results) && forall|k: int|
                    0 <= k < results.len() ==> old(self).providers()[k].answers(query@, #[trigger] results[k]),
    {
        let mut results: Vec<Vec<ResultItem>> = Vec::new();
        let mut i: usize = 0;
        while i < self.providers.len()
            invariant
                i <= self.providers@.len(),
                self.providers@.len() == old(self).providers@.len(),
                results@.len() == i,
                forall|k: int| i <= k < self.providers@.len() ==> self.providers@[k] == old(self).providers@[k],
                forall|k: int| 0 <= k < i ==> old(self).providers@[k].answers(query@, (#[trigger] results@[k])@),
            decreases self.providers@.len() - i,
        {
            let items = self.providers[i].query(query);
            results.push(items);
            i = i + 1;
        }
        let ghost rs = results@.map_values(|v: Vec<ResultItem>| v@);
        let hits = merge_hits(results);
        assert(forall|k: int| 0 <= k < rs.len() ==> old(self).providers()[k].answers(query@, #[trigger] rs[k]));
        hits
    }

    /// Completes the activation of a hit, once the launch or the opening
    /// that its action calls for has been performed: notifies the provider
    /// that produced it, and tells the UI what remains to be done.
    pub fn activate(&mut self, hit: &Hit) -> (r: Activation)
        ensures
            final(self).len() == old(self).len(),
            r == activation_of(hit.result().action),
            forall|k: int|
                0 <= k < old(self).len() && k != hit.provider() ==> #[trigger] final(self).providers()[k] == old(
                    self,
                ).providers()[k],
            0 <= hit.provider() < old(self).len() ==> final(self).providers()[hit.provider()].recorded(
                hit.result().id@,
            ),
    {
        let outcome = match &hit.item.action {
            Action::CopyText(text) => Activation::CopyRequested(text.clone()),
            _ => Activation::Done,
        };
        if hit.provider_idx < self.providers.len() {
            self.providers[hit.provider_idx].record_activation(hit.item.id.as_str());
        }
        outcome
    }

    /// The safe uninstall method of the hit, or the refusal told to the
    /// user when it has none.
    pub fn uninstall<'a>(&mut self, hit: &'a Hit) -> (r: Result<&'a UninstallSpec, String>)
        ensures
            final(self).len() == old(self).len(),
            hit.result().uninstall matches Some(s) ==> r == Ok::<&UninstallSpec, String>(&s),
            hit.result().uninstall is None ==> (r matches Err(msg) && msg@ == "cette app ne se désinstalle pas depuis Weft"@),
    {
        match &hit.item.uninstall {
            Some(spec) => Ok(spec),
            None => Err(String::from_str("cette app ne se désinstalle pas depuis Weft")),
        }
    }
}

/// What the UI still has to do after activating a result with `action`.
pub open spec fn activation_of(action: Action) -> Activation {
    match action {
        Action::CopyText(t) => Activation::CopyRequested(t),
        _ => Activation::Done,
    }
}

pub open spec fn concat_specs(specs: Seq<Seq<WatchSpec>>) -> Seq<WatchSpec>
    decreases specs.len(),
{
    if specs.len() == 0 {
        Seq::empty()
    } else {
        concat_specs(specs.drop_last()) + specs.last()
    }
}

} // verus!

