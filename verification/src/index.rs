//! Aggregation of the sources into one deduplicated index.
use vstd::prelude::*;

use crate::model::{AppEntry, Source};
use crate::text::{char_lowercase, chars_of, concat, is_alphanumeric, lowercase_char, alphanumeric, seq_eq};

verus! {

/// "Notepad++" and "notepad++", "GIMP " and "GIMP" meet: alphanumeric
/// characters only, lowercased.
pub open spec fn normalized(name: Seq<char>) -> Seq<char>
    decreases name.len(),
{
    if name.len() == 0 {
        Seq::empty()
    } else {
        normalized(name.drop_last()) + (if is_alphanumeric(name.last()) {
            char_lowercase(name.last())
        } else {
            Seq::empty()
        })
    }
}

/// All scanned entries, source after source.
pub open spec fn flatten_scans(scans: Seq<Seq<AppEntry>>) -> Seq<AppEntry>
    decreases scans.len(),
{
    if scans.len() == 0 {
        Seq::empty()
    } else {
        flatten_scans(scans.drop_last()) + scans.last()
    }
}

/// An earlier entry of `s` carries the id of `s[i]`.
pub open spec fn id_seen_before(s: Seq<AppEntry>, i: int) -> bool {
    exists|j: int| 0 <= j < i && s[j].id@ == s[i].id@
}

/// The first occurrence of each id, in order.
pub open spec fn first_by_id(s: Seq<AppEntry>) -> Seq<AppEntry>
    decreases s.len(),
{
    if s.len() == 0 {
        Seq::empty()
    } else {
        let d = first_by_id(s.drop_last());
        if id_seen_before(s, s.len() - 1) {
            d
        } else {
            d.push(s.last())
        }
    }
}

/// A Flatpak entry whose normalized name is that of a native entry of `s`.
pub open spec fn shadowed(s: Seq<AppEntry>, e: AppEntry) -> bool {
    &&& e.source == Source::Flatpak
    &&& exists|j: int|
        0 <= j < s.len() && s[j].source == Source::Native && #[trigger] normalized(s[j].name@)
            == normalized(e.name@)
}

/// The entries of `t` that `s` does not shadow, in order.
pub open spec fn keep_unshadowed(s: Seq<AppEntry>, t: Seq<AppEntry>) -> Seq<AppEntry>
    decreases t.len(),
{
    if t.len() == 0 {
        Seq::empty()
    } else {
        let r = keep_unshadowed(s, t.drop_last());
        if shadowed(s, t.last()) {
            r
        } else {
            r.push(t.last())
        }
    }
}

/// The index built from the scans: first occurrence of each id, then
/// native priority over a Flatpak of the same app.
pub open spec fn index_spec(scans: Seq<Seq<AppEntry>>) -> Seq<AppEntry> {
    let s = first_by_id(flatten_scans(scans));
    keep_unshadowed(s, s)
}

pub open spec fn ids_distinct(s: Seq<AppEntry>) -> bool {
    forall|i: int, j: int| 0 <= i < j < s.len() ==> s[i].id@ != s[j].id@
}

pub struct Index {
    entries: Vec<AppEntry>,
}

impl View for Index {
    type V = Seq<AppEntry>;

    closed spec fn view(&self) -> Seq<AppEntry> {
        self.entries@
    }
}

pub fn normalize_name(name: &str) -> (r: Vec<char>)
    ensures
        r@ == normalized(name@),
{
    let cs = chars_of(name);
    let mut r: Vec<char> = Vec::new();
    let mut i: usize = 0;
    while i < cs.len()
        invariant
            i <= cs.len(),
            cs@ == name@,
            r@ == normalized(cs@.take(i as int)),
        decreases cs.len() - i,
    {
        let c = cs[i];
        assert(cs@.take(i + 1).drop_last() =~= cs@.take(i as int));
        if alphanumeric(c) {
            let low = lowercase_char(c);
            r = concat(&r, &low);
        } else {
            assert(r@ + Seq::<char>::empty() =~= r@);
        }
        i = i + 1;
    }
    assert(cs@.take(cs@.len() as int) =~= cs@);
    r
}

proof fn lemma_first_by_id_ids(s: Seq<AppEntry>)
    ensures
        forall|k: int|
            0 <= k < first_by_id(s).len() ==> exists|j: int|
                0 <= j < s.len() && #[trigger] first_by_id(s)[k] == s[j],
        forall|j: int|
            #![trigger s[j]]
            0 <= j < s.len() ==> exists|k: int|
                0 <= k < first_by_id(s).len() && #[trigger] first_by_id(s)[k].id@ == s[j].id@,
        ids_distinct(first_by_id(s)),
    decreases s.len(),
{
    if s.len() > 0 {
        let t = s.drop_last();
        lemma_first_by_id_ids(t);
        let d = first_by_id(t);
        assert forall|k: int| 0 <= k < first_by_id(s).len() implies exists|j: int|
            0 <= j < s.len() && #[trigger] first_by_id(s)[k] == s[j] by {
            if k < d.len() {
                let j = choose|j: int| 0 <= j < t.len() && d[k] == t[j];
                assert(first_by_id(s)[k] == s[j]);
            } else {
                assert(first_by_id(s)[k] == s[s.len() - 1]);
            }
        }
        assert forall|j: int| #![trigger s[j]] 0 <= j < s.len() implies exists|k: int|
            0 <= k < first_by_id(s).len() && #[trigger] first_by_id(s)[k].id@ == s[j].id@ by {
            if j < t.len() {
                let k = choose|k: int| 0 <= k < d.len() && #[trigger] d[k].id@ == t[j].id@;
                assert(first_by_id(s)[k] == d[k]);
            } else if id_seen_before(s, s.len() - 1) {
                let j2 = choose|j2: int| 0 <= j2 < s.len() - 1 && #[trigger] s[j2].id@ == s[s.len() - 1].id@;
                assert(t[j2] == s[j2]);
                let k = choose|k: int| 0 <= k < d.len() && #[trigger] d[k].id@ == t[j2].id@;
                assert(first_by_id(s)[k] == d[k]);
            } else {
                assert(first_by_id(s)[d.len() as int] == s[j]);
            }
        }
        if !id_seen_before(s, s.len() - 1) {
            assert forall|i: int, j: int| 0 <= i < j < first_by_id(s).len() implies
                first_by_id(s)[i].id@ != first_by_id(s)[j].id@ by {
                if j == d.len() {
                    let jj = choose|jj: int| 0 <= jj < t.len() && d[i] == t[jj];
                    assert(s[jj] == t[jj]);
                    if first_by_id(s)[i].id@ == first_by_id(s)[j].id@ {
                        assert(id_seen_before(s, s.len() - 1));
                    }
                }
            }
        }
    }
}

proof fn lemma_keep_subset(s: Seq<AppEntry>, t: Seq<AppEntry>)
    ensures
        forall|k: int|
            0 <= k < keep_unshadowed(s, t).len() ==> exists|j: int|
                0 <= j < t.len() && #[trigger] keep_unshadowed(s, t)[k] == t[j],
        forall|k: int|
            0 <= k < keep_unshadowed(s, t).len() ==> !shadowed(s, #[trigger] keep_unshadowed(s, t)[k]),
    decreases t.len(),
{
    if t.len() > 0 {
        let u = t.drop_last();
        lemma_keep_subset(s, u);
        let r = keep_unshadowed(s, u);
        let full = keep_unshadowed(s, t);
        assert forall|k: int| 0 <= k < full.len() implies exists|j: int|
            0 <= j < t.len() && #[trigger] full[k] == t[j] by {
            if k < r.len() {
                let j = choose|j: int| 0 <= j < u.len() && r[k] == u[j];
                assert(full[k] == t[j]);
            } else {
                assert(full[k] == t[t.len() - 1]);
            }
        }
    }
}

proof fn lemma_keep_complete(s: Seq<AppEntry>, t: Seq<AppEntry>)
    ensures
        forall|j: int|
            0 <= j < t.len() && !shadowed(s, #[trigger] t[j]) ==> exists|k: int|
                0 <= k < keep_unshadowed(s, t).len() && keep_unshadowed(s, t)[k] == t[j],
    decreases t.len(),
{
    if t.len() > 0 {
        let u = t.drop_last();
        lemma_keep_complete(s, u);
        let r = keep_unshadowed(s, u);
        let full = keep_unshadowed(s, t);
        assert forall|j: int| 0 <= j < t.len() && !shadowed(s, #[trigger] t[j]) implies exists|k: int|
            0 <= k < full.len() && full[k] == t[j] by {
            if j < u.len() {
                assert(u[j] == t[j]);
                let k = choose|k: int| 0 <= k < r.len() && r[k] == u[j];
                assert(full[k] == r[k]);
            } else {
                assert(full[r.len() as int] == t[j]);
            }
        }
    }
}

proof fn lemma_keep_distinct(s: Seq<AppEntry>, t: Seq<AppEntry>)
    requires
        ids_distinct(t),
    ensures
        ids_distinct(keep_unshadowed(s, t)),
    decreases t.len(),
{
    if t.len() > 0 {
        let u = t.drop_last();
        assert(ids_distinct(u));
        lemma_keep_distinct(s, u);
        lemma_keep_subset(s, u);
        let r = keep_unshadowed(s, u);
        let full = keep_unshadowed(s, t);
        assert forall|i: int, j: int| 0 <= i < j < full.len() implies full[i].id@ != full[j].id@ by {
            if j == r.len() && !shadowed(s, t.last()) {
                let ji = choose|ji: int| 0 <= ji < u.len() && #[trigger] r[i] == u[ji];
                assert(t[ji] == u[ji]);
                assert(full[j] == t[t.len() - 1]);
            }
        }
    }
}

/// Index law: no two entries of the index share an id.
pub proof fn lemma_index_ids_distinct(scans: Seq<Seq<AppEntry>>)
    ensures
        ids_distinct(index_spec(scans)),
{
    let s = first_by_id(flatten_scans(scans));
    lemma_first_by_id_ids(flatten_scans(scans));
    lemma_keep_distinct(s, s);
}

/// Index law: the same app as a native package and as a Flatpak appears
/// once: no Flatpak entry of the index has the normalized name of a native
/// entry of the index.
pub proof fn lemma_index_native_wins(scans: Seq<Seq<AppEntry>>)
    ensures
        forall|i: int, j: int|
            0 <= i < index_spec(scans).len() && 0 <= j < index_spec(scans).len()
                && index_spec(scans)[i].source == Source::Flatpak && index_spec(scans)[j].source
                == Source::Native ==> normalized(index_spec(scans)[i].name@) != normalized(
                index_spec(scans)[j].name@,
            ),
{
    let s = first_by_id(flatten_scans(scans));
    lemma_keep_subset(s, s);
    let r = index_spec(scans);
    assert forall|i: int, j: int|
        0 <= i < r.len() && 0 <= j < r.len() && r[i].source == Source::Flatpak && r[j].source
            == Source::Native implies normalized(r[i].name@) != normalized(r[j].name@) by {
        assert(!shadowed(s, r[i]));
        let jj = choose|jj: int| 0 <= jj < s.len() && #[trigger] r[j] == s[jj];
        if normalized(r[i].name@) == normalized(r[j].name@) {
            assert(normalized(s[jj].name@) == normalized(r[i].name@));
            assert(shadowed(s, r[i]));
        }
    }
}

/// Index law: native entries are never dropped by the native/Flatpak
/// deduplication, and every id scanned is represented unless its first
/// occurrence is a Flatpak shadowed by a native app.
pub proof fn lemma_index_keeps_first_occurrences(scans: Seq<Seq<AppEntry>>)
    ensures
        forall|j: int|
            0 <= j < first_by_id(flatten_scans(scans)).len() && !shadowed(
                first_by_id(flatten_scans(scans)),
                #[trigger] first_by_id(flatten_scans(scans))[j],
            ) ==> exists|k: int|
                0 <= k < index_spec(scans).len() && index_spec(scans)[k] == first_by_id(
                    flatten_scans(scans),
                )[j],
        forall|j: int|
            0 <= j < first_by_id(flatten_scans(scans)).len() && (#[trigger] first_by_id(
                flatten_scans(scans),
            )[j]).source == Source::Native ==> exists|k: int|
                0 <= k < index_spec(scans).len() && index_spec(scans)[k] == first_by_id(
                    flatten_scans(scans),
                )[j],
{
    let s = first_by_id(flatten_scans(scans));
    lemma_keep_complete(s, s);
    assert forall|j: int| 0 <= j < s.len() && (#[trigger] s[j]).source == Source::Native implies
        exists|k: int| 0 <= k < index_spec(scans).len() && index_spec(scans)[k] == s[j] by {
        assert(index_spec(scans) == keep_unshadowed(s, s));
        assert(!shadowed(s, s[j]));
        let k = choose|k: int| 0 <= k < keep_unshadowed(s, s).len() && keep_unshadowed(s, s)[k] == s[j];
        assert(index_spec(scans)[k] == s[j]);
    }
}


fn flatten(scans: Vec<Vec<AppEntry>>) -> (all: Vec<AppEntry>)
    ensures
        all@ == flatten_scans(scans@.map_values(|v: Vec<AppEntry>| v@)),
{
    let ghost sc = scans@.map_values(|v: Vec<AppEntry>| v@);
    let mut all: Vec<AppEntry> = Vec::new();
    let mut rest = scans;
    let n = rest.len();
    let mut i: usize = 0;
    while i < n
        invariant
            i <= n,
            n == sc.len(),
            rest@.len() == n - i,
            forall|k: int| 0 <= k < n - i ==> #[trigger] rest@[k]@ == sc[i + k],
            all@ == flatten_scans(sc.take(i as int)),
        decreases n - i,
    {
        let mut v = rest.remove(0);
        assert(v@ == sc[i as int]);
        assert(sc.take(i + 1).drop_last() =~= sc.take(i as int));
        let ghost before = all@;
        let m = v.len();
        let mut j: usize = 0;
        while j < m
            invariant
                j <= m,
                m == sc[i as int].len(),
                v@ == sc[i as int].skip(j as int),
                all@ == before + sc[i as int].take(j as int),
            decreases m - j,
        {
            let e = v.remove(0);
            all.push(e);
            assert(sc[i as int].skip(j as int).drop_first() =~= sc[i as int].skip(j + 1));
            j = j + 1;
            assert(all@ =~= before + sc[i as int].take(j as int));
        }
        assert(sc[i as int].take(m as int) =~= sc[i as int]);
        i = i + 1;
    }
    assert(sc.take(n as int) =~= sc);
    all
}

fn first_occurrences(all: Vec<AppEntry>) -> (kept: Vec<AppEntry>)
    ensures
        kept@ == first_by_id(all@),
{
    let ghost flat = all@;
    let mut all = all;
    let mut kept: Vec<AppEntry> = Vec::new();
    let mut kept_ids: Vec<Vec<char>> = Vec::new();
    let total = all.len();
    let mut k: usize = 0;
    while k < total
        invariant
            k <= total,
            total == flat.len(),
            all@ == flat.skip(k as int),
            kept@ == first_by_id(flat.take(k as int)),
            kept_ids@.len() == kept@.len(),
            forall|q: int| 0 <= q < kept@.len() ==> #[trigger] kept_ids@[q]@ == kept@[q].id@,
        decreases total - k,
    {
        let e = all.remove(0);
        assert(flat.skip(k as int).drop_first() =~= flat.skip(k + 1));
        let id = chars_of(e.id.as_str());
        let mut found = false;
        let mut q: usize = 0;
        while q < kept_ids.len()
            invariant
                q <= kept_ids@.len(),
                found == exists|w: int| 0 <= w < q && kept_ids@[w]@ == id@,
            decreases kept_ids@.len() - q,
        {
            if seq_eq(&kept_ids[q], &id) {
                found = true;
            }
            q = q + 1;
        }
        proof {
            let t = flat.take(k + 1);
            assert(t.drop_last() =~= flat.take(k as int));
            assert(t.last() == e);
            lemma_first_by_id_ids(flat.take(k as int));
            if found {
                let w = choose|w: int| 0 <= w < q && kept_ids@[w]@ == id@;
                let jj = choose|jj: int| 0 <= jj < flat.take(k as int).len() && #[trigger] kept@[w]
                    == flat.take(k as int)[jj];
                assert(t[jj] == flat.take(k as int)[jj]);
                assert(id_seen_before(t, k as int));
            } else {
                if id_seen_before(t, k as int) {
                    let jj = choose|jj: int| 0 <= jj < k && #[trigger] t[jj].id@ == t[k as int].id@;
                    assert(flat.take(k as int)[jj] == t[jj]);
                    let w = choose|w: int| 0 <= w < kept@.len() && #[trigger] kept@[w].id@ == flat.take(k as int)[jj].id@;
                    assert(kept_ids@[w]@ == id@);
                }
            }
        }
        if !found {
            kept_ids.push(id);
            kept.push(e);
        }
        k = k + 1;
    }
    assert(flat.take(total as int) =~= flat);
    kept
}

/// Normalized names of the native entries: `Some` at the position of a
/// native entry, `None` elsewhere.
fn native_names(s: &Vec<AppEntry>) -> (r: Vec<Option<Vec<char>>>)
    ensures
        r@.len() == s@.len(),
        forall|x: int| 0 <= x < s@.len() ==> (#[trigger] r@[x] is Some) == (s@[x].source == Source::Native),
        forall|x: int| 0 <= x < s@.len() && r@[x] is Some ==> (#[trigger] r@[x]).unwrap()@ == normalized(s@[x].name@),
{
    let mut r: Vec<Option<Vec<char>>> = Vec::new();
    let mut a: usize = 0;
    while a < s.len()
        invariant
            a <= s@.len(),
            r@.len() == a,
            forall|x: int| 0 <= x < a ==> (#[trigger] r@[x] is Some) == (s@[x].source == Source::Native),
            forall|x: int| 0 <= x < a && r@[x] is Some ==> (#[trigger] r@[x]).unwrap()@ == normalized(s@[x].name@),
        decreases s@.len() - a,
    {
        if s[a].source == Source::Native {
            let nn = normalize_name(s[a].name.as_str());
            r.push(Some(nn));
        } else {
            r.push(None);
        }
        a = a + 1;
    }
    r
}

/// Same app as a `.deb` AND as a Flatpak: one entry, the native one
/// (faster start, better integrated). Matched by normalized name, since
/// the ids always differ (`firefox.desktop` vs `org.mozilla.firefox.desktop`).
pub fn dedup_native_flatpak(entries: Vec<AppEntry>) -> (out: Vec<AppEntry>)
    ensures
        out@ == keep_unshadowed(entries@, entries@),
{
    let ghost s = entries@;
    let natives = native_names(&entries);
    let mut out: Vec<AppEntry> = Vec::new();
    let mut src = entries;
    let sn = src.len();
    let mut b: usize = 0;
    while b < sn
        invariant
            b <= sn,
            sn == s.len(),
            src@ == s.skip(b as int),
            out@ == keep_unshadowed(s, s.take(b as int)),
            natives@.len() == s.len(),
            forall|x: int| 0 <= x < s.len() ==> (#[trigger] natives@[x] is Some) == (s[x].source == Source::Native),
            forall|x: int| 0 <= x < s.len() && natives@[x] is Some ==> (#[trigger] natives@[x]).unwrap()@ == normalized(s[x].name@),
        decreases sn - b,
    {
        let e = src.remove(0);
        assert(s.skip(b as int).drop_first() =~= s.skip(b + 1));
        assert(s.take(b + 1).drop_last() =~= s.take(b as int));
        assert(e == s[b as int]);
        let mut drop = false;
        if e.source == Source::Flatpak {
            let nn = normalize_name(e.name.as_str());
            let mut w: usize = 0;
            while w < natives.len()
                invariant
                    w <= natives@.len(),
                    drop == exists|y: int| 0 <= y < w && #[trigger] natives@[y] is Some && natives@[y].unwrap()@ == nn@,
                decreases natives@.len() - w,
            {
                match &natives[w] {
                    Some(name) => {
                        if seq_eq(name, &nn) {
                            drop = true;
                        }
                    },
                    None => {},
                }
                w = w + 1;
            }
            proof {
                if drop {
                    let y = choose|y: int| 0 <= y < w && #[trigger] natives@[y] is Some && natives@[y].unwrap()@ == nn@;
                    assert(normalized(s[y].name@) == normalized(e.name@));
                    assert(shadowed(s, e));
                } else {
                    if shadowed(s, e) {
                        let x = choose|x: int| 0 <= x < s.len() && s[x].source == Source::Native
                            && #[trigger] normalized(s[x].name@) == normalized(e.name@);
                        assert(natives@[x] is Some);
                    }
                }
            }
        }
        assert(drop == shadowed(s, e));
        if !drop {
            out.push(e);
        }
        b = b + 1;
    }
    assert(s.take(sn as int) =~= s);
    out
}

impl Index {
    /// Builds the index from the entries scanned by each source, in source
    /// order.
    ///
    /// Deduplication by id: a Steam game seen both through its manifest
    /// and through a `.desktop` shortcut (`steam://rungameid/<appid>`)
    /// carries the same id `steam:<appid>`; the first occurrence wins.
    /// Then the same app as a `.deb` and as a Flatpak keeps only the
    /// native entry (matched by normalized name).
    pub fn from_sources(scans: Vec<Vec<AppEntry>>) -> (r: Index)
        ensures
            r@ == index_spec(scans@.map_values(|v: Vec<AppEntry>| v@)),
    {
        let all = flatten(scans);
        let firsts = first_occurrences(all);
        Index { entries: dedup_native_flatpak(firsts) }
    }

    /// Builds the index from the system's sources, in this order: the
    /// `.desktop` files, Steam, then the Windows apps when Weft's Windows
    /// root exists.
    pub fn build(desktop: Vec<AppEntry>, steam: Vec<AppEntry>, windows: Option<Vec<AppEntry>>) -> (r: Index)
        ensures
            r@ == index_spec(
                seq![desktop@, steam@] + match windows {
                    Some(w) => seq![w@],
                    None => Seq::<Seq<AppEntry>>::empty(),
                },
            ),
    {
        let ghost scans_v = seq![desktop@, steam@] + match &windows {
            Some(w) => seq![w@],
            None => Seq::<Seq<AppEntry>>::empty(),
        };
        let mut scans: Vec<Vec<AppEntry>> = Vec::new();
        scans.push(desktop);
        scans.push(steam);
        match windows {
            Some(w) => scans.push(w),
            None => {},
        }
        assert(scans@.map_values(|v: Vec<AppEntry>| v@) =~= scans_v);
        Index::from_sources(scans)
    }

    pub fn entries(&self) -> (r: &[AppEntry])
        ensures
            r@ == self@,
    {
        self.entries.as_slice()
    }

    pub fn into_entries(self) -> (r: Vec<AppEntry>)
        ensures
            r@ == self@,
    {
        self.entries
    }

    pub fn len(&self) -> (r: usize)
        ensures
            r == self@.len(),
    {
        self.entries.len()
    }

    pub fn is_empty(&self) -> (r: bool)
        ensures
            r == (self@.len() == 0),
    {
        self.entries.len() == 0
    }
}

} // verus!
