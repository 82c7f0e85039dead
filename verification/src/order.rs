//! Lexicographic keys and a verified stable sort.
//!
//! Every ordering of the library (results by tier, score and title, apps by
//! name, games by title...) is expressed as a key: a sequence of `u32`
//! compared lexicographically, a strict prefix coming first. A stable sort
//! by such keys orders equal keys by their original position.
use vstd::prelude::*;

verus! {

/// `a` comes strictly before `b` in lexicographic order.
pub open spec fn lex_lt(a: Seq<u32>, b: Seq<u32>) -> bool
    decreases a.len(),
{
    if b.len() == 0 {
        false
    } else if a.len() == 0 {
        true
    } else if a[0] < b[0] {
        true
    } else if a[0] == b[0] {
        lex_lt(a.drop_first(), b.drop_first())
    } else {
        false
    }
}

/// Order of the stable sort: by key, then by original position.
pub open spec fn key_before(ka: Seq<u32>, ia: int, kb: Seq<u32>, ib: int) -> bool {
    lex_lt(ka, kb) || (ka == kb && ia < ib)
}

/// `p` lists each of `0..n` exactly once.
pub open spec fn is_permutation(p: Seq<int>, n: nat) -> bool {
    &&& p.len() == n
    &&& forall|i: int| 0 <= i < p.len() ==> 0 <= #[trigger] p[i] < n
    &&& forall|i: int, j: int| 0 <= i < j < p.len() ==> p[i] != p[j]
}

/// `out` holds the items of `inp`, rearranged by the permutation `p`, in
/// increasing key order (ties by original position).
pub open spec fn sorted_by_perm<T>(out: Seq<T>, inp: Seq<T>, keys: Seq<Seq<u32>>, p: Seq<int>) -> bool {
    &&& is_permutation(p, inp.len())
    &&& out.len() == inp.len()
    &&& forall|i: int| 0 <= i < out.len() ==> out[i] == inp[#[trigger] p[i]]
    &&& forall|i: int, j: int|
        0 <= i < j < out.len() ==> key_before(keys[#[trigger] p[i]], p[i], keys[#[trigger] p[j]], p[j])
}

/// `out` is the stable sort of `inp` by `keys` (one key per item).
pub open spec fn stable_sorted<T>(out: Seq<T>, inp: Seq<T>, keys: Seq<Seq<u32>>) -> bool {
    exists|p: Seq<int>| sorted_by_perm(out, inp, keys, p)
}

pub proof fn lemma_lex_irreflexive(a: Seq<u32>)
    ensures
        !lex_lt(a, a),
    decreases a.len(),
{
    if a.len() > 0 {
        lemma_lex_irreflexive(a.drop_first());
    }
}

pub proof fn lemma_lex_total(a: Seq<u32>, b: Seq<u32>)
    ensures
        lex_lt(a, b) || lex_lt(b, a) || a == b,
    decreases a.len(),
{
    if a.len() > 0 && b.len() > 0 && a[0] == b[0] {
        lemma_lex_total(a.drop_first(), b.drop_first());
        if a.drop_first() == b.drop_first() {
            assert(a =~= seq![a[0]] + a.drop_first());
            assert(b =~= seq![b[0]] + b.drop_first());
        }
    } else if a.len() == 0 && b.len() == 0 {
        assert(a =~= b);
    }
}

pub proof fn lemma_lex_asym(a: Seq<u32>, b: Seq<u32>)
    ensures
        !(lex_lt(a, b) && lex_lt(b, a)),
    decreases a.len(),
{
    if a.len() > 0 && b.len() > 0 && a[0] == b[0] {
        lemma_lex_asym(a.drop_first(), b.drop_first());
    }
}

pub proof fn lemma_lex_trans(a: Seq<u32>, b: Seq<u32>, c: Seq<u32>)
    requires
        lex_lt(a, b),
        lex_lt(b, c),
    ensures
        lex_lt(a, c),
    decreases a.len(),
{
    if a.len() > 0 && b.len() > 0 && c.len() > 0 && a[0] == b[0] && b[0] == c[0] {
        lemma_lex_trans(a.drop_first(), b.drop_first(), c.drop_first());
    }
}

proof fn lemma_before_trans(ka: Seq<u32>, ia: int, kb: Seq<u32>, ib: int, kc: Seq<u32>, ic: int)
    requires
        key_before(ka, ia, kb, ib),
        key_before(kb, ib, kc, ic),
    ensures
        key_before(ka, ia, kc, ic),
{
    if lex_lt(ka, kb) && lex_lt(kb, kc) {
        lemma_lex_trans(ka, kb, kc);
    }
}

/// Executable lexicographic comparison.
pub fn lex_less(a: &Vec<u32>, b: &Vec<u32>) -> (r: bool)
    ensures
        r == lex_lt(a@, b@),
{
    let mut i: usize = 0;
    assert(a@.skip(0) =~= a@);
    assert(b@.skip(0) =~= b@);
    while i < a.len() && i < b.len() && a[i] == b[i]
        invariant
            i <= a.len(),
            i <= b.len(),
            a@.subrange(0, i as int) == b@.subrange(0, i as int),
            lex_lt(a@, b@) == lex_lt(a@.skip(i as int), b@.skip(i as int)),
        decreases a.len() - i,
    {
        assert(a@.skip(i as int).drop_first() =~= a@.skip(i + 1));
        assert(b@.skip(i as int).drop_first() =~= b@.skip(i + 1));
        assert(a@.subrange(0, i + 1) =~= a@.subrange(0, i as int).push(a@[i as int]));
        assert(b@.subrange(0, i + 1) =~= b@.subrange(0, i as int).push(b@[i as int]));
        i = i + 1;
    }
    if i == b.len() {
        false
    } else if i == a.len() {
        true
    } else {
        a[i] < b[i]
    }
}

/// Stable sort of `items` by `keys` (`keys[i]` is the key of `items[i]`).
pub fn stable_sort<T>(items: Vec<T>, keys: Vec<Vec<u32>>) -> (out: Vec<T>)
    requires
        items@.len() == keys@.len(),
    ensures
        stable_sorted(out@, items@, keys@.map_values(|k: Vec<u32>| k@)),
{
    let ghost inp = items@;
    let ghost ks = keys@.map_values(|k: Vec<u32>| k@);
    let n = items.len();
    let mut rest = items;
    let mut out: Vec<T> = Vec::new();
    let mut out_keys: Vec<usize> = Vec::new();
    let ghost mut p: Seq<int> = Seq::empty();
    let mut i: usize = 0;
    while i < n
        invariant
            n == inp.len(),
            n == keys@.len(),
            ks == keys@.map_values(|k: Vec<u32>| k@),
            i <= n,
            rest@ == inp.skip(i as int),
            out@.len() == i,
            p.len() == i,
            out_keys@.len() == i,
            forall|k: int| 0 <= k < i ==> #[trigger] out_keys@[k] == p[k],
            forall|k: int| 0 <= k < i ==> 0 <= #[trigger] p[k] < i,
            forall|a: int, b: int| 0 <= a < b < i ==> p[a] != p[b],
            forall|k: int| 0 <= k < i ==> out@[k] == inp[#[trigger] p[k]],
            forall|a: int, b: int|
                0 <= a < b < i ==> key_before(ks[#[trigger] p[a]], p[a], ks[#[trigger] p[b]], p[b]),
        decreases n - i,
    {
        let item = rest.remove(0);
        assert(inp.skip(i as int).drop_first() =~= inp.skip(i + 1));
        // First position whose key is strictly greater than the new key.
        let mut pos: usize = 0;
        while pos < out.len() && !lex_less(&keys[i], &keys[out_keys[pos]])
            invariant
                pos <= out@.len(),
                out@.len() == i,
                out_keys@.len() == i,
                i < n,
                n == keys@.len(),
                ks == keys@.map_values(|k: Vec<u32>| k@),
                forall|k: int| 0 <= k < i ==> #[trigger] out_keys@[k] == p[k],
                forall|k: int| 0 <= k < i ==> 0 <= #[trigger] p[k] < i,
                forall|k: int| 0 <= k < pos ==> !lex_lt(ks[i as int], #[trigger] ks[p[k]]),
            decreases out@.len() - pos,
        {
            pos = pos + 1;
        }
        proof {
            let pk = p;
            let np = pk.insert(pos as int, i as int);
            assert forall|a: int, b: int| 0 <= a < b < i + 1 implies
                key_before(ks[#[trigger] np[a]], np[a], ks[#[trigger] np[b]], np[b]) by {
                if b < pos {
                    assert(np[a] == pk[a] && np[b] == pk[b]);
                } else if a > pos {
                    assert(np[a] == pk[a - 1] && np[b] == pk[b - 1]);
                } else if a == pos {
                    // new element before an old one at or after pos
                    assert(np[a] == i);
                    assert(np[b] == pk[b - 1]);
                    assert(lex_lt(ks[i as int], ks[pk[pos as int]]));
                    if b - 1 > pos {
                        assert(key_before(ks[pk[pos as int]], pk[pos as int], ks[pk[b - 1]], pk[b - 1]));
                        lemma_before_trans(ks[i as int], i as int, ks[pk[pos as int]], pk[pos as int], ks[pk[b - 1]], pk[b - 1]);
                    }
                } else if b == pos {
                    assert(np[b] == i);
                    assert(np[a] == pk[a]);
                    assert(!lex_lt(ks[i as int], ks[pk[a]]));
                    lemma_lex_total(ks[i as int], ks[pk[a]]);
                } else {
                    // a < pos < b
                    assert(np[a] == pk[a] && np[b] == pk[b - 1]);
                }
            }
            p = np;
        }
        out.insert(pos, item);
        out_keys.insert(pos, i);
        i = i + 1;
    }
    assert(sorted_by_perm(out@, inp, ks, p));
    out
}

} // verus!
