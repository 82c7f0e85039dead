//! First-run setup of the session: the keyboard shortcut that opens the
//! launcher, declared among GNOME's custom keybindings through dconf.
//! Idempotent: running it again neither breaks nor duplicates anything,
//! and an existing keybinding is never overwritten.
use vstd::prelude::*;

use crate::text::{
    chars_of, concat, contains, contains_spec, decimal_digits, decimal_string, lemma_decimal_roundtrip, seq_eq,
    split_char, split_pieces, string_of, trim, trim_spec,
};
use vstd::string::StringExecFns;

verus! {

/// The key combination proposed for the launcher.
pub const DEFAULT_SHORTCUT: &'static str = "<Super>Return";

/// How the combination is shown to the user.
pub const DEFAULT_SHORTCUT_LABEL: &'static str = "Super + Entrée";

/// Where GNOME lists its custom keybindings.
pub const KEYBIND_ROOT: &'static str = "/org/gnome/settings-daemon/plugins/media-keys/custom-keybindings";

/// `s` without the characters of `cs` at its start.
pub open spec fn drop_leading_in(s: Seq<char>, cs: Seq<char>) -> Seq<char>
    decreases s.len(),
{
    if s.len() > 0 && cs.contains(s[0]) {
        drop_leading_in(s.drop_first(), cs)
    } else {
        s
    }
}

/// `s` without the characters of `cs` at its end.
pub open spec fn drop_trailing_in(s: Seq<char>, cs: Seq<char>) -> Seq<char>
    decreases s.len(),
{
    if s.len() > 0 && cs.contains(s.last()) {
        drop_trailing_in(s.drop_last(), cs)
    } else {
        s
    }
}

/// `str::trim_matches` with the characters of `cs`.
pub open spec fn strip_in(s: Seq<char>, cs: Seq<char>) -> Seq<char> {
    drop_trailing_in(drop_leading_in(s, cs), cs)
}

fn strip_exec(s: &Vec<char>, cs: &Vec<char>) -> (r: Vec<char>)
    ensures
        r@ == strip_in(s@, cs@),
{
    let mut start: usize = 0;
    assert(s@.skip(0) =~= s@);
    while start < s.len() && holds(cs, s[start])
        invariant
            start <= s@.len(),
            drop_leading_in(s@.skip(start as int), cs@) == drop_leading_in(s@, cs@),
        decreases s.len() - start,
    {
        assert(s@.skip(start as int).drop_first() =~= s@.skip(start + 1));
        start = start + 1;
    }
    let ghost l = s@.skip(start as int);
    let mut end: usize = s.len();
    assert(s@.subrange(start as int, end as int) =~= l);
    while end > start && holds(cs, s[end - 1])
        invariant
            start <= end <= s@.len(),
            drop_trailing_in(s@.subrange(start as int, end as int), cs@) == drop_trailing_in(l, cs@),
        decreases end,
    {
        assert(s@.subrange(start as int, end as int).drop_last() =~= s@.subrange(start as int, end - 1));
        end = end - 1;
    }
    let mut r: Vec<char> = Vec::new();
    let mut k: usize = start;
    while k < end
        invariant
            start <= k <= end,
            end <= s@.len(),
            r@ == s@.subrange(start as int, k as int),
        decreases end - k,
    {
        r.push(s[k]);
        k = k + 1;
        assert(r@ =~= s@.subrange(start as int, k as int));
    }
    r
}

fn holds(cs: &Vec<char>, c: char) -> (r: bool)
    ensures
        r == cs@.contains(c),
{
    let mut i: usize = 0;
    while i < cs.len()
        invariant
            i <= cs@.len(),
            forall|k: int| 0 <= k < i ==> cs@[k] != c,
        decreases cs.len() - i,
    {
        if cs[i] == c {
            assert(cs@[i as int] == c);
            return true;
        }
        i = i + 1;
    }
    false
}

/// The paths of a GVariant list of strings as dconf prints it:
/// `['/a/', '/b/']` gives `/a/` and `/b/`; an empty list (`[]`, `@as []`
/// or nothing) gives none.
pub open spec fn gvariant_list(s: Seq<char>) -> Seq<Seq<char>> {
    let t = trim_spec(s);
    if t.len() == 0 || t == "@as []"@ || t == "[]"@ {
        Seq::empty()
    } else {
        list_items(split_pieces(strip_in(t, seq!['[', ']']), ','))
    }
}

/// Each piece trimmed, its quotes removed; the empty ones dropped.
pub open spec fn list_items(pieces: Seq<Seq<char>>) -> Seq<Seq<char>>
    decreases pieces.len(),
{
    if pieces.len() == 0 {
        Seq::empty()
    } else {
        let front = list_items(pieces.drop_last());
        let p = strip_in(trim_spec(pieces.last()), seq!['\'']);
        if p.len() > 0 {
            front.push(p)
        } else {
            front
        }
    }
}

pub fn parse_gvariant_list(s: &str) -> (r: Vec<String>)
    ensures
        r@.map_values(|x: String| x@) == gvariant_list(s@),
{
    let t = trim(&chars_of(s));
    let at_empty = chars_of("@as []");
    let brackets_empty = chars_of("[]");
    if t.len() == 0 || seq_eq(&t, &at_empty) || seq_eq(&t, &brackets_empty) {
        let r: Vec<String> = Vec::new();
        assert(r@.map_values(|x: String| x@) =~= Seq::<Seq<char>>::empty());
        return r;
    }
    let mut brackets: Vec<char> = Vec::new();
    brackets.push('[');
    brackets.push(']');
    assert(brackets@ =~= seq!['[', ']']);
    let inner = string_of(&strip_exec(&t, &brackets));
    let pieces = split_char(inner.as_str(), ',');
    let ghost ps = split_pieces(inner@, ',');
    let mut quote: Vec<char> = Vec::new();
    quote.push('\'');
    assert(quote@ =~= seq!['\'']);
    let mut r: Vec<String> = Vec::new();
    let mut i: usize = 0;
    while i < pieces.len()
        invariant
            i <= pieces@.len(),
            pieces@.len() == ps.len(),
            forall|k: int| 0 <= k < pieces@.len() ==> #[trigger] pieces@[k]@ == ps[k],
            quote@ == seq!['\''],
            r@.map_values(|x: String| x@) == list_items(ps.take(i as int)),
        decreases pieces.len() - i,
    {
        assert(ps.take(i + 1).drop_last() =~= ps.take(i as int));
        assert(ps.take(i + 1).last() == ps[i as int]);
        let p = strip_exec(&trim(&chars_of(pieces[i].as_str())), &quote);
        if p.len() > 0 {
            let ghost before = r@.map_values(|x: String| x@);
            r.push(string_of(&p));
            assert(r@.map_values(|x: String| x@) =~= before.push(p@));
        }
        i = i + 1;
    }
    assert(ps.take(ps.len() as int) =~= ps);
    r
}

/// The path of the `n`-th custom keybinding.
pub open spec fn keybinding_path(n: nat) -> Seq<char> {
    KEYBIND_ROOT@ + "/custom"@ + decimal_digits(n) + "/"@
}

pub open spec fn listed(existing: Seq<String>, p: Seq<char>) -> bool {
    exists|i: int| 0 <= i < existing.len() && (#[trigger] existing[i])@ == p
}

/// The first custom keybinding path not listed yet.
pub open spec fn first_free(existing: Seq<String>, r: Seq<char>) -> bool {
    exists|n: nat|
        #![trigger keybinding_path(n)]
        r == keybinding_path(n) && !listed(existing, r) && forall|m: nat|
            m < n ==> listed(existing, #[trigger] keybinding_path(m))
}

proof fn lemma_paths_differ(m: nat, n: nat)
    requires
        m < n,
    ensures
        keybinding_path(m) != keybinding_path(n),
{
    lemma_decimal_roundtrip(m);
    lemma_decimal_roundtrip(n);
    let head = KEYBIND_ROOT@ + "/custom"@;
    if keybinding_path(m) == keybinding_path(n) {
        let a = decimal_digits(m);
        let b = decimal_digits(n);
        assert(keybinding_path(m) =~= head + (a + "/"@));
        assert(keybinding_path(n) =~= head + (b + "/"@));
        assert((head + (a + "/"@)).skip(head.len() as int) =~= a + "/"@);
        assert((head + (b + "/"@)).skip(head.len() as int) =~= b + "/"@);
        reveal_strlit("/");
        assert((a + "/"@).drop_last() =~= a);
        assert((b + "/"@).drop_last() =~= b);
    }
}

fn is_listed(existing: &Vec<String>, p: &Vec<char>) -> (r: bool)
    ensures
        r == listed(existing@, p@),
{
    let mut i: usize = 0;
    while i < existing.len()
        invariant
            i <= existing@.len(),
            forall|k: int| 0 <= k < i ==> (#[trigger] existing@[k])@ != p@,
        decreases existing.len() - i,
    {
        let e = chars_of(existing[i].as_str());
        if seq_eq(&e, p) {
            return true;
        }
        i = i + 1;
    }
    false
}

fn path_of(n: u64) -> (r: Vec<char>)
    ensures
        r@ == keybinding_path(n as nat),
{
    let root = chars_of(KEYBIND_ROOT);
    let custom = chars_of("/custom");
    let slash = chars_of("/");
    let a = concat(&root, &custom);
    let b = concat(&a, &decimal_string(n));
    concat(&b, &slash)
}

/// The path of a new custom keybinding: the first index whose path is not
/// listed, so that no listed path is ever reused.
pub fn free_keybinding(existing: &Vec<String>) -> (r: String)
    requires
        existing@.len() < u64::MAX,
    ensures
        first_free(existing@, r@),
{
    let mut n: u64 = 0;
    let mut cand = path_of(0);
    let ghost mut used: Set<int> = Set::empty();
    while is_listed(existing, &cand)
        invariant
            existing@.len() < u64::MAX,
            n <= existing@.len(),
            cand@ == keybinding_path(n as nat),
            used.finite(),
            used.len() == n,
            forall|k: int| #[trigger] used.contains(k) ==> 0 <= k < existing@.len(),
            forall|k: int|
                #[trigger] used.contains(k) ==> exists|m: nat| m < n && existing@[k]@ == #[trigger] keybinding_path(m),
            forall|m: nat| m < n ==> listed(existing@, #[trigger] keybinding_path(m)),
        decreases existing@.len() - n,
    {
        proof {
            let k = choose|k: int| 0 <= k < existing@.len() && (#[trigger] existing@[k])@ == cand@;
            if used.contains(k) {
                let m = choose|m: nat| m < n && existing@[k]@ == #[trigger] keybinding_path(m);
                lemma_paths_differ(m, n as nat);
            }
            let bigger = used.insert(k);
            assert forall|j: int| #[trigger] bigger.contains(j) implies vstd::set_lib::set_int_range(
                0,
                existing@.len() as int,
            ).contains(j) by {}
            vstd::set_lib::lemma_int_range(0, existing@.len() as int);
            vstd::set_lib::lemma_len_subset(bigger, vstd::set_lib::set_int_range(0, existing@.len() as int));
            assert forall|j: int| #[trigger] bigger.contains(j) implies exists|m: nat|
                m < n + 1 && existing@[j]@ == #[trigger] keybinding_path(m) by {
                if j == k {
                    assert(existing@[j]@ == keybinding_path(n as nat));
                } else {
                    let m = choose|m: nat| m < n && existing@[j]@ == #[trigger] keybinding_path(m);
                    assert(existing@[j]@ == keybinding_path(m));
                }
            }
            used = bigger;
        }
        n = n + 1;
        cand = path_of(n);
    }
    proof {
        assert(!listed(existing@, keybinding_path(n as nat)));
    }
    string_of(&cand)
}

/// The list literal dconf is given: each path quoted, `, ` between them,
/// in brackets.
pub open spec fn list_literal(paths: Seq<Seq<char>>) -> Seq<char> {
    "["@ + quoted_joined(paths) + "]"@
}

pub open spec fn quoted_joined(paths: Seq<Seq<char>>) -> Seq<char>
    decreases paths.len(),
{
    if paths.len() == 0 {
        Seq::empty()
    } else if paths.len() == 1 {
        "'"@ + paths[0] + "'"@
    } else {
        quoted_joined(paths.drop_last()) + ", "@ + "'"@ + paths.last() + "'"@
    }
}

fn literal(paths: &Vec<String>) -> (r: String)
    ensures
        r@ == list_literal(paths@.map_values(|p: String| p@)),
{
    let ghost ps = paths@.map_values(|p: String| p@);
    let mut body: Vec<char> = Vec::new();
    let quote = chars_of("'");
    let sep = chars_of(", ");
    let mut i: usize = 0;
    while i < paths.len()
        invariant
            i <= paths@.len(),
            ps == paths@.map_values(|p: String| p@),
            quote@ == "'"@,
            sep@ == ", "@,
            body@ == quoted_joined(ps.take(i as int)),
        decreases paths.len() - i,
    {
        assert(ps.take(i + 1).drop_last() =~= ps.take(i as int));
        let p = chars_of(paths[i].as_str());
        let q = concat(&concat(&quote, &p), &quote);
        if i == 0 {
            body = q;
            assert(ps.take(1)[0] == ps[0]);
        } else {
            body = concat(&concat(&body, &sep), &q);
            assert(body@ =~= quoted_joined(ps.take(i as int)) + ", "@ + "'"@ + ps[i as int] + "'"@);
        }
        i = i + 1;
    }
    assert(ps.take(ps.len() as int) =~= ps);
    let open_b = chars_of("[");
    let close_b = chars_of("]");
    string_of(&concat(&concat(&open_b, &body), &close_b))
}

/// A dconf write: a key and the GVariant text of its value.
#[derive(Debug, Clone)]
pub struct DconfWrite {
    pub key: String,
    pub value: String,
}

/// What installing the shortcut comes to, given the custom keybindings
/// already listed (`existing`) and, for each, its `command` and its
/// `binding` as dconf reads them: nothing when one of them already runs
/// the launcher; a refusal when the combination is taken by another; else
/// the writes that append a new keybinding (the list first, never
/// replacing an entry), named "Weft", running `/usr/bin/weft-launcher`.
pub open spec fn shortcut_outcome(
    existing: Seq<String>,
    commands: Seq<String>,
    bindings: Seq<String>,
    r: Result<Option<Vec<DconfWrite>>, String>,
) -> bool {
    if exists|i: int| 0 <= i < commands.len() && contains_spec((#[trigger] commands[i])@, "weft-launcher"@) {
        r matches Ok(None)
    } else if exists|i: int| 0 <= i < bindings.len() && (#[trigger] bindings[i])@ == DEFAULT_SHORTCUT@ {
        r matches Err(m) && m@ == DEFAULT_SHORTCUT_LABEL@ + " déjà utilisé — à régler à la main dans Paramètres"@
    } else {
        r matches Ok(Some(ws)) && ws@.len() == 4 && exists|p: Seq<char>| {
            &&& #[trigger] first_free(existing, p)
            &&& ws@[0].key@ == KEYBIND_ROOT@
            &&& ws@[0].value@ == list_literal(existing.map_values(|e: String| e@).push(p))
            &&& ws@[1].key@ == p + "name"@ && ws@[1].value@ == "'Weft'"@
            &&& ws@[2].key@ == p + "command"@ && ws@[2].value@ == "'/usr/bin/weft-launcher'"@
            &&& ws@[3].key@ == p + "binding"@ && ws@[3].value@ == "'"@ + DEFAULT_SHORTCUT@ + "'"@
        }
    }
}

fn any_contains(v: &Vec<String>, needle: &str) -> (r: bool)
    ensures
        r == exists|i: int| 0 <= i < v@.len() && contains_spec((#[trigger] v@[i])@, needle@),
{
    let n = chars_of(needle);
    let mut i: usize = 0;
    while i < v.len()
        invariant
            i <= v@.len(),
            n@ == needle@,
            forall|k: int| 0 <= k < i ==> !contains_spec((#[trigger] v@[k])@, needle@),
        decreases v.len() - i,
    {
        if contains(&chars_of(v[i].as_str()), &n) {
            return true;
        }
        i = i + 1;
    }
    false
}

fn any_equal(v: &Vec<String>, s: &str) -> (r: bool)
    ensures
        r == exists|i: int| 0 <= i < v@.len() && (#[trigger] v@[i])@ == s@,
{
    let t = chars_of(s);
    let mut i: usize = 0;
    while i < v.len()
        invariant
            i <= v@.len(),
            t@ == s@,
            forall|k: int| 0 <= k < i ==> (#[trigger] v@[k])@ != s@,
        decreases v.len() - i,
    {
        if seq_eq(&chars_of(v[i].as_str()), &t) {
            return true;
        }
        i = i + 1;
    }
    false
}

/// Whether the launcher's shortcut is already installed: one of the
/// listed keybindings runs it.
pub fn shortcut_installed(commands: &Vec<String>) -> (r: bool)
    ensures
        r == exists|i: int| 0 <= i < commands@.len() && contains_spec((#[trigger] commands@[i])@, "weft-launcher"@),
{
    any_contains(commands, "weft-launcher")
}

pub fn install_shortcut(existing: &Vec<String>, commands: &Vec<String>, bindings: &Vec<String>) -> (r: Result<
    Option<Vec<DconfWrite>>,
    String,
>)
    requires
        existing@.len() < u64::MAX,
    ensures
        shortcut_outcome(existing@, commands@, bindings@, r),
{
    if shortcut_installed(commands) {
        return Ok(None);
    }
    if any_equal(bindings, DEFAULT_SHORTCUT) {
        let mut m = String::from_str(DEFAULT_SHORTCUT_LABEL);
        m.append(" déjà utilisé — à régler à la main dans Paramètres");
        return Err(m);
    }
    let new_path = free_keybinding(existing);
    let mut list: Vec<String> = Vec::new();
    let mut i: usize = 0;
    while i < existing.len()
        invariant
            i <= existing@.len(),
            list@.map_values(|e: String| e@) == existing@.take(i as int).map_values(|e: String| e@),
        decreases existing.len() - i,
    {
        let ghost b = list@.map_values(|e: String| e@);
        list.push(existing[i].clone());
        assert(list@.map_values(|e: String| e@) =~= b.push(existing@[i as int]@));
        assert(existing@.take(i + 1).map_values(|e: String| e@) =~= existing@.take(i as int).map_values(
            |e: String| e@,
        ).push(existing@[i as int]@));
        i = i + 1;
    }
    assert(existing@.take(existing@.len() as int) =~= existing@);
    let ghost before = list@.map_values(|e: String| e@);
    list.push(new_path.clone());
    assert(list@.map_values(|e: String| e@) =~= before.push(new_path@));
    let mut writes: Vec<DconfWrite> = Vec::new();
    writes.push(DconfWrite { key: String::from_str(KEYBIND_ROOT), value: literal(&list) });
    let mut k1 = new_path.clone();
    k1.append("name");
    writes.push(DconfWrite { key: k1, value: String::from_str("'Weft'") });
    let mut k2 = new_path.clone();
    k2.append("command");
    writes.push(DconfWrite { key: k2, value: String::from_str("'/usr/bin/weft-launcher'") });
    let mut k3 = new_path.clone();
    k3.append("binding");
    let mut v3 = String::from_str("'");
    v3.append(DEFAULT_SHORTCUT);
    v3.append("'");
    writes.push(DconfWrite { key: k3, value: v3 });
    Ok(Some(writes))
}

} // verus!
