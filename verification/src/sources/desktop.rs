//! `.desktop` files: native apps, Flatpak exports, Wine and Steam
//! shortcuts.
//!
//! Every "classic" app of the machine comes through here. Wine is not a
//! separate scanner: a Wine shortcut IS a `.desktop` file, recognized by
//! its content and classified (field `source`) while parsing.
use vstd::prelude::*;

use crate::model::{AppEntry, Icon, LaunchSpec, Source};
use crate::path::{components, components_of, strip_prefix, strip_prefix_of};
use crate::providers::apps::{copy_strings, views};
use crate::text::{
    chars_of, concat, decimal_digits, decimal_string, find, is_whitespace, join_strings, joined_with,
    occurs_at, opt_text, parse_u32, parse_unsigned, split_char, split_pieces, split_whitespace, string_of,
    trim_start_spec, whitespace, words,
};
use vstd::string::StringExecFns;

verus! {

/// Whether `DesktopEntry::from_str` decodes the file `path` holding
/// `text`, with the locale filter `locales`.
pub uninterp spec fn desktop_decodes(path: Seq<char>, text: Seq<char>, locales: Seq<Seq<char>>) -> bool;

/// What `DesktopEntry::desktop_entry(key)` gives on that decoded file: the
/// key's unlocalized value in the `[Desktop Entry]` group.
pub uninterp spec fn desktop_key(path: Seq<char>, text: Seq<char>, locales: Seq<Seq<char>>, key: Seq<char>) -> Option<
    Seq<char>,
>;

/// The value of `key` for the first of `locales` (or, failing it, its
/// language before `_`) that the decoded file holds one for: the locale
/// loop of `desktop_entry_localized`. `None` when no locale matches.
pub uninterp spec fn desktop_locale_match(
    path: Seq<char>,
    text: Seq<char>,
    locales: Seq<Seq<char>>,
    key: Seq<char>,
) -> Option<Seq<char>>;

/// The translation domain the decoded file names
/// (`X-Ubuntu-Gettext-Domain`, the entry's `ubuntu_gettext_domain`).
pub uninterp spec fn desktop_domain(path: Seq<char>, text: Seq<char>, locales: Seq<Seq<char>>) -> Option<Seq<char>>;

/// What the localized lookup of `key` gives, as far as the file decides
/// it: nothing without the key; the first matching locale's value; the
/// plain value when no locale matches and the file names no translation
/// domain (with one, the system's translation of the plain value).
pub open spec fn localized_as(
    v: Option<Seq<char>>,
    path: Seq<char>,
    text: Seq<char>,
    locales: Seq<Seq<char>>,
    key: Seq<char>,
) -> bool {
    &&& (v is Some) == (desktop_key(path, text, locales, key) is Some)
    &&& desktop_key(path, text, locales, key) is Some ==> match desktop_locale_match(path, text, locales, key) {
        Some(m) => v == Some(m),
        None => desktop_domain(path, text, locales) is None ==> v == desktop_key(path, text, locales, key),
    }
}

/// `localized_as` for a list key: each value split at `;`.
pub open spec fn localized_list_as(
    v: Option<Seq<Seq<char>>>,
    path: Seq<char>,
    text: Seq<char>,
    locales: Seq<Seq<char>>,
    key: Seq<char>,
) -> bool {
    &&& (v is Some) == (desktop_key(path, text, locales, key) is Some)
    &&& desktop_key(path, text, locales, key) is Some ==> match desktop_locale_match(path, text, locales, key) {
        Some(m) => v == Some(split_pieces(m, ';')),
        None => desktop_domain(path, text, locales) is None ==> v == Some(
            split_pieces(desktop_key(path, text, locales, key).unwrap(), ';'),
        ),
    }
}

/// The localized texts `t` are what the file gives for `Name`, `Comment`
/// and `Keywords`.
pub open spec fn texts_of_file(t: DesktopTexts, path: Seq<char>, text: Seq<char>, locales: Seq<Seq<char>>) -> bool {
    &&& localized_as(opt_text(t.name), path, text, locales, "Name"@)
    &&& localized_as(opt_text(t.comment), path, text, locales, "Comment"@)
    &&& localized_list_as(opt_views(t.keywords), path, text, locales, "Keywords"@)
}

/// The localized keys of an entry the scanner reads.
#[derive(Debug, Clone)]
pub struct DesktopTexts {
    pub name: Option<String>,
    pub comment: Option<String>,
    pub keywords: Option<Vec<String>>,
}

/// Trusted: `DesktopEntry::from_str` with the locale filter, then
/// `desktop_entry` of each of `keys`, and the localized `name`, `comment`
/// and `keywords`. Decoding and the unlocalized values are named
/// (`desktop_decodes`, `desktop_key`); a localized value is the first
/// matching locale's, else the plain one. What is left unsaid: when no
/// locale matches and the file names a translation domain, the crate
/// asks the system's translations (gettext) for the value.
#[verifier::external_body]
fn decode(path: &str, text: &str, locales: &Vec<String>, keys: &Vec<&str>) -> (r: Option<(Vec<Option<String>>, DesktopTexts)>)
    ensures
        (r is Some) == desktop_decodes(path@, text@, views(locales@)),
        r matches Some(d) ==> d.0@.len() == keys@.len() && forall|i: int|
            0 <= i < keys@.len() ==> opt_text(#[trigger] d.0@[i]) == desktop_key(path@, text@, views(locales@), keys@[i]@),
        r matches Some(d) ==> texts_of_file(d.1, path@, text@, views(locales@)),
        r matches Some(d) ==> (desktop_locale_match(path@, text@, views(locales@), "Name"@) is None
            && desktop_domain(path@, text@, views(locales@)) is None ==> opt_text(d.1.name) == desktop_key(
            path@,
            text@,
            views(locales@),
            "Name"@,
        )),
{
    let e = freedesktop_desktop_entry::DesktopEntry::from_str(path, text, Some(locales.as_slice())).ok()?;
    let values = keys.iter().map(|k| e.desktop_entry(k).map(str::to_owned)).collect();
    let keywords = e.keywords(locales.as_slice()).map(|ks| ks.into_iter().map(|k| k.into_owned()).collect());
    let name = e.name(locales.as_slice()).map(|n| n.into_owned());
    Some((values, DesktopTexts { name, comment: e.comment(locales.as_slice()).map(|c| c.into_owned()), keywords }))
}

/// What `shell_words::split` returns for `s` (`None` on a quoting error).
pub uninterp spec fn shell_split(s: Seq<char>) -> Option<Seq<Seq<char>>>;

/// Trusted: `shell_words::split`; the result is named `shell_split(s)`.
#[verifier::external_body]
fn split_words(s: &str) -> (r: Option<Vec<String>>)
    ensures
        r matches Some(v) ==> shell_split(s@) == Some(views(v@)),
        r is None ==> shell_split(s@) is None,
{
    shell_words::split(s).ok()
}

/// The fields of a `.desktop` entry the scanner reads, as plain values.
#[derive(Debug, Clone)]
pub struct DesktopFields {
    pub type_: Option<String>,
    pub no_display: bool,
    pub hidden: bool,
    pub not_show_in: Option<Vec<String>>,
    pub only_show_in: Option<Vec<String>>,
    pub terminal: bool,
    pub exec_line: Option<String>,
    pub name: Option<String>,
    pub icon: Option<String>,
    pub keywords: Option<Vec<String>>,
    pub comment: Option<String>,
    pub flatpak: Option<String>,
}

pub struct DesktopScanner {
    /// `applications/` directories, most important first (the user
    /// overrides the system, as the specification wants).
    dirs: Vec<String>,
    locales: Vec<String>,
    /// XDG_CURRENT_DESKTOP, for OnlyShowIn/NotShowIn.
    current_desktop: Vec<String>,
}

/// A `.desktop` file found under one of the scanner's directories, with
/// its text (`None` when it could not be read).
#[derive(Debug, Clone)]
pub struct DesktopFile {
    pub dir: String,
    pub path: String,
    pub text: Option<String>,
}

// ------------------------------------------------------------------ //
// Exec lines                                                          //
// ------------------------------------------------------------------ //

/// An Exec line without its field codes: `%%` is a literal `%`, any other
/// `%x` (and a trailing `%`) is dropped.
pub open spec fn strip_field_codes(s: Seq<char>) -> Seq<char>
    decreases s.len(),
{
    if s.len() == 0 {
        Seq::empty()
    } else if s[0] == '%' {
        if s.len() >= 2 {
            if s[1] == '%' {
                seq!['%'] + strip_field_codes(s.skip(2))
            } else {
                strip_field_codes(s.skip(2))
            }
        } else {
            Seq::empty()
        }
    } else {
        seq![s[0]] + strip_field_codes(s.skip(1))
    }
}

/// Field codes and nothing else go: an Exec line without `%` is kept as it
/// is; a `%` followed by another character drops both; `%%` leaves one
/// `%`; what follows is cleaned the same way.
pub proof fn lemma_field_codes(s: Seq<char>, c: char, t: Seq<char>)
    ensures
        (forall|i: int| 0 <= i < s.len() ==> #[trigger] s[i] != '%') ==> strip_field_codes(s) == s,
        c != '%' ==> strip_field_codes(seq!['%', c] + t) == strip_field_codes(t),
        strip_field_codes(seq!['%', '%'] + t) == seq!['%'] + strip_field_codes(t),
        strip_field_codes(seq![c] + t) == (if c == '%' { strip_field_codes(seq!['%'] + t) } else { seq![c] + strip_field_codes(t) }),
    decreases s.len(),
{
    assert((seq!['%', c] + t).skip(2) =~= t);
    assert((seq!['%', '%'] + t).skip(2) =~= t);
    assert((seq![c] + t).skip(1) =~= t);
    if s.len() > 0 && (forall|i: int| 0 <= i < s.len() ==> #[trigger] s[i] != '%') {
        lemma_field_codes(s.skip(1), c, t);
        assert forall|i: int| 0 <= i < s.skip(1).len() implies #[trigger] s.skip(1)[i] != '%' by {
            assert(s.skip(1)[i] == s[i + 1]);
        }
        assert(s =~= seq![s[0]] + s.skip(1));
    }
}

/// The argv of an Exec line: field codes removed, then split by the shell
/// quoting rules; `None` when quoting is broken or nothing is left.
pub open spec fn clean_exec_spec(exec: Seq<char>) -> Option<Seq<Seq<char>>> {
    match shell_split(strip_field_codes(exec)) {
        Some(argv) => if argv.len() > 0 {
            Some(argv)
        } else {
            None
        },
        None => None,
    }
}

pub fn clean_exec(exec: &str) -> (r: Option<Vec<String>>)
    ensures
        r matches Some(v) ==> clean_exec_spec(exec@) == Some(views(v@)),
        r is None ==> clean_exec_spec(exec@) is None,
{
    let s = chars_of(exec);
    let mut out: Vec<char> = Vec::new();
    let mut i: usize = 0;
    assert(s@.skip(0) =~= s@);
    while i < s.len()
        invariant
            i <= s@.len(),
            out@ + strip_field_codes(s@.skip(i as int)) == strip_field_codes(s@),
        decreases s@.len() - i,
    {
        let ghost rest = s@.skip(i as int);
        if s[i] == '%' {
            if i + 1 < s.len() {
                if s[i + 1] == '%' {
                    out.push('%');
                }
                assert(rest.skip(2) =~= s@.skip(i + 2));
                proof {
                    if s@[i + 1] == '%' {
                        assert(out@ + strip_field_codes(s@.skip(i + 2)) =~= out@.drop_last() + (seq!['%'] + strip_field_codes(rest.skip(2))));
                    }
                }
                i = i + 2;
            } else {
                i = i + 1;
                assert(s@.skip(i as int) =~= Seq::<char>::empty());
            }
        } else {
            out.push(s[i]);
            assert(rest.skip(1) =~= s@.skip(i + 1));
            assert(out@ + strip_field_codes(s@.skip(i + 1)) =~= out@.drop_last() + (seq![s@[i as int]] + strip_field_codes(rest.skip(1))));
            i = i + 1;
        }
    }
    assert(out@ + Seq::<char>::empty() =~= out@);
    let cleaned = string_of(&out);
    match split_words(cleaned.as_str()) {
        Some(argv) => {
            if argv.len() == 0 {
                None
            } else {
                Some(argv)
            }
        },
        None => None,
    }
}

pub open spec fn steam_marker() -> Seq<char> {
    "steam://rungameid/"@
}

/// Leading ASCII digits of `s`.
pub open spec fn leading_digits(s: Seq<char>) -> Seq<char>
    decreases s.len(),
{
    if s.len() > 0 && '0' <= s[0] && s[0] <= '9' {
        seq![s[0]] + leading_digits(s.drop_first())
    } else {
        Seq::empty()
    }
}

/// First occurrence of `needle` in `hay`.
pub open spec fn first_occurrence(hay: Seq<char>, needle: Seq<char>) -> Option<int> {
    if exists|i: int| occurs_at(hay, needle, i) {
        Some(choose|i: int| occurs_at(hay, needle, i) && forall|j: int| 0 <= j < i ==> !occurs_at(hay, needle, j))
    } else {
        None
    }
}

/// App id of a Steam shortcut's Exec (`steam://rungameid/620`): the digits
/// after the first marker, as a `u32`.
pub open spec fn steam_id_spec(exec: Seq<char>) -> Option<u32> {
    match first_occurrence(exec, steam_marker()) {
        Some(i) => match parse_unsigned(leading_digits(exec.skip(i + 18)), u32::MAX as nat) {
            Some(v) => Some(v as u32),
            None => None,
        },
        None => None,
    }
}

proof fn lemma_first_occurrence(hay: Seq<char>, needle: Seq<char>, i: int)
    requires
        occurs_at(hay, needle, i),
        forall|j: int| 0 <= j < i ==> !occurs_at(hay, needle, j),
    ensures
        first_occurrence(hay, needle) == Some(i),
{
    let k = choose|k: int| occurs_at(hay, needle, k) && forall|j: int| 0 <= j < k ==> !occurs_at(hay, needle, j);
    assert(occurs_at(hay, needle, k));
    if k < i {
        assert(!occurs_at(hay, needle, k));
    }
    if i < k {
        assert(!occurs_at(hay, needle, i));
    }
}

proof fn lemma_leading_digits_all(s: Seq<char>)
    ensures
        forall|k: int| 0 <= k < leading_digits(s).len() ==> '0' <= #[trigger] leading_digits(s)[k] && leading_digits(s)[k] <= '9',
        leading_digits(s).len() <= s.len(),
    decreases s.len(),
{
    if s.len() > 0 && '0' <= s[0] && s[0] <= '9' {
        lemma_leading_digits_all(s.drop_first());
    }
}

/// Extracts the app id of a Steam shortcut (`steam://rungameid/620`).
pub fn steam_rungameid(exec: &str) -> (r: Option<u32>)
    ensures
        r == steam_id_spec(exec@),
{
    proof {
        reveal_strlit("steam://rungameid/");
    }
    let s = chars_of(exec);
    let marker = chars_of("steam://rungameid/");
    let idx = match find(&s, &marker) {
        Some(i) => i,
        None => {
            assert(first_occurrence(s@, steam_marker()) is None);
            return None;
        },
    };
    proof {
        lemma_first_occurrence(s@, steam_marker(), idx as int);
    }
    assert(occurs_at(s@, marker@, idx as int));
    let slen = s.len();
    let mlen = marker.len();
    assert(idx + mlen <= slen);
    let start: usize = idx + mlen;
    let mut digits: Vec<char> = Vec::new();
    let mut k: usize = start;
    let ghost rest = s@.skip(start as int);
    assert(rest.skip(0) =~= rest);
    while k < s.len() && '0' <= s[k] && s[k] <= '9'
        invariant
            start <= k <= s@.len(),
            rest == s@.skip(start as int),
            digits@ + leading_digits(s@.skip(k as int)) == leading_digits(rest),
        decreases s@.len() - k,
    {
        assert(s@.skip(k as int).drop_first() =~= s@.skip(k + 1));
        digits.push(s[k]);
        k = k + 1;
        assert(digits@ + leading_digits(s@.skip(k as int)) =~= digits@.drop_last() + (seq![s@[k - 1]] + leading_digits(s@.skip(k as int))));
    }
    assert(leading_digits(s@.skip(k as int)) =~= Seq::<char>::empty());
    assert(digits@ =~= leading_digits(rest));
    match parse_u32(&digits) {
        Some(v) => Some(v),
        None => None,
    }
}

// ------------------------------------------------------------------ //
// Classification                                                      //
// ------------------------------------------------------------------ //

/// `OsStr::eq_ignore_ascii_case(c, "wine")`.
pub open spec fn is_wine_word(c: Seq<char>) -> bool {
    &&& c.len() == 4
    &&& (c[0] == 'w' || c[0] == 'W')
    &&& (c[1] == 'i' || c[1] == 'I')
    &&& (c[2] == 'n' || c[2] == 'N')
    &&& (c[3] == 'e' || c[3] == 'E')
}

/// Text after the last `/` of a token (the whole token without one).
pub open spec fn last_segment(t: Seq<char>) -> Seq<char>
    decreases t.len(),
{
    if t.len() == 0 {
        t
    } else if t.last() == '/' {
        Seq::empty()
    } else {
        last_segment(t.drop_last()).push(t.last())
    }
}

pub open spec fn wine_binary(t: Seq<char>) -> bool {
    let b = last_segment(t);
    b == "wine"@ || b == "wine64"@
}

/// Source of a non-Steam `.desktop` app: Flatpak when exported by Flatpak
/// or run through `flatpak `, Wine when under a `wine` directory or run
/// through Wine, native otherwise.
pub open spec fn classify_spec(flatpak: bool, exec: Seq<char>, path: Seq<char>) -> Source {
    if flatpak || "flatpak "@.is_prefix_of(trim_start_spec(exec)) {
        Source::Flatpak
    } else if (exists|i: int| 0 <= i < components_of(path).len() && is_wine_word(#[trigger] components_of(path)[i]))
        || crate::text::contains_spec(exec, "WINEPREFIX"@)
        || (exists|i: int| 0 <= i < words(exec).len() && wine_binary(#[trigger] words(exec)[i])) {
        Source::Wine
    } else {
        Source::Native
    }
}

/// Where an app comes from: anything Flatpak exports or runs through
/// `flatpak ` is a Flatpak; otherwise a path under a `wine` directory (any
/// letter case), an Exec line naming WINEPREFIX or a `wine`/`wine64`
/// binary makes it a Wine app; anything else is native.
pub proof fn lemma_classify(flatpak: bool, exec: Seq<char>, path: Seq<char>, i: int)
    ensures
        flatpak ==> classify_spec(flatpak, exec, path) == Source::Flatpak,
        "flatpak "@.is_prefix_of(trim_start_spec(exec)) ==> classify_spec(flatpak, exec, path) == Source::Flatpak,
        !flatpak && !"flatpak "@.is_prefix_of(trim_start_spec(exec)) && 0 <= i < components_of(path).len()
            && components_of(path)[i] =~= seq!['w', 'i', 'n', 'e'] ==> classify_spec(flatpak, exec, path)
            == Source::Wine,
        !flatpak && !"flatpak "@.is_prefix_of(trim_start_spec(exec)) && 0 <= i && i + 10 <= exec.len()
            && exec.subrange(i, i + 10) == "WINEPREFIX"@ ==> classify_spec(flatpak, exec, path) == Source::Wine,
        classify_spec(flatpak, exec, path) != Source::Steam,
{
    if 0 <= i && i + 10 <= exec.len() && exec.subrange(i, i + 10) == "WINEPREFIX"@ {
        assert(crate::text::occurs_at(exec, "WINEPREFIX"@, i));
    }
    if 0 <= i < components_of(path).len() && components_of(path)[i] =~= seq!['w', 'i', 'n', 'e'] {
        assert(is_wine_word(components_of(path)[i]));
    }
}

fn eq_literal(s: &Vec<char>, lit: &str) -> (r: bool)
    ensures
        r == (s@ == lit@),
{
    let l = chars_of(lit);
    crate::text::seq_eq(s, &l)
}

fn is_wine_component(c: &String) -> (r: bool)
    ensures
        r == is_wine_word(c@),
{
    let s = chars_of(c.as_str());
    if s.len() != 4 {
        return false;
    }
    (s[0] == 'w' || s[0] == 'W') && (s[1] == 'i' || s[1] == 'I') && (s[2] == 'n' || s[2] == 'N') && (s[3] == 'e'
        || s[3] == 'E')
}

fn last_segment_exec(t: &Vec<char>) -> (r: Vec<char>)
    ensures
        r@ == last_segment(t@),
{
    let mut r: Vec<char> = Vec::new();
    let mut i: usize = 0;
    while i < t.len()
        invariant
            i <= t@.len(),
            r@ == last_segment(t@.take(i as int)),
        decreases t@.len() - i,
    {
        assert(t@.take(i + 1).drop_last() =~= t@.take(i as int));
        if t[i] == '/' {
            r = Vec::new();
        } else {
            r.push(t[i]);
        }
        i = i + 1;
    }
    assert(t@.take(t@.len() as int) =~= t@);
    r
}

fn trim_start(s: &Vec<char>) -> (r: Vec<char>)
    ensures
        r@ == trim_start_spec(s@),
{
    let mut lo: usize = 0;
    assert(s@.skip(0) =~= s@);
    while lo < s.len() && whitespace(s[lo])
        invariant
            lo <= s@.len(),
            trim_start_spec(s@) == trim_start_spec(s@.skip(lo as int)),
        decreases s@.len() - lo,
    {
        assert(s@.skip(lo as int).drop_first() =~= s@.skip(lo + 1));
        lo = lo + 1;
    }
    let mut r: Vec<char> = Vec::new();
    let mut k: usize = lo;
    while k < s.len()
        invariant
            lo <= k <= s@.len(),
            r@ == s@.subrange(lo as int, k as int),
        decreases s@.len() - k,
    {
        r.push(s[k]);
        k = k + 1;
        assert(r@ =~= s@.subrange(lo as int, k as int));
    }
    assert(r@ =~= s@.skip(lo as int));
    r
}

pub fn classify(flatpak: bool, exec: &str, path: &str) -> (r: Source)
    ensures
        r == classify_spec(flatpak, exec@, path@),
{
    proof {
        reveal_strlit("flatpak ");
        reveal_strlit("WINEPREFIX");
        reveal_strlit("wine");
        reveal_strlit("wine64");
    }
    let e = chars_of(exec);
    let fp = chars_of("flatpak ");
    if flatpak || crate::text::starts_with(&trim_start(&e), &fp) {
        return Source::Flatpak;
    }
    let comps = components(path);
    let mut in_wine_dir = false;
    let mut i: usize = 0;
    while i < comps.len()
        invariant
            i <= comps@.len(),
            comps@.len() == components_of(path@).len(),
            forall|k: int| 0 <= k < comps@.len() ==> #[trigger] comps@[k]@ == components_of(path@)[k],
            in_wine_dir == exists|k: int| 0 <= k < i && is_wine_word(#[trigger] components_of(path@)[k]),
        decreases comps@.len() - i,
    {
        if is_wine_component(&comps[i]) {
            in_wine_dir = true;
        }
        i = i + 1;
    }
    let prefix_word = chars_of("WINEPREFIX");
    let mut wine_exec = crate::text::contains(&e, &prefix_word);
    let toks = split_whitespace(&e);
    let mut j: usize = 0;
    let mut wine_bin = false;
    while j < toks.len()
        invariant
            j <= toks@.len(),
            toks@.len() == words(e@).len(),
            forall|k: int| 0 <= k < toks@.len() ==> #[trigger] toks@[k]@ == words(e@)[k],
            wine_bin == exists|k: int| 0 <= k < j && wine_binary(#[trigger] words(e@)[k]),
        decreases toks@.len() - j,
    {
        let b = last_segment_exec(&toks[j]);
        if eq_literal(&b, "wine") || eq_literal(&b, "wine64") {
            wine_bin = true;
        }
        j = j + 1;
    }
    if in_wine_dir || wine_exec || wine_bin {
        return Source::Wine;
    }
    Source::Native
}

// ------------------------------------------------------------------ //
// Files                                                               //
// ------------------------------------------------------------------ //

/// `s` without all its trailing `suffix` repeats (`str::trim_end_matches`).
pub open spec fn trim_suffix_all(s: Seq<char>, suffix: Seq<char>) -> Seq<char>
    decreases s.len(),
{
    if suffix.len() > 0 && suffix.len() <= s.len() && s.subrange(s.len() - suffix.len(), s.len() as int) == suffix {
        trim_suffix_all(s.subrange(0, s.len() - suffix.len()), suffix)
    } else {
        s
    }
}

/// Desktop file id: path relative to the `applications/` directory,
/// separators replaced by `-`.
pub open spec fn file_id_spec(path: Seq<char>, dir: Seq<char>) -> Seq<char> {
    let rel = match strip_prefix_of(path, dir) {
        Some(r) => r,
        None => path,
    };
    joined_with(components_of(rel), "-"@)
}

pub fn desktop_file_id(path: &str, dir: &str) -> (r: String)
    ensures
        r@ == file_id_spec(path@, dir@),
{
    let rel = match strip_prefix(path, dir) {
        Some(r) => r,
        None => string_of(&chars_of(path)),
    };
    let comps = components(rel.as_str());
    assert(comps@.map_values(|p: String| p@) =~= components_of(rel@));
    string_of(&join_strings(&comps, "-"))
}

fn trim_desktop_suffix(s: &Vec<char>) -> (r: Vec<char>)
    ensures
        r@ == trim_suffix_all(s@, ".desktop"@),
    decreases s@.len(),
{
    proof {
        reveal_strlit(".desktop");
    }
    let suf = chars_of(".desktop");
    if suf.len() <= s.len() {
        let start = s.len() - suf.len();
        let mut tail: Vec<char> = Vec::new();
        let mut head: Vec<char> = Vec::new();
        let mut k: usize = 0;
        while k < s.len()
            invariant
                k <= s@.len(),
                start == s@.len() - suf@.len(),
                head@ == s@.subrange(0, if k < start { k as int } else { start as int }),
                tail@ == s@.subrange(start as int, if k < start { start as int } else { k as int }),
            decreases s@.len() - k,
        {
            if k < start {
                head.push(s[k]);
            } else {
                tail.push(s[k]);
            }
            k = k + 1;
            assert(head@ =~= s@.subrange(0, if k < start { k as int } else { start as int }));
            assert(tail@ =~= s@.subrange(start as int, if k < start { start as int } else { k as int }));
        }
        if crate::text::seq_eq(&tail, &suf) {
            return trim_desktop_suffix(&head);
        }
    }
    let mut r: Vec<char> = Vec::new();
    let mut k: usize = 0;
    while k < s.len()
        invariant
            k <= s@.len(),
            r@ == s@.take(k as int),
        decreases s@.len() - k,
    {
        r.push(s[k]);
        k = k + 1;
        assert(r@ =~= s@.take(k as int));
    }
    assert(s@.take(s@.len() as int) =~= s@);
    r
}

/// Some item of `xs` is one of `ys`.
pub open spec fn any_shared(xs: Seq<String>, ys: Seq<String>) -> bool {
    exists|i: int, j: int| 0 <= i < xs.len() && 0 <= j < ys.len() && xs[i]@ == ys[j]@
}

/// Visibility filters of the freedesktop specification, plus: terminal
/// apps are left out (they need a terminal emulator), and an entry without
/// Exec has nothing to launch.
pub open spec fn visible(f: DesktopFields, desktop: Seq<String>) -> bool {
    &&& f.type_ matches Some(t) && t@ == "Application"@
    &&& !f.no_display
    &&& !f.hidden
    &&& (f.not_show_in matches Some(ns) ==> !any_shared(ns@, desktop))
    &&& (f.only_show_in matches Some(os) ==> any_shared(os@, desktop))
    &&& !f.terminal
    &&& f.exec_line is Some
}

/// Icon of an entry: a file when the value is an absolute path, a themed
/// name otherwise.
pub open spec fn icon_matches(icon: Option<Icon>, value: Option<String>) -> bool {
    match value {
        Some(v) => if v@.len() > 0 && v@[0] == '/' {
            icon matches Some(Icon::Path(p)) && p@ == v@
        } else {
            icon matches Some(Icon::Named(n)) && n@ == v@
        },
        None => icon is None,
    }
}

/// `r` is what the file `path` (under `dir`) with fields `f` gives: its
/// desktop file id and its entry, or `None` when it is not shown.
pub open spec fn entry_of_fields(
    r: Option<(String, AppEntry)>,
    f: DesktopFields,
    path: Seq<char>,
    dir: Seq<char>,
    desktop: Seq<String>,
) -> bool {
    if !visible(f, desktop) {
        r is None
    } else {
        let exec = f.exec_line.unwrap()@;
        let fid = file_id_spec(path, dir);
        match steam_id_spec(exec) {
            Some(app_id) => (r matches Some((id, e)) && id@ == fid && e.id@ == "steam:"@ + decimal_digits(app_id as nat)
                && e.launch == LaunchSpec::SteamApp(app_id) && e.source == Source::Steam && entry_common(e, f, fid)),
            None => match clean_exec_spec(exec) {
                Some(argv) => (r matches Some((id, e)) && id@ == fid && e.id@ == "desktop:"@ + fid
                    && e.launch is Exec && views(e.launch->Exec_0@) == argv
                    && e.source == classify_spec(f.flatpak is Some, exec, path) && entry_common(e, f, fid)),
                None => r is None,
            },
        }
    }
}

/// The freedesktop visibility filters, whatever else the entry holds: an
/// entry whose NotShowIn lists one of the current desktops, whose
/// OnlyShowIn lists none of them, that is NoDisplay, Hidden or a terminal
/// app, that is not of Type Application, or that has no Exec gives no app.
pub proof fn lemma_filtered_entries_are_not_shown(
    r: Option<(String, AppEntry)>,
    f: DesktopFields,
    path: Seq<char>,
    dir: Seq<char>,
    desktop: Seq<String>,
    i: int,
    j: int,
)
    requires
        entry_of_fields(r, f, path, dir, desktop),
    ensures
        f.not_show_in matches Some(ns) && 0 <= i < ns@.len() && 0 <= j < desktop.len() && ns@[i]@ == desktop[j]@
            ==> r is None,
        (f.only_show_in matches Some(os) && forall|a: int, b: int|
            0 <= a < os@.len() && 0 <= b < desktop.len() ==> #[trigger] os@[a]@ != #[trigger] desktop[b]@) ==> r is None,
        f.no_display ==> r is None,
        f.hidden ==> r is None,
        f.terminal ==> r is None,
        !(f.type_ matches Some(t) && t@ == "Application"@) ==> r is None,
        f.exec_line is None ==> r is None,
{
}

/// Name (or the file id without `.desktop`), comment, icon and keywords.
pub open spec fn entry_common(e: AppEntry, f: DesktopFields, fid: Seq<char>) -> bool {
    &&& e.name@ == (match f.name {
        Some(n) => n@,
        None => trim_suffix_all(fid, ".desktop"@),
    })
    &&& e.description == f.comment
    &&& icon_matches(e.icon, f.icon)
    &&& e.keywords@ == (match f.keywords {
        Some(ks) => ks@,
        None => Seq::<String>::empty(),
    })
}

fn shares_item(xs: &Vec<String>, ys: &Vec<String>) -> (r: bool)
    ensures
        r == any_shared(xs@, ys@),
{
    let mut i: usize = 0;
    while i < xs.len()
        invariant
            i <= xs@.len(),
            forall|a: int, b: int| 0 <= a < i && 0 <= b < ys@.len() ==> xs@[a]@ != ys@[b]@,
        decreases xs@.len() - i,
    {
        let x = chars_of(xs[i].as_str());
        let mut j: usize = 0;
        while j < ys.len()
            invariant
                j <= ys@.len(),
                i < xs@.len(),
                x@ == xs@[i as int]@,
                forall|b: int| 0 <= b < j ==> xs@[i as int]@ != ys@[b]@,
            decreases ys@.len() - j,
        {
            let y = chars_of(ys[j].as_str());
            if crate::text::seq_eq(&x, &y) {
                assert(xs@[i as int]@ == ys@[j as int]@);
                return true;
            }
            j = j + 1;
        }
        i = i + 1;
    }
    false
}

fn copy_opt(s: &Option<String>) -> (r: Option<String>)
    ensures
        r == *s,
{
    match s {
        Some(x) => Some(x.clone()),
        None => None,
    }
}

fn is_application(t: &Option<String>) -> (r: bool)
    ensures
        r == (t matches Some(v) && v@ == "Application"@),
{
    match t {
        Some(v) => eq_literal(&chars_of(v.as_str()), "Application"),
        None => false,
    }
}

fn to_icon(value: &Option<String>) -> (r: Option<Icon>)
    ensures
        icon_matches(r, *value),
{
    match value {
        Some(v) => {
            let c = chars_of(v.as_str());
            if c.len() > 0 && c[0] == '/' {
                Some(Icon::Path(v.clone()))
            } else {
                Some(Icon::Named(v.clone()))
            }
        },
        None => None,
    }
}

/// A flag key: set when its value is `true`.
pub open spec fn is_true(v: Option<Seq<char>>) -> bool {
    v == Some("true"@)
}

/// A list key: its value split at each `;`.
pub open spec fn split_list(v: Option<Seq<char>>) -> Option<Seq<Seq<char>>> {
    match v {
        Some(s) => Some(split_pieces(s, ';')),
        None => None,
    }
}

pub open spec fn opt_views(o: Option<Vec<String>>) -> Option<Seq<Seq<char>>> {
    match o {
        Some(v) => Some(views(v@)),
        None => None,
    }
}

/// `f` holds the keys of the file `path` (its text `text`, read with the
/// locales `locales`), and the localized texts `t`.
pub open spec fn fields_of_file(
    f: DesktopFields,
    path: Seq<char>,
    text: Seq<char>,
    locales: Seq<Seq<char>>,
    t: DesktopTexts,
) -> bool {
    &&& opt_text(f.type_) == desktop_key(path, text, locales, "Type"@)
    &&& f.no_display == is_true(desktop_key(path, text, locales, "NoDisplay"@))
    &&& f.hidden == is_true(desktop_key(path, text, locales, "Hidden"@))
    &&& opt_views(f.not_show_in) == split_list(desktop_key(path, text, locales, "NotShowIn"@))
    &&& opt_views(f.only_show_in) == split_list(desktop_key(path, text, locales, "OnlyShowIn"@))
    &&& f.terminal == is_true(desktop_key(path, text, locales, "Terminal"@))
    &&& opt_text(f.exec_line) == desktop_key(path, text, locales, "Exec"@)
    &&& opt_text(f.icon) == desktop_key(path, text, locales, "Icon"@)
    &&& opt_text(f.flatpak) == desktop_key(path, text, locales, "X-Flatpak"@)
    &&& f.name == t.name
    &&& f.comment == t.comment
    &&& f.keywords == t.keywords
}

fn flag(v: &Option<String>) -> (r: bool)
    ensures
        r == is_true(opt_text(*v)),
{
    match v {
        Some(s) => eq_literal(&chars_of(s.as_str()), "true"),
        None => false,
    }
}

fn list(v: &Option<String>) -> (r: Option<Vec<String>>)
    ensures
        opt_views(r) == split_list(opt_text(*v)),
{
    match v {
        Some(s) => {
            let parts = split_char(s.as_str(), ';');
            assert(views(parts@) =~= split_pieces(s@, ';'));
            Some(parts)
        },
        None => None,
    }
}

/// The fields from the values of the keys `Type`, `NoDisplay`, `Hidden`,
/// `NotShowIn`, `OnlyShowIn`, `Terminal`, `Exec`, `Icon`, `X-Flatpak` (in
/// that order) and the localized texts.
fn fields_from(values: &Vec<Option<String>>, texts: DesktopTexts) -> (f: DesktopFields)
    requires
        values@.len() == 9,
    ensures
        opt_text(f.type_) == opt_text(values@[0]),
        f.no_display == is_true(opt_text(values@[1])),
        f.hidden == is_true(opt_text(values@[2])),
        opt_views(f.not_show_in) == split_list(opt_text(values@[3])),
        opt_views(f.only_show_in) == split_list(opt_text(values@[4])),
        f.terminal == is_true(opt_text(values@[5])),
        opt_text(f.exec_line) == opt_text(values@[6]),
        opt_text(f.icon) == opt_text(values@[7]),
        opt_text(f.flatpak) == opt_text(values@[8]),
        f.name == texts.name,
        f.comment == texts.comment,
        f.keywords == texts.keywords,
{
    DesktopFields {
        type_: copy_opt(&values[0]),
        no_display: flag(&values[1]),
        hidden: flag(&values[2]),
        not_show_in: list(&values[3]),
        only_show_in: list(&values[4]),
        terminal: flag(&values[5]),
        exec_line: copy_opt(&values[6]),
        name: texts.name,
        icon: copy_opt(&values[7]),
        keywords: texts.keywords,
        comment: texts.comment,
        flatpak: copy_opt(&values[8]),
    }
}

pub open spec fn has_file_id(p: Option<(String, AppEntry)>, fid: Seq<char>) -> bool {
    p matches Some((f, _)) && f@ == fid
}

/// Keeps the first entry of each desktop file id, in order of first
/// appearance.
pub open spec fn first_by_file_id(parsed: Seq<Option<(String, AppEntry)>>) -> Seq<AppEntry>
    decreases parsed.len(),
{
    if parsed.len() == 0 {
        Seq::empty()
    } else {
        let r = first_by_file_id(parsed.drop_last());
        match parsed.last() {
            Some((fid, e)) => if exists|k: int|
                0 <= k < parsed.len() - 1 && has_file_id(#[trigger] parsed[k], fid@) {
                r
            } else {
                r.push(e)
            },
            None => r,
        }
    }
}

/// The first file with a given desktop file id wins (the user's directory
/// is scanned before the system's): the entry of the first occurrence of
/// every id is kept, and every entry kept is the first occurrence of its
/// id, so an entry shadowed by an earlier file of the same id is dropped.
pub proof fn lemma_first_file_id_wins(parsed: Seq<Option<(String, AppEntry)>>, i: int)
    ensures
        0 <= i < parsed.len() && parsed[i] is Some && (forall|k: int|
            0 <= k < i ==> !has_file_id(#[trigger] parsed[k], parsed[i].unwrap().0@)) ==> first_by_file_id(
            parsed,
        ).contains(parsed[i].unwrap().1),
        forall|x: AppEntry|
            #[trigger] first_by_file_id(parsed).contains(x) ==> exists|j: int|
                0 <= j < parsed.len() && parsed[j] is Some && parsed[j].unwrap().1 == x && (forall|k: int|
                    0 <= k < j ==> !has_file_id(#[trigger] parsed[k], parsed[j].unwrap().0@)),
    decreases parsed.len(),
{
    if parsed.len() > 0 {
        let init = parsed.drop_last();
        let r = first_by_file_id(init);
        lemma_first_file_id_wins(init, i);
        assert forall|k: int| 0 <= k < init.len() implies init[k] == parsed[k] by {}
        if 0 <= i < parsed.len() && parsed[i] is Some && (forall|k: int|
            0 <= k < i ==> !has_file_id(#[trigger] parsed[k], parsed[i].unwrap().0@)) {
            if i < parsed.len() - 1 {
                assert(r.contains(parsed[i].unwrap().1));
                let res = first_by_file_id(parsed);
                let w = choose|w: int| 0 <= w < r.len() && r[w] == parsed[i].unwrap().1;
                assert(res[w] == r[w]);
            } else {
                let res = first_by_file_id(parsed);
                assert(res[res.len() - 1] == parsed[i].unwrap().1);
            }
        }
        assert forall|x: AppEntry| #[trigger] first_by_file_id(parsed).contains(x) implies exists|j: int|
            0 <= j < parsed.len() && parsed[j] is Some && parsed[j].unwrap().1 == x && (forall|k: int|
                0 <= k < j ==> !has_file_id(#[trigger] parsed[k], parsed[j].unwrap().0@)) by {
            let res = first_by_file_id(parsed);
            let w = choose|w: int| 0 <= w < res.len() && res[w] == x;
            if w < r.len() {
                assert(res[w] == r[w]);
                assert(r.contains(x));
                let j = choose|j: int|
                    0 <= j < init.len() && init[j] is Some && init[j].unwrap().1 == x && (forall|k: int|
                        0 <= k < j ==> !has_file_id(#[trigger] init[k], init[j].unwrap().0@));
                assert(parsed[j] == init[j]);
                assert forall|k: int| 0 <= k < j implies !has_file_id(#[trigger] parsed[k], parsed[j].unwrap().0@) by {
                    assert(parsed[k] == init[k]);
                }
            } else {
                let j = parsed.len() - 1;
                assert(parsed[j] is Some);
                assert forall|k: int| 0 <= k < j implies !has_file_id(#[trigger] parsed[k], parsed[j].unwrap().0@) by {}
            }
        }
    }
}

/// The file ids of the parsed files, in order.
pub open spec fn some_fids(t: Seq<Option<(String, AppEntry)>>) -> Seq<Seq<char>>
    decreases t.len(),
{
    if t.len() == 0 {
        Seq::empty()
    } else {
        match t.last() {
            Some((f, _)) => some_fids(t.drop_last()).push(f@),
            None => some_fids(t.drop_last()),
        }
    }
}

proof fn lemma_some_fids(t: Seq<Option<(String, AppEntry)>>, f: Seq<char>)
    ensures
        (exists|w: int| 0 <= w < some_fids(t).len() && some_fids(t)[w] == f) <==> (exists|k: int|
            0 <= k < t.len() && has_file_id(#[trigger] t[k], f)),
    decreases t.len(),
{
    if t.len() > 0 {
        let u = t.drop_last();
        lemma_some_fids(u, f);
        if exists|w: int| 0 <= w < some_fids(t).len() && some_fids(t)[w] == f {
            let w = choose|w: int| 0 <= w < some_fids(t).len() && some_fids(t)[w] == f;
            if w < some_fids(u).len() {
                assert(some_fids(u)[w] == f);
                let k = choose|k: int| 0 <= k < u.len() && has_file_id(#[trigger] u[k], f);
                assert(t[k] == u[k]);
            } else {
                assert(has_file_id(t[t.len() - 1], f));
            }
        }
        if exists|k: int| 0 <= k < t.len() && has_file_id(#[trigger] t[k], f) {
            let k = choose|k: int| 0 <= k < t.len() && has_file_id(#[trigger] t[k], f);
            if k < u.len() {
                assert(u[k] == t[k]);
                let w = choose|w: int| 0 <= w < some_fids(u).len() && some_fids(u)[w] == f;
                assert(some_fids(t)[w] == f);
            } else {
                assert(some_fids(t)[some_fids(u).len() as int] == f);
            }
        }
    }
}

/// Same desktop-file-id in two directories: the first (most important)
/// directory wins.
pub fn merge_parsed(parsed: Vec<Option<(String, AppEntry)>>) -> (r: Vec<AppEntry>)
    ensures
        r@ == first_by_file_id(parsed@),
{
    let ghost ps = parsed@;
    let mut seen: Vec<Vec<char>> = Vec::new();
    let mut out: Vec<AppEntry> = Vec::new();
    let mut rest = parsed;
    let n = rest.len();
    let mut i: usize = 0;
    while i < n
        invariant
            i <= n,
            n == ps.len(),
            rest@ == ps.skip(i as int),
            out@ == first_by_file_id(ps.take(i as int)),
            seen@.len() == some_fids(ps.take(i as int)).len(),
            forall|w: int| 0 <= w < seen@.len() ==> #[trigger] seen@[w]@ == some_fids(ps.take(i as int))[w],
        decreases n - i,
    {
        let item = rest.remove(0);
        let ghost t = ps.take(i + 1);
        assert(ps.skip(i as int).drop_first() =~= ps.skip(i + 1));
        assert(t.drop_last() =~= ps.take(i as int));
        assert(item == ps[i as int]);
        match item {
            Some((fid, e)) => {
                let f = chars_of(fid.as_str());
                let mut found = false;
                let mut w: usize = 0;
                while w < seen.len()
                    invariant
                        w <= seen@.len(),
                        found == exists|y: int| 0 <= y < w && seen@[y]@ == f@,
                    decreases seen@.len() - w,
                {
                    if crate::text::seq_eq(&seen[w], &f) {
                        found = true;
                    }
                    w = w + 1;
                }
                proof {
                    lemma_some_fids(ps.take(i as int), f@);
                    let u = ps.take(i as int);
                    if found {
                        let y = choose|y: int| 0 <= y < w && seen@[y]@ == f@;
                        assert(some_fids(u)[y] == f@);
                        let k = choose|k: int| 0 <= k < u.len() && has_file_id(#[trigger] u[k], f@);
                        assert(t[k] == u[k]);
                    } else {
                        if exists|k: int| 0 <= k < t.len() - 1 && has_file_id(#[trigger] t[k], fid@) {
                            let k = choose|k: int| 0 <= k < t.len() - 1 && has_file_id(#[trigger] t[k], fid@);
                            assert(u[k] == t[k]);
                            let y = choose|y: int| 0 <= y < some_fids(u).len() && some_fids(u)[y] == f@;
                            assert(seen@[y]@ == f@);
                        }
                    }
                }
                seen.push(f);
                if !found {
                    out.push(e);
                }
            },
            None => {},
        }
        i = i + 1;
    }
    assert(ps.take(n as int) =~= ps);
    out
}

/// `r` is what the file `path` under `dir`, holding `text`, gives: nothing
/// when it does not decode, else the entry of its fields and its
/// localized texts.
pub open spec fn parsed_from(
    r: Option<(String, AppEntry)>,
    path: Seq<char>,
    dir: Seq<char>,
    text: Seq<char>,
    locales: Seq<Seq<char>>,
    desktop: Seq<String>,
) -> bool {
    if !desktop_decodes(path, text, locales) {
        r is None
    } else {
        exists|f: DesktopFields, t: DesktopTexts|
            #[trigger] fields_of_file(f, path, text, locales, t) && texts_of_file(t, path, text, locales)
                && entry_of_fields(r, f, path, dir, desktop)
    }
}

/// A file found: nothing when it could not be read, else what its text
/// gives.
pub open spec fn file_parsed(
    r: Option<(String, AppEntry)>,
    file: DesktopFile,
    locales: Seq<Seq<char>>,
    desktop: Seq<String>,
) -> bool {
    match file.text {
        None => r is None,
        Some(t) => parsed_from(r, file.path@, file.dir@, t@, locales, desktop),
    }
}

impl DesktopScanner {
    pub closed spec fn desktop(&self) -> Seq<String> {
        self.current_desktop@
    }

    pub closed spec fn locale_list(&self) -> Seq<String> {
        self.locales@
    }

    pub closed spec fn dir_list(&self) -> Seq<String> {
        self.dirs@
    }

    /// A scanner on given directories (most important first), with the
    /// French then English locales.
    pub fn with_dirs(dirs: Vec<String>, current_desktop: Vec<String>) -> (r: Self)
        ensures
            r.dir_list() == dirs@,
            r.desktop() == current_desktop@,
            r.locale_list().len() == 2,
            r.locale_list()[0]@ == "fr"@,
            r.locale_list()[1]@ == "en"@,
    {
        let mut locales: Vec<String> = Vec::new();
        locales.push(String::from_str("fr"));
        locales.push(String::from_str("en"));
        DesktopScanner { dirs, locales, current_desktop }
    }

    /// A scanner with its directories, locales and current desktop given.
    pub fn from_parts(dirs: Vec<String>, locales: Vec<String>, current_desktop: Vec<String>) -> (r: Self)
        ensures
            r.dir_list() == dirs@,
            r.desktop() == current_desktop@,
            r.locale_list() == locales@,
    {
        DesktopScanner { dirs, locales, current_desktop }
    }

    /// The directories to scan, most important first.
    pub fn dirs(&self) -> (r: &Vec<String>)
        ensures
            r@ == self.dir_list(),
    {
        &self.dirs
    }

    /// The entry that a file with fields `f` gives, keyed by its desktop
    /// file id.
    pub fn entry_from_fields(&self, f: &DesktopFields, path: &str, dir: &str) -> (r: Option<(String, AppEntry)>)
        ensures
            entry_of_fields(r, *f, path@, dir@, self.desktop()),
    {
        proof {
            reveal_strlit("steam:");
            reveal_strlit("desktop:");
        }
        if !is_application(&f.type_) || f.no_display || f.hidden {
            return None;
        }
        if let Some(not_in) = &f.not_show_in {
            if shares_item(not_in, &self.current_desktop) {
                return None;
            }
        }
        if let Some(only_in) = &f.only_show_in {
            if !shares_item(only_in, &self.current_desktop) {
                return None;
            }
        }
        if f.terminal {
            return None;
        }
        let exec = match &f.exec_line {
            Some(e) => e,
            None => return None,
        };
        let file_id = desktop_file_id(path, dir);
        let name = match &f.name {
            Some(n) => n.clone(),
            None => string_of(&trim_desktop_suffix(&chars_of(file_id.as_str()))),
        };
        let (id, launch, source) = match steam_rungameid(exec.as_str()) {
            Some(app_id) => {
                let mut id = String::from_str("steam:");
                id.append(string_of(&decimal_string(app_id as u64)).as_str());
                (id, LaunchSpec::SteamApp(app_id), Source::Steam)
            },
            None => {
                let argv = match clean_exec(exec.as_str()) {
                    Some(a) => a,
                    None => return None,
                };
                let source = classify(f.flatpak.is_some(), exec.as_str(), path);
                let mut id = String::from_str("desktop:");
                id.append(file_id.as_str());
                (id, LaunchSpec::Exec(argv), source)
            },
        };
        let keywords = match &f.keywords {
            Some(ks) => copy_strings(ks),
            None => Vec::new(),
        };
        let entry = AppEntry {
            id,
            name,
            description: copy_opt(&f.comment),
            icon: to_icon(&f.icon),
            launch,
            source,
            keywords,
        };
        Some((file_id, entry))
    }

    /// Parses one file found under `dir`: its desktop file id and entry, or
    /// `None` when it is not a shown application. A file that does not
    /// decode is left out quietly.
    pub fn parse_file(&self, path: &str, dir: &str, text: &str) -> (r: Option<(String, AppEntry)>)
        ensures
            parsed_from(r, path@, dir@, text@, views(self.locale_list()), self.desktop()),
    {
        let keys: Vec<&str> = vec![
            "Type",
            "NoDisplay",
            "Hidden",
            "NotShowIn",
            "OnlyShowIn",
            "Terminal",
            "Exec",
            "Icon",
            "X-Flatpak",
        ];
        let (values, texts) = match decode(path, text, &self.locales, &keys) {
            Some(d) => d,
            None => return None,
        };
        let ghost t = texts;
        let fields = fields_from(&values, texts);
        proof {
            let l = views(self.locale_list());
            assert(opt_text(values@[0]) == desktop_key(path@, text@, l, keys@[0]@));
            assert(opt_text(values@[1]) == desktop_key(path@, text@, l, keys@[1]@));
            assert(opt_text(values@[2]) == desktop_key(path@, text@, l, keys@[2]@));
            assert(opt_text(values@[3]) == desktop_key(path@, text@, l, keys@[3]@));
            assert(opt_text(values@[4]) == desktop_key(path@, text@, l, keys@[4]@));
            assert(opt_text(values@[5]) == desktop_key(path@, text@, l, keys@[5]@));
            assert(opt_text(values@[6]) == desktop_key(path@, text@, l, keys@[6]@));
            assert(opt_text(values@[7]) == desktop_key(path@, text@, l, keys@[7]@));
            assert(opt_text(values@[8]) == desktop_key(path@, text@, l, keys@[8]@));
            assert(fields_of_file(fields, path@, text@, l, t));
        }
        self.entry_from_fields(&fields, path, dir)
    }

    /// The entries of the files found (directories in priority order, each
    /// directory's files in path order): same desktop file id twice, the
    /// first wins.
    pub fn scan_files(&self, files: Vec<DesktopFile>) -> (r: Vec<AppEntry>)
        ensures
            exists|parsed: Seq<Option<(String, AppEntry)>>| {
                &&& parsed.len() == files@.len()
                &&& forall|k: int| 0 <= k < parsed.len() ==> #[trigger] file_parsed(parsed[k], files@[k], views(self.locale_list()), self.desktop())
                &&& r@ == first_by_file_id(parsed)
            },
    {
        let mut parsed: Vec<Option<(String, AppEntry)>> = Vec::new();
        let mut i: usize = 0;
        while i < files.len()
            invariant
                i <= files@.len(),
                parsed@.len() == i,
                forall|k: int| 0 <= k < i ==> #[trigger] file_parsed(parsed@[k], files@[k], views(self.locale_list()), self.desktop()),
            decreases files@.len() - i,
        {
            let p = match &files[i].text {
                Some(t) => self.parse_file(files[i].path.as_str(), files[i].dir.as_str(), t.as_str()),
                None => None,
            };
            parsed.push(p);
            i = i + 1;
        }
        merge_parsed(parsed)
    }
}

/// `e` with its icon dropped when that icon is a file that does not
/// exist (`present` is false): the entry stays, the UI shows its generic
/// icon.
pub open spec fn icon_checked(e: AppEntry, present: bool, r: AppEntry) -> bool {
    &&& r.id == e.id
    &&& r.name == e.name
    &&& r.description == e.description
    &&& r.launch == e.launch
    &&& r.source == e.source
    &&& r.keywords == e.keywords
    &&& r.icon == (if e.icon matches Some(Icon::Path(_)) && !present {
        None
    } else {
        e.icon
    })
}

/// Drops the icons whose file is missing: `present[i]` tells whether the
/// icon file of entry `i` exists (it is not looked at for a named icon).
pub fn drop_missing_icons(entries: Vec<AppEntry>, present: &Vec<bool>) -> (r: Vec<AppEntry>)
    requires
        present@.len() == entries@.len(),
    ensures
        r@.len() == entries@.len(),
        forall|i: int| 0 <= i < r@.len() ==> icon_checked(entries@[i], present@[i], #[trigger] r@[i]),
{
    let ghost ev = entries@;
    let mut out: Vec<AppEntry> = Vec::new();
    let mut rest = entries;
    let n = rest.len();
    let mut j: usize = 0;
    while rest.len() > 0
        invariant
            rest@.len() + j == n,
            n == ev.len(),
            present@.len() == n,
            rest@ == ev.skip(j as int),
            out@.len() == j,
            forall|i: int| 0 <= i < j ==> icon_checked(ev[i], present@[i], #[trigger] out@[i]),
        decreases rest.len(),
    {
        let e = rest.remove(0);
        assert(e == ev[j as int]);
        let dead = match &e.icon {
            Some(Icon::Path(_)) => !present[j],
            _ => false,
        };
        let r = if dead {
            AppEntry { icon: None, ..e }
        } else {
            e
        };
        out.push(r);
        j = j + 1;
        assert(rest@ =~= ev.skip(j as int));
    }
    out
}

// ------------------------------------------------------------------ //
// The system's directories                                            //
// ------------------------------------------------------------------ //

/// `s` without the paths equal to the one kept just before them
/// (`Vec::dedup` on paths).
pub open spec fn dedup_paths(s: Seq<Seq<char>>) -> Seq<Seq<char>>
    decreases s.len(),
{
    if s.len() == 0 {
        s
    } else {
        let p = dedup_paths(s.drop_last());
        if p.len() > 0 && crate::path::same_path(p.last(), s.last()) {
            p
        } else {
            p.push(s.last())
        }
    }
}

/// The `applications/` directories of the system, most important first:
/// the user's data directory (XDG_DATA_HOME, or `~/.local/share`), its
/// Flatpak exports and the system's (present even when XDG_DATA_DIRS
/// forgets them), then each directory of XDG_DATA_DIRS (by default
/// `/usr/local/share:/usr/share`); repeats side by side dropped.
pub open spec fn application_dirs_spec(home: Seq<char>, data_home: Option<Seq<char>>, data_dirs: Option<Seq<char>>) -> Seq<Seq<char>> {
    let dh = match data_home {
        Some(d) => d,
        None => crate::path::joined(home, ".local/share"@),
    };
    let dd = match data_dirs {
        Some(d) => d,
        None => "/usr/local/share:/usr/share"@,
    };
    dedup_paths(
        seq![
            crate::path::joined(dh, "applications"@),
            crate::path::joined(dh, "flatpak/exports/share/applications"@),
            "/var/lib/flatpak/exports/share/applications"@,
        ] + data_dir_apps(split_pieces(dd, ':')),
    )
}

/// `applications/` under each non-empty directory.
pub open spec fn data_dir_apps(ds: Seq<Seq<char>>) -> Seq<Seq<char>>
    decreases ds.len(),
{
    if ds.len() == 0 {
        Seq::empty()
    } else {
        let front = data_dir_apps(ds.drop_last());
        if ds.last().len() > 0 {
            front.push(crate::path::joined(ds.last(), "applications"@))
        } else {
            front
        }
    }
}

pub fn application_dirs(home: &str, data_home: Option<&str>, data_dirs: Option<&str>) -> (r: Vec<String>)
    ensures
        r@.map_values(|d: String| d@) == application_dirs_spec(
            home@,
            match data_home {
                Some(d) => Some(d@),
                None => None,
            },
            match data_dirs {
                Some(d) => Some(d@),
                None => None,
            },
        ),
{
    let dh = match data_home {
        Some(d) => String::from_str(d),
        None => crate::path::join(home, ".local/share"),
    };
    let dd = match data_dirs {
        Some(d) => String::from_str(d),
        None => String::from_str("/usr/local/share:/usr/share"),
    };
    let mut raw: Vec<String> = Vec::new();
    raw.push(crate::path::join(dh.as_str(), "applications"));
    raw.push(crate::path::join(dh.as_str(), "flatpak/exports/share/applications"));
    raw.push(String::from_str("/var/lib/flatpak/exports/share/applications"));
    let ghost head = raw@.map_values(|d: String| d@);
    assert(head =~= seq![
        crate::path::joined(dh@, "applications"@),
        crate::path::joined(dh@, "flatpak/exports/share/applications"@),
        "/var/lib/flatpak/exports/share/applications"@,
    ]);
    let pieces = split_char(dd.as_str(), ':');
    let ghost ps = split_pieces(dd@, ':');
    let mut i: usize = 0;
    while i < pieces.len()
        invariant
            i <= pieces@.len(),
            pieces@.len() == ps.len(),
            forall|k: int| 0 <= k < pieces@.len() ==> #[trigger] pieces@[k]@ == ps[k],
            raw@.map_values(|d: String| d@) == head + data_dir_apps(ps.take(i as int)),
        decreases pieces.len() - i,
    {
        assert(ps.take(i + 1).drop_last() =~= ps.take(i as int));
        let c = chars_of(pieces[i].as_str());
        assert(ps.take(i + 1).last() == ps[i as int]);
        assert(pieces@[i as int]@ == ps[i as int]);
        if c.len() > 0 {
            let ghost before = raw@.map_values(|d: String| d@);
            let joined_dir = crate::path::join(pieces[i].as_str(), "applications");
            raw.push(joined_dir);
            assert(raw@.map_values(|d: String| d@) =~= before.push(crate::path::joined(ps[i as int], "applications"@)));
            assert(data_dir_apps(ps.take(i + 1)) == data_dir_apps(ps.take(i as int)).push(
                crate::path::joined(ps[i as int], "applications"@),
            ));
            assert(raw@.map_values(|d: String| d@) =~= head + data_dir_apps(ps.take(i + 1)));
        }
        i = i + 1;
    }
    assert(ps.take(ps.len() as int) =~= ps);
    let ghost all = raw@.map_values(|d: String| d@);
    let mut out: Vec<String> = Vec::new();
    let mut j: usize = 0;
    while j < raw.len()
        invariant
            j <= raw@.len(),
            all == raw@.map_values(|d: String| d@),
            out@.map_values(|d: String| d@) == dedup_paths(all.take(j as int)),
        decreases raw.len() - j,
    {
        assert(all.take(j + 1).drop_last() =~= all.take(j as int));
        let keep = if out.len() == 0 {
            true
        } else {
            !crate::path::path_eq(out[out.len() - 1].as_str(), raw[j].as_str())
        };
        if keep {
            out.push(raw[j].clone());
            assert(out@.map_values(|d: String| d@) =~= dedup_paths(all.take(j as int)).push(all[j as int]));
        }
        j = j + 1;
    }
    assert(all.take(all.len() as int) =~= all);
    out
}

} // verus!
