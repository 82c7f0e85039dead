//! Paths, held as strings. The component analysis is std's `Path`; the
//! joining of a relative path is written here.
use vstd::prelude::*;

use crate::text::{chars_of, string_of};

verus! {

/// The components of the path, each by its text (`/` for the root, `.` and
/// `..` for the current and parent directories), as `Path::components`
/// yields them.
pub uninterp spec fn components_of(p: Seq<char>) -> Seq<Seq<char>>;

/// `Path::parent`, displayed.
pub uninterp spec fn parent_of(p: Seq<char>) -> Option<Seq<char>>;

/// `Path::file_name`.
pub uninterp spec fn file_name_of(p: Seq<char>) -> Option<Seq<char>>;

/// `Path::strip_prefix`, displayed.
pub uninterp spec fn strip_prefix_of(p: Seq<char>, base: Seq<char>) -> Option<Seq<char>>;

/// `Path::starts_with`: `base` is a component-wise prefix of `p`.
pub uninterp spec fn path_starts_with(p: Seq<char>, base: Seq<char>) -> bool;

/// `Path::extension`.
pub uninterp spec fn extension_of(p: Seq<char>) -> Option<Seq<char>>;

/// `Path::file_stem`.
pub uninterp spec fn file_stem_of(p: Seq<char>) -> Option<Seq<char>>;

/// `Path == Path`: same components.
pub uninterp spec fn same_path(a: Seq<char>, b: Seq<char>) -> bool;

/// Trusted: `Path::components`, each component as its text; the result is
/// named `components_of(p)`.
#[verifier::external_body]
pub(crate) fn components(p: &str) -> (r: Vec<String>)
    ensures
        r@.len() == components_of(p@).len(),
        forall|i: int| 0 <= i < r@.len() ==> #[trigger] r@[i]@ == components_of(p@)[i],
{
    std::path::Path::new(p).components().map(|c| c.as_os_str().to_string_lossy().into_owned()).collect()
}

/// Trusted: `Path::parent`, displayed; the result is named `parent_of(p)`.
#[verifier::external_body]
pub(crate) fn parent(p: &str) -> (r: Option<String>)
    ensures
        r matches Some(s) ==> parent_of(p@) == Some(s@),
        r is None ==> parent_of(p@) is None,
{
    std::path::Path::new(p).parent().map(|q| q.display().to_string())
}

/// Trusted: `Path::file_name`; the result is named `file_name_of(p)`.
#[verifier::external_body]
pub(crate) fn file_name(p: &str) -> (r: Option<String>)
    ensures
        r matches Some(s) ==> file_name_of(p@) == Some(s@),
        r is None ==> file_name_of(p@) is None,
{
    std::path::Path::new(p).file_name().map(|n| n.to_string_lossy().into_owned())
}

/// Trusted: `Path::extension`; the result is named `extension_of(p)`.
#[verifier::external_body]
pub(crate) fn extension(p: &str) -> (r: Option<String>)
    ensures
        r matches Some(s) ==> extension_of(p@) == Some(s@),
        r is None ==> extension_of(p@) is None,
{
    std::path::Path::new(p).extension().map(|e| e.to_string_lossy().into_owned())
}

/// Trusted: `Path::file_stem`; the result is named `file_stem_of(p)`.
#[verifier::external_body]
pub(crate) fn file_stem(p: &str) -> (r: Option<String>)
    ensures
        r matches Some(s) ==> file_stem_of(p@) == Some(s@),
        r is None ==> file_stem_of(p@) is None,
{
    std::path::Path::new(p).file_stem().map(|e| e.to_string_lossy().into_owned())
}

/// `str::eq_ignore_ascii_case`: same length, equal once ASCII letters are
/// lower-cased.
pub open spec fn ascii_lower(c: char) -> char {
    if 'A' <= c && c <= 'Z' {
        ((c as u8) + 32) as char
    } else {
        c
    }
}

pub open spec fn eq_ignore_ascii_case(a: Seq<char>, b: Seq<char>) -> bool {
    a.len() == b.len() && forall|i: int| 0 <= i < a.len() ==> ascii_lower(#[trigger] a[i]) == ascii_lower(b[i])
}

pub fn ignore_ascii_case_eq(a: &str, b: &str) -> (r: bool)
    ensures
        r == eq_ignore_ascii_case(a@, b@),
{
    let x = chars_of(a);
    let y = chars_of(b);
    if x.len() != y.len() {
        return false;
    }
    let mut i: usize = 0;
    while i < x.len()
        invariant
            i <= x@.len(),
            x@.len() == y@.len(),
            x@ == a@,
            y@ == b@,
            forall|k: int| 0 <= k < i ==> ascii_lower(#[trigger] x@[k]) == ascii_lower(y@[k]),
        decreases x.len() - i,
    {
        let c = x[i];
        let d = y[i];
        let lc = if 'A' <= c && c <= 'Z' { ((c as u8) + 32u8) as char } else { c };
        let ld = if 'A' <= d && d <= 'Z' { ((d as u8) + 32u8) as char } else { d };
        if lc != ld {
            return false;
        }
        i = i + 1;
    }
    true
}

/// Trusted: `Path::strip_prefix`, displayed; the result is named
/// `strip_prefix_of(p, base)`.
#[verifier::external_body]
pub(crate) fn strip_prefix(p: &str, base: &str) -> (r: Option<String>)
    ensures
        r matches Some(s) ==> strip_prefix_of(p@, base@) == Some(s@),
        r is None ==> strip_prefix_of(p@, base@) is None,
{
    std::path::Path::new(p).strip_prefix(base).ok().map(|q| q.display().to_string())
}

/// Trusted: `Path::starts_with`; the result is named `path_starts_with`.
#[verifier::external_body]
pub(crate) fn starts_with(p: &str, base: &str) -> (r: bool)
    ensures
        r == path_starts_with(p@, base@),
{
    std::path::Path::new(p).starts_with(base)
}

/// Trusted: `Path::eq`; the result is named `same_path(a, b)`.
#[verifier::external_body]
pub(crate) fn path_eq(a: &str, b: &str) -> (r: bool)
    ensures
        r == same_path(a@, b@),
{
    std::path::Path::new(a) == std::path::Path::new(b)
}

/// `PathBuf::join` on a path: an absolute `rel` replaces `base`; otherwise
/// a separator is put between them unless `base` is empty or already ends
/// with one.
pub open spec fn joined(base: Seq<char>, rel: Seq<char>) -> Seq<char> {
    if rel.len() > 0 && rel[0] == '/' {
        rel
    } else if base.len() > 0 && base.last() != '/' {
        base + seq!['/'] + rel
    } else {
        base + rel
    }
}

pub fn join(base: &str, rel: &str) -> (r: String)
    ensures
        r@ == joined(base@, rel@),
{
    let b = chars_of(base);
    let q = chars_of(rel);
    if q.len() > 0 && q[0] == '/' {
        return string_of(&q);
    }
    let mut out = b;
    if out.len() > 0 && out[out.len() - 1] != '/' {
        out.push('/');
    }
    let ghost head = out@;
    let mut i: usize = 0;
    while i < q.len()
        invariant
            i <= q.len(),
            out@ == head + q@.take(i as int),
        decreases q.len() - i,
    {
        out.push(q[i]);
        i = i + 1;
        assert(out@ =~= head + q@.take(i as int));
    }
    assert(q@.take(q@.len() as int) =~= q@);
    string_of(&out)
}

} // verus!
