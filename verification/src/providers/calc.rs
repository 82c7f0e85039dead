//! Calculator provider: typing "23*7" shows 161.
//!
//! Engine: fend (pure Rust, arbitrary precision, units — "2 inches to cm"
//! works too). Evaluation is only tried when the query holds a digit: a
//! query without one that evaluates by accident (a constant's name...)
//! would surprise more than help.
use vstd::prelude::*;

use crate::model::Icon;
use crate::provider::{Action, Provider, ResultItem, Tier, WatchSpec};
use crate::text::{opt_text, chars_of, is_digit, is_whitespace, seq_eq, split_whitespace, string_of, trim, trim_spec, words};
use vstd::string::StringExecFns;

verus! {

/// What fend gives back for an expression evaluated in a fresh context:
/// the main result's text, or `None` when fend reports an error. A fresh
/// context has no clock, random source or exchange-rate handler, so the
/// answer depends on the expression alone.
pub uninterp spec fn fend_answer(expr: Seq<char>) -> Option<Seq<char>>;

/// Trusted: evaluates `expr` with `fend_core::evaluate` in a context made
/// by `fend_core::Context::new`, and returns
/// `fend_core::FendResult::get_main_result` as an owned string; an error
/// becomes `None`. The contract only names the outcome (`fend_answer`):
/// what fend computes is not restated.
#[verifier::external_body]
fn evaluate(expr: &str) -> (r: Option<String>)
    ensures
        opt_text(r) == fend_answer(expr@),
{
    let mut ctx = fend_core::Context::new();
    match fend_core::evaluate(expr, &mut ctx) {
        Ok(res) => Some(res.get_main_result().to_owned()),
        Err(_) => None,
    }
}

pub struct CalcProvider;

pub open spec fn has_digit(s: Seq<char>) -> bool {
    exists|i: int| 0 <= i < s.len() && is_digit(#[trigger] s[i])
}

/// Words separated by single spaces.
pub open spec fn join_words(ws: Seq<Seq<char>>) -> Seq<char>
    decreases ws.len(),
{
    if ws.len() == 0 {
        Seq::empty()
    } else if ws.len() == 1 {
        ws[0]
    } else {
        join_words(ws.drop_last()) + seq![' '] + ws.last()
    }
}

/// fend only understands English: "100 km en miles" → "to".
pub open spec fn translate_word(w: Seq<char>) -> Seq<char> {
    if w == seq!['e', 'n'] {
        seq!['t', 'o']
    } else {
        w
    }
}

pub open spec fn translated(q: Seq<char>) -> Seq<char> {
    join_words(words(q).map_values(|w: Seq<char>| translate_word(w)))
}

/// The answer item for the (trimmed) query `query` whose value is `value`.
pub open spec fn is_calc_item(item: ResultItem, query: Seq<char>, value: Seq<char>) -> bool {
    &&& item.id@ == "calc:"@ + query
    &&& item.title@ == "= "@ + value
    &&& item.subtitle matches Some(s) && s@ == "Entrée pour copier"@
    &&& item.icon matches Some(Icon::Named(n)) && n@ == "accessories-calculator"@
    &&& item.action matches Action::CopyText(t) && t@ == value
    &&& item.uninstall is None
    &&& item.tier == Tier::Answer
    &&& item.score == 1000
}

/// What the calculator shows for the trimmed query `q` when fend answers
/// `answer` for its translation: nothing without a digit, an error or an
/// answer that is empty or repeats the query; else the one answer item.
pub open spec fn calc_outcome(r: Seq<ResultItem>, q: Seq<char>, answer: Option<Seq<char>>) -> bool {
    if !has_digit(q) {
        r.len() == 0
    } else {
        match answer {
            None => r.len() == 0,
            Some(value) => if value.len() == 0 || value == q {
                r.len() == 0
            } else {
                r.len() == 1 && is_calc_item(r[0], q, value)
            },
        }
    }
}

/// The calculator stays silent on a query without an ASCII digit, whatever
/// fend would make of it ("e" is a constant to fend, and the first letter
/// of many app names), and on an error, an empty answer or an answer that
/// repeats the query ("42" gives "42"); with a digit, any other answer is
/// shown as one copyable "= value" item, first tier.
pub proof fn lemma_digits_only(q: Seq<char>, r: Seq<ResultItem>, answer: Option<Seq<char>>, v: Seq<char>, d: int)
    requires
        calc_outcome(r, q, answer),
    ensures
        (forall|i: int| 0 <= i < q.len() ==> !('0' <= #[trigger] q[i] && q[i] <= '9')) ==> r.len() == 0,
        answer is None ==> r.len() == 0,
        answer == Some(q) ==> r.len() == 0,
        answer == Some(Seq::<char>::empty()) ==> r.len() == 0,
        0 <= d < q.len() && '0' <= q[d] && q[d] <= '9' && answer == Some(v) && v.len() > 0 && v != q ==> {
            &&& r.len() == 1
            &&& r[0].title@ == "= "@ + v
            &&& r[0].tier == Tier::Answer
            &&& r[0].action matches Action::CopyText(t) && t@ == v
        },
{
    if 0 <= d < q.len() && '0' <= q[d] && q[d] <= '9' {
        assert(is_digit(q[d]));
    }
}

fn any_digit(s: &Vec<char>) -> (r: bool)
    ensures
        r == has_digit(s@),
{
    let mut i: usize = 0;
    while i < s.len()
        invariant
            i <= s.len(),
            forall|k: int| 0 <= k < i ==> !is_digit(#[trigger] s@[k]),
        decreases s.len() - i,
    {
        if '0' <= s[i] && s[i] <= '9' {
            return true;
        }
        i = i + 1;
    }
    false
}

/// "100 km en miles" → "100 km to miles", whitespace normalized.
pub fn translate(q: &Vec<char>) -> (r: Vec<char>)
    ensures
        r@ == translated(q@),
{
    let ws = split_whitespace(q);
    let ghost tw = words(q@).map_values(|w: Seq<char>| translate_word(w));
    let mut r: Vec<char> = Vec::new();
    let mut i: usize = 0;
    let en: Vec<char> = vec!['e', 'n'];
    while i < ws.len()
        invariant
            i <= ws@.len(),
            ws@.len() == words(q@).len(),
            forall|k: int| 0 <= k < ws@.len() ==> #[trigger] ws@[k]@ == words(q@)[k],
            tw == words(q@).map_values(|w: Seq<char>| translate_word(w)),
            en@ == seq!['e', 'n'],
            r@ == join_words(tw.take(i as int)),
        decreases ws@.len() - i,
    {
        assert(tw.take(i + 1).drop_last() =~= tw.take(i as int));
        if i > 0 {
            r.push(' ');
        }
        let w = &ws[i];
        let ghost before = r@;
        if seq_eq(w, &en) {
            r.push('t');
            r.push('o');
        } else {
            let mut k: usize = 0;
            while k < w.len()
                invariant
                    k <= w@.len(),
                    r@ == before + w@.take(k as int),
                decreases w@.len() - k,
            {
                r.push(w[k]);
                k = k + 1;
                assert(r@ =~= before + w@.take(k as int));
            }
            assert(w@.take(w@.len() as int) =~= w@);
        }
        proof {
            let t = tw.take(i + 1);
            if i == 0 {
                assert(join_words(t) == t[0]);
                assert(r@ =~= t[0]);
            } else {
                assert(r@ =~= join_words(t.drop_last()) + seq![' '] + t.last());
            }
        }
        i = i + 1;
    }
    assert(tw.take(ws@.len() as int) =~= tw);
    r
}

/// The answer for the trimmed query `query` once fend has evaluated it to
/// `value`: nothing when the value is empty or repeats the query ("42"
/// gives "42", no information), else one copyable answer.
pub fn calc_answer(query: &str, value: String) -> (r: Vec<ResultItem>)
    ensures
        value@.len() == 0 || value@ == query@ ==> r@.len() == 0,
        !(value@.len() == 0 || value@ == query@) ==> r@.len() == 1 && is_calc_item(r@[0], query@, value@),
{
    let v = chars_of(value.as_str());
    let q = chars_of(query);
    if v.len() == 0 || seq_eq(&v, &q) {
        return Vec::new();
    }
    let mut id = String::from_str("calc:");
    id.append(query);
    let mut title = String::from_str("= ");
    title.append(value.as_str());
    let item = ResultItem {
        id,
        title,
        subtitle: Some(String::from_str("Entrée pour copier")),
        icon: Some(Icon::Named(String::from_str("accessories-calculator"))),
        action: Action::CopyText(value),
        uninstall: None,
        tier: Tier::Answer,
        score: 1000,
    };
    let mut r: Vec<ResultItem> = Vec::new();
    r.push(item);
    r
}

impl Provider for CalcProvider {
    open spec fn label(&self) -> Option<Seq<char>> {
        Some("calc"@)
    }

    /// The calculator's answer: see [`calc_outcome`].
    open spec fn answers(&self, query: Seq<char>, r: Seq<ResultItem>) -> bool {
        calc_outcome(r, trim_spec(query), fend_answer(translated(trim_spec(query))))
    }

    fn name(&self) -> (r: &'static str)
        ensures
            r@ == "calc"@,
    {
        "calc"
    }

    /// Nothing to watch.
    open spec fn watched(&self, r: Seq<WatchSpec>) -> bool {
        r.len() == 0
    }

    fn refresh(&mut self) {
    }

    fn watch_specs(&self) -> (r: Vec<WatchSpec>) {
        Vec::new()
    }

    /// Answers are not ranked by use: an activation records nothing.
    fn record_activation(&mut self, item_id: &str) {
    }

    fn query(&mut self, query: &str) -> (r: Vec<ResultItem>)
        ensures
            calc_outcome(r@, trim_spec(query@), fend_answer(translated(trim_spec(query@)))),
    {
        let qc = chars_of(query);
        let q = trim(&qc);
        if !any_digit(&q) {
            return Vec::new();
        }
        let expr = string_of(&translate(&q));
        match evaluate(expr.as_str()) {
            Some(value) => {
                let qs = string_of(&q);
                calc_answer(qs.as_str(), value)
            },
            None => Vec::new(),
        }
    }
}

} // verus!
