//! Phonemization: assembling the IPA phonemes that espeak-ng returns.
//!
//! Kokoro was trained on IPA phonemes (misaki uses espeak as its fallback
//! G2P, so espeak output is in-distribution). espeak returns one clause per
//! call and drops punctuation; the clauses are joined with single spaces and
//! the final punctuation mark of the text is appended again, since Kokoro uses
//! it for prosody.

use vstd::prelude::*;

use crate::text::{chars_of, push_char, string_from_range, trim, trim_bounds, trim_end, trim_end_len};

verus! {

/// The punctuation marks that end a clause and that Kokoro reads for prosody.
pub open spec fn is_clause_punctuation(c: char) -> bool {
    c == '.' || c == '!' || c == '?' || c == '\u{2026}' || c == ';' || c == ':' || c == ','
}

/// The last character of `text` once trailing white space is dropped, if it
/// is a clause punctuation mark.
pub open spec fn trailing_punctuation_spec(text: Seq<char>) -> Option<char> {
    let t = trim_end(text);
    if t.len() > 0 && is_clause_punctuation(t.last()) {
        Some(t.last())
    } else {
        None
    }
}

/// The clauses joined in order: each clause trimmed of white space, with one
/// space before it when both the text so far and the (untrimmed) clause are
/// non-empty.
pub open spec fn join_clauses_spec(clauses: Seq<Seq<char>>) -> Seq<char>
    decreases clauses.len(),
{
    if clauses.len() == 0 {
        Seq::empty()
    } else {
        let out = join_clauses_spec(clauses.drop_last());
        let c = clauses.last();
        let out = if out.len() > 0 && c.len() > 0 {
            out.push(' ')
        } else {
            out
        };
        out + trim(c)
    }
}

/// The views of a list of strings.
pub open spec fn string_views(v: Seq<String>) -> Seq<Seq<char>> {
    v.map_values(|s: String| s@)
}

/// The phonemes of `text` given the clauses espeak returned for it: the
/// joined clauses, then the trailing punctuation of `text`, if any.
pub open spec fn phonemes_spec(text: Seq<char>, clauses: Seq<Seq<char>>) -> Seq<char> {
    match trailing_punctuation_spec(text) {
        Some(p) => join_clauses_spec(clauses).push(p),
        None => join_clauses_spec(clauses),
    }
}

/// Whether `c` ends a clause.
pub fn is_clause_punct(c: char) -> (r: bool)
    ensures
        r == is_clause_punctuation(c),
{
    c == '.' || c == '!' || c == '?' || c == '\u{2026}' || c == ';' || c == ':' || c == ','
}

/// The punctuation mark that ends `text` (after trailing white space), if any.
pub fn trailing_punctuation(text: &str) -> (r: Option<char>)
    ensures
        r == trailing_punctuation_spec(text@),
{
    let cs = chars_of(text);
    let end: usize = trim_end_len(&cs);
    if end > 0 && is_clause_punct(cs[end - 1]) {
        Some(cs[end - 1])
    } else {
        None
    }
}

/// Joins the clauses espeak returned: each trimmed, separated by single spaces.
pub fn join_clauses(clauses: &Vec<String>) -> (r: String)
    ensures
        r@ == join_clauses_spec(string_views(clauses@)),
{
    let ghost views = string_views(clauses@);
    let mut out = String::new();
    let mut i: usize = 0;
    while i < clauses.len()
        invariant
            i <= clauses@.len(),
            views == string_views(clauses@),
            out@ == join_clauses_spec(views.take(i as int)),
        decreases clauses@.len() - i,
    {
        assert(views.take(i + 1).drop_last() == views.take(i as int));
        let clause = chars_of(clauses[i].as_str());
        let ghost before = out@;
        if !out.as_str().is_empty() && clause.len() > 0 {
            push_char(&mut out, ' ');
        }
        let ghost spaced = out@;
        let (start, end) = trim_bounds(&clause);
        let trimmed = string_from_range(&clause, start, end);
        out.append(trimmed.as_str());
        assert(out@ == spaced + trim(views[i as int]));
        i = i + 1;
    }
    assert(views.take(clauses@.len() as int) == views);
    out
}

/// The phonemes of `text`, given the clauses espeak returned for it: the
/// clauses joined with single spaces, followed by the final punctuation mark
/// of `text`, if it has one.
pub fn assemble_phonemes(text: &str, clauses: &Vec<String>) -> (r: String)
    ensures
        r@ == phonemes_spec(text@, string_views(clauses@)),
{
    let punct = trailing_punctuation(text);
    let mut out = join_clauses(clauses);
    match punct {
        Some(p) => push_char(&mut out, p),
        None => {},
    }
    out
}

/// The phonemes end with the final punctuation mark of the text, when there is one.
pub proof fn lemma_phonemes_keep_final_punctuation(text: Seq<char>, clauses: Seq<Seq<char>>)
    requires
        trailing_punctuation_spec(text) is Some,
    ensures
        phonemes_spec(text, clauses).len() > 0,
        phonemes_spec(text, clauses).last() == trailing_punctuation_spec(text)->Some_0,
        is_clause_punctuation(phonemes_spec(text, clauses).last()),
{
}

} // verus!
