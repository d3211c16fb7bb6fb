//! The compiled search pattern.
//!
//! A query is always treated as literal text: it is escaped before
//! compilation, so a pattern matches a line exactly when the query occurs in
//! it as a substring (up to case folding when case-insensitive matching is
//! requested). The compiled matcher itself comes from the `regex` crate and
//! is reached only through the trusted wrappers below; everything stated
//! about it is phrased over the bytes of the query and of the line.

use vstd::prelude::*;
use vstd::string::StringSliceAdditionalSpecFns;

verus! {

/// The query occurs in `hay` as a substring starting at index `i`.
pub open spec fn occurs_at(hay: Seq<u8>, needle: Seq<u8>, i: int) -> bool {
    &&& 0 <= i
    &&& i + needle.len() <= hay.len()
    &&& hay.subrange(i, i + needle.len()) == needle
}

/// The query occurs somewhere in `hay` as a substring.
pub open spec fn occurs(hay: Seq<u8>, needle: Seq<u8>) -> bool {
    exists|i: int| occurs_at(hay, needle, i)
}

/// What case-insensitive matching of the literal `query` returns on `hay`:
/// whether the two agree up to Unicode case folding somewhere in `hay`.
/// Relies on `regex::bytes::Regex::is_match` with `case_insensitive(true)`;
/// the outcome is a function of the two byte sequences alone.
pub uninterp spec fn ci_occurs(query: Seq<u8>, hay: Seq<u8>) -> bool;

/// The list of `(start, end)` byte spans that case-insensitive matching of
/// the literal `query` finds in `hay`. Relies on
/// `regex::bytes::Regex::find_iter` with `case_insensitive(true)`; the
/// outcome is a function of the two byte sequences alone.
pub uninterp spec fn ci_match_spans(query: Seq<u8>, hay: Seq<u8>) -> Seq<(usize, usize)>;

/// The spans a literal matcher reports for a non-empty `needle`: successive
/// non-overlapping occurrences, each the leftmost one at or after the end of
/// the previous.
pub open spec fn literal_spans(hay: Seq<u8>, needle: Seq<u8>, from: int) -> Seq<(usize, usize)>
    decreases hay.len() - from,
{
    if needle.len() == 0 || from < 0 || from + needle.len() > hay.len() {
        Seq::empty()
    } else if occurs_at(hay, needle, from) {
        seq![(from as usize, (from + needle.len()) as usize)] + literal_spans(
            hay,
            needle,
            from + needle.len(),
        )
    } else {
        literal_spans(hay, needle, from + 1)
    }
}

/// Spans are within bounds and strictly ordered without overlap.
pub open spec fn spans_wf(spans: Seq<(usize, usize)>, len: int) -> bool {
    &&& forall|i: int| 0 <= i < spans.len() ==> #[trigger] spans[i].0 <= spans[i].1 <= len
    &&& forall|i: int, j: int|
        0 <= i < j < spans.len() ==> #[trigger] spans[i].1 <= #[trigger] spans[j].0
}

/// The mathematical content of a compiled pattern: the query's bytes and the
/// case flag.
pub ghost struct PatternView {
    pub query: Seq<u8>,
    pub ignore_case: bool,
}

/// Whether a pattern matches one line.
pub open spec fn pattern_matches(p: PatternView, line: Seq<u8>) -> bool {
    if p.ignore_case {
        ci_occurs(p.query, line)
    } else {
        occurs(line, p.query)
    }
}

/// The match spans a pattern reports for one line.
pub open spec fn match_spans(p: PatternView, line: Seq<u8>) -> Seq<(usize, usize)> {
    if p.ignore_case {
        ci_match_spans(p.query, line)
    } else {
        literal_spans(line, p.query, 0)
    }
}

#[verifier::external_type_specification]
#[verifier::external_body]
pub struct ExRegex(regex::bytes::Regex);

/// Compiling the (escaped) query failed.
#[derive(Clone, Copy, PartialEq, Eq, Structural, Debug)]
pub enum PatternError {
    CompileFailed,
}

/// A compiled literal matcher, shared read-only by all workers of one run.
pub struct Pattern {
    re: regex::bytes::Regex,
    query: Vec<u8>,
    ignore_case: bool,
}

impl View for Pattern {
    type V = PatternView;

    closed spec fn view(&self) -> PatternView {
        PatternView { query: self.query@, ignore_case: self.ignore_case }
    }
}

impl Pattern {
    /// Relies on `regex::escape` and `regex::bytes::RegexBuilder`: escaping
    /// strips the query of all pattern syntax, so the compiled matcher is a
    /// matcher for exactly that literal text, with `case_insensitive` set as
    /// requested. Compilation itself may fail (e.g. on the size limit).
    #[verifier::external_body]
    pub fn compile(query: &str, ignore_case: bool) -> (r: Result<Pattern, PatternError>)
        ensures
            match r {
                Ok(p) => p@ == (PatternView { query: query.spec_bytes(), ignore_case }),
                Err(e) => e == PatternError::CompileFailed,
            },
    {
        let escaped = regex::escape(query);
        match regex::bytes::RegexBuilder::new(&escaped).case_insensitive(ignore_case).build() {
            Ok(re) => Ok(Pattern { re, query: query.as_bytes().to_vec(), ignore_case }),
            Err(_) => Err(PatternError::CompileFailed),
        }
    }

    /// Relies on `regex::bytes::Regex::is_match`: a matcher for literal text
    /// matches a haystack exactly when the literal occurs in it as a
    /// substring; under `case_insensitive` the comparison is up to Unicode
    /// case folding, named `ci_occurs`.
    #[verifier::external_body]
    pub fn is_match(&self, line: &[u8]) -> (r: bool)
        ensures
            r == pattern_matches(self@, line@),
            self@.ignore_case ==> r == ci_occurs(self@.query, line@),
    {
        self.re.is_match(line)
    }

    /// Relies on `regex::bytes::Regex::find_iter`: it yields the successive
    /// non-overlapping matches in the line, leftmost first, each within the
    /// line's bounds; for a non-empty case-sensitive literal these are
    /// exactly the leftmost non-overlapping occurrences of the query, and a
    /// match exists exactly when `is_match` holds.
    #[verifier::external_body]
    pub fn find_spans(&self, line: &[u8]) -> (r: Vec<(usize, usize)>)
        ensures
            spans_wf(r@, line@.len() as int),
            r@.len() > 0 <==> pattern_matches(self@, line@),
            self@.ignore_case ==> r@ == ci_match_spans(self@.query, line@),
            !self@.ignore_case && self@.query.len() > 0 ==> r@ == literal_spans(
                line@,
                self@.query,
                0,
            ),
    {
        self.re.find_iter(line).map(|m| (m.start(), m.end())).collect()
    }
}

} // verus!
