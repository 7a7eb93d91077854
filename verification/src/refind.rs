//! Pattern matching through the regex crate, behind trusted wrappers.
//!
//! A wrapper compiles a pattern and reports the byte spans of its matches in
//! one call, so that the result can be named as a function of pattern and
//! text alone. Whether a pattern compiles, and which spans come back, are
//! opaque names; what the regex crate documents of every result — matches
//! are successive, non-overlapping and within bounds — is stated outright.

use vstd::prelude::*;

verus! {

/// Whether the regex crate accepts `pattern`: a fixed property of the
/// pattern text alone.
pub uninterp spec fn pattern_compiles(pattern: Seq<char>) -> bool;

/// The match spans of `pattern` over `text`: a fixed function of both.
pub uninterp spec fn found_spans(pattern: Seq<char>, text: Seq<u8>) -> Seq<(usize, usize)>;

/// The spans of capture group `group` over `text`, one per match in which
/// the group participates: a fixed function of its arguments.
pub uninterp spec fn found_group_spans(pattern: Seq<char>, text: Seq<u8>, group: int) -> Seq<
    (usize, usize),
>;

/// The escaped form of a literal, in which every regex meta character is
/// quoted: a fixed function of the literal.
pub uninterp spec fn escaped(literal: Seq<char>) -> Seq<char>;

/// Spans are half-open byte ranges into a text of length `len`, in strictly
/// left-to-right order and pairwise non-overlapping.
pub open spec fn wf_spans(spans: Seq<(usize, usize)>, len: nat) -> bool {
    &&& forall|k: int| #![trigger spans[k]] 0 <= k < spans.len() ==> spans[k].0 <= spans[k].1 <= len
    &&& forall|i: int, j: int|
        #![trigger spans[i], spans[j]]
        0 <= i < j < spans.len() ==> spans[i].1 <= spans[j].0
}

/// Relies on regex::bytes::Regex::new and Regex::find_iter: `new` accepts or
/// rejects the pattern on its text alone; `find_iter` yields successive
/// non-overlapping matches, each reported as byte offsets into the haystack.
#[verifier::external_body]
pub(crate) fn regex_find_spans(pattern: &str, text: &[u8]) -> (r: Option<Vec<(usize, usize)>>)
    ensures
        r is Some <==> pattern_compiles(pattern@),
        r matches Some(spans) ==> spans@ == found_spans(pattern@, text@),
        r matches Some(spans) ==> wf_spans(spans@, text@.len()),
{
    match regex::bytes::Regex::new(pattern) {
        Ok(re) => Some(re.find_iter(text).map(|m| (m.start(), m.end())).collect()),
        Err(_) => None,
    }
}

/// Relies on regex::bytes::Regex::new, Regex::captures_iter and
/// Captures::get: the iterator yields successive non-overlapping matches,
/// and a capture group's span lies within its match, so the reported group
/// spans are themselves ordered and non-overlapping.
#[verifier::external_body]
pub(crate) fn regex_group_spans(pattern: &str, text: &[u8], group: usize) -> (r: Option<
    Vec<(usize, usize)>,
>)
    ensures
        r is Some <==> pattern_compiles(pattern@),
        r matches Some(spans) ==> spans@ == found_group_spans(pattern@, text@, group as int),
        r matches Some(spans) ==> wf_spans(spans@, text@.len()),
{
    match regex::bytes::Regex::new(pattern) {
        Ok(re) => Some(
            re.captures_iter(text)
                .filter_map(|c| c.get(group).map(|m| (m.start(), m.end())))
                .collect(),
        ),
        Err(_) => None,
    }
}

/// Relies on regex::escape: quotes every meta character of the literal.
#[verifier::external_body]
pub(crate) fn regex_escape(literal: &str) -> (r: String)
    ensures
        r@ == escaped(literal@),
{
    regex::escape(literal)
}

} // verus!
