//! Detector catalog: the fixed patterns, the fragments from which the
//! parameterized patterns are assembled, and the verified literal scanner
//! behind the `replace` detector.

use crate::bytes::bytes_eq;
use crate::refind::wf_spans;
use vstd::prelude::*;
use vstd::slice::slice_subrange;

verus! {

/// Email addresses.
pub const EMAIL: &'static str = r"[a-zA-Z0-9._%+-]+@[a-zA-Z0-9.-]+\.[a-zA-Z]{2,}";

/// Dotted-quad IPv4 addresses.
pub const IPV4: &'static str = r"\b(?:(?:25[0-5]|2[0-4][0-9]|[01]?[0-9][0-9]?)\.){3}(?:25[0-5]|2[0-4][0-9]|[01]?[0-9][0-9]?)\b";

/// Full and compressed IPv6 addresses.
pub const IPV6: &'static str = r"(?i)\b(?:[0-9a-f]{1,4}:){7}[0-9a-f]{1,4}\b|\b(?:[0-9a-f]{1,4}:){1,7}:\b|\b(?:[0-9a-f]{1,4}:){1,6}:[0-9a-f]{1,4}\b|\b(?:[0-9a-f]{1,4}:){1,5}(?::[0-9a-f]{1,4}){1,2}\b|\b(?:[0-9a-f]{1,4}:){1,4}(?::[0-9a-f]{1,4}){1,3}\b|\b(?:[0-9a-f]{1,4}:){1,3}(?::[0-9a-f]{1,4}){1,4}\b|\b(?:[0-9a-f]{1,4}:){1,2}(?::[0-9a-f]{1,4}){1,5}\b|\b[0-9a-f]{1,4}:(?::[0-9a-f]{1,4}){1,6}\b|\b::(?:[0-9a-f]{1,4}:){0,6}[0-9a-f]{1,4}\b|\b(?:[0-9a-f]{1,4}:){1,7}:\b";

/// MAC addresses with `:` or `-` separators, or bare twelve hex digits.
pub const MAC: &'static str = r"(?i)\b(?:[0-9a-f]{2}[:-]){5}[0-9a-f]{2}\b|\b[0-9a-f]{12}\b";

/// Hostnames and fully qualified domain names.
pub const HOSTNAME: &'static str = r"\b(?:[a-zA-Z0-9](?:[a-zA-Z0-9-]{0,61}[a-zA-Z0-9])?\.)+[a-zA-Z]{2,}\b";

/// JSON Web Tokens: three dot-separated base64url sections.
pub const JWT: &'static str = r"eyJ[A-Za-z0-9_-]+\.eyJ[A-Za-z0-9_-]+\.[A-Za-z0-9_-]+";

/// UUIDs in canonical hyphenated form.
pub const UUID: &'static str = r"\b[0-9a-fA-F]{8}-[0-9a-fA-F]{4}-[0-9a-fA-F]{4}-[0-9a-fA-F]{4}-[0-9a-fA-F]{12}\b";

/// Phone numbers with optional country code.
pub const PHONE: &'static str = r"(?:\+\d{1,3}\s?)?(?:\(\d{3}\)|\d{3})[\s.-]?\d{3}[\s.-]?\d{4}";

/// United States social security numbers.
pub const SSN: &'static str = r"\b\d{3}[-\s]?\d{2}[-\s]?\d{4}\b";

/// Credit card numbers in groups of four.
pub const CREDIT_CARD: &'static str = r"\b(?:\d{4}[\s-]?){3}\d{4,7}\b";

/// HTTP and HTTPS URLs; the catalog pattern requires a literal `#` at the
/// end, so only URLs terminated by a fragment marker match.
pub const URL: &'static str = r#"https?://[^\s<>"]+#"#;

/// Long base64 runs (twenty characters or more).
pub const BASE64: &'static str = r"\b[A-Za-z0-9+/]{20,}={0,2}\b";

/// OAuth access tokens of the `ya29.` form.
pub const OAUTH: &'static str = r"(?i)\bya29\.[a-zA-Z0-9_-]{50,}\b";

/// Identifiers that follow a username marker; the identifier is group 1.
pub const USERNAME: &'static str = r"(?:@|user=|username=|/home/|/users/)([a-zA-Z0-9_-]{3,32})\b";

/// API keys with a generic key-word prefix.
pub const API_KEY_DEFAULT: &'static str = r"\b(?:sk|pk|api|token|key|secret)[\-_][a-zA-Z0-9]{20,}\b";

/// Fragment before the escaped prefix of an `api_key` pattern.
pub const API_PRE: &'static str = r"\b";

/// Fragment after the escaped prefix of an `api_key` pattern.
pub const API_SUF: &'static str = r"[\-_]?[a-zA-Z0-9]{20,}\b";

/// Fragment before the joined key names of a `json_key` pattern.
pub const JSON_PRE: &'static str = r#"(?i)"(?:"#;

/// Fragment after the joined key names; group 1 is the quoted value.
pub const JSON_SUF: &'static str = r#")"\s*:\s*"([^"]+)""#;

/// Fragment before the joined names of a `query_param` pattern.
pub const QUERY_PRE: &'static str = r"(?i)[?&](?:";

/// Fragment after the joined names; group 1 is the value.
pub const QUERY_SUF: &'static str = r")=(?P<val>[^&\s#]+)";

/// Fragment before the joined names of an `http_header` pattern.
pub const HEADER_PRE: &'static str = r"(?i)\b(?:";

/// Fragment after the joined names; group 1 is the value to end of line.
pub const HEADER_SUF: &'static str = r"):\s*(?P<val>[^\r\n]+)";

/// The spans of the non-overlapping occurrences of `pat` in `text` at or
/// after `i`, scanning left to right and resuming past each occurrence.
pub open spec fn lit_spans_from(text: Seq<u8>, pat: Seq<u8>, i: int) -> Seq<(usize, usize)>
    decreases text.len() - i,
{
    if pat.len() == 0 || i < 0 || i + pat.len() > text.len() {
        Seq::empty()
    } else if text.subrange(i, i + pat.len()) == pat {
        seq![(i as usize, (i + pat.len()) as usize)] + lit_spans_from(text, pat, i + pat.len())
    } else {
        lit_spans_from(text, pat, i + 1)
    }
}

/// The spans of all non-overlapping occurrences of `pat` in `text`,
/// leftmost first.
pub open spec fn lit_spans(text: Seq<u8>, pat: Seq<u8>) -> Seq<(usize, usize)> {
    lit_spans_from(text, pat, 0)
}

/// Finds every non-overlapping occurrence of the literal `pat`, leftmost
/// first.
pub fn find_literal_spans(text: &[u8], pat: &[u8]) -> (spans: Vec<(usize, usize)>)
    requires
        pat@.len() >= 1,
    ensures
        spans@ == lit_spans(text@, pat@),
        wf_spans(spans@, text@.len()),
{
    let mut out: Vec<(usize, usize)> = Vec::new();
    if text.len() < pat.len() {
        proof {
            assert(lit_spans(text@, pat@) =~= Seq::empty());
            assert(out@ =~= lit_spans(text@, pat@));
        }
        return out;
    }
    let last = text.len() - pat.len();
    let mut i: usize = 0;
    while i <= last
        invariant
            pat@.len() >= 1,
            pat@.len() <= text@.len(),
            last == text@.len() - pat@.len(),
            text@.len() <= usize::MAX,
            i <= text@.len(),
            out@ + lit_spans_from(text@, pat@, i as int) == lit_spans(text@, pat@),
            wf_spans(out@, text@.len()),
            forall|k: int| #![trigger out@[k]] 0 <= k < out@.len() ==> out@[k].1 <= i,
        decreases text@.len() - i,
    {
        let ghost out0 = out@;
        let ghost gi = i as int;
        if bytes_eq(slice_subrange(text, i, i + pat.len()), pat) {
            out.push((i, i + pat.len()));
            proof {
                assert(text@.subrange(gi, gi + pat@.len()) == pat@);
                assert(out@ + lit_spans_from(text@, pat@, gi + pat@.len()) =~= out0
                    + lit_spans_from(text@, pat@, gi));
            }
            i = i + pat.len();
        } else {
            proof {
                assert(text@.subrange(gi, gi + pat@.len()) != pat@);
            }
            i = i + 1;
        }
    }
    proof {
        assert(lit_spans_from(text@, pat@, i as int) =~= Seq::empty());
        assert(out@ + lit_spans_from(text@, pat@, i as int) =~= out@);
    }
    out
}

} // verus!
