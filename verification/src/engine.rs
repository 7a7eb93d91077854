//! The redaction engine: per-session state, the step executor that
//! dispatches on the configured detector type, and the pipeline executor.

use crate::bytes::{bytes_eq, copy_all};
use crate::chars::{alnum_char, upper_of};
use crate::claims::{claims_disjoint, ClaimedRegion};
use crate::config::{word_eq, EngineError, ParamsModel, PipelineConfig, StepConfig, StepModel};
use crate::detect;
use crate::detect::{find_literal_spans, lit_spans};
use crate::fingerprint::fresh_session_secret;
use crate::refind::{escaped, found_group_spans, found_spans, pattern_compiles, regex_escape,
    regex_find_spans, regex_group_spans};
use crate::step::{apply_partial_mask, apply_spans, filter_spans, spec_after_spans, spec_partial,
    StepOutcome};
use crate::store::{empty_store, store_fingerprints_keyed, wf_store, CanonicalEntry, Store,
    StoreModel};
use vstd::prelude::*;
use vstd::slice::slice_to_vec;
use vstd::utf8::encode_utf8;

verus! {

/// The engine: a session secret fixed at construction, the canonicalization
/// store, and the per-step region claims.
pub struct Engine {
    secret: Vec<u8>,
    store: Store,
    claimed: Vec<ClaimedRegion>,
}

/// Mathematical image of the engine state.
#[verifier::ext_equal]
pub struct EngineModel {
    pub secret: Seq<u8>,
    pub store: StoreModel,
    pub claims: Seq<ClaimedRegion>,
}

impl View for Engine {
    type V = EngineModel;

    closed spec fn view(&self) -> EngineModel {
        EngineModel { secret: self.secret@, store: self.store@, claims: self.claimed@ }
    }
}

/// Engine well-formedness: a 32-byte secret, a store keyed by fingerprint,
/// and pairwise-disjoint claims.
pub open spec fn engine_wf(m: EngineModel) -> bool {
    &&& m.secret.len() == 32
    &&& wf_store(m.store)
    &&& claims_disjoint(m.claims)
}

/// What one pipeline run leaves behind: the final text, the store, and the
/// error that stopped it, if one did.
#[verifier::ext_equal]
pub struct RunModel {
    pub text: Seq<u8>,
    pub store: StoreModel,
    pub error: Option<EngineError>,
}

/// One character of an uppercased custom label: kept when alphanumeric,
/// `_` otherwise.
pub open spec fn norm_char(c: char) -> char {
    if alnum_char(c) {
        c
    } else {
        '_'
    }
}

/// A custom label normalized into an identifier prefix: the label
/// uppercased, every non-alphanumeric character replaced with `_`, as
/// UTF-8 bytes.
pub open spec fn spec_label_prefix(l: Seq<char>) -> Seq<u8> {
    encode_utf8(upper_of(l).map_values(|c: char| norm_char(c)))
}

/// The built-in identifier prefix for a detector type; `REDACTED` for an
/// unrecognized type.
pub open spec fn spec_default_prefix(t: Seq<char>) -> Seq<u8> {
    if word_eq(t, "email"@) {
        encode_utf8("EMAIL"@)
    } else if word_eq(t, "regex"@) {
        encode_utf8("REGEX"@)
    } else if word_eq(t, "ipv4"@) {
        encode_utf8("IPV4"@)
    } else if word_eq(t, "ipv6"@) {
        encode_utf8("IPV6"@)
    } else if word_eq(t, "mac"@) {
        encode_utf8("MAC"@)
    } else if word_eq(t, "hostname"@) {
        encode_utf8("HOSTNAME"@)
    } else if word_eq(t, "jwt"@) {
        encode_utf8("JWT"@)
    } else if word_eq(t, "uuid"@) {
        encode_utf8("UUID"@)
    } else if word_eq(t, "phone"@) {
        encode_utf8("PHONE"@)
    } else if word_eq(t, "ssn"@) {
        encode_utf8("SSN"@)
    } else if word_eq(t, "credit_card"@) {
        encode_utf8("CC"@)
    } else if word_eq(t, "api_key"@) || word_eq(t, "apikey"@) {
        encode_utf8("APIKEY"@)
    } else if word_eq(t, "url"@) {
        encode_utf8("URL"@)
    } else if word_eq(t, "username"@) {
        encode_utf8("USERNAME"@)
    } else if word_eq(t, "base64"@) {
        encode_utf8("BASE64"@)
    } else if word_eq(t, "json_key"@) || word_eq(t, "jsonKey"@) {
        encode_utf8("JSON"@)
    } else if word_eq(t, "query_param"@) || word_eq(t, "queryParam"@) {
        encode_utf8("PARAM"@)
    } else if word_eq(t, "http_header"@) || word_eq(t, "header"@) {
        encode_utf8("HEADER"@)
    } else if word_eq(t, "replace"@) {
        encode_utf8("REPLACE"@)
    } else if word_eq(t, "partial_mask"@) || word_eq(t, "partialMask"@) {
        encode_utf8("MASK"@)
    } else if word_eq(t, "oauth"@) {
        encode_utf8("OAUTH"@)
    } else {
        encode_utf8("REDACTED"@)
    }
}

/// The identifier prefix of a step: its non-empty label normalized, else
/// the detector default.
pub open spec fn spec_prefix(sm: StepModel) -> Seq<u8> {
    match sm.label {
        Some(l) => if l.len() > 0 {
            spec_label_prefix(l)
        } else {
            spec_default_prefix(sm.step_type)
        },
        None => spec_default_prefix(sm.step_type),
    }
}

/// A step that changes nothing: the text passes through, claims stay.
pub open spec fn unchanged_outcome(
    st: StoreModel,
    text: Seq<u8>,
    cl: Seq<ClaimedRegion>,
) -> StepOutcome {
    StepOutcome { store: st, text: text, claims: cl }
}

/// A fixed-pattern detector: match the catalog pattern and process every
/// unclaimed span; a pattern the regex crate rejects is a silent no-op.
pub open spec fn spec_fixed(
    secret: Seq<u8>,
    st: StoreModel,
    cl: Seq<ClaimedRegion>,
    text: Seq<u8>,
    pattern: Seq<char>,
    prefix: Seq<u8>,
    kind: Seq<char>,
    p: ParamsModel,
) -> StepOutcome {
    if pattern_compiles(pattern) {
        spec_after_spans(secret, text, found_spans(pattern, text), st, cl, prefix, kind, p)
    } else {
        unchanged_outcome(st, text, cl)
    }
}

/// A keyed-capture detector: like `spec_fixed`, but only capture group 1 of
/// each match is the span.
pub open spec fn spec_grouped(
    secret: Seq<u8>,
    st: StoreModel,
    cl: Seq<ClaimedRegion>,
    text: Seq<u8>,
    pattern: Seq<char>,
    prefix: Seq<u8>,
    kind: Seq<char>,
    p: ParamsModel,
) -> StepOutcome {
    if pattern_compiles(pattern) {
        spec_after_spans(
            secret,
            text,
            found_group_spans(pattern, text, 1),
            st,
            cl,
            prefix,
            kind,
            p,
        )
    } else {
        unchanged_outcome(st, text, cl)
    }
}

/// The first `n` name fragments, escaped and joined with `|`.
pub open spec fn spec_join_prefix(parts: Seq<Seq<char>>, n: int) -> Seq<char>
    decreases n,
{
    if n <= 0 {
        Seq::empty()
    } else if n == 1 {
        escaped(parts[0])
    } else {
        spec_join_prefix(parts, n - 1) + "|"@ + escaped(parts[n - 1])
    }
}

/// All name fragments, escaped and joined with `|`.
pub open spec fn spec_join(parts: Seq<Seq<char>>) -> Seq<char> {
    spec_join_prefix(parts, parts.len() as int)
}

/// A name-list detector (`json_key`, `query_param`, `http_header`): build
/// the pattern from the escaped names between two fixed fragments; an empty
/// list or an empty joined pattern is a silent no-op.
pub open spec fn spec_keyed(
    secret: Seq<u8>,
    st: StoreModel,
    cl: Seq<ClaimedRegion>,
    text: Seq<u8>,
    pre: Seq<char>,
    suf: Seq<char>,
    parts: Option<Seq<Seq<char>>>,
    prefix: Seq<u8>,
    kind: Seq<char>,
    p: ParamsModel,
) -> StepOutcome {
    match parts {
        None => unchanged_outcome(st, text, cl),
        Some(ps) => if ps.len() == 0 {
            unchanged_outcome(st, text, cl)
        } else {
            let joined = spec_join(ps);
            if joined.len() == 0 {
                unchanged_outcome(st, text, cl)
            } else {
                spec_grouped(secret, st, cl, text, pre + joined + suf, prefix, kind, p)
            }
        },
    }
}

/// One step, dispatched on its type tag over claim-free state (claims are
/// cleared at step start). Returns the outcome and the error, if the step's
/// required parameter is absent; an unrecognized type passes the text
/// through unchanged.
#[verifier::opaque]
pub open spec fn spec_step(
    secret: Seq<u8>,
    st: StoreModel,
    text: Seq<u8>,
    sm: StepModel,
) -> (StepOutcome, Option<EngineError>) {
    let pre = spec_prefix(sm);
    let t = sm.step_type;
    let p = sm.config;
    let e0 = Seq::<ClaimedRegion>::empty();
    let unch = unchanged_outcome(st, text, e0);
    if word_eq(t, "email"@) {
        (spec_fixed(secret, st, e0, text, detect::EMAIL@, pre, "email"@, p), None)
    } else if word_eq(t, "regex"@) {
        match p.pattern {
            None => (unch, Some(EngineError::MissingPattern)),
            Some(pt) => if pt.len() == 0 {
                (unch, None)
            } else {
                (spec_fixed(secret, st, e0, text, pt, pre, "regex"@, p), None)
            },
        }
    } else if word_eq(t, "ipv4"@) {
        (spec_fixed(secret, st, e0, text, detect::IPV4@, pre, "ipv4"@, p), None)
    } else if word_eq(t, "ipv6"@) {
        (spec_fixed(secret, st, e0, text, detect::IPV6@, pre, "ipv6"@, p), None)
    } else if word_eq(t, "mac"@) {
        (spec_fixed(secret, st, e0, text, detect::MAC@, pre, "mac"@, p), None)
    } else if word_eq(t, "hostname"@) {
        (spec_fixed(secret, st, e0, text, detect::HOSTNAME@, pre, "hostname"@, p), None)
    } else if word_eq(t, "jwt"@) {
        (spec_fixed(secret, st, e0, text, detect::JWT@, pre, "jwt"@, p), None)
    } else if word_eq(t, "uuid"@) {
        (spec_fixed(secret, st, e0, text, detect::UUID@, pre, "uuid"@, p), None)
    } else if word_eq(t, "phone"@) {
        (spec_fixed(secret, st, e0, text, detect::PHONE@, pre, "phone"@, p), None)
    } else if word_eq(t, "ssn"@) {
        (spec_fixed(secret, st, e0, text, detect::SSN@, pre, "ssn"@, p), None)
    } else if word_eq(t, "credit_card"@) {
        (spec_fixed(secret, st, e0, text, detect::CREDIT_CARD@, pre, "credit_card"@, p), None)
    } else if word_eq(t, "api_key"@) || word_eq(t, "apikey"@) {
        if p.prefix is Some && p.prefix->0.len() > 0 {
            (
                spec_fixed(
                    secret,
                    st,
                    e0,
                    text,
                    detect::API_PRE@ + escaped(p.prefix->0) + detect::API_SUF@,
                    pre,
                    "api_key"@,
                    p,
                ),
                None,
            )
        } else {
            (spec_fixed(secret, st, e0, text, detect::API_KEY_DEFAULT@, pre, "api_key"@, p), None)
        }
    } else if word_eq(t, "url"@) {
        (spec_fixed(secret, st, e0, text, detect::URL@, pre, "url"@, p), None)
    } else if word_eq(t, "username"@) {
        (spec_grouped(secret, st, e0, text, detect::USERNAME@, pre, "username"@, p), None)
    } else if word_eq(t, "base64"@) {
        (spec_fixed(secret, st, e0, text, detect::BASE64@, pre, "base64"@, p), None)
    } else if word_eq(t, "json_key"@) || word_eq(t, "jsonKey"@) {
        (
            spec_keyed(
                secret,
                st,
                e0,
                text,
                detect::JSON_PRE@,
                detect::JSON_SUF@,
                p.keys,
                pre,
                "json_key"@,
                p,
            ),
            None,
        )
    } else if word_eq(t, "query_param"@) || word_eq(t, "queryParam"@) {
        (
            spec_keyed(
                secret,
                st,
                e0,
                text,
                detect::QUERY_PRE@,
                detect::QUERY_SUF@,
                p.names,
                pre,
                "query_param"@,
                p,
            ),
            None,
        )
    } else if word_eq(t, "http_header"@) || word_eq(t, "header"@) {
        (
            spec_keyed(
                secret,
                st,
                e0,
                text,
                detect::HEADER_PRE@,
                detect::HEADER_SUF@,
                p.names,
                pre,
                "http_header"@,
                p,
            ),
            None,
        )
    } else if word_eq(t, "replace"@) {
        match p.search {
            None => (unch, Some(EngineError::MissingSearch)),
            Some(s) => if encode_utf8(s).len() == 0 {
                (unch, None)
            } else {
                (
                    spec_after_spans(
                        secret,
                        text,
                        lit_spans(text, encode_utf8(s)),
                        st,
                        e0,
                        pre,
                        "replace"@,
                        p,
                    ),
                    None,
                )
            },
        }
    } else if word_eq(t, "partial_mask"@) || word_eq(t, "partialMask"@) {
        (spec_partial(secret, text, st, e0, pre, p), None)
    } else if word_eq(t, "oauth"@) {
        (spec_fixed(secret, st, e0, text, detect::OAUTH@, pre, "oauth"@, p), None)
    } else {
        (unch, None)
    }
}

/// The pipeline from step `i` on: skip disabled steps, thread each step's
/// output text and store into the next, stop at the first error.
pub open spec fn spec_run_from(
    secret: Seq<u8>,
    st: StoreModel,
    text: Seq<u8>,
    steps: Seq<StepModel>,
    i: int,
) -> RunModel
    decreases steps.len() - i,
{
    if i < 0 || i >= steps.len() {
        RunModel { text: text, store: st, error: None }
    } else if !steps[i].enabled {
        spec_run_from(secret, st, text, steps, i + 1)
    } else {
        let so = spec_step(secret, st, text, steps[i]);
        if so.1 is Some {
            RunModel { text: text, store: st, error: so.1 }
        } else {
            spec_run_from(secret, so.0.store, so.0.text, steps, i + 1)
        }
    }
}

/// One whole pipeline run over fresh per-run state: only the session secret
/// carries over from earlier runs.
pub open spec fn spec_run(
    secret: Seq<u8>,
    input: Seq<u8>,
    cfg: crate::config::PipelineModel,
) -> RunModel {
    spec_run_from(secret, empty_store(), input, cfg.steps, 0)
}

/// True iff the tag `t` is the word `w` (compared by UTF-8 bytes).
fn type_is(t: &str, w: &str) -> (r: bool)
    ensures
        r == word_eq(t@, w@),
{
    bytes_eq(t.as_bytes(), w.as_bytes())
}

/// Normalizes a custom label into an identifier prefix.
fn normalize_label(l: &str) -> (r: Vec<u8>)
    ensures
        r@ == spec_label_prefix(l@),
{
    let up = l.to_uppercase();
    let n = up.as_str().unicode_len();
    let mut out = String::new();
    let mut i: usize = 0;
    while i < n
        invariant
            up@ == upper_of(l@),
            n == upper_of(l@).len(),
            i <= n,
            out@ == upper_of(l@).subrange(0, i as int).map_values(|c: char| norm_char(c)),
        decreases n - i,
    {
        let c = up.as_str().get_char(i);
        if c.is_alphanumeric() {
            out.push(c);
        } else {
            out.push('_');
        }
        proof {
            assert(out@ =~= upper_of(l@).subrange(0, i + 1).map_values(
                |c: char| norm_char(c),
            ));
        }
        i = i + 1;
    }
    proof {
        assert(upper_of(l@).subrange(0, n as int) =~= upper_of(l@));
    }
    out.as_str().as_bytes_vec()
}

/// The built-in prefix for a detector type.
fn default_prefix(t: &str) -> (r: Vec<u8>)
    ensures
        r@ == spec_default_prefix(t@),
{
    if type_is(t, "email") {
        "EMAIL".as_bytes_vec()
    } else if type_is(t, "regex") {
        "REGEX".as_bytes_vec()
    } else if type_is(t, "ipv4") {
        "IPV4".as_bytes_vec()
    } else if type_is(t, "ipv6") {
        "IPV6".as_bytes_vec()
    } else if type_is(t, "mac") {
        "MAC".as_bytes_vec()
    } else if type_is(t, "hostname") {
        "HOSTNAME".as_bytes_vec()
    } else if type_is(t, "jwt") {
        "JWT".as_bytes_vec()
    } else if type_is(t, "uuid") {
        "UUID".as_bytes_vec()
    } else if type_is(t, "phone") {
        "PHONE".as_bytes_vec()
    } else if type_is(t, "ssn") {
        "SSN".as_bytes_vec()
    } else if type_is(t, "credit_card") {
        "CC".as_bytes_vec()
    } else if type_is(t, "api_key") || type_is(t, "apikey") {
        "APIKEY".as_bytes_vec()
    } else if type_is(t, "url") {
        "URL".as_bytes_vec()
    } else if type_is(t, "username") {
        "USERNAME".as_bytes_vec()
    } else if type_is(t, "base64") {
        "BASE64".as_bytes_vec()
    } else if type_is(t, "json_key") || type_is(t, "jsonKey") {
        "JSON".as_bytes_vec()
    } else if type_is(t, "query_param") || type_is(t, "queryParam") {
        "PARAM".as_bytes_vec()
    } else if type_is(t, "http_header") || type_is(t, "header") {
        "HEADER".as_bytes_vec()
    } else if type_is(t, "replace") {
        "REPLACE".as_bytes_vec()
    } else if type_is(t, "partial_mask") || type_is(t, "partialMask") {
        "MASK".as_bytes_vec()
    } else if type_is(t, "oauth") {
        "OAUTH".as_bytes_vec()
    } else {
        "REDACTED".as_bytes_vec()
    }
}

/// The identifier prefix for one step.
fn resolve_prefix(step: &StepConfig) -> (r: Vec<u8>)
    ensures
        r@ == spec_prefix(step@),
{
    match &step.label {
        Some(l) => if !l.as_str().is_empty() {
            normalize_label(l.as_str())
        } else {
            default_prefix(step.step_type.as_str())
        },
        None => default_prefix(step.step_type.as_str()),
    }
}

/// Escapes every name and joins them with `|`.
fn join_escaped(parts: &Vec<String>) -> (r: String)
    ensures
        r@ == spec_join(parts.deep_view()),
{
    let mut out = String::new();
    let mut i: usize = 0;
    while i < parts.len()
        invariant
            i <= parts@.len(),
            parts.deep_view().len() == parts@.len(),
            out@ == spec_join_prefix(parts.deep_view(), i as int),
        decreases parts@.len() - i,
    {
        let ghost dv = parts.deep_view();
        proof {
            assert(dv[i as int] == parts@[i as int]@);
        }
        if i > 0 {
            out.append("|");
        }
        let esc = regex_escape(parts[i].as_str());
        out.append(esc.as_str());
        proof {
            if i == 0 {
                assert(out@ =~= spec_join_prefix(dv, 1));
            } else {
                assert(out@ =~= spec_join_prefix(dv, i + 1));
            }
        }
        i = i + 1;
    }
    out
}

impl Engine {
    /// Constructs an engine with a freshly drawn 32-byte session secret and
    /// empty per-run state.
    pub fn new() -> (e: Engine)
        ensures
            engine_wf(e@),
            e@.store == empty_store(),
            e@.claims == Seq::<ClaimedRegion>::empty(),
            store_fingerprints_keyed(e@.store, e@.secret),
    {
        let e = Engine { secret: fresh_session_secret(), store: Store::new(), claimed: Vec::new() };
        proof {
            assert(e@.claims =~= Seq::<ClaimedRegion>::empty());
        }
        e
    }

    /// The canonical entries of the most recent run, in first-seen order.
    pub fn canonical_entries(&self) -> (r: &Vec<CanonicalEntry>)
        ensures
            r@.map_values(|e: CanonicalEntry| e@) == self@.store.entries,
    {
        &self.store.entries
    }

    /// Runs a fixed-pattern detector over the text.
    fn redact_fixed(
        &mut self,
        text: &[u8],
        pattern: &str,
        prefix: &[u8],
        kind: &str,
        params: &crate::config::StepParams,
    ) -> (out: Vec<u8>)
        requires
            wf_store(old(self)@.store),
            claims_disjoint(old(self)@.claims),
            store_fingerprints_keyed(old(self)@.store, old(self)@.secret),
        ensures
            final(self)@.secret == old(self)@.secret,
            ({
                let o = spec_fixed(
                    old(self)@.secret,
                    old(self)@.store,
                    old(self)@.claims,
                    text@,
                    pattern@,
                    prefix@,
                    kind@,
                    params@,
                );
                &&& final(self)@.store == o.store
                &&& final(self)@.claims == o.claims
                &&& out@ == o.text
            }),
            wf_store(final(self)@.store),
            claims_disjoint(final(self)@.claims),
            store_fingerprints_keyed(final(self)@.store, final(self)@.secret),
    {
        match regex_find_spans(pattern, text) {
            None => copy_all(text),
            Some(spans) => {
                let filtered = filter_spans(&spans, &self.claimed, Ghost(text@.len()));
                apply_spans(
                    self.secret.as_slice(),
                    text,
                    &filtered,
                    &mut self.store,
                    &mut self.claimed,
                    prefix,
                    kind,
                    params,
                )
            },
        }
    }

    /// Runs a keyed-capture detector (group 1) over the text.
    fn redact_grouped(
        &mut self,
        text: &[u8],
        pattern: &str,
        prefix: &[u8],
        kind: &str,
        params: &crate::config::StepParams,
    ) -> (out: Vec<u8>)
        requires
            wf_store(old(self)@.store),
            claims_disjoint(old(self)@.claims),
            store_fingerprints_keyed(old(self)@.store, old(self)@.secret),
        ensures
            final(self)@.secret == old(self)@.secret,
            ({
                let o = spec_grouped(
                    old(self)@.secret,
                    old(self)@.store,
                    old(self)@.claims,
                    text@,
                    pattern@,
                    prefix@,
                    kind@,
                    params@,
                );
                &&& final(self)@.store == o.store
                &&& final(self)@.claims == o.claims
                &&& out@ == o.text
            }),
            wf_store(final(self)@.store),
            claims_disjoint(final(self)@.claims),
            store_fingerprints_keyed(final(self)@.store, final(self)@.secret),
    {
        match regex_group_spans(pattern, text, 1) {
            None => copy_all(text),
            Some(spans) => {
                let filtered = filter_spans(&spans, &self.claimed, Ghost(text@.len()));
                apply_spans(
                    self.secret.as_slice(),
                    text,
                    &filtered,
                    &mut self.store,
                    &mut self.claimed,
                    prefix,
                    kind,
                    params,
                )
            },
        }
    }

    /// Runs a name-list detector: builds the pattern from the escaped names
    /// between the two fragments.
    fn redact_keyed(
        &mut self,
        text: &[u8],
        list: &Option<Vec<String>>,
        pre_frag: &str,
        suf_frag: &str,
        prefix: &[u8],
        kind: &str,
        params: &crate::config::StepParams,
    ) -> (out: Vec<u8>)
        requires
            wf_store(old(self)@.store),
            claims_disjoint(old(self)@.claims),
            store_fingerprints_keyed(old(self)@.store, old(self)@.secret),
        ensures
            final(self)@.secret == old(self)@.secret,
            ({
                let o = spec_keyed(
                    old(self)@.secret,
                    old(self)@.store,
                    old(self)@.claims,
                    text@,
                    pre_frag@,
                    suf_frag@,
                    list.deep_view(),
                    prefix@,
                    kind@,
                    params@,
                );
                &&& final(self)@.store == o.store
                &&& final(self)@.claims == o.claims
                &&& out@ == o.text
            }),
            wf_store(final(self)@.store),
            claims_disjoint(final(self)@.claims),
            store_fingerprints_keyed(final(self)@.store, final(self)@.secret),
    {
        match list {
            None => copy_all(text),
            Some(parts) => {
                if parts.len() == 0 {
                    return copy_all(text);
                }
                let joined = join_escaped(parts);
                if joined.as_str().is_empty() {
                    return copy_all(text);
                }
                let mut pat = String::new();
                pat.append(pre_frag);
                pat.append(joined.as_str());
                pat.append(suf_frag);
                proof {
                    assert(pat@ =~= pre_frag@ + spec_join(parts.deep_view()) + suf_frag@);
                }
                self.redact_grouped(text, pat.as_str(), prefix, kind, params)
            },
        }
    }

    /// Executes one step: clears the claim state, resolves the identifier
    /// prefix, and dispatches on the step type. Claims never cross a step
    /// boundary — the outcome is computed from an empty claim list whatever
    /// an earlier step claimed, so a later step may legitimately re-match
    /// text that an earlier step produced; within the step, the final claim
    /// list is pairwise disjoint.
    pub fn execute_step(&mut self, step: &StepConfig, text: &[u8]) -> (r: Result<
        Vec<u8>,
        EngineError,
    >)
        requires
            wf_store(old(self)@.store),
            store_fingerprints_keyed(old(self)@.store, old(self)@.secret),
        ensures
            final(self)@.secret == old(self)@.secret,
            ({
                let so = spec_step(old(self)@.secret, old(self)@.store, text@, step@);
                &&& final(self)@.store == so.0.store
                &&& final(self)@.claims == so.0.claims
                &&& (r matches Ok(out) ==> so.1 is None && out@ == so.0.text)
                &&& (r matches Err(e) ==> so.1 == Some(e))
            }),
            r is Err ==> final(self)@.store == old(self)@.store,
            wf_store(final(self)@.store),
            claims_disjoint(final(self)@.claims),
            store_fingerprints_keyed(final(self)@.store, final(self)@.secret),
    {
        proof {
            reveal(crate::engine::spec_step);
        }
        self.claimed.clear();
        proof {
            assert(self@.claims =~= Seq::<ClaimedRegion>::empty());
        }
        let prefix = resolve_prefix(step);
        let t = step.step_type.as_str();
        let p = &step.config;
        if type_is(t, "email") {
            Ok(self.redact_fixed(text, detect::EMAIL, prefix.as_slice(), "email", p))
        } else if type_is(t, "regex") {
            match &p.pattern {
                None => Err(EngineError::MissingPattern),
                Some(pt) => {
                    if pt.as_str().is_empty() {
                        Ok(copy_all(text))
                    } else {
                        Ok(self.redact_fixed(text, pt.as_str(), prefix.as_slice(), "regex", p))
                    }
                },
            }
        } else if type_is(t, "ipv4") {
            Ok(self.redact_fixed(text, detect::IPV4, prefix.as_slice(), "ipv4", p))
        } else if type_is(t, "ipv6") {
            Ok(self.redact_fixed(text, detect::IPV6, prefix.as_slice(), "ipv6", p))
        } else if type_is(t, "mac") {
            Ok(self.redact_fixed(text, detect::MAC, prefix.as_slice(), "mac", p))
        } else if type_is(t, "hostname") {
            Ok(self.redact_fixed(text, detect::HOSTNAME, prefix.as_slice(), "hostname", p))
        } else if type_is(t, "jwt") {
            Ok(self.redact_fixed(text, detect::JWT, prefix.as_slice(), "jwt", p))
        } else if type_is(t, "uuid") {
            Ok(self.redact_fixed(text, detect::UUID, prefix.as_slice(), "uuid", p))
        } else if type_is(t, "phone") {
            Ok(self.redact_fixed(text, detect::PHONE, prefix.as_slice(), "phone", p))
        } else if type_is(t, "ssn") {
            Ok(self.redact_fixed(text, detect::SSN, prefix.as_slice(), "ssn", p))
        } else if type_is(t, "credit_card") {
            Ok(self.redact_fixed(text, detect::CREDIT_CARD, prefix.as_slice(), "credit_card", p))
        } else if type_is(t, "api_key") || type_is(t, "apikey") {
            match &p.prefix {
                Some(pr) => {
                    if !pr.as_str().is_empty() {
                        let esc = regex_escape(pr.as_str());
                        let mut pat = String::new();
                        pat.append(detect::API_PRE);
                        pat.append(esc.as_str());
                        pat.append(detect::API_SUF);
                        proof {
                            assert(pat@ =~= detect::API_PRE@ + escaped(pr@) + detect::API_SUF@);
                        }
                        Ok(self.redact_fixed(text, pat.as_str(), prefix.as_slice(), "api_key", p))
                    } else {
                        Ok(
                            self.redact_fixed(
                                text,
                                detect::API_KEY_DEFAULT,
                                prefix.as_slice(),
                                "api_key",
                                p,
                            ),
                        )
                    }
                },
                None => {
                    Ok(
                        self.redact_fixed(
                            text,
                            detect::API_KEY_DEFAULT,
                            prefix.as_slice(),
                            "api_key",
                            p,
                        ),
                    )
                },
            }
        } else if type_is(t, "url") {
            Ok(self.redact_fixed(text, detect::URL, prefix.as_slice(), "url", p))
        } else if type_is(t, "username") {
            Ok(self.redact_grouped(text, detect::USERNAME, prefix.as_slice(), "username", p))
        } else if type_is(t, "base64") {
            Ok(self.redact_fixed(text, detect::BASE64, prefix.as_slice(), "base64", p))
        } else if type_is(t, "json_key") || type_is(t, "jsonKey") {
            Ok(
                self.redact_keyed(
                    text,
                    &p.keys,
                    detect::JSON_PRE,
                    detect::JSON_SUF,
                    prefix.as_slice(),
                    "json_key",
                    p,
                ),
            )
        } else if type_is(t, "query_param") || type_is(t, "queryParam") {
            Ok(
                self.redact_keyed(
                    text,
                    &p.names,
                    detect::QUERY_PRE,
                    detect::QUERY_SUF,
                    prefix.as_slice(),
                    "query_param",
                    p,
                ),
            )
        } else if type_is(t, "http_header") || type_is(t, "header") {
            Ok(
                self.redact_keyed(
                    text,
                    &p.names,
                    detect::HEADER_PRE,
                    detect::HEADER_SUF,
                    prefix.as_slice(),
                    "http_header",
                    p,
                ),
            )
        } else if type_is(t, "replace") {
            match &p.search {
                None => Err(EngineError::MissingSearch),
                Some(s) => {
                    let sb = s.as_str().as_bytes_vec();
                    if sb.len() == 0 {
                        Ok(copy_all(text))
                    } else {
                        let spans = find_literal_spans(text, sb.as_slice());
                        let filtered = filter_spans(&spans, &self.claimed, Ghost(text@.len()));
                        Ok(
                            apply_spans(
                                self.secret.as_slice(),
                                text,
                                &filtered,
                                &mut self.store,
                                &mut self.claimed,
                                prefix.as_slice(),
                                "replace",
                                p,
                            ),
                        )
                    }
                },
            }
        } else if type_is(t, "partial_mask") || type_is(t, "partialMask") {
            Ok(
                apply_partial_mask(
                    self.secret.as_slice(),
                    text,
                    &mut self.store,
                    &mut self.claimed,
                    prefix.as_slice(),
                    p,
                ),
            )
        } else if type_is(t, "oauth") {
            Ok(self.redact_fixed(text, detect::OAUTH, prefix.as_slice(), "oauth", p))
        } else {
            Ok(copy_all(text))
        }
    }

    /// Runs the pipeline over the input: resets all per-run state, executes
    /// the enabled steps in order over the evolving text, and returns the
    /// final text. The canonicalization store afterwards reflects only this
    /// run; the session secret never changes.
    #[verifier::rlimit(60)]
    pub fn run_pipeline(&mut self, input: &[u8], config: &PipelineConfig) -> (r: Result<
        Vec<u8>,
        EngineError,
    >)
        requires
            engine_wf(old(self)@),
        ensures
            engine_wf(final(self)@),
            final(self)@.secret == old(self)@.secret,
            store_fingerprints_keyed(final(self)@.store, final(self)@.secret),
            ({
                let m = spec_run(old(self)@.secret, input@, config@);
                &&& (r matches Ok(out) ==> m.error is None && out@ == m.text && final(self)@.store
                    == m.store)
                &&& (r matches Err(e) ==> m.error == Some(e) && final(self)@.store == m.store)
            }),
    {
        let ghost goal = spec_run(old(self)@.secret, input@, config@);
        self.claimed.clear();
        self.store.clear();
        proof {
            assert(self@.claims =~= Seq::<ClaimedRegion>::empty());
        }
        let mut current: Vec<u8> = slice_to_vec(input);
        let mut i: usize = 0;
        while i < config.steps.len()
            invariant
                i <= config.steps@.len(),
                config@.steps.len() == config.steps@.len(),
                self@.secret == old(self)@.secret,
                self@.secret.len() == 32,
                wf_store(self@.store),
                claims_disjoint(self@.claims),
                store_fingerprints_keyed(self@.store, self@.secret),
                goal == spec_run(old(self)@.secret, input@, config@),
                spec_run_from(self@.secret, self@.store, current@, config@.steps, i as int)
                    == goal,
            decreases config.steps@.len() - i,
        {
            let step = &config.steps[i];
            proof {
                assert(config@.steps[i as int] == config.steps@[i as int]@);
            }
            if step.enabled {
                let ghost st0 = self@.store;
                let ghost cur0 = current@;
                match self.execute_step(step, current.as_slice()) {
                    Ok(t) => {
                        current = t;
                        proof {
                            assert(spec_run_from(
                                self@.secret,
                                self@.store,
                                current@,
                                config@.steps,
                                i + 1,
                            ) == spec_run_from(self@.secret, st0, cur0, config@.steps, i as int));
                        }
                    },
                    Err(e) => {
                        proof {
                            assert(goal == (RunModel { text: cur0, store: st0, error: Some(e) }));
                        }
                        return Err(e);
                    },
                }
            }
            i = i + 1;
        }
        proof {
            assert(spec_run_from(self@.secret, self@.store, current@, config@.steps, i as int)
                == RunModel { text: current@, store: self@.store, error: None });
        }
        Ok(current)
    }
}

} // verus!
