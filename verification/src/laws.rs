//! The engine's laws: determinism, per-run reset, fingerprint stability,
//! and the collapsing of byte-identical values, stated over the run model
//! that `Engine::run_pipeline` is proved to implement.

use crate::claims::ClaimedRegion;
use crate::config::{ParamsModel, PipelineModel, StepModel};
use crate::detect;
use crate::detect::lit_spans;
use crate::engine::{
    spec_join, spec_prefix, spec_run, spec_run_from, spec_step, EngineModel,
};
use crate::fingerprint::fingerprint_of;
use crate::refind::{escaped, found_group_spans, found_spans, pattern_compiles};
use crate::step::{spec_after_spans, spec_ctx, spec_filter, spec_partial, spec_process};
use crate::store::{
    empty_store, find_entry, lemma_record_preserves_wf, sat_inc, spec_record, spec_record_id,
    store_fingerprints_keyed, wf_store, StoreModel,
};
use vstd::prelude::*;
use vstd::utf8::encode_utf8;

verus! {

/// Determinism: a run's output text, store and error depend on the session
/// secret, the input text and the pipeline alone. Two engines with the same
/// secret produce the same result on the same input, whatever their earlier
/// runs left in the per-run state.
pub proof fn lemma_run_deterministic(
    m1: EngineModel,
    m2: EngineModel,
    input: Seq<u8>,
    cfg: PipelineModel,
)
    requires
        m1.secret == m2.secret,
    ensures
        spec_run(m1.secret, input, cfg) == spec_run(m2.secret, input, cfg),
{
}

/// Per-run reset: a run starts from the empty store whatever state an
/// earlier run left behind, so running the same pipeline twice on one
/// engine — whose secret never changes — gives identical output and
/// identical canonical entries, identifiers included, both times.
pub proof fn lemma_per_run_reset(
    before: EngineModel,
    after: EngineModel,
    input: Seq<u8>,
    cfg: PipelineModel,
)
    requires
        after.secret == before.secret,
    ensures
        spec_run(after.secret, input, cfg) == spec_run(before.secret, input, cfg),
{
}

/// Fingerprint stability across runs: in any two stores whose entries are
/// keyed by the fingerprint of their first-seen value under one secret — as
/// every store a run leaves behind is — entries for byte-identical values
/// carry the same fingerprint, while counts and identifiers belong to each
/// run alone.
pub proof fn lemma_fingerprint_stability(
    s1: StoreModel,
    s2: StoreModel,
    secret: Seq<u8>,
    i: int,
    j: int,
)
    requires
        store_fingerprints_keyed(s1, secret),
        store_fingerprints_keyed(s2, secret),
        0 <= i < s1.entries.len(),
        0 <= j < s2.entries.len(),
        s1.entries[i].original == s2.entries[j].original,
    ensures
        s1.entries[i].fingerprint == s2.entries[j].fingerprint,
{
}

/// Collapsing: recording a value whose fingerprint the store already holds
/// creates no entry — it bumps that entry's count and leaves its identity
/// untouched — while a fresh fingerprint appends exactly one entry with one
/// occurrence.
pub proof fn lemma_collapsing(
    m: StoreModel,
    fp: Seq<u8>,
    value: Seq<u8>,
    prefix: Seq<u8>,
    kind: Seq<char>,
    ctx: Option<Seq<u8>>,
)
    ensures
        ({
            let i = find_entry(m.entries, fp);
            let m2 = spec_record(m, fp, value, prefix, kind, ctx);
            &&& i >= 0 ==> m2.entries.len() == m.entries.len()
            &&& i >= 0 ==> m2.entries[i].occurrences == sat_inc(m.entries[i].occurrences)
            &&& i >= 0 ==> m2.entries[i].id == m.entries[i].id
            &&& i >= 0 ==> m2.entries[i].fingerprint == m.entries[i].fingerprint
            &&& i >= 0 ==> m2.entries[i].original == m.entries[i].original
            &&& i < 0 ==> m2.entries.len() == m.entries.len() + 1
            &&& i < 0 ==> m2.entries[m.entries.len() as int].occurrences == 1
            &&& i < 0 ==> m2.entries[m.entries.len() as int].fingerprint == fp
            &&& i < 0 ==> m2.entries[m.entries.len() as int].original == value
        }),
{
    crate::store::lemma_find_entry_from(m.entries, fp, 0);
}

/// Span processing keeps the store well-formed and every entry's
/// fingerprint tied to its first-seen value.
pub proof fn lemma_process_keyed(
    secret: Seq<u8>,
    text: Seq<u8>,
    spans: Seq<(usize, usize)>,
    i: int,
    st: StoreModel,
    claims: Seq<ClaimedRegion>,
    out: Seq<u8>,
    copied: int,
    prefix: Seq<u8>,
    kind: Seq<char>,
    p: ParamsModel,
)
    requires
        wf_store(st),
        store_fingerprints_keyed(st, secret),
    ensures
        ({
            let o = spec_process(
                secret,
                text,
                spans,
                i,
                st,
                claims,
                out,
                copied,
                prefix,
                kind,
                p,
            );
            wf_store(o.store) && store_fingerprints_keyed(o.store, secret)
        }),
    decreases spans.len() - i,
{
    if 0 <= i < spans.len() {
        let s = spans[i].0 as int;
        let e = spans[i].1 as int;
        let orig = text.subrange(s, e);
        let fp = fingerprint_of(secret, orig);
        let id = spec_record_id(st, fp, prefix);
        let st2 = spec_record(st, fp, orig, prefix, kind, Some(spec_ctx(text, s, e)));
        let repl = crate::render::spec_render(orig, id, p);
        lemma_record_preserves_wf(st, fp, orig, prefix, kind, Some(spec_ctx(text, s, e)), secret);
        lemma_process_keyed(
            secret,
            text,
            spans,
            i + 1,
            st2,
            claims.push(ClaimedRegion { start: spans[i].0, end: spans[i].1 }),
            out + text.subrange(copied, s) + repl,
            e,
            prefix,
            kind,
            p,
        );
    }
}

/// One whole detector application keeps the store well-formed and keyed.
pub proof fn lemma_after_spans_keyed(
    secret: Seq<u8>,
    text: Seq<u8>,
    spans: Seq<(usize, usize)>,
    st: StoreModel,
    claims: Seq<ClaimedRegion>,
    prefix: Seq<u8>,
    kind: Seq<char>,
    p: ParamsModel,
)
    requires
        wf_store(st),
        store_fingerprints_keyed(st, secret),
    ensures
        ({
            let o = spec_after_spans(secret, text, spans, st, claims, prefix, kind, p);
            wf_store(o.store) && store_fingerprints_keyed(o.store, secret)
        }),
{
    lemma_process_keyed(
        secret,
        text,
        spec_filter(spans, claims, 0),
        0,
        st,
        claims,
        Seq::empty(),
        0,
        prefix,
        kind,
        p,
    );
}

/// A `partial_mask` step keeps the store well-formed and keyed.
pub proof fn lemma_partial_keyed(
    secret: Seq<u8>,
    text: Seq<u8>,
    st: StoreModel,
    claims: Seq<ClaimedRegion>,
    prefix: Seq<u8>,
    p: ParamsModel,
)
    requires
        wf_store(st),
        store_fingerprints_keyed(st, secret),
    ensures
        ({
            let o = spec_partial(secret, text, st, claims, prefix, p);
            wf_store(o.store) && store_fingerprints_keyed(o.store, secret)
        }),
{
    let start64 = match p.start {
        Some(v) => v,
        None => 0,
    };
    let end64 = match p.end {
        Some(v) => v,
        None => text.len() as u64,
    };
    if !(start64 >= text.len() as u64 || start64 >= end64) {
        let s = start64 as int;
        let eb = if end64 > text.len() as u64 {
            text.len() as int
        } else {
            end64 as int
        };
        let orig = text.subrange(s, eb);
        lemma_record_preserves_wf(
            st,
            fingerprint_of(secret, orig),
            orig,
            prefix,
            "partial_mask"@,
            None,
            secret,
        );
    }
}

/// Every step, whatever detector it selects, keeps the store well-formed
/// and keyed.
#[verifier::rlimit(60)]
pub proof fn lemma_step_keyed(secret: Seq<u8>, st: StoreModel, text: Seq<u8>, sm: StepModel)
    requires
        wf_store(st),
        store_fingerprints_keyed(st, secret),
    ensures
        ({
            let o = spec_step(secret, st, text, sm).0;
            wf_store(o.store) && store_fingerprints_keyed(o.store, secret)
        }),
{
    reveal(crate::engine::spec_step);
    let pre = spec_prefix(sm);
    let p = sm.config;
    let e0 = Seq::<ClaimedRegion>::empty();
    lemma_fixed_keyed(secret, st, e0, text, detect::EMAIL@, pre, "email"@, p);
    lemma_fixed_keyed(secret, st, e0, text, p.pattern->0, pre, "regex"@, p);
    lemma_fixed_keyed(secret, st, e0, text, detect::IPV4@, pre, "ipv4"@, p);
    lemma_fixed_keyed(secret, st, e0, text, detect::IPV6@, pre, "ipv6"@, p);
    lemma_fixed_keyed(secret, st, e0, text, detect::MAC@, pre, "mac"@, p);
    lemma_fixed_keyed(secret, st, e0, text, detect::HOSTNAME@, pre, "hostname"@, p);
    lemma_fixed_keyed(secret, st, e0, text, detect::JWT@, pre, "jwt"@, p);
    lemma_fixed_keyed(secret, st, e0, text, detect::UUID@, pre, "uuid"@, p);
    lemma_fixed_keyed(secret, st, e0, text, detect::PHONE@, pre, "phone"@, p);
    lemma_fixed_keyed(secret, st, e0, text, detect::SSN@, pre, "ssn"@, p);
    lemma_fixed_keyed(secret, st, e0, text, detect::CREDIT_CARD@, pre, "credit_card"@, p);
    lemma_fixed_keyed(
        secret,
        st,
        e0,
        text,
        detect::API_PRE@ + escaped(p.prefix->0) + detect::API_SUF@,
        pre,
        "api_key"@,
        p,
    );
    lemma_fixed_keyed(secret, st, e0, text, detect::API_KEY_DEFAULT@, pre, "api_key"@, p);
    lemma_fixed_keyed(secret, st, e0, text, detect::URL@, pre, "url"@, p);
    lemma_grouped_keyed(secret, st, e0, text, detect::USERNAME@, pre, "username"@, p);
    lemma_fixed_keyed(secret, st, e0, text, detect::BASE64@, pre, "base64"@, p);
    lemma_keyed_detector_keyed(
        secret,
        st,
        e0,
        text,
        detect::JSON_PRE@,
        detect::JSON_SUF@,
        p.keys,
        pre,
        "json_key"@,
        p,
    );
    lemma_keyed_detector_keyed(
        secret,
        st,
        e0,
        text,
        detect::QUERY_PRE@,
        detect::QUERY_SUF@,
        p.names,
        pre,
        "query_param"@,
        p,
    );
    lemma_keyed_detector_keyed(
        secret,
        st,
        e0,
        text,
        detect::HEADER_PRE@,
        detect::HEADER_SUF@,
        p.names,
        pre,
        "http_header"@,
        p,
    );
    lemma_after_spans_keyed(
        secret,
        text,
        lit_spans(text, encode_utf8(p.search->0)),
        st,
        e0,
        pre,
        "replace"@,
        p,
    );
    lemma_partial_keyed(secret, text, st, e0, pre, p);
    lemma_fixed_keyed(secret, st, e0, text, detect::OAUTH@, pre, "oauth"@, p);
}

/// A fixed-pattern detector keeps the store well-formed and keyed.
pub proof fn lemma_fixed_keyed(
    secret: Seq<u8>,
    st: StoreModel,
    cl: Seq<ClaimedRegion>,
    text: Seq<u8>,
    pattern: Seq<char>,
    prefix: Seq<u8>,
    kind: Seq<char>,
    p: ParamsModel,
)
    requires
        wf_store(st),
        store_fingerprints_keyed(st, secret),
    ensures
        ({
            let o = crate::engine::spec_fixed(secret, st, cl, text, pattern, prefix, kind, p);
            wf_store(o.store) && store_fingerprints_keyed(o.store, secret)
        }),
{
    if pattern_compiles(pattern) {
        lemma_after_spans_keyed(
            secret,
            text,
            found_spans(pattern, text),
            st,
            cl,
            prefix,
            kind,
            p,
        );
    }
}

/// A keyed-capture detector keeps the store well-formed and keyed.
pub proof fn lemma_grouped_keyed(
    secret: Seq<u8>,
    st: StoreModel,
    cl: Seq<ClaimedRegion>,
    text: Seq<u8>,
    pattern: Seq<char>,
    prefix: Seq<u8>,
    kind: Seq<char>,
    p: ParamsModel,
)
    requires
        wf_store(st),
        store_fingerprints_keyed(st, secret),
    ensures
        ({
            let o = crate::engine::spec_grouped(
                secret,
                st,
                cl,
                text,
                pattern,
                prefix,
                kind,
                p,
            );
            wf_store(o.store) && store_fingerprints_keyed(o.store, secret)
        }),
{
    if pattern_compiles(pattern) {
        lemma_after_spans_keyed(
            secret,
            text,
            found_group_spans(pattern, text, 1),
            st,
            cl,
            prefix,
            kind,
            p,
        );
    }
}

/// A name-list detector keeps the store well-formed and keyed.
pub proof fn lemma_keyed_detector_keyed(
    secret: Seq<u8>,
    st: StoreModel,
    cl: Seq<ClaimedRegion>,
    text: Seq<u8>,
    pre: Seq<char>,
    suf: Seq<char>,
    parts: Option<Seq<Seq<char>>>,
    prefix: Seq<u8>,
    kind: Seq<char>,
    p: ParamsModel,
)
    requires
        wf_store(st),
        store_fingerprints_keyed(st, secret),
    ensures
        ({
            let o = crate::engine::spec_keyed(
                secret,
                st,
                cl,
                text,
                pre,
                suf,
                parts,
                prefix,
                kind,
                p,
            );
            wf_store(o.store) && store_fingerprints_keyed(o.store, secret)
        }),
{
    match parts {
        None => {},
        Some(ps) => {
            if ps.len() > 0 && spec_join(ps).len() > 0 {
                lemma_grouped_keyed(
                    secret,
                    st,
                    cl,
                    text,
                    pre + spec_join(ps) + suf,
                    prefix,
                    kind,
                    p,
                );
            }
        },
    }
}

/// The whole pipeline, from any step on, keeps the store well-formed and
/// keyed.
pub proof fn lemma_run_from_keyed(
    secret: Seq<u8>,
    st: StoreModel,
    text: Seq<u8>,
    steps: Seq<StepModel>,
    i: int,
)
    requires
        wf_store(st),
        store_fingerprints_keyed(st, secret),
    ensures
        ({
            let m = spec_run_from(secret, st, text, steps, i);
            wf_store(m.store) && store_fingerprints_keyed(m.store, secret)
        }),
    decreases steps.len() - i,
{
    if 0 <= i < steps.len() {
        if !steps[i].enabled {
            lemma_run_from_keyed(secret, st, text, steps, i + 1);
        } else {
            let so = spec_step(secret, st, text, steps[i]);
            lemma_step_keyed(secret, st, text, steps[i]);
            if so.1 is None {
                lemma_run_from_keyed(secret, so.0.store, so.0.text, steps, i + 1);
            }
        }
    }
}

/// Every run leaves a well-formed store — one entry per fingerprint, at
/// most three distinct contexts per entry — in which each entry's
/// fingerprint is the keyed fingerprint of its first-seen value.
pub proof fn lemma_run_keyed(secret: Seq<u8>, input: Seq<u8>, cfg: PipelineModel)
    ensures
        wf_store(spec_run(secret, input, cfg).store),
        store_fingerprints_keyed(spec_run(secret, input, cfg).store, secret),
{
    assert(wf_store(empty_store()));
    assert(store_fingerprints_keyed(empty_store(), secret));
    lemma_run_from_keyed(secret, empty_store(), input, cfg.steps, 0);
}

/// Fingerprint stability between whole runs: entries recorded for
/// byte-identical values by any two runs under one secret carry the same
/// fingerprint, though each run assigned its identifiers and counts afresh.
pub proof fn lemma_fingerprint_stability_across_runs(
    secret: Seq<u8>,
    input1: Seq<u8>,
    cfg1: PipelineModel,
    input2: Seq<u8>,
    cfg2: PipelineModel,
    i: int,
    j: int,
)
    requires
        0 <= i < spec_run(secret, input1, cfg1).store.entries.len(),
        0 <= j < spec_run(secret, input2, cfg2).store.entries.len(),
        spec_run(secret, input1, cfg1).store.entries[i].original == spec_run(
            secret,
            input2,
            cfg2,
        ).store.entries[j].original,
    ensures
        spec_run(secret, input1, cfg1).store.entries[i].fingerprint == spec_run(
            secret,
            input2,
            cfg2,
        ).store.entries[j].fingerprint,
{
    lemma_run_keyed(secret, input1, cfg1);
    lemma_run_keyed(secret, input2, cfg2);
}

/// Collapsing at run level: within one run, no two canonical entries hold
/// the same value — byte-identical occurrences always fall into one entry.
pub proof fn lemma_values_collapse(
    secret: Seq<u8>,
    input: Seq<u8>,
    cfg: PipelineModel,
    i: int,
    j: int,
)
    requires
        0 <= i < j < spec_run(secret, input, cfg).store.entries.len(),
    ensures
        spec_run(secret, input, cfg).store.entries[i].original != spec_run(
            secret,
            input,
            cfg,
        ).store.entries[j].original,
{
    lemma_run_keyed(secret, input, cfg);
    let es = spec_run(secret, input, cfg).store.entries;
    assert(es[i].fingerprint != es[j].fingerprint);
    if es[i].original == es[j].original {
        assert(es[i].fingerprint == fingerprint_of(secret, es[i].original));
        assert(es[j].fingerprint == fingerprint_of(secret, es[j].original));
    }
}

} // verus!
