//! The shared core of every detector step: filter candidate spans through
//! the claim tracker, then process the survivors left to right — fingerprint,
//! record, render, splice — building the output text in one pass.

use crate::bytes::{append_bytes, spec_repeat, take_range};
use crate::claims::{
    claims_disjoint, is_region_claimed, lemma_claim_keeps_disjoint, ranges_overlap, spec_claimed,
    ClaimedRegion,
};
use crate::config::{ParamsModel, StepParams};
use crate::fingerprint::{fingerprint, fingerprint_of};
use crate::refind::wf_spans;
use crate::render::{mask_char_vec, render, spec_mask_char, spec_render};
use crate::store::{
    lemma_record_preserves_wf, spec_record, spec_record_id, store_fingerprints_keyed, wf_store,
    Store, StoreModel,
};
use vstd::prelude::*;
use vstd::slice::slice_subrange;

verus! {

/// What one step leaves behind: the store, the rewritten text, and the
/// claim list.
#[verifier::ext_equal]
pub struct StepOutcome {
    pub store: StoreModel,
    pub text: Seq<u8>,
    pub claims: Seq<ClaimedRegion>,
}

/// The context snippet around `[s, e)`: up to twenty bytes on either side.
pub open spec fn spec_ctx(text: Seq<u8>, s: int, e: int) -> Seq<u8> {
    let cs = if s >= 20 {
        s - 20
    } else {
        0
    };
    let ce = if e + 20 <= text.len() {
        e + 20
    } else {
        text.len() as int
    };
    text.subrange(cs, ce)
}

/// The spans at or after `i` that do not intersect an already claimed
/// region, in order.
pub open spec fn spec_filter(
    spans: Seq<(usize, usize)>,
    cs: Seq<ClaimedRegion>,
    i: int,
) -> Seq<(usize, usize)>
    decreases spans.len() - i,
{
    if i < 0 || i >= spans.len() {
        Seq::empty()
    } else if spec_claimed(cs, spans[i].0 as int, spans[i].1 as int) {
        spec_filter(spans, cs, i + 1)
    } else {
        seq![spans[i]] + spec_filter(spans, cs, i + 1)
    }
}

/// Processing the spans from `i` on: for each span, fingerprint the matched
/// bytes, record the occurrence with its context, render the substitute
/// under the step's parameters, copy the unconsumed text up to the span
/// followed by the substitute, and claim the span. The text before `copied` is
/// already in `out`; the tail is flushed at the end.
pub open spec fn spec_process(
    secret: Seq<u8>,
    text: Seq<u8>,
    spans: Seq<(usize, usize)>,
    i: int,
    st: StoreModel,
    claims: Seq<ClaimedRegion>,
    out: Seq<u8>,
    copied: int,
    prefix: Seq<u8>,
    kind: Seq<char>,
    p: ParamsModel,
) -> StepOutcome
    decreases spans.len() - i,
{
    if i < 0 || i >= spans.len() {
        StepOutcome { store: st, text: out + text.subrange(copied, text.len() as int), claims }
    } else {
        let s = spans[i].0 as int;
        let e = spans[i].1 as int;
        let orig = text.subrange(s, e);
        let fp = fingerprint_of(secret, orig);
        let id = spec_record_id(st, fp, prefix);
        let st2 = spec_record(st, fp, orig, prefix, kind, Some(spec_ctx(text, s, e)));
        let repl = spec_render(orig, id, p);
        spec_process(
            secret,
            text,
            spans,
            i + 1,
            st2,
            claims.push(ClaimedRegion { start: spans[i].0, end: spans[i].1 }),
            out + text.subrange(copied, s) + repl,
            e,
            prefix,
            kind,
            p,
        )
    }
}

/// One whole detector application: filter the candidate spans against the
/// claims present at step start, then process the survivors.
pub open spec fn spec_after_spans(
    secret: Seq<u8>,
    text: Seq<u8>,
    spans: Seq<(usize, usize)>,
    st: StoreModel,
    claims: Seq<ClaimedRegion>,
    prefix: Seq<u8>,
    kind: Seq<char>,
    p: ParamsModel,
) -> StepOutcome {
    spec_process(
        secret,
        text,
        spec_filter(spans, claims, 0),
        0,
        st,
        claims,
        Seq::empty(),
        0,
        prefix,
        kind,
        p,
    )
}

/// Keeps the candidate spans that intersect no already claimed region.
pub(crate) fn filter_spans(
    spans: &Vec<(usize, usize)>,
    cs: &Vec<ClaimedRegion>,
    Ghost(len): Ghost<nat>,
) -> (out: Vec<(usize, usize)>)
    requires
        wf_spans(spans@, len),
    ensures
        out@ == spec_filter(spans@, cs@, 0),
        wf_spans(out@, len),
        forall|k: int|
            #![trigger out@[k]]
            0 <= k < out@.len() ==> !spec_claimed(cs@, out@[k].0 as int, out@[k].1 as int),
{
    let mut out: Vec<(usize, usize)> = Vec::new();
    let mut i: usize = 0;
    while i < spans.len()
        invariant
            i <= spans@.len(),
            wf_spans(spans@, len),
            wf_spans(out@, len),
            forall|k: int|
                #![trigger out@[k]]
                0 <= k < out@.len() ==> !spec_claimed(cs@, out@[k].0 as int, out@[k].1 as int),
            forall|k: int|
                #![trigger out@[k]]
                0 <= k < out@.len() && i < spans@.len() ==> out@[k].1 <= spans@[i as int].0,
            out@ + spec_filter(spans@, cs@, i as int) == spec_filter(spans@, cs@, 0),
        decreases spans@.len() - i,
    {
        let (s, e) = spans[i];
        let ghost out0 = out@;
        if !is_region_claimed(cs, s, e) {
            out.push((s, e));
            proof {
                assert(out@ + spec_filter(spans@, cs@, i + 1) =~= out0 + spec_filter(
                    spans@,
                    cs@,
                    i as int,
                ));
            }
        }
        i = i + 1;
    }
    proof {
        assert(out@ + spec_filter(spans@, cs@, spans@.len() as int) =~= out@);
    }
    out
}

/// Processes already-filtered spans. The spans are ordered, non-overlapping,
/// in bounds, and intersect nothing already claimed.
pub(crate) fn apply_spans(
    secret: &[u8],
    text: &[u8],
    spans: &Vec<(usize, usize)>,
    store: &mut Store,
    claims: &mut Vec<ClaimedRegion>,
    prefix: &[u8],
    kind: &str,
    params: &StepParams,
) -> (out: Vec<u8>)
    requires
        wf_spans(spans@, text@.len()),
        forall|k: int|
            #![trigger spans@[k]]
            0 <= k < spans@.len() ==> !spec_claimed(
                old(claims)@,
                spans@[k].0 as int,
                spans@[k].1 as int,
            ),
        wf_store(old(store)@),
        claims_disjoint(old(claims)@),
    ensures
        ({
            let o = spec_process(
                secret@,
                text@,
                spans@,
                0,
                old(store)@,
                old(claims)@,
                Seq::empty(),
                0,
                prefix@,
                kind@,
                params@,
            );
            &&& final(store)@ == o.store
            &&& final(claims)@ == o.claims
            &&& out@ == o.text
        }),
        wf_store(final(store)@),
        claims_disjoint(final(claims)@),
        store_fingerprints_keyed(old(store)@, secret@) ==> store_fingerprints_keyed(
            final(store)@,
            secret@,
        ),
{
    let ghost goal = spec_process(
        secret@,
        text@,
        spans@,
        0,
        old(store)@,
        old(claims)@,
        Seq::empty(),
        0,
        prefix@,
        kind@,
        params@,
    );
    let mut out: Vec<u8> = Vec::new();
    let mut copied: usize = 0;
    let mut i: usize = 0;
    while i < spans.len()
        invariant
            i <= spans@.len(),
            copied <= text@.len(),
            i < spans@.len() ==> copied <= spans@[i as int].0,
            wf_spans(spans@, text@.len()),
            forall|k: int|
                #![trigger spans@[k]]
                i <= k < spans@.len() ==> !spec_claimed(
                    claims@,
                    spans@[k].0 as int,
                    spans@[k].1 as int,
                ),
            wf_store(store@),
            claims_disjoint(claims@),
            store_fingerprints_keyed(old(store)@, secret@) ==> store_fingerprints_keyed(
                store@,
                secret@,
            ),
            spec_process(
                secret@,
                text@,
                spans@,
                i as int,
                store@,
                claims@,
                out@,
                copied as int,
                prefix@,
                kind@,
                params@,
            ) == goal,
        decreases spans@.len() - i,
    {
        let (s, e) = spans[i];
        let ghost gi = i as int;
        proof {
            assert(spans@[gi].0 == s && spans@[gi].1 == e);
            assert(s <= e <= text@.len());
        }
        let ghost st0 = store@;
        let ghost cl0 = claims@;
        let ghost out0 = out@;
        let ghost cp0 = copied as int;
        let orig = take_range(text, s, e);
        let fp = fingerprint(secret, orig.as_slice());
        let ghost gfp = fp@;
        let cs = if s >= 20 {
            s - 20
        } else {
            0
        };
        let ce = if text.len() - e >= 20 {
            e + 20
        } else {
            text.len()
        };
        let ctx = take_range(text, cs, ce);
        proof {
            assert(ctx@ == spec_ctx(text@, s as int, e as int));
            assert(ctx.deep_view() =~= ctx@);
        }
        let id = store.record_occurrence(fp, orig.as_slice(), prefix, kind, Some(ctx));
        let repl = render(orig.as_slice(), id.as_slice(), params);
        append_bytes(&mut out, slice_subrange(text, copied, s));
        append_bytes(&mut out, repl.as_slice());
        copied = e;
        claims.push(ClaimedRegion { start: s, end: e });
        proof {
            lemma_record_preserves_wf(
                st0,
                gfp,
                orig@,
                prefix@,
                kind@,
                Some(spec_ctx(text@, s as int, e as int)),
                secret@,
            );
            assert(!spec_claimed(cl0, s as int, e as int));
            lemma_claim_keeps_disjoint(cl0, ClaimedRegion { start: s, end: e });
            assert forall|k: int|
                i + 1 <= k < spans@.len() implies !spec_claimed(
                claims@,
                #[trigger] spans@[k].0 as int,
                spans@[k].1 as int,
            ) by {
                assert(spans@[gi].1 <= spans@[k].0);
                assert(claims@ == cl0.push(ClaimedRegion { start: s, end: e }));
                if spec_claimed(claims@, spans@[k].0 as int, spans@[k].1 as int) {
                    let w = choose|w: int|
                        0 <= w < claims@.len() && ranges_overlap(
                            spans@[k].0 as int,
                            spans@[k].1 as int,
                            claims@[w].start as int,
                            claims@[w].end as int,
                        );
                    if w < cl0.len() {
                        assert(spec_claimed(cl0, spans@[k].0 as int, spans@[k].1 as int));
                    }
                }
            }
            assert(out@ =~= out0 + text@.subrange(cp0, s as int) + repl@);
            let st2 = spec_record(
                st0,
                gfp,
                text@.subrange(s as int, e as int),
                prefix@,
                kind@,
                Some(spec_ctx(text@, s as int, e as int)),
            );
            assert(store@ == st2);
            assert(spec_process(
                secret@,
                text@,
                spans@,
                gi,
                st0,
                cl0,
                out0,
                cp0,
                prefix@,
                kind@,
                params@,
            ) == spec_process(
                secret@,
                text@,
                spans@,
                gi + 1,
                store@,
                claims@,
                out@,
                e as int,
                prefix@,
                kind@,
                params@,
            ));
        }
        i = i + 1;
    }
    let ghost outb = out@;
    append_bytes(&mut out, slice_subrange(text, copied, text.len()));
    proof {
        assert(spec_process(
            secret@,
            text@,
            spans@,
            spans@.len() as int,
            store@,
            claims@,
            outb,
            copied as int,
            prefix@,
            kind@,
            params@,
        ) == goal);
        assert(out@ =~= outb + text@.subrange(copied as int, text@.len() as int));
    }
    out
}

/// The outcome of a `partial_mask` step: mask the configured byte range of
/// the text directly, record the masked bytes as one occurrence without a
/// context snippet, and claim the range. Out-of-range or empty
/// configurations leave the text unchanged. The range is a byte range: one
/// that cuts through a multi-byte character masks only the bytes inside it,
/// and the output is then not valid UTF-8.
pub open spec fn spec_partial(
    secret: Seq<u8>,
    text: Seq<u8>,
    st: StoreModel,
    claims: Seq<ClaimedRegion>,
    prefix: Seq<u8>,
    p: ParamsModel,
) -> StepOutcome {
    let start64 = match p.start {
        Some(v) => v,
        None => 0,
    };
    let end64 = match p.end {
        Some(v) => v,
        None => text.len() as u64,
    };
    if start64 >= text.len() as u64 || start64 >= end64 {
        StepOutcome { store: st, text: text, claims }
    } else {
        let s = start64 as int;
        let eb = if end64 > text.len() as u64 {
            text.len() as int
        } else {
            end64 as int
        };
        if spec_claimed(claims, s, eb) {
            StepOutcome { store: st, text: text, claims }
        } else {
            let orig = text.subrange(s, eb);
            let fp = fingerprint_of(secret, orig);
            let st2 = spec_record(st, fp, orig, prefix, "partial_mask"@, None);
            let repl = spec_repeat(spec_mask_char(p), orig.len());
            StepOutcome {
                store: st2,
                text: text.subrange(0, s) + repl + text.subrange(eb, text.len() as int),
                claims: claims.push(
                    ClaimedRegion { start: start64 as usize, end: eb as usize },
                ),
            }
        }
    }
}

/// Masks the configured byte range of the text directly.
pub(crate) fn apply_partial_mask(
    secret: &[u8],
    text: &[u8],
    store: &mut Store,
    claims: &mut Vec<ClaimedRegion>,
    prefix: &[u8],
    params: &StepParams,
) -> (out: Vec<u8>)
    requires
        wf_store(old(store)@),
        claims_disjoint(old(claims)@),
    ensures
        ({
            let o = spec_partial(secret@, text@, old(store)@, old(claims)@, prefix@, params@);
            &&& final(store)@ == o.store
            &&& final(claims)@ == o.claims
            &&& out@ == o.text
        }),
        wf_store(final(store)@),
        claims_disjoint(final(claims)@),
        store_fingerprints_keyed(old(store)@, secret@) ==> store_fingerprints_keyed(
            final(store)@,
            secret@,
        ),
{
    let start64: u64 = match params.start {
        Some(v) => v,
        None => 0,
    };
    let end64: u64 = match params.end {
        Some(v) => v,
        None => text.len() as u64,
    };
    if start64 >= text.len() as u64 || start64 >= end64 {
        let out = take_range(text, 0, text.len());
        proof {
            assert(out@ =~= text@);
        }
        return out;
    }
    let s = start64 as usize;
    let eb: usize = if end64 > text.len() as u64 {
        text.len()
    } else {
        end64 as usize
    };
    if is_region_claimed(claims, s, eb) {
        let out = take_range(text, 0, text.len());
        proof {
            assert(out@ =~= text@);
        }
        return out;
    }
    let ghost st0 = store@;
    let orig = take_range(text, s, eb);
    let fp = fingerprint(secret, orig.as_slice());
    let ghost gfp = fp@;
    let _id = store.record_occurrence(fp, orig.as_slice(), prefix, "partial_mask", None);
    let mc = mask_char_vec(params);
    let repl = crate::bytes::repeat_bytes(mc.as_slice(), orig.len());
    let mut out = take_range(text, 0, s);
    append_bytes(&mut out, repl.as_slice());
    append_bytes(&mut out, slice_subrange(text, eb, text.len()));
    proof {
        let o = spec_partial(secret@, text@, st0, old(claims)@, prefix@, params@);
        lemma_record_preserves_wf(
            st0,
            gfp,
            text@.subrange(s as int, eb as int),
            prefix@,
            "partial_mask"@,
            None,
            secret@,
        );
        lemma_claim_keeps_disjoint(old(claims)@, ClaimedRegion { start: s, end: eb });
        assert(out@ =~= o.text);
    }
    claims.push(ClaimedRegion { start: s, end: eb });
    out
}

} // verus!
