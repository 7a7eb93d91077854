//! Replacement renderer: a fixed substitute wins, then the configured mode
//! (mask, preserve-last-N, or canonical placeholder) decides the text.

use crate::bytes::{append_bytes, bytes_eq, repeat_bytes, spec_repeat};
use crate::config::{word_eq, ParamsModel, StepParams};
use vstd::prelude::*;
use vstd::slice::{slice_subrange, slice_to_vec};
use vstd::utf8::encode_utf8;

verus! {

/// The configured mode names `w`.
pub open spec fn spec_mode_is(m: Option<Seq<char>>, w: Seq<char>) -> bool {
    m matches Some(s) && word_eq(s, w)
}

/// The mask text as bytes: the configured mask string, or `*`.
pub open spec fn spec_mask_char(p: ParamsModel) -> Seq<u8> {
    match p.mask_char {
        Some(mc) => encode_utf8(mc),
        None => seq![42u8],
    }
}

/// How many trailing bytes `preserveLastN` keeps.
pub open spec fn spec_preserve_count(p: ParamsModel) -> u64 {
    match p.preserve_count {
        Some(v) => v,
        None => 4,
    }
}

/// The canonical placeholder `<id>`.
pub open spec fn spec_placeholder(id: Seq<u8>) -> Seq<u8> {
    seq![60u8] + id + seq![62u8]
}

/// The rendered substitute for one occurrence. A non-empty fixed
/// replacement wins; otherwise `mask` repeats the mask text once per
/// original byte; `preserveLastN` keeps the last N bytes (all of the
/// original, if no longer than N) and masks the rest; anything else renders
/// the canonical placeholder.
pub open spec fn spec_render(original: Seq<u8>, id: Seq<u8>, p: ParamsModel) -> Seq<u8> {
    if p.replacement is Some && p.replacement->0.len() > 0 {
        encode_utf8(p.replacement->0)
    } else if spec_mode_is(p.mode, "mask"@) {
        spec_repeat(spec_mask_char(p), original.len())
    } else if spec_mode_is(p.mode, "preserveLastN"@) {
        let n = spec_preserve_count(p) as int;
        if original.len() <= n {
            original
        } else {
            spec_repeat(spec_mask_char(p), (original.len() - n) as nat) + original.subrange(
                original.len() - n,
                original.len() as int,
            )
        }
    } else {
        spec_placeholder(id)
    }
}

/// True iff the configured mode is the word `w`.
pub fn mode_is(mode: &Option<String>, w: &str) -> (r: bool)
    ensures
        r == spec_mode_is(mode.deep_view(), w@),
{
    match mode {
        Some(m) => bytes_eq(m.as_str().as_bytes(), w.as_bytes()),
        None => false,
    }
}

/// The mask text as a byte vector.
pub fn mask_char_vec(p: &StepParams) -> (r: Vec<u8>)
    ensures
        r@ == spec_mask_char(p@),
{
    match &p.mask_char {
        Some(mc) => mc.as_str().as_bytes_vec(),
        None => {
            let mut v: Vec<u8> = Vec::new();
            v.push(42);
            proof {
                assert(v@ =~= seq![42u8]);
            }
            v
        },
    }
}

/// Builds the canonical placeholder `<id>`.
pub fn placeholder_bytes(id: &[u8]) -> (r: Vec<u8>)
    ensures
        r@ == spec_placeholder(id@),
{
    let mut out: Vec<u8> = Vec::new();
    out.push(60);
    append_bytes(&mut out, id);
    out.push(62);
    proof {
        assert(out@ =~= spec_placeholder(id@));
    }
    out
}

/// Renders the substitute for one occurrence of `original` under the step's
/// parameters.
pub fn render(original: &[u8], id: &[u8], p: &StepParams) -> (r: Vec<u8>)
    ensures
        r@ == spec_render(original@, id@, p@),
{
    match &p.replacement {
        Some(rep) => {
            if !rep.as_str().is_empty() {
                return rep.as_str().as_bytes_vec();
            }
        },
        None => {},
    }
    if mode_is(&p.mode, "mask") {
        let mc = mask_char_vec(p);
        return repeat_bytes(mc.as_slice(), original.len());
    }
    if mode_is(&p.mode, "preserveLastN") {
        let n: u64 = match p.preserve_count {
            Some(v) => v,
            None => 4,
        };
        if (original.len() as u64) <= n {
            return slice_to_vec(original);
        }
        let keep: usize = n as usize;
        let mask_len = original.len() - keep;
        let mc = mask_char_vec(p);
        let mut out = repeat_bytes(mc.as_slice(), mask_len);
        append_bytes(&mut out, slice_subrange(original, mask_len, original.len()));
        proof {
            assert(out@ =~= spec_render(original@, id@, p@));
        }
        return out;
    }
    placeholder_bytes(id)
}

} // verus!
