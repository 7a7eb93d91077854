//! Small verified helpers over byte vectors: comparison, copying a range,
//! repetition, and decimal rendering of counters.

use vstd::prelude::*;
use vstd::slice::slice_subrange;

verus! {

/// Byte-for-byte equality of two slices.
pub fn bytes_eq(a: &[u8], b: &[u8]) -> (r: bool)
    ensures
        r == (a@ == b@),
{
    if a.len() != b.len() {
        proof {
            assert(a@.len() != b@.len());
        }
        return false;
    }
    let mut i: usize = 0;
    while i < a.len()
        invariant
            i <= a.len(),
            a@.len() == b@.len(),
            forall|k: int| 0 <= k < i ==> a@[k] == b@[k],
        decreases a.len() - i,
    {
        if a[i] != b[i] {
            return false;
        }
        i = i + 1;
    }
    proof {
        assert(a@ =~= b@);
    }
    true
}

/// Appends all of `src` to `dst`.
pub fn append_bytes(dst: &mut Vec<u8>, src: &[u8])
    ensures
        final(dst)@ == old(dst)@ + src@,
{
    let mut i: usize = 0;
    while i < src.len()
        invariant
            i <= src.len(),
            dst@ == old(dst)@ + src@.subrange(0, i as int),
        decreases src.len() - i,
    {
        dst.push(src[i]);
        proof {
            assert(old(dst)@ + src@.subrange(0, i as int) + seq![src@[i as int]] =~= old(dst)@
                + src@.subrange(0, i + 1));
        }
        i = i + 1;
    }
    proof {
        assert(old(dst)@ + src@.subrange(0, src@.len() as int) =~= old(dst)@ + src@);
    }
}

/// Copies the byte range `[i, j)` of `v` into a fresh vector.
pub fn take_range(v: &[u8], i: usize, j: usize) -> (r: Vec<u8>)
    requires
        i <= j <= v@.len(),
    ensures
        r@ == v@.subrange(i as int, j as int),
{
    let s = slice_subrange(v, i, j);
    let mut out: Vec<u8> = Vec::new();
    append_bytes(&mut out, s);
    proof {
        assert(out@ =~= v@.subrange(i as int, j as int));
    }
    out
}

/// Copies a whole slice into a fresh vector.
pub fn copy_all(v: &[u8]) -> (r: Vec<u8>)
    ensures
        r@ == v@,
{
    let r = take_range(v, 0, v.len());
    proof {
        assert(r@ =~= v@);
    }
    r
}

/// True iff one of the byte vectors in `vs` equals `x`.
pub fn contains_bytes(vs: &Vec<Vec<u8>>, x: &[u8]) -> (r: bool)
    ensures
        r == vs.deep_view().contains(x@),
{
    let mut i: usize = 0;
    while i < vs.len()
        invariant
            i <= vs.len(),
            forall|k: int| 0 <= k < i ==> vs.deep_view()[k] != x@,
        decreases vs.len() - i,
    {
        assert(vs.deep_view()[i as int] == vs@[i as int]@);
        if bytes_eq(vs[i].as_slice(), x) {
            return true;
        }
        i = i + 1;
    }
    assert(forall|k: int| 0 <= k < vs.deep_view().len() ==> vs.deep_view()[k] != x@);
    false
}

/// `s` repeated `n` times.
pub open spec fn spec_repeat(s: Seq<u8>, n: nat) -> Seq<u8>
    decreases n,
{
    if n == 0 {
        Seq::empty()
    } else {
        spec_repeat(s, (n - 1) as nat) + s
    }
}

/// Builds `pat` repeated `n` times.
pub fn repeat_bytes(pat: &[u8], n: usize) -> (r: Vec<u8>)
    ensures
        r@ == spec_repeat(pat@, n as nat),
{
    let mut out: Vec<u8> = Vec::new();
    let mut i: usize = 0;
    proof {
        assert(out@ =~= spec_repeat(pat@, 0));
    }
    while i < n
        invariant
            i <= n,
            out@ == spec_repeat(pat@, i as nat),
        decreases n - i,
    {
        append_bytes(&mut out, pat);
        i = i + 1;
    }
    out
}

/// The decimal digits of `n`, most significant first.
pub open spec fn spec_dec(n: nat) -> Seq<u8>
    decreases n,
{
    if n < 10 {
        seq![(48 + n) as u8]
    } else {
        spec_dec(n / 10).push((48 + n % 10) as u8)
    }
}

/// Renders `n` in decimal ASCII.
pub fn u64_dec(n: u64) -> (r: Vec<u8>)
    ensures
        r@ == spec_dec(n as nat),
    decreases n,
{
    if n < 10 {
        let mut out: Vec<u8> = Vec::new();
        out.push(48 + n as u8);
        proof {
            assert(out@ =~= spec_dec(n as nat));
        }
        out
    } else {
        let mut out = u64_dec(n / 10);
        out.push(48 + (n % 10) as u8);
        out
    }
}

} // verus!
