//! Region claim tracker: non-overlapping half-open byte ranges already
//! redacted within the current step, with an overlap query.

use vstd::prelude::*;

verus! {

/// A half-open byte range `[start, end)` into the current step's input text
/// that has already been consumed by a match of this step.
pub struct ClaimedRegion {
    pub start: usize,
    pub end: usize,
}

/// Two half-open ranges `[s1, e1)` and `[s2, e2)` intersect.
pub open spec fn ranges_overlap(s1: int, e1: int, s2: int, e2: int) -> bool {
    !(e1 <= s2 || s1 >= e2)
}

/// The queried range intersects some region in the claim list.
pub open spec fn spec_claimed(cs: Seq<ClaimedRegion>, start: int, end: int) -> bool {
    exists|i: int|
        0 <= i < cs.len() && ranges_overlap(start, end, cs[i].start as int, cs[i].end as int)
}

/// No two regions in the claim list intersect.
pub open spec fn claims_disjoint(cs: Seq<ClaimedRegion>) -> bool {
    forall|i: int, j: int|
        0 <= i < j < cs.len() ==> !ranges_overlap(
            cs[i].start as int,
            cs[i].end as int,
            cs[j].start as int,
            cs[j].end as int,
        )
}

/// True iff `[start, end)` intersects a previously claimed range.
pub fn is_region_claimed(cs: &Vec<ClaimedRegion>, start: usize, end: usize) -> (r: bool)
    ensures
        r == spec_claimed(cs@, start as int, end as int),
{
    let mut i: usize = 0;
    while i < cs.len()
        invariant
            i <= cs.len(),
            forall|k: int|
                0 <= k < i ==> !ranges_overlap(
                    start as int,
                    end as int,
                    cs@[k].start as int,
                    cs@[k].end as int,
                ),
        decreases cs.len() - i,
    {
        let c = &cs[i];
        if !(end <= c.start || start >= c.end) {
            return true;
        }
        i = i + 1;
    }
    false
}

/// Appending a region that overlaps nothing in a disjoint claim list keeps
/// the list disjoint.
pub proof fn lemma_claim_keeps_disjoint(cs: Seq<ClaimedRegion>, c: ClaimedRegion)
    requires
        claims_disjoint(cs),
        !spec_claimed(cs, c.start as int, c.end as int),
    ensures
        claims_disjoint(cs.push(c)),
{
    let cs2 = cs.push(c);
    assert forall|i: int, j: int| 0 <= i < j < cs2.len() implies !ranges_overlap(
        cs2[i].start as int,
        cs2[i].end as int,
        cs2[j].start as int,
        cs2[j].end as int,
    ) by {
        if j == cs.len() {
            assert(cs2[i] == cs[i]);
        } else {
            assert(cs2[i] == cs[i] && cs2[j] == cs[j]);
        }
    }
}

} // verus!
