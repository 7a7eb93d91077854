//! Canonicalization store: one entry per distinct fingerprint seen in the
//! current run, with per-prefix identifier counters.

use crate::bytes::{append_bytes, bytes_eq, contains_bytes, spec_dec, take_range, u64_dec};
use crate::fingerprint::fingerprint_of;
use vstd::prelude::*;
use vstd::slice::slice_to_vec;

verus! {

/// The durable record for one distinct detected value within a run.
pub struct CanonicalEntry {
    /// Human-readable identifier, `<PREFIX>_<N>`.
    pub id: Vec<u8>,
    /// Lowercase detector kind that first saw the value.
    pub kind: String,
    /// The literal value as first seen.
    pub original: Vec<u8>,
    /// Keyed digest of the value; the store key.
    pub fingerprint: Vec<u8>,
    /// How many occurrences collapsed into this entry.
    pub occurrences: u64,
    /// Up to three distinct snippets surrounding occurrences.
    pub contexts: Vec<Vec<u8>>,
}

/// Mathematical image of a canonical entry.
#[verifier::ext_equal]
pub struct EntryModel {
    pub id: Seq<u8>,
    pub kind: Seq<char>,
    pub original: Seq<u8>,
    pub fingerprint: Seq<u8>,
    pub occurrences: u64,
    pub contexts: Seq<Seq<u8>>,
}

impl View for CanonicalEntry {
    type V = EntryModel;

    open spec fn view(&self) -> EntryModel {
        EntryModel {
            id: self.id@,
            kind: self.kind@,
            original: self.original@,
            fingerprint: self.fingerprint@,
            occurrences: self.occurrences,
            contexts: self.contexts.deep_view(),
        }
    }
}

/// The next identifier number to hand out for one prefix.
pub struct PrefixCounter {
    pub prefix: Vec<u8>,
    pub next: u64,
}

/// Mathematical image of a prefix counter.
#[verifier::ext_equal]
pub struct CounterModel {
    pub prefix: Seq<u8>,
    pub next: u64,
}

impl View for PrefixCounter {
    type V = CounterModel;

    open spec fn view(&self) -> CounterModel {
        CounterModel { prefix: self.prefix@, next: self.next }
    }
}

/// Canonical entries in first-seen order, plus the per-prefix counters.
pub struct Store {
    pub entries: Vec<CanonicalEntry>,
    pub counters: Vec<PrefixCounter>,
}

/// Mathematical image of the store.
#[verifier::ext_equal]
pub struct StoreModel {
    pub entries: Seq<EntryModel>,
    pub counters: Seq<CounterModel>,
}

impl View for Store {
    type V = StoreModel;

    open spec fn view(&self) -> StoreModel {
        StoreModel {
            entries: self.entries@.map_values(|e: CanonicalEntry| e@),
            counters: self.counters@.map_values(|c: PrefixCounter| c@),
        }
    }
}

/// The store with nothing recorded.
pub open spec fn empty_store() -> StoreModel {
    StoreModel { entries: Seq::empty(), counters: Seq::empty() }
}

/// Increment that stops at the numeric ceiling instead of wrapping.
pub open spec fn sat_inc(n: u64) -> u64 {
    if n < u64::MAX {
        (n + 1) as u64
    } else {
        n
    }
}

/// Index of the first entry whose fingerprint is `fp`, searching from `i`;
/// `-1` if there is none.
pub open spec fn find_entry_from(entries: Seq<EntryModel>, fp: Seq<u8>, i: int) -> int
    decreases entries.len() - i,
{
    if i < 0 || i >= entries.len() {
        -1
    } else if entries[i].fingerprint == fp {
        i
    } else {
        find_entry_from(entries, fp, i + 1)
    }
}

/// Index of the entry for `fp`, or `-1`.
pub open spec fn find_entry(entries: Seq<EntryModel>, fp: Seq<u8>) -> int {
    find_entry_from(entries, fp, 0)
}

/// Index of the counter for `prefix`, searching from `i`; `-1` if none.
pub open spec fn find_counter_from(counters: Seq<CounterModel>, prefix: Seq<u8>, i: int) -> int
    decreases counters.len() - i,
{
    if i < 0 || i >= counters.len() {
        -1
    } else if counters[i].prefix == prefix {
        i
    } else {
        find_counter_from(counters, prefix, i + 1)
    }
}

/// Index of the counter for `prefix`, or `-1`.
pub open spec fn find_counter(counters: Seq<CounterModel>, prefix: Seq<u8>) -> int {
    find_counter_from(counters, prefix, 0)
}

/// The number the next new entry under `prefix` will get: the recorded
/// counter, or 1 if the prefix has not been seen.
pub open spec fn counter_value(counters: Seq<CounterModel>, prefix: Seq<u8>) -> u64 {
    let j = find_counter(counters, prefix);
    if j >= 0 {
        counters[j].next
    } else {
        1
    }
}

/// The identifier text `<prefix>_<n>`.
pub open spec fn spec_id(prefix: Seq<u8>, n: u64) -> Seq<u8> {
    prefix + seq![95u8] + spec_dec(n as nat)
}

/// An existing entry after one more occurrence: the count grows, and the
/// context is appended when one is given, fewer than three are stored, and
/// it is not already present.
pub open spec fn spec_entry_touched(e: EntryModel, ctx: Option<Seq<u8>>) -> EntryModel {
    let e1 = EntryModel { occurrences: sat_inc(e.occurrences), ..e };
    match ctx {
        Some(c) => if e1.contexts.len() < 3 && !e1.contexts.contains(c) {
            EntryModel { contexts: e1.contexts.push(c), ..e1 }
        } else {
            e1
        },
        None => e1,
    }
}

/// A brand-new entry: one occurrence, the given context if any.
pub open spec fn spec_new_entry(
    fp: Seq<u8>,
    value: Seq<u8>,
    prefix: Seq<u8>,
    kind: Seq<char>,
    ctx: Option<Seq<u8>>,
    n: u64,
) -> EntryModel {
    EntryModel {
        id: spec_id(prefix, n),
        kind: kind,
        original: value,
        fingerprint: fp,
        occurrences: 1,
        contexts: match ctx {
            Some(c) => seq![c],
            None => Seq::empty(),
        },
    }
}

/// The counters after allocating one identifier under `prefix`.
pub open spec fn spec_counters_bumped(counters: Seq<CounterModel>, prefix: Seq<u8>) -> Seq<
    CounterModel,
> {
    let j = find_counter(counters, prefix);
    if j >= 0 {
        counters.update(j, CounterModel { prefix: prefix, next: sat_inc(counters[j].next) })
    } else {
        counters.push(CounterModel { prefix: prefix, next: 2 })
    }
}

/// Recording one occurrence of a value: update the entry for its
/// fingerprint, or allocate an identifier and create the entry.
pub open spec fn spec_record(
    m: StoreModel,
    fp: Seq<u8>,
    value: Seq<u8>,
    prefix: Seq<u8>,
    kind: Seq<char>,
    ctx: Option<Seq<u8>>,
) -> StoreModel {
    let i = find_entry(m.entries, fp);
    if i >= 0 {
        StoreModel {
            entries: m.entries.update(i, spec_entry_touched(m.entries[i], ctx)),
            counters: m.counters,
        }
    } else {
        StoreModel {
            entries: m.entries.push(
                spec_new_entry(fp, value, prefix, kind, ctx, counter_value(m.counters, prefix)),
            ),
            counters: spec_counters_bumped(m.counters, prefix),
        }
    }
}

/// The identifier under which the occurrence is recorded.
pub open spec fn spec_record_id(m: StoreModel, fp: Seq<u8>, prefix: Seq<u8>) -> Seq<u8> {
    let i = find_entry(m.entries, fp);
    if i >= 0 {
        m.entries[i].id
    } else {
        spec_id(prefix, counter_value(m.counters, prefix))
    }
}

/// No two stored snippets are equal.
pub open spec fn ctxs_distinct(cs: Seq<Seq<u8>>) -> bool {
    forall|a: int, b: int| #![trigger cs[a], cs[b]] 0 <= a < b < cs.len() ==> cs[a] != cs[b]
}

/// Store well-formedness: entries are keyed by fingerprint (no duplicates),
/// counters are keyed by prefix, and each entry holds at most three
/// pairwise-distinct contexts.
pub open spec fn wf_store(m: StoreModel) -> bool {
    &&& forall|i: int, j: int|
        #![trigger m.entries[i], m.entries[j]]
        0 <= i < j < m.entries.len() ==> m.entries[i].fingerprint != m.entries[j].fingerprint
    &&& forall|i: int, j: int|
        #![trigger m.counters[i], m.counters[j]]
        0 <= i < j < m.counters.len() ==> m.counters[i].prefix != m.counters[j].prefix
    &&& forall|i: int|
        #![trigger m.entries[i]]
        0 <= i < m.entries.len() ==> m.entries[i].contexts.len() <= 3 && ctxs_distinct(
            m.entries[i].contexts,
        )
}

/// Every entry's fingerprint is the keyed fingerprint of its first-seen
/// value under `secret`.
pub open spec fn store_fingerprints_keyed(m: StoreModel, secret: Seq<u8>) -> bool {
    forall|i: int|
        #![trigger m.entries[i]]
        0 <= i < m.entries.len() ==> m.entries[i].fingerprint == fingerprint_of(
            secret,
            m.entries[i].original,
        )
}

/// Characterizes `find_entry_from`: it returns the first index at or after
/// `i` holding `fp`, or `-1` when no index does.
pub proof fn lemma_find_entry_from(entries: Seq<EntryModel>, fp: Seq<u8>, i: int)
    requires
        0 <= i <= entries.len(),
    ensures
        ({
            let r = find_entry_from(entries, fp, i);
            &&& r == -1 ==> forall|k: int|
                #![trigger entries[k]]
                i <= k < entries.len() ==> entries[k].fingerprint != fp
            &&& r != -1 ==> i <= r < entries.len() && entries[r].fingerprint == fp
        }),
    decreases entries.len() - i,
{
    if i < entries.len() {
        if entries[i].fingerprint != fp {
            lemma_find_entry_from(entries, fp, i + 1);
        }
    }
}

/// Characterizes `find_counter_from` in the same way.
pub proof fn lemma_find_counter_from(counters: Seq<CounterModel>, prefix: Seq<u8>, i: int)
    requires
        0 <= i <= counters.len(),
    ensures
        ({
            let r = find_counter_from(counters, prefix, i);
            &&& r == -1 ==> forall|k: int|
                #![trigger counters[k]]
                i <= k < counters.len() ==> counters[k].prefix != prefix
            &&& r != -1 ==> i <= r < counters.len() && counters[r].prefix == prefix
        }),
    decreases counters.len() - i,
{
    if i < counters.len() {
        if counters[i].prefix != prefix {
            lemma_find_counter_from(counters, prefix, i + 1);
        }
    }
}

/// Recording preserves well-formedness, and — when the fingerprint really is
/// the keyed fingerprint of the value — keeps every entry's fingerprint tied
/// to its original.
pub proof fn lemma_record_preserves_wf(
    m: StoreModel,
    fp: Seq<u8>,
    value: Seq<u8>,
    prefix: Seq<u8>,
    kind: Seq<char>,
    ctx: Option<Seq<u8>>,
    secret: Seq<u8>,
)
    requires
        wf_store(m),
    ensures
        wf_store(spec_record(m, fp, value, prefix, kind, ctx)),
        store_fingerprints_keyed(m, secret) && fp == fingerprint_of(secret, value)
            ==> store_fingerprints_keyed(spec_record(m, fp, value, prefix, kind, ctx), secret),
{
    let r = spec_record(m, fp, value, prefix, kind, ctx);
    let i = find_entry(m.entries, fp);
    lemma_find_entry_from(m.entries, fp, 0);
    if i >= 0 {
        let e1 = spec_entry_touched(m.entries[i], ctx);
        assert(e1.fingerprint == m.entries[i].fingerprint);
        assert(e1.original == m.entries[i].original);
        assert(e1.contexts.len() <= 3 && ctxs_distinct(e1.contexts)) by {
            let e = m.entries[i];
            assert(e.contexts.len() <= 3 && ctxs_distinct(e.contexts));
            if ctx is Some && e.contexts.len() < 3 && !e.contexts.contains(ctx->0) {
                let cs2 = e.contexts.push(ctx->0);
                assert forall|a: int, b: int| 0 <= a < b < cs2.len() implies cs2[a] != cs2[b] by {
                    if b == e.contexts.len() {
                        assert(cs2[a] == e.contexts[a]);
                        assert(e.contexts.contains(e.contexts[a]));
                    }
                }
            }
        }
    } else {
        let j = find_counter(m.counters, prefix);
        lemma_find_counter_from(m.counters, prefix, 0);
        let ne = spec_new_entry(fp, value, prefix, kind, ctx, counter_value(m.counters, prefix));
        assert(ne.contexts.len() <= 3 && ctxs_distinct(ne.contexts));
    }
}

impl Store {
    /// A fresh, empty store.
    pub fn new() -> (s: Store)
        ensures
            s@ == empty_store(),
    {
        let s = Store { entries: Vec::new(), counters: Vec::new() };
        proof {
            assert(s@ =~= empty_store());
        }
        s
    }

    /// Wipes all entries and counters.
    pub fn clear(&mut self)
        ensures
            final(self)@ == empty_store(),
    {
        self.entries.clear();
        self.counters.clear();
        proof {
            assert(final(self)@ =~= empty_store());
        }
    }

    /// Position of the entry for `fp`, if any.
    fn find_entry_pos(&self, fp: &[u8]) -> (r: Option<usize>)
        ensures
            r matches Some(i) ==> find_entry(self@.entries, fp@) == i as int,
            r is None ==> find_entry(self@.entries, fp@) == -1,
    {
        let mut i: usize = 0;
        while i < self.entries.len()
            invariant
                i <= self.entries.len(),
                find_entry(self@.entries, fp@) == find_entry_from(self@.entries, fp@, i as int),
            decreases self.entries.len() - i,
        {
            assert(self@.entries[i as int] == self.entries@[i as int]@);
            if bytes_eq(self.entries[i].fingerprint.as_slice(), fp) {
                return Some(i);
            }
            i = i + 1;
        }
        None
    }

    /// Position of the counter for `prefix`, if any.
    fn find_counter_pos(&self, prefix: &[u8]) -> (r: Option<usize>)
        ensures
            r matches Some(j) ==> find_counter(self@.counters, prefix@) == j as int,
            r is None ==> find_counter(self@.counters, prefix@) == -1,
    {
        let mut j: usize = 0;
        while j < self.counters.len()
            invariant
                j <= self.counters.len(),
                find_counter(self@.counters, prefix@) == find_counter_from(
                    self@.counters,
                    prefix@,
                    j as int,
                ),
            decreases self.counters.len() - j,
        {
            assert(self@.counters[j as int] == self.counters@[j as int]@);
            if bytes_eq(self.counters[j].prefix.as_slice(), prefix) {
                return Some(j);
            }
            j = j + 1;
        }
        None
    }

    /// Records one occurrence of `value` (whose keyed fingerprint is `fp`)
    /// and returns the canonical identifier it collapsed into.
    pub fn record_occurrence(
        &mut self,
        fp: Vec<u8>,
        value: &[u8],
        prefix: &[u8],
        kind: &str,
        ctx: Option<Vec<u8>>,
    ) -> (id: Vec<u8>)
        ensures
            final(self)@ == spec_record(
                old(self)@,
                fp@,
                value@,
                prefix@,
                kind@,
                ctx.deep_view(),
            ),
            id@ == spec_record_id(old(self)@, fp@, prefix@),
    {
        let ghost m0 = self@;
        let ghost cdv = ctx.deep_view();
        match self.find_entry_pos(fp.as_slice()) {
            Some(i) => {
                let ghost gi = i as int;
                assert(0 <= gi < m0.entries.len() && m0.entries[gi].fingerprint == fp@) by {
                    lemma_find_entry_from(m0.entries, fp@, 0);
                }
                let mut e = self.entries.remove(i);
                assert(e@ == m0.entries[gi]);
                if e.occurrences < u64::MAX {
                    e.occurrences = e.occurrences + 1;
                }
                match ctx {
                    Some(c) => {
                        let ghost gc = c@;
                        proof {
                            assert(cdv == Some(gc));
                        }
                        if e.contexts.len() < 3 && !contains_bytes(&e.contexts, c.as_slice()) {
                            let ghost before = e.contexts.deep_view();
                            e.contexts.push(c);
                            proof {
                                assert(e.contexts.deep_view() =~= before.push(gc));
                            }
                        }
                    },
                    None => {},
                }
                assert(e@ =~~= spec_entry_touched(m0.entries[gi], cdv));
                let id = take_range(e.id.as_slice(), 0, e.id.len());
                assert(id@ =~= m0.entries[gi].id);
                self.entries.insert(i, e);
                proof {
                    let want = spec_record(m0, fp@, value@, prefix@, kind@, cdv);
                    assert(final(self)@.entries =~= want.entries);
                    assert(final(self)@.counters =~= want.counters);
                    assert(final(self)@ =~= want);
                }
                id
            },
            None => {
                proof {
                    lemma_find_entry_from(m0.entries, fp@, 0);
                }
                let n: u64 = match self.find_counter_pos(prefix) {
                    Some(j) => {
                        let ghost gj = j as int;
                        assert(0 <= gj < m0.counters.len() && m0.counters[gj].prefix == prefix@)
                            by {
                            lemma_find_counter_from(m0.counters, prefix@, 0);
                        }
                        let mut c = self.counters.remove(j);
                        assert(c@ == m0.counters[gj]);
                        let n = c.next;
                        if c.next < u64::MAX {
                            c.next = c.next + 1;
                        }
                        self.counters.insert(j, c);
                        proof {
                            assert(self@.counters =~= spec_counters_bumped(m0.counters, prefix@));
                        }
                        n
                    },
                    None => {
                        let c = PrefixCounter { prefix: slice_to_vec(prefix), next: 2 };
                        self.counters.push(c);
                        proof {
                            assert(self@.counters =~= spec_counters_bumped(m0.counters, prefix@));
                        }
                        1
                    },
                };
                assert(n == counter_value(m0.counters, prefix@));
                let mut id: Vec<u8> = Vec::new();
                append_bytes(&mut id, prefix);
                id.push(95);
                let digits = u64_dec(n);
                append_bytes(&mut id, digits.as_slice());
                assert(id@ =~= spec_id(prefix@, n));
                let entry_id = take_range(id.as_slice(), 0, id.len());
                let mut ctxs: Vec<Vec<u8>> = Vec::new();
                match ctx {
                    Some(c) => {
                        ctxs.push(c);
                        assert(ctxs.deep_view() =~= seq![cdv->0]);
                    },
                    None => {
                        assert(ctxs.deep_view() =~= Seq::<Seq<u8>>::empty());
                    },
                }
                let e = CanonicalEntry {
                    id: entry_id,
                    kind: kind.to_owned(),
                    original: slice_to_vec(value),
                    fingerprint: fp,
                    occurrences: 1,
                    contexts: ctxs,
                };
                assert(e@ =~~= spec_new_entry(
                    fp@,
                    value@,
                    prefix@,
                    kind@,
                    cdv,
                    counter_value(m0.counters, prefix@),
                ));
                self.entries.push(e);
                proof {
                    let want = spec_record(m0, fp@, value@, prefix@, kind@, cdv);
                    assert(final(self)@.entries =~= want.entries);
                    assert(final(self)@ =~= want);
                }
                id
            },
        }
    }
}

} // verus!
