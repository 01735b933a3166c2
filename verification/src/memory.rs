//! NPC memories: what is kept short-term, moved to long-term, and held as
//! important, ordered by each memory's importance rank.
use crate::text::str_eq;
use vstd::prelude::*;

verus! {

/// One remembered event. `rank` orders memories by importance (a larger rank
/// is more important); the importance and emotional impact themselves are
/// carried as opaque bit patterns for the caller.
#[derive(Debug, Clone, PartialEq, Eq)]
pub struct MemoryRecord {
    pub timestamp: u64,
    pub event: String,
    pub rank: u32,
    pub importance_bits: u32,
    pub impact_bits: u32,
}

impl MemoryRecord {
    /// A field-by-field copy.
    pub fn duplicate(&self) -> (r: MemoryRecord)
        ensures
            r == *self,
    {
        MemoryRecord {
            timestamp: self.timestamp,
            event: self.event.clone(),
            rank: self.rank,
            importance_bits: self.importance_bits,
            impact_bits: self.impact_bits,
        }
    }
}

/// An NPC's memories.
#[derive(Debug, Clone, PartialEq, Eq)]
pub struct NPCMemory {
    pub short_term: Vec<MemoryRecord>,
    pub long_term: Vec<MemoryRecord>,
    pub important_events: Vec<MemoryRecord>,
}

impl NPCMemory {
    /// No memories.
    pub fn new() -> (m: NPCMemory)
        ensures
            m.short_term@.len() == 0,
            m.long_term@.len() == 0,
            m.important_events@.len() == 0,
    {
        NPCMemory { short_term: Vec::new(), long_term: Vec::new(), important_events: Vec::new() }
    }
}

impl Default for NPCMemory {
    /// No memories.
    fn default() -> (m: NPCMemory)
        ensures
            m.short_term@.len() == 0,
            m.long_term@.len() == 0,
            m.important_events@.len() == 0,
    {
        NPCMemory::new()
    }
}

// ---------------------------------------------------------------------------
// Ordering by importance
// ---------------------------------------------------------------------------
/// `e` inserted into `s` before the first memory of lower rank.
pub open spec fn insert_desc(s: Seq<MemoryRecord>, e: MemoryRecord) -> Seq<MemoryRecord>
    decreases s.len(),
{
    if s.len() == 0 {
        seq![e]
    } else if s[0].rank < e.rank {
        seq![e] + s
    } else {
        seq![s[0]] + insert_desc(s.drop_first(), e)
    }
}

/// `s` ordered from most to least important; memories of equal rank keep
/// their order (what a stable sort by descending rank gives).
pub open spec fn sort_desc(s: Seq<MemoryRecord>) -> Seq<MemoryRecord>
    decreases s.len(),
{
    if s.len() == 0 {
        s
    } else {
        insert_desc(sort_desc(s.drop_last()), s.last())
    }
}

/// `s` runs from most to least important.
pub open spec fn ranked_desc(s: Seq<MemoryRecord>) -> bool {
    forall|i: int, j: int| 0 <= i < j < s.len() ==> (#[trigger] s[i]).rank >= (#[trigger] s[j]).rank
}

/// Two memories of the same event at the same time.
pub open spec fn same_memory(a: MemoryRecord, b: MemoryRecord) -> bool {
    a.timestamp == b.timestamp && a.event@ == b.event@
}

/// `s` with every memory dropped that is the same as the last one kept
/// before it (what `Vec::dedup_by` gives).
pub open spec fn dedup_spec(s: Seq<MemoryRecord>) -> Seq<MemoryRecord>
    decreases s.len(),
{
    if s.len() <= 1 {
        s
    } else {
        let d = dedup_spec(s.drop_last());
        if same_memory(s.last(), d.last()) {
            d
        } else {
            d.push(s.last())
        }
    }
}

/// Inserting by rank puts the memory before the first one of lower rank.
proof fn lemma_insert_desc_at(s: Seq<MemoryRecord>, e: MemoryRecord, p: int)
    requires
        0 <= p <= s.len(),
        forall|k: int| 0 <= k < p ==> !((#[trigger] s[k]).rank < e.rank),
        p == s.len() || s[p].rank < e.rank,
    ensures
        insert_desc(s, e) == s.insert(p, e),
    decreases s.len(),
{
    if s.len() == 0 {
        assert(s.insert(p, e) =~= seq![e]);
    } else if s[0].rank < e.rank {
        assert(s.insert(0, e) =~= seq![e] + s);
    } else {
        let t = s.drop_first();
        assert forall|k: int| 0 <= k < p - 1 implies !((#[trigger] t[k]).rank < e.rank) by {
            assert(t[k] == s[k + 1]);
        }
        if p - 1 < t.len() {
            assert(t[p - 1] == s[p]);
        }
        lemma_insert_desc_at(t, e, p - 1);
        assert(seq![s[0]] + t.insert(p - 1, e) =~= s.insert(p, e));
    }
}

/// Inserting by rank adds exactly the new memory and keeps a ranked list ranked.
proof fn lemma_insert_desc_facts(s: Seq<MemoryRecord>, e: MemoryRecord)
    ensures
        insert_desc(s, e).len() == s.len() + 1,
        insert_desc(s, e).to_multiset() == s.to_multiset().insert(e),
        ranked_desc(s) ==> ranked_desc(insert_desc(s, e)),
    decreases s.len(),
{
    broadcast use vstd::seq_lib::group_to_multiset_ensures;

    if s.len() == 0 {
        assert(seq![e] =~= Seq::<MemoryRecord>::empty().push(e));
    } else if s[0].rank < e.rank {
        assert(seq![e] + s =~= s.insert(0, e));
        assert((seq![e] + s).to_multiset() == s.insert(0, e).to_multiset());
        if ranked_desc(s) {
            let r = seq![e] + s;
            assert forall|i: int, j: int| 0 <= i < j < r.len() implies (#[trigger] r[i]).rank
                >= (#[trigger] r[j]).rank by {
                if i == 0 {
                    assert(r[j] == s[j - 1]);
                    assert(s[0].rank >= s[j - 1].rank);
                } else {
                    assert(r[i] == s[i - 1]);
                    assert(r[j] == s[j - 1]);
                }
            }
        }
    } else {
        let t = s.drop_first();
        lemma_insert_desc_facts(t, e);
        let it = insert_desc(t, e);
        let r = seq![s[0]] + it;
        assert(s =~= seq![s[0]] + t);
        assert(r.to_multiset() == s.to_multiset().insert(e)) by {
            vstd::seq_lib::lemma_multiset_commutative(seq![s[0]], it);
            vstd::seq_lib::lemma_multiset_commutative(seq![s[0]], t);
        }
        if ranked_desc(s) {
            assert forall|i: int, j: int| 0 <= i < j < t.len() implies (#[trigger] t[i]).rank
                >= (#[trigger] t[j]).rank by {
                assert(t[i] == s[i + 1]);
                assert(t[j] == s[j + 1]);
            }
            assert forall|k: int| 0 <= k < it.len() implies (#[trigger] it[k]).rank <= s[0].rank by {
                assert(it.to_multiset().contains(it[k]));
                assert(t.to_multiset().insert(e).contains(it[k]));
                if it[k] == e {
                } else {
                    assert(t.to_multiset().contains(it[k]));
                    assert(t.contains(it[k]));
                    let m = choose|m: int| 0 <= m < t.len() && t[m] == it[k];
                    assert(t[m] == s[m + 1]);
                }
            }
            assert forall|i: int, j: int| 0 <= i < j < r.len() implies (#[trigger] r[i]).rank
                >= (#[trigger] r[j]).rank by {
                if i == 0 {
                    assert(r[j] == it[j - 1]);
                } else {
                    assert(r[i] == it[i - 1]);
                    assert(r[j] == it[j - 1]);
                }
            }
        }
    }
}

/// Sorting by importance keeps every memory, once each, and orders them.
pub proof fn sort_desc_facts(s: Seq<MemoryRecord>)
    ensures
        sort_desc(s).len() == s.len(),
        sort_desc(s).to_multiset() == s.to_multiset(),
        ranked_desc(sort_desc(s)),
    decreases s.len(),
{
    broadcast use vstd::seq_lib::group_to_multiset_ensures;

    if s.len() > 0 {
        let p = s.drop_last();
        sort_desc_facts(p);
        lemma_insert_desc_facts(sort_desc(p), s.last());
        assert(s =~= p.push(s.last()));
    }
}

/// `d` holds a memory that is the same as `x`.
pub open spec fn has_same(d: Seq<MemoryRecord>, x: MemoryRecord) -> bool {
    exists|j: int| 0 <= j < d.len() && same_memory(x, #[trigger] d[j])
}

/// Deduplication keeps, for every memory, one that is the same memory; it
/// never grows the list and keeps a non-empty list non-empty.
pub proof fn dedup_keeps_each_memory(s: Seq<MemoryRecord>)
    ensures
        dedup_spec(s).len() <= s.len(),
        s.len() > 0 ==> dedup_spec(s).len() > 0,
        forall|i: int| 0 <= i < s.len() ==> has_same(dedup_spec(s), #[trigger] s[i]),
    decreases s.len(),
{
    let r = dedup_spec(s);
    if s.len() <= 1 {
        assert(r == s);
        assert forall|i: int| 0 <= i < s.len() implies has_same(r, #[trigger] s[i]) by {
            assert(same_memory(s[i], r[i]));
        }
    } else {
        let p = s.drop_last();
        dedup_keeps_each_memory(p);
        let d = dedup_spec(p);
        assert forall|i: int| 0 <= i < s.len() implies has_same(r, #[trigger] s[i]) by {
            if i < s.len() - 1 {
                assert(s[i] == p[i]);
                assert(has_same(d, p[i]));
                let j = choose|j: int| 0 <= j < d.len() && same_memory(p[i], #[trigger] d[j]);
                assert(r[j] == d[j]);
                assert(same_memory(s[i], r[j]));
            } else if same_memory(s.last(), d.last()) {
                assert(r == d);
                assert(same_memory(s[i], r[d.len() - 1]));
            } else {
                assert(r == d.push(s.last()));
                assert(r[d.len() as int] == s.last());
                assert(same_memory(s[i], r[d.len() as int]));
            }
        }
    }
}

// ---------------------------------------------------------------------------
// Executable ordering and deduplication
// ---------------------------------------------------------------------------
/// Inserts a memory before the first one of lower rank.
fn insert_desc_exec(res: &mut Vec<MemoryRecord>, e: MemoryRecord)
    ensures
        final(res)@ == insert_desc(old(res)@, e),
{
    let mut p: usize = 0;
    while p < res.len() && !(res[p].rank < e.rank)
        invariant
            p <= res@.len(),
            forall|k: int| 0 <= k < p ==> !((#[trigger] res@[k]).rank < e.rank),
        decreases res@.len() - p,
    {
        p = p + 1;
    }
    proof {
        lemma_insert_desc_at(res@, e, p as int);
    }
    res.insert(p, e);
}

/// Memories ordered from most to least important, equal ranks in their order.
pub fn sort_by_rank_desc(v: &Vec<MemoryRecord>) -> (r: Vec<MemoryRecord>)
    ensures
        r@ == sort_desc(v@),
{
    let mut res: Vec<MemoryRecord> = Vec::new();
    let mut i: usize = 0;
    assert(v@.take(0) =~= Seq::<MemoryRecord>::empty());
    while i < v.len()
        invariant
            i <= v@.len(),
            res@ == sort_desc(v@.take(i as int)),
        decreases v@.len() - i,
    {
        assert(v@.take(i + 1).drop_last() =~= v@.take(i as int));
        insert_desc_exec(&mut res, v[i].duplicate());
        i = i + 1;
    }
    assert(v@.take(v@.len() as int) =~= v@);
    res
}

/// Whether two memories are of the same event at the same time.
fn same_memory_exec(a: &MemoryRecord, b: &MemoryRecord) -> (r: bool)
    ensures
        r == same_memory(*a, *b),
{
    a.timestamp == b.timestamp && str_eq(a.event.as_str(), b.event.as_str())
}

/// Memories with repeats of the last kept one dropped.
pub fn dedup_memories(v: &Vec<MemoryRecord>) -> (r: Vec<MemoryRecord>)
    ensures
        r@ == dedup_spec(v@),
{
    let mut out: Vec<MemoryRecord> = Vec::new();
    let mut i: usize = 0;
    assert(v@.take(0) =~= Seq::<MemoryRecord>::empty());
    while i < v.len()
        invariant
            i <= v@.len(),
            out@ == dedup_spec(v@.take(i as int)),
        decreases v@.len() - i,
    {
        let ghost t = v@.take(i + 1);
        if i == 0 {
            assert(t =~= seq![v@[0]]);
            out.push(v[0].duplicate());
            assert(out@ =~= t);
        } else {
            assert(t.drop_last() =~= v@.take(i as int));
            assert(t.last() == v@[i as int]);
            proof {
                dedup_keeps_each_memory(v@.take(i as int));
            }
            let n = out.len();
            let last = &out[n - 1];
            if !same_memory_exec(&v[i], last) {
                out.push(v[i].duplicate());
            }
        }
        i = i + 1;
    }
    assert(v@.take(v@.len() as int) =~= v@);
    out
}

// ---------------------------------------------------------------------------
// Keeping memories
// ---------------------------------------------------------------------------
/// The memories after compression, from the short-term, long-term and
/// important lists: short-term memories beyond the limit, the least important
/// first, move to long-term; long-term keeps its `long_limit` most important;
/// long-term and important memories are ordered by importance with repeats
/// dropped.
pub open spec fn compressed(
    short_limit: nat,
    long_limit: nat,
    short: Seq<MemoryRecord>,
    long: Seq<MemoryRecord>,
    important: Seq<MemoryRecord>,
) -> (Seq<MemoryRecord>, Seq<MemoryRecord>, Seq<MemoryRecord>) {
    let (s1, l1) = if short.len() > short_limit {
        let so = sort_desc(short);
        (so.take(short_limit as int), long + so.skip(short_limit as int))
    } else {
        (short, long)
    };
    let l2 = if l1.len() > long_limit {
        sort_desc(l1).take(long_limit as int)
    } else {
        l1
    };
    (s1, dedup_spec(sort_desc(l2)), dedup_spec(sort_desc(important)))
}

/// The limits on an NPC's memories.
#[derive(Debug, Clone, Copy, PartialEq, Eq, Structural)]
pub struct MemoryManager {
    short_term_limit: usize,
    long_term_limit: usize,
}

impl MemoryManager {
    /// How many short-term memories are kept.
    pub closed spec fn short_limit(&self) -> nat {
        self.short_term_limit as nat
    }

    /// How many long-term memories are kept.
    pub closed spec fn long_limit(&self) -> nat {
        self.long_term_limit as nat
    }

    /// Limits of at least one memory each.
    pub fn new(short_term_limit: usize, long_term_limit: usize) -> (m: MemoryManager)
        ensures
            m.short_limit() == if short_term_limit >= 1 {
                short_term_limit as nat
            } else {
                1
            },
            m.long_limit() == if long_term_limit >= 1 {
                long_term_limit as nat
            } else {
                1
            },
    {
        MemoryManager {
            short_term_limit: if short_term_limit >= 1 {
                short_term_limit
            } else {
                1
            },
            long_term_limit: if long_term_limit >= 1 {
                long_term_limit
            } else {
                1
            },
        }
    }

    /// Compresses the memories.
    pub fn compress_memories(&self, memory: &mut NPCMemory)
        ensures
            final(memory).short_term@ == compressed(
                self.short_limit(),
                self.long_limit(),
                old(memory).short_term@,
                old(memory).long_term@,
                old(memory).important_events@,
            ).0,
            final(memory).long_term@ == compressed(
                self.short_limit(),
                self.long_limit(),
                old(memory).short_term@,
                old(memory).long_term@,
                old(memory).important_events@,
            ).1,
            final(memory).important_events@ == compressed(
                self.short_limit(),
                self.long_limit(),
                old(memory).short_term@,
                old(memory).long_term@,
                old(memory).important_events@,
            ).2,
    {
        let ghost s0 = memory.short_term@;
        let ghost l0 = memory.long_term@;
        let ghost i0 = memory.important_events@;
        let limit = self.short_term_limit;
        if memory.short_term.len() > limit {
            let sorted = sort_by_rank_desc(&memory.short_term);
            proof {
                sort_desc_facts(s0);
            }
            let n = sorted.len();
            let mut kept: Vec<MemoryRecord> = Vec::new();
            let mut i: usize = 0;
            while i < limit
                invariant
                    sorted@ == sort_desc(s0),
                    n == sorted@.len(),
                    n > limit,
                    i <= limit,
                    kept@ == sorted@.take(i as int),
                decreases limit - i,
            {
                kept.push(sorted[i].duplicate());
                i = i + 1;
                assert(kept@ =~= sorted@.take(i as int));
            }
            let mut j: usize = limit;
            assert(memory.long_term@ =~= l0 + sorted@.subrange(limit as int, limit as int));
            while j < n
                invariant
                    sorted@ == sort_desc(s0),
                    n == sorted@.len(),
                    limit <= j <= n,
                    memory.long_term@ == l0 + sorted@.subrange(limit as int, j as int),
                    memory.important_events@ == i0,
                decreases n - j,
            {
                memory.long_term.push(sorted[j].duplicate());
                j = j + 1;
                assert(memory.long_term@ =~= l0 + sorted@.subrange(limit as int, j as int));
            }
            assert(sorted@.subrange(limit as int, n as int) =~= sorted@.skip(limit as int));
            memory.short_term = kept;
        }
        let long_limit = self.long_term_limit;
        if memory.long_term.len() > long_limit {
            let ghost l1 = memory.long_term@;
            let sorted = sort_by_rank_desc(&memory.long_term);
            proof {
                sort_desc_facts(l1);
            }
            let mut kept: Vec<MemoryRecord> = Vec::new();
            let mut i: usize = 0;
            while i < long_limit
                invariant
                    sorted@ == sort_desc(l1),
                    sorted@.len() == l1.len(),
                    l1.len() > long_limit,
                    i <= long_limit,
                    kept@ == sorted@.take(i as int),
                decreases long_limit - i,
            {
                kept.push(sorted[i].duplicate());
                i = i + 1;
                assert(kept@ =~= sorted@.take(i as int));
            }
            memory.long_term = kept;
        }
        let sorted_long = sort_by_rank_desc(&memory.long_term);
        memory.long_term = dedup_memories(&sorted_long);
        assert(memory.important_events@ == i0);
        let sorted_important = sort_by_rank_desc(&memory.important_events);
        memory.important_events = dedup_memories(&sorted_important);
        assert(memory.important_events@ == dedup_spec(sort_desc(i0)));
    }

    /// Adds a memory: to short-term always, and to important and long-term as
    /// well when it is important; then compresses.
    pub fn add_memory(&self, memory: &mut NPCMemory, entry: MemoryRecord, important: bool)
        ensures
            ({
                let c = compressed(
                    self.short_limit(),
                    self.long_limit(),
                    old(memory).short_term@.push(entry),
                    if important {
                        old(memory).long_term@.push(entry)
                    } else {
                        old(memory).long_term@
                    },
                    if important {
                        old(memory).important_events@.push(entry)
                    } else {
                        old(memory).important_events@
                    },
                );
                &&& final(memory).short_term@ == c.0
                &&& final(memory).long_term@ == c.1
                &&& final(memory).important_events@ == c.2
            }),
    {
        if important {
            memory.important_events.push(entry.duplicate());
            memory.long_term.push(entry.duplicate());
        }
        memory.short_term.push(entry);
        self.compress_memories(memory);
    }
}

// ---------------------------------------------------------------------------
// Laws
// ---------------------------------------------------------------------------
/// After compression at most `short_limit` memories stay short-term: all of
/// them when they fit, else the most important ones, none of which ranks below
/// any memory moved out.
pub proof fn compression_keeps_the_most_important(
    short_limit: nat,
    long_limit: nat,
    short: Seq<MemoryRecord>,
    long: Seq<MemoryRecord>,
    important: Seq<MemoryRecord>,
)
    ensures
        compressed(short_limit, long_limit, short, long, important).0.len() <= short_limit,
        short.len() <= short_limit ==> compressed(short_limit, long_limit, short, long, important).0
            == short,
        short.len() > short_limit ==> compressed(short_limit, long_limit, short, long, important).0
            == sort_desc(short).take(short_limit as int),
        short.len() > short_limit ==> forall|i: int, j: int|
            0 <= i < short_limit && short_limit <= j < short.len() ==> (#[trigger] sort_desc(
                short,
            )[i]).rank >= (#[trigger] sort_desc(short)[j]).rank,
{
    sort_desc_facts(short);
}

/// An important memory, once added, is found among the important memories
/// (as the same event at the same time) after compression.
pub proof fn important_memory_is_kept(
    short_limit: nat,
    long_limit: nat,
    short: Seq<MemoryRecord>,
    long: Seq<MemoryRecord>,
    important: Seq<MemoryRecord>,
    entry: MemoryRecord,
)
    ensures
        exists|j: int|
            0 <= j < compressed(short_limit, long_limit, short, long, important.push(entry)).2.len()
                && same_memory(
                entry,
                #[trigger] compressed(short_limit, long_limit, short, long, important.push(entry)).2[j],
            ),
{
    broadcast use vstd::seq_lib::group_to_multiset_ensures;

    let s = important.push(entry);
    sort_desc_facts(s);
    let so = sort_desc(s);
    assert(s.to_multiset().contains(entry)) by {
        assert(s[s.len() - 1] == entry);
    }
    assert(so.contains(entry));
    let k = choose|k: int| 0 <= k < so.len() && so[k] == entry;
    dedup_keeps_each_memory(so);
    assert(has_same(dedup_spec(so), so[k]));
    let d = dedup_spec(so);
    let j = choose|j: int| 0 <= j < d.len() && same_memory(so[k], #[trigger] d[j]);
    assert(compressed(short_limit, long_limit, short, long, s).2 == d);
    assert(same_memory(entry, d[j]));
}

/// Deduplication keeps only memories it was given.
proof fn lemma_dedup_subset(s: Seq<MemoryRecord>)
    ensures
        forall|x: MemoryRecord| #[trigger] dedup_spec(s).contains(x) ==> s.contains(x),
    decreases s.len(),
{
    if s.len() > 1 {
        let p = s.drop_last();
        lemma_dedup_subset(p);
        let d = dedup_spec(p);
        let r = dedup_spec(s);
        assert forall|x: MemoryRecord| #[trigger] r.contains(x) implies s.contains(x) by {
            let j = choose|j: int| 0 <= j < r.len() && r[j] == x;
            if same_memory(s.last(), d.last()) {
                assert(d.contains(x));
            } else if j < d.len() {
                assert(d[j] == x);
                assert(d.contains(x));
            } else {
                assert(x == s.last());
                assert(s[s.len() - 1] == x);
            }
            if d.contains(x) {
                assert(p.contains(x));
                let k = choose|k: int| 0 <= k < p.len() && p[k] == x;
                assert(s[k] == x);
            }
        }
    }
}

/// Deduplicating a list ranked from most to least important keeps it ranked.
proof fn lemma_dedup_ranked(s: Seq<MemoryRecord>)
    requires
        ranked_desc(s),
    ensures
        ranked_desc(dedup_spec(s)),
    decreases s.len(),
{
    if s.len() > 1 {
        let p = s.drop_last();
        assert(ranked_desc(p)) by {
            assert forall|i: int, j: int| 0 <= i < j < p.len() implies (#[trigger] p[i]).rank
                >= (#[trigger] p[j]).rank by {
                assert(p[i] == s[i] && p[j] == s[j]);
            }
        }
        lemma_dedup_ranked(p);
        lemma_dedup_subset(p);
        dedup_keeps_each_memory(p);
        let d = dedup_spec(p);
        if !same_memory(s.last(), d.last()) {
            assert(d.contains(d.last()));
            let k = choose|k: int| 0 <= k < p.len() && p[k] == d.last();
            assert(s[k] == p[k]);
            assert(s[k].rank >= s[s.len() - 1].rank);
            let r = d.push(s.last());
            assert forall|i: int, j: int| 0 <= i < j < r.len() implies (#[trigger] r[i]).rank
                >= (#[trigger] r[j]).rank by {
                if j == r.len() - 1 {
                    assert(r[i] == d[i]);
                    if i < d.len() - 1 {
                        assert(d[i].rank >= d[d.len() - 1].rank);
                    }
                } else {
                    assert(r[i] == d[i] && r[j] == d[j]);
                }
            }
        }
    }
}

/// A memory of a list ranked from most to least important, ranking above a
/// memory among the first `n`, is itself among the first `n`.
proof fn lemma_ranked_prefix(so: Seq<MemoryRecord>, n: int, d: MemoryRecord, k: MemoryRecord)
    requires
        ranked_desc(so),
        0 <= n <= so.len(),
        so.contains(d),
        so.take(n).contains(k),
        d.rank > k.rank,
    ensures
        so.take(n).contains(d),
{
    let i = choose|i: int| 0 <= i < n && so.take(n)[i] == k;
    let j = choose|j: int| 0 <= j < so.len() && so[j] == d;
    assert(so[i] == k);
    if j >= n {
        assert(so[i].rank >= so[j].rank);
    }
    assert(so.take(n)[j] == d);
}

/// When memories overflow long-term memory, the most important are kept:
/// long-term memory holds at most its limit, and no memory kept there ranks
/// below a memory that could have gone there (a long-term memory, or one
/// moved out of short-term memory) and was dropped.
pub proof fn long_term_keeps_the_most_important(
    short_limit: nat,
    long_limit: nat,
    short: Seq<MemoryRecord>,
    long: Seq<MemoryRecord>,
    important: Seq<MemoryRecord>,
)
    ensures
        compressed(short_limit, long_limit, short, long, important).1.len() <= long_limit,
        ranked_desc(compressed(short_limit, long_limit, short, long, important).1),
        ranked_desc(compressed(short_limit, long_limit, short, long, important).2),
        long.len() + short.len() - compressed(short_limit, long_limit, short, long, important).0.len()
            <= long_limit ==> forall|d: MemoryRecord|
            #![trigger has_same(compressed(short_limit, long_limit, short, long, important).1, d)]
            long.contains(d) || (short.contains(d) && !compressed(
                short_limit,
                long_limit,
                short,
                long,
                important,
            ).0.contains(d)) ==> has_same(
                compressed(short_limit, long_limit, short, long, important).1,
                d,
            ),
        forall|d: MemoryRecord, k: MemoryRecord|
            #![trigger has_same(compressed(short_limit, long_limit, short, long, important).1, d), compressed(short_limit, long_limit, short, long, important).1.contains(k)]
            (long.contains(d) || (short.contains(d) && !compressed(
                short_limit,
                long_limit,
                short,
                long,
                important,
            ).0.contains(d))) && compressed(
                short_limit,
                long_limit,
                short,
                long,
                important,
            ).1.contains(k) && d.rank > k.rank ==> has_same(
                compressed(short_limit, long_limit, short, long, important).1,
                d,
            ),
{
    broadcast use vstd::seq_lib::group_to_multiset_ensures;

    let r = compressed(short_limit, long_limit, short, long, important);
    let so = sort_desc(short);
    sort_desc_facts(short);
    let (s1, l1) = if short.len() > short_limit {
        (so.take(short_limit as int), long + so.skip(short_limit as int))
    } else {
        (short, long)
    };
    let so1 = sort_desc(l1);
    sort_desc_facts(l1);
    let l2 = if l1.len() > long_limit {
        so1.take(long_limit as int)
    } else {
        l1
    };
    let so2 = sort_desc(l2);
    sort_desc_facts(l2);
    assert(r.0 == s1);
    assert(r.1 == dedup_spec(so2));
    lemma_dedup_subset(so2);
    dedup_keeps_each_memory(so2);
    lemma_dedup_ranked(so2);
    sort_desc_facts(important);
    lemma_dedup_ranked(sort_desc(important));
    assert(l1.len() == long.len() + short.len() - r.0.len());
    assert forall|d: MemoryRecord|
        #![trigger has_same(r.1, d)]
        l1.len() <= long_limit && (long.contains(d) || (short.contains(d) && !r.0.contains(d)))
            implies has_same(r.1, d) by {
        if long.contains(d) {
            let j = choose|j: int| 0 <= j < long.len() && long[j] == d;
            assert(l1[j] == d);
        } else {
            assert(so.to_multiset().count(d) > 0);
            let j = choose|j: int| 0 <= j < so.len() && so[j] == d;
            if j < short_limit {
                assert(s1[j] == d);
            }
            assert(l1[long.len() + j - short_limit] == d);
        }
        assert(l2.contains(d));
        assert(so2.to_multiset().count(d) > 0);
        let m = choose|m: int| 0 <= m < so2.len() && so2[m] == d;
        assert(has_same(r.1, so2[m]));
    }
    assert forall|d: MemoryRecord, k: MemoryRecord|
        (long.contains(d) || (short.contains(d) && !r.0.contains(d))) && r.1.contains(k) && d.rank
            > k.rank implies has_same(r.1, d) by {
        // d could go long-term
        if long.contains(d) {
            let j = choose|j: int| 0 <= j < long.len() && long[j] == d;
            assert(l1[j] == d);
        } else {
            assert(short.len() > short_limit);
            assert(so.to_multiset().count(d) > 0);
            let j = choose|j: int| 0 <= j < so.len() && so[j] == d;
            if j < short_limit {
                assert(s1[j] == d);
            }
            assert(l1[long.len() + j - short_limit] == d);
        }
        assert(l1.contains(d));
        // k is kept
        assert(so2.contains(k));
        assert(l2.to_multiset().count(k) > 0);
        assert(l2.contains(k));
        if l1.len() > long_limit {
            assert(l1.to_multiset().count(d) > 0);
            assert(so1.to_multiset().count(d) > 0);
            assert(so1.contains(d));
            lemma_ranked_prefix(so1, long_limit as int, d, k);
        }
        assert(l2.contains(d));
        assert(so2.to_multiset().count(d) > 0);
        let m = choose|m: int| 0 <= m < so2.len() && so2[m] == d;
        assert(has_same(r.1, so2[m]));
    }
}

} // verus!
